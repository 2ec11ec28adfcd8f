//! The compiled scene, as far as the panels read it, and which of its parts
//! are in view.

use vstd::prelude::*;

use crate::pick::{
    as_places, lemma_places, lemma_places_rise, lemma_places_same, marked_places, places,
};
use crate::span::Span;
use crate::text::{clone_opt, opt_view, str_eq};

verus! {

/// The size of a mesh.
#[derive(Clone, Copy, Debug, PartialEq, Eq, Structural)]
pub struct MeshSize {
    pub indices: usize,
    pub positions: usize,
}

/// A node that is placed on a socket of another one.
pub struct AttachBinding {
    pub parent: u32,
    pub socket: String,
}

/// A frame that a node offers to attach others to.
pub struct Connector {
    pub name: String,
    pub tag: String,
    /// Where it is declared; the ones made from a bounding box have no place.
    pub source_span: Option<Span>,
}

/// The kinds of punctual lights.
#[derive(Clone, Copy, Debug, PartialEq, Eq, Structural)]
pub enum LightKind {
    Directional,
    Point,
    Spot,
}

/// A node of the scene.
pub struct SceneNode {
    pub name: String,
    pub kind: String,
    pub parent: Option<u32>,
    pub children: Vec<u32>,
    pub mesh: Option<MeshSize>,
    pub material: Option<u32>,
    pub skin: Option<u32>,
    pub light: Option<LightKind>,
    pub attach: Option<AttachBinding>,
    pub conform_target: Option<u32>,
    pub connectors: Vec<Connector>,
    /// The file that the node was imported from.
    pub origin: Option<String>,
    /// The `use` that brought the node in.
    pub use_id: Option<u32>,
    pub source_span: Option<Span>,
    pub editable: bool,
    pub relative_placed: bool,
    pub cast_shadow: bool,
    pub collider: bool,
    /// Whether the collider has a box, that is, a mesh to enclose.
    pub collider_box: bool,
}

/// A material of the scene.
pub struct Material {
    pub name: String,
    pub origin: Option<String>,
}

/// A joint that drives a node.
pub struct Joint {
    pub name: String,
    pub kind: String,
    pub pivot: u32,
}

/// An animation clip, with the node that each of its tracks drives.
pub struct Clip {
    pub name: String,
    pub tracks: Vec<u32>,
    pub origin: Option<String>,
}

/// A skin and the nodes that are its bones.
pub struct Skin {
    pub name: String,
    pub joints: Vec<u32>,
    pub skeleton_root: Option<u32>,
}

/// A compiled scene.
pub struct SceneGraph {
    pub nodes: Vec<SceneNode>,
    pub materials: Vec<Material>,
    pub joints: Vec<Joint>,
    pub clips: Vec<Clip>,
    pub skins: Vec<Skin>,
}

/// How bad a diagnostic is.
#[derive(Clone, Copy, Debug, PartialEq, Eq, Structural)]
pub enum Severity {
    Error,
    Warning,
    Info,
}

/// One finding of the validator.
pub struct Diagnostic {
    pub severity: Severity,
    pub code: String,
    pub message: String,
    pub span: Option<Span>,
}

/// What compiling a source gave.
pub struct CompileResult {
    /// The stage at which compiling stopped; none when it went through.
    pub failed_stage: Option<String>,
    pub scene: Option<SceneGraph>,
    pub diagnostics: Vec<Diagnostic>,
    /// Where each node stands in the source.
    pub node_spans: Vec<Option<Span>>,
}

/// The node with the id `id`, if the scene has one.
pub open spec fn node_at(s: SceneGraph, id: u32) -> Option<SceneNode> {
    if id < s.nodes@.len() {
        Some(s.nodes@[id as int])
    } else {
        None
    }
}

// ---- what is in view -------------------------------------------------------

/// The import that is in view beside the file itself: the one that the
/// selected node comes from.
pub open spec fn import_in_view(s: SceneGraph, selection: Option<u32>) -> Option<Seq<char>> {
    match selection {
        Some(id) => match node_at(s, id) {
            Some(n) => opt_view(n.origin),
            None => None,
        },
        None => None,
    }
}

/// Whether something with the given origin is in view: what the file declares
/// itself always is, what an import declares only while a node of that import
/// is selected.
pub open spec fn in_view(origin: Option<String>, import: Option<Seq<char>>) -> bool {
    match origin {
        None => true,
        Some(p) => import == Some(p@),
    }
}

/// Whether a material is used by a node in view.
pub open spec fn used_in_view(s: SceneGraph, import: Option<Seq<char>>, m: int) -> bool {
    exists|k: int|
        0 <= k < s.nodes@.len() && in_view((#[trigger] s.nodes@[k]).origin, import)
            && s.nodes@[k].material == Some(m as u32)
}

/// Whether a material is listed: it is in view itself, or a node in view uses
/// it.
pub open spec fn material_listed(s: SceneGraph, import: Option<Seq<char>>, m: int) -> bool {
    in_view(s.materials@[m].origin, import) || used_in_view(s, import, m)
}

/// The import that is in view beside the file itself.
pub fn visible_origins(s: &SceneGraph, selection: Option<u32>) -> (r: Option<String>)
    ensures
        opt_view(r) == import_in_view(*s, selection),
{
    match selection {
        Some(id) => {
            if (id as usize) < s.nodes.len() {
                clone_opt(&s.nodes[id as usize].origin)
            } else {
                None
            }
        },
        None => None,
    }
}

/// Whether something with the given origin is in view.
pub fn origin_in_visible_set(origin: &Option<String>, import: &Option<String>) -> (r: bool)
    ensures
        r == in_view(*origin, opt_view(*import)),
{
    match origin {
        None => true,
        Some(p) => match import {
            Some(q) => str_eq(q.as_str(), p.as_str()),
            None => false,
        },
    }
}

/// For each material, whether a node in view uses it.
pub fn materials_referenced_by_visible_nodes(s: &SceneGraph, import: &Option<String>) -> (r: Vec<
    bool,
>)
    requires
        s.materials@.len() <= u32::MAX,
    ensures
        r@.len() == s.materials@.len(),
        forall|m: int|
            0 <= m < r@.len() ==> #[trigger] r@[m] == used_in_view(*s, opt_view(*import), m),
{
    let ghost shown = opt_view(*import);
    let mut used: Vec<bool> = Vec::new();
    let mut i: usize = 0;
    while i < s.materials.len()
        invariant
            i <= s.materials@.len(),
            used@.len() == i,
            forall|m: int| 0 <= m < i ==> !(#[trigger] used@[m]),
        decreases s.materials.len() - i,
    {
        used.push(false);
        i = i + 1;
    }
    let mut k: usize = 0;
    while k < s.nodes.len()
        invariant
            k <= s.nodes@.len(),
            shown == opt_view(*import),
            s.materials@.len() <= u32::MAX,
            used@.len() == s.materials@.len(),
            forall|m: int|
                0 <= m < used@.len() ==> #[trigger] used@[m] == (exists|j: int|
                    0 <= j < k && in_view((#[trigger] s.nodes@[j]).origin, shown)
                        && s.nodes@[j].material == Some(m as u32)),
        decreases s.nodes.len() - k,
    {
        let ghost before = used@;
        let n = &s.nodes[k];
        if let Some(m) = n.material {
            if (m as usize) < used.len() && origin_in_visible_set(&n.origin, import) {
                used.set(m as usize, true);
            }
        }
        assert forall|m: int| 0 <= m < used@.len() implies #[trigger] used@[m] == (exists|j: int|
            0 <= j < k + 1 && in_view((#[trigger] s.nodes@[j]).origin, shown)
                && s.nodes@[j].material == Some(m as u32)) by {
            if before[m] {
                let j = choose|j: int|
                    0 <= j < k && in_view((#[trigger] s.nodes@[j]).origin, shown)
                        && s.nodes@[j].material == Some(m as u32);
                assert(in_view(s.nodes@[j].origin, shown));
            }
            if used@[m] && !before[m] {
                assert(in_view(s.nodes@[k as int].origin, shown));
            }
        }
        k = k + 1;
    }
    used
}

/// The materials that are listed, in order.
pub fn listed_materials(s: &SceneGraph, selection: Option<u32>) -> (r: Vec<usize>)
    requires
        s.materials@.len() <= u32::MAX,
    ensures
        as_places(r@) == places(
            |m: int| material_listed(*s, import_in_view(*s, selection), m),
            s.materials@.len(),
        ),
{
    let import = visible_origins(s, selection);
    let used = materials_referenced_by_visible_nodes(s, &import);
    let ghost shown = import_in_view(*s, selection);
    let mut marks: Vec<bool> = Vec::new();
    let mut i: usize = 0;
    while i < s.materials.len()
        invariant
            i <= s.materials@.len(),
            shown == opt_view(import),
            used@.len() == s.materials@.len(),
            forall|m: int|
                0 <= m < used@.len() ==> #[trigger] used@[m] == used_in_view(*s, shown, m),
            marks@.len() == i,
            forall|m: int| 0 <= m < i ==> #[trigger] marks@[m] == material_listed(*s, shown, m),
        decreases s.materials.len() - i,
    {
        let listed = origin_in_visible_set(&s.materials[i].origin, &import) || used[i];
        marks.push(listed);
        i = i + 1;
    }
    proof {
        lemma_places_same(
            |m: int| marks@[m],
            |m: int| material_listed(*s, shown, m),
            marks@.len(),
        );
    }
    marked_places(&marks)
}

/// The clips that are listed, in order.
pub fn listed_clips(clips: &Vec<Clip>, import: &Option<String>) -> (r: Vec<usize>)
    ensures
        as_places(r@) == places(
            |c: int| in_view(clips@[c].origin, opt_view(*import)),
            clips@.len(),
        ),
{
    let ghost shown = opt_view(*import);
    let mut marks: Vec<bool> = Vec::new();
    let mut i: usize = 0;
    while i < clips.len()
        invariant
            i <= clips@.len(),
            shown == opt_view(*import),
            marks@.len() == i,
            forall|c: int| 0 <= c < i ==> #[trigger] marks@[c] == in_view(clips@[c].origin, shown),
        decreases clips.len() - i,
    {
        marks.push(origin_in_visible_set(&clips[i].origin, import));
        i = i + 1;
    }
    proof {
        lemma_places_same(
            |c: int| marks@[c],
            |c: int| in_view(clips@[c].origin, shown),
            marks@.len(),
        );
    }
    marked_places(&marks)
}

/// With nothing selected exactly the file's own declarations are in view.
pub proof fn law_only_own_declarations_without_selection(s: SceneGraph, origin: Option<String>)
    ensures
        in_view(origin, import_in_view(s, None)) == origin is None,
{
}

/// A material that the file's own geometry uses is always listed, whatever is
/// selected and wherever the material comes from.
pub proof fn law_locally_used_materials_are_listed(
    s: SceneGraph,
    selection: Option<u32>,
    m: int,
    k: int,
)
    requires
        0 <= m < s.materials@.len(),
        0 <= k < s.nodes@.len(),
        s.nodes@[k].origin is None,
        s.nodes@[k].material == Some(m as u32),
    ensures
        material_listed(s, import_in_view(s, selection), m),
{
    assert(in_view(s.nodes@[k].origin, import_in_view(s, selection)));
}

/// Whether something is the file's own, or comes from the file that the
/// selected node comes from.
pub open spec fn at_hand(s: SceneGraph, selection: Option<u32>, origin: Option<String>) -> bool {
    origin matches Some(p) ==> (selection matches Some(id) && id < s.nodes@.len() && (
    s.nodes@[id as int].origin matches Some(q) && q@ == p@))
}

proof fn lemma_at_hand(s: SceneGraph, selection: Option<u32>, origin: Option<String>)
    ensures
        in_view(origin, import_in_view(s, selection)) == at_hand(s, selection, origin),
{
}

/// A material is listed exactly when it is the file's own, comes from the file
/// of the selected node, or is used by a node of which one of these is true;
/// each is listed once, in the order of the scene.
pub proof fn law_listed_materials_are_at_hand(
    s: &SceneGraph,
    selection: Option<u32>,
    r: Vec<usize>,
    m: int,
)
    requires
        call_ensures(listed_materials, (s, selection), r),
        0 <= m < s.materials@.len() <= u32::MAX,
    ensures
        (exists|k: int| 0 <= k < r@.len() && #[trigger] r@[k] == m) <==> at_hand(
            *s,
            selection,
            s.materials@[m].origin,
        ) || exists|k: int|
            0 <= k < s.nodes@.len() && at_hand(*s, selection, (#[trigger] s.nodes@[k]).origin)
                && s.nodes@[k].material == Some(m as u32),
        forall|a: int, b: int| 0 <= a < b < r@.len() ==> (#[trigger] r@[a]) < (#[trigger] r@[b]),
{
    let import = import_in_view(*s, selection);
    let p = |m: int| material_listed(*s, import, m);
    let all = places(p, s.materials@.len());
    lemma_places(p, s.materials@.len());
    lemma_places_rise(p, s.materials@.len());
    lemma_at_hand(*s, selection, s.materials@[m].origin);
    assert(forall|k: int| 0 <= k < r@.len() ==> #[trigger] as_places(r@)[k] == r@[k] as int);
    assert(used_in_view(*s, import, m) <==> exists|k: int|
        0 <= k < s.nodes@.len() && at_hand(*s, selection, (#[trigger] s.nodes@[k]).origin)
            && s.nodes@[k].material == Some(m as u32)) by {
        assert forall|k: int| 0 <= k < s.nodes@.len() implies in_view(
            (#[trigger] s.nodes@[k]).origin,
            import,
        ) == at_hand(*s, selection, s.nodes@[k].origin) by {
            lemma_at_hand(*s, selection, s.nodes@[k].origin);
        }
    }
    if exists|k: int| 0 <= k < r@.len() && #[trigger] r@[k] == m {
        let k = choose|k: int| 0 <= k < r@.len() && #[trigger] r@[k] == m;
        assert(as_places(r@)[k] == m);
        assert(p(all[k]));
    }
    if p(m) {
        assert(all.contains(m));
        let k = choose|k: int| 0 <= k < all.len() && all[k] == m;
        assert(as_places(r@)[k] == r@[k] as int);
    }
    assert forall|a: int, b: int| 0 <= a < b < r@.len() implies (#[trigger] r@[a]) < (
    #[trigger] r@[b]) by {
        assert(as_places(r@)[a] < as_places(r@)[b]);
    }
}

/// A clip is listed exactly when it is the file's own or comes from the import
/// in view; each is listed once, in the order of the scene.
pub proof fn law_listed_clips_are_in_view(
    clips: &Vec<Clip>,
    import: &Option<String>,
    r: Vec<usize>,
    c: int,
)
    requires
        call_ensures(listed_clips, (clips, import), r),
        0 <= c < clips@.len(),
    ensures
        (exists|k: int| 0 <= k < r@.len() && #[trigger] r@[k] == c) <==> (clips@[c].origin matches Some(
            p,
        ) ==> (*import matches Some(q) && q@ == p@)),
        forall|a: int, b: int| 0 <= a < b < r@.len() ==> (#[trigger] r@[a]) < (#[trigger] r@[b]),
{
    let p = |c: int| in_view(clips@[c].origin, opt_view(*import));
    let all = places(p, clips@.len());
    lemma_places(p, clips@.len());
    lemma_places_rise(p, clips@.len());
    assert(forall|k: int| 0 <= k < r@.len() ==> #[trigger] as_places(r@)[k] == r@[k] as int);
    if exists|k: int| 0 <= k < r@.len() && #[trigger] r@[k] == c {
        let k = choose|k: int| 0 <= k < r@.len() && #[trigger] r@[k] == c;
        assert(as_places(r@)[k] == c);
        assert(p(all[k]));
    }
    if p(c) {
        assert(all.contains(c));
        let k = choose|k: int| 0 <= k < all.len() && all[k] == c;
        assert(as_places(r@)[k] == r@[k] as int);
    }
    assert forall|a: int, b: int| 0 <= a < b < r@.len() implies (#[trigger] r@[a]) < (
    #[trigger] r@[b]) by {
        assert(as_places(r@)[a] < as_places(r@)[b]);
    }
}

/// What is in view beside the file itself is the import that the selected node
/// comes from, if it is still there and comes from one.
pub proof fn law_import_of_the_selection_is_in_view(
    s: &SceneGraph,
    selection: Option<u32>,
    r: Option<String>,
    origin: &Option<String>,
    seen: bool,
)
    requires
        call_ensures(visible_origins, (s, selection), r),
        call_ensures(origin_in_visible_set, (origin, &r), seen),
    ensures
        selection is None ==> r is None,
        selection matches Some(id) ==> (id >= s.nodes@.len() ==> r is None),
        selection matches Some(id) ==> (id < s.nodes@.len() ==> (s.nodes@[id as int].origin is None
            <==> r is None)),
        selection matches Some(id) ==> (id < s.nodes@.len() ==> (
        s.nodes@[id as int].origin matches Some(p) ==> (r matches Some(q) && q@ == p@))),
        *origin is None ==> seen,
        *origin matches Some(p) ==> (seen <==> r is Some && (r->0)@ == p@),
{
}

/// A material is used in view exactly when a node of this file, or of the
/// import in view, has it.
pub proof fn law_used_materials_are_those_of_nodes_in_view(
    s: &SceneGraph,
    import: &Option<String>,
    r: Vec<bool>,
    k: int,
    m: u32,
)
    requires
        call_ensures(materials_referenced_by_visible_nodes, (s, import), r),
        s.materials@.len() <= u32::MAX,
        0 <= k < s.nodes@.len(),
        s.nodes@[k].material == Some(m),
        m < s.materials@.len(),
        s.nodes@[k].origin is None || (*import is Some && (s.nodes@[k].origin->0)@ == (
        import->0)@),
    ensures
        r@.len() == s.materials@.len(),
        r@[m as int],
{
    assert(in_view(s.nodes@[k].origin, opt_view(*import)));
    assert(used_in_view(*s, opt_view(*import), m as int));
}

/// A material that no node has is not used.
pub proof fn law_unused_materials_are_not_used(
    s: &SceneGraph,
    import: &Option<String>,
    r: Vec<bool>,
    m: u32,
)
    requires
        call_ensures(materials_referenced_by_visible_nodes, (s, import), r),
        m < s.materials@.len(),
        s.materials@.len() <= u32::MAX,
        forall|k: int| 0 <= k < s.nodes@.len() ==> (#[trigger] s.nodes@[k]).material != Some(m),
    ensures
        !r@[m as int],
{
    assert(r@[m as int] == used_in_view(*s, opt_view(*import), m as int));
}

} // verus!
