//! What the inspector shows for the current selection, and what can be done
//! with all of it.

use vstd::prelude::*;
use vstd::utf8::*;

use super::attrs::{csg_kind, is_csg, node_switches, offers_material};
use super::connections::is_rooted;
use super::deform::{deforms, supports_deform};
use super::use_wrap::{is_wrap_target, resolve_use_wrap_target, target_view, AstNode};
use crate::edits::{committed, front_committed, idle, source_taken, SourceEdit, UndoStep};
use crate::paths::{is_stem, last_segment, path_stem, portable, stem_of};
use crate::rewrite::{clipped, rekeyed, rewrite_node_kind};
use crate::scene::{node_at, Connector, SceneGraph, SceneNode};
use crate::span::Span;
use crate::studio::{MogenStudioApp, OpenFile};
use crate::text::{cat2, cat3, decimal, decimal_digits, opt_view, str_eq};

verus! {

// ---- the header ------------------------------------------------------------

/// The headline above several selected nodes.
pub open spec fn multi_headline(n: nat) -> Seq<char> {
    decimal_digits(n) + " nodes selected — editing primary"@
}

/// How a selected node is listed: the primary one, which is the last, with a
/// star.
pub open spec fn listed_name(s: SceneGraph, selected: Seq<u32>, i: int) -> Seq<char> {
    let name = match node_at(s, selected[i]) {
        Some(n) => n.name@,
        None => "(stale)"@,
    };
    if i + 1 == selected.len() {
        "★ "@ + name
    } else {
        ""@ + name
    }
}

/// The selected nodes as they are listed.
pub fn selected_names(s: &SceneGraph, selected: &Vec<u32>) -> (r: Vec<String>)
    ensures
        r@.len() == selected@.len(),
        forall|i: int| 0 <= i < r@.len() ==> (#[trigger] r@[i])@ == listed_name(*s, selected@, i),
{
    let mut out: Vec<String> = Vec::new();
    let mut i: usize = 0;
    while i < selected.len()
        invariant
            i <= selected@.len(),
            out@.len() == i,
            forall|k: int| 0 <= k < i ==> (#[trigger] out@[k])@ == listed_name(*s, selected@, k),
        decreases selected.len() - i,
    {
        let id = selected[i];
        let name = if (id as usize) < s.nodes.len() {
            s.nodes[id as usize].name.as_str()
        } else {
            "(stale)"
        };
        let prefix = if i + 1 == selected.len() {
            "★ "
        } else {
            ""
        };
        out.push(cat2(prefix, name));
        i = i + 1;
    }
    out
}

/// The headline above several selected nodes; one alone has none.
pub fn headline(n: usize) -> (r: Option<String>)
    ensures
        opt_view(r) == if n > 1 {
            Some(multi_headline(n as nat))
        } else {
            None
        },
{
    if n > 1 {
        let digits = decimal(n);
        Some(cat2(digits.as_str(), " nodes selected — editing primary"))
    } else {
        None
    }
}

/// The mark of something that comes from an import: an arrow and the stem of
/// the file, or `import` without one.
pub open spec fn is_badge(origin: Seq<char>, badge: Seq<char>) -> bool {
    exists|stem: Option<Seq<char>>| #[trigger]
        is_stem(origin, stem) && badge == "⤴ "@ + match stem {
            Some(x) => x,
            None => "import"@,
        }
}

/// The mark of something that comes from an import.
pub fn import_badge(origin: &str) -> (r: String)
    ensures
        is_badge(origin@, r@),
        portable(origin@) ==> r@ == "⤴ "@ + stem_of(
            last_segment(origin@),
        ),
{
    let stem = path_stem(origin);
    let ghost seen = opt_view(stem);
    let r = match stem {
        Some(x) => cat2("⤴ ", x.as_str()),
        None => cat2("⤴ ", "import"),
    };
    assert(is_stem(origin@, seen));
    r
}

// ---- what can be edited ----------------------------------------------------

/// What the inspector offers for the primary selection.
pub enum InspectorState {
    NoSelection,
    NoBuild,
    NoScene,
    /// The node is gone since the last build.
    Stale,
    /// The node was made by an array, a mirror or a set operation.
    Derived,
    /// The node came in by a `use`, which may be wrapped in a group.
    Imported { wrap: Option<(Span, String)> },
    /// A layout pass places the node.
    Placed,
    Editable,
}

/// What the inspector offers for a node. `wrapper` says that the node is the
/// wrapper of an import, which can be edited.
pub open spec fn guards(
    s: SceneGraph,
    n: SceneNode,
    wrapper: bool,
    ast: Option<Vec<AstNode>>,
    r: InspectorState,
) -> bool {
    if !n.editable {
        r is Derived
    } else if n.use_id is Some && !wrapper {
        r matches InspectorState::Imported { wrap } && is_wrap_target(s, n, ast, target_view(wrap))
    } else if n.relative_placed {
        r is Placed
    } else {
        r is Editable
    }
}

/// What the inspector offers for a node.
pub fn evaluate_guards(
    s: &SceneGraph,
    n: &SceneNode,
    wrapper: bool,
    ast: &Option<Vec<AstNode>>,
) -> (r: InspectorState)
    requires
        is_rooted(*s, n.parent),
    ensures
        guards(*s, *n, wrapper, *ast, r),
{
    if !n.editable {
        return InspectorState::Derived;
    }
    if n.use_id.is_some() && !wrapper {
        return InspectorState::Imported { wrap: resolve_use_wrap_target(s, n, ast) };
    }
    if n.relative_placed {
        return InspectorState::Placed;
    }
    InspectorState::Editable
}

/// The parts of the inspector that are shown for a node that can be edited.
#[derive(Clone, Copy, Debug, PartialEq, Eq, Structural)]
pub struct Sections {
    pub material: bool,
    pub geometry: bool,
    pub cave: bool,
    pub csg: bool,
    pub array: bool,
    pub mirror: bool,
    pub mesh: bool,
    pub shadow: bool,
    pub collider: bool,
    pub deform: bool,
    pub light: bool,
    pub connectors: bool,
}

/// The parts of the inspector that are shown for a node. What is read from the
/// source needs a declaration there; a light has no surface to edit, and a
/// cave keeps its own colliders.
pub open spec fn sections_of(s: SceneGraph, n: SceneNode) -> Sections {
    let declared = n.source_span is Some;
    Sections {
        material: n.light is None && s.materials@.len() > 0,
        geometry: declared,
        cave: n.kind@ == "cave"@ && declared,
        csg: is_csg(n.kind@),
        array: n.kind@ == "array"@,
        mirror: n.kind@ == "mirror"@,
        mesh: n.kind@ == "mesh"@,
        shadow: n.light is None,
        collider: n.light is None && n.kind@ != "cave"@,
        deform: deforms(n.mesh is Some, n.kind@) && declared,
        light: n.light is Some,
        connectors: n.connectors@.len() > 0,
    }
}

/// The parts of the inspector that are shown for a node that can be edited.
pub fn inspector_sections(s: &SceneGraph, n: &SceneNode) -> (r: Sections)
    ensures
        r == sections_of(*s, *n),
{
    let declared = n.source_span.is_some();
    let kind = n.kind.as_str();
    let (shadow, collider) = node_switches(n);
    Sections {
        material: offers_material(s, n),
        geometry: declared,
        cave: str_eq(kind, "cave") && declared,
        csg: csg_kind(kind),
        array: str_eq(kind, "array"),
        mirror: str_eq(kind, "mirror"),
        mesh: str_eq(kind, "mesh"),
        shadow,
        collider,
        deform: supports_deform(n.mesh.is_some(), kind) && declared,
        light: n.light.is_some(),
        connectors: n.connectors.len() > 0,
    }
}

/// The compiled scene of the file in the foreground.
pub open spec fn front_scene(app: MogenStudioApp) -> Option<SceneGraph> {
    match app.front().last_result {
        Some(result) => result.scene,
        None => None,
    }
}

/// Whether the parents of the primary selection, if there is one in the
/// compiled scene, lead to a root.
pub open spec fn selection_rooted(app: MogenStudioApp) -> bool {
    match (app.primary(), front_scene(app)) {
        (Some(id), Some(s)) => match node_at(s, id) {
            Some(n) => is_rooted(s, n.parent),
            None => true,
        },
        _ => true,
    }
}

impl MogenStudioApp {
    /// What the inspector offers for the primary selection. `wrapper` says that
    /// the selected node is the wrapper of an import, and `ast` is the parsed
    /// source, or none when it does not parse.
    pub fn ui_selected(&self, wrapper: bool, ast: &Option<Vec<AstNode>>) -> (r: InspectorState)
        requires
            self.wf(),
            selection_rooted(*self),
        ensures
            match self.primary() {
                None => r is NoSelection,
                Some(id) => match self.front().last_result {
                    None => r is NoBuild,
                    Some(result) => match result.scene {
                        None => r is NoScene,
                        Some(s) => match node_at(s, id) {
                            None => r is Stale,
                            Some(n) => guards(s, n, wrapper, *ast, r),
                        },
                    },
                },
            },
    {
        let id = match self.primary_selection() {
            Some(id) => id,
            None => return InspectorState::NoSelection,
        };
        match &self.active().last_result {
            None => InspectorState::NoBuild,
            Some(result) => match &result.scene {
                None => InspectorState::NoScene,
                Some(s) => if (id as usize) < s.nodes.len() {
                    evaluate_guards(s, &s.nodes[id as usize], wrapper, ast)
                } else {
                    InspectorState::Stale
                },
            },
        }
    }

    /// Lets the editor's caret jump to the node whose attributes were just
    /// written.
    pub fn follow_edit(&mut self, span: Option<Span>, edits: usize)
        requires
            old(self).wf(),
        ensures
            *final(self) == (MogenStudioApp { files: final(self).files, ..*old(self) }),
            final(self).files@ == match span {
                Some(s) => if edits > 0 {
                    old(self).files@.update(
                        old(self).active as int,
                        OpenFile { pending_caret: Some(s.start), ..old(self).front() },
                    )
                } else {
                    old(self).files@
                },
                None => old(self).files@,
            },
    {
        if let Some(s) = span {
            if edits > 0 {
                let i = self.active;
                self.files[i].pending_caret = Some(s.start);
            }
        }
    }
}

// ---- deleting the selection ------------------------------------------------

/// The spans of the selected nodes that have one.
pub open spec fn spans_of(spans: Seq<Option<Span>>, selected: Seq<u32>) -> Seq<Span>
    decreases selected.len(),
{
    if selected.len() == 0 {
        Seq::empty()
    } else {
        let before = spans_of(spans, selected.drop_last());
        let id = selected.last();
        if id < spans.len() && spans[id as int] is Some {
            before.push(spans[id as int]->0)
        } else {
            before
        }
    }
}

/// Whether a span lies within a larger one of the list.
pub open spec fn is_inner(all: Seq<Span>, s: Span) -> bool {
    exists|j: int| 0 <= j < all.len() && (#[trigger] all[j]).covers(s) && all[j] != s
}

/// Whether `out` holds exactly the outermost spans of `all`, each once, and
/// from the last in the source to the first.
pub open spec fn is_delete_plan(all: Seq<Span>, out: Seq<Span>) -> bool {
    &&& forall|k: int| 0 <= k < out.len() ==> all.contains(#[trigger] out[k])
    &&& forall|k: int| 0 <= k < out.len() ==> !is_inner(all, #[trigger] out[k])
    &&& forall|i: int|
        0 <= i < all.len() && !is_inner(all, #[trigger] all[i]) ==> out.contains(all[i])
    &&& forall|a: int, b: int| 0 <= a < b < out.len() ==> #[trigger] out[a] != #[trigger] out[b]
    &&& forall|a: int, b: int|
        0 <= a < b < out.len() ==> (#[trigger] out[a]).start >= (#[trigger] out[b]).start
}

fn spans_selected(spans: &Vec<Option<Span>>, selected: &Vec<u32>) -> (r: Vec<Span>)
    ensures
        r@ == spans_of(spans@, selected@),
{
    let mut out: Vec<Span> = Vec::new();
    let mut i: usize = 0;
    while i < selected.len()
        invariant
            i <= selected@.len(),
            out@ == spans_of(spans@, selected@.take(i as int)),
        decreases selected.len() - i,
    {
        assert(selected@.take(i + 1).drop_last() =~= selected@.take(i as int));
        let id = selected[i] as usize;
        if id < spans.len() {
            if let Some(s) = spans[id] {
                out.push(s);
            }
        }
        i = i + 1;
    }
    assert(selected@.take(i as int) =~= selected@);
    out
}

fn inner(all: &Vec<Span>, s: Span) -> (r: bool)
    ensures
        r == is_inner(all@, s),
{
    let mut j: usize = 0;
    while j < all.len()
        invariant
            j <= all@.len(),
            forall|k: int| 0 <= k < j ==> !((#[trigger] all@[k]).covers(s) && all@[k] != s),
        decreases all.len() - j,
    {
        let o = all[j];
        if o.start <= s.start && s.end <= o.end && o != s {
            assert(all@[j as int].covers(s));
            return true;
        }
        j = j + 1;
    }
    false
}

/// Puts a span into a list that is ordered from the last start to the first,
/// unless it is there already.
fn place(out: &mut Vec<Span>, s: Span)
    requires
        forall|a: int, b: int|
            0 <= a < b < old(out)@.len() ==> (#[trigger] old(out)@[a]).start >= (
            #[trigger] old(out)@[b]).start,
        forall|a: int, b: int|
            0 <= a < b < old(out)@.len() ==> #[trigger] old(out)@[a] != #[trigger] old(out)@[b],
    ensures
        forall|a: int, b: int|
            0 <= a < b < final(out)@.len() ==> (#[trigger] final(out)@[a]).start >= (
            #[trigger] final(out)@[b]).start,
        forall|a: int, b: int|
            0 <= a < b < final(out)@.len() ==> #[trigger] final(out)@[a]
                != #[trigger] final(out)@[b],
        final(out)@.contains(s),
        forall|k: int|
            0 <= k < final(out)@.len() ==> #[trigger] final(out)@[k] == s || old(out)@.contains(
                final(out)@[k],
            ),
        forall|x: Span| old(out)@.contains(x) ==> final(out)@.contains(x),
{
    let ghost before = out@;
    let mut k: usize = 0;
    while k < out.len() && out[k].start >= s.start && out[k] != s
        invariant
            k <= out@.len(),
            out@ == before,
            forall|j: int| 0 <= j < k ==> (#[trigger] out@[j]).start >= s.start && out@[j] != s,
        decreases out.len() - k,
    {
        k = k + 1;
    }
    if k < out.len() && out[k] == s {
        assert(out@[k as int] == s);
        return ;
    }
    out.insert(k, s);
    proof {
        let now = out@;
        assert(now == before.insert(k as int, s));
        assert(now[k as int] == s);
        assert forall|x: Span| before.contains(x) implies now.contains(x) by {
            let j = choose|j: int| 0 <= j < before.len() && before[j] == x;
            if j < k {
                assert(now[j] == x);
            } else {
                assert(now[j + 1] == x);
            }
        }
        assert forall|j: int| 0 <= j < now.len() implies #[trigger] now[j] == s || before.contains(
            now[j],
        ) by {
            if j < k {
                assert(now[j] == before[j]);
            } else if j > k {
                assert(now[j] == before[j - 1]);
            }
        }
        assert forall|a: int, b: int| 0 <= a < b < now.len() implies (#[trigger] now[a]).start >= (
        #[trigger] now[b]).start && now[a] != now[b] by {
            let oa = if a < k {
                a
            } else {
                a - 1
            };
            let ob = if b < k {
                b
            } else {
                b - 1
            };
            if a != k {
                assert(now[a] == before[oa]);
            }
            if b != k {
                assert(now[b] == before[ob]);
            }
            if a == k {
                // Everything from here on starts before `s`.
                assert(before[k as int].start < s.start);
                if ob > k {
                    assert(before[k as int].start >= before[ob].start);
                }
            } else if b == k {
                assert(before[a].start >= s.start && before[a] != s);
            }
        }
    }
}

/// The spans to delete for a selection: the outermost ones, from the last in
/// the source to the first, so that deleting one leaves the offsets of the
/// next ones valid.
pub fn delete_plan(all: &Vec<Span>) -> (out: Vec<Span>)
    ensures
        is_delete_plan(all@, out@),
{
    let mut out: Vec<Span> = Vec::new();
    let mut i: usize = 0;
    while i < all.len()
        invariant
            i <= all@.len(),
            forall|k: int| 0 <= k < out@.len() ==> all@.contains(#[trigger] out@[k]),
            forall|k: int| 0 <= k < out@.len() ==> !is_inner(all@, #[trigger] out@[k]),
            forall|j: int|
                0 <= j < i && !is_inner(all@, #[trigger] all@[j]) ==> out@.contains(all@[j]),
            forall|a: int, b: int|
                0 <= a < b < out@.len() ==> #[trigger] out@[a] != #[trigger] out@[b],
            forall|a: int, b: int|
                0 <= a < b < out@.len() ==> (#[trigger] out@[a]).start >= (#[trigger] out@[b]).start,
        decreases all.len() - i,
    {
        if !inner(all, all[i]) {
            place(&mut out, all[i]);
        }
        i = i + 1;
    }
    out
}

/// The spans to delete for the nodes that are selected.
pub fn selection_delete_plan(spans: &Vec<Option<Span>>, selected: &Vec<u32>) -> (out: Vec<Span>)
    ensures
        is_delete_plan(spans_of(spans@, selected@), out@),
{
    let all = spans_selected(spans, selected);
    delete_plan(&all)
}

/// The label of the delete button.
pub fn delete_label(n: usize) -> (r: String)
    ensures
        r@ == if n > 1 {
            "Delete "@ + decimal_digits(n as nat) + " nodes"@
        } else {
            "Delete"@
        },
{
    if n > 1 {
        let digits = decimal(n);
        cat3("Delete ", digits.as_str(), " nodes")
    } else {
        "Delete".to_owned()
    }
}

/// Whether `trace` holds the source before and after each deletion of the
/// plan, in order.
pub open spec fn deletes<F: Fn(&String, Span) -> String>(
    delete: F,
    plan: Seq<Span>,
    trace: Seq<String>,
) -> bool {
    &&& trace.len() == plan.len() + 1
    &&& forall|i: int|
        0 <= i < plan.len() ==> call_ensures(
            delete,
            (&trace[i], #[trigger] plan[i]),
            trace[i + 1],
        )
}

/// Deletes the spans of a plan one after the other.
pub fn delete_all<F: Fn(&String, Span) -> String>(
    source: &String,
    plan: &Vec<Span>,
    delete: F,
) -> (r: String)
    requires
        forall|s: &String, span: Span| call_requires(delete, (s, span)),
    ensures
        exists|trace: Seq<String>| #[trigger]
            deletes(delete, plan@, trace) && trace[0]@ == source@ && trace.last() == r,
{
    let mut cur = source.clone();
    let ghost mut trace: Seq<String> = seq![cur];
    let mut i: usize = 0;
    while i < plan.len()
        invariant
            i <= plan@.len(),
            forall|s: &String, span: Span| call_requires(delete, (s, span)),
            trace.len() == i + 1,
            trace[0]@ == source@,
            trace.last() == cur,
            forall|k: int|
                0 <= k < i ==> call_ensures(
                    delete,
                    (&trace[k], #[trigger] plan@[k]),
                    trace[k + 1],
                ),
        decreases plan.len() - i,
    {
        let ghost before = trace;
        let next = delete(&cur, plan[i]);
        proof {
            trace = trace.push(next);
            assert forall|k: int| 0 <= k < i + 1 implies call_ensures(
                delete,
                (&trace[k], #[trigger] plan@[k]),
                trace[k + 1],
            ) by {
                if k < i {
                    assert(trace[k] == before[k] && trace[k + 1] == before[k + 1]);
                } else {
                    assert(trace[k] == before.last());
                }
            }
        }
        cur = next;
        i = i + 1;
    }
    assert(deletes(delete, plan@, trace));
    cur
}

// ---- what is done to the selected node -------------------------------------

/// Something that is done to the source of the selected node.
#[derive(Clone, Copy, Debug)]
pub enum NodeAction {
    /// Takes the range of a light out.
    RemoveRange,
    /// Takes an attribute out.
    RemoveAttr(&'static str),
    /// Changes the keyword of the node.
    ChangeKind(&'static str),
    Duplicate,
    /// Deletes every selected node.
    DeleteSelection,
}

/// What was clicked in the inspector in one frame.
pub struct InspectorClicks {
    pub remove_range: bool,
    pub remove_shadow: bool,
    pub remove_collider: bool,
    /// The modifiers that were removed.
    pub remove_deforms: Vec<&'static str>,
    pub change_kind: Option<&'static str>,
    pub clear_material: bool,
    pub duplicate: bool,
    pub delete: bool,
}

/// One action, or none.
pub open spec fn action_if(b: bool, a: NodeAction) -> Seq<NodeAction> {
    if b {
        seq![a]
    } else {
        Seq::empty()
    }
}

/// The removal of each modifier.
pub open spec fn removals(attrs: Seq<&'static str>) -> Seq<NodeAction> {
    attrs.map_values(|a: &'static str| NodeAction::RemoveAttr(a))
}

/// What was clicked in one frame, in the order in which it is done.
pub open spec fn ordered_actions(c: InspectorClicks) -> Seq<NodeAction> {
    action_if(c.remove_range, NodeAction::RemoveRange) + action_if(
        c.remove_shadow,
        NodeAction::RemoveAttr("cast_shadow"),
    ) + action_if(c.remove_collider, NodeAction::RemoveAttr("collider")) + removals(
        c.remove_deforms@,
    ) + action_if(c.change_kind is Some, NodeAction::ChangeKind(c.change_kind->0)) + action_if(
        c.clear_material,
        NodeAction::RemoveAttr("material"),
    ) + action_if(c.duplicate, NodeAction::Duplicate) + action_if(
        c.delete,
        NodeAction::DeleteSelection,
    )
}

fn push_if(v: &mut Vec<NodeAction>, b: bool, a: NodeAction)
    ensures
        final(v)@ == old(v)@ + action_if(b, a),
{
    let ghost before = v@;
    if b {
        v.push(a);
    }
    assert(v@ =~= before + action_if(b, a));
}

fn push_removals(v: &mut Vec<NodeAction>, attrs: &Vec<&'static str>)
    ensures
        final(v)@ == old(v)@ + removals(attrs@),
{
    let ghost before = v@;
    let mut i: usize = 0;
    while i < attrs.len()
        invariant
            i <= attrs@.len(),
            v@ == before + removals(attrs@.take(i as int)),
        decreases attrs.len() - i,
    {
        v.push(NodeAction::RemoveAttr(attrs[i]));
        i = i + 1;
        assert(v@ =~= before + removals(attrs@.take(i as int)));
    }
    assert(attrs@.take(i as int) =~= attrs@);
}

/// What was clicked in one frame, in the order in which it is done.
pub fn inspector_actions(c: &InspectorClicks) -> (r: Vec<NodeAction>)
    ensures
        r@ == ordered_actions(*c),
{
    let mut v: Vec<NodeAction> = Vec::new();
    push_if(&mut v, c.remove_range, NodeAction::RemoveRange);
    assert(v@ =~= action_if(c.remove_range, NodeAction::RemoveRange));
    push_if(&mut v, c.remove_shadow, NodeAction::RemoveAttr("cast_shadow"));
    push_if(&mut v, c.remove_collider, NodeAction::RemoveAttr("collider"));
    push_removals(&mut v, &c.remove_deforms);
    let ghost before = v@;
    if let Some(k) = c.change_kind {
        v.push(NodeAction::ChangeKind(k));
    }
    assert(v@ =~= before + action_if(
        c.change_kind is Some,
        NodeAction::ChangeKind(c.change_kind->0),
    ));
    push_if(&mut v, c.clear_material, NodeAction::RemoveAttr("material"));
    push_if(&mut v, c.duplicate, NodeAction::Duplicate);
    push_if(&mut v, c.delete, NodeAction::DeleteSelection);
    v
}

/// The spans of the nodes of the file in the foreground; none before a build.
pub open spec fn front_spans(app: MogenStudioApp) -> Seq<Option<Span>> {
    match app.front().last_result {
        Some(result) => result.node_spans@,
        None => Seq::empty(),
    }
}

/// What deleting the selected nodes does: the spans of a plan go one after the
/// other, and nothing is selected any more. Without a span nothing happens.
pub open spec fn selection_deleted<F: Fn(&String, Span) -> String>(
    delete: F,
    pre: MogenStudioApp,
    now: u64,
    post: MogenStudioApp,
    undo: Option<UndoStep>,
) -> bool {
    exists|plan: Seq<Span>| #[trigger]
        is_delete_plan(spans_of(front_spans(pre), pre.selected@), plan) && if plan.len() == 0 {
            idle(pre, post, undo)
        } else {
            plan_deleted(delete, pre, plan, now, post, undo)
        }
}

/// What deleting the spans of a plan does.
pub open spec fn plan_deleted<F: Fn(&String, Span) -> String>(
    delete: F,
    pre: MogenStudioApp,
    plan: Seq<Span>,
    now: u64,
    post: MogenStudioApp,
    undo: Option<UndoStep>,
) -> bool {
    exists|trace: Seq<String>| #[trigger]
        deletes(delete, plan, trace) && trace[0]@ == pre.front().source@ && {
            &&& committed(
                pre.front(),
                SourceEdit::DeleteNodes,
                trace.last(),
                now,
                post.front(),
                undo,
            )
            &&& post.files@ == pre.files@.update(pre.active as int, post.front())
            &&& post == (MogenStudioApp { files: post.files, selected: post.selected, ..pre })
            &&& post.selected@ == Seq::<u32>::empty()
        }
}

/// What an action on the selected node does. `host` holds what is done to a
/// source: taking an attribute out; duplicating a node; and deleting one.
/// Without a declaration of its own the node can only be deleted.
pub open spec fn acted<
    R: Fn(&String, Span, &'static str) -> String,
    C: Fn(&String, Span) -> String,
    D: Fn(&String, Span) -> String,
>(
    host: (R, C, D),
    pre: MogenStudioApp,
    span: Option<Span>,
    a: NodeAction,
    now: u64,
    post: MogenStudioApp,
    undo: Option<UndoStep>,
) -> bool {
    match (a, span) {
        (NodeAction::DeleteSelection, _) => selection_deleted(host.2, pre, now, post, undo),
        (_, None) => idle(pre, post, undo),
        (NodeAction::RemoveRange, Some(s)) => exists|out: String| #[trigger]
            call_ensures(host.0, (&pre.front().source, s, "range"), out) && front_committed(
                pre,
                SourceEdit::RemoveLightRange,
                out,
                now,
                post,
                undo,
            ),
        (NodeAction::RemoveAttr(attr), Some(s)) => exists|out: String| #[trigger]
            call_ensures(host.0, (&pre.front().source, s, attr), out) && front_committed(
                pre,
                SourceEdit::NodeAttr(attr),
                out,
                now,
                post,
                undo,
            ),
        (NodeAction::ChangeKind(kind), Some(s)) => exists|out: String|
            #![trigger encode_utf8(out@)]
            encode_utf8(out@) == rekeyed(
                encode_utf8(pre.front().source@),
                clipped(s.start, encode_utf8(pre.front().source@).len()),
                encode_utf8(kind@),
            ) && front_committed(pre, SourceEdit::NodeAttr("kind"), out, now, post, undo),
        (NodeAction::Duplicate, Some(s)) => exists|out: String| #[trigger]
            call_ensures(host.1, (&pre.front().source, s), out) && front_committed(
                pre,
                SourceEdit::DuplicateNode,
                out,
                now,
                post,
                undo,
            ),
    }
}

impl MogenStudioApp {
    /// Deletes every selected node. `delete` takes a node out of a source.
    pub fn delete_selection<F: Fn(&String, Span) -> String>(&mut self, delete: F, now: u64) -> (undo:
        Option<UndoStep>)
        requires
            old(self).wf(),
            forall|s: &String, span: Span| call_requires(delete, (s, span)),
        ensures
            final(self).wf(),
            selection_deleted(delete, *old(self), now, *final(self), undo),
    {
        let plan = match &self.active().last_result {
            Some(result) => selection_delete_plan(&result.node_spans, &self.selected),
            None => {
                let none: Vec<Option<Span>> = Vec::new();
                selection_delete_plan(&none, &self.selected)
            },
        };
        assert(is_delete_plan(spans_of(front_spans(*self), self.selected@), plan@));
        if plan.len() == 0 {
            return None;
        }
        let ghost pre = *self;
        let source = delete_all(&self.active().source, &plan, delete);
        let undo = self.commit_source(&SourceEdit::DeleteNodes, source, now);
        self.selected = Vec::new();
        assert(plan_deleted(delete, pre, plan@, now, *self, undo));
        undo
    }

    /// Does one thing to the source of the selected node, which is declared at
    /// `span`.
    pub fn act_on_node<
        R: Fn(&String, Span, &'static str) -> String,
        C: Fn(&String, Span) -> String,
        D: Fn(&String, Span) -> String,
    >(&mut self, span: Option<Span>, a: NodeAction, host: (R, C, D), now: u64) -> (undo: Option<
        UndoStep,
    >)
        requires
            old(self).wf(),
            forall|s: &String, span: Span, attr: &'static str|
                call_requires(host.0, (s, span, attr)),
            forall|s: &String, span: Span| call_requires(host.1, (s, span)),
            forall|s: &String, span: Span| call_requires(host.2, (s, span)),
        ensures
            final(self).wf(),
            acted(host, *old(self), span, a, now, *final(self), undo),
    {
        let s = match (a, span) {
            (NodeAction::DeleteSelection, _) => return self.delete_selection(host.2, now),
            (_, None) => return None,
            (_, Some(s)) => s,
        };
        match a {
            NodeAction::RemoveRange => {
                let out = host.0(&self.active().source, s, "range");
                self.commit_source(&SourceEdit::RemoveLightRange, out, now)
            },
            NodeAction::RemoveAttr(attr) => {
                let out = host.0(&self.active().source, s, attr);
                self.commit_source(&SourceEdit::NodeAttr(attr), out, now)
            },
            NodeAction::ChangeKind(kind) => {
                let out = rewrite_node_kind(self.active().source.as_str(), s, kind);
                assert(encode_utf8(out@) == encode_utf8(out@));
                self.commit_source(&SourceEdit::NodeAttr("kind"), out, now)
            },
            NodeAction::Duplicate => {
                let out = host.1(&self.active().source, s);
                self.commit_source(&SourceEdit::DuplicateNode, out, now)
            },
            NodeAction::DeleteSelection => self.delete_selection(host.2, now),
        }
    }

    /// Wraps the `use` of an imported node in a group. `wrap` puts a group of
    /// a name around a span of a source.
    pub fn wrap_use<F: Fn(&String, Span, &String) -> String>(
        &mut self,
        target: &Option<(Span, String)>,
        wrap: F,
        now: u64,
    ) -> (undo: Option<UndoStep>)
        requires
            old(self).wf(),
            forall|s: &String, span: Span, n: &String| call_requires(wrap, (s, span, n)),
        ensures
            final(self).wf(),
            match *target {
                None => idle(*old(self), *final(self), undo),
                Some((span, name)) => exists|out: String| #[trigger]
                    call_ensures(wrap, (&old(self).front().source, span, &name), out)
                        && front_committed(
                        *old(self),
                        SourceEdit::WrapUse,
                        out,
                        now,
                        *final(self),
                        undo,
                    ),
            },
    {
        match target {
            None => None,
            Some((span, name)) => {
                let out = wrap(&self.active().source, *span, name);
                self.commit_source(&SourceEdit::WrapUse, out, now)
            },
        }
    }
}

/// The label of a connector; one that was made from a bounding box carries a
/// sign.
pub fn connector_label(c: &Connector) -> (r: String)
    ensures
        r@ == if c.source_span is None {
            c.name@ + " ⓢ"@
        } else {
            c.name@
        },
{
    if c.source_span.is_none() {
        cat2(c.name.as_str(), " ⓢ")
    } else {
        c.name.clone()
    }
}

/// The header of the list of connectors; a node without any has none.
pub fn connectors_header(n: usize) -> (r: Option<String>)
    ensures
        opt_view(r) == if n == 0 {
            None
        } else {
            Some("Connectors ("@ + decimal_digits(n as nat) + ")"@)
        },
{
    if n == 0 {
        None
    } else {
        let digits = decimal(n);
        Some(cat3("Connectors (", digits.as_str(), ")"))
    }
}

// ---- laws ------------------------------------------------------------------

/// Every selected node goes: each span of the selection lies within one that
/// is deleted.
pub proof fn law_delete_plan_covers_the_selection(all: Seq<Span>, out: Seq<Span>, i: int)
    requires
        is_delete_plan(all, out),
        0 <= i < all.len(),
    ensures
        exists|k: int| 0 <= k < out.len() && (#[trigger] out[k]).covers(all[i]),
{
    lemma_outermost(all, out, all[i], all[i], width(all, all[i]));
}

/// How many spans of the list cover a span.
spec fn width(all: Seq<Span>, s: Span) -> nat
    decreases all.len(),
{
    if all.len() == 0 {
        0
    } else {
        width(all.drop_last(), s) + if all.last().covers(s) && all.last() != s {
            1nat
        } else {
            0nat
        }
    }
}

proof fn lemma_width_shrinks(all: Seq<Span>, s: Span, t: Span, j: int)
    requires
        0 <= j < all.len(),
        all[j] == t,
        t.covers(s),
        t != s,
    ensures
        width(all, t) < width(all, s),
    decreases all.len(),
{
    let rest = all.drop_last();
    if j < all.len() - 1 {
        assert(rest[j] == t);
        lemma_width_shrinks(rest, s, t, j);
    } else {
        lemma_width_monotone(rest, s, t);
    }
}

proof fn lemma_width_monotone(all: Seq<Span>, s: Span, t: Span)
    requires
        t.covers(s),
        t != s,
    ensures
        width(all, t) <= width(all, s),
    decreases all.len(),
{
    if all.len() > 0 {
        lemma_width_monotone(all.drop_last(), s, t);
    }
}

proof fn lemma_outermost(all: Seq<Span>, out: Seq<Span>, first: Span, s: Span, w: nat)
    requires
        is_delete_plan(all, out),
        all.contains(s),
        s.covers(first),
        w == width(all, s),
    ensures
        exists|k: int| 0 <= k < out.len() && (#[trigger] out[k]).covers(first),
    decreases w,
{
    if is_inner(all, s) {
        let j = choose|j: int| 0 <= j < all.len() && (#[trigger] all[j]).covers(s) && all[j] != s;
        lemma_width_shrinks(all, s, all[j], j);
        lemma_outermost(all, out, first, all[j], width(all, all[j]));
    } else {
        let i = choose|i: int| 0 <= i < all.len() && all[i] == s;
        assert(out.contains(all[i]));
        let k = choose|k: int| 0 <= k < out.len() && out[k] == s;
        assert(out[k].covers(first));
    }
}

/// Deletions never disturb one another: where the spans of the selection are
/// nested or apart, as those of declarations are, each deletion ends before
/// the ones already done begin.
pub proof fn law_deletions_are_apart(all: Seq<Span>, out: Seq<Span>, a: int, b: int)
    requires
        is_delete_plan(all, out),
        forall|i: int, j: int|
            0 <= i < all.len() && 0 <= j < all.len() ==> (#[trigger] all[i]).covers(
                #[trigger] all[j],
            ) || all[j].covers(all[i]) || all[i].end <= all[j].start || all[j].end <= all[i].start,
        forall|i: int| 0 <= i < all.len() ==> (#[trigger] all[i]).start < all[i].end,
        0 <= a < b < out.len(),
    ensures
        out[b].end <= out[a].start,
{
    let x = out[a];
    let y = out[b];
    assert(all.contains(x) && all.contains(y));
    let i = choose|i: int| 0 <= i < all.len() && all[i] == x;
    let j = choose|j: int| 0 <= j < all.len() && all[j] == y;
    assert(all[i].covers(all[j]) || all[j].covers(all[i]) || all[i].end <= all[j].start
        || all[j].end <= all[i].start);
    assert(!is_inner(all, x) && !is_inner(all, y));
    if all[i].covers(all[j]) {
        assert(all[i].covers(y) && all[i] != y);
    }
    if all[j].covers(all[i]) {
        assert(all[j].covers(x) && all[j] != x);
    }
}

/// Every selected node is listed by its name, in order, and the last one, and
/// only that, carries the star.
pub proof fn law_selected_nodes_are_listed(
    s: &SceneGraph,
    selected: &Vec<u32>,
    r: Vec<String>,
    i: int,
)
    requires
        call_ensures(selected_names, (s, selected), r),
        0 <= i < selected@.len(),
    ensures
        r@.len() == selected@.len(),
        i + 1 < selected@.len() && selected@[i] < s.nodes@.len() ==> r@[i]@
            == s.nodes@[selected@[i] as int].name@,
        i + 1 == selected@.len() && selected@[i] < s.nodes@.len() ==> r@[i]@ == "★ "@
            + s.nodes@[selected@[i] as int].name@,
        i + 1 < selected@.len() && selected@[i] >= s.nodes@.len() ==> r@[i]@ == "(stale)"@,
{
    assert(r@[i]@ == listed_name(*s, selected@, i));
    reveal_strlit("");
    if selected@[i] < s.nodes@.len() {
        let name = s.nodes@[selected@[i] as int].name@;
        assert(""@ + name =~= name);
    }
    assert(""@ + "(stale)"@ =~= "(stale)"@);
}

/// A node can be edited when it was written by hand, was not brought in by a
/// `use` (the wrapper of an import was not), and no layout places it; otherwise
/// the first of these that fails is told.
pub proof fn law_guards_tell_what_stands_in_the_way(
    s: &SceneGraph,
    n: &SceneNode,
    wrapper: bool,
    ast: &Option<Vec<AstNode>>,
    r: InspectorState,
)
    requires
        call_ensures(evaluate_guards, (s, n, wrapper, ast), r),
    ensures
        r is Derived <==> !n.editable,
        r is Imported <==> n.editable && n.use_id is Some && !wrapper,
        r is Placed <==> n.editable && (n.use_id is None || wrapper) && n.relative_placed,
        r is Editable <==> n.editable && (n.use_id is None || wrapper) && !n.relative_placed,
{
}

/// The inspector speaks of the last selected node of the last build, and tells
/// when one of these is missing.
pub proof fn law_inspector_shows_the_primary_node(
    app: &MogenStudioApp,
    wrapper: bool,
    ast: &Option<Vec<AstNode>>,
    r: InspectorState,
)
    requires
        app.wf(),
        call_ensures(MogenStudioApp::ui_selected, (app, wrapper, ast), r),
    ensures
        r is NoSelection <==> app.selected@.len() == 0,
        app.selected@.len() > 0 ==> (r is NoBuild <==> app.files@[app.active as int].last_result is None),
        app.selected@.len() > 0 ==> (app.files@[app.active as int].last_result matches Some(b) ==> {
            &&& r is NoScene <==> b.scene is None
            &&& b.scene matches Some(s) ==> {
                let id = app.selected@.last();
                &&& r is Stale <==> id >= s.nodes@.len()
                &&& id < s.nodes@.len() ==> (r is Derived <==> !s.nodes@[id as int].editable)
                &&& id < s.nodes@.len() && r is Editable ==> s.nodes@[id as int].editable
                    && !s.nodes@[id as int].relative_placed
            }
        }),
{
}

/// Each part of the inspector is there for the nodes that it is for.
pub proof fn law_sections_fit_the_node(s: &SceneGraph, n: &SceneNode, r: Sections)
    requires
        call_ensures(inspector_sections, (s, n), r),
    ensures
        r.light <==> n.light is Some,
        r.shadow <==> n.light is None,
        r.collider <==> n.light is None && n.kind@ != "cave"@,
        r.material <==> n.light is None && s.materials@.len() > 0,
        r.geometry <==> n.source_span is Some,
        r.cave <==> n.kind@ == "cave"@ && n.source_span is Some,
        r.csg <==> n.kind@ == "union"@ || n.kind@ == "difference"@ || n.kind@ == "intersect"@,
        r.array <==> n.kind@ == "array"@,
        r.mirror <==> n.kind@ == "mirror"@,
        r.mesh <==> n.kind@ == "mesh"@,
        r.connectors <==> n.connectors@.len() > 0,
        r.deform ==> n.mesh is Some && n.source_span is Some && !r.mesh && !r.csg,
{
}

/// The caret jumps to the start of the node whose attributes were written, in
/// the file in the foreground.
pub proof fn law_caret_follows_the_edit(app: &mut MogenStudioApp, span: Option<Span>, edits: usize)
    requires
        old(app).wf(),
        call_ensures(MogenStudioApp::follow_edit, (app, span, edits), ()),
    ensures
        span matches Some(s) ==> edits > 0 ==> final(app).files@[old(app).active as int].pending_caret == Some(s.start),
        span is None || edits == 0 ==> final(app).files@ == old(app).files@,
        final(app).files@.len() == old(app).files@.len(),
        final(app).files@[old(app).active as int].source == old(app).files@[old(app).active as int].source,
        final(app).selected == old(app).selected,
{
}

proof fn lemma_spans_of(spans: Seq<Option<Span>>, selected: Seq<u32>)
    ensures
        forall|i: int|
            0 <= i < selected.len() && (#[trigger] selected[i]) < spans.len()
                && spans[selected[i] as int] is Some ==> spans_of(spans, selected).contains(
                spans[selected[i] as int]->0,
            ),
        forall|k: int|
            0 <= k < spans_of(spans, selected).len() ==> exists|i: int|
                0 <= i < selected.len() && (#[trigger] selected[i]) < spans.len()
                    && spans[selected[i] as int] == Some(#[trigger] spans_of(spans, selected)[k]),
    decreases selected.len(),
{
    if selected.len() > 0 {
        let t = selected.drop_last();
        lemma_spans_of(spans, t);
        let before = spans_of(spans, t);
        let all = spans_of(spans, selected);
        assert forall|i: int|
            0 <= i < selected.len() && (#[trigger] selected[i]) < spans.len()
                && spans[selected[i] as int] is Some implies all.contains(
            spans[selected[i] as int]->0,
        ) by {
            if i < t.len() {
                assert(t[i] == selected[i]);
                assert(before.contains(spans[t[i] as int]->0));
                let k = choose|k: int|
                    0 <= k < before.len() && before[k] == spans[t[i] as int]->0;
                assert(all[k] == before[k]);
            } else {
                assert(all[all.len() - 1] == spans[selected[i] as int]->0);
            }
        }
        assert forall|k: int| 0 <= k < all.len() implies exists|i: int|
            0 <= i < selected.len() && (#[trigger] selected[i]) < spans.len()
                && spans[selected[i] as int] == Some(#[trigger] all[k]) by {
            if k < before.len() {
                assert(all[k] == before[k]);
                let i = choose|i: int|
                    0 <= i < t.len() && (#[trigger] t[i]) < spans.len() && spans[t[i] as int]
                        == Some(before[k]);
                assert(selected[i] == t[i]);
            } else {
                assert(selected[selected.len() - 1] < spans.len());
            }
        }
    }
}

/// What is deleted for a selection are spans of selected nodes, none within
/// another, that cover every selected node; the last in the source goes first.
pub proof fn law_selection_is_deleted_whole(
    spans: &Vec<Option<Span>>,
    selected: &Vec<u32>,
    out: Vec<Span>,
    i: int,
    k: int,
)
    requires
        call_ensures(selection_delete_plan, (spans, selected), out),
    ensures
        0 <= i < selected@.len() && selected@[i] < spans@.len() && spans@[selected@[i] as int] is Some
            ==> exists|k: int|
            0 <= k < out@.len() && (#[trigger] out@[k]).start <= (
            spans@[selected@[i] as int]->0).start && (spans@[selected@[i] as int]->0).end
                <= out@[k].end,
        0 <= k < out@.len() ==> exists|i: int|
            0 <= i < selected@.len() && (#[trigger] selected@[i]) < spans@.len()
                && spans@[selected@[i] as int] == Some(out@[k]),
        0 <= k && k + 1 < out@.len() ==> out@[k].start >= out@[k + 1].start && out@[k] != out@[k + 1],
{
    let all = spans_of(spans@, selected@);
    lemma_spans_of(spans@, selected@);
    if 0 <= i < selected@.len() && selected@[i] < spans@.len() && spans@[selected@[i] as int] is Some {
        let sp = spans@[selected@[i] as int]->0;
        assert(all.contains(sp));
        let j = choose|j: int| 0 <= j < all.len() && all[j] == sp;
        law_delete_plan_covers_the_selection(all, out@, j);
        let q = choose|q: int| 0 <= q < out@.len() && (#[trigger] out@[q]).covers(all[j]);
        assert(out@[q].start <= sp.start && sp.end <= out@[q].end);
    }
    if 0 <= k < out@.len() {
        assert(all.contains(out@[k]));
        let j = choose|j: int| 0 <= j < all.len() && all[j] == out@[k];
        let q = choose|q: int|
            0 <= q < selected@.len() && (#[trigger] selected@[q]) < spans@.len()
                && spans@[selected@[q] as int] == Some(all[j]);
        assert(selected@[q] < spans@.len());
    }
}

/// Every span of a plan is deleted, in order, each from what the deletion
/// before it left.
pub proof fn law_plan_is_carried_out<F: Fn(&String, Span) -> String>(
    source: &String,
    plan: &Vec<Span>,
    delete: F,
    r: String,
)
    requires
        call_ensures(delete_all::<F>, (source, plan, delete), r),
    ensures
        plan@.len() == 0 ==> r@ == source@,
        exists|at: Seq<String>|
            {
                &&& #[trigger] at.len() == plan@.len() + 1
                &&& at[0]@ == source@
                &&& at.last() == r
                &&& forall|i: int|
                    0 <= i < plan@.len() ==> call_ensures(
                        delete,
                        (&at[i], #[trigger] plan@[i]),
                        at[i + 1],
                    )
            },
{
    let trace = choose|trace: Seq<String>| #[trigger]
        deletes(delete, plan@, trace) && trace[0]@ == source@ && trace.last() == r;
    assert(trace.len() == plan@.len() + 1);
}

/// After a deletion nothing is selected, the source went to the file in the
/// foreground, and it can be undone; where no selected node has a span nothing
/// happens.
pub proof fn law_deleted_selection_is_let_go<F: Fn(&String, Span) -> String>(
    app: &mut MogenStudioApp,
    delete: F,
    now: u64,
    undo: Option<UndoStep>,
    i: int,
)
    requires
        old(app).wf(),
        call_ensures(MogenStudioApp::delete_selection::<F>, (app, delete, now), undo),
    ensures
        undo is None ==> *final(app) == *old(app),
        undo is Some ==> final(app).selected@.len() == 0 && source_taken(
            *old(app),
            final(app).files@[old(app).active as int].source@,
            *final(app),
            undo,
        ),
        old(app).files@[old(app).active as int].last_result matches Some(b) ==> (0 <= i < old(app).selected@.len() && old(app).selected@[i] < b.node_spans@.len() && b.node_spans@[old(app).selected@[i] as int] is Some ==> undo is Some),
        final(app).wizard == old(app).wizard,
{
    let pre = *old(app);
    let spans = front_spans(pre);
    let plan = choose|plan: Seq<Span>| #[trigger]
        is_delete_plan(spans_of(spans, pre.selected@), plan) && if plan.len() == 0 {
            idle(pre, *final(app), undo)
        } else {
            plan_deleted(delete, pre, plan, now, *final(app), undo)
        };
    lemma_spans_of(spans, pre.selected@);
    if 0 <= i < pre.selected@.len() && pre.selected@[i] < spans.len()
        && spans[pre.selected@[i] as int] is Some {
        let all = spans_of(spans, pre.selected@);
        let sp = spans[pre.selected@[i] as int]->0;
        assert(all.contains(sp));
        let j = choose|j: int| 0 <= j < all.len() && all[j] == sp;
        law_delete_plan_covers_the_selection(all, plan, j);
    }
}

/// Everything that was clicked is done, and nothing else; taking things out
/// comes before changing the kind, and deleting comes last.
pub proof fn law_clicks_become_actions(c: &InspectorClicks, r: Vec<NodeAction>)
    requires
        call_ensures(inspector_actions, (c,), r),
    ensures
        c.delete ==> r@.len() > 0 && r@.last() is DeleteSelection,
        c.remove_range ==> r@.len() > 0 && r@[0] is RemoveRange,
        !c.delete && c.duplicate ==> r@.len() > 0 && r@.last() is Duplicate,
        !c.remove_range && c.remove_shadow ==> r@.len() > 0 && r@[0]
            == NodeAction::RemoveAttr("cast_shadow"),
        !c.remove_range && !c.remove_shadow && c.remove_collider ==> r@.len() > 0 && r@[0]
            == NodeAction::RemoveAttr("collider"),
        !c.delete && !c.duplicate && c.clear_material ==> r@.len() > 0 && r@.last()
            == NodeAction::RemoveAttr("material"),
        !c.delete && !c.duplicate && !c.clear_material ==> (c.change_kind matches Some(k) ==> r@.len()
            > 0 && r@.last() == NodeAction::ChangeKind(k)),
        r@.len() == (if c.remove_range {
            1int
        } else {
            0
        }) + (if c.remove_shadow {
            1int
        } else {
            0
        }) + (if c.remove_collider {
            1int
        } else {
            0
        }) + c.remove_deforms@.len() + (if c.change_kind is Some {
            1int
        } else {
            0
        }) + (if c.clear_material {
            1int
        } else {
            0
        }) + (if c.duplicate {
            1int
        } else {
            0
        }) + (if c.delete {
            1int
        } else {
            0
        }),
        !c.remove_range && !c.remove_shadow && !c.remove_collider ==> forall|i: int|
            0 <= i < c.remove_deforms@.len() ==> #[trigger] r@[i] == NodeAction::RemoveAttr(
                c.remove_deforms@[i],
            ),
{
}

/// What is done to a node is done to its own declaration, in the file in the
/// foreground: an attribute is taken out by its name, the kind becomes the
/// picked one, and a node without a declaration is left alone.
pub proof fn law_actions_go_to_the_declaration<
    R: Fn(&String, Span, &'static str) -> String,
    C: Fn(&String, Span) -> String,
    D: Fn(&String, Span) -> String,
>(
    app: &mut MogenStudioApp,
    span: Option<Span>,
    a: NodeAction,
    host: (R, C, D),
    now: u64,
    undo: Option<UndoStep>,
)
    requires
        old(app).wf(),
        call_ensures(MogenStudioApp::act_on_node::<R, C, D>, (app, span, a, host, now), undo),
    ensures
        span is None && !(a is DeleteSelection) ==> *final(app) == *old(app) && undo is None,
        span matches Some(s) ==> {
            let source = old(app).files@[old(app).active as int].source;
            &&& a matches NodeAction::RemoveAttr(attr) ==> exists|out: String| #[trigger]
                call_ensures(host.0, (&source, s, attr), out) && source_taken(
                    *old(app),
                    out@,
                    *final(app),
                    undo,
                )
            &&& a is RemoveRange ==> exists|out: String| #[trigger]
                call_ensures(host.0, (&source, s, "range"), out) && source_taken(
                    *old(app),
                    out@,
                    *final(app),
                    undo,
                )
            &&& a is Duplicate ==> exists|out: String| #[trigger]
                call_ensures(host.1, (&source, s), out) && source_taken(
                    *old(app),
                    out@,
                    *final(app),
                    undo,
                )
            &&& !(a is DeleteSelection) ==> final(app).selected == old(app).selected
        },
{
    if let Some(s) = span {
        let source = old(app).files@[old(app).active as int].source;
        match a {
            NodeAction::RemoveAttr(attr) => {
                let out = choose|out: String| #[trigger]
                    call_ensures(host.0, (&old(app).front().source, s, attr), out)
                        && front_committed(
                        *old(app),
                        SourceEdit::NodeAttr(attr),
                        out,
                        now,
                        *final(app),
                        undo,
                    );
                assert(call_ensures(host.0, (&source, s, attr), out));
            },
            NodeAction::RemoveRange => {
                let out = choose|out: String| #[trigger]
                    call_ensures(host.0, (&old(app).front().source, s, "range"), out)
                        && front_committed(
                        *old(app),
                        SourceEdit::RemoveLightRange,
                        out,
                        now,
                        *final(app),
                        undo,
                    );
                assert(call_ensures(host.0, (&source, s, "range"), out));
            },
            NodeAction::Duplicate => {
                let out = choose|out: String| #[trigger]
                    call_ensures(host.1, (&old(app).front().source, s), out) && front_committed(
                        *old(app),
                        SourceEdit::DuplicateNode,
                        out,
                        now,
                        *final(app),
                        undo,
                    );
                assert(call_ensures(host.1, (&source, s), out));
            },
            _ => {},
        }
    }
}

/// A node whose kind is changed has the source that replacing its keyword
/// gives.
pub proof fn law_changed_kind_is_committed<
    R: Fn(&String, Span, &'static str) -> String,
    C: Fn(&String, Span) -> String,
    D: Fn(&String, Span) -> String,
>(
    app: &mut MogenStudioApp,
    s: Span,
    kind: &'static str,
    host: (R, C, D),
    now: u64,
    undo: Option<UndoStep>,
    src: &str,
    changed: String,
)
    requires
        old(app).wf(),
        call_ensures(
            MogenStudioApp::act_on_node::<R, C, D>,
            (app, Some(s), NodeAction::ChangeKind(kind), host, now),
            undo,
        ),
        src@ == old(app).files@[old(app).active as int].source@,
        call_ensures(rewrite_node_kind, (src, s, kind), changed),
    ensures
        source_taken(*old(app), changed@, *final(app), undo),
{
    let b = encode_utf8(old(app).front().source@);
    let out = choose|out: String|
        #![trigger encode_utf8(out@)]
        encode_utf8(out@) == rekeyed(b, clipped(s.start, b.len()), encode_utf8(kind@))
            && front_committed(
            *old(app),
            SourceEdit::NodeAttr("kind"),
            out,
            now,
            *final(app),
            undo,
        );
    encode_utf8_decode_utf8(out@);
    encode_utf8_decode_utf8(changed@);
}

/// A `use` is wrapped where it stands, under the name that was found for it;
/// without one nothing happens.
pub proof fn law_wrapped_use_is_committed<F: Fn(&String, Span, &String) -> String>(
    app: &mut MogenStudioApp,
    target: &Option<(Span, String)>,
    wrap: F,
    now: u64,
    undo: Option<UndoStep>,
)
    requires
        old(app).wf(),
        call_ensures(MogenStudioApp::wrap_use::<F>, (app, target, wrap, now), undo),
    ensures
        *target is None ==> *final(app) == *old(app) && undo is None,
        *target matches Some(t) ==> exists|out: String| #[trigger]
            call_ensures(
                wrap,
                (&old(app).files@[old(app).active as int].source, t.0, &t.1),
                out,
            ) && source_taken(*old(app), out@, *final(app), undo),
{
    if let Some(t) = *target {
        let out = choose|out: String| #[trigger]
            call_ensures(wrap, (&old(app).front().source, t.0, &t.1), out) && front_committed(
                *old(app),
                SourceEdit::WrapUse,
                out,
                now,
                *final(app),
                undo,
            );
        assert(call_ensures(
            wrap,
            (&old(app).files@[old(app).active as int].source, t.0, &t.1),
            out,
        ));
    }
}

/// The labels count what they speak of; one alone needs no count.
pub proof fn law_selection_labels_count(
    n: usize,
    head: Option<String>,
    delete: String,
    conns: Option<String>,
)
    requires
        call_ensures(headline, (n,), head),
        call_ensures(delete_label, (n,), delete),
        call_ensures(connectors_header, (n,), conns),
    ensures
        n <= 1 ==> head is None && delete@ == "Delete"@,
        n > 1 ==> opt_view(head) == Some(
            decimal_digits(n as nat) + " nodes selected — editing primary"@,
        ) && delete@ == "Delete "@ + decimal_digits(n as nat) + " nodes"@,
        n == 0 <==> conns is None,
        n > 0 ==> opt_view(conns) == Some("Connectors ("@ + decimal_digits(n as nat) + ")"@),
{
}

/// A connector goes by its name, with a mark where the source does not declare
/// it.
pub proof fn law_connectors_go_by_their_name(c: &Connector, r: String)
    requires
        call_ensures(connector_label, (c,), r),
    ensures
        c.source_span is Some ==> r@ == c.name@,
        c.source_span is None ==> r@ == c.name@ + " ⓢ"@,
{
}

} // verus!
