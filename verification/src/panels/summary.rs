//! The scene summary: what the whole scene, or the subtree under the selected
//! node, costs.

use std::collections::HashSet;

use vstd::prelude::*;

use crate::pick::{count_where, lemma_count_filtered};
use crate::scene::{node_at, Joint, SceneGraph, SceneNode};
use crate::studio::MogenStudioApp;
use crate::text::{cat2, cat3, decimal_digits, decimal_wide, opt_view, views};

verus! {

broadcast use vstd::std_specs::hash::group_hash_axioms;

// ---- the subtree -----------------------------------------------------------

/// Whether `child` is listed as a child of `id`.
pub open spec fn is_child(s: SceneGraph, id: u32, child: u32) -> bool {
    node_at(s, id) matches Some(n) && n.children@.contains(child)
}

/// Whether `path` leads from node to child all the way.
pub open spec fn is_path(s: SceneGraph, path: Seq<u32>) -> bool {
    &&& path.len() > 0
    &&& forall|i: int| 0 <= i < path.len() - 1 ==> is_child(s, #[trigger] path[i], path[i + 1])
}

/// Whether `id` is `root` or one of its descendants.
pub open spec fn descends(s: SceneGraph, root: u32, id: u32) -> bool {
    exists|path: Seq<u32>| #[trigger] is_path(s, path) && path[0] == root && path.last() == id
}

/// A node and its descendants.
pub open spec fn subtree_of(s: SceneGraph, root: u32) -> Set<u32> {
    Set::new(|id: u32| descends(s, root, id))
}

proof fn lemma_root_descends(s: SceneGraph, root: u32)
    ensures
        descends(s, root, root),
{
    let path = seq![root];
    assert(is_path(s, path));
    assert(path[0] == root && path.last() == root);
}

proof fn lemma_child_descends(s: SceneGraph, root: u32, id: u32, child: u32)
    requires
        descends(s, root, id),
        is_child(s, id, child),
    ensures
        descends(s, root, child),
{
    let path = choose|path: Seq<u32>| #[trigger]
        is_path(s, path) && path[0] == root && path.last() == id;
    let longer = path.push(child);
    assert forall|i: int| 0 <= i < longer.len() - 1 implies is_child(
        s,
        #[trigger] longer[i],
        longer[i + 1],
    ) by {
        if i < path.len() - 1 {
            assert(longer[i] == path[i] && longer[i + 1] == path[i + 1]);
        }
    }
    assert(is_path(s, longer));
    assert(longer[0] == root && longer.last() == child);
}

proof fn lemma_closed_holds_path(s: SceneGraph, path: Seq<u32>, set: Set<u32>, k: int)
    requires
        is_path(s, path),
        set.contains(path[0]),
        forall|id: u32, child: u32| #[trigger]
            set.contains(id) && #[trigger] is_child(s, id, child) ==> set.contains(child),
        0 <= k < path.len(),
    ensures
        set.contains(path[k]),
    decreases k,
{
    if k > 0 {
        lemma_closed_holds_path(s, path, set, k - 1);
        assert(is_child(s, path[k - 1], path[k - 1 + 1]));
        assert(set.contains(path[k - 1]));
    }
}

/// Every id that the first `n` nodes list as a child.
spec fn child_ids(s: SceneGraph, n: nat) -> Set<u32>
    decreases n,
{
    if n == 0 {
        Set::empty()
    } else {
        child_ids(s, (n - 1) as nat).union(s.nodes@[n - 1].children@.to_set())
    }
}

proof fn lemma_child_ids(s: SceneGraph, n: nat)
    requires
        n <= s.nodes@.len(),
    ensures
        child_ids(s, n).finite(),
        forall|i: int, c: u32|
            0 <= i < n && (#[trigger] s.nodes@[i]).children@.contains(c) ==> #[trigger] child_ids(
                s,
                n,
            ).contains(c),
    decreases n,
{
    if n > 0 {
        lemma_child_ids(s, (n - 1) as nat);
        vstd::seq_lib::seq_to_set_is_finite(s.nodes@[n - 1].children@);
        assert forall|i: int, c: u32|
            0 <= i < n && (#[trigger] s.nodes@[i]).children@.contains(
                c,
            ) implies #[trigger] child_ids(s, n).contains(c) by {
            if i < n - 1 {
                assert(child_ids(s, (n - 1) as nat).contains(c));
            } else {
                assert(s.nodes@[n - 1].children@.to_set().contains(c));
            }
        }
    }
}

/// The ids of a node and its descendants. Ids that no node has count as long
/// as some node lists them as a child.
pub fn subtree(s: &SceneGraph, root: u32) -> (ids: HashSet<u32>)
    ensures
        ids@ == subtree_of(*s, root),
        ids@.finite(),
{
    let mut ids: HashSet<u32> = HashSet::new();
    let mut stack: Vec<u32> = Vec::new();
    stack.push(root);
    let ghost all = child_ids(*s, s.nodes@.len()).insert(root);
    proof {
        lemma_child_ids(*s, s.nodes@.len());
        lemma_root_descends(*s, root);
        assert(stack@[0] == root);
    }
    while stack.len() > 0
        invariant
            all.finite(),
            forall|i: int, c: u32|
                0 <= i < s.nodes@.len() && (#[trigger] s.nodes@[i]).children@.contains(c)
                    ==> #[trigger] all.contains(c),
            ids@.subset_of(all),
            forall|k: int| 0 <= k < stack@.len() ==> all.contains(#[trigger] stack@[k]),
            forall|k: int| 0 <= k < stack@.len() ==> descends(*s, root, #[trigger] stack@[k]),
            forall|id: u32| #[trigger] ids@.contains(id) ==> descends(*s, root, id),
            ids@.contains(root) || stack@.contains(root),
            forall|id: u32, child: u32| #[trigger]
                ids@.contains(id) && #[trigger] is_child(*s, id, child) ==> ids@.contains(child)
                    || stack@.contains(child),
        decreases all.len() - ids@.len(), stack@.len(),
    {
        let ghost before = stack@;
        let ghost seen = ids@;
        let id = stack[stack.len() - 1];
        stack.pop();
        proof {
            vstd::set_lib::lemma_len_subset(seen, all);
            assert(before.last() == id);
            assert forall|x: u32| before.contains(x) implies x == id || stack@.contains(x) by {
                let k = choose|k: int| 0 <= k < before.len() && before[k] == x;
                if k < stack@.len() {
                    assert(stack@[k] == x);
                }
            }
        }
        if ids.contains(&id) {
            continue ;
        }
        ids.insert(id);
        proof {
            assert(all.contains(before[before.len() - 1]));
            vstd::set_lib::lemma_len_subset(ids@, all);
        }
        if (id as usize) < s.nodes.len() {
            let n = &s.nodes[id as usize];
            let mut k: usize = 0;
            let ghost popped = stack@;
            while k < n.children.len()
                invariant
                    k <= n.children@.len(),
                    *n == s.nodes@[id as int],
                    id < s.nodes@.len(),
                    stack@ == popped + n.children@.take(k as int),
                decreases n.children.len() - k,
            {
                stack.push(n.children[k]);
                assert(stack@ =~= popped + n.children@.take(k + 1));
                k = k + 1;
            }
            proof {
                assert(n.children@.take(k as int) =~= n.children@);
                assert forall|j: int| 0 <= j < stack@.len() implies all.contains(
                    #[trigger] stack@[j],
                ) && descends(*s, root, stack@[j]) by {
                    if j < popped.len() {
                        assert(stack@[j] == popped[j]);
                        assert(popped[j] == before[j]);
                    } else {
                        let c = n.children@[j - popped.len()];
                        assert(stack@[j] == c);
                        assert(n.children@.contains(c));
                        assert(is_child(*s, id, c));
                        lemma_child_descends(*s, root, id, c);
                    }
                }
                assert forall|x: u32| popped.contains(x) implies stack@.contains(x) by {
                    let j = choose|j: int| 0 <= j < popped.len() && popped[j] == x;
                    assert(stack@[j] == x);
                }
                assert forall|c: u32| n.children@.contains(c) implies stack@.contains(c) by {
                    let j = choose|j: int| 0 <= j < n.children@.len() && n.children@[j] == c;
                    assert(stack@[popped.len() + j] == c);
                }
            }
        }
        proof {
            assert forall|x: u32, child: u32| #[trigger]
                ids@.contains(x) && #[trigger] is_child(*s, x, child) implies ids@.contains(child)
                || stack@.contains(child) by {
                if x != id {
                    assert(seen.contains(x));
                    if !seen.contains(child) {
                        assert(before.contains(child));
                    }
                }
            }
        }
    }
    proof {
        assert(ids@ =~= subtree_of(*s, root)) by {
            assert forall|id: u32| subtree_of(*s, root).contains(id) implies ids@.contains(id) by {
                let path = choose|path: Seq<u32>| #[trigger]
                    is_path(*s, path) && path[0] == root && path.last() == id;
                lemma_closed_holds_path(*s, path, ids@, path.len() - 1);
            }
        }
        vstd::set_lib::lemma_len_subset(ids@, all);
    }
    ids
}

// ---- the counts ------------------------------------------------------------

/// What the panel counts.
pub struct SceneStats {
    pub nodes: usize,
    pub meshes: usize,
    pub triangles: u128,
    pub vertices: u128,
    pub materials: usize,
    pub skins: usize,
    pub clips: usize,
    pub joints: usize,
}

/// The triangles of a node's mesh.
pub open spec fn triangles_of(n: SceneNode) -> nat {
    match n.mesh {
        Some(m) => (m.indices / 3) as nat,
        None => 0,
    }
}

/// The vertices of a node's mesh.
pub open spec fn vertices_of(n: SceneNode) -> nat {
    match n.mesh {
        Some(m) => m.positions as nat,
        None => 0,
    }
}

/// The sum of `f` over those of the first `n` nodes that `counted` holds of.
pub open spec fn sum_over(
    nodes: Seq<SceneNode>,
    counted: spec_fn(int) -> bool,
    f: spec_fn(SceneNode) -> nat,
    n: nat,
) -> nat
    decreases n,
{
    if n == 0 {
        0
    } else {
        sum_over(nodes, counted, f, (n - 1) as nat) + if counted(n - 1) {
            f(nodes[n - 1])
        } else {
            0
        }
    }
}

/// The materials that the counted nodes use.
pub open spec fn materials_used(nodes: Seq<SceneNode>, counted: spec_fn(int) -> bool) -> Set<u32> {
    Set::new(
        |m: u32|
            exists|k: int|
                0 <= k < nodes.len() && counted(k) && (#[trigger] nodes[k]).material == Some(m),
    )
}

/// The skins that the counted nodes are bound to.
pub open spec fn skins_used(nodes: Seq<SceneNode>, counted: spec_fn(int) -> bool) -> Set<u32> {
    Set::new(
        |m: u32|
            exists|k: int|
                0 <= k < nodes.len() && counted(k) && (#[trigger] nodes[k]).skin == Some(m),
    )
}

/// The places of the nodes whose id is in a set.
pub open spec fn with_id_in(ids: Set<u32>) -> spec_fn(int) -> bool {
    |k: int| k <= u32::MAX && ids.contains(k as u32)
}

/// Every place.
pub open spec fn everywhere() -> spec_fn(int) -> bool {
    |k: int| true
}

/// The predicate of the nodes with a mesh, among the counted ones.
pub open spec fn with_mesh(nodes: Seq<SceneNode>, counted: spec_fn(int) -> bool) -> spec_fn(
    int,
) -> bool {
    |k: int| counted(k) && nodes[k].mesh is Some
}

/// The predicate of the joints that drive a node of the set.
pub open spec fn joint_in(s: SceneGraph, ids: Set<u32>) -> spec_fn(int) -> bool {
    |j: int| ids.contains(s.joints@[j].pivot)
}

/// The predicate of the clips of which some track drives a node of the set.
pub open spec fn clip_in(s: SceneGraph, ids: Set<u32>) -> spec_fn(int) -> bool {
    |c: int|
        exists|t: int|
            0 <= t < s.clips@[c].tracks@.len() && ids.contains(#[trigger] s.clips@[c].tracks@[t])
}

/// Whether `r` counts the whole scene.
pub open spec fn is_scene_stats(s: SceneGraph, r: SceneStats) -> bool {
    let n = s.nodes@.len();
    &&& r.nodes == n
    &&& r.meshes == count_where(with_mesh(s.nodes@, everywhere()), n)
    &&& r.triangles == sum_over(s.nodes@, everywhere(), |x: SceneNode| triangles_of(x), n)
    &&& r.vertices == sum_over(s.nodes@, everywhere(), |x: SceneNode| vertices_of(x), n)
    &&& r.materials == s.materials@.len()
    &&& r.skins == s.skins@.len()
    &&& r.clips == s.clips@.len()
    &&& r.joints == s.joints@.len()
}

/// Whether `r` counts the subtree under `root`.
pub open spec fn is_subtree_stats(s: SceneGraph, root: u32, r: SceneStats) -> bool {
    let ids = subtree_of(s, root);
    let n = s.nodes@.len();
    &&& r.nodes == ids.len()
    &&& r.meshes == count_where(with_mesh(s.nodes@, with_id_in(ids)), n)
    &&& r.triangles == sum_over(s.nodes@, with_id_in(ids), |x: SceneNode| triangles_of(x), n)
    &&& r.vertices == sum_over(s.nodes@, with_id_in(ids), |x: SceneNode| vertices_of(x), n)
    &&& r.materials == materials_used(s.nodes@, with_id_in(ids)).len()
    &&& r.skins == skins_used(s.nodes@, with_id_in(ids)).len()
    &&& r.clips == count_where(clip_in(s, ids), s.clips@.len())
    &&& r.joints == count_where(joint_in(s, ids), s.joints@.len())
}

struct NodeSums {
    meshes: usize,
    triangles: u128,
    vertices: u128,
    materials: usize,
    skins: usize,
}

fn sum_nodes(s: &SceneGraph, counted: &Vec<bool>, Ghost(p): Ghost<spec_fn(int) -> bool>) -> (r:
    NodeSums)
    requires
        counted@.len() == s.nodes@.len(),
        forall|k: int| 0 <= k < counted@.len() ==> #[trigger] counted@[k] == p(k),
    ensures
        r.meshes == count_where(with_mesh(s.nodes@, p), s.nodes@.len()),
        r.triangles == sum_over(s.nodes@, p, |x: SceneNode| triangles_of(x), s.nodes@.len()),
        r.vertices == sum_over(s.nodes@, p, |x: SceneNode| vertices_of(x), s.nodes@.len()),
        r.materials == materials_used(s.nodes@, p).len(),
        r.skins == skins_used(s.nodes@, p).len(),
{
    let ghost nodes = s.nodes@;
    let ghost tri = |x: SceneNode| triangles_of(x);
    let ghost ver = |x: SceneNode| vertices_of(x);
    let mut meshes: usize = 0;
    let mut triangles: u128 = 0;
    let mut vertices: u128 = 0;
    let mut mats: HashSet<u32> = HashSet::new();
    let mut skins: HashSet<u32> = HashSet::new();
    let mut i: usize = 0;
    while i < s.nodes.len()
        invariant
            i <= nodes.len(),
            nodes == s.nodes@,
            counted@.len() == nodes.len(),
            forall|k: int| 0 <= k < counted@.len() ==> #[trigger] counted@[k] == p(k),
            tri == (|x: SceneNode| triangles_of(x)),
            ver == (|x: SceneNode| vertices_of(x)),
            meshes <= i,
            meshes == count_where(with_mesh(nodes, p), i as nat),
            triangles == sum_over(nodes, p, tri, i as nat),
            vertices == sum_over(nodes, p, ver, i as nat),
            triangles <= i * 0x1_0000_0000_0000_0000,
            vertices <= i * 0x1_0000_0000_0000_0000,
            forall|m: u32| #[trigger]
                mats@.contains(m) == (exists|k: int|
                    0 <= k < i && p(k) && (#[trigger] nodes[k]).material == Some(m)),
            forall|m: u32| #[trigger]
                skins@.contains(m) == (exists|k: int|
                    0 <= k < i && p(k) && (#[trigger] nodes[k]).skin == Some(m)),
        decreases s.nodes.len() - i,
    {
        let ghost old_mats = mats@;
        let ghost old_skins = skins@;
        let n = &s.nodes[i];
        assert(*n == nodes[i as int]);
        assert(tri(*n) == triangles_of(*n) && ver(*n) == vertices_of(*n));
        assert(with_mesh(nodes, p)(i as int) == (p(i as int) && n.mesh is Some));
        if counted[i] {
            if let Some(m) = n.mesh {
                triangles = triangles + (m.indices / 3) as u128;
                vertices = vertices + m.positions as u128;
                meshes = meshes + 1;
            }
            if let Some(m) = n.material {
                mats.insert(m);
            }
            if let Some(k) = n.skin {
                skins.insert(k);
            }
        }
        proof {
            assert forall|m: u32| #[trigger] mats@.contains(m) == (exists|k: int|
                0 <= k < i + 1 && p(k) && (#[trigger] nodes[k]).material == Some(m)) by {
                if old_mats.contains(m) {
                    let k = choose|k: int|
                        0 <= k < i && p(k) && (#[trigger] nodes[k]).material == Some(m);
                    assert(nodes[k].material == Some(m));
                }
                if mats@.contains(m) && !old_mats.contains(m) {
                    assert(nodes[i as int].material == Some(m));
                }
            }
            assert forall|m: u32| #[trigger] skins@.contains(m) == (exists|k: int|
                0 <= k < i + 1 && p(k) && (#[trigger] nodes[k]).skin == Some(m)) by {
                if old_skins.contains(m) {
                    let k = choose|k: int|
                        0 <= k < i && p(k) && (#[trigger] nodes[k]).skin == Some(m);
                    assert(nodes[k].skin == Some(m));
                }
                if skins@.contains(m) && !old_skins.contains(m) {
                    assert(nodes[i as int].skin == Some(m));
                }
            }
        }
        i = i + 1;
    }
    assert(mats@ =~= materials_used(nodes, p));
    assert(skins@ =~= skins_used(nodes, p));
    NodeSums { meshes, triangles, vertices, materials: mats.len(), skins: skins.len() }
}

/// Counts the whole scene.
pub fn scene_stats(s: &SceneGraph) -> (r: SceneStats)
    ensures
        is_scene_stats(*s, r),
{
    let mut counted: Vec<bool> = Vec::new();
    let mut i: usize = 0;
    while i < s.nodes.len()
        invariant
            i <= s.nodes@.len(),
            counted@.len() == i,
            forall|k: int| 0 <= k < i ==> #[trigger] counted@[k],
        decreases s.nodes.len() - i,
    {
        counted.push(true);
        i = i + 1;
    }
    let sums = sum_nodes(s, &counted, Ghost(everywhere()));
    SceneStats {
        nodes: s.nodes.len(),
        meshes: sums.meshes,
        triangles: sums.triangles,
        vertices: sums.vertices,
        materials: s.materials.len(),
        skins: s.skins.len(),
        clips: s.clips.len(),
        joints: s.joints.len(),
    }
}

/// Counts a node and its descendants.
pub fn subtree_stats(s: &SceneGraph, root: u32) -> (r: SceneStats)
    ensures
        is_subtree_stats(*s, root, r),
{
    let ids = subtree(s, root);
    let ghost set = subtree_of(*s, root);
    let mut counted: Vec<bool> = Vec::new();
    let mut i: usize = 0;
    while i < s.nodes.len()
        invariant
            i <= s.nodes@.len(),
            ids@ == set,
            counted@.len() == i,
            forall|k: int| 0 <= k < i ==> #[trigger] counted@[k] == with_id_in(set)(k),
        decreases s.nodes.len() - i,
    {
        let inside = i <= u32::MAX as usize && ids.contains(&(i as u32));
        counted.push(inside);
        i = i + 1;
    }
    let sums = sum_nodes(s, &counted, Ghost(with_id_in(set)));
    let mut joints: usize = 0;
    let mut j: usize = 0;
    while j < s.joints.len()
        invariant
            j <= s.joints@.len(),
            ids@ == set,
            joints <= j,
            joints == count_where(joint_in(*s, set), j as nat),
        decreases s.joints.len() - j,
    {
        assert(joint_in(*s, set)(j as int) == set.contains(s.joints@[j as int].pivot));
        if ids.contains(&s.joints[j].pivot) {
            joints = joints + 1;
        }
        j = j + 1;
    }
    let mut clips: usize = 0;
    let mut c: usize = 0;
    while c < s.clips.len()
        invariant
            c <= s.clips@.len(),
            ids@ == set,
            clips <= c,
            clips == count_where(clip_in(*s, set), c as nat),
        decreases s.clips.len() - c,
    {
        let tracks = &s.clips[c].tracks;
        let mut any = false;
        let mut t: usize = 0;
        while t < tracks.len()
            invariant
                t <= tracks@.len(),
                ids@ == set,
                any == (exists|q: int| 0 <= q < t && set.contains(#[trigger] tracks@[q])),
            decreases tracks.len() - t,
        {
            let ghost before = any;
            if ids.contains(&tracks[t]) {
                any = true;
                assert(set.contains(tracks@[t as int]));
            }
            t = t + 1;
        }
        assert(clip_in(*s, set)(c as int) == any);
        if any {
            clips = clips + 1;
        }
        c = c + 1;
    }
    SceneStats {
        nodes: ids.len(),
        meshes: sums.meshes,
        triangles: sums.triangles,
        vertices: sums.vertices,
        materials: sums.materials,
        skins: sums.skins,
        clips,
        joints,
    }
}

// ---- the panel -------------------------------------------------------------

/// What the panel shows.
pub enum SummaryView {
    NoBuild,
    NoScene,
    Stats { header: Option<String>, lines: Vec<String> },
}

/// The lines of the panel. Skins, clips and joints are left out where there
/// are none.
pub open spec fn stat_lines(r: SceneStats) -> Seq<Seq<char>> {
    let base = seq![
        "nodes: "@ + decimal_digits(r.nodes as nat),
        "meshes: "@ + decimal_digits(r.meshes as nat),
        "triangles: "@ + decimal_digits(r.triangles as nat),
        "vertices: "@ + decimal_digits(r.vertices as nat),
        "materials: "@ + decimal_digits(r.materials as nat),
    ];
    base + optional_line("skins: "@, r.skins as nat) + optional_line("clips: "@, r.clips as nat)
        + optional_line("joints: "@, r.joints as nat)
}

/// One line with a count, or none for zero.
pub open spec fn optional_line(label: Seq<char>, n: nat) -> Seq<Seq<char>> {
    if n > 0 {
        seq![label + decimal_digits(n)]
    } else {
        Seq::empty()
    }
}

fn push_line(lines: &mut Vec<String>, label: &str, n: u128)
    ensures
        views(final(lines)@) == views(old(lines)@).push(
            label@ + decimal_digits(n as nat),
        ),
{
    let digits = decimal_wide(n);
    lines.push(cat2(label, digits.as_str()));
    assert(views(lines@) =~= views(old(lines)@).push(
        label@ + decimal_digits(n as nat),
    ));
}

/// The lines of the panel.
pub fn lines_for(r: &SceneStats) -> (lines: Vec<String>)
    ensures
        views(lines@) == stat_lines(*r),
{
    let mut lines: Vec<String> = Vec::new();
    push_line(&mut lines, "nodes: ", r.nodes as u128);
    push_line(&mut lines, "meshes: ", r.meshes as u128);
    push_line(&mut lines, "triangles: ", r.triangles);
    push_line(&mut lines, "vertices: ", r.vertices);
    push_line(&mut lines, "materials: ", r.materials as u128);
    if r.skins > 0 {
        push_line(&mut lines, "skins: ", r.skins as u128);
    }
    if r.clips > 0 {
        push_line(&mut lines, "clips: ", r.clips as u128);
    }
    if r.joints > 0 {
        push_line(&mut lines, "joints: ", r.joints as u128);
    }
    assert(views(lines@) =~= stat_lines(*r));
    lines
}

/// What the panel shows of a scene: the subtree under a selected node that is
/// still there, or else the whole scene.
pub open spec fn shows_scene(s: SceneGraph, selection: Option<u32>, v: SummaryView) -> bool {
    &&& v matches SummaryView::Stats { header, lines }
    &&& match selection {
        Some(id) => match node_at(s, id) {
            Some(n) => {
                &&& opt_view(header) == Some("subtree of \""@ + n.name@ + "\""@)
                &&& exists|r: SceneStats| #[trigger]
                    is_subtree_stats(s, id, r) && views(lines@) == stat_lines(r)
            },
            None => shows_all(s, header, lines),
        },
        None => shows_all(s, header, lines),
    }
}

/// Whether the whole scene is shown.
pub open spec fn shows_all(s: SceneGraph, header: Option<String>, lines: Vec<String>) -> bool {
    &&& header is None
    &&& exists|r: SceneStats| #[trigger]
        is_scene_stats(s, r) && views(lines@) == stat_lines(r)
}

/// What the panel shows of a scene.
pub fn summary_of(s: &SceneGraph, selection: Option<u32>) -> (v: SummaryView)
    ensures
        shows_scene(*s, selection, v),
{
    if let Some(id) = selection {
        if (id as usize) < s.nodes.len() {
            let stats = subtree_stats(s, id);
            let lines = lines_for(&stats);
            let header = cat3("subtree of \"", s.nodes[id as usize].name.as_str(), "\"");
            assert(is_subtree_stats(*s, id, stats));
            return SummaryView::Stats { header: Some(header), lines };
        }
    }
    let stats = scene_stats(s);
    let lines = lines_for(&stats);
    assert(is_scene_stats(*s, stats));
    SummaryView::Stats { header: None, lines }
}

impl MogenStudioApp {
    /// What the summary panel shows.
    pub fn ui_summary(&self) -> (v: SummaryView)
        requires
            self.wf(),
        ensures
            match self.front().last_result {
                None => v is NoBuild,
                Some(result) => match result.scene {
                    None => v is NoScene,
                    Some(scene) => shows_scene(scene, self.primary(), v),
                },
            },
    {
        match &self.active().last_result {
            None => SummaryView::NoBuild,
            Some(result) => match &result.scene {
                None => SummaryView::NoScene,
                Some(scene) => summary_of(scene, self.primary_selection()),
            },
        }
    }
}

// ---- what the counts guarantee ---------------------------------------------

/// A subtree holds its root, and every child of a node in it.
pub proof fn law_subtree_is_closed(s: SceneGraph, root: u32, id: u32, child: u32)
    requires
        subtree_of(s, root).contains(id),
        is_child(s, id, child),
    ensures
        subtree_of(s, root).contains(root),
        subtree_of(s, root).contains(child),
{
    lemma_root_descends(s, root);
    lemma_child_descends(s, root, id, child);
}

/// The subtree under a descendant lies within the subtree of its ancestor.
pub proof fn law_subtrees_nest(s: SceneGraph, root: u32, id: u32)
    requires
        subtree_of(s, root).contains(id),
    ensures
        subtree_of(s, id).subset_of(subtree_of(s, root)),
{
    assert forall|x: u32| subtree_of(s, id).contains(x) implies subtree_of(s, root).contains(x) by {
        let path = choose|path: Seq<u32>| #[trigger]
            is_path(s, path) && path[0] == id && path.last() == x;
        let set = subtree_of(s, root);
        assert forall|a: u32, b: u32| #[trigger]
            set.contains(a) && #[trigger] is_child(s, a, b) implies set.contains(b) by {
            lemma_child_descends(s, root, a, b);
        }
        lemma_closed_holds_path(s, path, set, path.len() - 1);
    }
}

proof fn lemma_sum_monotone(
    nodes: Seq<SceneNode>,
    p: spec_fn(int) -> bool,
    f: spec_fn(SceneNode) -> nat,
    n: nat,
)
    ensures
        sum_over(nodes, p, f, n) <= sum_over(nodes, everywhere(), f, n),
    decreases n,
{
    if n > 0 {
        lemma_sum_monotone(nodes, p, f, (n - 1) as nat);
    }
}

/// A subtree never costs more triangles or vertices than the whole scene.
pub proof fn law_subtree_costs_no_more(s: SceneGraph, root: u32, part: SceneStats, whole: SceneStats)
    requires
        is_subtree_stats(s, root, part),
        is_scene_stats(s, whole),
    ensures
        part.triangles <= whole.triangles,
        part.vertices <= whole.vertices,
{
    let p = with_id_in(subtree_of(s, root));
    lemma_sum_monotone(s.nodes@, p, |x: SceneNode| triangles_of(x), s.nodes@.len());
    lemma_sum_monotone(s.nodes@, p, |x: SceneNode| vertices_of(x), s.nodes@.len());
}

/// The subtree of a node is the smallest set that holds the node and, with
/// each node of the scene, its children.
pub proof fn law_subtree_is_the_least_closed_set(
    s: &SceneGraph,
    root: u32,
    ids: HashSet<u32>,
    other: Set<u32>,
)
    requires
        call_ensures(subtree, (s, root), ids),
        other.contains(root),
        forall|id: u32, child: u32|
            #![trigger other.contains(id), other.contains(child)]
            other.contains(id) && id < s.nodes@.len() && s.nodes@[id as int].children@.contains(
                child,
            ) ==> other.contains(child),
    ensures
        ids@.contains(root),
        forall|id: u32, child: u32|
            #![trigger ids@.contains(id), ids@.contains(child)]
            ids@.contains(id) && id < s.nodes@.len() && s.nodes@[id as int].children@.contains(
                child,
            ) ==> ids@.contains(child),
        forall|id: u32| #[trigger] ids@.contains(id) ==> other.contains(id),
{
    lemma_root_descends(*s, root);
    assert forall|id: u32, child: u32|
        #![trigger ids@.contains(id), ids@.contains(child)]
        ids@.contains(id) && id < s.nodes@.len() && s.nodes@[id as int].children@.contains(
            child,
        ) implies ids@.contains(child) by {
        assert(is_child(*s, id, child));
        lemma_child_descends(*s, root, id, child);
    }
    assert forall|id: u32| #[trigger] ids@.contains(id) implies other.contains(id) by {
        let path = choose|path: Seq<u32>| #[trigger]
            is_path(*s, path) && path[0] == root && path.last() == id;
        assert forall|a: u32, b: u32| #[trigger]
            other.contains(a) && #[trigger] is_child(*s, a, b) implies other.contains(b) by {
            assert(other.contains(a) && a < s.nodes@.len());
            assert(s.nodes@[a as int].children@.contains(b));
            if !other.contains(b) {
                assert(false);
            }
        }
        lemma_closed_holds_path(*s, path, other, path.len() - 1);
    }
}

/// The whole scene counts everything that it holds; its meshes are the nodes
/// that have one.
pub proof fn law_scene_counts_everything(s: &SceneGraph, r: SceneStats)
    requires
        call_ensures(scene_stats, (s,), r),
    ensures
        r.nodes == s.nodes@.len(),
        r.materials == s.materials@.len(),
        r.skins == s.skins@.len(),
        r.clips == s.clips@.len(),
        r.joints == s.joints@.len(),
        r.meshes == s.nodes@.filter(|n: SceneNode| n.mesh is Some).len(),
{
    let q = |n: SceneNode| n.mesh is Some;
    lemma_count_filtered(s.nodes@, q, with_mesh(s.nodes@, everywhere()), s.nodes@.len());
    assert(s.nodes@.take(s.nodes@.len() as int) =~= s.nodes@);
}

proof fn lemma_sum_front(
    a: Seq<SceneNode>,
    b: Seq<SceneNode>,
    p: spec_fn(int) -> bool,
    f: spec_fn(SceneNode) -> nat,
    n: nat,
)
    requires
        n <= a.len() && n <= b.len(),
        forall|i: int| 0 <= i < n ==> a[i] == b[i],
    ensures
        sum_over(a, p, f, n) == sum_over(b, p, f, n),
    decreases n,
{
    if n > 0 {
        lemma_sum_front(a, b, p, f, (n - 1) as nat);
    }
}

/// A scene without nodes has no triangles and no vertices, and each further
/// node adds those of its mesh: a third of its indices, and its positions.
pub proof fn law_each_node_adds_its_mesh(
    s: &SceneGraph,
    r: SceneStats,
    t: &SceneGraph,
    more: SceneStats,
    n: SceneNode,
)
    requires
        call_ensures(scene_stats, (s,), r),
        call_ensures(scene_stats, (t,), more),
        t.nodes@ == s.nodes@.push(n),
    ensures
        s.nodes@.len() == 0 ==> r.triangles == 0 && r.vertices == 0,
        n.mesh is None ==> more.triangles == r.triangles && more.vertices == r.vertices,
        n.mesh matches Some(m) ==> more.triangles == r.triangles + m.indices / 3 && more.vertices
            == r.vertices + m.positions,
{
    let k = s.nodes@.len();
    let tri = |x: SceneNode| triangles_of(x);
    let ver = |x: SceneNode| vertices_of(x);
    lemma_sum_front(s.nodes@, t.nodes@, everywhere(), tri, k);
    lemma_sum_front(s.nodes@, t.nodes@, everywhere(), ver, k);
    assert(t.nodes@[k as int] == n);
    assert(t.nodes@.len() == k + 1);
    assert(sum_over(t.nodes@, everywhere(), tri, k + 1) == sum_over(
        t.nodes@,
        everywhere(),
        tri,
        k,
    ) + triangles_of(n));
    assert(sum_over(t.nodes@, everywhere(), ver, k + 1) == sum_over(
        t.nodes@,
        everywhere(),
        ver,
        k,
    ) + vertices_of(n));
}

proof fn lemma_sum_same(
    nodes: Seq<SceneNode>,
    p: spec_fn(int) -> bool,
    q: spec_fn(int) -> bool,
    f: spec_fn(SceneNode) -> nat,
    n: nat,
)
    requires
        forall|i: int| 0 <= i < n ==> #[trigger] p(i) == q(i),
    ensures
        sum_over(nodes, p, f, n) == sum_over(nodes, q, f, n),
    decreases n,
{
    if n > 0 {
        lemma_sum_same(nodes, p, q, f, (n - 1) as nat);
    }
}

/// A root above all nodes counts the triangles, vertices and meshes of the
/// whole scene.
pub proof fn law_root_of_all_counts_the_scene(
    s: &SceneGraph,
    root: u32,
    ids: HashSet<u32>,
    part: SceneStats,
    whole: SceneStats,
)
    requires
        call_ensures(subtree, (s, root), ids),
        call_ensures(subtree_stats, (s, root), part),
        call_ensures(scene_stats, (s,), whole),
        s.nodes@.len() <= u32::MAX,
        forall|i: u32| i < s.nodes@.len() ==> #[trigger] ids@.contains(i),
    ensures
        part.triangles == whole.triangles,
        part.vertices == whole.vertices,
        part.meshes == whole.meshes,
{
    let p = with_id_in(subtree_of(*s, root));
    let n = s.nodes@.len();
    assert forall|i: int| 0 <= i < n implies #[trigger] p(i) == everywhere()(i) by {
        assert(ids@.contains(i as u32));
    }
    lemma_sum_same(s.nodes@, p, everywhere(), |x: SceneNode| triangles_of(x), n);
    lemma_sum_same(s.nodes@, p, everywhere(), |x: SceneNode| vertices_of(x), n);
    let q = |x: SceneNode| x.mesh is Some;
    lemma_count_filtered(s.nodes@, q, with_mesh(s.nodes@, p), n);
    lemma_count_filtered(s.nodes@, q, with_mesh(s.nodes@, everywhere()), n);
}

proof fn lemma_sum_single(
    nodes: Seq<SceneNode>,
    p: spec_fn(int) -> bool,
    f: spec_fn(SceneNode) -> nat,
    k: int,
    n: nat,
)
    requires
        0 <= k,
        forall|i: int| 0 <= i < n ==> (#[trigger] p(i) <==> i == k),
    ensures
        sum_over(nodes, p, f, n) == if k < n {
            f(nodes[k])
        } else {
            0
        },
    decreases n,
{
    if n > 0 {
        lemma_sum_single(nodes, p, f, k, (n - 1) as nat);
        assert(p(n - 1) <==> n - 1 == k);
    }
}

proof fn lemma_count_single(p: spec_fn(int) -> bool, k: int, n: nat)
    requires
        0 <= k,
        forall|i: int| 0 <= i < n && #[trigger] p(i) ==> i == k,
    ensures
        count_where(p, n) == if k < n && p(k) {
            1nat
        } else {
            0nat
        },
    decreases n,
{
    if n > 0 {
        lemma_count_single(p, k, (n - 1) as nat);
    }
}

/// A node without children counts itself and its own mesh alone.
pub proof fn law_leaf_counts_itself(s: &SceneGraph, root: u32, r: SceneStats)
    requires
        call_ensures(subtree_stats, (s, root), r),
        root < s.nodes@.len(),
        s.nodes@[root as int].children@.len() == 0,
    ensures
        r.nodes == 1,
        s.nodes@[root as int].mesh is None ==> r.meshes == 0 && r.triangles == 0 && r.vertices == 0,
        s.nodes@[root as int].mesh matches Some(m) ==> r.meshes == 1 && r.triangles == m.indices / 3
            && r.vertices == m.positions,
        r.joints == s.joints@.filter(|j: Joint| j.pivot == root).len(),
{
    let ids = subtree_of(*s, root);
    let n = s.nodes@.len();
    let only = set![root];
    lemma_root_descends(*s, root);
    assert forall|id: u32| ids.contains(id) implies only.contains(id) by {
        let path = choose|path: Seq<u32>| #[trigger]
            is_path(*s, path) && path[0] == root && path.last() == id;
        assert forall|a: u32, b: u32| #[trigger]
            only.contains(a) && #[trigger] is_child(*s, a, b) implies only.contains(b) by {}
        lemma_closed_holds_path(*s, path, only, path.len() - 1);
    }
    assert(ids =~= only);
    assert(only.len() == 1);
    let p = with_id_in(ids);
    assert forall|i: int| 0 <= i < n implies (#[trigger] p(i) <==> i == root) by {
        if i <= u32::MAX {
            assert(ids.contains(i as u32) <==> i as u32 == root);
        }
    }
    lemma_sum_single(s.nodes@, p, |x: SceneNode| triangles_of(x), root as int, n);
    lemma_sum_single(s.nodes@, p, |x: SceneNode| vertices_of(x), root as int, n);
    let q = with_mesh(s.nodes@, p);
    assert forall|i: int| 0 <= i < n && #[trigger] q(i) implies i == root by {
        assert(p(i));
    }
    lemma_count_single(q, root as int, n);
    assert(p(root as int));
    assert(q(root as int) == s.nodes@[root as int].mesh is Some);
    let jq = |j: Joint| j.pivot == root;
    lemma_count_filtered(s.joints@, jq, joint_in(*s, ids), s.joints@.len());
    assert(s.joints@.take(s.joints@.len() as int) =~= s.joints@);
}

/// The panel lists the five counts that every scene has, each under its own
/// label, and skins, clips and joints behind them where there are some.
pub proof fn law_lines_show_their_counts(r: &SceneStats, lines: Vec<String>)
    requires
        call_ensures(lines_for, (r,), lines),
    ensures
        lines@.len() >= 5,
        lines@[0]@ == "nodes: "@ + decimal_digits(r.nodes as nat),
        lines@[1]@ == "meshes: "@ + decimal_digits(r.meshes as nat),
        lines@[2]@ == "triangles: "@ + decimal_digits(r.triangles as nat),
        lines@[3]@ == "vertices: "@ + decimal_digits(r.vertices as nat),
        lines@[4]@ == "materials: "@ + decimal_digits(r.materials as nat),
        r.skins > 0 ==> lines@.len() > 5 && lines@[5]@ == "skins: "@ + decimal_digits(r.skins as nat),
        r.clips > 0 ==> exists|k: int|
            5 <= k < lines@.len() && (#[trigger] lines@[k])@ == "clips: "@ + decimal_digits(
                r.clips as nat,
            ),
        r.joints > 0 ==> lines@.len() > 5 && lines@.last()@ == "joints: "@ + decimal_digits(
            r.joints as nat,
        ),
        r.skins == 0 && r.clips == 0 && r.joints == 0 ==> lines@.len() == 5,
{
    let v = views(lines@);
    assert(v.len() == lines@.len());
    assert forall|k: int| 0 <= k < lines@.len() implies v[k] == (#[trigger] lines@[k])@ by {}
    assert(lines@[0]@ == v[0] && lines@[1]@ == v[1] && lines@[2]@ == v[2] && lines@[3]@ == v[3]
        && lines@[4]@ == v[4]);
    if r.skins > 0 {
        assert(lines@[5]@ == v[5]);
    }
    if r.clips > 0 {
        let k: int = if r.skins > 0 {
            6
        } else {
            5
        };
        assert(lines@[k]@ == v[k]);
        assert(v[k] == "clips: "@ + decimal_digits(r.clips as nat));
    }
    if r.joints > 0 {
        let k = lines@.len() - 1;
        assert(lines@[k]@ == v[k]);
        assert(v[k] == "joints: "@ + decimal_digits(r.joints as nat));
    }
}

/// The panel says when there is no build or no scene; it names the selected
/// node when that is in the scene, and else shows the whole scene without a
/// name.
pub proof fn law_panel_names_what_it_counts(app: &MogenStudioApp, v: SummaryView)
    requires
        app.wf(),
        call_ensures(MogenStudioApp::ui_summary, (app,), v),
    ensures
        app.front().last_result is None ==> v is NoBuild,
        app.front().last_result matches Some(b) ==> {
            &&& b.scene is None ==> v is NoScene
            &&& b.scene matches Some(s) ==> v is Stats
            &&& b.scene matches Some(s) ==> app.selected@.len() == 0 ==> v->header is None
            &&& b.scene matches Some(s) ==> app.selected@.len() > 0 && app.selected@.last()
                < s.nodes@.len() ==> (v->header matches Some(h) && h@ == "subtree of \""@
                + s.nodes@[app.selected@.last() as int].name@ + "\""@)
            &&& b.scene matches Some(s) ==> app.selected@.len() > 0 && app.selected@.last()
                >= s.nodes@.len() ==> v->header is None
        },
{
}

/// Without a name the panel shows the nodes of the whole scene.
pub proof fn law_nameless_panel_counts_the_scene(s: &SceneGraph, v: SummaryView)
    requires
        call_ensures(summary_of, (s, None), v),
    ensures
        v is Stats,
        v->lines@.len() >= 5,
        v->lines@[0]@ == "nodes: "@ + decimal_digits(s.nodes@.len()),
        v->lines@[4]@ == "materials: "@ + decimal_digits(s.materials@.len()),
{
    let lines = v->lines;
    let r = choose|r: SceneStats| #[trigger]
        is_scene_stats(*s, r) && views(lines@) == stat_lines(r);
    let w = views(lines@);
    assert(w.len() == lines@.len());
    assert(lines@[0]@ == w[0] && lines@[4]@ == w[4]);
}

} // verus!
