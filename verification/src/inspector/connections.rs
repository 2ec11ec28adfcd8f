//! The links of the selected node to the rest of the scene: its ancestors and
//! children, what it is attached to, and what animates it.

use std::collections::HashSet;

use vstd::prelude::*;

use crate::pick::{
    as_places, count_where, lemma_count_filtered, lemma_places, lemma_places_count,
    lemma_places_same, marked_places, places,
};
use crate::scene::{node_at, Clip, Joint, SceneGraph, SceneNode, Skin};
use crate::text::{cat2, cat3, cat5, decimal, decimal_digits, opt_view, views};

verus! {

broadcast use vstd::std_specs::hash::group_hash_axioms;

// ---- ancestors -------------------------------------------------------------

/// The parent of the node with the id `id`.
pub open spec fn parent_of(s: SceneGraph, id: u32) -> Option<u32> {
    match node_at(s, id) {
        Some(n) => n.parent,
        None => None,
    }
}

/// Whether `chain` starts at `from` and goes from parent to parent until there
/// is none.
pub open spec fn is_chain(s: SceneGraph, from: Option<u32>, chain: Seq<u32>) -> bool {
    &&& from == if chain.len() > 0 {
        Some(chain[0])
    } else {
        None
    }
    &&& forall|i: int|
        0 <= i < chain.len() - 1 ==> parent_of(s, #[trigger] chain[i]) == Some(chain[i + 1])
    &&& chain.len() > 0 ==> parent_of(s, chain.last()) is None
}

/// Whether the walk from parent to parent ends.
pub open spec fn is_rooted(s: SceneGraph, from: Option<u32>) -> bool {
    exists|chain: Seq<u32>| is_chain(s, from, chain)
}

/// The ids below `n`.
spec fn ids_below(n: nat) -> Set<u32> {
    Set::new(|x: u32| x < n)
}

proof fn lemma_ids_below(n: nat)
    ensures
        ids_below(n).finite(),
    decreases n,
{
    if n == 0 {
        assert(ids_below(n) =~= Set::empty());
    } else {
        lemma_ids_below((n - 1) as nat);
        if n - 1 <= u32::MAX {
            assert(ids_below(n) =~= ids_below((n - 1) as nat).insert((n - 1) as u32));
        } else {
            assert(ids_below(n) =~= ids_below((n - 1) as nat));
        }
    }
}

proof fn lemma_chain_shift(s: SceneGraph, from: Option<u32>, chain: Seq<u32>, i: int, j: int, k: int)
    requires
        is_chain(s, from, chain),
        0 <= i < j < chain.len(),
        chain[i] == chain[j],
        0 <= k,
        j + k < chain.len(),
    ensures
        chain[i + k] == chain[j + k],
    decreases k,
{
    if k > 0 {
        lemma_chain_shift(s, from, chain, i, j, k - 1);
        assert(parent_of(s, chain[i + k - 1]) == Some(chain[i + k - 1 + 1]));
        assert(parent_of(s, chain[j + k - 1]) == Some(chain[j + k - 1 + 1]));
    }
}

proof fn lemma_chain_distinct(s: SceneGraph, from: Option<u32>, chain: Seq<u32>, i: int, j: int)
    requires
        is_chain(s, from, chain),
        0 <= i < j < chain.len(),
    ensures
        chain[i] != chain[j],
{
    if chain[i] == chain[j] {
        let k = chain.len() - 1 - j;
        lemma_chain_shift(s, from, chain, i, j, k);
        assert(parent_of(s, chain[i + k]) == Some(chain[i + k + 1]));
    }
}

proof fn lemma_chain_prefix(
    s: SceneGraph,
    from: Option<u32>,
    chain: Seq<u32>,
    walked: Seq<u32>,
    k: int,
)
    requires
        is_chain(s, from, chain),
        walked.len() > 0 ==> from == Some(walked[0]),
        forall|i: int|
            0 <= i < walked.len() - 1 ==> parent_of(s, #[trigger] walked[i]) == Some(walked[i + 1]),
        0 <= k < walked.len(),
    ensures
        k < chain.len(),
        chain[k] == walked[k],
    decreases k,
{
    if k > 0 {
        lemma_chain_prefix(s, from, chain, walked, k - 1);
        assert(parent_of(s, walked[k - 1]) == Some(walked[k - 1 + 1]));
        if k == chain.len() {
            assert(chain.last() == chain[k - 1]);
        } else {
            assert(parent_of(s, chain[k - 1]) == Some(chain[k - 1 + 1]));
        }
    }
}

/// The ancestors from `from` up to the root, or none when the walk never ends
/// because the parents form a ring.
pub fn ancestors(s: &SceneGraph, from: Option<u32>) -> (r: Option<Vec<u32>>)
    ensures
        match r {
            Some(chain) => is_chain(*s, from, chain@),
            None => !is_rooted(*s, from),
        },
{
    let mut chain: Vec<u32> = Vec::new();
    let mut seen: HashSet<u32> = HashSet::new();
    let mut cur = from;
    let ghost all = ids_below(s.nodes@.len());
    proof {
        lemma_ids_below(s.nodes@.len());
    }
    loop
        invariant
            all == ids_below(s.nodes@.len()),
            all.finite(),
            seen@.subset_of(all),
            chain@.len() > 0 ==> from == Some(chain@[0]),
            forall|i: int|
                0 <= i < chain@.len() - 1 ==> parent_of(*s, #[trigger] chain@[i]) == Some(
                    chain@[i + 1],
                ),
            cur == if chain@.len() > 0 {
                parent_of(*s, chain@.last())
            } else {
                from
            },
            forall|i: int|
                0 <= i < chain@.len() ==> (#[trigger] chain@[i] < s.nodes@.len() ==> seen@.contains(
                    chain@[i],
                )),
            forall|x: u32| #[trigger] seen@.contains(x) ==> chain@.contains(x),
        decreases
                all.len() - seen@.len(),
                if cur is Some && cur->0 < s.nodes@.len() {
                    1nat
                } else {
                    0nat
                },
    {
        let id = match cur {
            Some(id) => id,
            None => {
                return Some(chain);
            },
        };
        if (id as usize) >= s.nodes.len() {
            let ghost before = chain@;
            chain.push(id);
            assert(is_chain(*s, from, chain@)) by {
                assert forall|i: int| 0 <= i < chain@.len() - 1 implies parent_of(
                    *s,
                    #[trigger] chain@[i],
                ) == Some(chain@[i + 1]) by {
                    assert(chain@[i] == before[i]);
                    if i < before.len() - 1 {
                        assert(chain@[i + 1] == before[i + 1]);
                    } else {
                        assert(before.last() == before[i]);
                    }
                }
            }
            return Some(chain);
        }
        if seen.contains(&id) {
            proof {
                if is_rooted(*s, from) {
                    let full = choose|c: Seq<u32>| is_chain(*s, from, c);
                    let walked = chain@.push(id);
                    let j = walked.len() - 1;
                    let i = choose|i: int| 0 <= i < chain@.len() && chain@[i] == id;
                    assert(walked[i] == id && walked[j] == id);
                    assert forall|q: int| 0 <= q < walked.len() - 1 implies parent_of(
                        *s,
                        #[trigger] walked[q],
                    ) == Some(walked[q + 1]) by {
                        assert(walked[q] == chain@[q]);
                        if q < chain@.len() - 1 {
                            assert(walked[q + 1] == chain@[q + 1]);
                        }
                    }
                    assert(walked[0] == chain@[0]);
                    lemma_chain_prefix(*s, from, full, walked, i);
                    lemma_chain_prefix(*s, from, full, walked, j);
                    lemma_chain_distinct(*s, from, full, i, j);
                }
            }
            return None;
        }
        let ghost before = chain@;
        let ghost had = seen@;
        chain.push(id);
        seen.insert(id);
        proof {
            vstd::set_lib::lemma_len_subset(had, all);
            vstd::set_lib::lemma_len_subset(seen@, all);
            assert forall|i: int| 0 <= i < chain@.len() - 1 implies parent_of(
                *s,
                #[trigger] chain@[i],
            ) == Some(chain@[i + 1]) by {
                assert(chain@[i] == before[i]);
                if i < before.len() - 1 {
                    assert(chain@[i + 1] == before[i + 1]);
                } else {
                    assert(before.last() == before[i]);
                }
            }
            assert forall|x: u32| #[trigger] seen@.contains(x) implies chain@.contains(x) by {
                if x == id {
                    assert(chain@[chain@.len() - 1] == id);
                } else {
                    assert(had.contains(x));
                    let q = choose|q: int| 0 <= q < before.len() && before[q] == x;
                    assert(chain@[q] == x);
                }
            }
        }
        cur = s.nodes[id as usize].parent;
    }
}

// ---- links -----------------------------------------------------------------

/// A node to jump to.
pub struct Link {
    pub id: u32,
    pub name: String,
}

/// The name shown for an id.
pub open spec fn name_of(s: SceneGraph, id: u32) -> Seq<char> {
    match node_at(s, id) {
        Some(n) => n.name@,
        None => "(?)"@,
    }
}

/// Whether `links` lead to the nodes in `ids`.
pub open spec fn links_to(s: SceneGraph, ids: Seq<u32>, links: Seq<Link>) -> bool {
    &&& links.len() == ids.len()
    &&& forall|i: int|
        0 <= i < ids.len() ==> (#[trigger] links[i]).id == ids[i] && links[i].name@ == name_of(
            s,
            ids[i],
        )
}

fn link_to(s: &SceneGraph, id: u32) -> (r: Link)
    ensures
        r.id == id,
        r.name@ == name_of(*s, id),
{
    let name = if (id as usize) < s.nodes.len() {
        s.nodes[id as usize].name.clone()
    } else {
        "(?)".to_owned()
    };
    Link { id, name }
}

fn link_all(s: &SceneGraph, ids: &Vec<u32>) -> (r: Vec<Link>)
    ensures
        links_to(*s, ids@, r@),
{
    let mut out: Vec<Link> = Vec::new();
    let mut i: usize = 0;
    while i < ids.len()
        invariant
            i <= ids@.len(),
            out@.len() == i,
            forall|k: int|
                0 <= k < i ==> (#[trigger] out@[k]).id == ids@[k] && out@[k].name@ == name_of(
                    *s,
                    ids@[k],
                ),
        decreases ids.len() - i,
    {
        out.push(link_to(s, ids[i]));
        i = i + 1;
    }
    out
}

fn reversed(v: &Vec<u32>) -> (r: Vec<u32>)
    ensures
        r@ == v@.reverse(),
{
    let mut out: Vec<u32> = Vec::new();
    let mut i: usize = v.len();
    while i > 0
        invariant
            i <= v@.len(),
            out@ == v@.skip(i as int).reverse(),
        decreases i,
    {
        i = i - 1;
        out.push(v[i]);
        assert(out@ =~= v@.skip(i as int).reverse());
    }
    assert(v@.skip(0) =~= v@);
    out
}

// ---- what refers to a node -------------------------------------------------

/// The predicate of the nodes that are attached to `sel`.
pub open spec fn attached_to(s: SceneGraph, sel: u32) -> spec_fn(int) -> bool {
    |i: int| s.nodes@[i].attach matches Some(b) && b.parent == sel
}

/// The predicate of the joints that drive `sel`.
pub open spec fn drives(s: SceneGraph, sel: u32) -> spec_fn(int) -> bool {
    |j: int| s.joints@[j].pivot == sel
}

/// The predicate of the tracks that drive `sel`.
pub open spec fn on_track(tracks: Seq<u32>, sel: u32) -> spec_fn(int) -> bool {
    |t: int| tracks[t] == sel
}

/// How many tracks of a clip drive `sel`.
pub open spec fn tracks_on(s: SceneGraph, clip: int, sel: u32) -> nat {
    count_where(on_track(s.clips@[clip].tracks@, sel), s.clips@[clip].tracks@.len())
}

/// The predicate of the clips that animate `sel`.
pub open spec fn animates(s: SceneGraph, sel: u32) -> spec_fn(int) -> bool {
    |c: int| tracks_on(s, c, sel) > 0
}

/// The predicate of the skins that `sel` is a bone of.
pub open spec fn has_bone(s: SceneGraph, sel: u32) -> spec_fn(int) -> bool {
    |k: int| s.skins@[k].joints@.contains(sel)
}

/// The predicate of the skins whose skeleton starts at `sel`.
pub open spec fn rooted_at(s: SceneGraph, sel: u32) -> spec_fn(int) -> bool {
    |k: int| s.skins@[k].skeleton_root == Some(sel)
}

/// The name of the skin that a node is bound to.
pub open spec fn skin_of(s: SceneGraph, n: SceneNode) -> Option<Seq<char>> {
    match n.skin {
        Some(k) => if k < s.skins@.len() {
            Some(s.skins@[k as int].name@)
        } else {
            None
        },
        None => None,
    }
}

/// The name of the material that a node uses.
pub open spec fn material_of(s: SceneGraph, n: SceneNode) -> Option<Seq<char>> {
    match n.material {
        Some(m) => if m < s.materials@.len() {
            Some(s.materials@[m as int].name@)
        } else {
            None
        },
        None => None,
    }
}

/// What the section lists about a node.
pub struct Connections {
    /// The ancestors, the root first.
    pub path: Vec<Link>,
    pub children: Vec<Link>,
    pub attached_to: Option<(Link, String)>,
    pub holds: Vec<Link>,
    pub conforms_to: Option<Link>,
    pub material: Option<String>,
    /// What animates the node, one line each.
    pub rig: Vec<String>,
    /// The section is shown unfolded.
    pub default_open: bool,
}

/// The lines about joints, in the order of the scene.
pub open spec fn joint_lines(s: SceneGraph, sel: u32) -> Seq<Seq<char>> {
    places(drives(s, sel), s.joints@.len()).map_values(
        |j: int|
            "🦴 driven by joint “"@ + s.joints@[j].name@ + "” ("@ + s.joints@[j].kind@ + ")"@,
    )
}

/// The lines about clips, in the order of the scene.
pub open spec fn clip_lines(s: SceneGraph, sel: u32) -> Seq<Seq<char>> {
    places(animates(s, sel), s.clips@.len()).map_values(
        |c: int|
            "▶ animated by clip “"@ + s.clips@[c].name@ + "” ("@ + decimal_digits(
                tracks_on(s, c, sel),
            ) + " tracks)"@,
    )
}

/// The lines about skins that hold the node as a bone.
pub open spec fn bone_lines(s: SceneGraph, sel: u32) -> Seq<Seq<char>> {
    places(has_bone(s, sel), s.skins@.len()).map_values(
        |k: int| "bone in skin “"@ + s.skins@[k].name@ + "”"@,
    )
}

/// The lines about skins whose skeleton starts at the node.
pub open spec fn root_lines(s: SceneGraph, sel: u32) -> Seq<Seq<char>> {
    places(rooted_at(s, sel), s.skins@.len()).map_values(
        |k: int| "skeleton root of “"@ + s.skins@[k].name@ + "”"@,
    )
}

/// The line about the skin that the node is bound to.
pub open spec fn skin_line(s: SceneGraph, n: SceneNode) -> Seq<Seq<char>> {
    match skin_of(s, n) {
        Some(name) => seq!["skinned to “"@ + name + "”"@],
        None => Seq::empty(),
    }
}

/// Everything that animates a node: joints, clips, its skin, and the skins
/// that it is a bone or the root of.
pub open spec fn rig_lines(s: SceneGraph, sel: u32, n: SceneNode) -> Seq<Seq<char>> {
    joint_lines(s, sel) + clip_lines(s, sel) + skin_line(s, n) + bone_lines(s, sel) + root_lines(
        s,
        sel,
    )
}

/// The ids of the nodes at a list of places.
pub open spec fn ids_at(p: Seq<int>) -> Seq<u32> {
    p.map_values(|i: int| i as u32)
}

/// Whether `c` lists the links of the node `sel`.
pub open spec fn lists(s: SceneGraph, sel: u32, n: SceneNode, c: Connections) -> bool {
    &&& exists|chain: Seq<u32>| #[trigger]
        is_chain(s, n.parent, chain) && links_to(s, chain.reverse(), c.path@)
    &&& links_to(s, n.children@, c.children@)
    &&& match n.attach {
        Some(b) => c.attached_to matches Some(a) && a.0.id == b.parent && a.0.name@ == name_of(
            s,
            b.parent,
        ) && a.1@ == "· socket “"@ + b.socket@ + "”"@,
        None => c.attached_to is None,
    }
    &&& links_to(s, ids_at(places(attached_to(s, sel), s.nodes@.len())), c.holds@)
    &&& match n.conform_target {
        Some(t) => c.conforms_to matches Some(l) && l.id == t && l.name@ == name_of(s, t),
        None => c.conforms_to is None,
    }
    &&& opt_view(c.material) == match material_of(s, n) {
        Some(m) => Some("material: "@ + m),
        None => None,
    }
    &&& views(c.rig@) == rig_lines(s, sel, n)
    &&& c.default_open == (n.attach is Some || c.holds@.len() > 0 || n.conform_target is Some
        || n.children@.len() > 0)
}

/// Whether there is nothing to list.
pub open spec fn is_bare(c: Connections) -> bool {
    &&& c.path@.len() == 0
    &&& c.children@.len() == 0
    &&& c.attached_to is None
    &&& c.holds@.len() == 0
    &&& c.conforms_to is None
    &&& c.material is None
    &&& c.rig@.len() == 0
}

/// Whether the node `sel` has nothing to list.
pub open spec fn is_unlinked(s: SceneGraph, sel: u32, n: SceneNode) -> bool {
    exists|c: Connections| #[trigger] lists(s, sel, n, c) && is_bare(c)
}

fn mark_attached(s: &SceneGraph, sel: u32) -> (r: Vec<usize>)
    ensures
        as_places(r@) == places(attached_to(*s, sel), s.nodes@.len()),
{
    let mut marks: Vec<bool> = Vec::new();
    let mut i: usize = 0;
    while i < s.nodes.len()
        invariant
            i <= s.nodes@.len(),
            marks@.len() == i,
            forall|k: int| 0 <= k < i ==> #[trigger] marks@[k] == attached_to(*s, sel)(k),
        decreases s.nodes.len() - i,
    {
        let hit = match &s.nodes[i].attach {
            Some(b) => b.parent == sel,
            None => false,
        };
        marks.push(hit);
        i = i + 1;
    }
    proof {
        lemma_places_same(|k: int| marks@[k], attached_to(*s, sel), marks@.len());
    }
    marked_places(&marks)
}

fn push_joint_lines(s: &SceneGraph, sel: u32, out: &mut Vec<String>)
    ensures
        views(final(out)@) == views(old(out)@) + joint_lines(*s, sel),
{
    let ghost first = views(out@);
    let ghost p = drives(*s, sel);
    let ghost line = |j: int|
        "🦴 driven by joint “"@ + s.joints@[j].name@ + "” ("@ + s.joints@[j].kind@ + ")"@;
    let mut j: usize = 0;
    assert(views(out@) =~= first + places(p, 0).map_values(line));
    while j < s.joints.len()
        invariant
            j <= s.joints@.len(),
            p == drives(*s, sel),
            line == (|j: int|
                "🦴 driven by joint “"@ + s.joints@[j].name@ + "” ("@ + s.joints@[j].kind@ + ")"@),
            views(out@) == first + places(p, j as nat).map_values(line),
        decreases s.joints.len() - j,
    {
        let ghost before = views(out@);
        assert(p(j as int) == (s.joints@[j as int].pivot == sel));
        let jt = &s.joints[j];
        if jt.pivot == sel {
            out.push(
                cat5("🦴 driven by joint “", jt.name.as_str(), "” (", jt.kind.as_str(), ")"),
            );
            assert(views(out@) =~= before.push(line(j as int)));
            assert(places(p, (j + 1) as nat).map_values(line) =~= places(p, j as nat).map_values(
                line,
            ).push(line(j as int)));
        } else {
            assert(places(p, (j + 1) as nat) == places(p, j as nat));
        }
        assert(views(out@) =~= first + places(p, (j + 1) as nat).map_values(line));
        j = j + 1;
    }
}

fn count_tracks(s: &SceneGraph, c: usize, sel: u32) -> (r: usize)
    requires
        c < s.clips@.len(),
    ensures
        r == tracks_on(*s, c as int, sel),
{
    let tracks = &s.clips[c].tracks;
    let ghost p = on_track(tracks@, sel);
    let mut n: usize = 0;
    let mut t: usize = 0;
    while t < tracks.len()
        invariant
            t <= tracks@.len(),
            c < s.clips@.len(),
            tracks@ == s.clips@[c as int].tracks@,
            p == on_track(tracks@, sel),
            n <= t,
            n == count_where(p, t as nat),
        decreases tracks.len() - t,
    {
        assert(p(t as int) == (tracks@[t as int] == sel));
        if tracks[t] == sel {
            n = n + 1;
        }
        t = t + 1;
    }
    n
}

fn push_clip_lines(s: &SceneGraph, sel: u32, out: &mut Vec<String>)
    ensures
        views(final(out)@) == views(old(out)@) + clip_lines(*s, sel),
{
    let ghost first = views(out@);
    let ghost p = animates(*s, sel);
    let ghost line = |c: int|
        "▶ animated by clip “"@ + s.clips@[c].name@ + "” ("@ + decimal_digits(
            tracks_on(*s, c, sel),
        ) + " tracks)"@;
    let mut c: usize = 0;
    assert(views(out@) =~= first + places(p, 0).map_values(line));
    while c < s.clips.len()
        invariant
            c <= s.clips@.len(),
            p == animates(*s, sel),
            line == (|c: int|
                "▶ animated by clip “"@ + s.clips@[c].name@ + "” ("@ + decimal_digits(
                    tracks_on(*s, c, sel),
                ) + " tracks)"@),
            views(out@) == first + places(p, c as nat).map_values(line),
        decreases s.clips.len() - c,
    {
        let ghost before = views(out@);
        let n = count_tracks(s, c, sel);
        assert(p(c as int) == (n > 0));
        if n > 0 {
            let digits = decimal(n);
            out.push(
                cat5(
                    "▶ animated by clip “",
                    s.clips[c].name.as_str(),
                    "” (",
                    digits.as_str(),
                    " tracks)",
                ),
            );
            assert(views(out@) =~= before.push(line(c as int)));
            assert(places(p, (c + 1) as nat).map_values(line) =~= places(p, c as nat).map_values(
                line,
            ).push(line(c as int)));
        } else {
            assert(places(p, (c + 1) as nat) == places(p, c as nat));
        }
        assert(views(out@) =~= first + places(p, (c + 1) as nat).map_values(line));
        c = c + 1;
    }
}

fn has_joint(joints: &Vec<u32>, sel: u32) -> (r: bool)
    ensures
        r == joints@.contains(sel),
{
    let mut i: usize = 0;
    while i < joints.len()
        invariant
            i <= joints@.len(),
            forall|k: int| 0 <= k < i ==> #[trigger] joints@[k] != sel,
        decreases joints.len() - i,
    {
        if joints[i] == sel {
            return true;
        }
        i = i + 1;
    }
    false
}

fn push_bone_lines(s: &SceneGraph, sel: u32, out: &mut Vec<String>)
    ensures
        views(final(out)@) == views(old(out)@) + bone_lines(*s, sel),
{
    let ghost first = views(out@);
    let ghost p = has_bone(*s, sel);
    let ghost line = |k: int| "bone in skin “"@ + s.skins@[k].name@ + "”"@;
    let mut k: usize = 0;
    assert(views(out@) =~= first + places(p, 0).map_values(line));
    while k < s.skins.len()
        invariant
            k <= s.skins@.len(),
            p == has_bone(*s, sel),
            line == (|k: int| "bone in skin “"@ + s.skins@[k].name@ + "”"@),
            views(out@) == first + places(p, k as nat).map_values(line),
        decreases s.skins.len() - k,
    {
        let ghost before = views(out@);
        let hit = has_joint(&s.skins[k].joints, sel);
        assert(p(k as int) == hit);
        if hit {
            out.push(cat3("bone in skin “", s.skins[k].name.as_str(), "”"));
            assert(views(out@) =~= before.push(line(k as int)));
            assert(places(p, (k + 1) as nat).map_values(line) =~= places(p, k as nat).map_values(
                line,
            ).push(line(k as int)));
        } else {
            assert(places(p, (k + 1) as nat) == places(p, k as nat));
        }
        assert(views(out@) =~= first + places(p, (k + 1) as nat).map_values(line));
        k = k + 1;
    }
}

fn push_root_lines(s: &SceneGraph, sel: u32, out: &mut Vec<String>)
    ensures
        views(final(out)@) == views(old(out)@) + root_lines(*s, sel),
{
    let ghost first = views(out@);
    let ghost p = rooted_at(*s, sel);
    let ghost line = |k: int| "skeleton root of “"@ + s.skins@[k].name@ + "”"@;
    let mut k: usize = 0;
    assert(views(out@) =~= first + places(p, 0).map_values(line));
    while k < s.skins.len()
        invariant
            k <= s.skins@.len(),
            p == rooted_at(*s, sel),
            line == (|k: int| "skeleton root of “"@ + s.skins@[k].name@ + "”"@),
            views(out@) == first + places(p, k as nat).map_values(line),
        decreases s.skins.len() - k,
    {
        let ghost before = views(out@);
        let hit = match s.skins[k].skeleton_root {
            Some(root) => root == sel,
            None => false,
        };
        assert(p(k as int) == hit);
        if hit {
            out.push(cat3("skeleton root of “", s.skins[k].name.as_str(), "”"));
            assert(views(out@) =~= before.push(line(k as int)));
            assert(places(p, (k + 1) as nat).map_values(line) =~= places(p, k as nat).map_values(
                line,
            ).push(line(k as int)));
        } else {
            assert(places(p, (k + 1) as nat) == places(p, k as nat));
        }
        assert(views(out@) =~= first + places(p, (k + 1) as nat).map_values(line));
        k = k + 1;
    }
}

fn rig_of(s: &SceneGraph, sel: u32, n: &SceneNode) -> (r: Vec<String>)
    ensures
        views(r@) == rig_lines(*s, sel, *n),
{
    let mut out: Vec<String> = Vec::new();
    assert(views(out@) =~= Seq::empty());
    push_joint_lines(s, sel, &mut out);
    push_clip_lines(s, sel, &mut out);
    let ghost before = views(out@);
    if let Some(k) = n.skin {
        if (k as usize) < s.skins.len() {
            out.push(cat3("skinned to “", s.skins[k as usize].name.as_str(), "”"));
        }
    }
    assert(views(out@) =~= before + skin_line(*s, *n));
    push_bone_lines(s, sel, &mut out);
    push_root_lines(s, sel, &mut out);
    assert(views(out@) =~= rig_lines(*s, sel, *n));
    out
}

/// The links of the node `sel`, or none when it has no links at all.
pub fn connections(s: &SceneGraph, sel: u32) -> (r: Option<Connections>)
    requires
        sel < s.nodes@.len(),
        s.nodes@.len() <= u32::MAX,
        is_rooted(*s, s.nodes@[sel as int].parent),
    ensures
        match r {
            Some(c) => lists(*s, sel, s.nodes@[sel as int], c) && !is_bare(c),
            None => is_unlinked(*s, sel, s.nodes@[sel as int]),
        },
{
    let n = &s.nodes[sel as usize];
    let chain = match ancestors(s, n.parent) {
        Some(chain) => chain,
        None => Vec::new(),
    };
    let up = reversed(&chain);
    let path = link_all(s, &up);
    let children = link_all(s, &n.children);
    let attached = match &n.attach {
        Some(b) => Some((link_to(s, b.parent), cat3("· socket “", b.socket.as_str(), "”"))),
        None => None,
    };
    let held = mark_attached(s, sel);
    let mut held_ids: Vec<u32> = Vec::new();
    let mut i: usize = 0;
    while i < held.len()
        invariant
            i <= held@.len(),
            held_ids@.len() == i,
            forall|k: int| 0 <= k < i ==> #[trigger] held_ids@[k] == held@[k] as u32,
        decreases held.len() - i,
    {
        held_ids.push(held[i] as u32);
        i = i + 1;
    }
    assert(held_ids@ =~= ids_at(places(attached_to(*s, sel), s.nodes@.len()))) by {
        let p = places(attached_to(*s, sel), s.nodes@.len());
        assert(as_places(held@) == p);
        assert forall|k: int| 0 <= k < held@.len() implies held_ids@[k] == ids_at(p)[k] by {
            assert(as_places(held@)[k] == held@[k] as int);
        }
    }
    let holds = link_all(s, &held_ids);
    let conforms_to = match n.conform_target {
        Some(t) => Some(link_to(s, t)),
        None => None,
    };
    let material = match n.material {
        Some(m) => if (m as usize) < s.materials.len() {
            Some(cat2("material: ", s.materials[m as usize].name.as_str()))
        } else {
            None
        },
        None => None,
    };
    let rig = rig_of(s, sel, n);
    let default_open = n.attach.is_some() || holds.len() > 0 || n.conform_target.is_some()
        || n.children.len() > 0;
    let bare = path.len() == 0 && children.len() == 0 && attached.is_none() && holds.len() == 0
        && conforms_to.is_none() && material.is_none() && rig.len() == 0;
    let c = Connections {
        path,
        children,
        attached_to: attached,
        holds,
        conforms_to,
        material,
        rig,
        default_open,
    };
    proof {
        assert(is_chain(*s, n.parent, chain@));
        assert(lists(*s, sel, *n, c));
    }
    if bare {
        None
    } else {
        Some(c)
    }
}

/// The line above the children.
pub fn children_label(n: usize) -> (r: String)
    ensures
        r@ == "Children ("@ + decimal_digits(n as nat) + "):"@,
{
    let digits = decimal(n);
    cat3("Children (", digits.as_str(), "):")
}

/// The line above what the node holds.
pub fn holds_label(n: usize) -> (r: String)
    ensures
        r@ == "⚓ holds ("@ + decimal_digits(n as nat) + "):"@,
{
    let digits = decimal(n);
    cat3("⚓ holds (", digits.as_str(), "):")
}

// ---- laws ------------------------------------------------------------------

/// The ancestors start at the parent and go up one by one to a node without
/// one; a ring of parents has none.
pub proof fn law_ancestors_lead_to_the_root(
    s: &SceneGraph,
    from: Option<u32>,
    r: Option<Vec<u32>>,
    i: int,
)
    requires
        call_ensures(ancestors, (s, from), r),
    ensures
        r matches Some(chain) ==> {
            &&& from is None <==> chain@.len() == 0
            &&& from matches Some(f) ==> chain@[0] == f
            &&& 0 <= i && i + 1 < chain@.len() ==> chain@[i] < s.nodes@.len()
                && s.nodes@[chain@[i] as int].parent == Some(chain@[i + 1])
            &&& chain@.len() > 0 && chain@.last() < s.nodes@.len()
                ==> s.nodes@[chain@.last() as int].parent is None
        },
        from is None ==> r is Some,
{
    if let Some(chain) = r {
        if 0 <= i && i + 1 < chain@.len() {
            assert(parent_of(*s, chain@[i]) == Some(chain@[i + 1]));
        }
    }
    if from is None {
        let none: Seq<u32> = Seq::empty();
        assert(is_chain(*s, from, none));
    }
}

/// The section lists the children of the node in order, what it is attached
/// and conforms to, and its material, each by its name; the path ends at its
/// parent.
pub proof fn law_connections_are_those_of_the_node(
    s: &SceneGraph,
    sel: u32,
    c: Connections,
    i: int,
)
    requires
        sel < s.nodes@.len() <= u32::MAX,
        call_ensures(connections, (s, sel), Some(c)),
    ensures
        c.children@.len() == s.nodes@[sel as int].children@.len(),
        0 <= i < c.children@.len() ==> c.children@[i].id == s.nodes@[sel as int].children@[i],
        0 <= i < c.children@.len() && c.children@[i].id < s.nodes@.len() ==> c.children@[i].name@
            == s.nodes@[c.children@[i].id as int].name@,
        s.nodes@[sel as int].parent is None <==> c.path@.len() == 0,
        s.nodes@[sel as int].parent matches Some(p) ==> c.path@.last().id == p,
        s.nodes@[sel as int].attach matches Some(b) ==> (c.attached_to matches Some(a) && a.0.id
            == b.parent && a.1@ == "· socket “"@ + b.socket@ + "”"@),
        s.nodes@[sel as int].attach is None ==> c.attached_to is None,
        s.nodes@[sel as int].conform_target matches Some(t) ==> (c.conforms_to matches Some(l) && l.id
            == t),
        s.nodes@[sel as int].conform_target is None ==> c.conforms_to is None,
        s.nodes@[sel as int].material matches Some(m) ==> m < s.materials@.len() ==> opt_view(
            c.material,
        ) == Some("material: "@ + s.materials@[m as int].name@),
        s.nodes@[sel as int].material is None ==> c.material is None,
        s.nodes@[sel as int].children@.len() > 0 ==> c.default_open,
{
    let n = s.nodes@[sel as int];
    let chain = choose|chain: Seq<u32>| #[trigger]
        is_chain(*s, n.parent, chain) && links_to(*s, chain.reverse(), c.path@);
    if chain.len() > 0 {
        let up = chain.reverse();
        assert(up[up.len() - 1] == chain[0]);
        assert(c.path@[up.len() - 1].id == up[up.len() - 1]);
    }
    if 0 <= i < c.children@.len() {
        assert(c.children@[i].id == n.children@[i]);
    }
}

/// The section lists exactly the nodes that are attached to the node as held
/// by it.
pub proof fn law_held_nodes_are_the_attached_ones(
    s: &SceneGraph,
    sel: u32,
    c: Connections,
    i: int,
)
    requires
        sel < s.nodes@.len() <= u32::MAX,
        call_ensures(connections, (s, sel), Some(c)),
        0 <= i < s.nodes@.len(),
    ensures
        (exists|k: int| 0 <= k < c.holds@.len() && (#[trigger] c.holds@[k]).id == i as u32) <==> (
        s.nodes@[i].attach matches Some(b) && b.parent == sel),
{
    let p = attached_to(*s, sel);
    let all = places(p, s.nodes@.len());
    lemma_places(p, s.nodes@.len());
    let ids = ids_at(all);
    assert(links_to(*s, ids, c.holds@));
    if p(i) {
        assert(all.contains(i));
        let k = choose|k: int| 0 <= k < all.len() && all[k] == i;
        assert(ids[k] == i as u32);
        assert(c.holds@[k].id == i as u32);
    }
    if exists|k: int| 0 <= k < c.holds@.len() && (#[trigger] c.holds@[k]).id == i as u32 {
        let k = choose|k: int| 0 <= k < c.holds@.len() && (#[trigger] c.holds@[k]).id == i as u32;
        assert(c.holds@[k].id == ids[k]);
        assert(ids[k] == all[k] as u32);
        assert(0 <= all[k] < s.nodes@.len());
        assert(all[k] == i);
        assert(p(all[k]));
    }
}

/// A node is listed as animated by every joint, clip and skin that has it, and
/// by no other.
pub proof fn law_rig_lists_every_driver(s: SceneGraph, sel: u32, n: SceneNode, j: int)
    ensures
        0 <= j < s.joints@.len() && s.joints@[j].pivot == sel ==> joint_lines(s, sel).contains(
            "🦴 driven by joint “"@ + s.joints@[j].name@ + "” ("@ + s.joints@[j].kind@ + ")"@,
        ),
        0 <= j < s.skins@.len() && s.skins@[j].joints@.contains(sel) ==> bone_lines(
            s,
            sel,
        ).contains("bone in skin “"@ + s.skins@[j].name@ + "”"@),
        0 <= j < s.skins@.len() && s.skins@[j].skeleton_root == Some(sel) ==> root_lines(
            s,
            sel,
        ).contains("skeleton root of “"@ + s.skins@[j].name@ + "”"@),
        (forall|k: int| 0 <= k < s.joints@.len() ==> (#[trigger] s.joints@[k]).pivot != sel)
            ==> joint_lines(s, sel).len() == 0,
        rig_lines(s, sel, n).len() == joint_lines(s, sel).len() + clip_lines(s, sel).len()
            + skin_line(s, n).len() + bone_lines(s, sel).len() + root_lines(s, sel).len(),
{
    lemma_places(drives(s, sel), s.joints@.len());
    lemma_places(has_bone(s, sel), s.skins@.len());
    lemma_places(rooted_at(s, sel), s.skins@.len());
    if 0 <= j < s.joints@.len() && s.joints@[j].pivot == sel {
        let p = drives(s, sel);
        assert(p(j));
        let all = places(p, s.joints@.len());
        assert(all.contains(j));
        let k = choose|k: int| 0 <= k < all.len() && all[k] == j;
        assert(joint_lines(s, sel)[k] == "🦴 driven by joint “"@ + s.joints@[j].name@ + "” ("@
            + s.joints@[j].kind@ + ")"@);
    }
    if 0 <= j < s.skins@.len() && s.skins@[j].joints@.contains(sel) {
        let p = has_bone(s, sel);
        assert(p(j));
        let all = places(p, s.skins@.len());
        assert(all.contains(j));
        let k = choose|k: int| 0 <= k < all.len() && all[k] == j;
        assert(bone_lines(s, sel)[k] == "bone in skin “"@ + s.skins@[j].name@ + "”"@);
    }
    if 0 <= j < s.skins@.len() && s.skins@[j].skeleton_root == Some(sel) {
        let p = rooted_at(s, sel);
        assert(p(j));
        let all = places(p, s.skins@.len());
        assert(all.contains(j));
        let k = choose|k: int| 0 <= k < all.len() && all[k] == j;
        assert(root_lines(s, sel)[k] == "skeleton root of “"@ + s.skins@[j].name@ + "”"@);
    }
    if forall|k: int| 0 <= k < s.joints@.len() ==> (#[trigger] s.joints@[k]).pivot != sel {
        let all = places(drives(s, sel), s.joints@.len());
        if all.len() > 0 {
            assert(drives(s, sel)(all[0]));
        }
    }
}

/// Whether a line is among the lines.
pub open spec fn tells(lines: Seq<String>, line: Seq<char>) -> bool {
    exists|k: int| 0 <= k < lines.len() && (#[trigger] lines[k])@ == line
}

proof fn lemma_either_tells(a: Seq<Seq<char>>, b: Seq<Seq<char>>, line: Seq<char>)
    ensures
        a.contains(line) || b.contains(line) ==> (a + b).contains(line),
{
    if a.contains(line) {
        let k = choose|k: int| 0 <= k < a.len() && a[k] == line;
        assert((a + b)[k] == line);
    }
    if b.contains(line) {
        let k = choose|k: int| 0 <= k < b.len() && b[k] == line;
        assert((a + b)[a.len() + k] == line);
    }
}

proof fn lemma_rig_tells(s: SceneGraph, sel: u32, n: SceneNode, rig: Seq<String>, line: Seq<char>)
    requires
        views(rig) == rig_lines(s, sel, n),
        joint_lines(s, sel).contains(line) || clip_lines(s, sel).contains(line) || skin_line(
            s,
            n,
        ).contains(line) || bone_lines(s, sel).contains(line) || root_lines(s, sel).contains(line),
    ensures
        tells(rig, line),
{
    let a = joint_lines(s, sel);
    let b = clip_lines(s, sel);
    let c = skin_line(s, n);
    let d = bone_lines(s, sel);
    let e = root_lines(s, sel);
    lemma_either_tells(a, b, line);
    lemma_either_tells(a + b, c, line);
    lemma_either_tells(a + b + c, d, line);
    lemma_either_tells(a + b + c + d, e, line);
    let v = views(rig);
    let k = choose|k: int| 0 <= k < v.len() && v[k] == line;
    assert(rig[k]@ == line);
}

/// How many tracks of a list drive `sel`.
pub open spec fn tracks_for(tracks: Seq<u32>, sel: u32) -> nat {
    tracks.filter(track_for(sel)).len()
}

/// The predicate of a track that drives `sel`.
pub open spec fn track_for(sel: u32) -> spec_fn(u32) -> bool {
    |t: u32| t == sel
}

proof fn lemma_tracks_for(s: SceneGraph, c: int, sel: u32)
    ensures
        tracks_on(s, c, sel) == tracks_for(s.clips@[c].tracks@, sel),
{
    let tracks = s.clips@[c].tracks@;
    lemma_count_filtered(tracks, track_for(sel), on_track(tracks, sel), tracks.len());
    assert(tracks.take(tracks.len() as int) =~= tracks);
}

proof fn lemma_clip_line(s: SceneGraph, sel: u32, c: int)
    requires
        0 <= c < s.clips@.len(),
        tracks_for(s.clips@[c].tracks@, sel) > 0,
    ensures
        clip_lines(s, sel).contains(
            "▶ animated by clip “"@ + s.clips@[c].name@ + "” ("@ + decimal_digits(
                tracks_for(s.clips@[c].tracks@, sel),
            ) + " tracks)"@,
        ),
{
    lemma_tracks_for(s, c, sel);
    let p = animates(s, sel);
    lemma_places(p, s.clips@.len());
    assert(p(c));
    let all = places(p, s.clips@.len());
    assert(all.contains(c));
    let k = choose|k: int| 0 <= k < all.len() && all[k] == c;
    assert(clip_lines(s, sel)[k] == "▶ animated by clip “"@ + s.clips@[c].name@ + "” ("@
        + decimal_digits(tracks_for(s.clips@[c].tracks@, sel)) + " tracks)"@);
}

/// The section tells every joint that drives the node, every clip with tracks
/// for it and how many they are, the skin that it is bound to, and every skin
/// that it is a bone or the root of.
pub proof fn law_rig_tells_what_moves_the_node(s: &SceneGraph, sel: u32, c: Connections, j: int)
    requires
        sel < s.nodes@.len() <= u32::MAX,
        call_ensures(connections, (s, sel), Some(c)),
    ensures
        0 <= j < s.joints@.len() && s.joints@[j].pivot == sel ==> tells(
            c.rig@,
            "🦴 driven by joint “"@ + s.joints@[j].name@ + "” ("@ + s.joints@[j].kind@ + ")"@,
        ),
        0 <= j < s.clips@.len() && tracks_for(s.clips@[j].tracks@, sel) > 0 ==> tells(
            c.rig@,
            "▶ animated by clip “"@ + s.clips@[j].name@ + "” ("@ + decimal_digits(
                tracks_for(s.clips@[j].tracks@, sel),
            ) + " tracks)"@,
        ),
        0 <= j < s.skins@.len() && s.nodes@[sel as int].skin == Some(j as u32) && j <= u32::MAX
            ==> tells(c.rig@, "skinned to “"@ + s.skins@[j].name@ + "”"@),
        0 <= j < s.skins@.len() && s.skins@[j].joints@.contains(sel) ==> tells(
            c.rig@,
            "bone in skin “"@ + s.skins@[j].name@ + "”"@,
        ),
        0 <= j < s.skins@.len() && s.skins@[j].skeleton_root == Some(sel) ==> tells(
            c.rig@,
            "skeleton root of “"@ + s.skins@[j].name@ + "”"@,
        ),
{
    let n = s.nodes@[sel as int];
    law_rig_lists_every_driver(*s, sel, n, j);
    if 0 <= j < s.joints@.len() && s.joints@[j].pivot == sel {
        lemma_rig_tells(
            *s,
            sel,
            n,
            c.rig@,
            "🦴 driven by joint “"@ + s.joints@[j].name@ + "” ("@ + s.joints@[j].kind@ + ")"@,
        );
    }
    if 0 <= j < s.clips@.len() && tracks_for(s.clips@[j].tracks@, sel) > 0 {
        lemma_clip_line(*s, sel, j);
        lemma_rig_tells(
            *s,
            sel,
            n,
            c.rig@,
            "▶ animated by clip “"@ + s.clips@[j].name@ + "” ("@ + decimal_digits(
                tracks_for(s.clips@[j].tracks@, sel),
            ) + " tracks)"@,
        );
    }
    if 0 <= j < s.skins@.len() && n.skin == Some(j as u32) && j <= u32::MAX {
        let line = "skinned to “"@ + s.skins@[j].name@ + "”"@;
        assert(skin_line(*s, n)[0] == line);
        lemma_rig_tells(*s, sel, n, c.rig@, line);
    }
    if 0 <= j < s.skins@.len() && s.skins@[j].joints@.contains(sel) {
        lemma_rig_tells(*s, sel, n, c.rig@, "bone in skin “"@ + s.skins@[j].name@ + "”"@);
    }
    if 0 <= j < s.skins@.len() && s.skins@[j].skeleton_root == Some(sel) {
        lemma_rig_tells(*s, sel, n, c.rig@, "skeleton root of “"@ + s.skins@[j].name@ + "”"@);
    }
}

/// The section has one line for each of them, and no other.
pub proof fn law_rig_has_a_line_for_each(s: &SceneGraph, sel: u32, c: Connections)
    requires
        sel < s.nodes@.len() <= u32::MAX,
        call_ensures(connections, (s, sel), Some(c)),
    ensures
        c.rig@.len() == s.joints@.filter(|x: Joint| x.pivot == sel).len() + s.clips@.filter(
            |x: Clip| tracks_for(x.tracks@, sel) > 0,
        ).len() + (if s.nodes@[sel as int].skin matches Some(k) && k < s.skins@.len() {
            1nat
        } else {
            0nat
        }) + s.skins@.filter(|x: Skin| x.joints@.contains(sel)).len() + s.skins@.filter(
            |x: Skin| x.skeleton_root == Some(sel),
        ).len(),
{
    let n = s.nodes@[sel as int];
    assert(views(c.rig@).len() == c.rig@.len());
    law_rig_lists_every_driver(*s, sel, n, 0);
    let jq = |x: Joint| x.pivot == sel;
    lemma_places_count(drives(*s, sel), s.joints@.len());
    lemma_count_filtered(s.joints@, jq, drives(*s, sel), s.joints@.len());
    assert(s.joints@.take(s.joints@.len() as int) =~= s.joints@);
    let cq = |x: Clip| tracks_for(x.tracks@, sel) > 0;
    lemma_places_count(animates(*s, sel), s.clips@.len());
    assert forall|i: int| 0 <= i < s.clips@.len() implies #[trigger] animates(*s, sel)(i) == cq(
        s.clips@[i],
    ) by {
        lemma_tracks_for(*s, i, sel);
    }
    lemma_count_filtered(s.clips@, cq, animates(*s, sel), s.clips@.len());
    assert(s.clips@.take(s.clips@.len() as int) =~= s.clips@);
    let bq = |x: Skin| x.joints@.contains(sel);
    lemma_places_count(has_bone(*s, sel), s.skins@.len());
    lemma_count_filtered(s.skins@, bq, has_bone(*s, sel), s.skins@.len());
    let rq = |x: Skin| x.skeleton_root == Some(sel);
    lemma_places_count(rooted_at(*s, sel), s.skins@.len());
    lemma_count_filtered(s.skins@, rq, rooted_at(*s, sel), s.skins@.len());
    assert(s.skins@.take(s.skins@.len() as int) =~= s.skins@);
}

/// There is only one way from a node to the root.
pub proof fn lemma_one_chain(s: SceneGraph, from: Option<u32>, a: Seq<u32>, b: Seq<u32>)
    requires
        is_chain(s, from, a),
        is_chain(s, from, b),
    ensures
        a == b,
{
    if a.len() <= b.len() {
        lemma_same_start(s, from, a, b, a.len() as int);
        if 0 < a.len() < b.len() {
            assert(a[a.len() - 1] == b[a.len() - 1]);
            assert(parent_of(s, b[a.len() - 1]) == Some(b[a.len() - 1 + 1]));
        }
    } else {
        lemma_same_start(s, from, a, b, b.len() as int);
        if 0 < b.len() {
            assert(a[b.len() - 1] == b[b.len() - 1]);
            assert(parent_of(s, a[b.len() - 1]) == Some(a[b.len() - 1 + 1]));
        }
    }
    assert(a.len() == b.len());
    assert(a =~= b);
}

proof fn lemma_same_start(s: SceneGraph, from: Option<u32>, a: Seq<u32>, b: Seq<u32>, n: int)
    requires
        is_chain(s, from, a),
        is_chain(s, from, b),
        0 <= n <= a.len(),
        n <= b.len(),
    ensures
        forall|k: int| 0 <= k < n ==> a[k] == b[k],
    decreases n,
{
    if n > 1 {
        lemma_same_start(s, from, a, b, n - 1);
        assert(a[n - 2] == b[n - 2]);
        assert(parent_of(s, a[n - 2]) == Some(a[n - 2 + 1]));
        assert(parent_of(s, b[n - 2]) == Some(b[n - 2 + 1]));
    }
}

} // verus!
