//! Which objects still want a worker, and the reservation that keeps two
//! workers from being started for the same object.

use vstd::prelude::*;

use super::state::{ObjectEntry, WizardState};
use crate::ids::IdSet;

verus! {

/// Whether the file that `path` names is not on disk.
pub open spec fn absent(path: Option<String>, on_disk: Set<Seq<char>>) -> bool {
    match path {
        Some(p) => !on_disk.contains(p@),
        None => true,
    }
}

/// A reference image still needs generating when its picture is not on disk.
pub fn reference_missing(o: &ObjectEntry, on_disk: &IdSet) -> (r: bool)
    ensures
        r == absent(o.reference_image, on_disk@),
{
    match &o.reference_image {
        Some(p) => !on_disk.contains(p.as_str()),
        None => true,
    }
}

/// A module still needs generating when its file is not on disk.
pub fn object_missing(o: &ObjectEntry, on_disk: &IdSet) -> (r: bool)
    ensures
        r == absent(o.mog_path, on_disk@),
{
    match &o.mog_path {
        Some(p) => !on_disk.contains(p.as_str()),
        None => true,
    }
}

/// Whether `r` is the first object that is missing and whose id is not taken.
pub open spec fn first_free(
    m: Seq<ObjectEntry>,
    missing: spec_fn(ObjectEntry) -> bool,
    taken: Set<Seq<char>>,
    r: Option<&ObjectEntry>,
) -> bool {
    match r {
        Some(o) => exists|k: int|
            {
                &&& 0 <= k < m.len()
                &&& *o == #[trigger] m[k]
                &&& missing(m[k])
                &&& !taken.contains(m[k].id@)
                &&& forall|j: int|
                    0 <= j < k ==> !missing(#[trigger] m[j]) || taken.contains(m[j].id@)
            },
        None => forall|j: int|
            0 <= j < m.len() ==> !missing(#[trigger] m[j]) || taken.contains(m[j].id@),
    }
}

/// The predicate of the objects without a reference image on disk.
pub open spec fn wants_reference(on_disk: Set<Seq<char>>) -> spec_fn(ObjectEntry) -> bool {
    |o: ObjectEntry| absent(o.reference_image, on_disk)
}

/// The predicate of the objects without a module on disk.
pub open spec fn wants_module(on_disk: Set<Seq<char>>) -> spec_fn(ObjectEntry) -> bool {
    |o: ObjectEntry| absent(o.mog_path, on_disk)
}

/// The first object that wants a reference image and has no worker in flight.
pub fn next_pending_reference_skipping<'a>(
    state: &'a WizardState,
    in_flight: &IdSet,
    on_disk: &IdSet,
) -> (r: Option<&'a ObjectEntry>)
    ensures
        first_free(state.manifest@, wants_reference(on_disk@), in_flight@, r),
{
    let mut i: usize = 0;
    while i < state.manifest.len()
        invariant
            i <= state.manifest@.len(),
            forall|j: int|
                0 <= j < i ==> !wants_reference(on_disk@)(#[trigger] state.manifest@[j])
                    || in_flight@.contains(state.manifest@[j].id@),
        decreases state.manifest.len() - i,
    {
        let o = &state.manifest[i];
        if reference_missing(o, on_disk) && !in_flight.contains(o.id.as_str()) {
            assert(*o == state.manifest@[i as int]);
            return Some(o);
        }
        i = i + 1;
    }
    None
}

/// The first object that wants a module and has no worker in flight.
pub fn next_pending_object_skipping<'a>(
    state: &'a WizardState,
    in_flight: &IdSet,
    on_disk: &IdSet,
) -> (r: Option<&'a ObjectEntry>)
    ensures
        first_free(state.manifest@, wants_module(on_disk@), in_flight@, r),
{
    let mut i: usize = 0;
    while i < state.manifest.len()
        invariant
            i <= state.manifest@.len(),
            forall|j: int|
                0 <= j < i ==> !wants_module(on_disk@)(#[trigger] state.manifest@[j])
                    || in_flight@.contains(state.manifest@[j].id@),
        decreases state.manifest.len() - i,
    {
        let o = &state.manifest[i];
        if object_missing(o, on_disk) && !in_flight.contains(o.id.as_str()) {
            assert(*o == state.manifest@[i as int]);
            return Some(o);
        }
        i = i + 1;
    }
    None
}

/// The objects of `m` that are marked missing in `flags` and whose id is not
/// taken, in order.
pub open spec fn pending(
    m: Seq<ObjectEntry>,
    flags: Seq<bool>,
    taken: Set<Seq<char>>,
) -> Seq<ObjectEntry>
    decreases m.len(),
{
    if m.len() == 0 {
        Seq::empty()
    } else {
        let before = pending(m.drop_last(), flags, taken);
        if flags[m.len() - 1] && !taken.contains(m.last().id@) {
            before.push(m.last())
        } else {
            before
        }
    }
}

/// The ids of a list of objects.
pub open spec fn ids_of(v: Seq<ObjectEntry>) -> Set<Seq<char>>
    decreases v.len(),
{
    if v.len() == 0 {
        Set::empty()
    } else {
        ids_of(v.drop_last()).insert(v.last().id@)
    }
}

/// Whether `missing` may have answered `flags` on the first objects of `m`.
pub open spec fn answered<F: Fn(&ObjectEntry) -> bool>(
    missing: F,
    m: Seq<ObjectEntry>,
    flags: Seq<bool>,
) -> bool {
    &&& flags.len() <= m.len()
    &&& forall|i: int|
        0 <= i < flags.len() ==> call_ensures(missing, (&m[i],), #[trigger] flags[i])
}

/// The free places under a target.
pub open spec fn capacity(target: int, in_flight: int) -> int {
    if target > in_flight {
        target - in_flight
    } else {
        0
    }
}

/// Whether `out` is what a claim takes when `missing` answers `flags`: the
/// pending objects among those it asked about, no more than there are free
/// places, and it asks on until the places are full or the objects run out.
pub open spec fn claims(
    m: Seq<ObjectEntry>,
    flags: Seq<bool>,
    taken: Set<Seq<char>>,
    free: int,
    out: Seq<ObjectEntry>,
) -> bool {
    &&& flags.len() <= m.len()
    &&& out == pending(m.take(flags.len() as int), flags, taken)
    &&& out.len() <= free
    &&& out.len() == free || flags.len() == m.len()
}

/// Takes the first objects that want a worker, up to the free places under
/// `target_concurrency`, and reserves their ids in the same step, so that the
/// next poll cannot start them again before their files are on disk.
pub fn claim_pending_batch<F: Fn(&ObjectEntry) -> bool>(
    manifest: &Vec<ObjectEntry>,
    in_flight: &mut IdSet,
    target_concurrency: usize,
    missing: F,
) -> (r: Vec<ObjectEntry>)
    requires
        forall|o: &ObjectEntry| call_requires(missing, (o,)),
    ensures
        exists|flags: Seq<bool>|
            {
                &&& #[trigger] answered(missing, manifest@, flags)
                &&& claims(
                    manifest@,
                    flags,
                    old(in_flight)@,
                    capacity(target_concurrency as int, old(in_flight)@.len() as int),
                    r@,
                )
            },
        final(in_flight)@ == old(in_flight)@.union(ids_of(r@)),
        final(in_flight)@.finite(),
{
    let taken = in_flight.len();
    let free: usize = if target_concurrency > taken {
        target_concurrency - taken
    } else {
        0
    };
    let mut claimed: Vec<ObjectEntry> = Vec::new();
    let mut i: usize = 0;
    let ghost mut flags: Seq<bool> = Seq::empty();
    while i < manifest.len() && claimed.len() < free
        invariant
            i <= manifest@.len(),
            flags.len() == i,
            answered(missing, manifest@, flags),
            claimed@ == pending(manifest@.take(i as int), flags, in_flight@),
            claimed@.len() <= free,
            forall|o: &ObjectEntry| call_requires(missing, (o,)),
        decreases manifest.len() - i,
    {
        let o = &manifest[i];
        let wanted = missing(o);
        let ghost before = flags;
        proof {
            flags = flags.push(wanted);
            assert(manifest@.take(i + 1).drop_last() =~= manifest@.take(i as int));
            lemma_pending_flags(manifest@.take(i as int), before, flags, in_flight@);
        }
        if wanted && !in_flight.contains(o.id.as_str()) {
            claimed.push(o.clone());
        }
        i = i + 1;
    }
    let ghost first = in_flight@;
    let mut k: usize = 0;
    assert(first =~= first.union(ids_of(claimed@.take(0))));
    while k < claimed.len()
        invariant
            k <= claimed@.len(),
            in_flight@ == first.union(ids_of(claimed@.take(k as int))),
        decreases claimed.len() - k,
    {
        assert(claimed@.take(k + 1).drop_last() =~= claimed@.take(k as int));
        in_flight.insert(claimed[k].id.clone());
        assert(in_flight@ =~= first.union(ids_of(claimed@.take(k + 1))));
        k = k + 1;
    }
    assert(claimed@.take(k as int) =~= claimed@);
    let _ = in_flight.len();
    claimed
}

proof fn lemma_pending_flags(
    m: Seq<ObjectEntry>,
    a: Seq<bool>,
    b: Seq<bool>,
    taken: Set<Seq<char>>,
)
    requires
        forall|i: int| 0 <= i < m.len() ==> a[i] == b[i],
    ensures
        pending(m, a, taken) == pending(m, b, taken),
    decreases m.len(),
{
    if m.len() > 0 {
        lemma_pending_flags(m.drop_last(), a, b, taken);
    }
}

// ---- what claiming guarantees ----------------------------------------------

/// The predicate of the objects that are missing and whose id is not taken.
pub open spec fn unclaimed(
    missing: spec_fn(ObjectEntry) -> bool,
    taken: Set<Seq<char>>,
) -> spec_fn(ObjectEntry) -> bool {
    |o: ObjectEntry| missing(o) && !taken.contains(o.id@)
}

/// Whether the answers are those of the predicate `missing`.
pub open spec fn answers_of(
    missing: spec_fn(ObjectEntry) -> bool,
    m: Seq<ObjectEntry>,
    flags: Seq<bool>,
) -> bool {
    flags.len() <= m.len() && forall|i: int|
        0 <= i < flags.len() ==> #[trigger] flags[i] == missing(m[i])
}

/// Whether no two objects share an id.
pub open spec fn distinct_ids(m: Seq<ObjectEntry>) -> bool {
    forall|i: int, j: int|
        0 <= i < j < m.len() ==> (#[trigger] m[i]).id@ != (#[trigger] m[j]).id@
}

proof fn lemma_pending_is_filter(
    m: Seq<ObjectEntry>,
    flags: Seq<bool>,
    missing: spec_fn(ObjectEntry) -> bool,
    taken: Set<Seq<char>>,
)
    requires
        m.len() <= flags.len(),
        forall|i: int| 0 <= i < m.len() ==> #[trigger] flags[i] == missing(m[i]),
    ensures
        pending(m, flags, taken) == m.filter(unclaimed(missing, taken)),
    decreases m.len(),
{
    reveal(Seq::filter);
    if m.len() > 0 {
        let t = m.drop_last();
        assert forall|i: int| 0 <= i < t.len() implies #[trigger] flags[i] == missing(t[i]) by {
            assert(t[i] == m[i]);
        }
        lemma_pending_is_filter(t, flags, missing, taken);
        assert(flags[m.len() - 1] == missing(m.last()));
    }
}

pub proof fn lemma_ids_of(v: Seq<ObjectEntry>)
    ensures
        ids_of(v).finite(),
        ids_of(v).len() <= v.len(),
        distinct_ids(v) ==> ids_of(v).len() == v.len(),
        forall|k: int| 0 <= k < v.len() ==> ids_of(v).contains((#[trigger] v[k]).id@),
        forall|x: Seq<char>| #[trigger]
            ids_of(v).contains(x) ==> exists|k: int| 0 <= k < v.len() && (#[trigger] v[k]).id@ == x,
    decreases v.len(),
{
    if v.len() > 0 {
        let t = v.drop_last();
        lemma_ids_of(t);
        assert forall|k: int| 0 <= k < v.len() implies ids_of(v).contains((#[trigger] v[k]).id@) by {
            if k < t.len() {
                assert(t[k] == v[k]);
            }
        }
        assert forall|x: Seq<char>| #[trigger] ids_of(v).contains(x) implies exists|k: int|
            0 <= k < v.len() && (#[trigger] v[k]).id@ == x by {
            if x == v.last().id@ {
                assert(v[v.len() - 1].id@ == x);
            } else {
                assert(ids_of(t).contains(x));
                let k = choose|k: int| 0 <= k < t.len() && (#[trigger] t[k]).id@ == x;
                assert(v[k].id@ == x);
            }
        }
        if distinct_ids(v) {
            assert forall|i: int, j: int| 0 <= i < j < t.len() implies (#[trigger] t[i]).id@ != (
            #[trigger] t[j]).id@ by {
                assert(t[i] == v[i] && t[j] == v[j]);
            }
            if ids_of(t).contains(v.last().id@) {
                let k = choose|k: int| 0 <= k < t.len() && (#[trigger] t[k]).id@ == v.last().id@;
                assert(v[k].id@ == v[v.len() - 1].id@);
            }
        }
    }
}

proof fn lemma_filter_distinct(m: Seq<ObjectEntry>, f: spec_fn(ObjectEntry) -> bool)
    requires
        distinct_ids(m),
    ensures
        distinct_ids(m.filter(f)),
    decreases m.len(),
{
    reveal(Seq::filter);
    if m.len() > 0 {
        let t = m.drop_last();
        assert forall|i: int, j: int| 0 <= i < j < t.len() implies (#[trigger] t[i]).id@ != (
        #[trigger] t[j]).id@ by {
            assert(t[i] == m[i] && t[j] == m[j]);
        }
        lemma_filter_distinct(t, f);
        let before = t.filter(f);
        let out = m.filter(f);
        assert forall|i: int, j: int| 0 <= i < j < out.len() implies (#[trigger] out[i]).id@ != (
        #[trigger] out[j]).id@ by {
            if j < before.len() {
                assert(out[i] == before[i] && out[j] == before[j]);
            } else {
                assert(out[i] == before[i]);
                assert(t.filter(f).contains(before[i]));
                t.lemma_filter_contains_rev(f, before[i]);
                let k = choose|k: int| 0 <= k < t.len() && t[k] == before[i];
                assert(m[k].id@ != m[m.len() - 1].id@);
            }
        }
    }
}

/// A claim takes, in order, the first objects that are missing and not yet
/// taken, as many as there are free places.
pub proof fn law_claim_takes_the_first_pending(
    m: Seq<ObjectEntry>,
    missing: spec_fn(ObjectEntry) -> bool,
    flags: Seq<bool>,
    taken: Set<Seq<char>>,
    free: int,
    out: Seq<ObjectEntry>,
)
    requires
        answers_of(missing, m, flags),
        claims(m, flags, taken, free, out),
    ensures
        ({
            let all = m.filter(unclaimed(missing, taken));
            out == if all.len() <= free {
                all
            } else {
                all.take(free)
            }
        }),
{
    let n = flags.len() as int;
    let f = unclaimed(missing, taken);
    let head = m.take(n);
    let tail = m.skip(n);
    lemma_pending_is_filter(head, flags, missing, taken);
    assert(head + tail =~= m);
    Seq::filter_distributes_over_add(head, tail, f);
    let all = m.filter(f);
    assert(all == out + tail.filter(f));
    if n == m.len() {
        assert(tail =~= Seq::empty());
        reveal(Seq::filter);
        assert(all =~= out);
    } else {
        assert(all.take(free) =~= out);
        if all.len() <= free {
            assert(all =~= out);
        }
    }
}

/// A claim never hands out an id that already has a worker in flight, nor an
/// object whose file is on disk.
pub proof fn law_claimed_objects_were_free(
    m: Seq<ObjectEntry>,
    missing: spec_fn(ObjectEntry) -> bool,
    flags: Seq<bool>,
    taken: Set<Seq<char>>,
    free: int,
    out: Seq<ObjectEntry>,
)
    requires
        answers_of(missing, m, flags),
        claims(m, flags, taken, free, out),
    ensures
        forall|k: int|
            0 <= k < out.len() ==> missing(#[trigger] out[k]) && !taken.contains(out[k].id@)
                && m.contains(out[k]),
{
    law_claim_takes_the_first_pending(m, missing, flags, taken, free, out);
    let f = unclaimed(missing, taken);
    let all = m.filter(f);
    assert forall|k: int| 0 <= k < out.len() implies missing(#[trigger] out[k]) && !taken.contains(
        out[k].id@,
    ) && m.contains(out[k]) by {
        assert(out[k] == all[k]);
        m.lemma_filter_pred(f, k);
        assert(all.contains(all[k]));
        m.lemma_filter_contains_rev(f, all[k]);
    }
}

/// A claim never brings the number of workers in flight above the target (nor
/// above what was in flight before, if that was more).
pub proof fn law_claim_keeps_within_target(
    m: Seq<ObjectEntry>,
    flags: Seq<bool>,
    taken: Set<Seq<char>>,
    target: nat,
    out: Seq<ObjectEntry>,
)
    requires
        taken.finite(),
        claims(m, flags, taken, capacity(target as int, taken.len() as int), out),
    ensures
        taken.union(ids_of(out)).len() <= target || taken.union(ids_of(out)).len() <= taken.len(),
{
    lemma_ids_of(out);
    vstd::set_lib::lemma_len_union(taken, ids_of(out));
}

/// While a first claim is in flight, a second one with the same target finds
/// nothing to hand out.
pub proof fn law_second_claim_is_empty(
    m: Seq<ObjectEntry>,
    missing: spec_fn(ObjectEntry) -> bool,
    flags1: Seq<bool>,
    flags2: Seq<bool>,
    taken: Set<Seq<char>>,
    target: nat,
    first: Seq<ObjectEntry>,
    second: Seq<ObjectEntry>,
)
    requires
        distinct_ids(m),
        taken.finite(),
        answers_of(missing, m, flags1),
        answers_of(missing, m, flags2),
        claims(m, flags1, taken, capacity(target as int, taken.len() as int), first),
        claims(
            m,
            flags2,
            taken.union(ids_of(first)),
            capacity(target as int, taken.union(ids_of(first)).len() as int),
            second,
        ),
    ensures
        second == Seq::<ObjectEntry>::empty(),
{
    let free = capacity(target as int, taken.len() as int);
    let after = taken.union(ids_of(first));
    law_claim_takes_the_first_pending(m, missing, flags1, taken, free, first);
    law_claimed_objects_were_free(m, missing, flags1, taken, free, first);
    lemma_ids_of(first);
    let f = unclaimed(missing, taken);
    let all = m.filter(f);
    if all.len() <= free {
        if second.len() > 0 {
            law_claimed_objects_were_free(
                m,
                missing,
                flags2,
                after,
                capacity(target as int, after.len() as int),
                second,
            );
            let o = second[0];
            let k = choose|k: int| 0 <= k < m.len() && m[k] == o;
            m.lemma_filter_contains(f, k);
            let i = choose|i: int| 0 <= i < all.len() && all[i] == o;
            assert(ids_of(first).contains(first[i].id@));
        }
    } else {
        lemma_filter_distinct(m, f);
        assert(distinct_ids(first)) by {
            assert forall|i: int, j: int| 0 <= i < j < first.len() implies (#[trigger] first[i]).id@
                != (#[trigger] first[j]).id@ by {
                assert(first[i] == all[i] && first[j] == all[j]);
            }
        }
        assert(taken.disjoint(ids_of(first)));
        vstd::set_lib::lemma_set_disjoint_lens(taken, ids_of(first));
        assert(after.len() == taken.len() + first.len());
    }
    assert(second =~= Seq::empty());
}

/// Once everything pending has been claimed, the poll's probe finds nothing.
pub proof fn law_poll_gate_closes(
    m: Seq<ObjectEntry>,
    missing: spec_fn(ObjectEntry) -> bool,
    flags: Seq<bool>,
    taken: Set<Seq<char>>,
    free: int,
    out: Seq<ObjectEntry>,
)
    requires
        answers_of(missing, m, flags),
        claims(m, flags, taken, free, out),
        m.filter(unclaimed(missing, taken)).len() <= free,
    ensures
        first_free(m, missing, taken.union(ids_of(out)), None),
{
    law_claim_takes_the_first_pending(m, missing, flags, taken, free, out);
    lemma_ids_of(out);
    let f = unclaimed(missing, taken);
    let after = taken.union(ids_of(out));
    assert forall|j: int| 0 <= j < m.len() implies !missing(#[trigger] m[j]) || after.contains(
        m[j].id@,
    ) by {
        if f(m[j]) {
            m.lemma_filter_contains(f, j);
            let i = choose|i: int| 0 <= i < out.len() && out[i] == m[j];
            assert(ids_of(out).contains(out[i].id@));
        }
    }
}

/// An object whose worker has finished without leaving its file is pending
/// again, and a claim with enough free places takes it.
pub proof fn law_finished_id_can_be_reclaimed(
    m: Seq<ObjectEntry>,
    missing: spec_fn(ObjectEntry) -> bool,
    flags: Seq<bool>,
    taken: Set<Seq<char>>,
    k: int,
    free: int,
    out: Seq<ObjectEntry>,
)
    requires
        0 <= k < m.len(),
        missing(m[k]),
        answers_of(missing, m, flags),
        claims(m, flags, taken.remove(m[k].id@), free, out),
        m.filter(unclaimed(missing, taken.remove(m[k].id@))).len() <= free,
    ensures
        out.contains(m[k]),
{
    let rest = taken.remove(m[k].id@);
    law_claim_takes_the_first_pending(m, missing, flags, rest, free, out);
    m.lemma_filter_contains(unclaimed(missing, rest), k);
}

/// The objects that `missing` names and that have no worker in flight.
pub open spec fn waiting(
    m: Seq<ObjectEntry>,
    missing: spec_fn(ObjectEntry) -> bool,
    in_flight: Set<Seq<char>>,
) -> Seq<ObjectEntry> {
    m.filter(|o: ObjectEntry| missing(o) && !in_flight.contains(o.id@))
}

/// A claim fills the places up to the target with the first objects that are
/// waiting, in order, or with all of them where there are fewer, and reserves
/// the ids of these and no others.
pub proof fn law_claim_fills_the_places<F: Fn(&ObjectEntry) -> bool>(
    manifest: &Vec<ObjectEntry>,
    in_flight: &mut IdSet,
    target: usize,
    missing: F,
    p: spec_fn(ObjectEntry) -> bool,
    r: Vec<ObjectEntry>,
    x: Seq<char>,
)
    requires
        call_ensures(claim_pending_batch::<F>, (manifest, in_flight, target, missing), r),
        forall|o: &ObjectEntry, b: bool| call_ensures(missing, (o,), b) ==> b == p(*o),
    ensures
        ({
            let all = waiting(manifest@, p, old(in_flight)@);
            &&& old(in_flight)@.len() + all.len() <= target ==> r@ == all
            &&& old(in_flight)@.len() <= target < old(in_flight)@.len() + all.len() ==> r@
                == all.take(target - old(in_flight)@.len())
            &&& target < old(in_flight)@.len() ==> r@.len() == 0
        }),
        final(in_flight)@.contains(x) <==> old(in_flight)@.contains(x) || exists|k: int|
            0 <= k < r@.len() && (#[trigger] r@[k]).id@ == x,
{
    let taken = old(in_flight)@;
    let m = manifest@;
    let free = capacity(target as int, taken.len() as int);
    let flags = choose|flags: Seq<bool>|
        #[trigger] answered(missing, m, flags) && claims(m, flags, taken, free, r@);
    assert forall|i: int| 0 <= i < flags.len() implies #[trigger] flags[i] == p(m[i]) by {
        assert(call_ensures(missing, (&m[i],), flags[i]));
    }
    law_claim_takes_the_first_pending(m, p, flags, taken, free, r@);
    assert(unclaimed(p, taken) =~= (|o: ObjectEntry| p(o) && !taken.contains(o.id@)));
    lemma_ids_of(r@);
}

/// A file that is named and on disk is not missing; every other one is, for
/// the reference image and the module alike.
pub proof fn law_missing_files_are_not_on_disk(
    o: &ObjectEntry,
    on_disk: &IdSet,
    reference: bool,
    module: bool,
)
    requires
        call_ensures(reference_missing, (o, on_disk), reference),
        call_ensures(object_missing, (o, on_disk), module),
    ensures
        !reference <==> (o.reference_image matches Some(p) && on_disk@.contains(p@)),
        !module <==> (o.mog_path matches Some(p) && on_disk@.contains(p@)),
{
}

/// The next object for a worker is the first whose file is missing and that
/// has no worker yet; there is none only when no object is left.
pub proof fn law_next_object_is_the_first_waiting(
    state: &WizardState,
    in_flight: &IdSet,
    on_disk: &IdSet,
    reference: Option<&ObjectEntry>,
    module: Option<&ObjectEntry>,
    k: int,
)
    requires
        call_ensures(next_pending_reference_skipping, (state, in_flight, on_disk), reference),
        call_ensures(next_pending_object_skipping, (state, in_flight, on_disk), module),
        0 <= k < state.manifest@.len(),
        !in_flight@.contains(state.manifest@[k].id@),
        forall|j: int|
            0 <= j < k ==> in_flight@.contains((#[trigger] state.manifest@[j]).id@),
    ensures
        state.manifest@[k].reference_image is None ==> (reference matches Some(o) && *o
            == state.manifest@[k]),
        state.manifest@[k].mog_path is None ==> (module matches Some(o) && *o
            == state.manifest@[k]),
        reference matches Some(o) ==> !in_flight@.contains(o.id@) && state.manifest@.contains(*o)
            && (o.reference_image matches Some(p) ==> !on_disk@.contains(p@)),
        module matches Some(o) ==> !in_flight@.contains(o.id@) && state.manifest@.contains(*o) && (
        o.mog_path matches Some(p) ==> !on_disk@.contains(p@)),
{
    let m = state.manifest@;
    assert(first_free(m, wants_reference(on_disk@), in_flight@, reference));
    assert(first_free(m, wants_module(on_disk@), in_flight@, module));
    assert(wants_reference(on_disk@)(m[k]) == absent(m[k].reference_image, on_disk@));
    assert(wants_module(on_disk@)(m[k]) == absent(m[k].mog_path, on_disk@));
    if let Some(o) = reference {
        let i = choose|i: int|
            {
                &&& 0 <= i < m.len()
                &&& *o == #[trigger] m[i]
                &&& wants_reference(on_disk@)(m[i])
                &&& !in_flight@.contains(m[i].id@)
                &&& forall|j: int|
                    0 <= j < i ==> !wants_reference(on_disk@)(#[trigger] m[j]) || in_flight@.contains(
                        m[j].id@,
                    )
            };
        assert(m[i] == *o);
        if i < k {
            assert(in_flight@.contains(m[i].id@));
        }
    }
    if let Some(o) = module {
        let i = choose|i: int|
            {
                &&& 0 <= i < m.len()
                &&& *o == #[trigger] m[i]
                &&& wants_module(on_disk@)(m[i])
                &&& !in_flight@.contains(m[i].id@)
                &&& forall|j: int|
                    0 <= j < i ==> !wants_module(on_disk@)(#[trigger] m[j]) || in_flight@.contains(
                        m[j].id@,
                    )
            };
        assert(m[i] == *o);
        if i < k {
            assert(in_flight@.contains(m[i].id@));
        }
    }
}

} // verus!
