//! Picking and counting places in a list.

use vstd::prelude::*;

verus! {

/// The places below `n` at which `p` holds, in order.
pub open spec fn places(p: spec_fn(int) -> bool, n: nat) -> Seq<int>
    decreases n,
{
    if n == 0 {
        Seq::empty()
    } else {
        let before = places(p, (n - 1) as nat);
        if p(n - 1) {
            before.push(n - 1)
        } else {
            before
        }
    }
}

/// A list of places as integers.
pub open spec fn as_places(v: Seq<usize>) -> Seq<int> {
    v.map_values(|i: usize| i as int)
}

/// The places at which a list of marks is set.
pub fn marked_places(marks: &Vec<bool>) -> (r: Vec<usize>)
    ensures
        as_places(r@) == places(|i: int| marks@[i], marks@.len()),
{
    let mut out: Vec<usize> = Vec::new();
    let mut i: usize = 0;
    let ghost p = |i: int| marks@[i];
    assert(as_places(out@) =~= places(p, 0));
    while i < marks.len()
        invariant
            i <= marks@.len(),
            p == (|i: int| marks@[i]),
            as_places(out@) == places(p, i as nat),
        decreases marks.len() - i,
    {
        let ghost before = out@;
        if marks[i] {
            out.push(i);
            assert(as_places(out@) =~= as_places(before).push(i as int));
        }
        i = i + 1;
    }
    out
}

pub proof fn lemma_places_same(p: spec_fn(int) -> bool, q: spec_fn(int) -> bool, n: nat)
    requires
        forall|i: int| 0 <= i < n ==> #[trigger] p(i) == q(i),
    ensures
        places(p, n) == places(q, n),
    decreases n,
{
    if n > 0 {
        lemma_places_same(p, q, (n - 1) as nat);
    }
}

pub proof fn lemma_places(p: spec_fn(int) -> bool, n: nat)
    ensures
        places(p, n).len() <= n,
        forall|k: int|
            0 <= k < places(p, n).len() ==> 0 <= (#[trigger] places(p, n)[k]) < n && p(
                places(p, n)[k],
            ),
        forall|i: int| 0 <= i < n && p(i) ==> #[trigger] places(p, n).contains(i),
    decreases n,
{
    if n > 0 {
        let m = (n - 1) as nat;
        lemma_places(p, m);
        let before = places(p, m);
        let now = places(p, n);
        assert forall|i: int| 0 <= i < n && p(i) implies #[trigger] now.contains(i) by {
            if i < m {
                assert(before.contains(i));
                let k = choose|k: int| 0 <= k < before.len() && before[k] == i;
                assert(now[k] == i);
            } else {
                assert(now[before.len() as int] == i);
            }
        }
    }
}

/// How many of the places below `n` satisfy `p`.
pub open spec fn count_where(p: spec_fn(int) -> bool, n: nat) -> nat
    decreases n,
{
    if n == 0 {
        0
    } else {
        count_where(p, (n - 1) as nat) + if p(n - 1) {
            1nat
        } else {
            0nat
        }
    }
}

/// The marked places are those that are marked, all of them, in order.
pub proof fn law_marked_places_are_the_marked_ones(marks: &Vec<bool>, r: Vec<usize>)
    requires
        call_ensures(marked_places, (marks,), r),
    ensures
        forall|k: int| 0 <= k < r@.len() ==> (#[trigger] r@[k]) < marks@.len() && marks@[r@[k] as int],
        forall|i: int|
            0 <= i < marks@.len() && #[trigger] marks@[i] ==> exists|k: int|
                0 <= k < r@.len() && #[trigger] r@[k] == i,
        forall|a: int, b: int| 0 <= a < b < r@.len() ==> (#[trigger] r@[a]) < (#[trigger] r@[b]),
{
    let p = |i: int| marks@[i];
    let all = places(p, marks@.len());
    lemma_places(p, marks@.len());
    lemma_places_rise(p, marks@.len());
    assert forall|k: int| 0 <= k < r@.len() implies (#[trigger] r@[k]) < marks@.len()
        && marks@[r@[k] as int] by {
        assert(as_places(r@)[k] == r@[k] as int);
        assert(p(all[k]));
    }
    assert forall|i: int| 0 <= i < marks@.len() && #[trigger] marks@[i] implies exists|k: int|
        0 <= k < r@.len() && #[trigger] r@[k] == i by {
        assert(p(i));
        assert(all.contains(i));
        let k = choose|k: int| 0 <= k < all.len() && all[k] == i;
        assert(as_places(r@)[k] == r@[k] as int);
    }
    assert forall|a: int, b: int| 0 <= a < b < r@.len() implies (#[trigger] r@[a]) < (
    #[trigger] r@[b]) by {
        assert(as_places(r@)[a] == r@[a] as int);
        assert(as_places(r@)[b] == r@[b] as int);
        assert(all[a] < all[b]);
    }
}

pub proof fn lemma_places_rise(p: spec_fn(int) -> bool, n: nat)
    ensures
        forall|a: int, b: int|
            0 <= a < b < places(p, n).len() ==> (#[trigger] places(p, n)[a]) < (#[trigger] places(
                p,
                n,
            )[b]),
    decreases n,
{
    if n > 0 {
        lemma_places_rise(p, (n - 1) as nat);
        lemma_places(p, (n - 1) as nat);
    }
}

/// How many places are picked is how many there are to count.
pub proof fn lemma_count_filtered<A>(
    s: Seq<A>,
    q: spec_fn(A) -> bool,
    p: spec_fn(int) -> bool,
    n: nat,
)
    requires
        n <= s.len(),
        forall|i: int| 0 <= i < n ==> #[trigger] p(i) == q(s[i]),
    ensures
        count_where(p, n) == s.take(n as int).filter(q).len(),
    decreases n,
{
    reveal(Seq::filter);
    if n > 0 {
        let m = (n - 1) as nat;
        lemma_count_filtered(s, q, p, m);
        assert(s.take(n as int).drop_last() =~= s.take(m as int));
        assert(p(m as int) == q(s[m as int]));
    }
}

/// As many places are listed as there are to count.
pub proof fn lemma_places_count(p: spec_fn(int) -> bool, n: nat)
    ensures
        places(p, n).len() == count_where(p, n),
    decreases n,
{
    if n > 0 {
        lemma_places_count(p, (n - 1) as nat);
    }
}

} // verus!
