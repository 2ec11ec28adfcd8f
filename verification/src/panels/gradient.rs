//! The gradient of a material: its stops, how they are moved about, and how
//! the gradient is written in the source.

use vstd::prelude::*;

use crate::inspector::geometry::triple_text;
use crate::text::{
    cat2, cat3, cat5, join, joined, law_join_keeps_every_piece, law_join_reads_back, views,
};

verus! {

#[derive(Clone, Copy, Debug, PartialEq, Eq, Structural)]
pub enum GradientAxis {
    X,
    Y,
    Z,
}

#[derive(Clone, Copy, Debug, PartialEq, Eq, Structural)]
pub enum GradientKind {
    Linear { axis: GradientAxis },
    Radial,
}

/// A colour at a place on the ramp. Numbers are kept as they are written.
#[derive(Debug)]
pub struct GradientStop {
    /// The place, a single-precision number, as its bit pattern.
    pub t: u32,
    /// The place as it is written.
    pub place: String,
    pub red: String,
    pub green: String,
    pub blue: String,
    /// Whether the place is within a ten-thousandth of where an even spacing
    /// of all stops would put it.
    pub on_grid: bool,
}

pub struct Gradient {
    pub kind: GradientKind,
    pub stops: Vec<GradientStop>,
}

// ---- places on the ramp ----------------------------------------------------

/// Where a single-precision number lies among the others: its magnitude bits,
/// negated when the sign bit is set. Two numbers compare as these do.
pub open spec fn order(t: u32) -> int {
    if t >= 0x8000_0000 {
        0x8000_0000 - t
    } else {
        t as int
    }
}

/// Whether a bit pattern is that of a number.
pub open spec fn ordered(t: u32) -> bool {
    -0x7f80_0000 <= order(t) <= 0x7f80_0000
}

/// Whether a number is less than a ten-thousandth away from zero: its
/// magnitude lies below the bits of a ten-thousandth.
pub open spec fn near_zero(t: u32) -> bool {
    -0x38d1_b717 < order(t) < 0x38d1_b717
}

/// Whether a number is less than a ten-thousandth away from one. Below one the
/// numbers are half as far apart as above it.
pub open spec fn near_one(t: u32) -> bool {
    0x3f80_0000 - 1677 <= t <= 0x3f80_0000 + 838
}

fn order_of(t: u32) -> (r: i64)
    ensures
        r == order(t),
{
    if t >= 0x8000_0000 {
        0x8000_0000i64 - t as i64
    } else {
        t as i64
    }
}

fn is_near_zero(t: u32) -> (r: bool)
    ensures
        r == near_zero(t),
{
    let o = order_of(t);
    -0x38d1_b717i64 < o && o < 0x38d1_b717i64
}

fn is_near_one(t: u32) -> (r: bool)
    ensures
        r == near_one(t),
{
    0x3f80_0000 - 1677 <= t && t <= 0x3f80_0000 + 838
}

// ---- writing a gradient ----------------------------------------------------

/// What the button that adds a gradient writes.
pub open spec fn new_gradient() -> Seq<char> {
    "vertical(from=[0, 0, 0], to=[1, 1, 1])"@
}

/// What the button that adds a gradient writes.
pub fn default_gradient() -> (r: String)
    ensures
        r@ == new_gradient(),
{
    "vertical(from=[0, 0, 0], to=[1, 1, 1])".to_owned()
}

/// A colour as it is written.
pub open spec fn color_text(s: GradientStop) -> Seq<char> {
    "["@ + s.red@ + ", "@ + s.green@ + ", "@ + s.blue@ + "]"@
}

/// The letter of an axis.
pub open spec fn letter(a: GradientAxis) -> Seq<char> {
    match a {
        GradientAxis::X => "x"@,
        GradientAxis::Y => "y"@,
        GradientAxis::Z => "z"@,
    }
}

/// Whether the ramp is two stops at its two ends.
pub open spec fn collapses(stops: Seq<GradientStop>) -> bool {
    stops.len() == 2 && near_zero(stops[0].t) && near_one(stops[1].t)
}

/// Whether the stops are spaced evenly.
pub open spec fn even(stops: Seq<GradientStop>) -> bool {
    stops.len() >= 2 && forall|i: int| 0 <= i < stops.len() ==> (#[trigger] stops[i]).on_grid
}

/// The colours of the stops as they are written.
pub open spec fn colors(stops: Seq<GradientStop>) -> Seq<Seq<char>> {
    stops.map_values(|s: GradientStop| color_text(s))
}

/// The places of the stops as they are written.
pub open spec fn stop_places(stops: Seq<GradientStop>) -> Seq<Seq<char>> {
    stops.map_values(|s: GradientStop| s.place@)
}

/// What the general form holds: the colours, the places unless they are even,
/// and the kind or the axis unless it is the usual one.
pub open spec fn stop_parts(kind: GradientKind, stops: Seq<GradientStop>) -> Seq<Seq<char>> {
    seq!["colors=["@ + joined(colors(stops), ", "@) + "]"@] + (if even(stops) {
        Seq::empty()
    } else {
        seq!["positions=["@ + joined(stop_places(stops), ", "@) + "]"@]
    }) + match kind {
        GradientKind::Linear { axis: GradientAxis::Y } => Seq::empty(),
        GradientKind::Linear { axis } => seq!["axis="@ + letter(axis)],
        GradientKind::Radial => seq!["kind=radial"@],
    }
}

/// How a gradient is written. Two stops at the two ends have short forms of
/// their own; anything else takes the general form.
pub open spec fn written(kind: GradientKind, stops: Seq<GradientStop>) -> Seq<char> {
    if collapses(stops) {
        let a = color_text(stops[0]);
        let b = color_text(stops[1]);
        match kind {
            GradientKind::Linear { axis: GradientAxis::Y } => "vertical(from="@ + a + ", to="@ + b
                + ")"@,
            GradientKind::Linear { axis } => "linear(from="@ + a + ", to="@ + b + ", axis="@
                + letter(axis) + ")"@,
            GradientKind::Radial => "radial(center="@ + a + ", edge="@ + b + ")"@,
        }
    } else {
        "stops("@ + joined(stop_parts(kind, stops), ", "@) + ")"@
    }
}

fn color_vec3(s: &GradientStop) -> (r: String)
    ensures
        r@ == color_text(*s),
{
    triple_text(s.red.as_str(), s.green.as_str(), s.blue.as_str())
}

fn axis_letter(a: GradientAxis) -> (r: &'static str)
    ensures
        r@ == letter(a),
{
    match a {
        GradientAxis::X => "x",
        GradientAxis::Y => "y",
        GradientAxis::Z => "z",
    }
}

fn evenly_spaced(stops: &Vec<GradientStop>) -> (r: bool)
    ensures
        r == even(stops@),
{
    if stops.len() < 2 {
        return false;
    }
    let mut i: usize = 0;
    while i < stops.len()
        invariant
            i <= stops@.len(),
            forall|j: int| 0 <= j < i ==> (#[trigger] stops@[j]).on_grid,
        decreases stops.len() - i,
    {
        if !stops[i].on_grid {
            return false;
        }
        i = i + 1;
    }
    true
}

fn all_colors(stops: &Vec<GradientStop>) -> (r: String)
    ensures
        r@ == joined(colors(stops@), ", "@),
{
    let mut v: Vec<String> = Vec::new();
    let mut i: usize = 0;
    while i < stops.len()
        invariant
            i <= stops@.len(),
            v@.len() == i,
            forall|j: int| 0 <= j < i ==> (#[trigger] v@[j])@ == color_text(stops@[j]),
        decreases stops.len() - i,
    {
        v.push(color_vec3(&stops[i]));
        i = i + 1;
    }
    assert(views(v@) =~= colors(stops@));
    join(&v, ", ")
}

fn all_places(stops: &Vec<GradientStop>) -> (r: String)
    ensures
        r@ == joined(stop_places(stops@), ", "@),
{
    let mut v: Vec<String> = Vec::new();
    let mut i: usize = 0;
    while i < stops.len()
        invariant
            i <= stops@.len(),
            v@.len() == i,
            forall|j: int| 0 <= j < i ==> (#[trigger] v@[j])@ == stops@[j].place@,
        decreases stops.len() - i,
    {
        v.push(stops[i].place.clone());
        i = i + 1;
    }
    assert(views(v@) =~= stop_places(stops@));
    join(&v, ", ")
}

/// How a gradient is written in the source.
pub fn serialize_gradient(g: &Gradient) -> (r: String)
    ensures
        r@ == written(g.kind, g.stops@),
{
    if g.stops.len() == 2 && is_near_zero(g.stops[0].t) && is_near_one(g.stops[1].t) {
        let a = color_vec3(&g.stops[0]);
        let b = color_vec3(&g.stops[1]);
        return match g.kind {
            GradientKind::Radial => cat5("radial(center=", a.as_str(), ", edge=", b.as_str(), ")"),
            GradientKind::Linear { axis } => if axis == GradientAxis::Y {
                cat5("vertical(from=", a.as_str(), ", to=", b.as_str(), ")")
            } else {
                let ends = cat5("linear(from=", a.as_str(), ", to=", b.as_str(), ", axis=");
                let r = cat3(ends.as_str(), axis_letter(axis), ")");
                assert(r@ == written(g.kind, g.stops@));
                r
            },
        };
    }
    let mut parts: Vec<String> = Vec::new();
    let colors_text = all_colors(&g.stops);
    parts.push(cat3("colors=[", colors_text.as_str(), "]"));
    if !evenly_spaced(&g.stops) {
        let places_text = all_places(&g.stops);
        parts.push(cat3("positions=[", places_text.as_str(), "]"));
    }
    match g.kind {
        GradientKind::Linear { axis } => if axis != GradientAxis::Y {
            parts.push(cat2("axis=", axis_letter(axis)));
        },
        GradientKind::Radial => parts.push("kind=radial".to_owned()),
    }
    assert(views(parts@) =~= stop_parts(g.kind, g.stops@));
    let body = join(&parts, ", ");
    cat3("stops(", body.as_str(), ")")
}

// ---- the order of the stops ------------------------------------------------

/// Whether no stop lies before the one in front of it.
pub open spec fn in_order(stops: Seq<GradientStop>) -> bool {
    forall|i: int, j: int|
        0 <= i < j < stops.len() ==> order((#[trigger] stops[i]).t) <= order(
            (#[trigger] stops[j]).t,
        )
}

/// Whether stop `i` comes before stop `j` in a list that is in order: it lies
/// before it, or at the same place and was before it.
pub open spec fn comes_first(out: Seq<GradientStop>, from: Seq<int>, i: int, j: int) -> bool {
    ||| order(out[i].t) < order(out[j].t)
    ||| order(out[i].t) == order(out[j].t) && from[i] < from[j]
}

/// Whether `out` is `all` put in order, with stops at one place left as they
/// were. `from` says where each stop was.
pub open spec fn is_sorted_from(
    all: Seq<GradientStop>,
    out: Seq<GradientStop>,
    from: Seq<int>,
) -> bool {
    &&& out.len() == all.len()
    &&& from.len() == all.len()
    &&& forall|i: int| 0 <= i < from.len() ==> 0 <= #[trigger] from[i] < all.len()
    &&& forall|i: int| 0 <= i < from.len() ==> out[i] == all[#[trigger] from[i]]
    &&& forall|k: int| 0 <= k < all.len() ==> #[trigger] from.contains(k)
    &&& forall|i: int, j: int| 0 <= i < j < from.len() ==> #[trigger] comes_first(out, from, i, j)
}

/// Whether all places are those of numbers.
pub open spec fn all_ordered(stops: Seq<GradientStop>) -> bool {
    forall|i: int| 0 <= i < stops.len() ==> ordered((#[trigger] stops[i]).t)
}

/// Puts stops in order. Stops at one place stay as they were.
pub fn sort_stops(stops: &mut Vec<GradientStop>)
    requires
        all_ordered(old(stops)@),
    ensures
        exists|from: Seq<int>| is_sorted_from(old(stops)@, final(stops)@, from),
{
    let ghost all = stops@;
    let ghost n = stops@.len();
    let mut out: Vec<GradientStop> = Vec::new();
    let ghost mut from: Seq<int> = Seq::empty();
    while stops.len() > 0
        invariant
            all.len() == n,
            stops@.len() + out@.len() == n,
            stops@ == all.take(stops@.len() as int),
            from.len() == out@.len(),
            forall|i: int| 0 <= i < from.len() ==> stops@.len() <= #[trigger] from[i] < n,
            forall|i: int| 0 <= i < from.len() ==> out@[i] == all[#[trigger] from[i]],
            forall|k: int| stops@.len() <= k < n ==> #[trigger] from.contains(k),
            forall|i: int, j: int|
                0 <= i < j < from.len() ==> #[trigger] comes_first(out@, from, i, j),
        decreases stops.len(),
    {
        let ghost rest = stops@.len() - 1;
        let ghost before = out@;
        let ghost from_before = from;
        let mut k: usize = 0;
        let key = order_of(stops[stops.len() - 1].t);
        while k < out.len() && order_of(out[k].t) < key
            invariant
                k <= out@.len(),
                out@ == before,
                forall|j: int| 0 <= j < k ==> order((#[trigger] out@[j]).t) < key,
            decreases out.len() - k,
        {
            k = k + 1;
        }
        if let Some(s) = stops.pop() {
            out.insert(k, s);
            proof {
                from = from.insert(k as int, rest);
                assert(s == all[rest]);
                assert(order(s.t) == key);
                assert(stops@ =~= all.take(rest));
                assert(out@ == before.insert(k as int, s));
                assert forall|i: int| 0 <= i < from.len() implies out@[i] == all[#[trigger] from[i]]
                    && rest <= from[i] < n by {
                    if i < k {
                        assert(from[i] == from_before[i]);
                        assert(out@[i] == before[i]);
                    } else if i > k {
                        assert(from[i] == from_before[i - 1]);
                        assert(out@[i] == before[i - 1]);
                    }
                }
                assert forall|m: int| rest <= m < n implies #[trigger] from.contains(m) by {
                    if m == rest {
                        assert(from[k as int] == m);
                    } else {
                        assert(from_before.contains(m));
                        let w = choose|w: int| 0 <= w < from_before.len() && from_before[w] == m;
                        if w < k {
                            assert(from[w] == m);
                        } else {
                            assert(from[w + 1] == m);
                        }
                    }
                }
                assert forall|i: int, j: int| 0 <= i < j < from.len() implies #[trigger] comes_first(
                    out@,
                    from,
                    i,
                    j,
                ) by {
                    let oi = if i < k {
                        i
                    } else {
                        i - 1
                    };
                    let oj = if j < k {
                        j
                    } else {
                        j - 1
                    };
                    if i != k {
                        assert(from[i] == from_before[oi] && out@[i] == before[oi]);
                    }
                    if j != k {
                        assert(from[j] == from_before[oj] && out@[j] == before[oj]);
                    }
                    if i == k {
                        assert(order(before[k as int].t) >= key);
                        assert(oj == k || comes_first(before, from_before, k as int, oj));
                        assert(rest < from_before[oj]);
                    } else if j != k {
                        assert(comes_first(before, from_before, oi, oj));
                    }
                }
            }
        }
    }
    *stops = out;
    assert(is_sorted_from(all, stops@, from));
}

// ---- picking and moving stops ----------------------------------------------

/// Whether a distance is within a reach, both as bit patterns.
pub open spec fn in_reach(distance: u32, reach: u32) -> bool {
    ordered(distance) && ordered(reach) && order(distance) <= order(reach)
}

/// Whether `i` is the first of the nearest stops, and within reach.
pub open spec fn is_nearest(distances: Seq<u32>, reach: u32, i: int) -> bool {
    &&& 0 <= i < distances.len()
    &&& in_reach(distances[i], reach)
    &&& forall|j: int|
        0 <= j < distances.len() && in_reach(#[trigger] distances[j], reach) ==> order(distances[i])
            <= order(distances[j])
    &&& forall|j: int|
        0 <= j < i && in_reach(#[trigger] distances[j], reach) ==> order(distances[i]) < order(
            distances[j],
        )
}

/// Whether no stop is within reach.
pub open spec fn none_in_reach(distances: Seq<u32>, reach: u32) -> bool {
    forall|j: int| 0 <= j < distances.len() ==> !in_reach(#[trigger] distances[j], reach)
}

fn reaches(distance: u32, reach: u32) -> (r: bool)
    ensures
        r == in_reach(distance, reach),
{
    let d = order_of(distance);
    let o = order_of(reach);
    -0x7f80_0000i64 <= d && d <= o && o <= 0x7f80_0000i64
}

/// The nearest stop within reach, the first one of several. `distances` and
/// `reach` are bit patterns of numbers.
pub fn nearest_stop_within(distances: &Vec<u32>, reach: u32) -> (r: Option<usize>)
    ensures
        match r {
            Some(i) => is_nearest(distances@, reach, i as int),
            None => none_in_reach(distances@, reach),
        },
{
    let mut best: Option<usize> = None;
    let mut i: usize = 0;
    while i < distances.len()
        invariant
            i <= distances@.len(),
            match best {
                Some(b) => is_nearest(distances@.take(i as int), reach, b as int),
                None => none_in_reach(distances@.take(i as int), reach),
            },
        decreases distances.len() - i,
    {
        let ghost so_far = distances@.take(i as int);
        let ghost now = distances@.take(i + 1);
        assert(forall|j: int| 0 <= j < i ==> so_far[j] == #[trigger] now[j]);
        assert(now[i as int] == distances@[i as int]);
        let d = distances[i];
        if reaches(d, reach) {
            match best {
                Some(b) => {
                    assert(so_far[b as int] == now[b as int]);
                    if order_of(distances[b]) > order_of(d) {
                        assert forall|j: int|
                            0 <= j < i && in_reach(#[trigger] now[j], reach) implies order(d)
                            < order(now[j]) by {
                            assert(order(so_far[b as int]) <= order(so_far[j]));
                        }
                        best = Some(i);
                    }
                },
                None => {
                    assert forall|j: int| 0 <= j < i implies !in_reach(#[trigger] now[j], reach) by {
                        assert(!in_reach(so_far[j], reach));
                    }
                    best = Some(i);
                },
            }
        } else {
            assert(match best {
                Some(b) => so_far[b as int] == now[b as int],
                None => true,
            });
        }
        proof {
            match best {
                Some(b) => assert(is_nearest(now, reach, b as int)),
                None => assert forall|j: int| 0 <= j < now.len() implies !in_reach(
                    #[trigger] now[j],
                    reach,
                ) by {
                    if j < i {
                        assert(!in_reach(so_far[j], reach));
                    }
                },
            }
        }
        i = i + 1;
    }
    assert(distances@.take(i as int) =~= distances@);
    best
}

/// How near a stop has to be, in pixels, to be grabbed: ten, as a bit pattern.
pub const GRAB_REACH: u32 = 0x4120_0000;

/// How near a stop has to be, in pixels, to be removed: sixteen, as a bit
/// pattern.
pub const REMOVE_REACH: u32 = 0x4180_0000;

/// The stop that a drag takes hold of.
pub fn grab_stop(distances: &Vec<u32>) -> (r: Option<usize>)
    ensures
        match r {
            Some(i) => is_nearest(distances@, GRAB_REACH, i as int),
            None => none_in_reach(distances@, GRAB_REACH),
        },
{
    nearest_stop_within(distances, GRAB_REACH)
}

/// Whether a click on the ramp adds a stop: it does where no stop can be
/// grabbed.
pub fn click_adds_stop(distances: &Vec<u32>) -> (r: bool)
    ensures
        r == none_in_reach(distances@, GRAB_REACH),
{
    nearest_stop_within(distances, GRAB_REACH).is_none()
}

/// Takes out a stop; a ramp keeps at least two. Says whether it was taken out.
pub fn remove_stop(stops: &mut Vec<GradientStop>, i: usize) -> (removed: bool)
    ensures
        removed == (old(stops)@.len() > 2 && i < old(stops)@.len()),
        final(stops)@ == if removed {
            old(stops)@.remove(i as int)
        } else {
            old(stops)@
        },
{
    if stops.len() > 2 && i < stops.len() {
        stops.remove(i);
        true
    } else {
        false
    }
}

/// Takes out the stop that a click with the other button means.
pub fn remove_stop_at(stops: &mut Vec<GradientStop>, distances: &Vec<u32>) -> (removed: bool)
    requires
        distances@.len() == old(stops)@.len(),
    ensures
        removed == (old(stops)@.len() > 2 && !none_in_reach(distances@, REMOVE_REACH)),
        !removed ==> final(stops)@ == old(stops)@,
        removed ==> exists|i: int| #[trigger]
            is_nearest(distances@, REMOVE_REACH, i) && final(stops)@ == old(stops)@.remove(i),
{
    match nearest_stop_within(distances, REMOVE_REACH) {
        Some(i) => {
            let ghost before = stops@;
            let removed = remove_stop(stops, i);
            assert(removed ==> is_nearest(distances@, REMOVE_REACH, i as int) && stops@
                == before.remove(i as int));
            removed
        },
        None => false,
    }
}

/// The lower end of where a stop may be dragged.
pub open spec fn drag_low(stops: Seq<GradientStop>, i: int) -> u32 {
    if i > 0 {
        stops[i - 1].t
    } else {
        0
    }
}

/// The upper end of where a stop may be dragged.
pub open spec fn drag_high(stops: Seq<GradientStop>, i: int) -> u32 {
    if i + 1 < stops.len() {
        stops[i + 1].t
    } else {
        0x3f80_0000
    }
}

/// Where a stop goes that is dragged to `raw`: no further than its
/// neighbours, or the ends of the ramp. It stays where `raw` is no number.
pub open spec fn drag_place(stops: Seq<GradientStop>, i: int, raw: u32) -> u32 {
    if !ordered(raw) {
        stops[i].t
    } else if order(raw) < order(drag_low(stops, i)) {
        drag_low(stops, i)
    } else if order(raw) > order(drag_high(stops, i)) {
        drag_high(stops, i)
    } else {
        raw
    }
}

/// Where a stop goes that is dragged to `raw`.
pub fn drag_stop(stops: &Vec<GradientStop>, i: usize, raw: u32) -> (r: u32)
    requires
        i < stops@.len(),
        ordered(drag_low(stops@, i as int)),
        ordered(drag_high(stops@, i as int)),
        order(drag_low(stops@, i as int)) <= order(drag_high(stops@, i as int)),
    ensures
        r == drag_place(stops@, i as int, raw),
{
    let low = if i > 0 {
        stops[i - 1].t
    } else {
        0
    };
    let high = if stops.len() - i > 1 {
        stops[i + 1].t
    } else {
        0x3f80_0000
    };
    let o = order_of(raw);
    if o < -0x7f80_0000 || o > 0x7f80_0000 {
        stops[i].t
    } else if o < order_of(low) {
        low
    } else if o > order_of(high) {
        high
    } else {
        raw
    }
}

/// Whether a gap can take a new stop: it is a number above minus one. Between
/// stops that are in order every gap is.
pub open spec fn is_gap(gap: u32) -> bool {
    ordered(gap) && order(gap) > -0x3f80_0000
}

/// Whether `i` is the first of the widest gaps.
pub open spec fn is_widest(gaps: Seq<u32>, i: int) -> bool {
    &&& 0 <= i < gaps.len()
    &&& is_gap(gaps[i])
    &&& forall|j: int|
        0 <= j < gaps.len() && is_gap(#[trigger] gaps[j]) ==> order(gaps[j]) <= order(gaps[i])
    &&& forall|j: int|
        0 <= j < i && is_gap(#[trigger] gaps[j]) ==> order(gaps[j]) < order(gaps[i])
}

/// Whether no gap can take a new stop.
pub open spec fn no_gap(gaps: Seq<u32>) -> bool {
    forall|j: int| 0 <= j < gaps.len() ==> !is_gap(#[trigger] gaps[j])
}

/// The gap that a new stop goes into: the widest, the first one of several.
/// Without a gap, which takes two stops, there is none. `gaps` are the bit
/// patterns of the distances from stop to stop.
pub fn stop_at_largest_gap(gaps: &Vec<u32>) -> (r: Option<usize>)
    ensures
        match r {
            Some(i) => is_widest(gaps@, i as int),
            None => no_gap(gaps@),
        },
{
    let mut best: Option<usize> = None;
    let mut widest: i64 = -0x3f80_0000;
    let mut i: usize = 0;
    while i < gaps.len()
        invariant
            i <= gaps@.len(),
            match best {
                Some(b) => b < i && widest == order(gaps@[b as int]) && is_widest(
                    gaps@.take(i as int),
                    b as int,
                ),
                None => widest == -0x3f80_0000 && forall|j: int|
                    0 <= j < i ==> !is_gap(#[trigger] gaps@[j]),
            },
        decreases gaps.len() - i,
    {
        let o = order_of(gaps[i]);
        let ghost before = gaps@.take(i as int);
        let ghost now = gaps@.take(i + 1);
        assert(now[i as int] == gaps@[i as int]);
        assert forall|j: int| 0 <= j < i implies #[trigger] now[j] == before[j] by {}
        if o <= 0x7f80_0000 && o > widest {
            proof {
                if let Some(b) = best {
                    assert(before[b as int] == gaps@[b as int]);
                }
                assert forall|j: int| 0 <= j < i && is_gap(#[trigger] now[j]) implies order(now[j])
                    < order(now[i as int]) by {
                    assert(now[j] == before[j]);
                    assert(before[j] == gaps@[j]);
                }
            }
            best = Some(i);
            widest = o;
        } else {
            proof {
                if let Some(b) = best {
                    assert(before[b as int] == gaps@[b as int]);
                    assert forall|j: int|
                        0 <= j < i + 1 && is_gap(#[trigger] now[j]) implies order(now[j]) <= order(
                        now[b as int],
                    ) by {
                        if j < i {
                            assert(now[j] == before[j]);
                        }
                    }
                    assert forall|j: int| 0 <= j < b && is_gap(#[trigger] now[j]) implies order(
                        now[j],
                    ) < order(now[b as int]) by {
                        assert(now[j] == before[j]);
                    }
                }
            }
        }
        i = i + 1;
    }
    assert(gaps@.take(i as int) =~= gaps@);
    best
}

/// Whether `gaps` are the distances from stop to stop, as `gap` measures them.
pub open spec fn are_gaps<F: Fn(u32, u32) -> u32>(
    gap: F,
    stops: Seq<GradientStop>,
    gaps: Seq<u32>,
) -> bool {
    &&& gaps.len() == if stops.len() == 0 {
        0
    } else {
        stops.len() - 1
    }
    &&& forall|i: int|
        0 <= i < gaps.len() ==> call_ensures(
            gap,
            (stops[i].t, stops[i + 1].t),
            #[trigger] gaps[i],
        )
}

/// Whether `ends` are the places of the stops around the first of the widest
/// gaps of a ramp in order; there are none where no gap can take a stop.
pub open spec fn are_gap_ends(
    sorted: Seq<GradientStop>,
    gaps: Seq<u32>,
    ends: Option<(u32, u32)>,
) -> bool {
    match ends {
        Some((a, b)) => exists|i: int| #[trigger]
            is_widest(gaps, i) && a == sorted[i].t && b == sorted[i + 1].t,
        None => forall|i: int| 0 <= i < gaps.len() ==> !is_gap(#[trigger] gaps[i]),
    }
}

fn measured<F: Fn(u32, u32) -> u32>(stops: &Vec<GradientStop>, gap: F) -> (gaps: Vec<u32>)
    requires
        forall|a: u32, b: u32| call_requires(gap, (a, b)),
    ensures
        are_gaps(gap, stops@, gaps@),
{
    let mut gaps: Vec<u32> = Vec::new();
    if stops.len() == 0 {
        return gaps;
    }
    let mut i: usize = 1;
    while i < stops.len()
        invariant
            1 <= i <= stops@.len(),
            gaps@.len() == i - 1,
            forall|a: u32, b: u32| call_requires(gap, (a, b)),
            forall|k: int|
                0 <= k < gaps@.len() ==> call_ensures(
                    gap,
                    (stops@[k].t, stops@[k + 1].t),
                    #[trigger] gaps@[k],
                ),
        decreases stops.len() - i,
    {
        gaps.push(gap(stops[i - 1].t, stops[i].t));
        i = i + 1;
    }
    gaps
}

/// The places of the two stops that a new stop goes between, half-way: those
/// around the widest gap once the stops are in order. `gap` measures the
/// distance between two places.
pub fn largest_gap_ends<F: Fn(u32, u32) -> u32>(stops: Vec<GradientStop>, gap: F) -> (ends: Option<
    (u32, u32),
>)
    requires
        all_ordered(stops@),
        forall|a: u32, b: u32| call_requires(gap, (a, b)),
    ensures
        exists|from: Seq<int>, sorted: Seq<GradientStop>, gaps: Seq<u32>|
            #![trigger is_sorted_from(stops@, sorted, from), are_gaps(gap, sorted, gaps)]
            is_sorted_from(stops@, sorted, from) && are_gaps(gap, sorted, gaps) && are_gap_ends(
                sorted,
                gaps,
                ends,
            ),
{
    let ghost all = stops@;
    let mut stops = stops;
    sort_stops(&mut stops);
    let ghost sorted = stops@;
    let gaps = measured(&stops, gap);
    let n = stops.len();
    let ends = match stop_at_largest_gap(&gaps) {
        Some(k) => {
            assert(k + 1 < n);
            let ends = (stops[k].t, stops[k + 1].t);
            assert(is_widest(gaps@, k as int));
            Some(ends)
        },
        None => None,
    };
    assert(are_gap_ends(sorted, gaps@, ends));
    proof {
        let from = choose|from: Seq<int>| is_sorted_from(all, sorted, from);
        assert(is_sorted_from(all, sorted, from) && are_gaps(gap, sorted, gaps@));
    }
    ends
}

// ---- the kind --------------------------------------------------------------

/// Switches between a linear and a radial gradient; a linear one runs upwards
/// at first. Says whether anything changed.
pub fn pick_gradient_kind(g: &mut Gradient, radial: bool) -> (changed: bool)
    ensures
        changed == (radial != (old(g).kind is Radial)),
        final(g).stops == old(g).stops,
        final(g).kind == if !changed {
            old(g).kind
        } else if radial {
            GradientKind::Radial
        } else {
            GradientKind::Linear { axis: GradientAxis::Y }
        },
{
    let was = match g.kind {
        GradientKind::Radial => true,
        GradientKind::Linear { axis: _ } => false,
    };
    if radial == was {
        return false;
    }
    g.kind = if radial {
        GradientKind::Radial
    } else {
        GradientKind::Linear { axis: GradientAxis::Y }
    };
    true
}

/// Picks the axis of a linear gradient; a radial one has none. Says whether
/// anything changed.
pub fn pick_gradient_axis(g: &mut Gradient, axis: GradientAxis) -> (changed: bool)
    ensures
        final(g).stops == old(g).stops,
        match old(g).kind {
            GradientKind::Radial => !changed && final(g).kind == old(g).kind,
            GradientKind::Linear { axis: was } => changed == (axis != was) && final(g).kind == (
            GradientKind::Linear { axis }),
        },
{
    match g.kind {
        GradientKind::Radial => false,
        GradientKind::Linear { axis: was } => {
            g.kind = GradientKind::Linear { axis };
            axis != was
        },
    }
}

// ---- committing an edited gradient -----------------------------------------

/// Whether `out` is `stops` with its grid marks set anew: `on_grid` judges a
/// stop by its index, the number of stops and its place.
pub open spec fn is_regridded<F: Fn(usize, usize, u32) -> bool>(
    on_grid: F,
    stops: Seq<GradientStop>,
    out: Seq<GradientStop>,
) -> bool {
    &&& out.len() == stops.len()
    &&& forall|i: int|
        0 <= i < out.len() ==> (#[trigger] out[i]) == (GradientStop {
            on_grid: out[i].on_grid,
            ..stops[i]
        })
    &&& forall|i: int|
        0 <= i < out.len() ==> call_ensures(
            on_grid,
            (i as usize, stops.len() as usize, stops[i].t),
            (#[trigger] out[i]).on_grid,
        )
}

fn regrid<F: Fn(usize, usize, u32) -> bool>(stops: &mut Vec<GradientStop>, on_grid: F)
    requires
        forall|i: usize, n: usize, t: u32| call_requires(on_grid, (i, n, t)),
    ensures
        is_regridded(on_grid, old(stops)@, final(stops)@),
{
    let ghost all = stops@;
    let n = stops.len();
    let mut i: usize = 0;
    while i < n
        invariant
            i <= n,
            n == all.len(),
            stops@.len() == n,
            forall|i: usize, n: usize, t: u32| call_requires(on_grid, (i, n, t)),
            forall|j: int| i <= j < n ==> stops@[j] == all[j],
            forall|j: int|
                0 <= j < i ==> (#[trigger] stops@[j]) == (GradientStop {
                    on_grid: stops@[j].on_grid,
                    ..all[j]
                }),
            forall|j: int|
                0 <= j < i ==> call_ensures(
                    on_grid,
                    (j as usize, n, all[j].t),
                    (#[trigger] stops@[j]).on_grid,
                ),
        decreases n - i,
    {
        let mark = on_grid(i, n, stops[i].t);
        stops[i].on_grid = mark;
        i = i + 1;
    }
}

/// Whether `text` is how a gradient is written after its stops have been put
/// in order.
pub open spec fn is_edited<F: Fn(usize, usize, u32) -> bool>(
    on_grid: F,
    g: Gradient,
    text: Seq<char>,
) -> bool {
    exists|from: Seq<int>, sorted: Seq<GradientStop>, out: Seq<GradientStop>|
        #![trigger is_sorted_from(g.stops@, sorted, from), is_regridded(on_grid, sorted, out)]
        is_sorted_from(g.stops@, sorted, from) && is_regridded(on_grid, sorted, out) && text
            == written(g.kind, out)
}

/// What an edited gradient is written as: its stops are put in order first.
pub fn edited_gradient<F: Fn(usize, usize, u32) -> bool>(g: Gradient, on_grid: F) -> (r: String)
    requires
        all_ordered(g.stops@),
        forall|i: usize, n: usize, t: u32| call_requires(on_grid, (i, n, t)),
    ensures
        is_edited(on_grid, g, r@),
{
    let mut g = g;
    let ghost all = g.stops@;
    sort_stops(&mut g.stops);
    let ghost sorted = g.stops@;
    regrid(&mut g.stops, on_grid);
    let r = serialize_gradient(&g);
    proof {
        let from = choose|from: Seq<int>| is_sorted_from(all, sorted, from);
        assert(is_sorted_from(all, sorted, from) && is_regridded(on_grid, sorted, g.stops@));
    }
    r
}

// ---- laws ------------------------------------------------------------------

/// Dragging a stop never makes it pass another one.
pub proof fn law_drag_keeps_the_order(
    stops: Seq<GradientStop>,
    i: int,
    raw: u32,
    moved: GradientStop,
)
    requires
        in_order(stops),
        0 <= i < stops.len(),
        order(drag_low(stops, i)) <= order(drag_high(stops, i)),
        moved.t == drag_place(stops, i, raw),
    ensures
        in_order(stops.update(i, moved)),
{
    let now = stops.update(i, moved);
    assert forall|a: int, b: int| 0 <= a < b < now.len() implies order((#[trigger] now[a]).t)
        <= order((#[trigger] now[b]).t) by {
        if a == i {
            assert(order(moved.t) <= order(stops[i + 1].t));
            if b > i + 1 {
                assert(order(stops[i + 1].t) <= order(stops[b].t));
            }
        } else if b == i {
            assert(order(stops[i - 1].t) <= order(moved.t));
            if a < i - 1 {
                assert(order(stops[a].t) <= order(stops[i - 1].t));
            }
        } else {
            assert(order(stops[a].t) <= order(stops[b].t));
        }
    }
}

/// Sorting puts the stops in order and neither adds nor drops one.
pub proof fn law_sorting_keeps_the_stops(
    all: Seq<GradientStop>,
    out: Seq<GradientStop>,
    from: Seq<int>,
)
    requires
        is_sorted_from(all, out, from),
    ensures
        in_order(out),
        forall|s: GradientStop| all.contains(s) <==> out.contains(s),
{
    assert forall|i: int, j: int| 0 <= i < j < out.len() implies order((#[trigger] out[i]).t)
        <= order((#[trigger] out[j]).t) by {
        assert(comes_first(out, from, i, j));
    }
    assert forall|s: GradientStop| all.contains(s) implies out.contains(s) by {
        let k = choose|k: int| 0 <= k < all.len() && all[k] == s;
        assert(from.contains(k));
        let w = choose|w: int| 0 <= w < from.len() && from[w] == k;
        assert(out[w] == all[from[w]]);
    }
    assert forall|s: GradientStop| out.contains(s) implies all.contains(s) by {
        let w = choose|w: int| 0 <= w < out.len() && out[w] == s;
        assert(out[w] == all[from[w]]);
    }
}

/// The short forms are for a ramp of two stops at its two ends, and for no
/// other: everything else is written in the general form.
pub proof fn law_short_forms_are_for_two_ends(kind: GradientKind, stops: Seq<GradientStop>)
    ensures
        collapses(stops) == !("stops("@.is_prefix_of(written(kind, stops))),
{
    reveal_strlit("stops(");
    reveal_strlit("vertical(from=");
    reveal_strlit("linear(from=");
    reveal_strlit("radial(center=");
    let w = written(kind, stops);
    if collapses(stops) {
        assert(w[0] == 'v' || w[0] == 'l' || w[0] == 'r');
        assert("stops("@[0] == 's');
    } else {
        assert(w.take(6) =~= "stops("@);
    }
}

/// What is written as the list of the stops: `what` of each stop, in order.
pub open spec fn listed(stops: Seq<GradientStop>, what: spec_fn(GradientStop) -> Seq<char>) -> Seq<
    char,
> {
    joined(Seq::new(stops.len(), |i: int| what(stops[i])), ", "@)
}

/// Two stops at the two ends of the ramp: within a ten-thousandth of zero and
/// of one.
pub open spec fn two_ends(stops: Seq<GradientStop>) -> bool {
    &&& stops.len() == 2
    &&& stops[0].t < 0x38d1_b717 || 0x8000_0000 <= stops[0].t < 0xb8d1_b717
    &&& 0x3f7f_f973 <= stops[1].t <= 0x3f80_0346
}

proof fn lemma_stop_lists(stops: Seq<GradientStop>)
    ensures
        joined(colors(stops), ", "@) == listed(
            stops,
            |s: GradientStop| "["@ + s.red@ + ", "@ + s.green@ + ", "@ + s.blue@ + "]"@,
        ),
        joined(stop_places(stops), ", "@) == listed(stops, |s: GradientStop| s.place@),
{
    let c = |s: GradientStop| "["@ + s.red@ + ", "@ + s.green@ + ", "@ + s.blue@ + "]"@;
    let p = |s: GradientStop| s.place@;
    assert(colors(stops) =~= Seq::new(stops.len(), |i: int| c(stops[i])));
    assert(stop_places(stops) =~= Seq::new(stops.len(), |i: int| p(stops[i])));
}

proof fn lemma_stop_text(kind: GradientKind, stops: Seq<GradientStop>)
    requires
        !collapses(stops),
    ensures
        ({
            let list = "stops(colors=["@ + joined(colors(stops), ", "@) + "]"@;
            let places = if even(stops) {
                Seq::<char>::empty()
            } else {
                ", positions=["@ + joined(stop_places(stops), ", "@) + "]"@
            };
            let tail = match kind {
                GradientKind::Linear { axis: GradientAxis::Y } => Seq::<char>::empty(),
                GradientKind::Linear { axis: GradientAxis::X } => ", axis=x"@,
                GradientKind::Linear { axis: GradientAxis::Z } => ", axis=z"@,
                GradientKind::Radial => ", kind=radial"@,
            };
            written(kind, stops) == list + places + tail + ")"@
        }),
{
    reveal_strlit(", ");
    reveal_strlit("stops(");
    reveal_strlit("colors=[");
    reveal_strlit("stops(colors=[");
    reveal_strlit("positions=[");
    reveal_strlit(", positions=[");
    reveal_strlit("axis=");
    reveal_strlit("x");
    reveal_strlit("z");
    reveal_strlit(", axis=x");
    reveal_strlit(", axis=z");
    reveal_strlit("kind=radial");
    reveal_strlit(", kind=radial");
    let c = "colors=["@ + joined(colors(stops), ", "@) + "]"@;
    let p = "positions=["@ + joined(stop_places(stops), ", "@) + "]"@;
    let a: Seq<Seq<char>> = seq![c];
    let b: Seq<Seq<char>> = if even(stops) {
        Seq::empty()
    } else {
        seq![p]
    };
    let k: Seq<Seq<char>> = match kind {
        GradientKind::Linear { axis: GradientAxis::Y } => Seq::empty(),
        GradientKind::Linear { axis } => seq!["axis="@ + letter(axis)],
        GradientKind::Radial => seq!["kind=radial"@],
    };
    assert(stop_parts(kind, stops) == a + b + k);
    law_join_keeps_every_piece(a, b, ", "@);
    law_join_keeps_every_piece(b, a, ", "@);
    law_join_keeps_every_piece(k, a, ", "@);
    law_join_keeps_every_piece(a + b, k, ", "@);
    assert(a + Seq::<Seq<char>>::empty() =~= a);
    assert(a + b + Seq::<Seq<char>>::empty() =~= a + b);
    let list = "stops(colors=["@ + joined(colors(stops), ", "@) + "]"@;
    assert("stops("@ + c =~= list);
    let places = if even(stops) {
        Seq::<char>::empty()
    } else {
        ", positions=["@ + joined(stop_places(stops), ", "@) + "]"@
    };
    let tail = match kind {
        GradientKind::Linear { axis: GradientAxis::Y } => Seq::<char>::empty(),
        GradientKind::Linear { axis: GradientAxis::X } => ", axis=x"@,
        GradientKind::Linear { axis: GradientAxis::Z } => ", axis=z"@,
        GradientKind::Radial => ", kind=radial"@,
    };
    assert(joined(a + b, ", "@) =~= c + places);
    assert(joined(a + b + k, ", "@) =~= c + places + tail);
    assert(written(kind, stops) =~= list + places + tail + ")"@);
}

/// Whatever its kind, a ramp that is not two stops at the two ends is written
/// with the colour of every stop in order; with the place of every stop in
/// order unless all of them stand where an even spacing puts them; and with
/// its kind or its axis unless it runs upwards.
pub proof fn law_written_stops_are_complete(g: &Gradient, r: String)
    requires
        call_ensures(serialize_gradient, (g,), r),
        !two_ends(g.stops@),
    ensures
        ({
            let list = "stops(colors=["@ + listed(
                g.stops@,
                |s: GradientStop| "["@ + s.red@ + ", "@ + s.green@ + ", "@ + s.blue@ + "]"@,
            ) + "]"@;
            let places = ", positions=["@ + listed(g.stops@, |s: GradientStop| s.place@) + "]"@;
            let tail = match g.kind {
                GradientKind::Linear { axis: GradientAxis::X } => ", axis=x)"@,
                GradientKind::Linear { axis: GradientAxis::Y } => ")"@,
                GradientKind::Linear { axis: GradientAxis::Z } => ", axis=z)"@,
                GradientKind::Radial => ", kind=radial)"@,
            };
            &&& g.stops@.len() < 2 || (exists|i: int|
                0 <= i < g.stops@.len() && !(#[trigger] g.stops@[i]).on_grid) ==> r@ == list + places
                + tail
            &&& g.stops@.len() >= 2 && (forall|i: int|
                0 <= i < g.stops@.len() ==> (#[trigger] g.stops@[i]).on_grid) ==> r@ == list + tail
        }),
{
    let stops = g.stops@;
    lemma_stop_lists(stops);
    lemma_stop_text(g.kind, stops);
    reveal_strlit(")");
    reveal_strlit(", axis=x");
    reveal_strlit(", axis=z");
    reveal_strlit(", kind=radial");
    reveal_strlit(", axis=x)");
    reveal_strlit(", axis=z)");
    reveal_strlit(", kind=radial)");
    assert(", axis=x"@ + ")"@ =~= ", axis=x)"@);
    assert(", axis=z"@ + ")"@ =~= ", axis=z)"@);
    assert(", kind=radial"@ + ")"@ =~= ", kind=radial)"@);
    let list = "stops(colors=["@ + joined(colors(stops), ", "@) + "]"@;
    let places = ", positions=["@ + joined(stop_places(stops), ", "@) + "]"@;
    let tail = match g.kind {
        GradientKind::Linear { axis: GradientAxis::X } => ", axis=x)"@,
        GradientKind::Linear { axis: GradientAxis::Y } => ")"@,
        GradientKind::Linear { axis: GradientAxis::Z } => ", axis=z)"@,
        GradientKind::Radial => ", kind=radial)"@,
    };
    if even(stops) {
        assert(r@ =~= list + tail);
    } else {
        assert(r@ =~= list + places + tail);
    }
}

/// Two stops at the two ends are written with both colours, the first one
/// first, in a form that tells the kind and the axis.
pub proof fn law_short_forms_hold_both_colours(g: &Gradient, r: String)
    requires
        call_ensures(serialize_gradient, (g,), r),
        two_ends(g.stops@),
    ensures
        ({
            let a = "["@ + g.stops@[0].red@ + ", "@ + g.stops@[0].green@ + ", "@
                + g.stops@[0].blue@ + "]"@;
            let b = "["@ + g.stops@[1].red@ + ", "@ + g.stops@[1].green@ + ", "@
                + g.stops@[1].blue@ + "]"@;
            r@ == match g.kind {
                GradientKind::Linear { axis: GradientAxis::X } => "linear(from="@ + a + ", to="@ + b
                    + ", axis="@ + "x"@ + ")"@,
                GradientKind::Linear { axis: GradientAxis::Y } => "vertical(from="@ + a + ", to="@
                    + b + ")"@,
                GradientKind::Linear { axis: GradientAxis::Z } => "linear(from="@ + a + ", to="@ + b
                    + ", axis="@ + "z"@ + ")"@,
                GradientKind::Radial => "radial(center="@ + a + ", edge="@ + b + ")"@,
            }
        }),
{
}

/// Two ramps of one kind and with the same colours that differ in an uneven
/// place are written differently: the places can be read back.
pub proof fn law_uneven_places_read_back(a: &Gradient, b: &Gradient, ra: String, rb: String)
    requires
        call_ensures(serialize_gradient, (a,), ra),
        call_ensures(serialize_gradient, (b,), rb),
        !two_ends(a.stops@),
        !two_ends(b.stops@),
        a.kind == b.kind,
        a.stops@.len() == b.stops@.len(),
        forall|i: int|
            0 <= i < a.stops@.len() ==> (#[trigger] a.stops@[i]).red@ == b.stops@[i].red@
                && a.stops@[i].green@ == b.stops@[i].green@ && a.stops@[i].blue@
                == b.stops@[i].blue@,
        exists|i: int| 0 <= i < a.stops@.len() && !(#[trigger] a.stops@[i]).on_grid,
        exists|i: int| 0 <= i < b.stops@.len() && !(#[trigger] b.stops@[i]).on_grid,
        forall|i: int| 0 <= i < a.stops@.len() ==> !(#[trigger] a.stops@[i]).place@.contains(','),
        forall|i: int| 0 <= i < b.stops@.len() ==> !(#[trigger] b.stops@[i]).place@.contains(','),
        ra@ == rb@,
    ensures
        forall|i: int| 0 <= i < a.stops@.len() ==> (#[trigger] a.stops@[i]).place@
            == b.stops@[i].place@,
{
    let (sa, sb) = (a.stops@, b.stops@);
    assert(colors(sa) =~= colors(sb)) by {
        assert forall|i: int| 0 <= i < sa.len() implies #[trigger] colors(sa)[i] == colors(
            sb,
        )[i] by {
            assert(sa[i].red@ == sb[i].red@);
        }
    }
    lemma_same_places_text(a.kind, sa, sb);
    lemma_place_list(sa);
    lemma_place_list(sb);
    law_join_reads_back(stop_places(sa), stop_places(sb), ", "@);
    assert forall|i: int| 0 <= i < sa.len() implies (#[trigger] sa[i]).place@ == sb[i].place@ by {
        assert(stop_places(sa)[i] == stop_places(sb)[i]);
    }
}

proof fn lemma_place_list(stops: Seq<GradientStop>)
    requires
        forall|i: int| 0 <= i < stops.len() ==> !(#[trigger] stops[i]).place@.contains(','),
    ensures
        ", "@.len() > 0,
        forall|i: int|
            0 <= i < stop_places(stops).len() ==> !(#[trigger] stop_places(stops)[i]).contains(
                ", "@[0],
            ),
{
    reveal_strlit(", ");
    assert forall|i: int| 0 <= i < stop_places(stops).len() implies !(#[trigger] stop_places(
        stops,
    )[i]).contains(", "@[0]) by {
        assert(!stops[i].place@.contains(','));
    }
}

proof fn lemma_between(h: Seq<char>, x: Seq<char>, y: Seq<char>, t: Seq<char>)
    requires
        h + x + t == h + y + t,
    ensures
        x == y,
{
    let a = h + x + t;
    let b = h + y + t;
    assert(a.len() == b.len());
    assert(x =~= a.subrange(h.len() as int, a.len() - t.len()));
    assert(y =~= b.subrange(h.len() as int, b.len() - t.len()));
}

proof fn lemma_same_places_text(
    kind: GradientKind,
    sa: Seq<GradientStop>,
    sb: Seq<GradientStop>,
)
    requires
        !collapses(sa),
        !collapses(sb),
        !even(sa),
        !even(sb),
        colors(sa) == colors(sb),
        written(kind, sa) == written(kind, sb),
    ensures
        joined(stop_places(sa), ", "@) == joined(stop_places(sb), ", "@),
{
    lemma_stop_text(kind, sa);
    lemma_stop_text(kind, sb);
    let head = "stops(colors=["@ + joined(colors(sa), ", "@) + "]"@ + ", positions=["@;
    let kind_text = match kind {
        GradientKind::Linear { axis: GradientAxis::Y } => Seq::<char>::empty(),
        GradientKind::Linear { axis: GradientAxis::X } => ", axis=x"@,
        GradientKind::Linear { axis: GradientAxis::Z } => ", axis=z"@,
        GradientKind::Radial => ", kind=radial"@,
    };
    let tail = "]"@ + kind_text + ")"@;
    let pa = joined(stop_places(sa), ", "@);
    let pb = joined(stop_places(sb), ", "@);
    assert(written(kind, sa) =~= head + pa + tail);
    assert(written(kind, sb) =~= head + pb + tail);
    lemma_between(head, pa, pb, tail);
}

/// A drag takes a stop as far as it was dragged, but never past its
/// neighbours or the ends of the ramp, and a place that is no number leaves it
/// where it is.
pub proof fn law_drag_follows_within_the_neighbours(
    stops: &Vec<GradientStop>,
    i: usize,
    raw: u32,
    r: u32,
)
    requires
        call_ensures(drag_stop, (stops, i, raw), r),
        i < stops@.len(),
        ordered(raw),
    ensures
        r == raw || (i > 0 && r == stops@[i - 1].t) || (i + 1 < stops@.len() && r == stops@[i + 1].t)
            || (i == 0 && r == 0) || (i + 1 == stops@.len() && r == 0x3f80_0000),
        (if i > 0 {
            order(stops@[i - 1].t)
        } else {
            0
        }) <= order(raw) <= (if i + 1 < stops@.len() {
            order(stops@[i + 1].t)
        } else {
            0x3f80_0000
        }) ==> r == raw,
        i > 0 && order(raw) < order(stops@[i - 1].t) ==> r == stops@[i - 1].t,
        i == 0 && order(raw) < 0 ==> r == 0,
        (i > 0 ==> order(raw) >= order(stops@[i - 1].t)) && (i == 0 ==> order(raw) >= 0) && i + 1
            < stops@.len() && order(raw) > order(stops@[i + 1].t) ==> r == stops@[i + 1].t,
        (i > 0 ==> order(raw) >= order(stops@[i - 1].t)) && (i == 0 ==> order(raw) >= 0) && i + 1
            == stops@.len() && order(raw) > 0x3f80_0000 ==> r == 0x3f80_0000,
{
}

/// The places compare as the numbers do: among those without a sign the
/// larger pattern is the larger number, a sign turns that round, and zero with
/// and without it are one place.
pub proof fn law_order_is_that_of_the_numbers(a: u32, b: u32)
    ensures
        a < 0x8000_0000 && b < 0x8000_0000 ==> (order(a) < order(b) <==> a < b),
        a >= 0x8000_0000 && b >= 0x8000_0000 ==> (order(a) < order(b) <==> a > b),
        a >= 0x8000_0000 && b < 0x8000_0000 ==> order(a) <= order(b),
        order(0x8000_0000) == order(0),
        order(a) == order(b) ==> a == b || (a % 0x8000_0000 == 0 && b % 0x8000_0000 == 0),
{
}

/// A stop can be taken hold of or removed where, and only where, one is
/// within reach: ten and sixteen pixels. A click that can take hold of none
/// adds one.
pub proof fn law_grab_reaches_ten_pixels(
    distances: &Vec<u32>,
    grabbed: Option<usize>,
    adds: bool,
    i: int,
)
    requires
        call_ensures(grab_stop, (distances,), grabbed),
        call_ensures(click_adds_stop, (distances,), adds),
        0 <= i < distances@.len(),
        distances@[i] <= 0x7f80_0000,
    ensures
        adds == grabbed is None,
        distances@[i] <= 0x4120_0000 ==> grabbed is Some,
        grabbed matches Some(k) ==> k < distances@.len() && order(distances@[k as int])
            <= 0x4120_0000 && (order(distances@[k as int]) <= order(distances@[i])),
{
}

/// Removing a stop takes out that one and no other, and never leaves fewer
/// than two.
pub proof fn law_removing_keeps_two(stops: &mut Vec<GradientStop>, i: usize, removed: bool)
    requires
        call_ensures(remove_stop, (stops, i), removed),
    ensures
        old(stops)@.len() >= 2 ==> final(stops)@.len() >= 2,
        removed ==> final(stops)@.len() + 1 == old(stops)@.len(),
        old(stops)@.len() > 2 && i < old(stops)@.len() ==> removed,
        !removed ==> final(stops)@ == old(stops)@,
        removed ==> i < old(stops)@.len() && (forall|j: int|
            0 <= j < final(stops)@.len() ==> #[trigger] final(stops)@[j] == old(stops)@[if j < i {
                j
            } else {
                j + 1
            }]),
{
}

/// A new stop goes into a gap that no other exceeds.
pub proof fn law_new_stop_goes_into_the_widest_gap(gaps: &Vec<u32>, r: Option<usize>, j: int)
    requires
        call_ensures(stop_at_largest_gap, (gaps,), r),
        0 <= j < gaps@.len(),
        gaps@[j] <= 0x7f80_0000,
    ensures
        r matches Some(i) && i < gaps@.len() && gaps@[j] <= order(gaps@[i as int]) && (j < i
            ==> gaps@[j] < order(gaps@[i as int])),
{
    assert(is_gap(gaps@[j]));
    match r {
        Some(i) => assert(is_widest(gaps@, i as int)),
        None => assert(!is_gap(gaps@[j])),
    }
}

/// Switching the kind keeps the stops, gives the kind that was picked, and
/// says whether that was a change; picking it again is none.
pub proof fn law_picked_kind_is_on(g: &mut Gradient, radial: bool, changed: bool)
    requires
        call_ensures(pick_gradient_kind, (g, radial), changed),
    ensures
        final(g).kind is Radial == radial,
        final(g).stops == old(g).stops,
        changed == (final(g).kind is Radial != old(g).kind is Radial),
        !changed ==> *final(g) == *old(g),
        changed && !radial ==> final(g).kind == (GradientKind::Linear { axis: GradientAxis::Y }),
{
}

/// Picking an axis turns a linear gradient that way and leaves a radial one
/// alone.
pub proof fn law_picked_axis_is_on(g: &mut Gradient, axis: GradientAxis, changed: bool)
    requires
        call_ensures(pick_gradient_axis, (g, axis), changed),
    ensures
        final(g).stops == old(g).stops,
        old(g).kind is Linear ==> final(g).kind == (GradientKind::Linear { axis }),
        old(g).kind is Radial ==> final(g).kind is Radial,
        changed == (final(g).kind != old(g).kind),
{
}

/// Whether two stops have one place and one colour.
pub open spec fn alike(a: GradientStop, b: GradientStop) -> bool {
    a.t == b.t && a.place == b.place && a.red == b.red && a.green == b.green && a.blue == b.blue
}

/// Whether a stop of one place and one colour with `a` is in a list.
pub open spec fn held_in(a: GradientStop, list: Seq<GradientStop>) -> bool {
    exists|j: int| 0 <= j < list.len() && alike(a, #[trigger] list[j])
}

/// Whether two lists hold the same stops, as far as places and colours go.
pub open spec fn same_stops(a: Seq<GradientStop>, b: Seq<GradientStop>) -> bool {
    &&& a.len() == b.len()
    &&& forall|i: int| 0 <= i < a.len() ==> held_in(#[trigger] a[i], b)
    &&& forall|j: int| 0 <= j < b.len() ==> held_in(#[trigger] b[j], a)
}

/// Sorting the stops of a gradient puts them in the order of their places,
/// with as many stops as before and the same ones.
pub proof fn law_sorted_stops_are_the_same(stops: &mut Vec<GradientStop>)
    requires
        call_ensures(sort_stops, (stops,), ()),
    ensures
        forall|i: int, j: int|
            0 <= i < j < final(stops)@.len() ==> order((#[trigger] final(stops)@[i]).t) <= order((#[trigger] final(stops)@[j]).t),
        final(stops)@.len() == old(stops)@.len(),
        forall|s: GradientStop| old(stops)@.contains(s) <==> final(stops)@.contains(s),
{
    let from = choose|from: Seq<int>| is_sorted_from(old(stops)@, final(stops)@, from);
    law_sorting_keeps_the_stops(old(stops)@, final(stops)@, from);
}

/// A gradient is written after an edit with its stops in order, all of them,
/// and as the kind that it is.
pub proof fn law_edited_gradient_keeps_its_stops<F: Fn(usize, usize, u32) -> bool>(
    g: Gradient,
    on_grid: F,
    r: String,
) -> (out: Seq<GradientStop>)
    requires
        call_ensures(edited_gradient::<F>, (g, on_grid), r),
    ensures
        r@ == written(g.kind, out),
        in_order(out),
        same_stops(g.stops@, out),
{
    let (from, sorted, out) = choose|
        from: Seq<int>,
        sorted: Seq<GradientStop>,
        out: Seq<GradientStop>,
    |
        #![trigger is_sorted_from(g.stops@, sorted, from), is_regridded(on_grid, sorted, out)]
        is_sorted_from(g.stops@, sorted, from) && is_regridded(on_grid, sorted, out) && r@
            == written(g.kind, out);
    lemma_regridded_in_order(on_grid, g.stops@, sorted, from, out);
    lemma_regridded_same(on_grid, g.stops@, sorted, from, out);
    out
}

proof fn lemma_regridded_in_order<F: Fn(usize, usize, u32) -> bool>(
    on_grid: F,
    all: Seq<GradientStop>,
    sorted: Seq<GradientStop>,
    from: Seq<int>,
    out: Seq<GradientStop>,
)
    requires
        is_sorted_from(all, sorted, from),
        is_regridded(on_grid, sorted, out),
    ensures
        in_order(out),
{
    assert forall|i: int, j: int| 0 <= i < j < out.len() implies order((#[trigger] out[i]).t)
        <= order((#[trigger] out[j]).t) by {
        assert(comes_first(sorted, from, i, j));
        assert(out[i].t == sorted[i].t && out[j].t == sorted[j].t);
    }
}

proof fn lemma_regridded_same<F: Fn(usize, usize, u32) -> bool>(
    on_grid: F,
    all: Seq<GradientStop>,
    sorted: Seq<GradientStop>,
    from: Seq<int>,
    out: Seq<GradientStop>,
)
    requires
        is_sorted_from(all, sorted, from),
        is_regridded(on_grid, sorted, out),
    ensures
        same_stops(all, out),
{
    assert forall|i: int| 0 <= i < all.len() implies held_in(#[trigger] all[i], out) by {
        assert(from.contains(i));
        let j = choose|j: int| 0 <= j < from.len() && from[j] == i;
        assert(sorted[j] == all[from[j]]);
        assert(alike(all[i], out[j]));
    }
    assert forall|j: int| 0 <= j < out.len() implies held_in(#[trigger] out[j], all) by {
        assert(sorted[j] == all[from[j]]);
        assert(alike(out[j], all[from[j]]));
    }
}

/// A click removes a stop within sixteen pixels, the nearest, and only while
/// more than two are left.
pub proof fn law_click_removes_the_nearest(
    stops: &mut Vec<GradientStop>,
    distances: &Vec<u32>,
    removed: bool,
    i: int,
)
    requires
        call_ensures(remove_stop_at, (stops, distances), removed),
        distances@.len() == old(stops)@.len(),
        0 <= i < distances@.len(),
        distances@[i] <= 0x4180_0000,
        forall|j: int| 0 <= j < distances@.len() && j != i ==> distances@[i] < #[trigger] distances@[j] <= 0x7f80_0000,
    ensures
        removed <==> old(stops)@.len() > 2,
        removed ==> final(stops)@ == old(stops)@.remove(i),
        !removed ==> final(stops)@ == old(stops)@,
{
    assert(in_reach(distances@[i], REMOVE_REACH));
    if removed {
        let k = choose|k: int| #[trigger]
            is_nearest(distances@, REMOVE_REACH, k) && final(stops)@ == old(stops)@.remove(k);
        if k != i {
            assert(order(distances@[k]) <= order(distances@[i]));
            assert(distances@[i] < distances@[k]);
        }
    }
}

/// A click beyond sixteen pixels of every stop removes none.
pub proof fn law_distant_click_removes_none(
    stops: &mut Vec<GradientStop>,
    distances: &Vec<u32>,
    removed: bool,
)
    requires
        call_ensures(remove_stop_at, (stops, distances), removed),
        distances@.len() == old(stops)@.len(),
        forall|j: int| 0 <= j < distances@.len() ==> 0x4180_0000 < #[trigger] distances@[j] <= 0x7f80_0000,
    ensures
        !removed,
        final(stops)@ == old(stops)@,
{
    assert(none_in_reach(distances@, REMOVE_REACH));
}

/// A new gradient goes from black at the bottom to white at the top.
pub proof fn law_new_gradient_goes_from_black_to_white(r: String)
    requires
        call_ensures(default_gradient, (), r),
    ensures
        r@ == "vertical(from=[0, 0, 0], to=[1, 1, 1])"@,
{
}

} // verus!
