//! The deform modifiers of the selected node.

use vstd::prelude::*;

use super::attrs::{csg_kind, is_csg, set_attr, writes, AttrEdit};
use crate::literal::{is_number, number_text};
use crate::naming::{number_in, parse_number};
use crate::text::str_eq;

verus! {

/// Whether the mesh of a node goes through the deform pass: it has one, and it
/// is neither loaded from a file nor the result of a set operation.
pub open spec fn deforms(has_mesh: bool, kind: Seq<char>) -> bool {
    has_mesh && kind != "mesh"@ && !is_csg(kind) && kind != "solid"@
}

/// Whether the inspector offers the deform modifiers for a node.
pub fn supports_deform(has_mesh: bool, kind: &str) -> (r: bool)
    ensures
        r == deforms(has_mesh, kind@),
{
    has_mesh && !str_eq(kind, "mesh") && !csg_kind(kind) && !str_eq(kind, "solid")
}

/// A modifier with a decimal number. Numbers are kept as text.
#[derive(Clone, Copy)]
pub struct DeformRow {
    pub label: &'static str,
    pub attr: &'static str,
    /// The number it starts with when it is added.
    pub default: &'static str,
    pub min: &'static str,
    pub max: &'static str,
    pub speed: &'static str,
    pub suffix: &'static str,
}

/// A modifier between zero and one.
pub open spec fn unit_row(label: &'static str, attr: &'static str) -> DeformRow {
    DeformRow { label, attr, default: "0.3", min: "0.0", max: "1.0", speed: "0.01", suffix: "" }
}

/// A modifier by an angle in degrees.
pub open spec fn angle_row(
    label: &'static str,
    attr: &'static str,
    default: &'static str,
) -> DeformRow {
    DeformRow { label, attr, default, min: "-180.0", max: "180.0", speed: "0.5", suffix: "°" }
}

/// The taper, whose neutral value is one and which may go beyond it.
pub open spec fn taper_row() -> DeformRow {
    DeformRow {
        label: "Taper",
        attr: "taper",
        default: "0.5",
        min: "0.0",
        max: "4.0",
        speed: "0.02",
        suffix: "",
    }
}

/// The modifiers with a decimal number, in order.
pub open spec fn deform_rows() -> Seq<DeformRow> {
    seq![
        unit_row("Noise", "noise"),
        unit_row("Jitter", "jitter"),
        angle_row("Bend X", "bend_x", "15"),
        angle_row("Bend Y", "bend_y", "15"),
        angle_row("Bend Z", "bend_z", "15"),
        angle_row("Twist Y", "twist_y", "30"),
        taper_row(),
        unit_row("Droop", "droop"),
    ]
}

fn deform_unit_row(label: &'static str, attr: &'static str) -> (r: DeformRow)
    ensures
        r == unit_row(label, attr),
{
    DeformRow { label, attr, default: "0.3", min: "0.0", max: "1.0", speed: "0.01", suffix: "" }
}

fn deform_angle_row(label: &'static str, attr: &'static str, default: &'static str) -> (r: DeformRow)
    ensures
        r == angle_row(label, attr, default),
{
    DeformRow { label, attr, default, min: "-180.0", max: "180.0", speed: "0.5", suffix: "°" }
}

fn deform_taper_row() -> (r: DeformRow)
    ensures
        r == taper_row(),
{
    DeformRow {
        label: "Taper",
        attr: "taper",
        default: "0.5",
        min: "0.0",
        max: "4.0",
        speed: "0.02",
        suffix: "",
    }
}

/// The modifiers with a decimal number, in order.
pub fn all_deform_rows() -> (r: Vec<DeformRow>)
    ensures
        r@ == deform_rows(),
{
    let mut r: Vec<DeformRow> = Vec::new();
    r.push(deform_unit_row("Noise", "noise"));
    r.push(deform_unit_row("Jitter", "jitter"));
    r.push(deform_angle_row("Bend X", "bend_x", "15"));
    r.push(deform_angle_row("Bend Y", "bend_y", "15"));
    r.push(deform_angle_row("Bend Z", "bend_z", "15"));
    r.push(deform_angle_row("Twist Y", "twist_y", "30"));
    r.push(deform_taper_row());
    r.push(deform_unit_row("Droop", "droop"));
    assert(r@ =~= deform_rows());
    r
}

/// Whether an attribute holds a number.
pub open spec fn holds_number(raw: Option<String>) -> bool {
    raw matches Some(s) && is_number(s@)
}

/// Whether an attribute holds a seed.
pub open spec fn holds_seed(raw: Option<String>) -> bool {
    raw matches Some(s) && number_in(s@) is Some
}

/// Whether an attribute holds a number.
pub fn is_set(raw: &Option<String>) -> (r: bool)
    ensures
        r == holds_number(*raw),
{
    match raw {
        Some(s) => number_text(s.as_str()),
        None => false,
    }
}

/// The seed that an attribute holds.
pub fn seed_value(raw: &Option<String>) -> (r: Option<u32>)
    ensures
        r is Some == holds_seed(*raw),
        r matches Some(n) ==> number_in((raw->0)@) == Some(n as nat),
{
    match raw {
        Some(s) => parse_number(s.as_str()),
        None => None,
    }
}

/// Whether a number is written for one of the values.
pub open spec fn any_number(values: Seq<Option<String>>) -> bool {
    exists|i: int| 0 <= i < values.len() && holds_number(#[trigger] values[i])
}

/// Whether the section starts unfolded: some modifier, or the seed, is set.
/// `values` are the attributes of the modifiers, the facets among them.
pub fn deform_open(values: &Vec<Option<String>>, seed: &Option<String>) -> (r: bool)
    ensures
        r == (holds_seed(*seed) || any_number(values@)),
{
    if seed_value(seed).is_some() {
        return true;
    }
    let mut i: usize = 0;
    while i < values.len()
        invariant
            i <= values@.len(),
            forall|j: int| 0 <= j < i ==> !holds_number(#[trigger] values@[j]),
        decreases values.len() - i,
    {
        if is_set(&values[i]) {
            assert(holds_number(values@[i as int]));
            return true;
        }
        i = i + 1;
    }
    false
}

/// What is done to a modifier.
pub enum DeformClick {
    /// Its number was changed, to this text.
    Changed(String),
    /// It was removed.
    Removed,
    /// It was added.
    Added,
}

/// What becomes of a modifier in the source.
pub enum DeformOutcome {
    Write(AttrEdit),
    Remove(&'static str),
    /// The control is not there.
    Nothing,
}

/// What a click on a modifier does. One that is set can be changed and
/// removed; one that is not can be added.
pub fn deform_click(row: &DeformRow, set: bool, click: DeformClick) -> (r: DeformOutcome)
    ensures
        match (click, r) {
            (DeformClick::Changed(v), DeformOutcome::Write(e)) => set && writes(
                e,
                row.attr@,
                v@,
                Seq::empty(),
            ),
            (DeformClick::Removed, DeformOutcome::Remove(attr)) => set && attr@ == row.attr@,
            (DeformClick::Added, DeformOutcome::Write(e)) => !set && writes(
                e,
                row.attr@,
                row.default@,
                Seq::empty(),
            ),
            (DeformClick::Added, DeformOutcome::Nothing) => set,
            (_, DeformOutcome::Nothing) => !set,
            _ => false,
        },
{
    match click {
        DeformClick::Changed(v) => if set {
            DeformOutcome::Write(set_attr(row.attr, v))
        } else {
            DeformOutcome::Nothing
        },
        DeformClick::Removed => if set {
            DeformOutcome::Remove(row.attr)
        } else {
            DeformOutcome::Nothing
        },
        DeformClick::Added => if set {
            DeformOutcome::Nothing
        } else {
            DeformOutcome::Write(set_attr(row.attr, row.default.to_owned()))
        },
    }
}

/// What switching the facets does. They are on when the attribute is there and
/// not zero; switching them off takes the attribute out.
pub fn toggle_faceted(present: bool, on: bool, to: bool) -> (r: DeformOutcome)
    requires
        on ==> present,
    ensures
        match r {
            DeformOutcome::Write(e) => to && !on && writes(e, "faceted"@, "1"@, Seq::empty()),
            DeformOutcome::Remove(attr) => !to && on && attr@ == "faceted"@,
            DeformOutcome::Nothing => to == on,
        },
{
    if to == on {
        DeformOutcome::Nothing
    } else if to {
        DeformOutcome::Write(set_attr("faceted", "1".to_owned()))
    } else if present {
        DeformOutcome::Remove("faceted")
    } else {
        DeformOutcome::Nothing
    }
}

/// What a click on the seed does.
pub fn seed_click(set: bool, click: DeformClick) -> (r: DeformOutcome)
    ensures
        match (click, r) {
            (DeformClick::Changed(v), DeformOutcome::Write(e)) => set && writes(
                e,
                "seed"@,
                v@,
                Seq::empty(),
            ),
            (DeformClick::Removed, DeformOutcome::Remove(attr)) => set && attr@ == "seed"@,
            (DeformClick::Added, DeformOutcome::Write(e)) => !set && writes(
                e,
                "seed"@,
                "1"@,
                Seq::empty(),
            ),
            (DeformClick::Added, DeformOutcome::Nothing) => set,
            (_, DeformOutcome::Nothing) => !set,
            _ => false,
        },
{
    match click {
        DeformClick::Changed(v) => if set {
            DeformOutcome::Write(set_attr("seed", v))
        } else {
            DeformOutcome::Nothing
        },
        DeformClick::Removed => if set {
            DeformOutcome::Remove("seed")
        } else {
            DeformOutcome::Nothing
        },
        DeformClick::Added => if set {
            DeformOutcome::Nothing
        } else {
            DeformOutcome::Write(set_attr("seed", "1".to_owned()))
        },
    }
}

// ---- laws ------------------------------------------------------------------

/// A modifier that is set takes a new number and can be removed; one that is
/// not can only be added, with the number it starts with. Always its own
/// attribute is meant.
pub proof fn law_modifiers_write_their_own_attribute(
    row: &DeformRow,
    set: bool,
    click: DeformClick,
    r: DeformOutcome,
)
    requires
        call_ensures(deform_click, (row, set, click), r),
    ensures
        click matches DeformClick::Changed(v) ==> set ==> (r matches DeformOutcome::Write(e)
            && e.attr@ == row.attr@ && e.value@ == v@ && e.delete@.len() == 0),
        click is Removed && set ==> (r matches DeformOutcome::Remove(a) && a@ == row.attr@),
        click is Added && !set ==> (r matches DeformOutcome::Write(e) && e.attr@ == row.attr@
            && e.value@ == row.default@ && e.delete@.len() == 0),
        click is Added && set ==> r is Nothing,
        !(click is Added) && !set ==> r is Nothing,
{
}

/// The seed is treated as a modifier is: changed and removed where it is set,
/// added as one where it is not.
pub proof fn law_seed_writes_its_own_attribute(set: bool, click: DeformClick, r: DeformOutcome)
    requires
        call_ensures(seed_click, (set, click), r),
    ensures
        click matches DeformClick::Changed(v) ==> set ==> (r matches DeformOutcome::Write(e)
            && e.attr@ == "seed"@ && e.value@ == v@),
        click is Removed && set ==> (r matches DeformOutcome::Remove(a) && a@ == "seed"@),
        click is Added && !set ==> (r matches DeformOutcome::Write(e) && e.attr@ == "seed"@
            && e.value@ == "1"@),
        click is Added && set ==> r is Nothing,
        !(click is Added) && !set ==> r is Nothing,
{
}

/// Switching the facets to what they are does nothing; otherwise they are
/// written, or taken out.
pub proof fn law_facets_follow_the_switch(present: bool, on: bool, to: bool, r: DeformOutcome)
    requires
        on ==> present,
        call_ensures(toggle_faceted, (present, on, to), r),
    ensures
        r is Nothing <==> to == on,
        to && !on ==> (r matches DeformOutcome::Write(e) && e.attr@ == "faceted"@ && e.value@
            == "1"@),
        !to && on ==> (r matches DeformOutcome::Remove(a) && a@ == "faceted"@),
{
}

/// Only a mesh that the studio makes itself can be deformed: none from a file,
/// none that a set operation gives.
pub proof fn law_deformed_meshes_are_made_here(has_mesh: bool, kind: &str, r: bool)
    requires
        call_ensures(supports_deform, (has_mesh, kind), r),
    ensures
        r ==> has_mesh,
        kind@ == "mesh"@ || kind@ == "solid"@ || kind@ == "union"@ || kind@ == "difference"@ || kind@
            == "intersect"@ ==> !r,
        has_mesh && !(kind@ == "mesh"@ || kind@ == "solid"@ || kind@ == "union"@ || kind@
            == "difference"@ || kind@ == "intersect"@) ==> r,
{
}

/// The modifiers are these eight, each under its own attribute.
pub proof fn law_modifiers_on_offer(r: Vec<DeformRow>)
    requires
        call_ensures(all_deform_rows, (), r),
    ensures
        r@.len() == 8,
        r@[0].attr@ == "noise"@ && r@[1].attr@ == "jitter"@ && r@[2].attr@ == "bend_x"@
            && r@[3].attr@ == "bend_y"@ && r@[4].attr@ == "bend_z"@ && r@[5].attr@ == "twist_y"@
            && r@[6].attr@ == "taper"@ && r@[7].attr@ == "droop"@,
        r@[0].default@ == "0.3"@ && r@[1].default@ == "0.3"@ && r@[2].default@ == "15"@
            && r@[3].default@ == "15"@ && r@[4].default@ == "15"@ && r@[5].default@ == "30"@
            && r@[6].default@ == "0.5"@ && r@[7].default@ == "0.3"@,
{
}

/// The section is open when a value or the seed is written, and only then.
pub proof fn law_section_opens_for_what_is_written(
    values: &Vec<Option<String>>,
    seed: &Option<String>,
    open: bool,
    i: int,
    set: bool,
    n: Option<u32>,
)
    requires
        call_ensures(deform_open, (values, seed), open),
        0 <= i < values@.len(),
        call_ensures(is_set, (&values@[i],), set),
        call_ensures(seed_value, (seed,), n),
    ensures
        set ==> open,
        n is Some ==> open,
        values@[i] is None ==> !set,
        *seed is None ==> n is None,
        values@.len() == 1 && !set && n is None ==> !open,
{
    assert(set == holds_number(values@[i]));
    if any_number(values@) {
        let k = choose|k: int| 0 <= k < values@.len() && holds_number(#[trigger] values@[k]);
        assert(values@.len() == 1 ==> k == i);
    }
}

} // verus!
