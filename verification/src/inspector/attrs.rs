//! What the controls of the inspector write into the source of the selected
//! node.

use vstd::prelude::*;

use super::connections::material_of;
use super::geometry::{
    current_choice, flag_text, pick_choice, quoted, shown_choice, triple_text,
};
use crate::ids::IdSet;
use crate::scene::{LightKind, SceneGraph, SceneNode};
use crate::text::{
    drop_back, lemma_drop_front_skip, only, opt_view, str_eq, strip_back, strip_front, without_back,
    without_front,
};

verus! {

/// An attribute to write, and attributes to take out with it.
pub struct AttrEdit {
    pub attr: &'static str,
    pub value: String,
    pub delete: Vec<&'static str>,
}

/// Whether `e` writes `value` to `attr` and takes `delete` out.
pub open spec fn writes(
    e: AttrEdit,
    attr: Seq<char>,
    value: Seq<char>,
    delete: Seq<&'static str>,
) -> bool {
    e.attr@ == attr && e.value@ == value && e.delete@ == delete
}

/// Writes one attribute.
pub fn set_attr(attr: &'static str, value: String) -> (e: AttrEdit)
    ensures
        writes(e, attr@, value@, Seq::empty()),
{
    AttrEdit { attr, value, delete: Vec::new() }
}

// ---- transform -------------------------------------------------------------

/// The parts of a transform.
#[derive(Clone, Copy, Debug, PartialEq, Eq, Structural)]
pub enum Channel {
    Translate,
    Rotate,
    Scale,
}

/// The attribute that a channel is written to.
pub open spec fn channel_attr(c: Channel) -> &'static str {
    match c {
        Channel::Translate => "pos",
        Channel::Rotate => "rot",
        Channel::Scale => "scale",
    }
}

/// The short forms that would override the attribute of a channel.
pub open spec fn shadows(c: Channel) -> Seq<&'static str> {
    match c {
        Channel::Translate => seq!["x", "y", "z", "from", "to"],
        Channel::Rotate => seq!["rx", "ry", "rz"],
        Channel::Scale => Seq::empty(),
    }
}

/// The attributes that feed a channel; an expression in one of them locks it.
pub fn channel_attrs(c: Channel) -> (r: Vec<&'static str>)
    ensures
        r@ == seq![channel_attr(c)] + shadows(c),
{
    let mut r: Vec<&'static str> = Vec::new();
    match c {
        Channel::Translate => {
            r.push("pos");
            r.push("x");
            r.push("y");
            r.push("z");
            r.push("from");
            r.push("to");
        },
        Channel::Rotate => {
            r.push("rot");
            r.push("rx");
            r.push("ry");
            r.push("rz");
        },
        Channel::Scale => {
            r.push("scale");
        },
    }
    assert(r@ =~= seq![channel_attr(c)] + shadows(c));
    r
}

/// Writes a channel as one vector and takes out the short forms, which would
/// otherwise win over it.
pub fn set_channel(c: Channel, x: &str, y: &str, z: &str) -> (e: AttrEdit)
    ensures
        writes(
            e,
            channel_attr(c)@,
            "["@ + x@ + ", "@ + y@ + ", "@ + z@ + "]"@,
            shadows(c),
        ),
{
    let mut delete: Vec<&'static str> = Vec::new();
    let attr = match c {
        Channel::Translate => {
            delete.push("x");
            delete.push("y");
            delete.push("z");
            delete.push("from");
            delete.push("to");
            "pos"
        },
        Channel::Rotate => {
            delete.push("rx");
            delete.push("ry");
            delete.push("rz");
            "rot"
        },
        Channel::Scale => "scale",
    };
    assert(delete@ =~= shadows(c));
    AttrEdit { attr, value: triple_text(x, y, z), delete }
}

/// The label and the hint of the button that links the axes of the scale.
pub fn link_button(linked: bool) -> (r: (&'static str, &'static str))
    ensures
        r.0@ == if linked {
            "🔗"@
        } else {
            "🔓"@
        },
        r.1@ == if linked {
            "Scale axes linked — drag any axis to scale all three (click to unlink)"@
        } else {
            "Scale axes independent (click to link)"@
        },
{
    if linked {
        ("🔗", "Scale axes linked — drag any axis to scale all three (click to unlink)")
    } else {
        ("🔓", "Scale axes independent (click to link)")
    }
}

// ---- light -----------------------------------------------------------------

/// The word for a kind of light.
pub open spec fn light_word(k: LightKind) -> Seq<char> {
    match k {
        LightKind::Directional => "directional"@,
        LightKind::Point => "point"@,
        LightKind::Spot => "spot"@,
    }
}

/// The attributes that a kind of light does not take.
pub open spec fn not_for_light(k: LightKind) -> Seq<&'static str> {
    match k {
        LightKind::Directional => seq!["range", "inner_cone", "outer_cone"],
        LightKind::Point => seq!["inner_cone", "outer_cone"],
        LightKind::Spot => Seq::empty(),
    }
}

/// The word for a kind of light.
pub fn light_label(k: LightKind) -> (r: &'static str)
    ensures
        r@ == light_word(k),
{
    match k {
        LightKind::Directional => "directional",
        LightKind::Point => "point",
        LightKind::Spot => "spot",
    }
}

/// Changes the kind of a light, and takes out the attributes that the new kind
/// does not take. Picking the kind that it has changes nothing.
pub fn switch_light(now: LightKind, to: LightKind) -> (r: Option<AttrEdit>)
    ensures
        match r {
            None => now == to,
            Some(e) => now != to && writes(e, "kind"@, light_word(to), not_for_light(to)),
        },
{
    if now == to {
        return None;
    }
    let mut delete: Vec<&'static str> = Vec::new();
    if to == LightKind::Directional {
        delete.push("range");
    }
    if to != LightKind::Spot {
        delete.push("inner_cone");
        delete.push("outer_cone");
    }
    assert(delete@ =~= not_for_light(to));
    Some(AttrEdit { attr: "kind", value: light_label(to).to_owned(), delete })
}

/// The unit behind the intensity of a light.
pub fn intensity_unit(k: LightKind) -> (r: &'static str)
    ensures
        r@ == if k == LightKind::Directional {
            " lx"@
        } else {
            " cd"@
        },
{
    if k == LightKind::Directional {
        " lx"
    } else {
        " cd"
    }
}

/// Which controls a light has beside its colour and intensity: its range, and
/// its cone angles.
pub fn light_rows(k: LightKind) -> (r: (bool, bool))
    ensures
        r.0 == (k != LightKind::Directional),
        r.1 == (k == LightKind::Spot),
{
    (k != LightKind::Directional, k == LightKind::Spot)
}

/// The changes to a light that write one attribute.
pub enum LightChange {
    Color { r: String, g: String, b: String },
    Intensity(String),
    Range(String),
    /// A range for a light that had none.
    NewRange,
    InnerCone(String),
    OuterCone(String),
}

/// Writes a change to a light.
pub fn change_light(c: LightChange) -> (e: AttrEdit)
    ensures
        match c {
            LightChange::Color { r, g, b } => writes(
                e,
                "color"@,
                "["@ + r@ + ", "@ + g@ + ", "@ + b@ + "]"@,
                Seq::empty(),
            ),
            LightChange::Intensity(v) => writes(e, "intensity"@, v@, Seq::empty()),
            LightChange::Range(v) => writes(e, "range"@, v@, Seq::empty()),
            LightChange::NewRange => writes(e, "range"@, "8"@, Seq::empty()),
            LightChange::InnerCone(v) => writes(e, "inner_cone"@, v@, Seq::empty()),
            LightChange::OuterCone(v) => writes(e, "outer_cone"@, v@, Seq::empty()),
        },
{
    match c {
        LightChange::Color { r, g, b } => set_attr(
            "color",
            triple_text(r.as_str(), g.as_str(), b.as_str()),
        ),
        LightChange::Intensity(v) => set_attr("intensity", v),
        LightChange::Range(v) => set_attr("range", v),
        LightChange::NewRange => set_attr("range", "8".to_owned()),
        LightChange::InnerCone(v) => set_attr("inner_cone", v),
        LightChange::OuterCone(v) => set_attr("outer_cone", v),
    }
}

// ---- modifiers -------------------------------------------------------------

/// Whether a kind combines its children by a set operation.
pub open spec fn is_csg(k: Seq<char>) -> bool {
    k == "union"@ || k == "difference"@ || k == "intersect"@
}

/// Whether a kind combines its children by a set operation.
pub fn csg_kind(k: &str) -> (r: bool)
    ensures
        r == is_csg(k@),
{
    str_eq(k, "union") || str_eq(k, "difference") || str_eq(k, "intersect")
}

/// The set operations on offer.
#[derive(Clone, Copy, Debug, PartialEq, Eq, Structural)]
pub enum CsgOp {
    Union,
    Difference,
    Intersect,
}

/// The keyword of a set operation.
pub open spec fn csg_word(op: CsgOp) -> Seq<char> {
    match op {
        CsgOp::Union => "union"@,
        CsgOp::Difference => "difference"@,
        CsgOp::Intersect => "intersect"@,
    }
}

/// The keyword to write when a set operation is picked on a node: none when
/// the node is no set operation or this one already.
pub fn switch_csg(kind: &str, op: CsgOp) -> (r: Option<&'static str>)
    ensures
        match r {
            None => !is_csg(kind@) || kind@ == csg_word(op),
            Some(k) => is_csg(kind@) && kind@ != csg_word(op) && k@ == csg_word(op),
        },
{
    let word = match op {
        CsgOp::Union => "union",
        CsgOp::Difference => "difference",
        CsgOp::Intersect => "intersect",
    };
    if csg_kind(kind) && !str_eq(kind, word) {
        Some(word)
    } else {
        None
    }
}

/// The axes on offer.
#[derive(Clone, Copy, Debug, PartialEq, Eq, Structural)]
pub enum Axis {
    X,
    Y,
    Z,
}

/// The letter of an axis.
pub open spec fn axis_word(a: Axis) -> Seq<char> {
    match a {
        Axis::X => "X"@,
        Axis::Y => "Y"@,
        Axis::Z => "Z"@,
    }
}

/// The letter of an axis.
pub fn axis_text(a: Axis) -> (r: &'static str)
    ensures
        r@ == axis_word(a),
{
    match a {
        Axis::X => "X",
        Axis::Y => "Y",
        Axis::Z => "Z",
    }
}

/// The axis that an array or a mirror shows: the authored text, or the
/// default.
pub open spec fn shown_axis(raw: Option<Seq<char>>, default: Seq<char>) -> Seq<char> {
    match raw {
        Some(s) => s,
        None => default,
    }
}

fn pick_axis(
    attr: &'static str,
    raw: &Option<String>,
    default: &'static str,
    to: Axis,
) -> (r: Option<AttrEdit>)
    ensures
        match r {
            None => shown_axis(opt_view(*raw), default@) == axis_word(to),
            Some(e) => shown_axis(opt_view(*raw), default@) != axis_word(to) && writes(
                e,
                attr@,
                axis_word(to),
                Seq::empty(),
            ),
        },
{
    let same = match raw {
        Some(s) => str_eq(s.as_str(), axis_text(to)),
        None => str_eq(default, axis_text(to)),
    };
    if same {
        None
    } else {
        Some(set_attr(attr, axis_text(to).to_owned()))
    }
}

/// Picks the axis of an array, which is `Y` unless authored.
pub fn pick_array_axis(raw: &Option<String>, to: Axis) -> (r: Option<AttrEdit>)
    ensures
        match r {
            None => shown_axis(opt_view(*raw), "Y"@) == axis_word(to),
            Some(e) => shown_axis(opt_view(*raw), "Y"@) != axis_word(to) && writes(
                e,
                "around"@,
                axis_word(to),
                Seq::empty(),
            ),
        },
{
    pick_axis("around", raw, "Y", to)
}

/// Picks the axis of a mirror, which is `X` unless authored.
pub fn pick_mirror_axis(raw: &Option<String>, to: Axis) -> (r: Option<AttrEdit>)
    ensures
        match r {
            None => shown_axis(opt_view(*raw), "X"@) == axis_word(to),
            Some(e) => shown_axis(opt_view(*raw), "X"@) != axis_word(to) && writes(
                e,
                "axis"@,
                axis_word(to),
                Seq::empty(),
            ),
        },
{
    pick_axis("axis", raw, "X", to)
}

// ---- shadow, collider and cave ---------------------------------------------

/// What a switch does to the source.
pub enum Toggle {
    Write(AttrEdit),
    Remove(&'static str),
}

/// Which switches a node has: lights have neither, and a cave keeps its own
/// colliders.
pub fn node_switches(n: &SceneNode) -> (r: (bool, bool))
    ensures
        r.0 == n.light is None,
        r.1 == (n.light is None && n.kind@ != "cave"@),
{
    let solid = n.light.is_none();
    (solid, solid && !str_eq(n.kind.as_str(), "cave"))
}

/// Switches the shadow of a node. Casting one is the default, so switching it
/// back on takes the attribute out.
pub fn toggle_shadow(cast: bool) -> (r: Toggle)
    ensures
        match r {
            Toggle::Write(e) => !cast && writes(e, "cast_shadow"@, "0"@, Seq::empty()),
            Toggle::Remove(attr) => cast && attr@ == "cast_shadow"@,
        },
{
    if cast {
        Toggle::Remove("cast_shadow")
    } else {
        Toggle::Write(set_attr("cast_shadow", "0".to_owned()))
    }
}

/// Switches the collider of a node.
pub fn toggle_collider(on: bool) -> (r: Toggle)
    ensures
        match r {
            Toggle::Write(e) => on && writes(e, "collider"@, "\"aabb\""@, Seq::empty()),
            Toggle::Remove(attr) => !on && attr@ == "collider"@,
        },
{
    if on {
        Toggle::Write(set_attr("collider", "\"aabb\"".to_owned()))
    } else {
        Toggle::Remove("collider")
    }
}

/// Whether a collider is asked for but has nothing to enclose.
pub fn collider_empty(n: &SceneNode) -> (r: bool)
    ensures
        r == (n.collider && !n.collider_box),
{
    n.collider && !n.collider_box
}

/// The yes-or-no attributes of a cave.
#[derive(Clone, Copy, Debug, PartialEq, Eq, Structural)]
pub enum CaveFlag {
    WaterCollider,
    ShowPoi,
    HideShell,
}

/// Writes a yes-or-no attribute of a cave.
pub fn set_cave_flag(f: CaveFlag, on: bool) -> (e: AttrEdit)
    ensures
        writes(
            e,
            match f {
                CaveFlag::WaterCollider => "water_collider"@,
                CaveFlag::ShowPoi => "debug_show_poi"@,
                CaveFlag::HideShell => "debug_hide_shell"@,
            },
            if on {
                "1"@
            } else {
                "0"@
            },
            Seq::empty(),
        ),
{
    let attr = match f {
        CaveFlag::WaterCollider => "water_collider",
        CaveFlag::ShowPoi => "debug_show_poi",
        CaveFlag::HideShell => "debug_hide_shell",
    };
    set_attr(attr, flag_text(on).to_owned())
}

/// Picks which surfaces of a cave collide, which are all of them unless
/// authored.
pub fn pick_cave_colliders(raw: &Option<String>, option: &str) -> (r: Option<AttrEdit>)
    ensures
        match r {
            None => shown_choice(opt_view(*raw), "all"@) == option@,
            Some(e) => shown_choice(opt_view(*raw), "all"@) != option@ && writes(
                e,
                "colliders"@,
                "\""@ + option@ + "\""@,
                Seq::empty(),
            ),
        },
{
    match pick_choice(raw, "all", option) {
        Some(value) => Some(set_attr("colliders", value)),
        None => None,
    }
}

// ---- material --------------------------------------------------------------

/// Whether a node has a material to pick: it is no light, and the scene has
/// materials.
pub fn offers_material(s: &SceneGraph, n: &SceneNode) -> (r: bool)
    ensures
        r == (n.light is None && s.materials@.len() > 0),
{
    n.light.is_none() && s.materials.len() > 0
}

/// What the picker shows: the material of the node, or that it inherits one.
pub fn material_label(s: &SceneGraph, n: &SceneNode) -> (r: String)
    ensures
        r@ == match material_of(*s, *n) {
            Some(m) => m,
            None => "(inherit)"@,
        },
{
    match n.material {
        Some(m) => if (m as usize) < s.materials.len() {
            s.materials[m as usize].name.clone()
        } else {
            "(inherit)".to_owned()
        },
        None => "(inherit)".to_owned(),
    }
}

/// Picks a material by its name, or the inherited one. Picking what the node
/// has already changes nothing.
pub fn pick_material(s: &SceneGraph, n: &SceneNode, pick: &Option<String>) -> (r: Option<Toggle>)
    ensures
        match r {
            None => opt_view(*pick) == material_of(*s, *n),
            Some(t) => opt_view(*pick) != material_of(*s, *n) && match (*pick, t) {
                (Some(name), Toggle::Write(e)) => writes(
                    e,
                    "material"@,
                    "\""@ + name@ + "\""@,
                    Seq::empty(),
                ),
                (None, Toggle::Remove(attr)) => attr@ == "material"@,
                _ => false,
            },
        },
{
    let now: Option<&String> = match n.material {
        Some(m) => if (m as usize) < s.materials.len() {
            Some(&s.materials[m as usize].name)
        } else {
            None
        },
        None => None,
    };
    match pick {
        Some(name) => {
            let same = match now {
                Some(cur) => str_eq(cur.as_str(), name.as_str()),
                None => false,
            };
            if same {
                None
            } else {
                Some(Toggle::Write(set_attr("material", quoted(name.as_str()))))
            }
        },
        None => if now.is_some() {
            Some(Toggle::Remove("material"))
        } else {
            None
        },
    }
}

// ---- adding an attribute ---------------------------------------------------

/// An attribute on offer, with the text it starts with.
#[derive(Clone, Copy)]
pub struct Candidate {
    pub name: &'static str,
    pub default: &'static str,
}

/// The attributes on offer.
pub open spec fn candidates() -> Seq<Candidate> {
    seq![
        Candidate { name: "anchor", default: "center" },
        Candidate { name: "from", default: "[0, 0, 0]" },
        Candidate { name: "to", default: "[0, 0, 0]" },
        Candidate { name: "above", default: "\"\"" },
        Candidate { name: "below", default: "\"\"" },
        Candidate { name: "left_of", default: "\"\"" },
        Candidate { name: "right_of", default: "\"\"" },
        Candidate { name: "in_front_of", default: "\"\"" },
        Candidate { name: "behind", default: "\"\"" },
        Candidate { name: "gap", default: "0" },
        Candidate { name: "lod", default: "1" },
        Candidate { name: "role", default: "\"part\"" },
        Candidate { name: "tags", default: "\"\"" },
    ]
}

/// The attributes on offer.
pub fn all_candidates() -> (r: Vec<Candidate>)
    ensures
        r@ == candidates(),
{
    let mut r: Vec<Candidate> = Vec::new();
    r.push(Candidate { name: "anchor", default: "center" });
    r.push(Candidate { name: "from", default: "[0, 0, 0]" });
    r.push(Candidate { name: "to", default: "[0, 0, 0]" });
    r.push(Candidate { name: "above", default: "\"\"" });
    r.push(Candidate { name: "below", default: "\"\"" });
    r.push(Candidate { name: "left_of", default: "\"\"" });
    r.push(Candidate { name: "right_of", default: "\"\"" });
    r.push(Candidate { name: "in_front_of", default: "\"\"" });
    r.push(Candidate { name: "behind", default: "\"\"" });
    r.push(Candidate { name: "gap", default: "0" });
    r.push(Candidate { name: "lod", default: "1" });
    r.push(Candidate { name: "role", default: "\"part\"" });
    r.push(Candidate { name: "tags", default: "\"\"" });
    assert(r@ =~= candidates());
    r
}

/// The predicate of the attributes that a node may take and does not have.
pub open spec fn is_addable(valid: Set<Seq<char>>, present: Set<Seq<char>>) -> spec_fn(
    Candidate,
) -> bool {
    |c: Candidate| valid.contains(c.name@) && !present.contains(c.name@)
}

/// The attributes that can be added to a node: those on offer that its kind
/// takes (`valid`) and that are not written on it yet (`present`).
pub fn addable(valid: &IdSet, present: &IdSet) -> (r: Vec<Candidate>)
    ensures
        r@ == candidates().filter(is_addable(valid@, present@)),
{
    let all = all_candidates();
    let ghost p = is_addable(valid@, present@);
    let mut r: Vec<Candidate> = Vec::new();
    let mut i: usize = 0;
    proof {
        reveal(Seq::filter);
    }
    while i < all.len()
        invariant
            i <= all@.len(),
            p == is_addable(valid@, present@),
            r@ == all@.take(i as int).filter(p),
        decreases all.len() - i,
    {
        proof {
            reveal(Seq::filter);
            assert(all@.take(i + 1).drop_last() =~= all@.take(i as int));
        }
        let c = all[i];
        if valid.contains(c.name) && !present.contains(c.name) {
            r.push(c);
        }
        i = i + 1;
    }
    assert(all@.take(i as int) =~= all@);
    r
}

// ---- mesh source -----------------------------------------------------------

/// The path that a mesh is loaded from, as it is shown.
pub fn mesh_source(raw: &Option<String>) -> (r: String)
    ensures
        r@ == match *raw {
            Some(s) => without_back(without_front(s@, '"'), '"'),
            None => ""@,
        },
{
    match raw {
        Some(s) => strip_back(strip_front(s.as_str(), '"'), '"').to_owned(),
        None => "".to_owned(),
    }
}

// ---- laws ------------------------------------------------------------------

/// Each channel writes the vector to an attribute of its own: moving writes
/// `pos`, turning `rot`, and scaling `scale`, whatever the numbers.
pub proof fn law_channels_write_their_own_attribute(
    c: Channel,
    x: &str,
    y: &str,
    z: &str,
    e: AttrEdit,
)
    requires
        call_ensures(set_channel, (c, x, y, z), e),
    ensures
        c == Channel::Translate ==> e.attr@ == "pos"@,
        c == Channel::Rotate ==> e.attr@ == "rot"@,
        c == Channel::Scale ==> e.attr@ == "scale"@,
        e.value@ == "["@ + x@ + ", "@ + y@ + ", "@ + z@ + "]"@,
{
}

/// Writing a channel takes out exactly the short forms that would override
/// it, and leaves those of the other channels alone.
pub proof fn law_channels_take_their_short_forms_out(
    c: Channel,
    x: &str,
    y: &str,
    z: &str,
    e: AttrEdit,
)
    requires
        call_ensures(set_channel, (c, x, y, z), e),
    ensures
        c == Channel::Translate ==> e.delete@ == seq!["x", "y", "z", "from", "to"],
        c == Channel::Rotate ==> e.delete@ == seq!["rx", "ry", "rz"],
        c == Channel::Scale ==> e.delete@.len() == 0,
{
}

/// A channel is locked by an expression in exactly the attributes that writing
/// it would touch.
pub proof fn law_locks_are_what_is_touched(
    c: Channel,
    x: &str,
    y: &str,
    z: &str,
    e: AttrEdit,
    r: Vec<&'static str>,
)
    requires
        call_ensures(set_channel, (c, x, y, z), e),
        call_ensures(channel_attrs, (c,), r),
    ensures
        r@.len() == 1 + e.delete@.len(),
        r@[0]@ == e.attr@,
        r@.skip(1) == e.delete@,
{
    assert(r@.skip(1) =~= shadows(c));
}

/// Two channels never write the same attribute.
pub proof fn law_channels_are_apart(
    a: Channel,
    b: Channel,
    x: &str,
    y: &str,
    z: &str,
    ea: AttrEdit,
    eb: AttrEdit,
)
    requires
        call_ensures(set_channel, (a, x, y, z), ea),
        call_ensures(set_channel, (b, x, y, z), eb),
        a != b,
    ensures
        ea.attr@ != eb.attr@,
{
    reveal_strlit("pos");
    reveal_strlit("rot");
    reveal_strlit("scale");
    assert("pos"@[0] == 'p' && "rot"@[0] == 'r' && "scale"@[0] == 's');
}

/// A light gets the kind that was picked, under the word that its label
/// shows, and loses what that kind does not take: a directional light its
/// range and its cone, a point light its cone.
pub proof fn law_picked_light_is_written(
    now: LightKind,
    to: LightKind,
    r: Option<AttrEdit>,
    label: &'static str,
    rows: (bool, bool),
)
    requires
        call_ensures(switch_light, (now, to), r),
        call_ensures(light_label, (to,), label),
        call_ensures(light_rows, (to,), rows),
    ensures
        r is None <==> now == to,
        to == LightKind::Directional ==> label@ == "directional"@ && rows == (false, false),
        to == LightKind::Point ==> label@ == "point"@ && rows == (true, false),
        to == LightKind::Spot ==> label@ == "spot"@ && rows == (true, true),
        r matches Some(e) ==> {
            &&& e.attr@ == "kind"@
            &&& e.value@ == label@
            &&& e.delete@ == (if rows.0 {
                Seq::<&'static str>::empty()
            } else {
                seq!["range"]
            }) + (if rows.1 {
                Seq::<&'static str>::empty()
            } else {
                seq!["inner_cone", "outer_cone"]
            })
        },
{
    if let Some(e) = r {
        assert(e.delete@ =~= (if rows.0 {
            Seq::<&'static str>::empty()
        } else {
            seq!["range"]
        }) + (if rows.1 {
            Seq::<&'static str>::empty()
        } else {
            seq!["inner_cone", "outer_cone"]
        }));
    }
}

/// Every control of a light writes its value to its own attribute and takes
/// nothing out.
pub proof fn law_light_controls_write_their_own_attribute(c: LightChange, e: AttrEdit)
    requires
        call_ensures(change_light, (c,), e),
    ensures
        e.delete@.len() == 0,
        c matches LightChange::Color { r, g, b } ==> e.attr@ == "color"@ && e.value@ == "["@ + r@
            + ", "@ + g@ + ", "@ + b@ + "]"@,
        c matches LightChange::Intensity(v) ==> e.attr@ == "intensity"@ && e.value@ == v@,
        c matches LightChange::Range(v) ==> e.attr@ == "range"@ && e.value@ == v@,
        c is NewRange ==> e.attr@ == "range"@ && e.value@ == "8"@,
        c matches LightChange::InnerCone(v) ==> e.attr@ == "inner_cone"@ && e.value@ == v@,
        c matches LightChange::OuterCone(v) ==> e.attr@ == "outer_cone"@ && e.value@ == v@,
{
}

/// A set operation becomes the one that was picked; what is no set operation,
/// or that one already, is left alone.
pub proof fn law_picked_operation_is_written(
    kind: &str,
    op: CsgOp,
    r: Option<&'static str>,
    csg: bool,
)
    requires
        call_ensures(switch_csg, (kind, op), r),
        call_ensures(csg_kind, (kind,), csg),
    ensures
        csg <==> kind@ == "union"@ || kind@ == "difference"@ || kind@ == "intersect"@,
        r is Some ==> csg && (r->0)@ != kind@,
        r matches Some(k) ==> (op == CsgOp::Union ==> k@ == "union"@) && (op == CsgOp::Difference
            ==> k@ == "difference"@) && (op == CsgOp::Intersect ==> k@ == "intersect"@),
        csg && op == CsgOp::Union && kind@ != "union"@ ==> r is Some,
        csg && op == CsgOp::Difference && kind@ != "difference"@ ==> r is Some,
        csg && op == CsgOp::Intersect && kind@ != "intersect"@ ==> r is Some,
{
}

/// An array and a mirror get the axis that was picked, each under its own
/// attribute, unless that is the one they show: as authored, or `Y` for an
/// array and `X` for a mirror.
pub proof fn law_picked_axis_is_written(
    raw: &Option<String>,
    to: Axis,
    array: Option<AttrEdit>,
    mirror: Option<AttrEdit>,
    word: &'static str,
)
    requires
        call_ensures(pick_array_axis, (raw, to), array),
        call_ensures(pick_mirror_axis, (raw, to), mirror),
        call_ensures(axis_text, (to,), word),
    ensures
        to == Axis::X ==> word@ == "X"@,
        to == Axis::Y ==> word@ == "Y"@,
        to == Axis::Z ==> word@ == "Z"@,
        array is None <==> (match *raw {
            Some(s) => s@ == word@,
            None => to == Axis::Y,
        }),
        mirror is None <==> (match *raw {
            Some(s) => s@ == word@,
            None => to == Axis::X,
        }),
        array matches Some(e) ==> e.attr@ == "around"@ && e.value@ == word@ && e.delete@.len() == 0,
        mirror matches Some(e) ==> e.attr@ == "axis"@ && e.value@ == word@ && e.delete@.len() == 0,
{
    reveal_strlit("X");
    reveal_strlit("Y");
    reveal_strlit("Z");
    assert("X"@[0] == 'X' && "Y"@[0] == 'Y' && "Z"@[0] == 'Z');
}

/// Switching the shadow off writes that, switching it on takes that out
/// again; a collider is written when it is switched on and taken out when off.
pub proof fn law_switches_write_and_take_out(on: bool, shadow: Toggle, collider: Toggle)
    requires
        call_ensures(toggle_shadow, (on,), shadow),
        call_ensures(toggle_collider, (on,), collider),
    ensures
        on ==> (shadow matches Toggle::Remove(a) && a@ == "cast_shadow"@),
        !on ==> (shadow matches Toggle::Write(e) && e.attr@ == "cast_shadow"@ && e.value@ == "0"@),
        on ==> (collider matches Toggle::Write(e) && e.attr@ == "collider"@ && e.value@
            == "\"aabb\""@),
        !on ==> (collider matches Toggle::Remove(a) && a@ == "collider"@),
{
}

/// Lights have neither switch, caves no collider switch, and a collider is
/// empty when it is asked for and has no box.
pub proof fn law_switches_are_offered(n: &SceneNode, r: (bool, bool), empty: bool)
    requires
        call_ensures(node_switches, (n,), r),
        call_ensures(collider_empty, (n,), empty),
    ensures
        n.light is Some ==> !r.0 && !r.1,
        n.light is None ==> r.0 && (r.1 <==> n.kind@ != "cave"@),
        empty <==> n.collider && !n.collider_box,
{
}

/// Every switch of a cave writes one or zero to its own attribute.
pub proof fn law_cave_flags_write_their_own_attribute(f: CaveFlag, on: bool, e: AttrEdit)
    requires
        call_ensures(set_cave_flag, (f, on), e),
    ensures
        f == CaveFlag::WaterCollider ==> e.attr@ == "water_collider"@,
        f == CaveFlag::ShowPoi ==> e.attr@ == "debug_show_poi"@,
        f == CaveFlag::HideShell ==> e.attr@ == "debug_hide_shell"@,
        on ==> e.value@ == "1"@,
        !on ==> e.value@ == "0"@,
{
}

/// A node gets the material that was picked by its name, loses it when it is
/// to inherit one, and is left alone when it has that already. The label shows
/// the name of the material that it has.
pub proof fn law_picked_material_is_written(
    s: &SceneGraph,
    n: &SceneNode,
    pick: &Option<String>,
    r: Option<Toggle>,
    label: String,
)
    requires
        call_ensures(pick_material, (s, n, pick), r),
        call_ensures(material_label, (s, n), label),
    ensures
        n.material matches Some(m) ==> m < s.materials@.len() ==> label@
            == s.materials@[m as int].name@ && (r is None <==> (*pick matches Some(p) && p@
            == label@)),
        n.material is None ==> label@ == "(inherit)"@ && (r is None <==> *pick is None),
        n.material matches Some(m) ==> m >= s.materials@.len() ==> label@ == "(inherit)"@,
        r matches Some(Toggle::Write(e)) ==> (*pick matches Some(p) && e.attr@ == "material"@
            && e.value@ == "\""@ + p@ + "\""@),
        r matches Some(Toggle::Remove(a)) ==> *pick is None && a@ == "material"@,
        *pick is Some && r is Some ==> r->0 is Write,
        *pick is None && r is Some ==> r->0 is Remove,
{
}

/// An attribute is offered exactly when it is on offer at all, the kind of the
/// node takes it, and the node does not have it.
pub proof fn law_addable_attributes_are_missing(
    valid: &IdSet,
    present: &IdSet,
    r: Vec<Candidate>,
    all: Vec<Candidate>,
    c: Candidate,
)
    requires
        call_ensures(addable, (valid, present), r),
        call_ensures(all_candidates, (), all),
    ensures
        r@.contains(c) <==> all@.contains(c) && valid@.contains(c.name@) && !present@.contains(
            c.name@,
        ),
{
    let p = is_addable(valid@, present@);
    let f = candidates().filter(p);
    broadcast use vstd::seq_lib::group_filter_ensures;

    if f.contains(c) {
        let i = choose|i: int| 0 <= i < f.len() && f[i] == c;
        candidates().lemma_filter_contains_rev(p, c);
        assert(p(f[i]));
    }
    if candidates().contains(c) && p(c) {
        assert(f.contains(c));
    }
}

/// Setting an attribute writes that one and takes none out.
pub proof fn law_setting_writes_one_attribute(attr: &'static str, value: String, e: AttrEdit)
    requires
        call_ensures(set_attr, (attr, value), e),
    ensures
        e.attr@ == attr@,
        e.value@ == value@,
        e.delete@.len() == 0,
{
}

/// The button shows whether the axes are linked, and a light its unit.
pub proof fn law_labels_tell_the_state(
    linked: bool,
    b: (&'static str, &'static str),
    k: LightKind,
    unit: &'static str,
)
    requires
        call_ensures(link_button, (linked,), b),
        call_ensures(intensity_unit, (k,), unit),
    ensures
        linked ==> b.0@ == "🔗"@ && b.1@
            == "Scale axes linked — drag any axis to scale all three (click to unlink)"@,
        !linked ==> b.0@ == "🔓"@ && b.1@ == "Scale axes independent (click to link)"@,
        k is Directional ==> unit@ == " lx"@,
        !(k is Directional) ==> unit@ == " cd"@,
{
}

/// The colliders of a cave are written as the option that was picked, in
/// quotes, unless it is the one that is shown: the word of the attribute, or
/// `all` where there is none.
pub proof fn law_picked_colliders_are_written(
    raw: &Option<String>,
    option: &str,
    r: Option<AttrEdit>,
    shown: String,
)
    requires
        call_ensures(pick_cave_colliders, (raw, option), r),
        call_ensures(current_choice, (raw, "all"), shown),
    ensures
        option@ == shown@ ==> r is None,
        option@ != shown@ ==> (r matches Some(e) && e.attr@ == "colliders"@ && e.value@ == "\""@
            + option@ + "\""@ && e.delete@.len() == 0),
        *raw is None ==> shown@ == "all"@,
{
}

/// The file of a mesh is shown without its quotes, and nothing where there is
/// none.
pub proof fn law_mesh_files_lose_their_quotes(raw: &Option<String>, w: Seq<char>, r: String)
    requires
        call_ensures(mesh_source, (raw,), r),
        *raw is Some ==> (raw->0)@ == seq!['"'] + w + seq!['"'],
        w.len() > 0,
        w[0] != '"',
        w.last() != '"',
    ensures
        *raw is None ==> r@ == ""@,
        *raw is Some ==> r@ == w,
{
    if *raw is Some {
        let s = seq!['"'] + w + seq!['"'];
        assert(s[0] == '"' && s[1] == w[0]);
        lemma_drop_front_skip(s, only('"'), 1);
        let t = without_front(s, '"');
        assert(t =~= w + seq!['"']);
        assert(t.last() == '"');
        assert(t.drop_last() =~= w);
        assert(drop_back(t, only('"')) == drop_back(w, only('"')));
        assert(drop_back(w, only('"')) == w);
    }
}

/// A material is offered to every node but a light, where there is one.
pub proof fn law_lights_have_no_material(s: &SceneGraph, n: &SceneNode, r: bool)
    requires
        call_ensures(offers_material, (s, n), r),
    ensures
        n.light is Some ==> !r,
        s.materials@.len() == 0 ==> !r,
        n.light is None && s.materials@.len() > 0 ==> r,
{
}

} // verus!
