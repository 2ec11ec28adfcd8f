//! The parameters of a primitive that the inspector offers to edit.

use vstd::prelude::*;

use crate::literal::{field, is_field, is_vec_field, read_str, vec_field, word_in, Field, VecField};
use crate::text::{cat3, join, joined, opt_view, str_eq, trimmed, views};

verus! {

/// How a parameter is edited. Decimal numbers are kept as text.
#[allow(inconsistent_fields)]
#[derive(Clone, Copy)]
pub enum RowWidget {
    Scalar { default: &'static str, speed: &'static str },
    Int { default: i32, min: i32, max: i32 },
    Vector { arity: usize, default: &'static str, speed: &'static str },
}

/// One parameter of a primitive.
#[derive(Clone, Copy)]
pub struct GeomRow {
    pub label: &'static str,
    pub attr: &'static str,
    pub widget: RowWidget,
}

/// A row for one decimal number.
pub open spec fn scalar(
    label: &'static str,
    attr: &'static str,
    default: &'static str,
    speed: &'static str,
) -> GeomRow {
    GeomRow { label, attr, widget: RowWidget::Scalar { default, speed } }
}

/// A row for one whole number.
pub open spec fn whole(
    label: &'static str,
    attr: &'static str,
    default: i32,
    min: i32,
    max: i32,
) -> GeomRow {
    GeomRow { label, attr, widget: RowWidget::Int { default, min, max } }
}

/// A row for the size of a primitive.
pub open spec fn size(arity: usize, speed: &'static str) -> GeomRow {
    GeomRow {
        label: "Size",
        attr: "size",
        widget: RowWidget::Vector { arity, default: "1.0", speed },
    }
}

fn scalar_row(
    label: &'static str,
    attr: &'static str,
    default: &'static str,
    speed: &'static str,
) -> (r: GeomRow)
    ensures
        r == scalar(label, attr, default, speed),
{
    GeomRow { label, attr, widget: RowWidget::Scalar { default, speed } }
}

fn int_row(label: &'static str, attr: &'static str, default: i32, min: i32, max: i32) -> (r: GeomRow)
    ensures
        r == whole(label, attr, default, min, max),
{
    GeomRow { label, attr, widget: RowWidget::Int { default, min, max } }
}

fn size_row(arity: usize, speed: &'static str) -> (r: GeomRow)
    ensures
        r == size(arity, speed),
{
    GeomRow {
        label: "Size",
        attr: "size",
        widget: RowWidget::Vector { arity, default: "1.0", speed },
    }
}

/// Whether a kind is a box-like primitive with a size in three directions.
pub open spec fn is_solid_box(k: Seq<char>) -> bool {
    k == "box"@ || k == "slab"@ || k == "post"@ || k == "panel"@ || k == "wedge"@ || k
        == "ellipsoid"@ || k == "rounded_box"@ || k == "chamfered_box"@ || k == "inset_box"@ || k
        == "wall"@ || k == "prism"@ || k == "superellipsoid"@
}

/// Whether a kind is a flat primitive with a size in two directions.
pub open spec fn is_flat(k: Seq<char>) -> bool {
    k == "plane"@ || k == "quad"@ || k == "decal"@ || k == "leaf_card"@ || k == "curved_plane"@
}

/// The parameters of a box-like primitive beside its size.
pub open spec fn solid_box_extras(k: Seq<char>) -> Seq<GeomRow> {
    if k == "rounded_box"@ {
        seq![scalar("Radius", "radius", "0.1", "0.005"), whole("Segments", "segments", 4, 1, 32)]
    } else if k == "chamfered_box"@ {
        seq![scalar("Radius", "radius", "0.1", "0.005")]
    } else if k == "inset_box"@ {
        seq![
            scalar("Amount", "amount", "0.1", "0.005"),
            scalar("Depth", "depth", "0.05", "0.005"),
        ]
    } else if k == "superellipsoid"@ {
        seq![
            scalar("Equator", "ew", "1.0", "0.05"),
            scalar("Meridian", "ns", "1.0", "0.05"),
            whole("Rings", "rings", 16, 2, 256),
            whole("Segments", "segments", 24, 3, 256),
        ]
    } else if k == "ellipsoid"@ {
        seq![whole("Rings", "rings", 16, 2, 256), whole("Segments", "segments", 24, 3, 256)]
    } else {
        Seq::empty()
    }
}

/// The parameters that the inspector offers for a kind, in order.
pub open spec fn geometry_rows(k: Seq<char>) -> Seq<GeomRow> {
    if is_solid_box(k) {
        seq![size(3, "0.02")] + solid_box_extras(k)
    } else if is_flat(k) {
        if k == "decal"@ {
            seq![size(2, "0.05"), scalar("Offset", "offset", "0.001", "0.0005")]
        } else {
            seq![size(2, "0.05")]
        }
    } else if k == "cylinder"@ || k == "cone"@ || k == "half_cylinder"@ {
        seq![
            scalar("Radius", "radius", "0.5", "0.02"),
            scalar("Height", "height", "1.0", "0.02"),
            whole("Segments", "segments", 24, 3, 256),
        ]
    } else if k == "sphere"@ {
        seq![
            scalar("Radius", "radius", "0.5", "0.02"),
            whole("Rings", "rings", 16, 2, 256),
            whole("Segments", "segments", 24, 3, 256),
        ]
    } else if k == "hemisphere"@ {
        seq![
            scalar("Radius", "radius", "0.5", "0.02"),
            whole("Rings", "rings", 8, 2, 256),
            whole("Segments", "segments", 24, 3, 256),
        ]
    } else if k == "icosphere"@ {
        seq![
            scalar("Radius", "radius", "0.5", "0.02"),
            whole("Subdivisions", "subdivisions", 2, 0, 6),
        ]
    } else if k == "capsule"@ {
        seq![
            scalar("Radius", "radius", "0.5", "0.02"),
            scalar("Height", "height", "1.0", "0.02"),
            whole("Rings", "rings", 8, 2, 64),
            whole("Segments", "segments", 24, 3, 256),
        ]
    } else if k == "torus"@ {
        seq![
            scalar("Major", "major", "0.5", "0.02"),
            scalar("Minor", "minor", "0.15", "0.02"),
            whole("Major segs", "major_segments", 24, 3, 256),
            whole("Minor segs", "minor_segments", 12, 3, 256),
        ]
    } else if k == "torus_arc"@ {
        seq![
            scalar("Major", "major", "0.5", "0.02"),
            scalar("Minor", "minor", "0.15", "0.02"),
            scalar("Arc°", "arc", "90.0", "1.0"),
        ]
    } else if k == "pyramid"@ {
        seq![
            scalar("Radius", "radius", "0.5", "0.02"),
            scalar("Height", "height", "1.0", "0.02"),
            whole("Sides", "sides", 4, 3, 64),
        ]
    } else if k == "disc"@ {
        seq![
            scalar("Radius", "radius", "0.5", "0.02"),
            whole("Segments", "segments", 24, 3, 256),
        ]
    } else if k == "tube"@ {
        seq![
            scalar("Outer", "outer", "0.5", "0.02"),
            scalar("Inner", "inner", "0.3", "0.02"),
            scalar("Height", "height", "1.0", "0.02"),
            whole("Segments", "segments", 24, 3, 256),
        ]
    } else if k == "coil"@ {
        seq![
            scalar("Radius", "radius", "0.5", "0.02"),
            scalar("Height", "height", "1.0", "0.02"),
            scalar("Turns", "turns", "3.0", "0.1"),
            scalar("Profile r", "profile_radius", "0.05", "0.005"),
        ]
    } else if k == "frustum"@ {
        seq![scalar("Height", "height", "1.0", "0.02")]
    } else {
        Seq::empty()
    }
}

fn solid_box_kind(k: &str) -> (r: bool)
    ensures
        r == is_solid_box(k@),
{
    str_eq(k, "box") || str_eq(k, "slab") || str_eq(k, "post") || str_eq(k, "panel") || str_eq(
        k,
        "wedge",
    ) || str_eq(k, "ellipsoid") || str_eq(k, "rounded_box") || str_eq(k, "chamfered_box") || str_eq(
        k,
        "inset_box",
    ) || str_eq(k, "wall") || str_eq(k, "prism") || str_eq(k, "superellipsoid")
}

fn flat_kind(k: &str) -> (r: bool)
    ensures
        r == is_flat(k@),
{
    str_eq(k, "plane") || str_eq(k, "quad") || str_eq(k, "decal") || str_eq(k, "leaf_card")
        || str_eq(k, "curved_plane")
}

fn solid_box_rows(k: &str) -> (r: Vec<GeomRow>)
    ensures
        r@ == seq![size(3, "0.02")] + solid_box_extras(k@),
{
    let mut r: Vec<GeomRow> = Vec::new();
    r.push(size_row(3, "0.02"));
    if str_eq(k, "rounded_box") {
        r.push(scalar_row("Radius", "radius", "0.1", "0.005"));
        r.push(int_row("Segments", "segments", 4, 1, 32));
    } else if str_eq(k, "chamfered_box") {
        r.push(scalar_row("Radius", "radius", "0.1", "0.005"));
    } else if str_eq(k, "inset_box") {
        r.push(scalar_row("Amount", "amount", "0.1", "0.005"));
        r.push(scalar_row("Depth", "depth", "0.05", "0.005"));
    } else if str_eq(k, "superellipsoid") {
        r.push(scalar_row("Equator", "ew", "1.0", "0.05"));
        r.push(scalar_row("Meridian", "ns", "1.0", "0.05"));
        r.push(int_row("Rings", "rings", 16, 2, 256));
        r.push(int_row("Segments", "segments", 24, 3, 256));
    } else if str_eq(k, "ellipsoid") {
        r.push(int_row("Rings", "rings", 16, 2, 256));
        r.push(int_row("Segments", "segments", 24, 3, 256));
    }
    assert(r@ =~= seq![size(3, "0.02")] + solid_box_extras(k@));
    r
}

/// The parameters that the inspector offers for a kind. Kinds without any are
/// not editable here.
pub fn geom_params_for_kind(k: &str) -> (r: Vec<GeomRow>)
    ensures
        r@ == geometry_rows(k@),
{
    if solid_box_kind(k) {
        return solid_box_rows(k);
    }
    let mut r: Vec<GeomRow> = Vec::new();
    if flat_kind(k) {
        r.push(size_row(2, "0.05"));
        if str_eq(k, "decal") {
            r.push(scalar_row("Offset", "offset", "0.001", "0.0005"));
        }
    } else if str_eq(k, "cylinder") || str_eq(k, "cone") || str_eq(k, "half_cylinder") {
        r.push(scalar_row("Radius", "radius", "0.5", "0.02"));
        r.push(scalar_row("Height", "height", "1.0", "0.02"));
        r.push(int_row("Segments", "segments", 24, 3, 256));
    } else if str_eq(k, "sphere") {
        r.push(scalar_row("Radius", "radius", "0.5", "0.02"));
        r.push(int_row("Rings", "rings", 16, 2, 256));
        r.push(int_row("Segments", "segments", 24, 3, 256));
    } else if str_eq(k, "hemisphere") {
        r.push(scalar_row("Radius", "radius", "0.5", "0.02"));
        r.push(int_row("Rings", "rings", 8, 2, 256));
        r.push(int_row("Segments", "segments", 24, 3, 256));
    } else if str_eq(k, "icosphere") {
        r.push(scalar_row("Radius", "radius", "0.5", "0.02"));
        r.push(int_row("Subdivisions", "subdivisions", 2, 0, 6));
    } else if str_eq(k, "capsule") {
        r.push(scalar_row("Radius", "radius", "0.5", "0.02"));
        r.push(scalar_row("Height", "height", "1.0", "0.02"));
        r.push(int_row("Rings", "rings", 8, 2, 64));
        r.push(int_row("Segments", "segments", 24, 3, 256));
    } else if str_eq(k, "torus") {
        r.push(scalar_row("Major", "major", "0.5", "0.02"));
        r.push(scalar_row("Minor", "minor", "0.15", "0.02"));
        r.push(int_row("Major segs", "major_segments", 24, 3, 256));
        r.push(int_row("Minor segs", "minor_segments", 12, 3, 256));
    } else if str_eq(k, "torus_arc") {
        r.push(scalar_row("Major", "major", "0.5", "0.02"));
        r.push(scalar_row("Minor", "minor", "0.15", "0.02"));
        r.push(scalar_row("Arc°", "arc", "90.0", "1.0"));
    } else if str_eq(k, "pyramid") {
        r.push(scalar_row("Radius", "radius", "0.5", "0.02"));
        r.push(scalar_row("Height", "height", "1.0", "0.02"));
        r.push(int_row("Sides", "sides", 4, 3, 64));
    } else if str_eq(k, "disc") {
        r.push(scalar_row("Radius", "radius", "0.5", "0.02"));
        r.push(int_row("Segments", "segments", 24, 3, 256));
    } else if str_eq(k, "tube") {
        r.push(scalar_row("Outer", "outer", "0.5", "0.02"));
        r.push(scalar_row("Inner", "inner", "0.3", "0.02"));
        r.push(scalar_row("Height", "height", "1.0", "0.02"));
        r.push(int_row("Segments", "segments", 24, 3, 256));
    } else if str_eq(k, "coil") {
        r.push(scalar_row("Radius", "radius", "0.5", "0.02"));
        r.push(scalar_row("Height", "height", "1.0", "0.02"));
        r.push(scalar_row("Turns", "turns", "3.0", "0.1"));
        r.push(scalar_row("Profile r", "profile_radius", "0.05", "0.005"));
    } else if str_eq(k, "frustum") {
        r.push(scalar_row("Height", "height", "1.0", "0.02"));
    }
    assert(r@ =~= geometry_rows(k@));
    r
}

// ---- the state of a row ----------------------------------------------------

/// What a row shows.
pub enum RowState {
    /// An expression, shown as it is and not editable.
    Locked(String),
    /// The authored number, or none for the default.
    Value(Option<String>),
    /// The authored numbers, or none for the default throughout.
    Components(Option<Vec<String>>),
}

/// What a row shows for the text of its attribute.
pub open spec fn shows_row(w: RowWidget, raw: Option<Seq<char>>, r: RowState) -> bool {
    match w {
        RowWidget::Vector { .. } => match r {
            RowState::Locked(t) => is_vec_field(raw, VecField::Locked(t)),
            RowState::Components(Some(n)) => is_vec_field(raw, VecField::Nums(n)),
            RowState::Components(None) => raw is None,
            RowState::Value(_) => false,
        },
        _ => match r {
            RowState::Locked(t) => is_field(raw, Field::Locked(t)),
            RowState::Value(Some(t)) => is_field(raw, Field::Num(t)),
            RowState::Value(None) => raw is None,
            RowState::Components(_) => false,
        },
    }
}

/// What a row shows.
pub fn row_state(row: &GeomRow, raw: &Option<String>) -> (r: RowState)
    ensures
        shows_row(row.widget, opt_view(*raw), r),
{
    match row.widget {
        RowWidget::Vector { arity: _, default: _, speed: _ } => {
            match vec_field(raw) {
                VecField::Locked(t) => RowState::Locked(t),
                VecField::Nums(n) => RowState::Components(Some(n)),
                VecField::Absent => RowState::Components(None),
            }
        },
        _ => match field(raw) {
            Field::Locked(t) => RowState::Locked(t),
            Field::Num(t) => RowState::Value(Some(t)),
            Field::Absent => RowState::Value(None),
        },
    }
}

/// The text of a list of numbers.
pub fn list_text(parts: &Vec<String>) -> (r: String)
    ensures
        r@ == "["@ + joined(views(parts@), ", "@) + "]"@,
{
    let all = join(parts, ", ");
    cat3("[", all.as_str(), "]")
}

/// The text of three numbers.
pub fn triple_text(x: &str, y: &str, z: &str) -> (r: String)
    ensures
        r@ == "["@ + x@ + ", "@ + y@ + ", "@ + z@ + "]"@,
{
    let mut r = cat3("[", x, ", ");
    r.append(y);
    r.append(", ");
    r.append(z);
    r.append("]");
    r
}

/// The text of a yes-or-no attribute.
pub fn flag_text(on: bool) -> (r: &'static str)
    ensures
        r@ == if on {
            "1"@
        } else {
            "0"@
        },
{
    if on {
        "1"
    } else {
        "0"
    }
}

/// A word as a string literal of the source.
pub fn quoted(word: &str) -> (r: String)
    ensures
        r@ == "\""@ + word@ + "\""@,
{
    cat3("\"", word, "\"")
}

// ---- rows from a schema ----------------------------------------------------

/// For each parameter of a schema, whether a header goes in front of it: where
/// its group differs from that of the parameter before it (group zero at the
/// start) and the group has a header.
pub fn schema_headers(groups: &Vec<usize>, titled: &Vec<bool>) -> (r: Vec<bool>)
    requires
        groups@.len() == titled@.len(),
    ensures
        r@.len() == groups@.len(),
        forall|i: int|
            0 <= i < r@.len() ==> #[trigger] r@[i] == (titled@[i] && groups@[i] != if i == 0 {
                0
            } else {
                groups@[i - 1]
            }),
{
    let mut r: Vec<bool> = Vec::new();
    let mut current: usize = 0;
    let mut i: usize = 0;
    while i < groups.len()
        invariant
            i <= groups@.len(),
            groups@.len() == titled@.len(),
            current == if i == 0 {
                0
            } else {
                groups@[i - 1]
            },
            r@.len() == i,
            forall|k: int|
                0 <= k < i ==> #[trigger] r@[k] == (titled@[k] && groups@[k] != if k == 0 {
                    0
                } else {
                    groups@[k - 1]
                }),
        decreases groups.len() - i,
    {
        r.push(groups[i] != current && titled[i]);
        current = groups[i];
        i = i + 1;
    }
    r
}

/// The word that a choice shows: the authored one, or the default.
pub open spec fn shown_choice(raw: Option<Seq<char>>, fallback: Seq<char>) -> Seq<char> {
    match word_in(raw) {
        Some(w) => w,
        None => fallback,
    }
}

/// The word that a choice shows.
pub fn current_choice(raw: &Option<String>, fallback: &str) -> (r: String)
    ensures
        r@ == shown_choice(opt_view(*raw), fallback@),
{
    match read_str(raw) {
        Some(w) => w,
        None => fallback.to_owned(),
    }
}

/// What picking an option of a choice writes: the option as a string literal,
/// or nothing when it is the one shown already.
pub fn pick_choice(raw: &Option<String>, fallback: &str, option: &str) -> (r: Option<String>)
    ensures
        opt_view(r) == if shown_choice(opt_view(*raw), fallback@) == option@ {
            None
        } else {
            Some("\""@ + option@ + "\""@)
        },
{
    let shown = current_choice(raw, fallback);
    if str_eq(shown.as_str(), option) {
        None
    } else {
        Some(quoted(option))
    }
}

// ---- laws ------------------------------------------------------------------

/// The labels of rows and the attributes that they write.
pub open spec fn named(rows: Seq<GeomRow>) -> Seq<(&'static str, &'static str)> {
    rows.map_values(|r: GeomRow| (r.label, r.attr))
}

proof fn lemma_kinds_apart()
    ensures
        "cylinder"@.len() == 8,
        "cone"@.len() == 4,
        "half_cylinder"@.len() == 13,
        "sphere"@.len() == 6,
        "hemisphere"@.len() == 10,
        "icosphere"@.len() == 9,
        "capsule"@.len() == 7,
        "torus"@.len() == 5,
        "torus_arc"@.len() == 9,
        "pyramid"@.len() == 7,
        "disc"@.len() == 4,
        "tube"@.len() == 4,
        "coil"@.len() == 4,
        "frustum"@.len() == 7,
        "box"@.len() == 3,
        "slab"@.len() == 4,
        "post"@.len() == 4,
        "panel"@.len() == 5,
        "wedge"@.len() == 5,
        "wall"@.len() == 4,
        "prism"@.len() == 5,
        "plane"@.len() == 5,
        "quad"@.len() == 4,
        "leaf_card"@.len() == 9,
        "curved_plane"@.len() == 12,
        "decal"@.len() == 5,
        "rounded_box"@.len() == 11,
        "chamfered_box"@.len() == 13,
        "inset_box"@.len() == 9,
        "superellipsoid"@.len() == 14,
        "ellipsoid"@.len() == 9,
        "cone"@ != "disc"@,
        "cone"@ != "tube"@,
        "cone"@ != "coil"@,
        "cone"@ != "slab"@,
        "cone"@ != "post"@,
        "cone"@ != "wall"@,
        "cone"@ != "quad"@,
        "half_cylinder"@ != "chamfered_box"@,
        "icosphere"@ != "torus_arc"@,
        "icosphere"@ != "leaf_card"@,
        "icosphere"@ != "inset_box"@,
        "icosphere"@ != "ellipsoid"@,
        "capsule"@ != "pyramid"@,
        "capsule"@ != "frustum"@,
        "torus"@ != "panel"@,
        "torus"@ != "wedge"@,
        "torus"@ != "prism"@,
        "torus"@ != "plane"@,
        "torus"@ != "decal"@,
        "torus_arc"@ != "leaf_card"@,
        "torus_arc"@ != "inset_box"@,
        "torus_arc"@ != "ellipsoid"@,
        "pyramid"@ != "frustum"@,
        "disc"@ != "tube"@,
        "disc"@ != "coil"@,
        "disc"@ != "slab"@,
        "disc"@ != "post"@,
        "disc"@ != "wall"@,
        "disc"@ != "quad"@,
        "tube"@ != "coil"@,
        "tube"@ != "slab"@,
        "tube"@ != "post"@,
        "tube"@ != "wall"@,
        "tube"@ != "quad"@,
        "coil"@ != "slab"@,
        "coil"@ != "post"@,
        "coil"@ != "wall"@,
        "coil"@ != "quad"@,
        "slab"@ != "post"@,
        "slab"@ != "wall"@,
        "slab"@ != "quad"@,
        "post"@ != "wall"@,
        "post"@ != "quad"@,
        "panel"@ != "wedge"@,
        "panel"@ != "prism"@,
        "panel"@ != "plane"@,
        "panel"@ != "decal"@,
        "wedge"@ != "prism"@,
        "wedge"@ != "plane"@,
        "wedge"@ != "decal"@,
        "wall"@ != "quad"@,
        "prism"@ != "plane"@,
        "prism"@ != "decal"@,
        "plane"@ != "decal"@,
        "leaf_card"@ != "inset_box"@,
        "leaf_card"@ != "ellipsoid"@,
        "inset_box"@ != "ellipsoid"@,
{
    reveal_strlit("cylinder");
    reveal_strlit("cone");
    reveal_strlit("half_cylinder");
    reveal_strlit("sphere");
    reveal_strlit("hemisphere");
    reveal_strlit("icosphere");
    reveal_strlit("capsule");
    reveal_strlit("torus");
    reveal_strlit("torus_arc");
    reveal_strlit("pyramid");
    reveal_strlit("disc");
    reveal_strlit("tube");
    reveal_strlit("coil");
    reveal_strlit("frustum");
    reveal_strlit("box");
    reveal_strlit("slab");
    reveal_strlit("post");
    reveal_strlit("panel");
    reveal_strlit("wedge");
    reveal_strlit("wall");
    reveal_strlit("prism");
    reveal_strlit("plane");
    reveal_strlit("quad");
    reveal_strlit("leaf_card");
    reveal_strlit("curved_plane");
    reveal_strlit("decal");
    reveal_strlit("rounded_box");
    reveal_strlit("chamfered_box");
    reveal_strlit("inset_box");
    reveal_strlit("superellipsoid");
    reveal_strlit("ellipsoid");
    assert("cone"@[0] != "disc"@[0]);
    assert("cone"@[0] != "tube"@[0]);
    assert("cone"@[2] != "coil"@[2]);
    assert("cone"@[0] != "slab"@[0]);
    assert("cone"@[0] != "post"@[0]);
    assert("cone"@[0] != "wall"@[0]);
    assert("cone"@[0] != "quad"@[0]);
    assert("half_cylinder"@[0] != "chamfered_box"@[0]);
    assert("icosphere"@[0] != "torus_arc"@[0]);
    assert("icosphere"@[0] != "leaf_card"@[0]);
    assert("icosphere"@[1] != "inset_box"@[1]);
    assert("icosphere"@[0] != "ellipsoid"@[0]);
    assert("capsule"@[0] != "pyramid"@[0]);
    assert("capsule"@[0] != "frustum"@[0]);
    assert("torus"@[0] != "panel"@[0]);
    assert("torus"@[0] != "wedge"@[0]);
    assert("torus"@[0] != "prism"@[0]);
    assert("torus"@[0] != "plane"@[0]);
    assert("torus"@[0] != "decal"@[0]);
    assert("torus_arc"@[0] != "leaf_card"@[0]);
    assert("torus_arc"@[0] != "inset_box"@[0]);
    assert("torus_arc"@[0] != "ellipsoid"@[0]);
    assert("pyramid"@[0] != "frustum"@[0]);
    assert("disc"@[0] != "tube"@[0]);
    assert("disc"@[0] != "coil"@[0]);
    assert("disc"@[0] != "slab"@[0]);
    assert("disc"@[0] != "post"@[0]);
    assert("disc"@[0] != "wall"@[0]);
    assert("disc"@[0] != "quad"@[0]);
    assert("tube"@[0] != "coil"@[0]);
    assert("tube"@[0] != "slab"@[0]);
    assert("tube"@[0] != "post"@[0]);
    assert("tube"@[0] != "wall"@[0]);
    assert("tube"@[0] != "quad"@[0]);
    assert("coil"@[0] != "slab"@[0]);
    assert("coil"@[0] != "post"@[0]);
    assert("coil"@[0] != "wall"@[0]);
    assert("coil"@[0] != "quad"@[0]);
    assert("slab"@[0] != "post"@[0]);
    assert("slab"@[0] != "wall"@[0]);
    assert("slab"@[0] != "quad"@[0]);
    assert("post"@[0] != "wall"@[0]);
    assert("post"@[0] != "quad"@[0]);
    assert("panel"@[0] != "wedge"@[0]);
    assert("panel"@[1] != "prism"@[1]);
    assert("panel"@[1] != "plane"@[1]);
    assert("panel"@[0] != "decal"@[0]);
    assert("wedge"@[0] != "prism"@[0]);
    assert("wedge"@[0] != "plane"@[0]);
    assert("wedge"@[0] != "decal"@[0]);
    assert("wall"@[0] != "quad"@[0]);
    assert("prism"@[1] != "plane"@[1]);
    assert("prism"@[0] != "decal"@[0]);
    assert("plane"@[0] != "decal"@[0]);
    assert("leaf_card"@[0] != "inset_box"@[0]);
    assert("leaf_card"@[0] != "ellipsoid"@[0]);
    assert("inset_box"@[0] != "ellipsoid"@[0]);
}

/// Every kind is edited by the numbers that make its shape, each row under the
/// attribute that its label tells, and kinds without such numbers have no row.
#[verifier::rlimit(60)]
pub proof fn law_rows_are_those_of_the_shape(k: &str, r: Vec<GeomRow>)
    requires
        call_ensures(geom_params_for_kind, (k,), r),
    ensures
        (k@ == "cylinder"@ || k@ == "cone"@ || k@ == "half_cylinder"@) ==> named(r@) == seq![("Radius", "radius"), ("Height", "height"), ("Segments", "segments")],
        (k@ == "sphere"@ || k@ == "hemisphere"@) ==> named(r@) == seq![("Radius", "radius"), ("Rings", "rings"), ("Segments", "segments")],
        (k@ == "icosphere"@) ==> named(r@) == seq![("Radius", "radius"), ("Subdivisions", "subdivisions")],
        (k@ == "capsule"@) ==> named(r@) == seq![("Radius", "radius"), ("Height", "height"), ("Rings", "rings"), ("Segments", "segments")],
        (k@ == "torus"@) ==> named(r@) == seq![("Major", "major"), ("Minor", "minor"), ("Major segs", "major_segments"), ("Minor segs", "minor_segments")],
        (k@ == "torus_arc"@) ==> named(r@) == seq![("Major", "major"), ("Minor", "minor"), ("Arc°", "arc")],
        (k@ == "pyramid"@) ==> named(r@) == seq![("Radius", "radius"), ("Height", "height"), ("Sides", "sides")],
        (k@ == "disc"@) ==> named(r@) == seq![("Radius", "radius"), ("Segments", "segments")],
        (k@ == "tube"@) ==> named(r@) == seq![("Outer", "outer"), ("Inner", "inner"), ("Height", "height"), ("Segments", "segments")],
        (k@ == "coil"@) ==> named(r@) == seq![("Radius", "radius"), ("Height", "height"), ("Turns", "turns"), ("Profile r", "profile_radius")],
        (k@ == "frustum"@) ==> named(r@) == seq![("Height", "height")],
        (k@ == "box"@ || k@ == "slab"@ || k@ == "post"@ || k@ == "panel"@ || k@ == "wedge"@ || k@ == "wall"@ || k@ == "prism"@ || k@ == "plane"@ || k@ == "quad"@ || k@ == "leaf_card"@ || k@ == "curved_plane"@) ==> named(r@) == seq![("Size", "size")],
        (k@ == "decal"@) ==> named(r@) == seq![("Size", "size"), ("Offset", "offset")],
        (k@ == "rounded_box"@) ==> named(r@) == seq![("Size", "size"), ("Radius", "radius"), ("Segments", "segments")],
        (k@ == "chamfered_box"@) ==> named(r@) == seq![("Size", "size"), ("Radius", "radius")],
        (k@ == "inset_box"@) ==> named(r@) == seq![("Size", "size"), ("Amount", "amount"), ("Depth", "depth")],
        (k@ == "superellipsoid"@) ==> named(r@) == seq![("Size", "size"), ("Equator", "ew"), ("Meridian", "ns"), ("Rings", "rings"), ("Segments", "segments")],
        (k@ == "ellipsoid"@) ==> named(r@) == seq![("Size", "size"), ("Rings", "rings"), ("Segments", "segments")],
        (k@ != "cylinder"@ && k@ != "cone"@ && k@ != "half_cylinder"@ && k@ != "sphere"@ && k@ != "hemisphere"@ && k@ != "icosphere"@ && k@ != "capsule"@ && k@ != "torus"@ && k@ != "torus_arc"@ && k@ != "pyramid"@ && k@ != "disc"@ && k@ != "tube"@ && k@ != "coil"@ && k@ != "frustum"@ && k@ != "box"@ && k@ != "slab"@ && k@ != "post"@ && k@ != "panel"@ && k@ != "wedge"@ && k@ != "wall"@ && k@ != "prism"@ && k@ != "plane"@ && k@ != "quad"@ && k@ != "leaf_card"@ && k@ != "curved_plane"@ && k@ != "decal"@ && k@ != "rounded_box"@ && k@ != "chamfered_box"@ && k@ != "inset_box"@ && k@ != "superellipsoid"@ && k@ != "ellipsoid"@) ==> r@.len() == 0,
{
    lemma_kinds_apart();
    if k@ == "cylinder"@ || k@ == "cone"@ || k@ == "half_cylinder"@ {
        assert(named(r@) =~= seq![("Radius", "radius"), ("Height", "height"), ("Segments", "segments")]);
    }
    if k@ == "sphere"@ || k@ == "hemisphere"@ {
        assert(named(r@) =~= seq![("Radius", "radius"), ("Rings", "rings"), ("Segments", "segments")]);
    }
    if k@ == "icosphere"@ {
        assert(named(r@) =~= seq![("Radius", "radius"), ("Subdivisions", "subdivisions")]);
    }
    if k@ == "capsule"@ {
        assert(named(r@) =~= seq![("Radius", "radius"), ("Height", "height"), ("Rings", "rings"), ("Segments", "segments")]);
    }
    if k@ == "torus"@ {
        assert(named(r@) =~= seq![("Major", "major"), ("Minor", "minor"), ("Major segs", "major_segments"), ("Minor segs", "minor_segments")]);
    }
    if k@ == "torus_arc"@ {
        assert(named(r@) =~= seq![("Major", "major"), ("Minor", "minor"), ("Arc°", "arc")]);
    }
    if k@ == "pyramid"@ {
        assert(named(r@) =~= seq![("Radius", "radius"), ("Height", "height"), ("Sides", "sides")]);
    }
    if k@ == "disc"@ {
        assert(named(r@) =~= seq![("Radius", "radius"), ("Segments", "segments")]);
    }
    if k@ == "tube"@ {
        assert(named(r@) =~= seq![("Outer", "outer"), ("Inner", "inner"), ("Height", "height"), ("Segments", "segments")]);
    }
    if k@ == "coil"@ {
        assert(named(r@) =~= seq![("Radius", "radius"), ("Height", "height"), ("Turns", "turns"), ("Profile r", "profile_radius")]);
    }
    if k@ == "frustum"@ {
        assert(named(r@) =~= seq![("Height", "height")]);
    }
    if k@ == "box"@ || k@ == "slab"@ || k@ == "post"@ || k@ == "panel"@ || k@ == "wedge"@ || k@ == "wall"@ || k@ == "prism"@ || k@ == "plane"@ || k@ == "quad"@ || k@ == "leaf_card"@ || k@ == "curved_plane"@ {
        assert(named(r@) =~= seq![("Size", "size")]);
    }
    if k@ == "decal"@ {
        assert(named(r@) =~= seq![("Size", "size"), ("Offset", "offset")]);
    }
    if k@ == "rounded_box"@ {
        assert(named(r@) =~= seq![("Size", "size"), ("Radius", "radius"), ("Segments", "segments")]);
    }
    if k@ == "chamfered_box"@ {
        assert(named(r@) =~= seq![("Size", "size"), ("Radius", "radius")]);
    }
    if k@ == "inset_box"@ {
        assert(named(r@) =~= seq![("Size", "size"), ("Amount", "amount"), ("Depth", "depth")]);
    }
    if k@ == "superellipsoid"@ {
        assert(named(r@) =~= seq![("Size", "size"), ("Equator", "ew"), ("Meridian", "ns"), ("Rings", "rings"), ("Segments", "segments")]);
    }
    if k@ == "ellipsoid"@ {
        assert(named(r@) =~= seq![("Size", "size"), ("Rings", "rings"), ("Segments", "segments")]);
    }
}

/// A size is edited in three directions for a solid, in two for a flat shape.
pub proof fn law_sizes_have_their_directions(k: &str, r: Vec<GeomRow>)
    requires
        call_ensures(geom_params_for_kind, (k,), r),
        r@.len() > 0,
        r@[0].attr@ == "size"@,
    ensures
        r@[0].widget matches RowWidget::Vector { arity, .. } && (arity == 2 <==> (k@ == "plane"@ || k@
            == "quad"@ || k@ == "decal"@ || k@ == "leaf_card"@ || k@ == "curved_plane"@)) && (arity
            == 2 || arity == 3),
{
    lemma_kinds_apart();
    reveal_strlit("size");
    reveal_strlit("radius");
    reveal_strlit("height");
    reveal_strlit("major");
    reveal_strlit("outer");
    assert("size"@[0] == 's' && "radius"@[0] == 'r' && "height"@[0] == 'h' && "major"@[0] == 'm'
        && "outer"@[0] == 'o');
}

/// A list of numbers is written in brackets, every number in order.
pub proof fn law_lists_hold_every_number(parts: &Vec<String>, r: String)
    requires
        call_ensures(list_text, (parts,), r),
    ensures
        parts@.len() == 0 ==> r@ == "["@ + "]"@,
        parts@.len() == 1 ==> r@ == "["@ + parts@[0]@ + "]"@,
        parts@.len() == 2 ==> r@ == "["@ + (parts@[0]@ + ", "@ + parts@[1]@) + "]"@,
        parts@.len() == 3 ==> r@ == "["@ + (parts@[0]@ + ", "@ + parts@[1]@ + ", "@ + parts@[2]@)
            + "]"@,
{
    let v = views(parts@);
    reveal_with_fuel(joined, 4);
    if parts@.len() == 0 {
        assert(r@ =~= "["@ + "]"@);
    } else if parts@.len() <= 3 {
        assert(forall|i: int| 0 <= i < parts@.len() ==> #[trigger] v[i] == parts@[i]@);
    }
}

/// Picking an option that is not shown writes it in quotes, and picking the
/// one that is shown writes nothing.
pub proof fn law_picked_option_is_written(
    raw: &Option<String>,
    fallback: &str,
    option: &str,
    r: Option<String>,
    shown: String,
)
    requires
        call_ensures(pick_choice, (raw, fallback, option), r),
        call_ensures(current_choice, (raw, fallback), shown),
    ensures
        r is None <==> shown@ == option@,
        r matches Some(t) ==> t@ == "\""@ + option@ + "\""@,
        *raw is None ==> shown@ == fallback@,
{
}

/// A group has its title above its first row, and nowhere else.
pub proof fn law_titles_stand_above_their_group(
    groups: &Vec<usize>,
    titled: &Vec<bool>,
    r: Vec<bool>,
    i: int,
)
    requires
        call_ensures(schema_headers, (groups, titled), r),
        groups@.len() == titled@.len(),
        0 <= i < groups@.len(),
    ensures
        r@.len() == groups@.len(),
        !titled@[i] ==> !r@[i],
        i > 0 && groups@[i - 1] == groups@[i] ==> !r@[i],
        i == 0 && groups@[i] == 0 ==> !r@[i],
        i > 0 && titled@[i] && groups@[i - 1] != groups@[i] ==> r@[i],
        i == 0 && titled@[i] && groups@[i] != 0 ==> r@[i],
{
}

/// A row that nothing is written for shows its default; one that is written
/// shows a number of the text, or locks the text that is no number.
pub proof fn law_rows_show_what_is_written(row: &GeomRow, raw: &Option<String>, r: RowState)
    requires
        call_ensures(row_state, (row, raw), r),
    ensures
        *raw is None <==> r == RowState::Value(None) || r == RowState::Components(None),
        row.widget is Vector <==> r is Components || (r is Locked && row.widget is Vector),
        r matches RowState::Locked(t) ==> *raw is Some && t@ == trimmed((raw->0)@),
        r matches RowState::Value(Some(t)) ==> *raw is Some && t@ == trimmed((raw->0)@),
{
}

/// A list of three numbers is written in brackets, in their order.
pub proof fn law_triples_are_written_in_order(x: &str, y: &str, z: &str, r: String)
    requires
        call_ensures(triple_text, (x, y, z), r),
    ensures
        r@ == seq!['['] + x@ + seq![',', ' '] + y@ + seq![',', ' '] + z@ + seq![']'],
{
    reveal_strlit("[");
    reveal_strlit(", ");
    reveal_strlit("]");
    assert("["@ =~= seq!['[']);
    assert(", "@ =~= seq![',', ' ']);
    assert("]"@ =~= seq![']']);
}

/// A switch is written as one or zero.
pub proof fn law_flags_are_one_or_zero(on: bool, r: &'static str)
    requires
        call_ensures(flag_text, (on,), r),
    ensures
        on ==> r@ == "1"@,
        !on ==> r@ == "0"@,
{
}

/// The round shapes and those drawn along an axis start at their defaults, and
/// their counts keep within their limits.
#[verifier::rlimit(60)]
pub proof fn law_round_shapes_start_at_their_defaults(k: &str, r: Vec<GeomRow>)
    requires
        call_ensures(geom_params_for_kind, (k,), r),
    ensures
        (k@ == "cylinder"@ || k@ == "cone"@ || k@ == "half_cylinder"@) ==> {
            &&& r@.len() == 3
            &&& r@[0].widget == (RowWidget::Scalar { default: "0.5", speed: "0.02" })
            &&& r@[1].widget == (RowWidget::Scalar { default: "1.0", speed: "0.02" })
            &&& r@[2].widget == (RowWidget::Int { default: 24, min: 3, max: 256 })
        },
        k@ == "sphere"@ ==> {
            &&& r@.len() == 3
            &&& r@[0].widget == (RowWidget::Scalar { default: "0.5", speed: "0.02" })
            &&& r@[1].widget == (RowWidget::Int { default: 16, min: 2, max: 256 })
            &&& r@[2].widget == (RowWidget::Int { default: 24, min: 3, max: 256 })
        },
        k@ == "hemisphere"@ ==> {
            &&& r@.len() == 3
            &&& r@[0].widget == (RowWidget::Scalar { default: "0.5", speed: "0.02" })
            &&& r@[1].widget == (RowWidget::Int { default: 8, min: 2, max: 256 })
            &&& r@[2].widget == (RowWidget::Int { default: 24, min: 3, max: 256 })
        },
        k@ == "icosphere"@ ==> {
            &&& r@.len() == 2
            &&& r@[0].widget == (RowWidget::Scalar { default: "0.5", speed: "0.02" })
            &&& r@[1].widget == (RowWidget::Int { default: 2, min: 0, max: 6 })
        },
        k@ == "capsule"@ ==> {
            &&& r@.len() == 4
            &&& r@[0].widget == (RowWidget::Scalar { default: "0.5", speed: "0.02" })
            &&& r@[1].widget == (RowWidget::Scalar { default: "1.0", speed: "0.02" })
            &&& r@[2].widget == (RowWidget::Int { default: 8, min: 2, max: 64 })
            &&& r@[3].widget == (RowWidget::Int { default: 24, min: 3, max: 256 })
        },
        k@ == "torus"@ ==> {
            &&& r@.len() == 4
            &&& r@[0].widget == (RowWidget::Scalar { default: "0.5", speed: "0.02" })
            &&& r@[1].widget == (RowWidget::Scalar { default: "0.15", speed: "0.02" })
            &&& r@[2].widget == (RowWidget::Int { default: 24, min: 3, max: 256 })
            &&& r@[3].widget == (RowWidget::Int { default: 12, min: 3, max: 256 })
        },
        k@ == "torus_arc"@ ==> {
            &&& r@.len() == 3
            &&& r@[0].widget == (RowWidget::Scalar { default: "0.5", speed: "0.02" })
            &&& r@[1].widget == (RowWidget::Scalar { default: "0.15", speed: "0.02" })
            &&& r@[2].widget == (RowWidget::Scalar { default: "90.0", speed: "1.0" })
        },
        k@ == "pyramid"@ ==> {
            &&& r@.len() == 3
            &&& r@[0].widget == (RowWidget::Scalar { default: "0.5", speed: "0.02" })
            &&& r@[1].widget == (RowWidget::Scalar { default: "1.0", speed: "0.02" })
            &&& r@[2].widget == (RowWidget::Int { default: 4, min: 3, max: 64 })
        },
        k@ == "disc"@ ==> {
            &&& r@.len() == 2
            &&& r@[0].widget == (RowWidget::Scalar { default: "0.5", speed: "0.02" })
            &&& r@[1].widget == (RowWidget::Int { default: 24, min: 3, max: 256 })
        },
        k@ == "tube"@ ==> {
            &&& r@.len() == 4
            &&& r@[0].widget == (RowWidget::Scalar { default: "0.5", speed: "0.02" })
            &&& r@[1].widget == (RowWidget::Scalar { default: "0.3", speed: "0.02" })
            &&& r@[2].widget == (RowWidget::Scalar { default: "1.0", speed: "0.02" })
            &&& r@[3].widget == (RowWidget::Int { default: 24, min: 3, max: 256 })
        },
        k@ == "coil"@ ==> {
            &&& r@.len() == 4
            &&& r@[0].widget == (RowWidget::Scalar { default: "0.5", speed: "0.02" })
            &&& r@[1].widget == (RowWidget::Scalar { default: "1.0", speed: "0.02" })
            &&& r@[2].widget == (RowWidget::Scalar { default: "3.0", speed: "0.1" })
            &&& r@[3].widget == (RowWidget::Scalar { default: "0.05", speed: "0.005" })
        },
        k@ == "frustum"@ ==> {
            &&& r@.len() == 1
            &&& r@[0].widget == (RowWidget::Scalar { default: "1.0", speed: "0.02" })
        },
{
    lemma_kinds_apart();
}

/// The boxes and the flat shapes start at one in every direction, and what
/// they have beside their size at its defaults.
#[verifier::rlimit(60)]
pub proof fn law_boxes_start_at_their_defaults(k: &str, r: Vec<GeomRow>)
    requires
        call_ensures(geom_params_for_kind, (k,), r),
    ensures
        (k@ == "box"@ || k@ == "slab"@ || k@ == "post"@ || k@ == "panel"@ || k@ == "wedge"@ || k@ == "wall"@
            || k@ == "prism"@ || k@ == "rounded_box"@ || k@ == "chamfered_box"@ || k@ == "inset_box"@
            || k@ == "superellipsoid"@ || k@ == "ellipsoid"@) ==> r@.len() > 0 && r@[0].widget == (RowWidget::Vector {
            arity: 3,
            default: "1.0",
            speed: "0.02",
        }),
        (k@ == "plane"@ || k@ == "quad"@ || k@ == "leaf_card"@ || k@ == "curved_plane"@ || k@ == "decal"@) ==> r@.len() > 0 && r@[0].widget == (RowWidget::Vector {
            arity: 2,
            default: "1.0",
            speed: "0.05",
        }),
        k@ == "decal"@ ==> r@.len() == 2 && r@[1].widget == (RowWidget::Scalar {
            default: "0.001",
            speed: "0.0005",
        }),
        k@ == "rounded_box"@ ==> {
            &&& r@.len() == 3
            &&& r@[1].widget == (RowWidget::Scalar { default: "0.1", speed: "0.005" })
            &&& r@[2].widget == (RowWidget::Int { default: 4, min: 1, max: 32 })
        },
        k@ == "chamfered_box"@ ==> {
            &&& r@.len() == 2
            &&& r@[1].widget == (RowWidget::Scalar { default: "0.1", speed: "0.005" })
        },
        k@ == "inset_box"@ ==> {
            &&& r@.len() == 3
            &&& r@[1].widget == (RowWidget::Scalar { default: "0.1", speed: "0.005" })
            &&& r@[2].widget == (RowWidget::Scalar { default: "0.05", speed: "0.005" })
        },
        k@ == "superellipsoid"@ ==> {
            &&& r@.len() == 5
            &&& r@[1].widget == (RowWidget::Scalar { default: "1.0", speed: "0.05" })
            &&& r@[2].widget == (RowWidget::Scalar { default: "1.0", speed: "0.05" })
            &&& r@[3].widget == (RowWidget::Int { default: 16, min: 2, max: 256 })
            &&& r@[4].widget == (RowWidget::Int { default: 24, min: 3, max: 256 })
        },
        k@ == "ellipsoid"@ ==> {
            &&& r@.len() == 3
            &&& r@[1].widget == (RowWidget::Int { default: 16, min: 2, max: 256 })
            &&& r@[2].widget == (RowWidget::Int { default: 24, min: 3, max: 256 })
        },
{
    lemma_kinds_apart();
}

} // verus!
