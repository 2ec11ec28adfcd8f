//! Attribute texts, rows of numbers, and what the inspector's rows show.

use mogen_studio::inspector::geometry::{
    current_choice, flag_text, geom_params_for_kind, list_text, pick_choice, quoted, row_state,
    schema_headers, triple_text, RowState,
};
use mogen_studio::literal::{
    expr_attr, field, fit_components, read_str, row_components, schema_row_components, vec_field,
    AttrText, Field, VecField,
};
use mogen_studio::span::Span;

/// The text of an attribute in the header of a declaration.
fn attr(src: &str, name: &str) -> Option<String> {
    let open = src.find('(')?;
    let body = &src[open + 1..src.rfind(')')?];
    let mut depth = 0;
    let mut parts = vec![String::new()];
    for c in body.chars() {
        match c {
            '[' | '(' => depth += 1,
            ']' | ')' => depth -= 1,
            _ => {}
        }
        if c == ',' && depth == 0 {
            parts.push(String::new());
        } else {
            parts.last_mut().unwrap().push(c);
        }
    }
    for p in parts {
        if let Some((key, value)) = p.split_once('=') {
            if key.trim() == name {
                return Some(value.to_string());
            }
        }
    }
    None
}

fn sp(src: &str) -> Option<Span> {
    Some(Span { start: 0, end: src.len() })
}

/// The attributes of the declaration at a place in the source.
fn attrs(src: &str, span: Option<Span>, names: &[&'static str]) -> Vec<AttrText> {
    names
        .iter()
        .map(|n| AttrText {
            name: *n,
            raw: span.and_then(|at| attr(&src[at.start..at.end], n)),
        })
        .collect()
}

fn numbers(v: &[String]) -> Vec<f32> {
    v.iter().map(|s| s.parse::<f32>().unwrap()).collect()
}

#[test]
fn field_absent_when_attr_missing() {
    let src = r#"sphere "s" ()"#;
    assert!(matches!(field(&attr(src, "radius")), Field::Absent));
}

#[test]
fn field_num_when_plain_literal() {
    let src = r#"sphere "s" (radius=0.5)"#;
    assert!(matches!(
        field(&attr(src, "radius")),
        Field::Num(v) if (v.parse::<f32>().unwrap() - 0.5).abs() < 1e-6
    ));
}

#[test]
fn field_locked_for_param_ref() {
    let src = r#"sphere "s" (radius=$r)"#;
    assert!(matches!(field(&attr(src, "radius")), Field::Locked(_)));
}

#[test]
fn field_locked_for_arithmetic_expr() {
    let src = r#"sphere "s" (radius=(1+0.5))"#;
    assert!(matches!(field(&attr(src, "radius")), Field::Locked(_)));
}

#[test]
fn vec_field_absent_when_missing() {
    let src = r#"box "b" ()"#;
    assert!(matches!(vec_field(&attr(src, "size")), VecField::Absent));
}

#[test]
fn vec_field_nums_for_3_component_literal() {
    let src = r#"box "b" (size=[1.0, 2.0, 3.0])"#;
    assert!(matches!(
        vec_field(&attr(src, "size")),
        VecField::Nums(n) if numbers(&n) == [1.0f32, 2.0, 3.0]
    ));
}

#[test]
fn vec_field_nums_for_scalar_shorthand() {
    let src = r#"box "b" (size=2.0)"#;
    assert!(matches!(
        vec_field(&attr(src, "size")),
        VecField::Nums(n) if numbers(&n) == [2.0f32]
    ));
}

#[test]
fn vec_field_locked_when_any_component_is_expr() {
    let src = r#"box "b" (size=[1.0, $h, 3.0])"#;
    assert!(matches!(vec_field(&attr(src, "size")), VecField::Locked(_)));
}

#[test]
fn vec_row_wrong_arity_pads_with_default() {
    let raw_nums = vec![1.0f32, 2.0];
    let arity = 3;
    let default = 99.0f32;
    let n = fit_components(&raw_nums, arity, default);
    assert_eq!(n, [1.0f32, 2.0, 99.0]);
}

#[test]
fn vec_row_wrong_arity_truncates_long_vec() {
    let raw_nums = vec![1.0f32, 2.0, 3.0, 4.0];
    let arity = 2;
    let default = 99.0f32;
    let n = fit_components(&raw_nums, arity, default);
    assert_eq!(n, [1.0f32, 2.0]);
}

#[test]
fn expr_attr_none_when_all_literals() {
    let src = r#"box "b" (pos=[1.0, 2.0, 3.0])"#;
    assert_eq!(expr_attr(&attrs(src, sp(src), &["pos"])), None);
}

#[test]
fn expr_attr_detects_param_ref_in_pos() {
    let src = r#"box "b" (pos=[0, $h, 0])"#;
    assert!(expr_attr(&attrs(src, sp(src), &["pos", "x"])).is_some());
}

#[test]
fn expr_attr_detects_arithmetic_expr_in_rot() {
    let src = r#"box "b" (rot=[0, 90/2, 0])"#;
    assert!(expr_attr(&attrs(src, sp(src), &["rot", "rx"])).is_some());
}

#[test]
fn expr_attr_none_when_span_absent() {
    // Without a place in the source no text can be read.
    let src = r#"box "b" (pos=[$x, 0, 0])"#;
    assert_eq!(expr_attr(&attrs(src, None, &["pos"])), None);
    assert!(expr_attr(&attrs(src, sp(src), &["pos"])).is_some());
}

#[test]
fn expr_attr_skips_literal_attr_and_finds_later_param() {
    let src = r#"box "b" (pos=[1, 2, 3], x=$v)"#;
    let result = expr_attr(&attrs(src, sp(src), &["pos", "x"]));
    assert!(result.is_some());
    let raw = result.unwrap();
    assert!(raw.starts_with("x="), "expected x= prefix, got {raw}");
    assert_eq!(raw, "x=$v");
}

#[test]
fn expr_attr_scalar_pos_with_param_is_locked() {
    let src = r#"post "p" (y=$shelf_h)"#;
    assert!(expr_attr(&attrs(src, sp(src), &["pos", "x", "y", "z"])).is_some());
}

#[test]
fn numbers_are_those_that_parse() {
    for text in [
        "0", "1.5", "-2", "+3", ".5", "5.", "1e3", "1E-3", "1.5e+2", "inf", "-inf", "infinity",
        "nan", "NaN", "+Inf", "", ".", "e3", "1e", "1e+", "--1", "1 2", "0x10", "1_000", "$h",
        "-", "+", "in", "infin", "1.2.3", "é",
    ] {
        let is_num = matches!(field(&Some(text.to_string())), Field::Num(_));
        assert_eq!(is_num, text.trim().parse::<f32>().is_ok(), "{text}");
    }
}

#[test]
fn texts_are_trimmed() {
    assert!(matches!(field(&Some(" 2.5\n".to_string())), Field::Num(t) if t == "2.5"));
    assert!(matches!(field(&Some("  $h ".to_string())), Field::Locked(t) if t == "$h"));
    assert_eq!(read_str(&Some(" \"wood\" ".to_string())), Some("wood".to_string()));
    assert_eq!(read_str(&None), None);
}

#[test]
fn rows_of_numbers() {
    assert_eq!(row_components(&Some(vec![2.0f32]), 3, 1.0), vec![2.0, 2.0, 2.0]);
    assert_eq!(row_components::<f32>(&None, 2, 7.0), vec![7.0, 7.0]);
    assert_eq!(
        schema_row_components(&Some(vec![1.0f32, 2.0]), &vec![5.0, 6.0, 7.0]),
        vec![1.0, 2.0, 7.0]
    );
    assert_eq!(schema_row_components(&None, &vec![5.0f32, 6.0]), vec![5.0, 6.0]);
    assert!(schema_row_components::<f32>(&None, &Vec::new()).is_empty());
    assert!(schema_row_components(&Some(vec![1.0f32, 2.0]), &Vec::new()).is_empty());
}

#[test]
fn rows_of_a_kind() {
    let labels = |k: &str| -> Vec<&'static str> {
        geom_params_for_kind(k).iter().map(|r| r.attr).collect()
    };
    assert!(labels("sphere").contains(&"radius"));
    assert_eq!(labels("frustum"), vec!["height"]);
    assert!(labels("group").is_empty());
}

#[test]
fn row_states() {
    let rows = geom_params_for_kind("frustum");
    let row = &rows[0];
    assert!(matches!(row_state(row, &None), RowState::Value(None)));
    assert!(matches!(row_state(row, &Some("2".to_string())), RowState::Value(Some(_))));
}

#[test]
fn texts_of_values() {
    assert_eq!(triple_text("1", "2", "3"), "[1, 2, 3]");
    assert_eq!(list_text(&vec!["1".to_string(), "2".to_string()]), "[1, 2]");
    assert_eq!(flag_text(true), "1");
    assert_eq!(flag_text(false), "0");
    assert_eq!(quoted("water"), "\"water\"");
}

#[test]
fn choices() {
    let raw = Some(" \"b\" ".to_string());
    assert_eq!(current_choice(&raw, "a"), "b");
    assert_eq!(current_choice(&None, "a"), "a");
    assert_eq!(pick_choice(&raw, "a", "b"), None);
    assert_eq!(pick_choice(&raw, "a", "c"), Some("\"c\"".to_string()));
}

#[test]
fn headers_of_a_schema() {
    assert_eq!(
        schema_headers(&vec![0, 1, 1, 2], &vec![true, true, true, true]),
        vec![false, true, false, true]
    );
}
