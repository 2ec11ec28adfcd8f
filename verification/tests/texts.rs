//! Texts, paths, names and rewriting.

use mogen_studio::ids::IdSet;
use mogen_studio::naming::{
    largest_declared, next_material_name, next_proc_clip_name, parse_number,
};
use mogen_studio::paths::{folder_of, guess_image_mime, mime_for_extension, picture_extension};
use mogen_studio::rewrite::{
    rewrite_material_decl_name, rewrite_node_kind, rewrite_node_name_literal,
};
use mogen_studio::span::Span;
use mogen_studio::text::{
    decimal, decimal_wide, is_blank, join, replace_all, split, str_eq, strip_back,
    strip_front, strip_prefix, trim, trim_start,
};

fn sp(start: usize, end: usize) -> Span {
    Span { start, end }
}

#[test]
fn numbers_in_decimal() {
    assert_eq!(decimal(0), "0");
    assert_eq!(decimal(1907), "1907");
    assert_eq!(decimal_wide(u128::MAX), u128::MAX.to_string());
    for text in ["0", "007", "+5", "-5", "4294967295", "4294967296", "", "+", "1 ", "١"] {
        assert_eq!(parse_number(text), text.parse::<u32>().ok(), "{text}");
    }
}

#[test]
fn strings_as_in_the_standard_library() {
    for s in ["", " ", " a ", "\u{a0}x\u{2003}", "\t\r\nword\u{85}", "é", "\u{200b}z"] {
        assert_eq!(trim(s), s.trim());
        assert_eq!(trim_start(s), s.trim_start());
        assert_eq!(is_blank(s), s.trim().is_empty());
    }
    for (s, from, to) in [
        ("aaa", "aa", "b"),
        ("abcabc", "bc", ""),
        ("none", "x", "y"),
        ("", "x", "y"),
        ("xx", "x", "xx"),
    ] {
        assert_eq!(replace_all(s, from, to), s.replace(from, to));
    }
    for s in ["", ",", "a,b,,c", "a"] {
        let expected: Vec<&str> = s.split(',').collect();
        assert_eq!(split(s, ','), expected);
    }
    assert_eq!(join(&vec!["a".to_string(), "b".to_string()], ", "), "a, b");
    assert_eq!(strip_front("[[x]", '['), "x]");
    assert_eq!(strip_back("1.500", '0'), "1.5");
    assert_eq!(strip_prefix("material x", "material "), Some("x"));
    assert_eq!(strip_prefix("mat", "material "), None);
    assert!(str_eq("é", "é") && !str_eq("a", "ab"));
}

#[test]
fn sets_of_names() {
    let mut s = IdSet::new();
    assert!(s.is_empty());
    assert!(s.insert("a".to_string()));
    assert!(!s.insert("a".to_string()));
    assert!(s.contains("a") && s.len() == 1);
    assert!(s.remove("a"));
    assert!(!s.remove("a"));
    s.insert("b".to_string());
    s.clear();
    assert!(s.is_empty());
}

#[test]
fn kinds_of_pictures() {
    assert_eq!(guess_image_mime("/a/b.JPG"), "image/jpeg");
    assert_eq!(guess_image_mime("/a/b.jpeg"), "image/jpeg");
    assert_eq!(guess_image_mime("b.webp"), "image/webp");
    assert_eq!(guess_image_mime("b.png"), "image/png");
    assert_eq!(guess_image_mime("b"), "image/png");
    assert_eq!(guess_image_mime("/a.jpg/b"), "image/png");
    assert_eq!(mime_for_extension(&None), "image/png");
    assert_eq!(picture_extension(&Some("JPEG".to_string())), "jpeg");
    assert_eq!(picture_extension(&Some("gif".to_string())), "png");
}

#[test]
fn names_in_use() {
    let src = "wave \"wave_3\" (x)\n  wave   \"wave_12\" (y)\nspin \"wave_99\" (z)\nwave \"wave_x\"";
    assert_eq!(largest_declared(src, "wave"), 12);
    assert_eq!(next_proc_clip_name(src, "wave"), "wave_13");
    assert_eq!(next_proc_clip_name(src, "idle"), "idle_1");
    let line = "scene { wave \"wave_7\" (x) microwave \"wave_30\" wave\"wave_40\" }";
    assert_eq!(largest_declared(line, "wave"), 7);
    assert_eq!(largest_declared("a wave\n\t\"wave_5\"", "wave"), 5);
    assert_eq!(largest_declared("wave \"wave_4294967296\" wave \"wave_2", "wave"), 0);
    assert_eq!(
        next_proc_clip_name("material \"material_2\" ()", "material"),
        next_material_name("material \"material_2\" ()")
    );
}

#[test]
fn adding_again_and_again_counts_up() {
    let mut src = "scene { spin \"spin_2\" (target=\"a\") }".to_string();
    for n in 3..8 {
        let name = next_proc_clip_name(&src, "spin");
        assert_eq!(name, format!("spin_{n}"));
        assert!(!src.contains(&format!("\"{name}\"")));
        src = format!("{src}\nspin \"{name}\" ()");
    }
}

#[test]
fn folders() {
    let file = |p: &str| Some(p.to_string());
    assert_eq!(folder_of(&file("/p/a.mog")).as_deref(), Some("/p"));
    assert_eq!(folder_of(&file("a.mog")).as_deref(), Some(""));
    assert_eq!(folder_of(&file("/a.mog")).as_deref(), Some("/"));
    assert_eq!(folder_of(&file("./a.mog")).as_deref(), Some("."));
    assert_eq!(folder_of(&file("../a.mog")).as_deref(), Some(".."));
    assert_eq!(folder_of(&file("../../a.mog")).as_deref(), Some("../.."));
    assert_eq!(folder_of(&file("/p/../a.mog")).as_deref(), Some("/p/.."));
    assert_eq!(folder_of(&file("/p/..")).as_deref(), Some("/p"));
    assert_eq!(folder_of(&file("./..")).as_deref(), Some("."));
    assert_eq!(folder_of(&file("..")).as_deref(), Some(""));
    assert_eq!(folder_of(&file(".")).as_deref(), Some(""));
    assert_eq!(folder_of(&file("/p/q/")).as_deref(), Some("/p"));
    assert_eq!(folder_of(&file("../")).as_deref(), Some(""));
    assert_eq!(folder_of(&file("./")).as_deref(), Some(""));
    assert_eq!(folder_of(&file("./a/")).as_deref(), Some("."));
    assert_eq!(folder_of(&file("/")), None);
    assert_eq!(folder_of(&file("")), None);
    assert_eq!(folder_of(&None), None);
}

#[test]
fn renaming_in_place() {
    let src = "box \"é\" (x) box \"b\"";
    assert_eq!(rewrite_node_name_literal(src, sp(0, 8), "new"), "box \"new\" (x) box \"b\"");
    assert_eq!(rewrite_node_name_literal(src, sp(8, 999), "c"), "box \"é\" (x) box \"c\"");
    assert_eq!(rewrite_node_name_literal(src, sp(0, 5), "c"), src);
    assert_eq!(rewrite_node_name_literal(src, sp(900, 999), "c"), src);
    let escaped = r#"box "a\"b" (x)"#;
    assert_eq!(rewrite_material_decl_name(escaped, sp(0, 14), "c"), "box \"c\" (x)");
    // Renaming twice is the same as renaming once, to the last name.
    let once = rewrite_node_name_literal("clip \"a\" ()", sp(0, 11), "longer");
    let twice = rewrite_node_name_literal(&once, sp(0, 16), "b");
    assert_eq!(twice, rewrite_node_name_literal("clip \"a\" ()", sp(0, 11), "b"));
}

#[test]
fn changing_the_keyword() {
    assert_eq!(rewrite_node_kind("  union \"u\" {}", sp(0, 14), "difference"), "  difference \"u\" {}");
    assert_eq!(rewrite_node_kind("x union {}", sp(2, 10), "intersect"), "x intersect {}");
}
