//! Texture slots, the cache of files, and thumbnails.

use mogen_studio::panels::materials::TexAction;
use mogen_studio::panels::textures::{
    all_slot_rows, can_clear, generate_button, slot_mark, slots_of, texture_click, texture_in,
    thumb_is_current, thumbnail, thumbnail_from_png, ExistsCache, Raster, TexClick, TextureSlot,
};
use mogen_studio::paths::relative_literal;

fn slot(material: &str, slot: &str, path: &str) -> TextureSlot {
    TextureSlot {
        material: material.to_string(),
        slot: slot.to_string(),
        path: path.to_string(),
    }
}

fn png(width: u32, height: u32) -> Vec<u8> {
    let mut img = image::RgbaImage::new(width, height);
    for (x, y, p) in img.enumerate_pixels_mut() {
        *p = image::Rgba([x as u8, y as u8, 7, 255]);
    }
    let mut out = std::io::Cursor::new(Vec::new());
    img.write_to(&mut out, image::ImageFormat::Png).unwrap();
    out.into_inner()
}

#[test]
fn rows_for_every_slot() {
    let rows: Vec<(&str, &str)> = all_slot_rows().iter().map(|r| (r.slot, r.attr)).collect();
    assert_eq!(
        rows,
        vec![
            ("base_color", "base_color_texture"),
            ("metallic_roughness", "metallic_roughness_texture"),
            ("normal", "normal_texture"),
            ("occlusion", "occlusion_texture"),
            ("emissive", "emissive_texture"),
        ]
    );
}

#[test]
fn slots_by_material() {
    let slots = vec![
        slot("wood", "normal", "n.png"),
        slot("iron", "base_color", "i.png"),
        slot("wood", "base_color", "a.png"),
        slot("wood", "base_color", "b.png"),
    ];
    assert_eq!(slots_of(&slots, "wood"), vec![0, 2, 3]);
    assert_eq!(slots_of(&slots, "clay"), Vec::<usize>::new());
    assert_eq!(texture_in(&slots, "wood", "base_color"), Some(2));
    assert_eq!(texture_in(&slots, "iron", "normal"), None);
    assert!(can_clear(&slots, "iron", "base_color"));
    assert!(!can_clear(&slots, "iron", "normal"));
}

#[test]
fn buttons_and_marks() {
    assert_eq!(generate_button(true).0, "Regenerate");
    assert_eq!(generate_button(false).0, "Generate");
    let (mark, tip) = slot_mark("/t/a.png", true);
    assert_eq!((mark, tip.as_str()), ("✓", "Found at /t/a.png"));
    let (mark, tip) = slot_mark("/t/a.png", false);
    assert_eq!(mark, "✗");
    assert_eq!(
        tip,
        "File not found at /t/a.png\nRegenerate or update the path attribute in the .mog source."
    );
}

#[test]
fn clicks_on_the_textures() {
    let albedo = Some("/t/a.png".to_string());
    let act = |there: bool, enabled: bool, c: TexClick| {
        texture_click("wood", &albedo, there, enabled, c)
    };
    assert!(matches!(
        act(false, true, TexClick::Generate),
        Some(TexAction::Regenerate(m)) if m == "wood"
    ));
    assert!(act(true, false, TexClick::Generate).is_none());
    assert!(matches!(
        act(true, false, TexClick::Delete),
        Some(TexAction::Delete(m)) if m == "wood"
    ));
    assert!(act(false, true, TexClick::Delete).is_none());
    assert!(matches!(
        act(true, true, TexClick::Reveal),
        Some(TexAction::Reveal(p)) if p == "/t/a.png"
    ));
    assert!(act(false, true, TexClick::Reveal).is_none());
}

#[test]
fn sightings_last_for_a_while() {
    let mut cache = ExistsCache::new();
    assert!(cache.cached_exists("/a", 100, 50, |_| true));
    // Still fresh: the disk is not asked.
    assert!(cache.cached_exists("/a", 149, 50, |_| panic!("asked")));
    assert!(cache.cached_exists("/a", 90, 50, |_| panic!("asked")));
    assert!(!cache.cached_exists("/a", 150, 50, |p| p != "/a"));
    assert!(!cache.cached_exists("/a", 160, 50, |_| panic!("asked")));
    assert!(cache.cached_exists("/a", 160, 0, |_| true));
    cache.clear();
    assert!(!cache.cached_exists("/a", 160, 50, |_| false));
}

#[test]
fn thumbnails_follow_their_file() {
    assert!(thumb_is_current(None, None));
    assert!(thumb_is_current(Some(3), Some(3)));
    assert!(!thumb_is_current(Some(3), Some(4)));
    assert!(!thumb_is_current(None, Some(4)));
    assert!(!thumb_is_current(Some(3), None));
}

#[test]
fn small_pictures_are_kept() {
    let t = thumbnail_from_png(&png(3, 2)).unwrap();
    assert_eq!((t.width, t.height), (3, 2));
    assert_eq!(
        t.pixels,
        vec![
            0, 0, 7, 255, 1, 0, 7, 255, 2, 0, 7, 255, //
            0, 1, 7, 255, 1, 1, 7, 255, 2, 1, 7, 255,
        ]
    );
    let edge = thumbnail_from_png(&png(128, 128)).unwrap();
    assert_eq!((edge.width, edge.height), (128, 128));
    assert_eq!(edge.pixels[4 * 127], 127);
}

#[test]
fn large_pictures_are_made_smaller() {
    for (w, h) in [(129, 1), (1, 200), (256, 256)] {
        let t = thumbnail_from_png(&png(w, h)).unwrap();
        assert_eq!((t.width, t.height), (128, 128));
        assert_eq!(t.pixels.len(), 4 * 128 * 128);
        assert_eq!(t.pixels[2], 7);
        assert_eq!(t.pixels[3], 255);
    }
    let img = image::load_from_memory(&png(256, 256)).unwrap().to_rgba8();
    let filter = image::imageops::FilterType::Triangle;
    let expected = image::imageops::resize(&img, 128, 128, filter);
    let t = thumbnail_from_png(&png(256, 256)).unwrap();
    assert_eq!(&t.pixels, expected.as_raw());
}

#[test]
fn thumbnails_of_thumbnails_stay() {
    let t = thumbnail_from_png(&png(300, 10)).unwrap();
    let pixels = t.pixels.clone();
    let again = thumbnail(t);
    assert_eq!((again.width, again.height), (128, 128));
    assert_eq!(again.pixels, pixels);
    let small = thumbnail(Raster { width: 1, height: 1, pixels: vec![1, 2, 3, 4] });
    assert_eq!(small.pixels, vec![1, 2, 3, 4]);
}

#[test]
fn other_bytes_have_no_thumbnail() {
    assert!(thumbnail_from_png(&Vec::new()).is_none());
    assert!(thumbnail_from_png(&b"not a picture".to_vec()).is_none());
    let mut cut = png(20, 20);
    cut.truncate(40);
    assert!(thumbnail_from_png(&cut).is_none());
}

#[test]
fn picked_paths_are_kept_relative() {
    let dir = Some("/p/scenes".to_string());
    assert_eq!(relative_literal("/p/scenes/textures/a.png", &dir), "\"textures/a.png\"");
    assert_eq!(relative_literal("/elsewhere/a.png", &dir), "\"/elsewhere/a.png\"");
    assert_eq!(relative_literal("/p/a.png", &None), "\"/p/a.png\"");
}

#[test]
fn picked_paths_below_short_folders() {
    let kept = |picked: &str, dir: &str| relative_literal(picked, &Some(dir.to_string()));
    assert_eq!(kept("/p/a.png", ""), "\"/p/a.png\"");
    assert_eq!(kept("textures/a.png", ""), "\"textures/a.png\"");
    assert_eq!(kept("./a.png", ""), "\"./a.png\"");
    assert_eq!(kept("/p/a.png", "/"), "\"p/a.png\"");
    assert_eq!(kept("p/a.png", "/"), "\"p/a.png\"");
    assert_eq!(kept("./t/a.png", "."), "\"t/a.png\"");
    assert_eq!(kept("t/a.png", "."), "\"t/a.png\"");
    assert_eq!(kept(".t/a.png", "."), "\".t/a.png\"");
    assert_eq!(kept("../t/a.png", ".."), "\"t/a.png\"");
    assert_eq!(kept("/p/../a.png", "/p/.."), "\"a.png\"");
    assert_eq!(kept("/pq/a.png", "/p"), "\"/pq/a.png\"");
    assert_eq!(kept("/p", "/p"), "\"\"");
}
