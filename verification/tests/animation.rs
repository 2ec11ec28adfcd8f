//! The panel of the clips.

use mogen_studio::naming::next_proc_clip_name;
use mogen_studio::panels::animation::{
    all_clip_templates, delete_button, duration_draft_key, offers_speed_reset, one_per_clip,
    play_label, seconds_text, speed_tag, ClipClicks,
};
use mogen_studio::scene::{Clip, CompileResult, SceneGraph};
use mogen_studio::span::Span;
use mogen_studio::studio::{Drafts, MogenStudioApp, OpenFile, Provider, RunSettings};

fn studio(source: &str) -> MogenStudioApp {
    MogenStudioApp {
        files: vec![OpenFile {
            path: None,
            source: source.to_string(),
            last_saved_source: source.to_string(),
            dirty: false,
            needs_compile: false,
            last_edit_at: None,
            status: String::new(),
            llm_in_flight: false,
            pending_caret: None,
            last_result: None,
        }],
        active: 0,
        project_root: String::new(),
        selected: Vec::new(),
        settings: RunSettings {
            model: String::new(),
            provider: Provider {
                label: String::new(),
                supports_images: false,
                vision_providers: String::new(),
            },
            thinking: String::new(),
            temperature: 0,
            max_repair_iters: 0,
            style: String::new(),
        },
        spend_session_id: String::new(),
        show_wizard: false,
        wizard: None,
        material_name_drafts: Drafts::new(),
        clip_name_drafts: Drafts::new(),
        clip_duration_drafts: Drafts::new(),
        clip_delete_pending: None,
        add_clip_kind: "spin".to_string(),
        add_clip_target: String::new(),
    }
}

fn clip(name: &str, origin: Option<&str>) -> Clip {
    Clip {
        name: name.to_string(),
        tracks: Vec::new(),
        origin: origin.map(|o| o.to_string()),
    }
}

fn scene(clips: Vec<Clip>) -> CompileResult {
    CompileResult {
        failed_stage: None,
        scene: Some(SceneGraph {
            nodes: Vec::new(),
            materials: Vec::new(),
            joints: Vec::new(),
            clips,
            skins: Vec::new(),
        }),
        diagnostics: Vec::new(),
        node_spans: Vec::new(),
    }
}

fn find(source: &String, name: &String) -> Option<Span> {
    let start = source.find(&format!("clip \"{name}\""))?;
    let end = start + source[start..].find(')')? + 1;
    Some(Span { start, end })
}

fn delete(source: &String, name: &String) -> Option<String> {
    let span = find(source, name)?;
    Some(format!("{}{}", &source[..span.start], &source[span.end..]))
}

fn write(source: &String, name: &String, text: &String) -> Option<String> {
    find(source, name)?;
    Some(source.replace("seconds=1", &format!("seconds={text}")))
}

#[test]
fn clips_in_view() {
    let mut app = studio("");
    assert!(!app.has_visible_clips());
    app.files[0].last_result = Some(scene(Vec::new()));
    assert!(!app.has_visible_clips());
    app.files[0].last_result = Some(scene(vec![clip("a", Some("/x.mog"))]));
    assert!(!app.has_visible_clips());
    app.files[0].last_result = Some(scene(vec![clip("a", Some("/x.mog")), clip("b", None)]));
    assert!(app.has_visible_clips());
    let playing = vec![clip("b", None), clip("a", Some("/x.mog")), clip("c", None)];
    assert_eq!(app.ui_animation(&playing), vec![0, 2]);
    app.files[0].last_result = None;
    assert_eq!(app.ui_animation(&playing), vec![0, 2]);
    assert!(app.ui_animation(&Vec::new()).is_empty());
}

#[test]
fn lists_are_fitted_to_the_clips() {
    assert_eq!(one_per_clip(&vec![true], 3, false), vec![true, false, false]);
    assert_eq!(one_per_clip(&vec![1.0f32, 2.0, 3.0], 2, 0.0), vec![1.0, 2.0]);
}

#[test]
fn speeds() {
    let tag = |v: f32| speed_tag(v.to_bits());
    assert_eq!(tag(0.0), "paused");
    assert_eq!(tag(-0.0), "paused");
    assert_eq!(tag(0.004), "paused");
    assert_eq!(tag(-0.004), "paused");
    assert_eq!(tag(-1.0), "reverse");
    assert_eq!(tag(1.0), "real time");
    assert_eq!(tag(2.0), "fast");
    assert_eq!(tag(0.5), "slow");
    assert_eq!(tag(f32::INFINITY), "fast");
    assert_eq!(tag(f32::NEG_INFINITY), "reverse");
    assert_eq!(tag(f32::NAN), "slow");
    assert_eq!(tag(-f32::NAN), "slow");
    for base in [1.0f32, 0.005] {
        for d in -3i32..4 {
            let bits = (base.to_bits() as i32 + d) as u32;
            let v = f32::from_bits(bits);
            let at_default = (v - 1.0).abs() < f32::EPSILON;
            assert_eq!(offers_speed_reset(bits), !at_default);
            let expected = if v.abs() < 0.005 {
                "paused"
            } else if at_default {
                "real time"
            } else if v > 1.0 {
                "fast"
            } else {
                "slow"
            };
            assert_eq!(speed_tag(bits), expected, "{bits:x}");
        }
    }
    assert_eq!(play_label(true), "⏸ Pause");
    assert_eq!(play_label(false), "▶ Play");
}

#[test]
fn templates() {
    let kinds: Vec<&str> = all_clip_templates().iter().map(|t| t.kind).collect();
    assert_eq!(kinds, vec!["spin", "open_close", "wave", "flap", "idle"]);
}

#[test]
fn adding_a_clip() {
    let mut app = studio("spin \"spin_2\" (target=\"a\")");
    assert!(!app.can_add_clip());
    app.add_clip_target = " fan ".to_string();
    assert!(app.can_add_clip());
    assert_eq!(next_proc_clip_name(&app.files[0].source, "spin"), "spin_3");
    let u = app.add_clip(|s: &String, d: &String| format!("{s}\n{d}"), 5).unwrap();
    assert_eq!(
        app.files[0].source,
        "spin \"spin_2\" (target=\"a\")\nspin \"spin_3\" (target=\"fan\")"
    );
    assert_eq!(u.surface, "animation");
    assert_eq!(u.attr, Some("__add".to_string()));
    assert!(app.add_clip(|s: &String, _: &String| s.clone(), 6).is_none());
}

#[test]
fn deleting_asks_first() {
    let mut app = studio("");
    assert!(!app.click_delete_clip("a"));
    assert!(app.delete_pending("a"));
    assert!(!app.delete_pending("b"));
    // Another button starts over.
    assert!(!app.click_delete_clip("b"));
    assert!(!app.click_delete_clip("a"));
    assert!(app.click_delete_clip("a"));
    assert!(!app.delete_pending("a"));
    assert!(!app.click_delete_clip("a"));
    app.click_elsewhere();
    assert!(!app.click_delete_clip("a"));
}

#[test]
fn delete_buttons() {
    assert_eq!(delete_button(true, true), ("Delete?", "Click again to delete this clip"));
    assert_eq!(delete_button(false, true), ("🗑", "Delete this clip from the DSL source"));
    assert_eq!(
        delete_button(false, false),
        (
            "🗑",
            "This clip has no authored source to delete\n(procedural template with multiple targets)"
        )
    );
}

#[test]
fn numbers_lose_their_trailing_zeros() {
    assert_eq!(seconds_text("10.0000"), "10");
    assert_eq!(seconds_text("2.5000"), "2.5");
    assert_eq!(seconds_text("0.0000"), "0");
    assert_eq!(seconds_text("1.2345"), "1.2345");
}

#[test]
fn a_frame_of_clips() {
    let source = "clip \"a\" (seconds=1)\nclip \"b\" (seconds=1)\n";
    let mut app = studio(source);
    app.clip_name_drafts.set("b".to_string(), "c".to_string());
    app.clip_duration_drafts.set(duration_draft_key("b"), "2".to_string());
    let host = (delete, find, write);
    let c = ClipClicks {
        delete: Some("a".to_string()),
        rename: Some(("b".to_string(), "c".to_string())),
        seconds: Some(("c".to_string(), "2.5000".to_string())),
    };
    let undo = app.apply_clip_clicks(&c, host, 9);
    assert_eq!(app.files[0].source, "\nclip \"c\" (seconds=2.5)\n");
    let attrs: Vec<Option<String>> = undo.iter().map(|u| u.attr.clone()).collect();
    assert_eq!(attrs, vec![None, Some("__rename".to_string()), Some("seconds".to_string())]);
    assert_eq!(undo[0].before, source);
    assert_eq!(app.clip_name_drafts.text("b", "gone"), "gone");
    assert_eq!(app.clip_duration_drafts.text("b::dur", "gone"), "2");
}

#[test]
fn clips_without_a_declaration_are_left_alone() {
    let source = "clip \"a\" (seconds=1)\n";
    let mut app = studio(source);
    let c = ClipClicks {
        delete: Some("x".to_string()),
        rename: Some(("x".to_string(), "y".to_string())),
        seconds: Some(("x".to_string(), "2.0000".to_string())),
    };
    assert!(app.apply_clip_clicks(&c, (delete, find, write), 9).is_empty());
    assert_eq!(app.files[0].source, source);
    app.clip_duration_drafts.set(duration_draft_key("a"), "1".to_string());
    let same = ClipClicks {
        delete: None,
        rename: None,
        seconds: Some(("a".to_string(), "1.0000".to_string())),
    };
    assert!(app.apply_clip_clicks(&same, (delete, find, write), 9).is_empty());
    assert_eq!(app.clip_duration_drafts.text("a::dur", "gone"), "1");
}
