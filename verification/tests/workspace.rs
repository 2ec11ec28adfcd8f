//! Tabs, viewport, editor, summary and diagnostics.

use mogen_studio::edits::{commit_to_file, SourceEdit};
use mogen_studio::panels::diagnostics::{
    node_problems, problem_glyph, problems_header, DiagnosticsView,
};
use mogen_studio::panels::editor::{caret_index, restores_selection};
use mogen_studio::panels::summary::{scene_stats, subtree, subtree_stats, SummaryView};
use mogen_studio::panels::tabs::{
    copied_status, tab_hint, tab_label, TabClicks, TabCommand, TabMenu,
};
use mogen_studio::panels::viewport::{
    all_gizmo_buttons, camera_tip, commits_slider, edited_background, menu_label, newly_picked,
    set_shown, status_text, toggle_fps_cap, CameraMode, OverlayMenu, Rgb, ShowFlag, ShowFlags,
    StripState,
};
use mogen_studio::scene::{
    listed_materials, Clip, CompileResult, Diagnostic, Joint, Material, MeshSize, SceneGraph,
    SceneNode, Severity, Skin,
};
use mogen_studio::span::Span;
use mogen_studio::studio::{Drafts, MogenStudioApp, OpenFile, Provider, RunSettings};

fn file(source: &str) -> OpenFile {
    OpenFile {
        path: None,
        source: source.to_string(),
        last_saved_source: source.to_string(),
        dirty: false,
        needs_compile: false,
        last_edit_at: None,
        status: String::new(),
        llm_in_flight: false,
        pending_caret: None,
        last_result: None,
    }
}

fn studio(files: Vec<OpenFile>) -> MogenStudioApp {
    MogenStudioApp {
        files,
        active: 0,
        project_root: String::new(),
        selected: Vec::new(),
        settings: RunSettings {
            model: String::new(),
            provider: Provider {
                label: String::new(),
                supports_images: false,
                vision_providers: String::new(),
            },
            thinking: String::new(),
            temperature: 0,
            max_repair_iters: 0,
            style: String::new(),
        },
        spend_session_id: String::new(),
        show_wizard: false,
        wizard: None,
        material_name_drafts: Drafts::new(),
        clip_name_drafts: Drafts::new(),
        clip_duration_drafts: Drafts::new(),
        clip_delete_pending: None,
        add_clip_kind: String::new(),
        add_clip_target: String::new(),
    }
}

fn node(name: &str, parent: Option<u32>, children: Vec<u32>) -> SceneNode {
    SceneNode {
        name: name.to_string(),
        kind: "box".to_string(),
        parent,
        children,
        mesh: None,
        material: None,
        skin: None,
        light: None,
        attach: None,
        conform_target: None,
        connectors: Vec::new(),
        origin: None,
        use_id: None,
        source_span: None,
        editable: true,
        relative_placed: false,
        cast_shadow: true,
        collider: false,
        collider_box: false,
    }
}

fn scene() -> SceneGraph {
    let mut a = node("a", Some(0), vec![2]);
    a.mesh = Some(MeshSize { indices: 12, positions: 8 });
    a.material = Some(1);
    let mut b = node("b", Some(1), vec![]);
    b.mesh = Some(MeshSize { indices: 7, positions: 3 });
    b.material = Some(1);
    b.skin = Some(0);
    let mut c = node("c", Some(0), vec![]);
    c.mesh = Some(MeshSize { indices: 3, positions: 3 });
    c.origin = Some("/lib/x.mog".to_string());
    c.material = Some(2);
    SceneGraph {
        nodes: vec![node("root", None, vec![1, 3]), a, b, c],
        materials: vec![
            Material { name: "m0".to_string(), origin: Some("/lib/x.mog".to_string()) },
            Material { name: "m1".to_string(), origin: Some("/lib/x.mog".to_string()) },
            Material { name: "m2".to_string(), origin: Some("/lib/x.mog".to_string()) },
        ],
        joints: vec![Joint { name: "j".to_string(), kind: "k".to_string(), pivot: 2 }],
        clips: vec![Clip { name: "c".to_string(), tracks: vec![3], origin: None }],
        skins: vec![Skin { name: "s".to_string(), joints: vec![], skeleton_root: None }],
    }
}

fn compiled(scene: Option<SceneGraph>, diagnostics: Vec<Diagnostic>) -> CompileResult {
    CompileResult { failed_stage: None, scene, diagnostics, node_spans: Vec::new() }
}

fn diag(severity: Severity, span: Option<(usize, usize)>) -> Diagnostic {
    Diagnostic {
        severity,
        code: "E1".to_string(),
        message: "m".to_string(),
        span: span.map(|(start, end)| Span { start, end }),
    }
}

#[test]
fn labels_of_tabs() {
    let mut f = file("x");
    assert_eq!(tab_label(&f, "a.mog"), "a.mog");
    assert_eq!(tab_hint(&f), None);
    f.dirty = true;
    assert_eq!(tab_label(&f, "a.mog"), "• a.mog");
    assert_eq!(tab_hint(&f), Some("• unsaved changes — Cmd/Ctrl+S to save"));
    f.llm_in_flight = true;
    assert_eq!(tab_label(&f, "a.mog"), "• a.mog ⟳");
    assert_eq!(tab_hint(&f), Some("• unsaved changes · ⟳ AI request in progress"));
    f.dirty = false;
    assert_eq!(tab_hint(&f), Some("⟳ AI request in progress"));
}

#[test]
fn menus_of_tabs() {
    let mut app = studio(vec![file("a"), file("b")]);
    app.files[1].path = Some("/b.mog".to_string());
    assert!(app.tab_menu(0) == TabMenu { has_path: false, has_right: true, has_others: true });
    assert!(app.tab_menu(1) == TabMenu { has_path: true, has_right: false, has_others: true });
    let one = studio(vec![file("a")]);
    assert!(one.tab_menu(0) == TabMenu { has_path: false, has_right: false, has_others: false });
}

#[test]
fn clicks_on_tabs_are_done_in_order() {
    let mut app = studio(vec![file("a"), file("b")]);
    app.files[1].path = Some("/b.mog".to_string());
    let all = TabClicks {
        new_file: true,
        activate: Some(0),
        duplicate: Some(1),
        copy_path: Some(1),
        reveal: Some(1),
        close: Some(0),
        close_others: Some(1),
        close_right: Some(0),
        close_all: true,
    };
    let r = app.ui_tabs(&all);
    assert_eq!(r.len(), 9);
    assert!(matches!(r[0], TabCommand::NewFile));
    assert!(matches!(r[1], TabCommand::Activate(0)));
    assert!(matches!(r[2], TabCommand::Duplicate(1)));
    assert!(matches!(&r[3], TabCommand::CopyPath(p) if p == "/b.mog"));
    assert!(matches!(&r[4], TabCommand::Reveal(p) if p == "/b.mog"));
    assert!(matches!(r[5], TabCommand::Close(0)));
    assert!(matches!(r[6], TabCommand::CloseOthers(1)));
    assert!(matches!(r[7], TabCommand::CloseRight(0)));
    assert!(matches!(r[8], TabCommand::CloseAll));
    let untitled = TabClicks {
        new_file: false,
        activate: None,
        duplicate: None,
        copy_path: Some(0),
        reveal: Some(7),
        close: None,
        close_others: None,
        close_right: None,
        close_all: false,
    };
    assert!(app.ui_tabs(&untitled).is_empty());
    app.set_status(copied_status("/b.mog"));
    assert_eq!(app.files[0].status, "copied path: /b.mog");
}

fn strip() -> StripState {
    StripState {
        shader_error: None,
        cinema: false,
        free_cam: false,
        shot: None,
        ctrl_held: false,
        translate_step: "0.25".to_string(),
        rotate_step: "15".to_string(),
        scale_step: "0.1".to_string(),
    }
}

#[test]
fn the_status_strip() {
    let mut s = strip();
    assert!(status_text(&s).unwrap().starts_with("click: select"));
    s.ctrl_held = true;
    assert_eq!(
        status_text(&s).unwrap(),
        "snap: translate 0.25u · rotate 15° · scale 0.1× — release ctrl for free drag"
    );
    s.free_cam = true;
    assert!(status_text(&s).unwrap().starts_with("free cam"));
    s.cinema = true;
    assert_eq!(status_text(&s), None);
    s.shot = Some("dolly".to_string());
    assert_eq!(status_text(&s).unwrap(), "now: dolly");
    s.shader_error = Some(("toon".to_string(), "line 3".to_string()));
    assert_eq!(
        status_text(&s).unwrap(),
        "shader \"toon\" failed — drawing standard PBR instead: line 3"
    );
}

#[test]
fn viewport_controls() {
    assert_eq!(newly_picked(2, 2), None);
    assert_eq!(newly_picked(2, 0), Some(0));
    let labels: Vec<&str> = all_gizmo_buttons().iter().map(|b| b.label).collect();
    assert_eq!(labels, vec!["W", "E", "R"]);
    assert!(camera_tip(CameraMode::FreeCam).starts_with("Fly"));
    assert_eq!(menu_label(OverlayMenu::Shader, "PBR"), "◑ PBR");
    assert_eq!(menu_label(OverlayMenu::Lod, "full"), "◇ full");
    assert_eq!(menu_label(OverlayMenu::Environment, "day"), "☀ day");
    assert_eq!(menu_label(OverlayMenu::Shadows, "off"), "◐ off");
    let none = ShowFlags {
        grid: false,
        light_gizmos: false,
        transform_gizmo: false,
        colliders: false,
    };
    let one = set_shown(none, ShowFlag::LightGizmos, true);
    assert!(one.light_gizmos && !one.grid && !one.transform_gizmo && !one.colliders);
    assert!(set_shown(one, ShowFlag::LightGizmos, false) == none);
    assert_eq!(toggle_fps_cap(None, true), Some(60));
    assert_eq!(toggle_fps_cap(Some(30), true), Some(30));
    assert_eq!(toggle_fps_cap(Some(30), false), None);
    let black = Rgb { red: 0, green: 0, blue: 0 };
    let grey = Rgb { red: 9, green: 9, blue: 9 };
    assert!(edited_background(black, black).is_none());
    assert!(edited_background(black, grey) == Some(grey));
    assert!(commits_slider(true, false, true));
    assert!(commits_slider(false, true, false));
    assert!(!commits_slider(false, true, true));
}

#[test]
fn the_empty_state() {
    let mut app = studio(vec![file("  \n")]);
    assert!(app.shows_empty_state(false));
    assert!(!app.shows_empty_state(true));
    app.files[0].source = "box".to_string();
    assert!(!app.shows_empty_state(false));
    app.files.clear();
    assert!(app.shows_empty_state(false));
}

#[test]
fn the_editor_yields_to_a_model_call() {
    let mut app = studio(vec![file("x")]);
    let free = app.ui_editor(true);
    assert!(!free.yields && free.finds && free.interactive && free.completes);
    app.files[0].llm_in_flight = true;
    let locked = app.ui_editor(false);
    assert!(locked.yields && !locked.finds && !locked.interactive);
    assert!(!locked.fans_out && !locked.follows_links && !locked.completes);
}

#[test]
fn typing_tracks_what_was_saved() {
    let mut app = studio(vec![file("x")]);
    app.note_typing("xy".to_string(), 5);
    assert!(app.files[0].dirty && app.files[0].needs_compile);
    assert_eq!(app.files[0].last_edit_at, Some(5));
    app.note_typing("x".to_string(), 6);
    assert!(!app.files[0].dirty);
    app.jump_to_diagnostic(1);
    assert_eq!(app.take_pending_caret(), Some(1));
    assert_eq!(app.take_pending_caret(), None);
}

#[test]
fn carets_count_characters() {
    assert_eq!(caret_index("aé€z", 0), 0);
    assert_eq!(caret_index("aé€z", 1), 1);
    assert_eq!(caret_index("aé€z", 3), 2);
    assert_eq!(caret_index("aé€z", 6), 3);
    assert_eq!(caret_index("aé€z", 7), 4);
    assert_eq!(caret_index("aé€z", 99), 4);
    assert!(restores_selection(true, true, Some((1, 2))));
    assert!(!restores_selection(true, true, Some((2, 2))));
    assert!(!restores_selection(true, true, None));
    assert!(!restores_selection(false, true, Some((1, 2))));
    assert!(!restores_selection(true, false, Some((1, 2))));
}

#[test]
fn commits_and_undo() {
    let mut f = file("a");
    assert!(commit_to_file(&mut f, &SourceEdit::RenameClip, "a".to_string(), 1).is_none());
    assert!(!f.needs_compile);
    // Some edits count even when they leave the text as it was.
    assert!(commit_to_file(&mut f, &SourceEdit::DeleteNodes, "a".to_string(), 1).is_some());
    assert!(!f.dirty && f.needs_compile);
    let u = commit_to_file(&mut f, &SourceEdit::DeleteNodes, "b".to_string(), 2).unwrap();
    assert!(f.dirty);
    commit_to_file(&mut f, &SourceEdit::DeleteNodes, u.before, 3);
    assert!(!f.dirty);
    assert_eq!(f.source, "a");
}

#[test]
fn subtrees_and_their_statistics() {
    let s = scene();
    let mut ids: Vec<u32> = subtree(&s, 1).into_iter().collect();
    ids.sort();
    assert_eq!(ids, vec![1, 2]);
    let all = scene_stats(&s);
    assert_eq!((all.nodes, all.meshes, all.triangles, all.vertices), (4, 3, 7, 14));
    assert_eq!((all.materials, all.skins, all.clips, all.joints), (3, 1, 1, 1));
    let part = subtree_stats(&s, 1);
    assert_eq!((part.nodes, part.meshes, part.triangles, part.vertices), (2, 2, 6, 11));
    assert_eq!((part.materials, part.skins, part.clips, part.joints), (1, 1, 0, 1));
}

#[test]
fn the_summary() {
    let mut app = studio(vec![file("x")]);
    assert!(matches!(app.ui_summary(), SummaryView::NoBuild));
    app.files[0].last_result = Some(compiled(None, Vec::new()));
    assert!(matches!(app.ui_summary(), SummaryView::NoScene));
    app.files[0].last_result = Some(compiled(Some(scene()), Vec::new()));
    match app.ui_summary() {
        SummaryView::Stats { header, lines } => {
            assert_eq!(header, None);
            assert_eq!(lines[0], "nodes: 4");
            assert_eq!(lines.len(), 8);
        }
        _ => panic!("no statistics"),
    }
    app.selected = vec![3];
    match app.ui_summary() {
        SummaryView::Stats { header, lines } => {
            assert_eq!(header.unwrap(), "subtree of \"c\"");
            assert_eq!(
                lines,
                vec![
                    "nodes: 1",
                    "meshes: 1",
                    "triangles: 1",
                    "vertices: 3",
                    "materials: 1",
                    "clips: 1",
                ]
            );
        }
        _ => panic!("no statistics"),
    }
}

#[test]
fn materials_in_view() {
    let s = scene();
    // Only what local geometry uses.
    assert_eq!(listed_materials(&s, None), vec![1]);
    // Selecting an imported node brings its file in.
    assert_eq!(listed_materials(&s, Some(3)), vec![0, 1, 2]);
}

#[test]
fn findings() {
    let mut app = studio(vec![file("hello")]);
    assert_eq!(app.diagnostics_header_label(), "Diagnostics — (no build yet)");
    assert!(!app.has_blocking_diagnostics());
    assert!(matches!(app.ui_diagnostics(), DiagnosticsView::NoBuild));
    app.files[0].last_result = Some(compiled(None, Vec::new()));
    assert_eq!(app.diagnostics_header_label(), "Diagnostics — ✓ ok");
    app.files[0].last_result = Some(CompileResult {
        failed_stage: Some("parse".to_string()),
        scene: None,
        diagnostics: Vec::new(),
        node_spans: Vec::new(),
    });
    assert_eq!(app.diagnostics_header_label(), "Diagnostics — parse");
    app.files[0].last_result = Some(compiled(None, vec![diag(Severity::Info, None)]));
    assert!(!app.has_blocking_diagnostics());
    app.files[0].last_result = Some(compiled(
        None,
        vec![
            diag(Severity::Warning, Some((2, 3))),
            diag(Severity::Error, Some((99, 100))),
            diag(Severity::Error, None),
        ],
    ));
    assert!(app.has_blocking_diagnostics());
    assert_eq!(app.diagnostics_header_label(), "Diagnostics — 2 errors, 1 warning");
    match app.ui_diagnostics() {
        DiagnosticsView::Rows(rows) => {
            assert_eq!(rows[0].jump_to, Some(2));
            assert_eq!(rows[1].jump_to, Some(5));
            assert_eq!(rows[2].jump_to, None);
            assert!(rows[1].tag.contains("error") && rows[1].tag.contains("E1"));
        }
        _ => panic!("no rows"),
    }
}

#[test]
fn problems_of_a_node() {
    let d = vec![
        diag(Severity::Info, Some((1, 2))),
        diag(Severity::Error, Some((8, 9))),
        diag(Severity::Warning, Some((0, 3))),
        diag(Severity::Error, Some((3, 5))),
        diag(Severity::Error, None),
    ];
    assert_eq!(node_problems(&d, Some(Span { start: 1, end: 4 })), vec![3, 2, 0]);
    assert!(node_problems(&d, None).is_empty());
    assert_eq!(problems_header(3), "Problems (3)");
    assert_eq!(problem_glyph(Severity::Error), "✖");
    assert_eq!(problem_glyph(Severity::Warning), "⚠");
    assert_eq!(problem_glyph(Severity::Info), "ℹ");
}
