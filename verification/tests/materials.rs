//! The panel of the materials.

use mogen_studio::edits::{SourceEdit, UndoStep};
use mogen_studio::naming::{largest_declared, next_material_name};
use mogen_studio::panels::gradient::{Gradient, GradientAxis, GradientKind, GradientStop};
use mogen_studio::panels::materials::{
    add_gradient, alpha_label, committed_name, gradient_edit, material_header, pbr_edit,
    pick_shader, rename_in_source, reveal_status, shader_label, shows_cutoff, tex_disabled_reason,
    unused_label, uv_label, AlphaMode, MaterialClicks, MaterialEdit, MaterialsView, PbrChange,
    TextureNeeds, TexturePath, UvMode,
};
use mogen_studio::scene::{CompileResult, Material, SceneGraph};
use mogen_studio::span::Span;
use mogen_studio::studio::{Drafts, MogenStudioApp, OpenFile, Provider, RunSettings};

fn file(source: &str) -> OpenFile {
    OpenFile {
        path: Some("/p/scene.mog".to_string()),
        source: source.to_string(),
        last_saved_source: source.to_string(),
        dirty: false,
        needs_compile: false,
        last_edit_at: None,
        status: String::new(),
        llm_in_flight: false,
        pending_caret: None,
        last_result: None,
    }
}

fn studio(source: &str) -> MogenStudioApp {
    MogenStudioApp {
        files: vec![file("other"), file(source)],
        active: 1,
        project_root: "/p".to_string(),
        selected: Vec::new(),
        settings: RunSettings {
            model: "m".to_string(),
            provider: Provider {
                label: "Acme".to_string(),
                supports_images: true,
                vision_providers: "Acme".to_string(),
            },
            thinking: String::new(),
            temperature: 0,
            max_repair_iters: 1,
            style: String::new(),
        },
        spend_session_id: String::new(),
        show_wizard: false,
        wizard: None,
        material_name_drafts: Drafts::new(),
        clip_name_drafts: Drafts::new(),
        clip_duration_drafts: Drafts::new(),
        clip_delete_pending: None,
        add_clip_kind: "spin".to_string(),
        add_clip_target: String::new(),
    }
}

fn result(materials: Vec<Material>) -> CompileResult {
    CompileResult {
        failed_stage: None,
        scene: Some(SceneGraph {
            nodes: Vec::new(),
            materials,
            joints: Vec::new(),
            clips: Vec::new(),
            skins: Vec::new(),
        }),
        diagnostics: Vec::new(),
        node_spans: Vec::new(),
    }
}

fn find(source: &String, name: &String) -> Option<Span> {
    let key = format!("material \"{name}\"");
    let start = source.find(&key)?;
    let end = start + source[start..].find('}')? + 1;
    Some(Span { start, end })
}

fn delete(source: &String, name: &String) -> Option<String> {
    let span = find(source, name)?;
    Some(format!("{}{}", &source[..span.start], &source[span.end..]))
}

fn append(source: &String, declaration: &String) -> String {
    format!("{source}\n{declaration}")
}

fn drop_gradient(source: &String, name: &String) -> Option<String> {
    find(source, name)?;
    Some(source.replace(" gradient=g", ""))
}

fn set_texture(source: &String, p: &TexturePath) -> Option<String> {
    find(source, &p.material)?;
    Some(match &p.value {
        Some(v) => format!("{source} {}={v}", p.attr),
        None => source.replace(p.attr, ""),
    })
}

fn splice(source: &String, e: &MaterialEdit) -> Option<String> {
    find(source, &e.material)?;
    Some(format!("{source} {}={}", e.attr, e.value))
}

fn clicks() -> MaterialClicks {
    MaterialClicks {
        add: false,
        delete: None,
        rename: None,
        drop_gradient: None,
        texture_path: None,
        edits: Vec::new(),
    }
}

fn apply(app: &mut MogenStudioApp, c: &MaterialClicks) -> (Vec<UndoStep>, bool, bool) {
    let r = app.apply_material_clicks(
        c,
        (append, delete, find, drop_gradient, set_texture, splice),
        7,
    );
    (r.undo, r.forget_textures, r.compile)
}

const SOURCE: &str = "material \"wood\" { gradient=g }\nbox \"b\" (material=\"wood\")";

fn needs(has_key: bool, busy: bool, source_empty: bool, has_path: bool) -> TextureNeeds {
    TextureNeeds {
        has_key,
        busy,
        source_empty,
        has_path,
        provider: "Acme".to_string(),
    }
}

#[test]
fn what_stands_in_the_way_of_textures() {
    assert_eq!(tex_disabled_reason(&needs(true, false, false, true)), None);
    assert_eq!(
        tex_disabled_reason(&needs(false, false, false, true)).unwrap(),
        "Disabled — set a Acme API key in Preferences"
    );
    assert_eq!(
        tex_disabled_reason(&needs(true, true, true, false)).unwrap(),
        "Disabled:\n  • another LLM call is in flight on this tab\n  • open or paste a .mog file first\n  • save the file first — textures writes PNGs next to it"
    );
}

#[test]
fn needs_of_the_file_in_front() {
    let mut app = studio("  \n");
    app.files[1].llm_in_flight = true;
    app.files[1].path = None;
    let n = app.texture_needs(true);
    assert!(n.has_key && n.busy && n.source_empty && !n.has_path);
    assert_eq!(n.provider, "Acme");
}

#[test]
fn what_the_panel_lists() {
    let mut app = studio(SOURCE);
    assert!(matches!(app.ui_materials(), MaterialsView::NoBuild));
    let mut broken = result(Vec::new());
    broken.scene = None;
    app.files[1].last_result = Some(broken);
    assert!(matches!(app.ui_materials(), MaterialsView::NoScene));
    app.files[1].last_result = Some(result(Vec::new()));
    assert!(matches!(app.ui_materials(), MaterialsView::NoneDeclared));
    let own = |n: &str| Material { name: n.to_string(), origin: None };
    let foreign = |n: &str| Material {
        name: n.to_string(),
        origin: Some("/p/drawer.mog".to_string()),
    };
    app.files[1].last_result = Some(result(vec![foreign("iron")]));
    assert!(matches!(app.ui_materials(), MaterialsView::NoneInScope));
    app.files[1].last_result = Some(result(vec![foreign("iron"), own("wood")]));
    assert!(matches!(app.ui_materials(), MaterialsView::Listed(v) if v == vec![1]));
}

#[test]
fn headers_name_the_import() {
    let own = Material { name: "wood".to_string(), origin: None };
    assert_eq!(material_header(&own), "wood");
    let foreign = Material {
        name: "wood".to_string(),
        origin: Some("/p/parts/drawer.mog".to_string()),
    };
    assert_eq!(material_header(&foreign), "wood  ⤴ drawer");
}

#[test]
fn adding_a_material_takes_a_new_name() {
    let mut app = studio("material \"material_4\" {}\n");
    assert_eq!(largest_declared(&app.files[1].source, "material"), 4);
    let mut c = clicks();
    c.add = true;
    let (undo, forget, compile) = apply(&mut app, &c);
    assert_eq!(
        app.files[1].source,
        "material \"material_4\" {}\n\nmaterial \"material_5\" {\n  color = [0.7, 0.7, 0.7]\n}"
    );
    assert!(app.files[1].dirty && app.files[1].needs_compile);
    assert_eq!(app.files[1].last_edit_at, Some(7));
    assert_eq!(undo.len(), 1);
    assert_eq!(undo[0].surface, "material");
    assert_eq!(undo[0].attr, Some("__add".to_string()));
    assert!(undo[0].breaks_chain && !forget && !compile);
    assert_eq!(app.files[0].source, "other");
}

#[test]
fn suggested_names_are_not_in_use() {
    assert_eq!(next_material_name(""), "material_1");
    assert_eq!(next_material_name("  material   \"material_9\" (x)\n"), "material_10");
    assert_eq!(next_material_name("material \"wood\" (x)"), "material_1");
    assert_eq!(next_material_name("scene { material \"material_5\" () }"), "material_6");
    assert_eq!(next_material_name("scene { material \"material_1\" () }"), "material_2");
}

#[test]
fn renaming_rewrites_declaration_and_uses() {
    let mut app = studio(SOURCE);
    app.material_name_drafts.set("wood".to_string(), "oak".to_string());
    let mut c = clicks();
    c.rename = Some(("wood".to_string(), "oak".to_string()));
    let (undo, _, _) = apply(&mut app, &c);
    assert_eq!(
        app.files[1].source,
        "material \"oak\" { gradient=g }\nbox \"b\" (material=\"oak\")"
    );
    assert_eq!(undo[0].attr, Some("__rename".to_string()));
    assert_eq!(undo[0].before, SOURCE);
    assert_eq!(app.material_name_drafts.text("wood", "gone"), "gone");
}

#[test]
fn renaming_to_itself_changes_nothing() {
    let mut app = studio(SOURCE);
    app.material_name_drafts.set("wood".to_string(), "wood".to_string());
    let mut c = clicks();
    c.rename = Some(("wood".to_string(), "wood".to_string()));
    let (undo, _, _) = apply(&mut app, &c);
    assert!(undo.is_empty());
    assert!(!app.files[1].dirty);
    assert_eq!(app.material_name_drafts.text("wood", "gone"), "wood");
    let span = Span { start: 0, end: 30 };
    assert_eq!(rename_in_source(SOURCE, span, "wood", "wood"), SOURCE);
}

#[test]
fn a_material_declared_elsewhere_is_left_alone() {
    let mut app = studio(SOURCE);
    let mut c = clicks();
    c.delete = Some("iron".to_string());
    c.rename = Some(("iron".to_string(), "steel".to_string()));
    c.edits = vec![MaterialEdit {
        material: "iron".to_string(),
        attr: "alpha",
        value: "1".to_string(),
    }];
    let (undo, forget, compile) = apply(&mut app, &c);
    assert!(undo.is_empty() && !forget && !compile);
    assert_eq!(app.files[1].source, SOURCE);
    assert!(!app.files[1].needs_compile);
}

#[test]
fn a_quiet_frame_changes_nothing() {
    let mut app = studio(SOURCE);
    let (undo, forget, compile) = apply(&mut app, &clicks());
    assert!(undo.is_empty() && !forget && !compile);
    assert_eq!(app.files[1].source, SOURCE);
    assert!(!app.files[1].dirty && !app.files[1].needs_compile);
}

#[test]
fn deleting_a_material() {
    let mut app = studio(SOURCE);
    let mut c = clicks();
    c.delete = Some("wood".to_string());
    let (undo, _, _) = apply(&mut app, &c);
    assert_eq!(app.files[1].source, "\nbox \"b\" (material=\"wood\")");
    assert_eq!(undo[0].attr, Some("__delete".to_string()));
}

#[test]
fn gradient_and_texture_path() {
    let mut app = studio(SOURCE);
    let mut c = clicks();
    c.drop_gradient = Some("wood".to_string());
    c.texture_path = Some(TexturePath {
        material: "wood".to_string(),
        attr: "normal_texture",
        value: Some("\"n.png\"".to_string()),
    });
    let (undo, forget, compile) = apply(&mut app, &c);
    assert_eq!(
        app.files[1].source,
        "material \"wood\" { }\nbox \"b\" (material=\"wood\") normal_texture=\"n.png\""
    );
    let attrs: Vec<Option<String>> = undo.iter().map(|u| u.attr.clone()).collect();
    assert_eq!(
        attrs,
        vec![Some("gradient:__delete".to_string()), Some("normal_texture".to_string())]
    );
    assert!(forget && !compile);
}

#[test]
fn a_batch_is_one_entry_named_after_its_last_edit() {
    let mut app = studio(SOURCE);
    let edit = |m: &str, attr: &'static str, v: &str| MaterialEdit {
        material: m.to_string(),
        attr,
        value: v.to_string(),
    };
    let mut c = clicks();
    c.edits = vec![
        edit("wood", "alpha", "0.5"),
        edit("wood", "metallic", "1"),
        edit("iron", "roughness", "1"),
    ];
    let (undo, _, compile) = apply(&mut app, &c);
    assert_eq!(app.files[1].source, format!("{SOURCE} alpha=0.5 metallic=1"));
    assert_eq!(undo.len(), 1);
    assert_eq!(undo[0].attr, Some("wood:metallic".to_string()));
    assert_eq!(undo[0].before, SOURCE);
    assert!(!undo[0].breaks_chain && compile);
}

#[test]
fn edits_come_after_everything_else() {
    let mut app = studio(SOURCE);
    let mut c = clicks();
    c.rename = Some(("wood".to_string(), "oak".to_string()));
    c.edits = vec![MaterialEdit {
        material: "wood".to_string(),
        attr: "alpha",
        value: "1".to_string(),
    }];
    let (undo, _, compile) = apply(&mut app, &c);
    // The name is gone by the time the edit is applied.
    assert_eq!(undo.len(), 1);
    assert!(!compile);
}

#[test]
fn what_the_widgets_write() {
    let t = |s: &str| s.to_string();
    let written = |c: PbrChange| {
        let e = pbr_edit("wood", c);
        assert_eq!(e.material, "wood");
        format!("{}={}", e.attr, e.value)
    };
    assert_eq!(written(PbrChange::Color(t("1"), t("0.5"), t("0"))), "color=[1, 0.5, 0]");
    assert_eq!(written(PbrChange::Alpha(t("0.2"))), "alpha=0.2");
    assert_eq!(written(PbrChange::Metallic(t("1"))), "metallic=1");
    assert_eq!(written(PbrChange::Roughness(t("1"))), "roughness=1");
    assert_eq!(written(PbrChange::NormalStrength(t("8"))), "normal_strength=8");
    assert_eq!(written(PbrChange::OcclusionStrength(t("0"))), "occlusion_strength=0");
    assert_eq!(written(PbrChange::Emissive(t("1"), t("1"), t("1"))), "emissive=[1, 1, 1]");
    assert_eq!(written(PbrChange::EmissiveStrength(t("4"))), "emissive_strength=4");
    assert_eq!(written(PbrChange::Transmission(t("1"))), "transmission=1");
    assert_eq!(written(PbrChange::AlphaMode(AlphaMode::Opaque)), "alpha_mode=\"opaque\"");
    assert_eq!(written(PbrChange::AlphaMode(AlphaMode::Blend)), "alpha_mode=\"blend\"");
    assert_eq!(written(PbrChange::AlphaMode(AlphaMode::Mask)), "alpha_mode=\"mask\"");
    assert_eq!(written(PbrChange::AlphaCutoff(t("0.5"))), "alpha_cutoff=0.5");
    assert_eq!(written(PbrChange::DoubleSided(true)), "double_sided=1");
    assert_eq!(written(PbrChange::DoubleSided(false)), "double_sided=0");
    assert_eq!(written(PbrChange::UvMode(UvMode::Tile)), "uv_mode=\"tile\"");
    assert_eq!(written(PbrChange::UvMode(UvMode::Fit)), "uv_mode=\"fit\"");
    assert_eq!(written(PbrChange::UvScale(t("2"), t("3"))), "uv_scale=[2, 3]");
    assert_eq!(written(PbrChange::Shader(t("water"))), "shader=\"water\"");
    assert_eq!(alpha_label(AlphaMode::Mask), "mask");
    assert_eq!(uv_label(UvMode::Fit), "fit");
    assert!(shows_cutoff(AlphaMode::Mask) && !shows_cutoff(AlphaMode::Blend));
}

#[test]
fn shaders() {
    assert_eq!(shader_label(&None), "standard (PBR)");
    assert_eq!(shader_label(&Some("standard".to_string())), "standard (PBR)");
    assert_eq!(shader_label(&Some("water".to_string())), "water");
    assert!(pick_shader("m", &None, "standard").is_none());
    assert!(pick_shader("m", &Some("water".to_string()), "water").is_none());
    assert_eq!(pick_shader("m", &None, "water").unwrap().value, "\"water\"");
}

#[test]
fn gradient_edits() {
    assert_eq!(add_gradient("wood").value, "vertical(from=[0, 0, 0], to=[1, 1, 1])");
    let stop = |t: f32, c: &str| GradientStop {
        t: t.to_bits(),
        place: format!("{}", t),
        red: c.to_string(),
        green: c.to_string(),
        blue: c.to_string(),
        on_grid: false,
    };
    let g = Gradient {
        kind: GradientKind::Linear { axis: GradientAxis::Y },
        stops: vec![stop(1.0, "1"), stop(0.0, "0")],
    };
    let e = gradient_edit("wood", g, |_, _, _| true);
    assert_eq!(e.attr, "gradient");
    assert_eq!(e.value, "vertical(from=[0, 0, 0], to=[1, 1, 1])");
}

#[test]
fn names_are_committed_when_the_field_is_left() {
    assert_eq!(committed_name(" oak ", "wood", true), Some("oak".to_string()));
    assert_eq!(committed_name(" oak ", "wood", false), None);
    assert_eq!(committed_name("  ", "wood", true), None);
    assert_eq!(committed_name("wood", "wood", true), None);
    // Blanks around the same name still count as typed.
    assert_eq!(committed_name("wood ", "wood", true), Some("wood".to_string()));
}

#[test]
fn texture_cleanup_is_not_undoable() {
    let mut app = studio("a");
    assert!(app.apply_texture_cleanup("b".to_string(), "deleted 2".to_string(), 3));
    assert_eq!(app.files[1].source, "b");
    assert!(app.files[1].dirty && app.files[1].needs_compile);
    assert_eq!(app.files[1].status, "deleted 2");
    assert!(!app.apply_texture_cleanup("b".to_string(), "nothing".to_string(), 9));
    assert_eq!(app.files[1].last_edit_at, Some(3));
    assert_eq!(app.files[1].status, "nothing");
}

#[test]
fn status_texts() {
    assert_eq!(reveal_status("/a.png", &None), "revealed /a.png");
    assert_eq!(
        reveal_status("/a.png", &Some("no".to_string())),
        "reveal failed: /a.png (no)"
    );
    assert_eq!(unused_label(12), "unused textures: 12");
}

#[test]
fn located_edits() {
    let mut app = studio("lod 1\n");
    assert!(app.edit_located(&SourceEdit::LodScale, |_| None, 1).is_none());
    assert!(!app.files[1].needs_compile);
    let u = app.edit_located(&SourceEdit::LodScale, |s| Some(s.replace('1', "2")), 2).unwrap();
    assert_eq!(u.surface, "lod");
    assert_eq!(u.attr, None);
    assert_eq!(app.files[1].source, "lod 2\n");
}
