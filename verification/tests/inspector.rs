//! The inspector of the selected node.

use mogen_studio::ids::IdSet;
use mogen_studio::inspector::attrs::{
    addable, all_candidates, axis_text, change_light, channel_attrs, collider_empty, csg_kind,
    intensity_unit, light_label, light_rows, link_button, material_label, mesh_source,
    node_switches, offers_material, pick_array_axis, pick_cave_colliders, pick_material,
    pick_mirror_axis, set_cave_flag, set_channel, switch_csg, switch_light, toggle_collider,
    toggle_shadow, Axis, CaveFlag, Channel, CsgOp, LightChange, Toggle,
};
use mogen_studio::inspector::connections::{
    ancestors, children_label, connections, holds_label,
};
use mogen_studio::inspector::deform::{
    all_deform_rows, deform_click, deform_open, is_set, seed_click, seed_value, supports_deform,
    toggle_faceted, DeformClick, DeformOutcome,
};
use mogen_studio::inspector::selection::{
    connector_label, connectors_header, delete_label, delete_plan, headline, import_badge,
    inspector_actions, inspector_sections, selected_names, InspectorClicks, InspectorState,
    NodeAction,
};
use mogen_studio::inspector::use_wrap::{
    find_first_use_within, find_use, resolve_use_wrap_target, AstNode,
};
use mogen_studio::scene::{
    AttachBinding, Clip, CompileResult, Connector, Joint, LightKind, Material, MeshSize, SceneGraph,
    SceneNode, Skin,
};
use mogen_studio::span::Span;
use mogen_studio::studio::{Drafts, MogenStudioApp, OpenFile, Provider, RunSettings};

fn sp(start: usize, end: usize) -> Span {
    Span { start, end }
}

fn node(name: &str, kind: &str, parent: Option<u32>, children: Vec<u32>) -> SceneNode {
    SceneNode {
        name: name.to_string(),
        kind: kind.to_string(),
        parent,
        children,
        mesh: None,
        material: None,
        skin: None,
        light: None,
        attach: None,
        conform_target: None,
        connectors: Vec::new(),
        origin: None,
        use_id: None,
        source_span: Some(sp(0, 4)),
        editable: true,
        relative_placed: false,
        cast_shadow: true,
        collider: false,
        collider_box: false,
    }
}

fn graph(nodes: Vec<SceneNode>) -> SceneGraph {
    SceneGraph {
        nodes,
        materials: Vec::new(),
        joints: Vec::new(),
        clips: Vec::new(),
        skins: Vec::new(),
    }
}

fn studio(source: &str) -> MogenStudioApp {
    MogenStudioApp {
        files: vec![OpenFile {
            path: None,
            source: source.to_string(),
            last_saved_source: source.to_string(),
            dirty: false,
            needs_compile: false,
            last_edit_at: None,
            status: String::new(),
            llm_in_flight: false,
            pending_caret: None,
            last_result: None,
        }],
        active: 0,
        project_root: String::new(),
        selected: Vec::new(),
        settings: RunSettings {
            model: String::new(),
            provider: Provider {
                label: String::new(),
                supports_images: false,
                vision_providers: String::new(),
            },
            thinking: String::new(),
            temperature: 0,
            max_repair_iters: 0,
            style: String::new(),
        },
        spend_session_id: String::new(),
        show_wizard: false,
        wizard: None,
        material_name_drafts: Drafts::new(),
        clip_name_drafts: Drafts::new(),
        clip_duration_drafts: Drafts::new(),
        clip_delete_pending: None,
        add_clip_kind: String::new(),
        add_clip_target: String::new(),
    }
}

fn compiled(scene: Option<SceneGraph>, node_spans: Vec<Option<Span>>) -> CompileResult {
    CompileResult {
        failed_stage: None,
        scene,
        diagnostics: Vec::new(),
        node_spans,
    }
}

fn remove_attr(source: &String, span: Span, attr: &'static str) -> String {
    format!("{source}-{attr}@{}", span.start)
}

fn duplicate(source: &String, span: Span) -> String {
    format!("{source}{}", &source[span.start..span.end])
}

fn delete(source: &String, span: Span) -> String {
    format!("{}{}", &source[..span.start], &source[span.end..])
}

#[test]
fn the_header() {
    let s = graph(vec![node("a", "box", None, vec![]), node("b", "box", None, vec![])]);
    assert_eq!(selected_names(&s, &vec![1, 9, 0]), vec!["b", "(stale)", "★ a"]);
    assert_eq!(headline(1), None);
    assert_eq!(headline(3), Some("3 nodes selected — editing primary".to_string()));
    assert_eq!(import_badge("/p/lib/chair.mog"), "⤴ chair");
}

#[test]
fn states_of_the_inspector() {
    let mut app = studio("text");
    let none: Option<Vec<AstNode>> = None;
    assert!(matches!(app.ui_selected(false, &none), InspectorState::NoSelection));
    app.selected = vec![5, 0];
    assert!(matches!(app.ui_selected(false, &none), InspectorState::NoBuild));
    app.files[0].last_result = Some(compiled(None, Vec::new()));
    assert!(matches!(app.ui_selected(false, &none), InspectorState::NoScene));
    app.files[0].last_result = Some(compiled(Some(graph(Vec::new())), Vec::new()));
    assert!(matches!(app.ui_selected(false, &none), InspectorState::Stale));
    let mut with = |change: &dyn Fn(&mut SceneNode), wrapper: bool| {
        let mut n = node("a", "box", None, vec![]);
        change(&mut n);
        app.files[0].last_result = Some(compiled(Some(graph(vec![n])), Vec::new()));
        app.ui_selected(wrapper, &none)
    };
    assert!(matches!(with(&|_| {}, false), InspectorState::Editable));
    assert!(matches!(
        with(
            &|n| {
                n.editable = false;
                n.use_id = Some(1);
            },
            false
        ),
        InspectorState::Derived
    ));
    assert!(matches!(
        with(&|n| n.use_id = Some(1), false),
        InspectorState::Imported { wrap: None }
    ));
    assert!(matches!(with(&|n| n.use_id = Some(1), true), InspectorState::Editable));
    assert!(matches!(with(&|n| n.relative_placed = true, false), InspectorState::Placed));
    // A ring among other nodes is no matter.
    let nodes = vec![
        node("a", "box", None, vec![]),
        node("b", "box", Some(2), vec![2]),
        node("c", "box", Some(1), vec![1]),
    ];
    app.files[0].last_result = Some(compiled(Some(graph(nodes)), Vec::new()));
    assert!(matches!(app.ui_selected(false, &none), InspectorState::Editable));
}

#[test]
fn sections() {
    let mut s = graph(Vec::new());
    let mut n = node("a", "box", None, vec![]);
    n.mesh = Some(MeshSize { indices: 3, positions: 3 });
    let plain = inspector_sections(&s, &n);
    assert!(!plain.material && plain.geometry && plain.shadow && plain.collider && plain.deform);
    s.materials.push(Material { name: "wood".to_string(), origin: None });
    assert!(inspector_sections(&s, &n).material);
    n.kind = "cave".to_string();
    let cave = inspector_sections(&s, &n);
    assert!(cave.cave && !cave.collider && cave.shadow);
    n.source_span = None;
    let derived = inspector_sections(&s, &n);
    assert!(!derived.cave && !derived.geometry && !derived.deform);
    n.light = Some(LightKind::Spot);
    let light = inspector_sections(&s, &n);
    assert!(light.light && !light.shadow && !light.collider && !light.material);
}

#[test]
fn deleting_keeps_the_outermost() {
    let plan = delete_plan(&vec![sp(2, 4), sp(10, 20), sp(12, 15), sp(2, 4), sp(0, 6), sp(30, 31)]);
    assert_eq!(plan, vec![sp(30, 31), sp(10, 20), sp(0, 6)]);
    assert!(delete_plan(&Vec::new()).is_empty());
    assert_eq!(delete_label(1), "Delete");
    assert_eq!(delete_label(4), "Delete 4 nodes");
}

#[test]
fn deleting_the_selection() {
    let mut app = studio("AAAbbbCCC");
    app.files[0].last_result =
        Some(compiled(None, vec![Some(sp(0, 3)), Some(sp(6, 9)), None, Some(sp(7, 8))]));
    app.selected = vec![0, 1, 2, 3, 99];
    let u = app.delete_selection(delete, 4).unwrap();
    assert_eq!(app.files[0].source, "bbb");
    assert_eq!(u.before, "AAAbbbCCC");
    assert_eq!(u.surface, "inspector-action");
    assert!(app.selected.is_empty() && app.files[0].dirty);
    app.selected = vec![2];
    assert!(app.delete_selection(delete, 5).is_none());
    assert_eq!(app.selected, vec![2]);
}

#[test]
fn actions_are_done_in_order() {
    let c = InspectorClicks {
        remove_range: true,
        remove_shadow: true,
        remove_collider: true,
        remove_deforms: vec!["noise", "seed"],
        change_kind: Some("union"),
        clear_material: true,
        duplicate: true,
        delete: true,
    };
    let text: Vec<String> = inspector_actions(&c).iter().map(|a| format!("{a:?}")).collect();
    assert_eq!(
        text,
        vec![
            "RemoveRange",
            "RemoveAttr(\"cast_shadow\")",
            "RemoveAttr(\"collider\")",
            "RemoveAttr(\"noise\")",
            "RemoveAttr(\"seed\")",
            "ChangeKind(\"union\")",
            "RemoveAttr(\"material\")",
            "Duplicate",
            "DeleteSelection",
        ]
    );
}

#[test]
fn acting_on_a_node() {
    let host = (remove_attr, duplicate, delete);
    let mut app = studio("union \"u\" {}");
    let span = Some(sp(0, 12));
    let u = app.act_on_node(span, NodeAction::ChangeKind("intersect"), host, 1).unwrap();
    assert_eq!(app.files[0].source, "intersect \"u\" {}");
    assert_eq!(u.attr, Some("kind".to_string()));
    let u = app.act_on_node(span, NodeAction::RemoveAttr("collider"), host, 2).unwrap();
    assert_eq!(app.files[0].source, "intersect \"u\" {}-collider@0");
    assert_eq!(u.attr, Some("collider".to_string()));
    let u = app.act_on_node(span, NodeAction::RemoveRange, host, 3).unwrap();
    assert!(app.files[0].source.ends_with("-range@0"));
    assert_eq!(u.attr, None);
    let mut app = studio("ab");
    assert!(app.act_on_node(Some(sp(0, 1)), NodeAction::Duplicate, host, 1).is_some());
    assert_eq!(app.files[0].source, "aba");
    assert!(app.act_on_node(None, NodeAction::Duplicate, host, 2).is_none());
    assert!(app.act_on_node(None, NodeAction::RemoveRange, host, 2).is_none());
    assert_eq!(app.files[0].last_edit_at, Some(1));
    assert!(app.act_on_node(None, NodeAction::DeleteSelection, host, 2).is_none());
}

#[test]
fn following_an_edit() {
    let mut app = studio("text");
    app.follow_edit(Some(sp(2, 3)), 0);
    assert_eq!(app.files[0].pending_caret, None);
    app.follow_edit(None, 2);
    assert_eq!(app.files[0].pending_caret, None);
    app.follow_edit(Some(sp(2, 3)), 1);
    assert_eq!(app.files[0].pending_caret, Some(2));
}

#[test]
fn wrapping_a_use() {
    let mut app = studio("use \"desk\"");
    let wrap = |s: &String, _: Span, n: &String| format!("group \"{n}\" {{ {s} }}");
    assert!(app.wrap_use(&None, wrap, 1).is_none());
    let target = Some((sp(0, 10), "desk".to_string()));
    assert!(app.wrap_use(&target, wrap, 1).is_some());
    assert_eq!(app.files[0].source, "group \"desk\" { use \"desk\" }");
    assert!(app.wrap_use(&target, |s: &String, _: Span, _: &String| s.clone(), 2).is_none());
}

fn ast(kind: &str, name: Option<&str>, span: Span, children: Vec<AstNode>) -> AstNode {
    AstNode {
        kind: kind.to_string(),
        name: name.map(|n| n.to_string()),
        span,
        children,
    }
}

#[test]
fn finding_the_use() {
    let tree = vec![ast(
        "scene",
        None,
        sp(0, 100),
        vec![
            ast("use", Some("desk"), sp(5, 15), vec![]),
            ast("group", Some("g"), sp(20, 60), vec![ast("use", Some("lamp"), sp(25, 40), vec![])]),
        ],
    )];
    assert_eq!(find_use(&tree, "lamp").unwrap().span, sp(25, 40));
    assert!(find_use(&tree, "chair").is_none());
    assert_eq!(find_first_use_within(&tree[0].children, sp(20, 60)).unwrap().span, sp(25, 40));
    assert!(find_first_use_within(&tree, sp(20, 60)).is_none());

    let mut lamp = node("bulb", "sphere", Some(0), vec![]);
    lamp.use_id = Some(7);
    let mut group = node("g", "group", None, vec![1]);
    group.source_span = Some(sp(20, 60));
    let s = graph(vec![group, lamp]);
    let whole = Some(vec![ast(
        "group",
        Some("g"),
        sp(20, 60),
        vec![ast("use", Some("lamp"), sp(25, 40), vec![])],
    )]);
    assert_eq!(
        resolve_use_wrap_target(&s, &s.nodes[1], &whole),
        Some((sp(25, 40), "lamp".to_string()))
    );
    let mut desk = node("top", "box", None, vec![]);
    desk.origin = Some("/p/desk.mog".to_string());
    let s = graph(vec![desk]);
    let tree = Some(tree);
    assert_eq!(
        resolve_use_wrap_target(&s, &s.nodes[0], &tree),
        Some((sp(5, 15), "desk".to_string()))
    );
    assert_eq!(resolve_use_wrap_target(&s, &s.nodes[0], &None), None);
}

#[test]
fn ancestors_and_rings() {
    let s = graph(vec![
        node("root", "group", None, vec![1]),
        node("mid", "group", Some(0), vec![2]),
        node("leaf", "box", Some(1), vec![]),
    ]);
    assert_eq!(ancestors(&s, Some(1)), Some(vec![1, 0]));
    assert_eq!(ancestors(&s, None), Some(vec![]));
    let ring = graph(vec![
        node("a", "group", Some(1), vec![]),
        node("b", "group", Some(0), vec![]),
    ]);
    assert_eq!(ancestors(&ring, Some(0)), None);
}

#[test]
fn connections_of_a_node() {
    let mut mid = node("mid", "group", Some(0), vec![2]);
    mid.attach = Some(AttachBinding { parent: 0, socket: "top".to_string() });
    mid.conform_target = Some(2);
    mid.material = Some(0);
    let mut leaf = node("leaf", "box", Some(1), vec![]);
    leaf.attach = Some(AttachBinding { parent: 1, socket: "s".to_string() });
    let mut s = graph(vec![node("root", "group", None, vec![1]), mid, leaf]);
    s.materials.push(Material { name: "wood".to_string(), origin: None });
    s.joints.push(Joint { name: "hinge".to_string(), kind: "revolute".to_string(), pivot: 1 });
    s.clips.push(Clip { name: "spin".to_string(), tracks: vec![1, 0, 1], origin: None });
    s.skins.push(Skin { name: "body".to_string(), joints: vec![1], skeleton_root: None });
    let c = connections(&s, 1).unwrap();
    let path: Vec<&str> = c.path.iter().map(|l| l.name.as_str()).collect();
    assert_eq!(path, vec!["root"]);
    assert_eq!(c.children[0].id, 2);
    let (to, socket) = c.attached_to.unwrap();
    assert_eq!((to.name.as_str(), socket.as_str()), ("root", "· socket “top”"));
    assert_eq!(c.holds[0].name, "leaf");
    assert_eq!(c.conforms_to.unwrap().name, "leaf");
    assert_eq!(c.material.unwrap(), "material: wood");
    assert!(c.rig[0].contains("hinge") && c.rig[0].contains("revolute"));
    let alone = graph(vec![node("alone", "box", None, vec![])]);
    assert!(connections(&alone, 0).is_none());
    assert!(children_label(2).contains('2'));
    assert!(holds_label(3).contains('3'));
}

#[test]
fn connectors() {
    let made = Connector { name: "top".to_string(), tag: String::new(), source_span: None };
    assert_eq!(connector_label(&made), "top ⓢ");
    let own = Connector { name: "peg".to_string(), tag: String::new(), source_span: Some(sp(0, 1)) };
    assert_eq!(connector_label(&own), "peg");
    assert_eq!(connectors_header(0), None);
    assert_eq!(connectors_header(6), Some("Connectors (6)".to_string()));
}

#[test]
fn transforms() {
    let e = set_channel(Channel::Scale, "1", "2", "3");
    assert_eq!((e.attr, e.value.as_str()), ("scale", "[1, 2, 3]"));
    assert!(e.delete.is_empty());
    let e = set_channel(Channel::Translate, "0", "0", "0");
    assert_eq!(e.attr, "pos");
    assert!(e.delete.contains(&"x"));
    assert_eq!(channel_attrs(Channel::Translate)[0], "pos");
    assert_ne!(link_button(true), link_button(false));
}

#[test]
fn lights() {
    assert_eq!(light_label(LightKind::Point), "point");
    assert!(switch_light(LightKind::Point, LightKind::Point).is_none());
    let e = switch_light(LightKind::Spot, LightKind::Directional).unwrap();
    assert_eq!(e.value, "directional");
    assert_eq!(e.delete, vec!["range", "inner_cone", "outer_cone"]);
    assert_ne!(intensity_unit(LightKind::Directional), intensity_unit(LightKind::Point));
    assert_ne!(light_rows(LightKind::Directional), light_rows(LightKind::Spot));
    let e = change_light(LightChange::Intensity("5".to_string()));
    assert_eq!((e.attr, e.value.as_str()), ("intensity", "5"));
}

#[test]
fn set_operations_and_axes() {
    assert!(csg_kind("union") && csg_kind("difference") && csg_kind("intersect"));
    assert!(!csg_kind("box"));
    assert_eq!(switch_csg("union", CsgOp::Union), None);
    assert_eq!(switch_csg("union", CsgOp::Difference), Some("difference"));
    assert_eq!(axis_text(Axis::X), "X");
    assert!(pick_array_axis(&None, Axis::Y).is_none());
    assert_eq!(pick_array_axis(&None, Axis::X).unwrap().value, "X");
    assert!(pick_mirror_axis(&None, Axis::X).is_none());
    assert_eq!(pick_mirror_axis(&Some("Z".to_string()), Axis::X).unwrap().attr, "axis");
}

#[test]
fn switches() {
    let mut n = node("a", "box", None, vec![]);
    assert_eq!(node_switches(&n), (true, true));
    n.kind = "cave".to_string();
    assert_eq!(node_switches(&n), (true, false));
    n.light = Some(LightKind::Point);
    assert_eq!(node_switches(&n), (false, false));
    assert!(matches!(toggle_shadow(true), Toggle::Remove("cast_shadow")));
    assert!(matches!(toggle_shadow(false), Toggle::Write(e) if e.value == "0"));
    assert!(matches!(toggle_collider(true), Toggle::Write(e) if e.value == "\"aabb\""));
    assert!(matches!(toggle_collider(false), Toggle::Remove("collider")));
    n.collider = true;
    assert!(collider_empty(&n));
    n.collider_box = true;
    assert!(!collider_empty(&n));
    let e = set_cave_flag(CaveFlag::WaterCollider, true);
    assert_eq!((e.attr, e.value.as_str()), ("water_collider", "1"));
    assert!(pick_cave_colliders(&None, "all").is_none());
    assert_eq!(pick_cave_colliders(&None, "shell").unwrap().value, "\"shell\"");
}

#[test]
fn picking_a_material() {
    let mut s = graph(Vec::new());
    s.materials.push(Material { name: "wood".to_string(), origin: None });
    let mut n = node("a", "box", None, vec![]);
    assert!(offers_material(&s, &n));
    assert_eq!(material_label(&s, &n), "(inherit)");
    assert!(pick_material(&s, &n, &None).is_none());
    n.material = Some(0);
    assert_eq!(material_label(&s, &n), "wood");
    assert!(pick_material(&s, &n, &Some("wood".to_string())).is_none());
    assert!(matches!(pick_material(&s, &n, &None), Some(Toggle::Remove("material"))));
    assert!(matches!(
        pick_material(&s, &n, &Some("iron".to_string())),
        Some(Toggle::Write(e)) if e.value == "\"iron\""
    ));
}

#[test]
fn attributes_to_add() {
    let mut valid = IdSet::new();
    let mut present = IdSet::new();
    for c in all_candidates() {
        valid.insert(c.name.to_string());
    }
    let all = addable(&valid, &present).len();
    assert_eq!(all, all_candidates().len());
    present.insert("lod".to_string());
    assert_eq!(addable(&valid, &present).len(), all - 1);
    assert!(addable(&IdSet::new(), &present).is_empty());
    assert_eq!(mesh_source(&Some("\"a.glb\"".to_string())), "a.glb");
    assert_eq!(mesh_source(&None), "");
}

#[test]
fn deform_modifiers() {
    assert!(supports_deform(true, "box"));
    assert!(!supports_deform(false, "box"));
    for k in ["mesh", "union", "difference", "intersect", "solid"] {
        assert!(!supports_deform(true, k), "{k}");
    }
    let rows = all_deform_rows();
    let attrs: Vec<&str> = rows.iter().map(|r| r.attr).collect();
    assert_eq!(
        attrs,
        vec!["noise", "jitter", "bend_x", "bend_y", "bend_z", "twist_y", "taper", "droop"]
    );
    let some = |t: &str| Some(t.to_string());
    assert!(is_set(&some("0.5")) && !is_set(&some(" 0.5")) && !is_set(&None));
    assert_eq!(seed_value(&some("7")), Some(7));
    assert_eq!(seed_value(&some("-7")), None);
    assert!(!deform_open(&vec![None, some("$x")], &None));
    assert!(deform_open(&vec![None, some("1")], &None));
    assert!(deform_open(&vec![], &some("3")));
    assert!(matches!(
        deform_click(&rows[5], false, DeformClick::Added),
        DeformOutcome::Write(e) if e.attr == "twist_y" && e.value == "30"
    ));
    assert!(matches!(
        deform_click(&rows[0], true, DeformClick::Removed),
        DeformOutcome::Remove("noise")
    ));
    assert!(matches!(
        deform_click(&rows[6], true, DeformClick::Changed("2".to_string())),
        DeformOutcome::Write(e) if e.attr == "taper" && e.value == "2"
    ));
    assert!(matches!(deform_click(&rows[0], true, DeformClick::Added), DeformOutcome::Nothing));
    assert!(matches!(toggle_faceted(false, false, true), DeformOutcome::Write(e) if e.value == "1"));
    assert!(matches!(toggle_faceted(true, true, false), DeformOutcome::Remove("faceted")));
    assert!(matches!(toggle_faceted(true, true, true), DeformOutcome::Nothing));
    assert!(matches!(seed_click(false, DeformClick::Added), DeformOutcome::Write(e) if e.value == "1"));
    assert!(matches!(seed_click(true, DeformClick::Removed), DeformOutcome::Remove("seed")));
}
