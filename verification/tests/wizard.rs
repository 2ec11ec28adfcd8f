//! Runs of the wizard: messages, stages, workers and corrections.

use mogen_studio::ids::IdSet;
use mogen_studio::studio::{Drafts, MogenStudioApp, OpenFile, Provider, RunSettings};
use mogen_studio::wizard::corrections::CorrectionOutcome;
use mogen_studio::wizard::dispatch::{target_stage, WizardAction, WizardCommand};
use mogen_studio::wizard::lifecycle::CaptureOutcome;
use mogen_studio::wizard::message::apply_wizard_message;
use mogen_studio::wizard::project::Resumed;
use mogen_studio::wizard::session::{
    WizardBusy, WizardMessage, WizardSession, MAX_CORRECTION_ITERS,
};
use mogen_studio::wizard::stages::{
    assemble_view, brief_view, done_view, edit_brief, location_ready, manifest_caption,
    manifest_view, objects_view, prompt_view, references_view, review_rows, scene_review_view,
    stage_strip, BriefBody, ManifestBody, ReviewRow,
};
use mogen_studio::wizard::state::{
    Correction, ObjectEntry, ObjectGenResult, ObjectReview, SceneReview, Stage, Triple, WizardState,
};
use mogen_studio::wizard::workers::{
    build_failure, build_output, module_output, module_picture, read_source_image,
    reference_output, review_picture_path,
};

fn triple(x: f32, y: f32, z: f32) -> Triple {
    Triple { x: x.to_bits(), y: y.to_bits(), z: z.to_bits() }
}

fn obj(id: &str) -> ObjectEntry {
    ObjectEntry {
        id: id.to_string(),
        name: format!("the {id}"),
        role: String::new(),
        prompt: String::new(),
        size: triple(1.0, 1.0, 1.0),
        position: triple(0.0, 0.0, 0.0),
        rotation_y_deg: 0,
        reference_image: None,
        mog_path: None,
        thumb_path: None,
        position_guide: None,
    }
}

fn studio() -> MogenStudioApp {
    MogenStudioApp {
        files: vec![OpenFile {
            path: Some("/p/scenes/room.mog".to_string()),
            source: String::new(),
            last_saved_source: String::new(),
            dirty: false,
            needs_compile: false,
            last_edit_at: None,
            status: String::new(),
            llm_in_flight: false,
            pending_caret: None,
            last_result: None,
        }],
        active: 0,
        project_root: "/root".to_string(),
        selected: Vec::new(),
        settings: RunSettings {
            model: "model".to_string(),
            provider: Provider {
                label: "Acme".to_string(),
                supports_images: true,
                vision_providers: "Acme, Bolt".to_string(),
            },
            thinking: "low".to_string(),
            temperature: 1.0f32.to_bits(),
            max_repair_iters: 2,
            style: "plain".to_string(),
        },
        spend_session_id: "s1".to_string(),
        show_wizard: false,
        wizard: None,
        material_name_drafts: Drafts::new(),
        clip_name_drafts: Drafts::new(),
        clip_duration_drafts: Drafts::new(),
        clip_delete_pending: None,
        add_clip_kind: String::new(),
        add_clip_target: String::new(),
    }
}

fn opened() -> MogenStudioApp {
    let mut app = studio();
    app.open_scene_wizard(11);
    app.wizard.as_mut().unwrap().state.project_dir = "/p/run".to_string();
    app
}

fn session(app: &MogenStudioApp) -> &WizardSession {
    app.wizard.as_ref().unwrap()
}

fn tell(app: &mut MogenStudioApp, m: WizardMessage) -> bool {
    apply_wizard_message(app.wizard.as_mut().unwrap(), m)
}

fn state_of(app: &mut MogenStudioApp) -> &mut WizardState {
    &mut app.wizard.as_mut().unwrap().state
}

#[test]
fn opening_and_reopening() {
    let mut app = studio();
    assert_eq!(app.resolve_wizard_project_dir(), "/p/scenes/wizard");
    app.open_scene_wizard(11);
    assert!(app.show_wizard);
    assert_eq!(session(&app).location_draft, "/p/scenes/wizard");
    assert_eq!(session(&app).state.seed, 11);
    assert!(session(&app).state.stage == Stage::Location);
    app.wizard.as_mut().unwrap().prompt_draft = "kept".to_string();
    app.show_wizard = false;
    app.open_scene_wizard(99);
    assert!(app.show_wizard);
    assert_eq!(session(&app).prompt_draft, "kept");
    app.files[0].path = None;
    assert_eq!(app.resolve_wizard_project_dir(), "/root/wizard");
    app.files[0].path = Some("./scene.mog".to_string());
    assert_eq!(app.resolve_wizard_project_dir(), "./wizard");
    app.files[0].path = Some("../scene.mog".to_string());
    assert_eq!(app.resolve_wizard_project_dir(), "../wizard");
}

#[test]
fn confirming_the_location() {
    let mut app = opened();
    app.pick_wizard_location(Some(String::new()));
    assert!(!app.confirm_wizard_location(Ok(()), None));
    assert_eq!(session(&app).error.as_deref(), Some("Pick a folder before continuing."));
    app.pick_wizard_location(Some("/p/new".to_string()));
    assert_eq!(session(&app).error, None);
    assert_eq!(app.wizard_location_start(), "/p");
    app.pick_wizard_location(Some("../run".to_string()));
    assert_eq!(app.wizard_location_start(), "..");
    app.pick_wizard_location(Some("/p/new".to_string()));
    assert!(!app.confirm_wizard_location(Err("full".to_string()), None));
    assert_eq!(session(&app).error.as_deref(), Some("Could not create /p/new: full"));
    assert!(app.confirm_wizard_location(Ok(()), None));
    assert_eq!(session(&app).state.project_dir, "/p/new");
    assert!(session(&app).state.stage == Stage::Prompt);
    assert_eq!(session(&app).error, None);

    let mut found = opened();
    let mut state = found.wizard.take().unwrap().state;
    state.prompt = "a room".to_string();
    state.manifest = vec![obj("a"), obj("b")];
    state.stage = Stage::Objects;
    let resumed = Resumed { state, label: "objects".to_string() };
    assert!(!app.confirm_wizard_location(Ok(()), Some(resumed)));
    assert_eq!(
        session(&app).status,
        "Resumed wizard at stage `objects` (2 objects in manifest)."
    );
    assert_eq!(session(&app).prompt_draft, "a room");
    assert_eq!(session(&app).state.project_dir, "/p/new");
}

#[test]
fn messages_that_succeed() {
    let mut app = opened();
    app.wizard.as_mut().unwrap().running = WizardBusy::Brief;
    assert!(tell(&mut app, WizardMessage::BriefDone(Ok("brief".to_string()))));
    assert!(session(&app).running == WizardBusy::Idle);
    assert!(session(&app).state.stage == Stage::Brief);
    assert_eq!(session(&app).status, "Brief generated.");
    assert!(tell(&mut app, WizardMessage::ManifestDone(Ok(vec![obj("a"), obj("b")]))));
    assert_eq!(session(&app).status, "Manifest generated (2 objects).");
    app.wizard.as_mut().unwrap().running_ref_ids.insert("a".to_string());
    assert!(tell(
        &mut app,
        WizardMessage::ReferenceDone { id: "a".to_string(), result: Ok("/p/a.png".to_string()) }
    ));
    assert!(session(&app).running_ref_ids.is_empty());
    assert_eq!(session(&app).state.manifest[0].reference_image.as_deref(), Some("/p/a.png"));
    let made = ObjectGenResult { mog_path: "/p/b.mog".to_string(), guide: "g".to_string() };
    assert!(tell(
        &mut app,
        WizardMessage::ObjectDone { id: "b".to_string(), result: Ok(made) }
    ));
    assert_eq!(session(&app).state.manifest[1].mog_path.as_deref(), Some("/p/b.mog"));
    assert_eq!(session(&app).state.manifest[1].position_guide.as_deref(), Some("g"));
    let verdict = ObjectReview { pass: true, notes: "fine".to_string() };
    assert!(tell(
        &mut app,
        WizardMessage::ObjectReviewDone { id: "a".to_string(), result: Ok(verdict) }
    ));
    assert!(session(&app).state.per_object_reviews.get("a").unwrap().pass);
    let review = SceneReview { notes: String::new(), corrections: Vec::new() };
    assert!(tell(&mut app, WizardMessage::SceneReviewDone(Ok(review))));
    assert_eq!(session(&app).status, "Scene review returned 0 correction(s).");
    tell(&mut app, WizardMessage::AssemblyDone(Ok("/p/all.mog".to_string())));
    assert_eq!(session(&app).state.assembly_path.as_deref(), Some("/p/all.mog"));
    tell(&mut app, WizardMessage::BuildDone(Ok("/p/all.glb".to_string())));
    assert_eq!(session(&app).state.built_glb.as_deref(), Some("/p/all.glb"));
    assert_eq!(session(&app).status, "Built /p/all.glb.");
}

#[test]
fn messages_that_fail() {
    let e = || "boom".to_string();
    let id = || "a".to_string();
    for (m, text) in [
        (WizardMessage::BriefDone(Err(e())), "Brief failed: boom"),
        (WizardMessage::ManifestDone(Err(e())), "Manifest failed: boom"),
        (
            WizardMessage::ReferenceDone { id: id(), result: Err(e()) },
            "Reference for a failed: boom",
        ),
        (
            WizardMessage::ObjectDone { id: id(), result: Err(e()) },
            "Module for a failed: boom",
        ),
        (
            WizardMessage::ObjectReviewDone { id: id(), result: Err(e()) },
            "Object review for a failed: boom",
        ),
        (WizardMessage::SceneReviewDone(Err(e())), "Scene review failed: boom"),
        (WizardMessage::AssemblyDone(Err(e())), "Assemble failed: boom"),
        (WizardMessage::BuildDone(Err(e())), "Build failed: boom"),
    ] {
        let mut app = opened();
        let s = app.wizard.as_mut().unwrap();
        s.auto_continue_refs = true;
        s.auto_continue_objects = true;
        let bulk_refs = matches!(&m, WizardMessage::ReferenceDone { .. });
        let bulk_objects = matches!(&m, WizardMessage::ObjectDone { .. });
        tell(&mut app, m);
        assert_eq!(session(&app).error.as_deref(), Some(text));
        assert!(session(&app).state.stage == Stage::Location);
        // A failed worker stops the bulk run it belongs to.
        assert_eq!(session(&app).auto_continue_refs, !bulk_refs, "{text}");
        assert_eq!(session(&app).auto_continue_objects, !bulk_objects, "{text}");
    }
}

#[test]
fn moving_between_stages() {
    assert!(target_stage(&WizardAction::FinishWizard) == Some(Stage::Done));
    assert!(target_stage(&WizardAction::Reset).is_none());
    let mut app = studio();
    assert!(!app.wizard_back_to(Stage::Brief));
    assert!(matches!(
        app.dispatch_wizard_action(WizardAction::AdvanceToManifest),
        WizardCommand::Nothing
    ));
    let mut app = opened();
    app.wizard_set_error("old".to_string());
    assert!(matches!(
        app.dispatch_wizard_action(WizardAction::AdvanceToManifest),
        WizardCommand::Save
    ));
    assert!(session(&app).state.stage == Stage::Manifest);
    assert_eq!(session(&app).error, None);
    assert!(matches!(
        app.dispatch_wizard_action(WizardAction::GenerateNextReference),
        WizardCommand::StartReferences { target: 1, auto_continue: false }
    ));
    assert!(matches!(
        app.dispatch_wizard_action(WizardAction::AutoGenerateObjects),
        WizardCommand::StartObjects { target: 3, auto_continue: true }
    ));
    assert!(matches!(
        app.dispatch_wizard_action(WizardAction::RemoveObject("x".to_string())),
        WizardCommand::RemoveObject(id) if id == "x"
    ));
    app.wizard.as_mut().unwrap().auto_continue_refs = true;
    app.dispatch_wizard_action(WizardAction::StopAutoReferences);
    assert!(!session(&app).auto_continue_refs);
    assert_eq!(session(&app).status, "Stopped auto-generate; in-flight workers will finish.");
    app.show_wizard = true;
    app.dispatch_wizard_action(WizardAction::Close);
    assert!(!app.show_wizard && app.wizard.is_some());
}

#[test]
fn resetting_a_run() {
    let mut app = opened();
    state_of(&mut app).manifest.push(obj("a"));
    let s = app.wizard.as_mut().unwrap();
    s.running_ref_ids.insert("a".to_string());
    s.correction_iterations = MAX_CORRECTION_ITERS;
    s.apply_corrections_armed = true;
    assert!(!scene_review_view(session(&app)).can_review);
    assert!(app.reset_wizard(5));
    assert!(scene_review_view(session(&app)).can_review);
    let s = session(&app);
    assert_eq!(s.state.project_dir, "/p/run");
    assert_eq!(s.state.seed, 5);
    assert!(s.state.manifest.is_empty() && s.running_ref_ids.is_empty());
    assert_eq!(s.status, "Wizard reset.");
    assert_eq!(s.correction_iterations, 0);
    assert!(s.apply_corrections_armed);
    assert!(!studio().reset_wizard(1));
}

#[test]
fn the_run_configuration() {
    let app = opened();
    let cfg = app.build_wizard_run_config(77);
    assert_eq!(cfg.seed, 11);
    assert_eq!((cfg.model.as_str(), cfg.provider.as_str()), ("model", "Acme"));
    assert_eq!(studio().build_wizard_run_config(77).seed, 77);
}

#[test]
fn starting_the_brief() {
    let mut app = opened();
    assert!(app.start_wizard_brief(false, None, 1).is_none());
    assert_eq!(
        session(&app).error.as_deref(),
        Some("Provider credentials missing — open Preferences and sign in.")
    );
    assert!(app.start_wizard_brief(true, None, 1).is_none());
    assert_eq!(
        session(&app).error.as_deref(),
        Some("Enter a scene prompt or choose a source image first.")
    );
    app.wizard.as_mut().unwrap().prompt_draft = "a room".to_string();
    let job = app.start_wizard_brief(true, None, 1).unwrap();
    assert_eq!(job.prompt, "a room");
    assert!(job.source.is_none());
    assert!(session(&app).running == WizardBusy::Brief);
    assert_eq!(session(&app).status, "Generating scene brief…");
    state_of(&mut app).source_image = Some("/p/run/source.jpg".to_string());
    assert!(app.start_wizard_brief(true, None, 1).is_none());
    assert!(session(&app).error.as_ref().unwrap().starts_with("Source image could not be read"));
    let job = app.start_wizard_brief(true, Some(vec![1, 2]), 1).unwrap();
    let picture = job.source.unwrap();
    assert_eq!((picture.bytes, picture.mime.as_str()), (vec![1, 2], "image/jpeg"));
    assert_eq!(session(&app).status, "Reading the source image…");
    app.settings.provider.supports_images = false;
    assert!(app.start_wizard_brief(true, Some(vec![1]), 1).is_none());
    assert!(session(&app).error.as_ref().unwrap().contains("Acme, Bolt"));
}

#[test]
fn starting_the_manifest() {
    let mut app = opened();
    assert!(app.start_wizard_manifest(true, None, 1).is_none());
    assert_eq!(session(&app).error.as_deref(), Some("Generate a brief first."));
    state_of(&mut app).brief = Some("b".to_string());
    let job = app.start_wizard_manifest(true, None, 1).unwrap();
    assert_eq!(job.brief, "b");
    assert!(session(&app).running == WizardBusy::Manifest);
}

#[test]
fn batches_of_workers() {
    let mut app = opened();
    let disk = IdSet::new();
    state_of(&mut app).manifest = vec![obj("a"), obj("b"), obj("c"), obj("d")];
    let jobs = app.start_wizard_reference_batch(true, 3, true, &disk, None, 1).unwrap();
    assert_eq!(jobs.objects.len(), 3);
    assert_eq!(jobs.seed, 11);
    assert_eq!(session(&app).running_ref_ids.len(), 3);
    assert!(session(&app).auto_continue_refs);
    assert_eq!(
        session(&app).status,
        "Generating 3 reference image(s): the a, the b, the c…"
    );
    assert!(app.start_wizard_reference_batch(true, 3, true, &disk, None, 1).is_none());
    let jobs = app.start_wizard_object_batch(true, 1, false, &disk, 1).unwrap();
    assert_eq!(jobs.objects[0].id, "a");
    assert!(!session(&app).auto_continue_objects);
    app.wizard_object_worker_lost("a");
    assert!(session(&app).running_object_ids.is_empty());
    assert_eq!(session(&app).error.as_deref(), Some("Lost provider credentials mid-batch."));
    let mut app = opened();
    app.start_wizard_object_batch(true, 3, true, &disk, 1);
    assert_eq!(session(&app).status, "All object modules generated.");
}

#[test]
fn redoing_one_object() {
    let mut app = opened();
    let mut a = obj("a");
    a.reference_image = Some("/p/run/references/a.png".to_string());
    a.mog_path = Some("/p/run/objects/a.mog".to_string());
    state_of(&mut app).manifest = vec![a];
    let (redo, seed) = app.start_wizard_one_reference(true, "a", 1);
    assert_eq!(seed, 11);
    assert!(redo.save);
    assert_eq!(redo.stale.as_deref(), Some("/p/run/references/a.png"));
    assert_eq!(redo.object.unwrap().id, "a");
    assert_eq!(session(&app).state.manifest[0].reference_image, None);
    let redo = app.start_wizard_regenerate_object("a");
    assert_eq!(redo.stale.as_deref(), Some("/p/run/objects/a.mog"));
    assert_eq!(session(&app).state.manifest[0].mog_path, None);
    assert!(app.start_wizard_regenerate_object("zz").object.is_none());
}

#[test]
fn where_things_go() {
    let app = opened();
    let state = &session(&app).state;
    assert_eq!(reference_output(state, "a"), "/p/run/references/a.png");
    assert_eq!(module_output(state, "a"), "/p/run/objects/a.mog");
    assert_eq!(build_output("/p/run/scene.mog"), "/p/run/scene.glb");
    assert_eq!(build_output("/p/run/.scene"), "/p/run/.scene.glb");
    assert_eq!(build_output("/p/run/scene."), "/p/run/scene.glb");
    assert_eq!(build_output("/p/run/...mog"), "/p/run/...glb");
    assert!(read_source_image(state, Some(vec![1])).is_none());
    assert_eq!(module_picture(&obj("a"), Some(vec![1])).map(|p| p.mime), None);
    let mut o = obj("a");
    assert_eq!(review_picture_path(&o), None);
    o.reference_image = Some("/r.png".to_string());
    assert_eq!(review_picture_path(&o), Some("/r.png".to_string()));
    o.thumb_path = Some("/t.png".to_string());
    assert_eq!(review_picture_path(&o), Some("/t.png".to_string()));
}

#[test]
fn build_failures() {
    let messages = vec!["x".to_string(), "y".to_string()];
    assert_eq!(
        build_failure(&Some("lower".to_string()), &messages, false),
        Some("build failed at stage lower: x; y".to_string())
    );
    assert_eq!(
        build_failure(&None, &Vec::new(), false),
        Some("build produced no scene".to_string())
    );
    assert_eq!(build_failure(&None, &Vec::new(), true), None);
    let mut app = opened();
    assert!(app.start_wizard_assemble_and_build());
    assert_eq!(session(&app).status, "Assembling scene…");
}

#[test]
fn reviews() {
    let mut app = opened();
    state_of(&mut app).manifest = vec![obj("a")];
    assert!(app.start_wizard_object_review(true, "zz", None, 1).is_none());
    assert_eq!(session(&app).error.as_deref(), Some("Object zz no longer in manifest"));
    assert!(app.start_wizard_object_review(true, "a", None, 1).is_none());
    assert_eq!(
        session(&app).error.as_deref(),
        Some("No image available for a — generate a reference first.")
    );
    state_of(&mut app).manifest[0].reference_image = Some("/r.png".to_string());
    assert!(app.start_wizard_object_review(true, "a", None, 1).is_none());
    assert_eq!(session(&app).error.as_deref(), Some("Couldn't read image at /r.png"));
    let job = app.start_wizard_object_review(true, "a", Some(vec![3]), 1).unwrap();
    assert_eq!(job.object.id, "a");
    assert_eq!(job.picture.mime, "image/png");
    assert_eq!(session(&app).status, "Reviewing the a…");
    assert!(app.start_wizard_scene_review(true, None, 1).is_none());
    assert!(session(&app).error.as_ref().unwrap().starts_with("No scene screenshot yet"));
    state_of(&mut app).scene_thumb = Some("/t.png".to_string());
    let job = app.start_wizard_scene_review(true, Some(vec![1]), 1).unwrap();
    assert_eq!(job.manifest.len(), 1);
    assert!(session(&app).running == WizardBusy::SceneReview);
    app.settings.provider.supports_images = false;
    assert!(app.start_wizard_scene_review(true, Some(vec![1]), 1).is_none());
    assert_eq!(
        session(&app).error.as_deref(),
        Some("Provider Acme can't read images — pick a vision-capable provider in Preferences.")
    );
}

fn with_review(app: &mut MogenStudioApp) {
    let s = state_of(app);
    s.manifest = vec![obj("a"), obj("b")];
    s.scene_review = Some(SceneReview {
        notes: String::new(),
        corrections: vec![Correction {
            object_id: "b".to_string(),
            new_position: Some(triple(1.0, 2.0, 3.0)),
            new_rotation_y_deg: None,
            rationale: String::new(),
        }],
    });
}

#[test]
fn corrections_move_objects() {
    let mut app = opened();
    with_review(&mut app);
    assert_eq!(app.wizard_corrections_target(), None);
    assert_eq!(
        session(&app).error.as_deref(),
        Some("No assembly file to edit — build the scene first.")
    );
    state_of(&mut app).assembly_path = Some("/p/run/all.mog".to_string());
    assert_eq!(app.wizard_corrections_target(), Some("/p/run/all.mog".to_string()));
    assert!(!app.apply_wizard_corrections(CorrectionOutcome::Unreadable("gone".to_string())));
    assert_eq!(session(&app).error.as_deref(), Some("Couldn't read assembly: gone"));
    assert!(!app.apply_wizard_corrections(CorrectionOutcome::Edited {
        applied: 1,
        written: Err("full".to_string()),
    }));
    assert_eq!(session(&app).error.as_deref(), Some("Couldn't write corrected assembly: full"));
    assert!(app.apply_wizard_corrections(CorrectionOutcome::Edited {
        applied: 1,
        written: Ok(()),
    }));
    let m = &session(&app).state.manifest;
    assert!(m[1].position == triple(1.0, 2.0, 3.0));
    assert!(m[0].position == triple(0.0, 0.0, 0.0));
    assert_eq!(m[1].rotation_y_deg, 0);
    assert_eq!(session(&app).correction_iterations, 1);
}

#[test]
fn corrections_that_match_nothing() {
    let mut app = opened();
    with_review(&mut app);
    state_of(&mut app).assembly_path = Some("/p/run/all.mog".to_string());
    assert!(!app.apply_wizard_corrections(CorrectionOutcome::Edited {
        applied: 0,
        written: Ok(()),
    }));
    assert_eq!(session(&app).correction_iterations, 0);
}

#[test]
fn source_images() {
    let mut app = opened();
    let copy = app.pick_wizard_source_image("/home/Pic.JPG").unwrap();
    assert_eq!(copy.dest, "/p/run/source.jpg");
    assert_eq!(copy.stale, None);
    assert!(app.wizard_source_image_copied(copy.dest, Ok(())));
    assert_eq!(session(&app).state.source_image.as_deref(), Some("/p/run/source.jpg"));
    let copy = app.pick_wizard_source_image("/home/pic.bmp").unwrap();
    assert_eq!(copy.dest, "/p/run/source.png");
    assert_eq!(copy.stale.as_deref(), Some("/p/run/source.jpg"));
    assert!(!app.wizard_source_image_copied(copy.dest, Err("full".to_string())));
    assert_eq!(session(&app).error.as_deref(), Some("Couldn't copy source image: full"));
    assert_eq!(app.clear_wizard_source_image(), (true, None));
}

#[test]
fn the_assembly_and_its_screenshot() {
    let mut app = opened();
    let mut disk = IdSet::new();
    assert_eq!(app.open_wizard_assembly_in_tab(&disk), None);
    assert!(app.show_wizard);
    assert_eq!(app.capture_wizard_scene(&disk), None);
    state_of(&mut app).assembly_path = Some("/p/run/all.mog".to_string());
    assert_eq!(app.capture_wizard_scene(&disk), None);
    assert_eq!(
        session(&app).error.as_deref(),
        Some("Assembly file missing on disk: /p/run/all.mog")
    );
    disk.insert("/p/run/all.mog".to_string());
    assert_eq!(
        app.capture_wizard_scene(&disk),
        Some(("/p/run/all.mog".to_string(), "/p/run/scene_thumb.png".to_string()))
    );
    assert_eq!(app.open_wizard_assembly_in_tab(&disk), Some("/p/run/all.mog".to_string()));
    assert!(!app.show_wizard);
}

#[test]
fn polling() {
    let mut app = opened();
    let disk = IdSet::new();
    let s = state_of(&mut app);
    s.manifest = vec![obj("a"), obj("b")];
    s.stage = Stage::References;
    app.wizard.as_mut().unwrap().auto_continue_refs = true;
    let plan = app.poll_wizard(None, Vec::new(), &disk);
    assert!(plan.refill_references && !plan.refill_modules && !plan.save);
    assert!(!app.wizard_repaints());
    assert!(app.start_wizard_reference_batch(true, 3, true, &disk, None, 0).is_some());
    assert!(app.wizard_repaints());
    app.wizard.as_mut().unwrap().running_ref_ids.clear();
    app.wizard.as_mut().unwrap().running_ref_ids.insert("a".to_string());
    let plan = app.poll_wizard(
        Some(CaptureOutcome { error: None, last_frame: Some("/f.png".to_string()) }),
        vec![WizardMessage::ReferenceDone { id: "a".to_string(), result: Err("x".to_string()) }],
        &disk,
    );
    assert!(plan.save && !plan.refill_references);
    assert_eq!(session(&app).state.scene_thumb.as_deref(), Some("/f.png"));
    let quiet = studio().poll_wizard(None, Vec::new(), &disk);
    assert!(!quiet.save && !quiet.refill_references && !quiet.refill_modules);
    assert!(!studio().wizard_repaints());
}

#[test]
fn removing_objects() {
    let mut app = opened();
    state_of(&mut app).manifest = vec![obj("a"), obj("b"), obj("a")];
    assert!(app.remove_wizard_object("a".to_string()));
    assert_eq!(session(&app).state.manifest.len(), 1);
    assert_eq!(session(&app).state.manifest[0].id, "b");
}

#[test]
fn what_the_stages_show() {
    let mut app = opened();
    let strip = stage_strip(Stage::Brief);
    assert_eq!(strip.len(), 10);
    assert!(strip[2].active && strip[1].reached && !strip[3].reached);
    assert!(strip[0].arrow && !strip[9].arrow);
    assert!(location_ready(session(&app)));
    assert!(!prompt_view(session(&app)).can_run);
    app.wizard.as_mut().unwrap().prompt_draft = "x".to_string();
    assert!(prompt_view(session(&app)).can_run);
    assert!(matches!(brief_view(session(&app)).body, BriefBody::Missing));
    edit_brief(app.wizard.as_mut().unwrap(), "text".to_string());
    assert_eq!(session(&app).state.brief.as_deref(), Some("text"));
    assert!(matches!(brief_view(session(&app)).body, BriefBody::Text));
    assert!(matches!(manifest_view(session(&app)).body, ManifestBody::Missing));
    state_of(&mut app).manifest = vec![obj("a"), obj("b")];
    assert!(matches!(manifest_view(session(&app)).body, ManifestBody::Planned));
    assert_eq!(manifest_caption(&obj("a")), "( • id=a)");
    let mut disk = IdSet::new();
    disk.insert("/a.png".to_string());
    state_of(&mut app).manifest[0].reference_image = Some("/a.png".to_string());
    let refs = references_view(session(&app), &disk);
    assert_eq!((refs.total, refs.done, refs.pending), (2, 1, 1));
    assert!(refs.can_next && refs.can_auto);
    let modules = objects_view(session(&app), &disk);
    assert_eq!((modules.total, modules.done), (2, 0));
    assert!(modules.can_advance);
    assert!(assemble_view(session(&app)).can_run);
    assert_eq!(done_view(session(&app)), (None, None));
    let rows = review_rows(session(&app));
    assert_eq!(rows.len(), 2);
    assert!(matches!(rows[0], ReviewRow::Open { .. }));
    assert!(!scene_review_view(session(&app)).can_apply);
}
