//! Folding a finished worker's message into the live session.

use vstd::prelude::*;

use super::session::{WizardBusy, WizardMessage, WizardSession};
use super::state::{object_at, ObjectEntry, ObjectGenResult, Stage, WizardState};
use crate::text::{cat2, cat3, cat4, decimal, decimal_digits, opt_view};

verus! {

/// The objects with the reference image of the first one called `id` set.
pub open spec fn with_reference(m: Seq<ObjectEntry>, id: Seq<char>, path: String) -> Seq<
    ObjectEntry,
> {
    match object_at(m, id) {
        Some(i) => m.update(i, ObjectEntry { reference_image: Some(path), ..m[i] }),
        None => m,
    }
}

/// The objects with the module of the first one called `id` set.
pub open spec fn with_module(m: Seq<ObjectEntry>, id: Seq<char>, r: ObjectGenResult) -> Seq<
    ObjectEntry,
> {
    match object_at(m, id) {
        Some(i) => m.update(
            i,
            ObjectEntry { mog_path: Some(r.mog_path), position_guide: Some(r.guide), ..m[i] },
        ),
        None => m,
    }
}

/// What a message does: `post` is the session after it, and `save` says that
/// the run is to be written to disk.
pub open spec fn message_applied(
    pre: WizardSession,
    msg: WizardMessage,
    post: WizardSession,
    save: bool,
) -> bool {
    match msg {
        WizardMessage::BriefDone(Ok(text)) => {
            &&& save
            &&& post == (WizardSession {
                running: WizardBusy::Idle,
                state: WizardState { brief: Some(text), stage: Stage::Brief, ..pre.state },
                status: post.status,
                ..pre
            })
            &&& post.status@ == "Brief generated."@
        },
        WizardMessage::BriefDone(Err(e)) => {
            &&& !save
            &&& post == (WizardSession { running: WizardBusy::Idle, error: post.error, ..pre })
            &&& opt_view(post.error) == Some("Brief failed: "@ + e@)
        },
        WizardMessage::ManifestDone(Ok(list)) => {
            &&& save
            &&& post == (WizardSession {
                running: WizardBusy::Idle,
                state: WizardState { manifest: list, stage: Stage::Manifest, ..pre.state },
                status: post.status,
                ..pre
            })
            &&& post.status@ == "Manifest generated ("@ + decimal_digits(list@.len())
                + " objects)."@
        },
        WizardMessage::ManifestDone(Err(e)) => {
            &&& !save
            &&& post == (WizardSession { running: WizardBusy::Idle, error: post.error, ..pre })
            &&& opt_view(post.error) == Some("Manifest failed: "@ + e@)
        },
        WizardMessage::ReferenceDone { id, result: Ok(path) } => {
            &&& save
            &&& post == (WizardSession {
                running_ref_ids: post.running_ref_ids,
                state: WizardState { manifest: post.state.manifest, ..pre.state },
                status: post.status,
                ..pre
            })
            &&& post.running_ref_ids@ == pre.running_ref_ids@.remove(id@)
            &&& post.state.manifest@ == with_reference(pre.state.manifest@, id@, path)
            &&& post.status@ == "Reference for "@ + id@ + " ready."@
        },
        WizardMessage::ReferenceDone { id, result: Err(e) } => {
            &&& !save
            &&& post == (WizardSession {
                running_ref_ids: post.running_ref_ids,
                auto_continue_refs: false,
                error: post.error,
                ..pre
            })
            &&& post.running_ref_ids@ == pre.running_ref_ids@.remove(id@)
            &&& opt_view(post.error) == Some(
                "Reference for "@ + id@ + " failed: "@ + e@,
            )
        },
        WizardMessage::ObjectDone { id, result: Ok(r) } => {
            &&& save
            &&& post == (WizardSession {
                running_object_ids: post.running_object_ids,
                state: WizardState { manifest: post.state.manifest, ..pre.state },
                status: post.status,
                ..pre
            })
            &&& post.running_object_ids@ == pre.running_object_ids@.remove(id@)
            &&& post.state.manifest@ == with_module(pre.state.manifest@, id@, r)
            &&& post.status@ == "Module for "@ + id@ + " ready."@
        },
        WizardMessage::ObjectDone { id, result: Err(e) } => {
            &&& !save
            &&& post == (WizardSession {
                running_object_ids: post.running_object_ids,
                auto_continue_objects: false,
                error: post.error,
                ..pre
            })
            &&& post.running_object_ids@ == pre.running_object_ids@.remove(id@)
            &&& opt_view(post.error) == Some("Module for "@ + id@ + " failed: "@ + e@)
        },
        WizardMessage::ObjectReviewDone { id, result: Ok(r) } => {
            &&& save
            &&& post == (WizardSession {
                running: WizardBusy::Idle,
                state: WizardState {
                    per_object_reviews: post.state.per_object_reviews,
                    ..pre.state
                },
                status: post.status,
                ..pre
            })
            &&& post.state.per_object_reviews@ == pre.state.per_object_reviews@.insert(id@, r)
            &&& post.status@ == "Reviewed "@ + id@ + "."@
        },
        WizardMessage::ObjectReviewDone { id, result: Err(e) } => {
            &&& !save
            &&& post == (WizardSession { running: WizardBusy::Idle, error: post.error, ..pre })
            &&& opt_view(post.error) == Some(
                "Object review for "@ + id@ + " failed: "@ + e@,
            )
        },
        WizardMessage::SceneReviewDone(Ok(r)) => {
            &&& save
            &&& post == (WizardSession {
                running: WizardBusy::Idle,
                state: WizardState { scene_review: Some(r), ..pre.state },
                status: post.status,
                ..pre
            })
            &&& post.status@ == "Scene review returned "@ + decimal_digits(
                r.corrections@.len(),
            ) + " correction(s)."@
        },
        WizardMessage::SceneReviewDone(Err(e)) => {
            &&& !save
            &&& post == (WizardSession { running: WizardBusy::Idle, error: post.error, ..pre })
            &&& opt_view(post.error) == Some("Scene review failed: "@ + e@)
        },
        WizardMessage::AssemblyDone(Ok(path)) => {
            &&& save
            &&& post == (WizardSession {
                running: WizardBusy::Build,
                state: WizardState { assembly_path: Some(path), ..pre.state },
                status: post.status,
                ..pre
            })
            &&& post.status@ == "Assembly written; building GLB…"@
        },
        WizardMessage::AssemblyDone(Err(e)) => {
            &&& !save
            &&& post == (WizardSession { running: WizardBusy::Idle, error: post.error, ..pre })
            &&& opt_view(post.error) == Some("Assemble failed: "@ + e@)
        },
        WizardMessage::BuildDone(Ok(path)) => {
            &&& save
            &&& post == (WizardSession {
                running: WizardBusy::Idle,
                state: WizardState { built_glb: Some(path), ..pre.state },
                status: post.status,
                ..pre
            })
            &&& post.status@ == "Built "@ + path@ + "."@
        },
        WizardMessage::BuildDone(Err(e)) => {
            &&& !save
            &&& post == (WizardSession { running: WizardBusy::Idle, error: post.error, ..pre })
            &&& opt_view(post.error) == Some("Build failed: "@ + e@)
        },
    }
}

/// Folds a worker's message into the session. Returns whether the run is to be
/// written to disk.
pub fn apply_wizard_message(session: &mut WizardSession, msg: WizardMessage) -> (save: bool)
    ensures
        message_applied(*old(session), msg, *final(session), save),
{
    match msg {
        WizardMessage::BriefDone(result) => {
            session.running = WizardBusy::Idle;
            match result {
                Ok(text) => {
                    session.state.brief = Some(text);
                    session.state.stage = Stage::Brief;
                    session.status = "Brief generated.".to_owned();
                    true
                },
                Err(e) => {
                    session.error = Some(cat2("Brief failed: ", e.as_str()));
                    false
                },
            }
        },
        WizardMessage::ManifestDone(result) => {
            session.running = WizardBusy::Idle;
            match result {
                Ok(list) => {
                    let n = decimal(list.len());
                    session.state.manifest = list;
                    session.state.stage = Stage::Manifest;
                    session.status = cat3("Manifest generated (", n.as_str(), " objects).");
                    true
                },
                Err(e) => {
                    session.error = Some(cat2("Manifest failed: ", e.as_str()));
                    false
                },
            }
        },
        WizardMessage::ReferenceDone { id, result } => {
            session.running_ref_ids.remove(id.as_str());
            match result {
                Ok(path) => {
                    if let Some(i) = session.state.object_index(id.as_str()) {
                        session.state.manifest[i].reference_image = Some(path);
                    }
                    session.status = cat3("Reference for ", id.as_str(), " ready.");
                    true
                },
                Err(e) => {
                    // A failure stops the bulk run before it spends more.
                    session.auto_continue_refs = false;
                    session.error =
                    Some(cat4("Reference for ", id.as_str(), " failed: ", e.as_str()));
                    false
                },
            }
        },
        WizardMessage::ObjectDone { id, result } => {
            session.running_object_ids.remove(id.as_str());
            match result {
                Ok(r) => {
                    if let Some(i) = session.state.object_index(id.as_str()) {
                        session.state.manifest[i].mog_path = Some(r.mog_path);
                        session.state.manifest[i].position_guide = Some(r.guide);
                    }
                    assert(session.state.manifest@ =~= with_module(
                        old(session).state.manifest@,
                        id@,
                        r,
                    ));
                    session.status = cat3("Module for ", id.as_str(), " ready.");
                    true
                },
                Err(e) => {
                    session.auto_continue_objects = false;
                    session.error =
                    Some(cat4("Module for ", id.as_str(), " failed: ", e.as_str()));
                    false
                },
            }
        },
        WizardMessage::ObjectReviewDone { id, result } => {
            session.running = WizardBusy::Idle;
            match result {
                Ok(r) => {
                    session.status = cat3("Reviewed ", id.as_str(), ".");
                    session.state.per_object_reviews.insert(id, r);
                    true
                },
                Err(e) => {
                    session.error =
                    Some(cat4("Object review for ", id.as_str(), " failed: ", e.as_str()));
                    false
                },
            }
        },
        WizardMessage::SceneReviewDone(result) => {
            session.running = WizardBusy::Idle;
            match result {
                Ok(r) => {
                    let n = decimal(r.corrections.len());
                    session.state.scene_review = Some(r);
                    session.status =
                    cat3("Scene review returned ", n.as_str(), " correction(s).");
                    true
                },
                Err(e) => {
                    session.error = Some(cat2("Scene review failed: ", e.as_str()));
                    false
                },
            }
        },
        WizardMessage::AssemblyDone(result) => match result {
            Ok(path) => {
                session.state.assembly_path = Some(path);
                session.running = WizardBusy::Build;
                session.status = "Assembly written; building GLB…".to_owned();
                true
            },
            Err(e) => {
                session.running = WizardBusy::Idle;
                session.error = Some(cat2("Assemble failed: ", e.as_str()));
                false
            },
        },
        WizardMessage::BuildDone(result) => {
            session.running = WizardBusy::Idle;
            match result {
                Ok(path) => {
                    session.status = cat3("Built ", path.as_str(), ".");
                    session.state.built_glb = Some(path);
                    true
                },
                Err(e) => {
                    session.error = Some(cat2("Build failed: ", e.as_str()));
                    false
                },
            }
        },
    }
}

} // verus!
