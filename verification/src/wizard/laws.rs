//! What holds across the functions of the wizard.

use vstd::prelude::*;

use super::claim::{absent, ids_of, lemma_ids_of, unclaimed, wants_module, wants_reference};
use super::lifecycle::{
    in_flight, messages_applied, polled, screenshot_taken, wants_modules, wants_references,
    CaptureOutcome, PollPlan,
};
use super::message::{apply_wizard_message, message_applied};
use super::session::{BATCH_SIZE, WizardBusy, WizardMessage, WizardSession};
use super::state::{lemma_object_at, lemma_object_found, ObjectEntry, Stage};
use super::workers::{module_batch_begun, reference_batch_begun};
use crate::text::decimal_digits;

verus! {

/// Whether a message reports success.
pub open spec fn succeeded(msg: WizardMessage) -> bool {
    match msg {
        WizardMessage::BriefDone(r) => r is Ok,
        WizardMessage::ManifestDone(r) => r is Ok,
        WizardMessage::ReferenceDone { id, result } => result is Ok,
        WizardMessage::ObjectDone { id, result } => result is Ok,
        WizardMessage::ObjectReviewDone { id, result } => result is Ok,
        WizardMessage::SceneReviewDone(r) => r is Ok,
        WizardMessage::AssemblyDone(r) => r is Ok,
        WizardMessage::BuildDone(r) => r is Ok,
    }
}

/// A run is saved exactly after a success. A failure leaves the run as it was
/// and is always shown.
pub proof fn law_failure_keeps_the_run(
    pre: WizardSession,
    msg: WizardMessage,
    post: WizardSession,
    save: bool,
)
    requires
        message_applied(pre, msg, post, save),
    ensures
        save == succeeded(msg),
        !succeeded(msg) ==> post.state == pre.state && post.error is Some,
        succeeded(msg) ==> post.error == pre.error,
{
}

/// A failed worker stops the bulk run that it belongs to, so that the next
/// poll starts nothing of its kind.
pub proof fn law_failure_stops_the_bulk_run(
    pre: WizardSession,
    msg: WizardMessage,
    post: WizardSession,
    save: bool,
    on_disk: Set<Seq<char>>,
)
    requires
        message_applied(pre, msg, post, save),
        !succeeded(msg),
    ensures
        msg is ReferenceDone ==> !post.auto_continue_refs && !wants_references(post, on_disk),
        msg is ObjectDone ==> !post.auto_continue_objects && !wants_modules(post, on_disk),
{
}

/// A finished worker frees its own place and no other, whether it succeeded or
/// not, and no message ever reserves a place.
pub proof fn law_message_frees_its_own_place(
    pre: WizardSession,
    msg: WizardMessage,
    post: WizardSession,
    save: bool,
)
    requires
        message_applied(pre, msg, post, save),
    ensures
        post.running_ref_ids@ == match msg {
            WizardMessage::ReferenceDone { id, result } => pre.running_ref_ids@.remove(id@),
            _ => pre.running_ref_ids@,
        },
        post.running_object_ids@ == match msg {
            WizardMessage::ObjectDone { id, result } => pre.running_object_ids@.remove(id@),
            _ => pre.running_object_ids@,
        },
{
}

/// A message moves the run to another stage only when a brief or a manifest
/// has just arrived.
pub proof fn law_only_brief_and_manifest_move_the_run(
    pre: WizardSession,
    msg: WizardMessage,
    post: WizardSession,
    save: bool,
)
    requires
        message_applied(pre, msg, post, save),
    ensures
        post.state.stage == match msg {
            WizardMessage::BriefDone(Ok(_)) => Stage::Brief,
            WizardMessage::ManifestDone(Ok(_)) => Stage::Manifest,
            _ => pre.state.stage,
        },
{
}

proof fn lemma_unsaved_tail(
    trace: Seq<WizardSession>,
    msgs: Seq<WizardMessage>,
    saves: Seq<bool>,
    from: int,
    to: int,
)
    requires
        messages_applied(trace, msgs, saves),
        0 <= from <= to <= msgs.len(),
        forall|i: int| from <= i < to ==> !(#[trigger] saves[i]),
    ensures
        trace[to].state == trace[from].state,
    decreases to - from,
{
    if from < to {
        lemma_unsaved_tail(trace, msgs, saves, from, to - 1);
        assert(!saves[to - 1]);
        assert(message_applied(trace[to - 1], msgs[to - 1], trace[to - 1 + 1], saves[to - 1]));
    }
}

/// Nothing is lost by saving: the messages after the last one that asked for a
/// save leave the run as it was saved.
pub proof fn law_last_save_is_current(
    trace: Seq<WizardSession>,
    msgs: Seq<WizardMessage>,
    saves: Seq<bool>,
    k: int,
)
    requires
        messages_applied(trace, msgs, saves),
        0 <= k <= msgs.len(),
        forall|i: int| k <= i < saves.len() ==> !(#[trigger] saves[i]),
    ensures
        trace.last().state == trace[k].state,
{
    lemma_unsaved_tail(trace, msgs, saves, k, msgs.len() as int);
}

/// A poll that does not ask for a save has not changed the run.
pub proof fn law_quiet_poll_keeps_the_run(
    pre: WizardSession,
    outcome: Option<CaptureOutcome>,
    msgs: Seq<WizardMessage>,
    on_disk: Set<Seq<char>>,
    post: WizardSession,
    plan: PollPlan,
)
    requires
        polled(pre, outcome, msgs, on_disk, post, plan),
        !plan.save,
    ensures
        post.state == pre.state,
{
    let (trace, saves, shot) = choose|trace: Seq<WizardSession>, saves: Seq<bool>, shot: bool|
        {
            &&& #[trigger] messages_applied(trace, msgs, saves)
            &&& #[trigger] screenshot_taken(pre, outcome, trace[0], shot)
            &&& trace.last() == post
            &&& plan.save == (shot || exists|i: int| 0 <= i < saves.len() && #[trigger] saves[i])
            &&& plan.refill_references == wants_references(post, on_disk)
            &&& plan.refill_modules == wants_modules(post, on_disk)
        };
    law_last_save_is_current(trace, msgs, saves, 0);
}

/// A batch of reference workers never brings more of them in flight than its
/// target (nor more than there were).
pub proof fn law_reference_batch_keeps_within_target(
    pre: WizardSession,
    target: nat,
    auto_continue: bool,
    on_disk: Set<Seq<char>>,
    post: WizardSession,
    out: Seq<ObjectEntry>,
)
    requires
        pre.running_ref_ids@.finite(),
        reference_batch_begun(pre, target as int, auto_continue, on_disk, post, out),
    ensures
        post.running_ref_ids@.len() <= target || post.running_ref_ids@.len()
            <= pre.running_ref_ids@.len(),
{
    if pre.running_ref_ids@.len() < target {
        lemma_ids_of(out);
        vstd::set_lib::lemma_len_union(pre.running_ref_ids@, ids_of(out));
    }
}

/// A batch of module workers never brings more of them in flight than its
/// target (nor more than there were).
pub proof fn law_module_batch_keeps_within_target(
    pre: WizardSession,
    target: nat,
    auto_continue: bool,
    on_disk: Set<Seq<char>>,
    post: WizardSession,
    out: Seq<ObjectEntry>,
)
    requires
        pre.running_object_ids@.finite(),
        module_batch_begun(pre, target as int, auto_continue, on_disk, post, out),
    ensures
        post.running_object_ids@.len() <= target || post.running_object_ids@.len()
            <= pre.running_object_ids@.len(),
{
    if pre.running_object_ids@.len() < target {
        lemma_ids_of(out);
        vstd::set_lib::lemma_len_union(pre.running_object_ids@, ids_of(out));
    }
}

/// A refill of reference workers that the poll asked for claims at least one
/// object, so that a worker is out after it and the window keeps being painted.
pub proof fn law_reference_refill_makes_progress(
    pre: WizardSession,
    on_disk: Set<Seq<char>>,
    post: WizardSession,
    out: Seq<ObjectEntry>,
)
    requires
        wants_references(pre, on_disk),
        reference_batch_begun(pre, BATCH_SIZE as int, true, on_disk, post, out),
    ensures
        out.len() > 0,
        post.auto_continue_refs,
        in_flight(post),
{
    let m = pre.state.manifest@;
    let f = unclaimed(wants_reference(on_disk), pre.running_ref_ids@);
    let k = choose|k: int|
        0 <= k < m.len() && absent((#[trigger] m[k]).reference_image, on_disk)
            && !pre.running_ref_ids@.contains(m[k].id@);
    m.lemma_filter_contains(f, k);
    let i = choose|i: int| 0 <= i < m.filter(f).len() && m.filter(f)[i] == m[k];
    assert(m.filter(f).len() > 0);
    lemma_ids_of(out);
    assert(post.running_ref_ids@.contains(out[0].id@));
}

/// A refill of module workers that the poll asked for claims at least one
/// object, so that a worker is out after it and the window keeps being painted.
pub proof fn law_module_refill_makes_progress(
    pre: WizardSession,
    on_disk: Set<Seq<char>>,
    post: WizardSession,
    out: Seq<ObjectEntry>,
)
    requires
        wants_modules(pre, on_disk),
        module_batch_begun(pre, BATCH_SIZE as int, true, on_disk, post, out),
    ensures
        out.len() > 0,
        post.auto_continue_objects,
        in_flight(post),
{
    let m = pre.state.manifest@;
    let f = unclaimed(wants_module(on_disk), pre.running_object_ids@);
    let k = choose|k: int|
        0 <= k < m.len() && absent((#[trigger] m[k]).mog_path, on_disk)
            && !pre.running_object_ids@.contains(m[k].id@);
    m.lemma_filter_contains(f, k);
    let i = choose|i: int| 0 <= i < m.filter(f).len() && m.filter(f)[i] == m[k];
    assert(m.filter(f).len() > 0);
    lemma_ids_of(out);
    assert(post.running_object_ids@.contains(out[0].id@));
}

/// What a worker found is in the run afterwards, whatever it holds: the brief,
/// the manifest, the verdicts, and the files.
pub proof fn law_success_is_kept(session: &mut WizardSession, msg: WizardMessage, save: bool)
    requires
        call_ensures(apply_wizard_message, (session, msg), save),
    ensures
        msg matches WizardMessage::BriefDone(Ok(text)) ==> final(session).state.brief == Some(text),
        msg matches WizardMessage::ManifestDone(Ok(list)) ==> final(session).state.manifest == list,
        msg matches WizardMessage::ObjectReviewDone { id, result: Ok(r) } ==> {
            &&& final(session).state.per_object_reviews@.contains_key(id@)
            &&& final(session).state.per_object_reviews@[id@] == r
        },
        msg matches WizardMessage::SceneReviewDone(Ok(r)) ==> final(session).state.scene_review
            == Some(r),
        msg matches WizardMessage::AssemblyDone(Ok(path)) ==> final(session).state.assembly_path
            == Some(path),
        msg matches WizardMessage::BuildDone(Ok(path)) ==> final(session).state.built_glb == Some(
            path,
        ),
{
}

/// A finished worker of an object is found at the first object with its id:
/// the reference image, or the module with its guide. No other object changes,
/// nor anything else of that one.
pub proof fn law_success_reaches_its_object(
    session: &mut WizardSession,
    msg: WizardMessage,
    save: bool,
    i: int,
)
    requires
        call_ensures(apply_wizard_message, (session, msg), save),
        0 <= i < old(session).state.manifest@.len(),
    ensures
        msg matches WizardMessage::ReferenceDone { id, result: Ok(path) } ==> {
            let hit = old(session).state.manifest@[i].id@ == id@ && forall|j: int|
                0 <= j < i ==> (#[trigger] old(session).state.manifest@[j]).id@ != id@;
            &&& final(session).state.manifest@.len() == old(session).state.manifest@.len()
            &&& hit ==> final(session).state.manifest@[i] == (ObjectEntry {
                reference_image: Some(path),
                ..old(session).state.manifest@[i]
            })
            &&& !hit ==> final(session).state.manifest@[i] == old(session).state.manifest@[i]
        },
        msg matches WizardMessage::ObjectDone { id, result: Ok(r) } ==> {
            let hit = old(session).state.manifest@[i].id@ == id@ && forall|j: int|
                0 <= j < i ==> (#[trigger] old(session).state.manifest@[j]).id@ != id@;
            &&& final(session).state.manifest@.len() == old(session).state.manifest@.len()
            &&& hit ==> final(session).state.manifest@[i] == (ObjectEntry {
                mog_path: Some(r.mog_path),
                position_guide: Some(r.guide),
                ..old(session).state.manifest@[i]
            })
            &&& !hit ==> final(session).state.manifest@[i] == old(session).state.manifest@[i]
        },
{
    let m = old(session).state.manifest@;
    let id = match msg {
        WizardMessage::ReferenceDone { id, result } => id@,
        WizardMessage::ObjectDone { id, result } => id@,
        _ => m[i].id@,
    };
    lemma_object_found(m, id);
    if m[i].id@ == id && forall|j: int| 0 <= j < i ==> (#[trigger] m[j]).id@ != id {
        lemma_object_at(m, id, i);
    }
}

/// A message changes no part of the run but the one that it is about. The
/// verdicts on other objects stay with a new one.
pub proof fn law_message_keeps_the_rest(
    session: &mut WizardSession,
    msg: WizardMessage,
    save: bool,
    other: Seq<char>,
)
    requires
        call_ensures(apply_wizard_message, (session, msg), save),
    ensures
        !(msg is BriefDone) ==> final(session).state.brief == old(session).state.brief,
        !(msg is ManifestDone || msg is ReferenceDone || msg is ObjectDone)
            ==> final(session).state.manifest == old(session).state.manifest,
        !(msg is ObjectReviewDone) ==> final(session).state.per_object_reviews == old(session).state.per_object_reviews,
        msg matches WizardMessage::ObjectReviewDone { id, result } ==> other != id@ ==> {
            &&& final(session).state.per_object_reviews@.contains_key(other) == old(session).state.per_object_reviews@.contains_key(other)
            &&& final(session).state.per_object_reviews@[other] == old(session).state.per_object_reviews@[other]
        },
        !(msg is SceneReviewDone) ==> final(session).state.scene_review == old(session).state.scene_review,
        !(msg is AssemblyDone) ==> final(session).state.assembly_path == old(session).state.assembly_path,
        !(msg is BuildDone) ==> final(session).state.built_glb == old(session).state.built_glb,
        final(session).state.project_dir == old(session).state.project_dir,
        final(session).state.prompt == old(session).state.prompt,
        final(session).state.seed == old(session).state.seed,
        final(session).state.source_image == old(session).state.source_image,
        final(session).state.scene_thumb == old(session).state.scene_thumb,
        final(session).prompt_draft == old(session).prompt_draft,
        final(session).location_draft == old(session).location_draft,
        final(session).correction_iterations == old(session).correction_iterations,
        final(session).apply_corrections_armed == old(session).apply_corrections_armed,
        !(msg is ReferenceDone) ==> final(session).auto_continue_refs == old(session).auto_continue_refs,
        !(msg is ObjectDone) ==> final(session).auto_continue_objects == old(session).auto_continue_objects,
        succeeded(msg) ==> final(session).auto_continue_refs == old(session).auto_continue_refs
            && final(session).auto_continue_objects == old(session).auto_continue_objects,
        !succeeded(msg) ==> final(session).status == old(session).status,
{
}

/// The stage worker is in again once it has reported, except that an assembly
/// goes straight into its build. The workers of single objects are counted
/// apart and leave it alone.
pub proof fn law_message_ends_the_stage_worker(
    session: &mut WizardSession,
    msg: WizardMessage,
    save: bool,
)
    requires
        call_ensures(apply_wizard_message, (session, msg), save),
    ensures
        msg is BriefDone || msg is ManifestDone || msg is ObjectReviewDone || msg is SceneReviewDone
            || msg is BuildDone ==> final(session).running == WizardBusy::Idle,
        msg matches WizardMessage::AssemblyDone(r) ==> final(session).running == if r is Ok {
            WizardBusy::Build
        } else {
            WizardBusy::Idle
        },
        msg is ReferenceDone || msg is ObjectDone ==> final(session).running == old(session).running,
        save == succeeded(msg),
{
}

/// What went wrong is shown word for word at the end of the error, and an
/// error of one object names the object.
pub proof fn law_failure_is_shown(
    session: &mut WizardSession,
    msg: WizardMessage,
    save: bool,
    why: String,
)
    requires
        call_ensures(apply_wizard_message, (session, msg), save),
        match msg {
            WizardMessage::BriefDone(r) => r == Err::<String, String>(why),
            WizardMessage::ManifestDone(r) => r == Err::<Vec<ObjectEntry>, String>(why),
            WizardMessage::ReferenceDone { id, result } => result == Err::<String, String>(why),
            WizardMessage::ObjectDone { id, result } => result matches Err(e) && e == why,
            WizardMessage::ObjectReviewDone { id, result } => result matches Err(e) && e == why,
            WizardMessage::SceneReviewDone(r) => r matches Err(e) && e == why,
            WizardMessage::AssemblyDone(r) => r == Err::<String, String>(why),
            WizardMessage::BuildDone(r) => r == Err::<String, String>(why),
        },
    ensures
        final(session).error is Some,
        why@.is_suffix_of(final(session).error->0@),
        msg matches WizardMessage::ReferenceDone { id, result } ==> ("Reference for "@
            + id@).is_prefix_of(final(session).error->0@),
        msg matches WizardMessage::ObjectDone { id, result } ==> ("Module for "@
            + id@).is_prefix_of(final(session).error->0@),
        msg matches WizardMessage::ObjectReviewDone { id, result } ==> ("Object review for "@
            + id@).is_prefix_of(final(session).error->0@),
{
    let e = final(session).error->0@;
    assert(e.skip(e.len() - why@.len()) =~= why@);
    match msg {
        WizardMessage::ReferenceDone { id, result } => {
            let p = "Reference for "@ + id@;
            assert(e.take(p.len() as int) =~= p);
        },
        WizardMessage::ObjectDone { id, result } => {
            let p = "Module for "@ + id@;
            assert(e.take(p.len() as int) =~= p);
        },
        WizardMessage::ObjectReviewDone { id, result } => {
            let p = "Object review for "@ + id@;
            assert(e.take(p.len() as int) =~= p);
        },
        _ => {},
    }
}

/// The status after a success tells what is there: it counts the objects of a
/// manifest and the corrections of a review, and names the object or the file.
pub proof fn law_success_is_announced(session: &mut WizardSession, msg: WizardMessage, save: bool)
    requires
        call_ensures(apply_wizard_message, (session, msg), save),
    ensures
        msg matches WizardMessage::ManifestDone(Ok(list)) ==> final(session).status@
            == "Manifest generated ("@ + decimal_digits(
            final(session).state.manifest@.len(),
        ) + " objects)."@,
        msg matches WizardMessage::SceneReviewDone(Ok(r)) ==> final(session).status@
            == "Scene review returned "@ + decimal_digits(
            (final(session).state.scene_review->0).corrections@.len(),
        ) + " correction(s)."@,
        msg matches WizardMessage::ReferenceDone { id, result: Ok(_) } ==> final(session).status@
            == "Reference for "@ + id@ + " ready."@,
        msg matches WizardMessage::ObjectDone { id, result: Ok(_) } ==> final(session).status@
            == "Module for "@ + id@ + " ready."@,
        msg matches WizardMessage::ObjectReviewDone { id, result: Ok(_) } ==> final(session).status@ == "Reviewed "@ + id@ + "."@,
        msg matches WizardMessage::BuildDone(Ok(path)) ==> final(session).status@ == "Built "@
            + path@ + "."@,
{
}

} // verus!
