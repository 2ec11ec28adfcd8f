//! Opening, polling, moving through and resetting the wizard.

use vstd::prelude::*;

use super::claim::{absent, next_pending_object_skipping, next_pending_reference_skipping};
use super::message::{apply_wizard_message, message_applied};
use super::session::{BATCH_SIZE, WizardBusy, WizardMessage, WizardSession};
use super::state::{is_fresh, Stage, WizardState};
use crate::ids::IdSet;
use crate::paths::{is_join, is_parent, path_join, path_parent};
use crate::studio::MogenStudioApp;
use crate::text::{cat2, opt_view};

verus! {

/// What a run takes over from the preferences.
pub struct WizardRunConfig {
    pub model: String,
    pub provider: String,
    pub thinking: String,
    /// A single-precision number, as its bit pattern.
    pub temperature: u32,
    pub max_repair_iters: u32,
    pub seed: u64,
    pub style: String,
    pub session_id: String,
}

/// Whether a session starts with nothing out, nothing failed and an unsaved
/// run at the location stage.
pub open spec fn is_new_session(s: WizardSession, seed: u64) -> bool {
    &&& is_fresh(s.state, Seq::<char>::empty(), seed, Stage::Location)
    &&& s.status@
        == "Choose where wizard artefacts (objects, references, state.json) will be saved."@
    &&& s.error is None
    &&& s.running == WizardBusy::Idle
    &&& s.prompt_draft@ == Seq::<char>::empty()
    &&& !s.apply_corrections_armed
    &&& s.correction_iterations == 0
    &&& s.running_ref_ids@ == Set::<Seq<char>>::empty()
    &&& s.running_object_ids@ == Set::<Seq<char>>::empty()
    &&& !s.auto_continue_refs
    &&& !s.auto_continue_objects
}

/// Whether nothing but the wizard session differs, and it is there after if it
/// was there before.
pub open spec fn only_session(pre: MogenStudioApp, post: MogenStudioApp) -> bool {
    &&& post == (MogenStudioApp { wizard: post.wizard, ..pre })
    &&& post.wizard is Some == pre.wizard is Some
}

/// Whether `dir` may be the folder proposed for a wizard run: `wizard` under
/// the parent of the file in the foreground, or under the project root when
/// that file has no path or its path no parent.
pub open spec fn proposed_dir(path: Option<String>, root: Seq<char>, dir: Seq<char>) -> bool {
    match path {
        None => is_join(root, "wizard"@, dir),
        Some(p) => exists|parent: Option<Seq<char>>| #[trigger]
            is_parent(p@, parent) && under_parent(parent, root, dir),
    }
}

/// Whether `dir` is `wizard` under `parent`, or under `root` without one.
pub open spec fn under_parent(
    parent: Option<Seq<char>>,
    root: Seq<char>,
    dir: Seq<char>,
) -> bool {
    is_join(
        match parent {
            Some(d) => d,
            None => root,
        },
        "wizard"@,
        dir,
    )
}

/// The run settings of the studio, with the seed of the open run, or
/// `fresh_seed` when none is open.
pub open spec fn is_run_config(app: MogenStudioApp, fresh_seed: u64, c: WizardRunConfig) -> bool {
    &&& c.model@ == app.settings.model@
    &&& c.provider@ == app.settings.provider.label@
    &&& c.thinking@ == app.settings.thinking@
    &&& c.temperature == app.settings.temperature
    &&& c.max_repair_iters == app.settings.max_repair_iters
    &&& c.seed == match app.wizard {
        Some(s) => s.state.seed,
        None => fresh_seed,
    }
    &&& c.style@ == app.settings.style@
    &&& c.session_id@ == app.spend_session_id@
}

/// The folder `wizard` under `parent`, or under `root` without one.
pub fn wizard_dir(parent: &Option<String>, root: &str) -> (r: String)
    ensures
        under_parent(opt_view(*parent), root@, r@),
{
    match parent {
        Some(d) => path_join(d.as_str(), "wizard"),
        None => path_join(root, "wizard"),
    }
}

impl MogenStudioApp {
    /// Shows the wizard, starting a session when none is open.
    pub fn open_scene_wizard(&mut self, seed: u64)
        requires
            old(self).wf(),
        ensures
            *final(self) == (MogenStudioApp {
                show_wizard: true,
                wizard: final(self).wizard,
                ..*old(self)
            }),
            old(self).wizard is Some ==> final(self).wizard == old(self).wizard,
            old(self).wizard is None ==> (final(self).wizard matches Some(s) && is_new_session(
                s,
                seed,
            ) && proposed_dir(
                old(self).files@[old(self).active as int].path,
                old(self).project_root@,
                s.location_draft@,
            )),
    {
        if self.wizard.is_some() {
            self.show_wizard = true;
            return ;
        }
        let suggested = self.resolve_wizard_project_dir();
        let mut state = WizardState::default();
        state.seed = seed;
        state.stage = Stage::Location;
        self.wizard =
        Some(
            WizardSession {
                state,
                status:
                    "Choose where wizard artefacts (objects, references, state.json) will be saved.".to_owned(),
                error: None,
                running: WizardBusy::Idle,
                prompt_draft: String::new(),
                location_draft: suggested,
                apply_corrections_armed: false,
                correction_iterations: 0,
                running_ref_ids: IdSet::new(),
                running_object_ids: IdSet::new(),
                auto_continue_refs: false,
                auto_continue_objects: false,
            },
        );
        self.show_wizard = true;
    }

    /// The folder proposed for a run: `wizard` next to the file in the
    /// foreground, or under the project root for an untitled buffer.
    pub fn resolve_wizard_project_dir(&self) -> (r: String)
        requires
            self.wf(),
        ensures
            proposed_dir(self.files@[self.active as int].path, self.project_root@, r@),
    {
        match &self.active().path {
            Some(p) => {
                let parent = path_parent(p.as_str());
                let r = wizard_dir(&parent, self.project_root.as_str());
                assert(is_parent(p@, opt_view(parent)));
                r
            },
            None => wizard_dir(&None, self.project_root.as_str()),
        }
    }

    /// Moves the run to another stage. Returns whether it is to be saved.
    pub fn wizard_back_to(&mut self, stage: Stage) -> (save: bool)
        ensures
            only_session(*old(self), *final(self)),
            save == old(self).wizard is Some,
            old(self).wizard matches Some(s) ==> final(self).wizard == Some(
                WizardSession { state: WizardState { stage, ..s.state }, error: None, ..s },
            ),
    {
        match self.wizard.as_mut() {
            Some(s) => {
                s.state.stage = stage;
                s.error = None;
                true
            },
            None => false,
        }
    }

    /// Throws the run away and starts over in the same folder. Returns whether
    /// the fresh run is to be saved.
    pub fn reset_wizard(&mut self, seed: u64) -> (save: bool)
        ensures
            only_session(*old(self), *final(self)),
            save == old(self).wizard is Some,
            old(self).wizard matches Some(s) ==> (final(self).wizard matches Some(t) && {
                &&& is_fresh(
                    t.state,
                    s.state.project_dir@,
                    seed,
                    Stage::Prompt,
                )
                &&& t.status@ == "Wizard reset."@
                &&& t.error is None
                &&& t.running == WizardBusy::Idle
                &&& t.prompt_draft@ == Seq::<char>::empty()
                &&& t.location_draft == s.location_draft
                &&& t.apply_corrections_armed == s.apply_corrections_armed
                &&& t.correction_iterations == 0
                &&& t.running_ref_ids@ == Set::<Seq<char>>::empty()
                &&& t.running_object_ids@ == Set::<Seq<char>>::empty()
                &&& !t.auto_continue_refs
                &&& !t.auto_continue_objects
            }),
    {
        match self.wizard.as_mut() {
            Some(s) => {
                let mut state = WizardState::default();
                state.project_dir = s.state.project_dir.clone();
                state.seed = seed;
                s.state = state;
                s.prompt_draft = String::new();
                s.status = "Wizard reset.".to_owned();
                s.error = None;
                s.running = WizardBusy::Idle;
                s.correction_iterations = 0;
                s.running_ref_ids = IdSet::new();
                s.running_object_ids = IdSet::new();
                s.auto_continue_refs = false;
                s.auto_continue_objects = false;
                true
            },
            None => false,
        }
    }

    /// Shows a failure and marks the stage idle.
    pub fn wizard_set_error(&mut self, msg: String)
        ensures
            only_session(*old(self), *final(self)),
            old(self).wizard matches Some(s) ==> final(self).wizard == Some(
                WizardSession { error: Some(msg), running: WizardBusy::Idle, ..s },
            ),
    {
        if let Some(s) = self.wizard.as_mut() {
            s.error = Some(msg);
            s.running = WizardBusy::Idle;
        }
    }

    /// What a run takes over from the preferences.
    pub fn build_wizard_run_config(&self, fresh_seed: u64) -> (r: WizardRunConfig)
        ensures
            is_run_config(*self, fresh_seed, r),
    {
        WizardRunConfig {
            model: self.settings.model.clone(),
            provider: self.settings.provider.label.clone(),
            thinking: self.settings.thinking.clone(),
            temperature: self.settings.temperature,
            max_repair_iters: self.settings.max_repair_iters,
            seed: match &self.wizard {
                Some(s) => s.state.seed,
                None => fresh_seed,
            },
            style: self.settings.style.clone(),
            session_id: self.spend_session_id.clone(),
        }
    }
}

// ---- polling ---------------------------------------------------------------

/// What became of a screenshot: the failure, or the last frame written.
pub struct CaptureOutcome {
    pub error: Option<String>,
    pub last_frame: Option<String>,
}

/// What a finished screenshot does to the session.
pub open spec fn capture_applied(
    pre: WizardSession,
    outcome: CaptureOutcome,
    post: WizardSession,
    save: bool,
) -> bool {
    match (outcome.error, outcome.last_frame) {
        (Some(e), _) => {
            &&& !save
            &&& post == (WizardSession { error: post.error, running: WizardBusy::Idle, ..pre })
            &&& opt_view(post.error) == Some("isometric screenshot failed: "@ + e@)
        },
        (None, Some(path)) => {
            &&& save
            &&& post == (WizardSession {
                state: WizardState { scene_thumb: Some(path), ..pre.state },
                status: post.status,
                running: WizardBusy::Idle,
                ..pre
            })
            &&& post.status@ == "Captured isometric screenshot at "@ + path@
        },
        (None, None) => !save && post == pre,
    }
}

/// What a batch of messages does, one after the other: `trace` holds the
/// session before the first message and after each one, and `saves` what each
/// one asked for.
pub open spec fn messages_applied(
    trace: Seq<WizardSession>,
    msgs: Seq<WizardMessage>,
    saves: Seq<bool>,
) -> bool {
    &&& trace.len() == msgs.len() + 1
    &&& saves.len() == msgs.len()
    &&& forall|i: int|
        0 <= i < msgs.len() ==> message_applied(
            trace[i],
            #[trigger] msgs[i],
            trace[i + 1],
            saves[i],
        )
}

/// Whether the poll should refill the pool of reference workers.
pub open spec fn wants_references(s: WizardSession, on_disk: Set<Seq<char>>) -> bool {
    &&& s.state.stage == Stage::References
    &&& s.auto_continue_refs
    &&& s.running_ref_ids@.len() < BATCH_SIZE
    &&& exists|k: int|
        0 <= k < s.state.manifest@.len() && absent(
            (#[trigger] s.state.manifest@[k]).reference_image,
            on_disk,
        ) && !s.running_ref_ids@.contains(s.state.manifest@[k].id@)
}

/// Whether the poll should refill the pool of module workers.
pub open spec fn wants_modules(s: WizardSession, on_disk: Set<Seq<char>>) -> bool {
    &&& s.state.stage == Stage::Objects
    &&& s.auto_continue_objects
    &&& s.running_object_ids@.len() < BATCH_SIZE
    &&& exists|k: int|
        0 <= k < s.state.manifest@.len() && absent(
            (#[trigger] s.state.manifest@[k]).mog_path,
            on_disk,
        ) && !s.running_object_ids@.contains(s.state.manifest@[k].id@)
}

/// Whether any worker of the session is out.
pub open spec fn in_flight(s: WizardSession) -> bool {
    ||| s.running != WizardBusy::Idle
    ||| s.running_ref_ids@ != Set::<Seq<char>>::empty()
    ||| s.running_object_ids@ != Set::<Seq<char>>::empty()
}

/// Whether the poll should refill the pool of reference workers.
pub fn reference_refill_due(s: &WizardSession, on_disk: &IdSet) -> (r: bool)
    ensures
        r == wants_references(*s, on_disk@),
{
    if s.state.stage != Stage::References || !s.auto_continue_refs || s.running_ref_ids.len()
        >= BATCH_SIZE {
        return false;
    }
    next_pending_reference_skipping(&s.state, &s.running_ref_ids, on_disk).is_some()
}

/// Whether the poll should refill the pool of module workers.
pub fn module_refill_due(s: &WizardSession, on_disk: &IdSet) -> (r: bool)
    ensures
        r == wants_modules(*s, on_disk@),
{
    if s.state.stage != Stage::Objects || !s.auto_continue_objects || s.running_object_ids.len()
        >= BATCH_SIZE {
        return false;
    }
    next_pending_object_skipping(&s.state, &s.running_object_ids, on_disk).is_some()
}

/// Folds a finished screenshot into the session. Returns whether the run is to
/// be saved.
pub fn apply_capture_outcome(s: &mut WizardSession, outcome: CaptureOutcome) -> (save: bool)
    ensures
        capture_applied(*old(s), outcome, *final(s), save),
{
    match outcome.error {
        Some(e) => {
            s.error = Some(cat2("isometric screenshot failed: ", e.as_str()));
            s.running = WizardBusy::Idle;
            false
        },
        None => match outcome.last_frame {
            Some(path) => {
                s.status = cat2("Captured isometric screenshot at ", path.as_str());
                s.state.scene_thumb = Some(path);
                s.running = WizardBusy::Idle;
                true
            },
            None => false,
        },
    }
}

/// What a poll asks the studio to do next.
pub struct PollPlan {
    /// The run is to be saved.
    pub save: bool,
    pub refill_references: bool,
    pub refill_modules: bool,
}

/// What polling does: the screenshot first, then every message in order, then
/// the plan is read off the session.
pub open spec fn polled(
    pre: WizardSession,
    outcome: Option<CaptureOutcome>,
    msgs: Seq<WizardMessage>,
    on_disk: Set<Seq<char>>,
    post: WizardSession,
    plan: PollPlan,
) -> bool {
    exists|trace: Seq<WizardSession>, saves: Seq<bool>, shot: bool|
        {
            &&& #[trigger] messages_applied(trace, msgs, saves)
            &&& #[trigger] screenshot_taken(pre, outcome, trace[0], shot)
            &&& trace.last() == post
            &&& plan.save == (shot || exists|i: int| 0 <= i < saves.len() && #[trigger] saves[i])
            &&& plan.refill_references == wants_references(post, on_disk)
            &&& plan.refill_modules == wants_modules(post, on_disk)
        }
}

/// What the screenshot of a poll does, if there is one.
pub open spec fn screenshot_taken(
    pre: WizardSession,
    outcome: Option<CaptureOutcome>,
    post: WizardSession,
    save: bool,
) -> bool {
    match outcome {
        Some(o) => capture_applied(pre, o, post, save),
        None => post == pre && !save,
    }
}

/// Polls the session.
pub fn poll_session(
    s: &mut WizardSession,
    outcome: Option<CaptureOutcome>,
    msgs: Vec<WizardMessage>,
    on_disk: &IdSet,
) -> (plan: PollPlan)
    ensures
        polled(*old(s), outcome, msgs@, on_disk@, *final(s), plan),
{
    let ghost all = msgs@;
    let shot = match outcome {
        Some(o) => apply_capture_outcome(s, o),
        None => false,
    };
    let mut save = shot;
    let ghost mut trace: Seq<WizardSession> = seq![*s];
    let ghost mut saves: Seq<bool> = Seq::empty();
    let ghost first = *s;
    let mut rest = msgs;
    let mut done: usize = 0;
    let n = rest.len();
    while done < n
        invariant
            n == all.len(),
            done <= n,
            rest@ == all.skip(done as int),
            trace.len() == done + 1,
            saves.len() == done,
            trace[0] == first,
            trace.last() == *s,
            forall|i: int|
                0 <= i < done ==> message_applied(
                    trace[i],
                    #[trigger] all[i],
                    trace[i + 1],
                    saves[i],
                ),
            save == (shot || exists|i: int| 0 <= i < saves.len() && #[trigger] saves[i]),
        decreases n - done,
    {
        let ghost before_trace = trace;
        let ghost before_saves = saves;
        let msg = rest.remove(0);
        assert(msg == all[done as int]);
        assert(rest@ =~= all.skip(done + 1));
        let asked = apply_wizard_message(s, msg);
        proof {
            trace = trace.push(*s);
            saves = saves.push(asked);
            assert forall|i: int| 0 <= i < done + 1 implies message_applied(
                trace[i],
                #[trigger] all[i],
                trace[i + 1],
                saves[i],
            ) by {
                if i < done {
                    assert(trace[i] == before_trace[i] && trace[i + 1] == before_trace[i + 1]);
                    assert(saves[i] == before_saves[i]);
                }
            }
            if exists|i: int| 0 <= i < before_saves.len() && #[trigger] before_saves[i] {
                let i = choose|i: int| 0 <= i < before_saves.len() && #[trigger] before_saves[i];
                assert(saves[i]);
            }
            if asked {
                assert(saves[done as int]);
            }
            if exists|i: int| 0 <= i < saves.len() && #[trigger] saves[i] {
                let i = choose|i: int| 0 <= i < saves.len() && #[trigger] saves[i];
                if i < done {
                    assert(before_saves[i]);
                }
            }
        }
        save = save || asked;
        done = done + 1;
    }
    let plan = PollPlan {
        save,
        refill_references: reference_refill_due(s, on_disk),
        refill_modules: module_refill_due(s, on_disk),
    };
    assert(messages_applied(trace, all, saves));
    assert(screenshot_taken(*old(s), outcome, trace[0], shot));
    plan
}

impl MogenStudioApp {
    /// One poll of the wizard per frame. Without an open session it does
    /// nothing and asks for nothing.
    pub fn poll_wizard(
        &mut self,
        outcome: Option<CaptureOutcome>,
        msgs: Vec<WizardMessage>,
        on_disk: &IdSet,
    ) -> (plan: PollPlan)
        ensures
            only_session(*old(self), *final(self)),
            old(self).wizard is None ==> !plan.save && !plan.refill_references
                && !plan.refill_modules,
            old(self).wizard matches Some(s) ==> polled(
                s,
                outcome,
                msgs@,
                on_disk@,
                final(self).wizard->0,
                plan,
            ),
    {
        match self.wizard.as_mut() {
            Some(s) => poll_session(s, outcome, msgs, on_disk),
            None => PollPlan {
                save: false,
                refill_references: false,
                refill_modules: false,
            },
        }
    }

    /// Whether the window is to be painted again soon: a worker is out. Asked
    /// after the refills of a poll, whose workers count.
    pub fn wizard_repaints(&self) -> (r: bool)
        ensures
            r == (self.wizard matches Some(s) && in_flight(s)),
    {
        match &self.wizard {
            Some(s) => s.running != WizardBusy::Idle || !s.running_ref_ids.is_empty()
                || !s.running_object_ids.is_empty(),
            None => false,
        }
    }
}

// ---- laws ------------------------------------------------------------------

/// Opening the wizard shows it. An open run goes on as it was; a new one
/// starts at the location, with the given seed and nothing else in it.
pub proof fn law_opening_keeps_an_open_run(app: &mut MogenStudioApp, seed: u64)
    requires
        old(app).wf(),
        call_ensures(MogenStudioApp::open_scene_wizard, (app, seed), ()),
    ensures
        final(app).show_wizard,
        final(app).wizard is Some,
        old(app).wizard is Some ==> final(app).wizard == old(app).wizard,
        final(app).files == old(app).files && final(app).active == old(app).active && final(app).selected == old(app).selected,
        old(app).wizard is None ==> {
            let s = final(app).wizard->0;
            &&& s.state.stage == Stage::Location
            &&& s.state.seed == seed
            &&& s.state.manifest@.len() == 0
            &&& s.state.brief is None && s.state.scene_review is None
            &&& s.state.assembly_path is None && s.state.built_glb is None
            &&& s.running == WizardBusy::Idle
            &&& s.error is None
            &&& s.correction_iterations == 0
            &&& !s.auto_continue_refs && !s.auto_continue_objects
            &&& forall|x: Seq<char>| !(#[trigger] s.running_ref_ids@.contains(x))
            &&& forall|x: Seq<char>| !(#[trigger] s.running_object_ids@.contains(x))
        },
{
}

/// Going to a stage changes the stage, clears the error and nothing else, and
/// asks for a save.
pub proof fn law_going_to_a_stage_keeps_the_run(
    app: &mut MogenStudioApp,
    stage: Stage,
    save: bool,
)
    requires
        call_ensures(MogenStudioApp::wizard_back_to, (app, stage), save),
    ensures
        old(app).wizard matches Some(s) ==> {
            let t = final(app).wizard->0;
            &&& save
            &&& final(app).wizard is Some
            &&& t.state.stage == stage
            &&& t.error is None
            &&& t.state.manifest == s.state.manifest && t.state.brief == s.state.brief
            &&& t.state.scene_review == s.state.scene_review && t.state.assembly_path
                == s.state.assembly_path
            &&& t.running == s.running && t.running_ref_ids == s.running_ref_ids
                && t.running_object_ids == s.running_object_ids
            &&& t.state.seed == s.state.seed && t.state.project_dir == s.state.project_dir
        },
        old(app).wizard is None ==> *final(app) == *old(app) && !save,
        final(app).files == old(app).files,
{
}

/// A reset keeps the folder and takes the new seed; everything that the run
/// had found, and every worker that was out, is forgotten.
pub proof fn law_reset_keeps_only_the_folder(app: &mut MogenStudioApp, seed: u64, save: bool)
    requires
        call_ensures(MogenStudioApp::reset_wizard, (app, seed), save),
    ensures
        old(app).wizard is None ==> *final(app) == *old(app) && !save,
        old(app).wizard matches Some(s) ==> {
            let t = final(app).wizard->0;
            &&& save
            &&& final(app).wizard is Some
            &&& t.state.project_dir@ == s.state.project_dir@
            &&& t.state.seed == seed
            &&& t.state.stage == Stage::Prompt
            &&& t.state.prompt@.len() == 0 && t.prompt_draft@.len() == 0
            &&& t.state.manifest@.len() == 0
            &&& t.state.brief is None && t.state.source_image is None && t.state.scene_review is None
            &&& t.state.scene_thumb is None && t.state.assembly_path is None
                && t.state.built_glb is None
            &&& forall|x: Seq<char>| !(#[trigger] t.state.per_object_reviews@.contains_key(x))
            &&& t.running == WizardBusy::Idle && t.error is None
            &&& forall|x: Seq<char>| !(#[trigger] t.running_ref_ids@.contains(x))
            &&& forall|x: Seq<char>| !(#[trigger] t.running_object_ids@.contains(x))
            &&& !t.auto_continue_refs && !t.auto_continue_objects
            &&& t.correction_iterations == 0
            &&& t.location_draft == s.location_draft
        },
        final(app).files == old(app).files,
{
}

/// An error is shown as it is, the stage worker counts as in, and the run
/// stays.
pub proof fn law_set_error_is_shown(app: &mut MogenStudioApp, msg: String)
    requires
        call_ensures(MogenStudioApp::wizard_set_error, (app, msg), ()),
    ensures
        old(app).wizard matches Some(s) ==> {
            let t = final(app).wizard->0;
            &&& final(app).wizard is Some
            &&& t.error == Some(msg)
            &&& t.running == WizardBusy::Idle
            &&& t.state == s.state && t.status == s.status
        },
        old(app).wizard is None ==> *final(app) == *old(app),
{
}

/// A run works with the settings of the studio and its own seed; only without
/// a run the fresh seed is taken.
pub proof fn law_run_config_is_that_of_the_studio(
    app: &MogenStudioApp,
    fresh: u64,
    r: WizardRunConfig,
)
    requires
        call_ensures(MogenStudioApp::build_wizard_run_config, (app, fresh), r),
    ensures
        app.wizard matches Some(s) ==> r.seed == s.state.seed,
        app.wizard is None ==> r.seed == fresh,
        r.model@ == app.settings.model@ && r.provider@ == app.settings.provider.label@,
        r.thinking@ == app.settings.thinking@ && r.style@ == app.settings.style@,
        r.temperature == app.settings.temperature,
        r.max_repair_iters == app.settings.max_repair_iters,
        r.session_id@ == app.spend_session_id@,
{
}

/// A picture that was taken becomes the thumbnail of the scene and is saved; a
/// failure is shown and leaves the run alone.
pub proof fn law_picture_becomes_the_thumbnail(
    s: &mut WizardSession,
    outcome: CaptureOutcome,
    save: bool,
)
    requires
        call_ensures(apply_capture_outcome, (s, outcome), save),
    ensures
        outcome.error matches Some(e) ==> !save && final(s).state == old(s).state && final(s).running == WizardBusy::Idle && opt_view(final(s).error) == Some(
            "isometric screenshot failed: "@ + e@,
        ),
        outcome.error is None ==> (outcome.last_frame matches Some(path) ==> save && final(s).state.scene_thumb == Some(path) && final(s).running == WizardBusy::Idle && final(s).state == (WizardState { scene_thumb: Some(path), ..old(s).state }) && final(s).error
            == old(s).error),
        outcome.error is None && outcome.last_frame is None ==> !save && *final(s) == *old(s),
{
}

/// The poll asks for more workers exactly in the stage that is theirs, while
/// the bulk run is on, fewer than three are out, and some object without a
/// worker has no file.
pub proof fn law_refill_is_due(
    s: &WizardSession,
    on_disk: &IdSet,
    references: bool,
    modules: bool,
)
    requires
        call_ensures(reference_refill_due, (s, on_disk), references),
        call_ensures(module_refill_due, (s, on_disk), modules),
    ensures
        references <==> s.state.stage == Stage::References && s.auto_continue_refs
            && s.running_ref_ids@.len() < 3 && exists|k: int|
            0 <= k < s.state.manifest@.len() && !s.running_ref_ids@.contains(
                (#[trigger] s.state.manifest@[k]).id@,
            ) && (s.state.manifest@[k].reference_image matches Some(p) ==> !on_disk@.contains(p@)),
        modules <==> s.state.stage == Stage::Objects && s.auto_continue_objects
            && s.running_object_ids@.len() < 3 && exists|k: int|
            0 <= k < s.state.manifest@.len() && !s.running_object_ids@.contains(
                (#[trigger] s.state.manifest@[k]).id@,
            ) && (s.state.manifest@[k].mog_path matches Some(p) ==> !on_disk@.contains(p@)),
{
}

/// A poll with one message and no picture does what the message does, and
/// saves when it asks for that.
pub proof fn law_polled_message_is_applied(
    s: &mut WizardSession,
    msgs: Vec<WizardMessage>,
    on_disk: &IdSet,
    plan: PollPlan,
)
    requires
        call_ensures(poll_session, (s, None, msgs, on_disk), plan),
        msgs@.len() == 1,
    ensures
        message_applied(*old(s), msgs@[0], *final(s), plan.save),
{
    let (trace, saves, shot) = choose|trace: Seq<WizardSession>, saves: Seq<bool>, shot: bool|
        {
            &&& #[trigger] messages_applied(trace, msgs@, saves)
            &&& #[trigger] screenshot_taken(*old(s), None, trace[0], shot)
            &&& trace.last() == *final(s)
            &&& plan.save == (shot || exists|i: int| 0 <= i < saves.len() && #[trigger] saves[i])
            &&& plan.refill_references == wants_references(*final(s), on_disk@)
            &&& plan.refill_modules == wants_modules(*final(s), on_disk@)
        };
    assert(message_applied(trace[0], msgs@[0], trace[0int + 1], saves[0]));
    if plan.save {
        let i = choose|i: int| 0 <= i < saves.len() && #[trigger] saves[i];
    }
}

/// A poll applies every message, each to what the one before it left, starting
/// from the session, or from what the picture made of it, and ending in the
/// session afterwards.
pub proof fn law_poll_applies_every_message(
    s: &mut WizardSession,
    outcome: Option<CaptureOutcome>,
    msgs: Vec<WizardMessage>,
    on_disk: &IdSet,
    plan: PollPlan,
)
    requires
        call_ensures(poll_session, (s, outcome, msgs, on_disk), plan),
    ensures
        exists|at: Seq<WizardSession>, saves: Seq<bool>|
            {
                &&& at.len() == msgs@.len() + 1
                &&& saves.len() == msgs@.len()
                &&& #[trigger] messages_applied(at, msgs@, saves)
                &&& outcome is None ==> at[0] == *old(s)
                &&& at.last() == *final(s)
                &&& forall|i: int| 0 <= i < saves.len() && #[trigger] saves[i] ==> plan.save
            },
        msgs@.len() == 0 && outcome is None ==> *final(s) == *old(s) && !plan.save,
{
    let (trace, saves, shot) = choose|trace: Seq<WizardSession>, saves: Seq<bool>, shot: bool|
        {
            &&& #[trigger] messages_applied(trace, msgs@, saves)
            &&& #[trigger] screenshot_taken(*old(s), outcome, trace[0], shot)
            &&& trace.last() == *final(s)
            &&& plan.save == (shot || exists|i: int| 0 <= i < saves.len() && #[trigger] saves[i])
            &&& plan.refill_references == wants_references(*final(s), on_disk@)
            &&& plan.refill_modules == wants_modules(*final(s), on_disk@)
        };
    assert(messages_applied(trace, msgs@, saves));
}

/// The window is painted again while, and only while, any worker is out.
pub proof fn law_repaints_while_workers_are_out(app: &MogenStudioApp, r: bool)
    requires
        call_ensures(MogenStudioApp::wizard_repaints, (app,), r),
    ensures
        r <==> (app.wizard matches Some(s) && (s.running != WizardBusy::Idle || (exists|x: Seq<
            char,
        >| #[trigger] s.running_ref_ids@.contains(x)) || exists|x: Seq<char>| #[trigger]
            s.running_object_ids@.contains(x))),
{
    if let Some(s) = app.wizard {
        if s.running_ref_ids@ != Set::<Seq<char>>::empty() && forall|x: Seq<char>|
            !(#[trigger] s.running_ref_ids@.contains(x)) {
            assert(s.running_ref_ids@ =~= Set::empty());
        }
        if s.running_object_ids@ != Set::<Seq<char>>::empty() && forall|x: Seq<char>|
            !(#[trigger] s.running_object_ids@.contains(x)) {
            assert(s.running_object_ids@ =~= Set::empty());
        }
    }
}

} // verus!
