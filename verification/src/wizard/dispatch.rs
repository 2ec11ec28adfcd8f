//! From a button of the wizard window to what happens.

use vstd::prelude::*;

use super::lifecycle::only_session;
use super::session::{BATCH_SIZE, WizardSession};
use super::state::{Stage, WizardState};
use crate::studio::MogenStudioApp;

verus! {

/// What a button of the wizard window asks for.
#[derive(Debug)]
pub enum WizardAction {
    Nothing,
    PickLocation,
    ConfirmLocation,
    SavePrompt,
    PickSourceImage,
    ClearSourceImage,
    GenerateBrief,
    RegenerateBrief,
    AdvanceToManifest,
    BackToPrompt,
    GenerateManifest,
    RegenerateManifest,
    AdvanceToReferences,
    BackToBrief,
    GenerateNextReference,
    GenerateOneReference(String),
    AutoGenerateReferences,
    StopAutoReferences,
    AdvanceToObjects,
    SkipReferences,
    BackToManifest,
    GenerateNextObject,
    GenerateOneObject(String),
    AutoGenerateObjects,
    StopAutoObjects,
    AdvanceToAssemble,
    BackToReferences,
    RunAssembleAndBuild,
    AdvanceToReviewObjects,
    BackToObjects,
    ReviewObject(String),
    RegenerateObject(String),
    AdvanceToReviewScene,
    BackToAssemble,
    BackToReviewObjects,
    RunSceneReview,
    ApplyCorrections,
    FinishWizard,
    OpenAssemblyInTab,
    CaptureScene,
    RemoveObject(String),
    Close,
    Reset,
}

/// What is left to do after the session has been changed.
pub enum WizardCommand {
    Nothing,
    /// The run is to be saved.
    Save,
    PickLocation,
    ConfirmLocation,
    PickSourceImage,
    ClearSourceImage,
    StartBrief,
    StartManifest,
    StartReferences { target: usize, auto_continue: bool },
    StartOneReference(String),
    StartObjects { target: usize, auto_continue: bool },
    RegenerateObject(String),
    AssembleAndBuild,
    ReviewObject(String),
    ReviewScene,
    ApplyCorrections,
    OpenAssemblyInTab,
    CaptureScene,
    RemoveObject(String),
    Reset,
}

/// The stage that an action moves to, if it only moves the run.
pub open spec fn stage_of(action: WizardAction) -> Option<Stage> {
    match action {
        WizardAction::AdvanceToManifest => Some(Stage::Manifest),
        WizardAction::BackToPrompt => Some(Stage::Prompt),
        WizardAction::AdvanceToReferences => Some(Stage::References),
        WizardAction::BackToBrief => Some(Stage::Brief),
        WizardAction::AdvanceToObjects => Some(Stage::Objects),
        WizardAction::BackToManifest => Some(Stage::Manifest),
        WizardAction::AdvanceToAssemble => Some(Stage::Assemble),
        WizardAction::BackToReferences => Some(Stage::References),
        WizardAction::AdvanceToReviewObjects => Some(Stage::ReviewObjects),
        WizardAction::BackToObjects => Some(Stage::Objects),
        WizardAction::AdvanceToReviewScene => Some(Stage::ReviewScene),
        WizardAction::BackToAssemble => Some(Stage::Assemble),
        WizardAction::BackToReviewObjects => Some(Stage::ReviewObjects),
        WizardAction::FinishWizard => Some(Stage::Done),
        _ => None,
    }
}

/// The stage that an action moves to, if it only moves the run.
pub fn target_stage(action: &WizardAction) -> (r: Option<Stage>)
    ensures
        r == stage_of(*action),
{
    match action {
        WizardAction::AdvanceToManifest => Some(Stage::Manifest),
        WizardAction::BackToPrompt => Some(Stage::Prompt),
        WizardAction::AdvanceToReferences => Some(Stage::References),
        WizardAction::BackToBrief => Some(Stage::Brief),
        WizardAction::AdvanceToObjects => Some(Stage::Objects),
        WizardAction::BackToManifest => Some(Stage::Manifest),
        WizardAction::AdvanceToAssemble => Some(Stage::Assemble),
        WizardAction::BackToReferences => Some(Stage::References),
        WizardAction::AdvanceToReviewObjects => Some(Stage::ReviewObjects),
        WizardAction::BackToObjects => Some(Stage::Objects),
        WizardAction::AdvanceToReviewScene => Some(Stage::ReviewScene),
        WizardAction::BackToAssemble => Some(Stage::Assemble),
        WizardAction::BackToReviewObjects => Some(Stage::ReviewObjects),
        WizardAction::FinishWizard => Some(Stage::Done),
        _ => None,
    }
}

/// The command of an action that changes nothing in the session by itself.
pub open spec fn command_of(action: WizardAction) -> Option<WizardCommand> {
    match action {
        WizardAction::Nothing => Some(WizardCommand::Nothing),
        WizardAction::PickLocation => Some(WizardCommand::PickLocation),
        WizardAction::ConfirmLocation => Some(WizardCommand::ConfirmLocation),
        WizardAction::PickSourceImage => Some(WizardCommand::PickSourceImage),
        WizardAction::ClearSourceImage => Some(WizardCommand::ClearSourceImage),
        WizardAction::GenerateBrief => Some(WizardCommand::StartBrief),
        WizardAction::RegenerateBrief => Some(WizardCommand::StartBrief),
        WizardAction::GenerateManifest => Some(WizardCommand::StartManifest),
        WizardAction::RegenerateManifest => Some(WizardCommand::StartManifest),
        WizardAction::GenerateNextReference => Some(
            WizardCommand::StartReferences { target: 1, auto_continue: false },
        ),
        WizardAction::GenerateOneReference(id) => Some(WizardCommand::StartOneReference(id)),
        WizardAction::AutoGenerateReferences => Some(
            WizardCommand::StartReferences { target: BATCH_SIZE, auto_continue: true },
        ),
        WizardAction::GenerateNextObject => Some(
            WizardCommand::StartObjects { target: 1, auto_continue: false },
        ),
        WizardAction::GenerateOneObject(id) => Some(WizardCommand::RegenerateObject(id)),
        WizardAction::AutoGenerateObjects => Some(
            WizardCommand::StartObjects { target: BATCH_SIZE, auto_continue: true },
        ),
        WizardAction::RunAssembleAndBuild => Some(WizardCommand::AssembleAndBuild),
        WizardAction::ReviewObject(id) => Some(WizardCommand::ReviewObject(id)),
        WizardAction::RegenerateObject(id) => Some(WizardCommand::RegenerateObject(id)),
        WizardAction::RunSceneReview => Some(WizardCommand::ReviewScene),
        WizardAction::ApplyCorrections => Some(WizardCommand::ApplyCorrections),
        WizardAction::OpenAssemblyInTab => Some(WizardCommand::OpenAssemblyInTab),
        WizardAction::CaptureScene => Some(WizardCommand::CaptureScene),
        WizardAction::RemoveObject(id) => Some(WizardCommand::RemoveObject(id)),
        WizardAction::Reset => Some(WizardCommand::Reset),
        _ => None,
    }
}

/// The command that follows a change of the session: the run is saved if there
/// is one.
pub open spec fn save_if(app: MogenStudioApp) -> WizardCommand {
    if app.wizard is Some {
        WizardCommand::Save
    } else {
        WizardCommand::Nothing
    }
}

/// What an action does: it moves the run to another stage, changes one line of
/// the session, closes the window, or leaves everything to its command.
pub open spec fn dispatched(
    pre: MogenStudioApp,
    action: WizardAction,
    post: MogenStudioApp,
    cmd: WizardCommand,
) -> bool {
    match command_of(action) {
        Some(c) => cmd == c && post == pre,
        None => match stage_of(action) {
            Some(stage) => {
                &&& cmd == save_if(pre)
                &&& only_session(pre, post)
                &&& pre.wizard matches Some(s) ==> post.wizard == Some(
                    WizardSession { state: WizardState { stage, ..s.state }, error: None, ..s },
                )
            },
            None => match action {
                WizardAction::SavePrompt => {
                    &&& cmd == save_if(pre)
                    &&& only_session(pre, post)
                    &&& pre.wizard matches Some(s) ==> post.wizard == Some(
                        WizardSession {
                            state: WizardState { prompt: s.prompt_draft, ..s.state },
                            ..s
                        },
                    )
                },
                WizardAction::SkipReferences => {
                    &&& cmd == save_if(pre)
                    &&& only_session(pre, post)
                    &&& pre.wizard matches Some(s) ==> (post.wizard matches Some(t) && {
                        &&& t == (WizardSession {
                            state: WizardState { stage: Stage::Objects, ..s.state },
                            status: t.status,
                            error: None,
                            ..s
                        })
                        &&& t.status@ == "Skipping reference images."@
                    })
                },
                WizardAction::StopAutoReferences => {
                    &&& cmd == WizardCommand::Nothing
                    &&& only_session(pre, post)
                    &&& pre.wizard matches Some(s) ==> (post.wizard matches Some(t) && {
                        &&& t == (WizardSession {
                            auto_continue_refs: false,
                            status: t.status,
                            ..s
                        })
                        &&& t.status@ == "Stopped auto-generate; in-flight workers will finish."@
                    })
                },
                WizardAction::StopAutoObjects => {
                    &&& cmd == WizardCommand::Nothing
                    &&& only_session(pre, post)
                    &&& pre.wizard matches Some(s) ==> (post.wizard matches Some(t) && {
                        &&& t == (WizardSession {
                            auto_continue_objects: false,
                            status: t.status,
                            ..s
                        })
                        &&& t.status@ == "Stopped auto-generate; in-flight workers will finish."@
                    })
                },
                _ => {
                    // Close
                    &&& cmd == WizardCommand::Nothing
                    &&& post == (MogenStudioApp { show_wizard: false, ..pre })
                },
            },
        },
    }
}

impl MogenStudioApp {
    /// Carries out what a button asks for, as far as the session goes, and
    /// returns what is left to do.
    pub fn dispatch_wizard_action(&mut self, action: WizardAction) -> (cmd: WizardCommand)
        ensures
            dispatched(*old(self), action, *final(self), cmd),
    {
        if let Some(stage) = target_stage(&action) {
            return if self.wizard_back_to(stage) {
                WizardCommand::Save
            } else {
                WizardCommand::Nothing
            };
        }
        match action {
            WizardAction::PickLocation => WizardCommand::PickLocation,
            WizardAction::ConfirmLocation => WizardCommand::ConfirmLocation,
            WizardAction::SavePrompt => match self.wizard.as_mut() {
                Some(s) => {
                    s.state.prompt = s.prompt_draft.clone();
                    WizardCommand::Save
                },
                None => WizardCommand::Nothing,
            },
            WizardAction::PickSourceImage => WizardCommand::PickSourceImage,
            WizardAction::ClearSourceImage => WizardCommand::ClearSourceImage,
            WizardAction::GenerateBrief => WizardCommand::StartBrief,
            WizardAction::RegenerateBrief => WizardCommand::StartBrief,
            WizardAction::GenerateManifest => WizardCommand::StartManifest,
            WizardAction::RegenerateManifest => WizardCommand::StartManifest,
            WizardAction::GenerateNextReference => {
                WizardCommand::StartReferences { target: 1, auto_continue: false }
            },
            WizardAction::GenerateOneReference(id) => WizardCommand::StartOneReference(id),
            WizardAction::AutoGenerateReferences => {
                WizardCommand::StartReferences { target: BATCH_SIZE, auto_continue: true }
            },
            WizardAction::StopAutoReferences => {
                if let Some(s) = self.wizard.as_mut() {
                    s.auto_continue_refs = false;
                    s.status =
                    "Stopped auto-generate; in-flight workers will finish.".to_owned();
                }
                WizardCommand::Nothing
            },
            WizardAction::SkipReferences => match self.wizard.as_mut() {
                Some(s) => {
                    s.state.stage = Stage::Objects;
                    s.status = "Skipping reference images.".to_owned();
                    s.error = None;
                    WizardCommand::Save
                },
                None => WizardCommand::Nothing,
            },
            WizardAction::GenerateNextObject => {
                WizardCommand::StartObjects { target: 1, auto_continue: false }
            },
            WizardAction::GenerateOneObject(id) => WizardCommand::RegenerateObject(id),
            WizardAction::AutoGenerateObjects => {
                WizardCommand::StartObjects { target: BATCH_SIZE, auto_continue: true }
            },
            WizardAction::StopAutoObjects => {
                if let Some(s) = self.wizard.as_mut() {
                    s.auto_continue_objects = false;
                    s.status =
                    "Stopped auto-generate; in-flight workers will finish.".to_owned();
                }
                WizardCommand::Nothing
            },
            WizardAction::RunAssembleAndBuild => WizardCommand::AssembleAndBuild,
            WizardAction::ReviewObject(id) => WizardCommand::ReviewObject(id),
            WizardAction::RegenerateObject(id) => WizardCommand::RegenerateObject(id),
            WizardAction::RunSceneReview => WizardCommand::ReviewScene,
            WizardAction::ApplyCorrections => WizardCommand::ApplyCorrections,
            WizardAction::OpenAssemblyInTab => WizardCommand::OpenAssemblyInTab,
            WizardAction::CaptureScene => WizardCommand::CaptureScene,
            WizardAction::RemoveObject(id) => WizardCommand::RemoveObject(id),
            WizardAction::Close => {
                self.show_wizard = false;
                WizardCommand::Nothing
            },
            WizardAction::Reset => WizardCommand::Reset,
            _ => WizardCommand::Nothing,
        }
    }
}

// ---- laws ------------------------------------------------------------------

/// Every button that only moves the run moves it to the stage that it names
/// and saves it.
pub proof fn law_buttons_move_to_their_stage(
    app: &mut MogenStudioApp,
    action: WizardAction,
    cmd: WizardCommand,
)
    requires
        call_ensures(MogenStudioApp::dispatch_wizard_action, (app, action), cmd),
        old(app).wizard is Some,
    ensures
        ({
            let s = old(app).wizard->0;
            let t = final(app).wizard->0;
            &&& final(app).wizard is Some
            &&& action is BackToPrompt ==> t.state.stage == Stage::Prompt && cmd is Save
            &&& action is BackToBrief ==> t.state.stage == Stage::Brief && cmd is Save
            &&& action is AdvanceToManifest || action is BackToManifest ==> t.state.stage
                == Stage::Manifest && cmd is Save
            &&& action is AdvanceToReferences || action is BackToReferences ==> t.state.stage
                == Stage::References && cmd is Save
            &&& action is AdvanceToObjects || action is BackToObjects || action is SkipReferences
                ==> t.state.stage == Stage::Objects && cmd is Save
            &&& action is AdvanceToAssemble || action is BackToAssemble ==> t.state.stage
                == Stage::Assemble && cmd is Save
            &&& action is AdvanceToReviewObjects || action is BackToReviewObjects ==> t.state.stage
                == Stage::ReviewObjects && cmd is Save
            &&& action is AdvanceToReviewScene ==> t.state.stage == Stage::ReviewScene && cmd is Save
            &&& action is FinishWizard ==> t.state.stage == Stage::Done && cmd is Save
            &&& action is SavePrompt ==> t.state.prompt == s.prompt_draft && cmd is Save
            &&& !(action is SavePrompt) ==> t.state.prompt == s.state.prompt
            &&& t.state.manifest == s.state.manifest && t.state.brief == s.state.brief
            &&& t.state.scene_review == s.state.scene_review && t.state.assembly_path
                == s.state.assembly_path && t.state.built_glb == s.state.built_glb
            &&& t.running == s.running && t.running_ref_ids == s.running_ref_ids
                && t.running_object_ids == s.running_object_ids
        }),
        final(app).files == old(app).files,
{
}

/// Every other button asks for what it says, for the object that it stands
/// beside: one worker at a time, or three at a time until all is done.
pub proof fn law_buttons_ask_for_what_they_say(
    app: &mut MogenStudioApp,
    action: WizardAction,
    cmd: WizardCommand,
)
    requires
        call_ensures(MogenStudioApp::dispatch_wizard_action, (app, action), cmd),
    ensures
        action is Nothing ==> cmd is Nothing && *final(app) == *old(app),
        action is PickLocation ==> cmd is PickLocation,
        action is ConfirmLocation ==> cmd is ConfirmLocation,
        action is PickSourceImage ==> cmd is PickSourceImage,
        action is ClearSourceImage ==> cmd is ClearSourceImage,
        action is GenerateBrief || action is RegenerateBrief ==> cmd is StartBrief,
        action is GenerateManifest || action is RegenerateManifest ==> cmd is StartManifest,
        action is GenerateNextReference ==> cmd == (WizardCommand::StartReferences {
            target: 1,
            auto_continue: false,
        }),
        action is AutoGenerateReferences ==> cmd == (WizardCommand::StartReferences {
            target: 3,
            auto_continue: true,
        }),
        action is GenerateNextObject ==> cmd == (WizardCommand::StartObjects {
            target: 1,
            auto_continue: false,
        }),
        action is AutoGenerateObjects ==> cmd == (WizardCommand::StartObjects {
            target: 3,
            auto_continue: true,
        }),
        action matches WizardAction::GenerateOneReference(id) ==> cmd
            == WizardCommand::StartOneReference(id),
        action matches WizardAction::GenerateOneObject(id) ==> cmd
            == WizardCommand::RegenerateObject(id),
        action matches WizardAction::RegenerateObject(id) ==> cmd
            == WizardCommand::RegenerateObject(id),
        action matches WizardAction::ReviewObject(id) ==> cmd == WizardCommand::ReviewObject(id),
        action matches WizardAction::RemoveObject(id) ==> cmd == WizardCommand::RemoveObject(id),
        action is RunAssembleAndBuild ==> cmd is AssembleAndBuild,
        action is RunSceneReview ==> cmd is ReviewScene,
        action is ApplyCorrections ==> cmd is ApplyCorrections,
        action is OpenAssemblyInTab ==> cmd is OpenAssemblyInTab,
        action is CaptureScene ==> cmd is CaptureScene,
        action is Reset ==> cmd is Reset,
        action is Close ==> cmd is Nothing && !final(app).show_wizard && final(app).wizard == old(app).wizard,
        !(action is Close) ==> final(app).show_wizard == old(app).show_wizard,
{
}

/// Stopping a bulk run stops that one and no other, and leaves its workers
/// out.
pub proof fn law_stopping_ends_one_bulk_run(
    app: &mut MogenStudioApp,
    action: WizardAction,
    cmd: WizardCommand,
)
    requires
        call_ensures(MogenStudioApp::dispatch_wizard_action, (app, action), cmd),
        old(app).wizard is Some,
    ensures
        ({
            let s = old(app).wizard->0;
            let t = final(app).wizard->0;
            &&& action is StopAutoReferences ==> !t.auto_continue_refs && cmd is Nothing
            &&& !(action is StopAutoReferences) ==> t.auto_continue_refs == s.auto_continue_refs
            &&& action is StopAutoObjects ==> !t.auto_continue_objects && cmd is Nothing
            &&& !(action is StopAutoObjects) ==> t.auto_continue_objects == s.auto_continue_objects
            &&& action is StopAutoReferences || action is StopAutoObjects ==> t.state == s.state
        }),
{
}

} // verus!
