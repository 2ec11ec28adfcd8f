//! The live session around a wizard run: status lines, drafts, and which
//! workers are out.

use vstd::prelude::*;

use super::state::{ObjectEntry, ObjectGenResult, ObjectReview, SceneReview, WizardState};
use crate::ids::IdSet;

verus! {

/// Which stage's worker is in flight.
#[derive(Clone, Copy, Debug, PartialEq, Eq, Structural)]
pub enum WizardBusy {
    Idle,
    Brief,
    Manifest,
    ReviewObject(usize),
    SceneReview,
    Assemble,
    Build,
}

/// What a finished worker reports.
#[allow(inconsistent_fields)]
pub enum WizardMessage {
    BriefDone(Result<String, String>),
    ManifestDone(Result<Vec<ObjectEntry>, String>),
    ReferenceDone { id: String, result: Result<String, String> },
    ObjectDone { id: String, result: Result<ObjectGenResult, String> },
    ObjectReviewDone { id: String, result: Result<ObjectReview, String> },
    SceneReviewDone(Result<SceneReview, String>),
    AssemblyDone(Result<String, String>),
    BuildDone(Result<String, String>),
}

/// A wizard run that is open in the studio.
pub struct WizardSession {
    pub state: WizardState,
    /// The status line above the stage panel.
    pub status: String,
    /// The last failure, shown until the next action that succeeds.
    pub error: Option<String>,
    /// The stage worker that is out, for the spinner and the greyed buttons.
    pub running: WizardBusy,
    /// The prompt as it stands in its field.
    pub prompt_draft: String,
    /// The folder that the location stage proposes.
    pub location_draft: String,
    pub apply_corrections_armed: bool,
    /// How many rounds of corrections this run has applied.
    pub correction_iterations: u32,
    /// The objects whose reference image is being generated.
    pub running_ref_ids: IdSet,
    /// The objects whose module is being generated.
    pub running_object_ids: IdSet,
    /// Whether the poll keeps the pool of reference workers full.
    pub auto_continue_refs: bool,
    /// Whether the poll keeps the pool of module workers full.
    pub auto_continue_objects: bool,
}

/// The scene review may be run again only below this many rounds.
pub const MAX_CORRECTION_ITERS: u32 = 3;

/// How many workers of one kind a bulk run keeps in flight.
pub const BATCH_SIZE: usize = 3;

} // verus!
