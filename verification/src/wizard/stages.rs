//! What each stage of the wizard window shows: its lines, its markers, and
//! which of its buttons can be pressed.

use vstd::prelude::*;

use super::claim::{absent, object_missing, reference_missing};
use super::session::{MAX_CORRECTION_ITERS, WizardBusy, WizardSession};
use super::state::{ObjectEntry, Stage, WizardState};
use crate::ids::IdSet;
use crate::pick::count_where;
use crate::text::{blank, cat2, cat4, cat5, decimal, decimal_digits, is_blank, opt_view};

verus! {

// ---- the strip of stages ---------------------------------------------------

/// One stage in the strip above the panel.
#[derive(Clone, Copy)]
pub struct StripEntry {
    pub stage: Stage,
    /// The stage's number, from one.
    pub number: usize,
    pub active: bool,
    pub reached: bool,
    /// An arrow to the next stage follows.
    pub arrow: bool,
}

/// The stages of a run, in order.
pub open spec fn all_stages() -> Seq<Stage> {
    seq![
        Stage::Location,
        Stage::Prompt,
        Stage::Brief,
        Stage::Manifest,
        Stage::References,
        Stage::Objects,
        Stage::Assemble,
        Stage::ReviewObjects,
        Stage::ReviewScene,
        Stage::Done,
    ]
}

fn strip_entry(stage: Stage, current: Stage) -> (r: StripEntry)
    ensures
        r.stage == stage,
        r.number == stage.place() + 1,
        r.active == (stage == current),
        r.reached == (stage.place() <= current.place()),
        r.arrow == (stage != Stage::Done),
{
    StripEntry {
        stage,
        number: stage.order() + 1,
        active: stage == current,
        reached: stage.order() <= current.order(),
        arrow: stage != Stage::Done,
    }
}

/// The strip of stages of a run that has reached `current`.
pub fn stage_strip(current: Stage) -> (r: Vec<StripEntry>)
    ensures
        r@.len() == all_stages().len(),
        forall|i: int|
            0 <= i < r@.len() ==> {
                &&& (#[trigger] r@[i]).stage == all_stages()[i]
                &&& r@[i].number == i + 1
                &&& r@[i].active == (all_stages()[i] == current)
                &&& r@[i].reached == (i <= current.place())
                &&& r@[i].arrow == (i + 1 < r@.len())
            },
{
    let mut r: Vec<StripEntry> = Vec::new();
    r.push(strip_entry(Stage::Location, current));
    r.push(strip_entry(Stage::Prompt, current));
    r.push(strip_entry(Stage::Brief, current));
    r.push(strip_entry(Stage::Manifest, current));
    r.push(strip_entry(Stage::References, current));
    r.push(strip_entry(Stage::Objects, current));
    r.push(strip_entry(Stage::Assemble, current));
    r.push(strip_entry(Stage::ReviewObjects, current));
    r.push(strip_entry(Stage::ReviewScene, current));
    r.push(strip_entry(Stage::Done, current));
    r
}

// ---- location, prompt, brief, manifest -------------------------------------

/// Whether the location stage can be confirmed.
pub fn location_ready(s: &WizardSession) -> (r: bool)
    ensures
        r == (s.location_draft@.len() > 0),
{
    s.location_draft.as_str().unicode_len() > 0
}

/// The buttons of the prompt stage.
pub struct PromptView {
    pub busy: bool,
    pub can_run: bool,
}

/// What the prompt stage shows.
pub fn prompt_view(s: &WizardSession) -> (r: PromptView)
    ensures
        r.busy == (s.running != WizardBusy::Idle),
        r.can_run == (!r.busy && !blank(s.prompt_draft@)),
{
    let busy = s.running != WizardBusy::Idle;
    PromptView { busy, can_run: !busy && !is_blank(s.prompt_draft.as_str()) }
}

/// What the brief stage shows above its buttons.
#[derive(Clone, Copy, Debug, PartialEq, Eq, Structural)]
pub enum BriefBody {
    Text,
    Waiting,
    Missing,
}

/// What the brief stage shows.
pub struct BriefView {
    pub busy: bool,
    pub body: BriefBody,
    pub can_regenerate: bool,
    pub can_advance: bool,
}

/// What the brief stage shows.
pub fn brief_view(s: &WizardSession) -> (r: BriefView)
    ensures
        r.busy == (s.running == WizardBusy::Brief),
        r.body == match s.state.brief {
            Some(_) => BriefBody::Text,
            None => if r.busy {
                BriefBody::Waiting
            } else {
                BriefBody::Missing
            },
        },
        r.can_regenerate == !r.busy,
        r.can_advance == (!r.busy && match s.state.brief {
            Some(text) => !blank(text@),
            None => false,
        }),
{
    let busy = s.running == WizardBusy::Brief;
    let has_brief = match &s.state.brief {
        Some(text) => !is_blank(text.as_str()),
        None => false,
    };
    let body = if s.state.brief.is_some() {
        BriefBody::Text
    } else if busy {
        BriefBody::Waiting
    } else {
        BriefBody::Missing
    };
    BriefView { busy, body, can_regenerate: !busy, can_advance: has_brief && !busy }
}

/// Takes over the brief as edited in its field.
pub fn edit_brief(s: &mut WizardSession, text: String)
    ensures
        *final(s) == (WizardSession {
            state: WizardState { brief: Some(text), ..old(s).state },
            ..*old(s)
        }),
{
    s.state.brief = Some(text);
}

/// What the manifest stage shows above its objects.
#[derive(Clone, Copy, Debug, PartialEq, Eq, Structural)]
pub enum ManifestBody {
    Planned,
    Waiting,
    Missing,
}

/// What the manifest stage shows.
pub struct ManifestView {
    pub busy: bool,
    pub body: ManifestBody,
    /// The line above the objects.
    pub headline: String,
    pub can_generate: bool,
    /// Whether the manifest can be made again, and the run can go on.
    pub can_advance: bool,
}

/// What the manifest stage shows.
pub fn manifest_view(s: &WizardSession) -> (r: ManifestView)
    ensures
        r.busy == (s.running == WizardBusy::Manifest),
        r.body == if s.state.manifest@.len() > 0 {
            ManifestBody::Planned
        } else if r.busy {
            ManifestBody::Waiting
        } else {
            ManifestBody::Missing
        },
        r.headline@ == match r.body {
            ManifestBody::Planned => decimal_digits(s.state.manifest@.len())
                + " objects planned:"@,
            ManifestBody::Waiting => "Calling the LLM for an object manifest…"@,
            ManifestBody::Missing => "No manifest yet. Generate one to populate the scene plan."@,
        },
        r.can_generate == !r.busy,
        r.can_advance == (!r.busy && s.state.manifest@.len() > 0),
{
    let busy = s.running == WizardBusy::Manifest;
    let n = s.state.manifest.len();
    let body = if n > 0 {
        ManifestBody::Planned
    } else if busy {
        ManifestBody::Waiting
    } else {
        ManifestBody::Missing
    };
    let headline = match body {
        ManifestBody::Planned => {
            let digits = decimal(n);
            cat2(digits.as_str(), " objects planned:")
        },
        ManifestBody::Waiting => "Calling the LLM for an object manifest…".to_owned(),
        ManifestBody::Missing => {
            "No manifest yet. Generate one to populate the scene plan.".to_owned()
        },
    };
    ManifestView { busy, body, headline, can_generate: !busy, can_advance: !busy && n > 0 }
}

/// The caption beside an object's name in the manifest.
pub fn manifest_caption(o: &ObjectEntry) -> (r: String)
    ensures
        r@ == "("@ + o.role@ + " • id="@ + o.id@ + ")"@,
{
    cat5("(", o.role.as_str(), " • id=", o.id.as_str(), ")")
}

// ---- references and objects ------------------------------------------------

/// One object in the reference or object stage.
pub struct BatchRow {
    pub marker: &'static str,
    /// The label of the row's button.
    pub label: &'static str,
    pub enabled: bool,
}

/// What the reference or object stage shows.
pub struct BatchView {
    pub in_flight: usize,
    pub total: usize,
    pub done: usize,
    pub pending: usize,
    pub headline: String,
    pub rows: Vec<BatchRow>,
    pub auto: bool,
    pub can_next: bool,
    /// Whether the bulk run can be started; it can be stopped while it runs.
    pub can_auto: bool,
    pub can_advance: bool,
}

/// `a - b`, or zero where that would be negative.
pub open spec fn minus(a: int, b: int) -> int {
    if a > b {
        a - b
    } else {
        0
    }
}

/// Whether the reference image of the object at `i` is on disk.
pub open spec fn reference_done(m: Seq<ObjectEntry>, on_disk: Set<Seq<char>>) -> spec_fn(
    int,
) -> bool {
    |i: int| !absent(m[i].reference_image, on_disk)
}

/// Whether the module of the object at `i` is on disk.
pub open spec fn module_done(m: Seq<ObjectEntry>, on_disk: Set<Seq<char>>) -> spec_fn(int) -> bool {
    |i: int| !absent(m[i].mog_path, on_disk)
}

/// Whether `r` shows a stage whose objects `m` are `done`, with the ids in
/// `running` in flight.
pub open spec fn shows_batch(
    r: BatchView,
    noun: Seq<char>,
    m: Seq<ObjectEntry>,
    done: spec_fn(int) -> bool,
    running: Set<Seq<char>>,
    auto: bool,
) -> bool {
    &&& r.in_flight == running.len()
    &&& r.total == m.len()
    &&& r.done == count_where(done, m.len())
    &&& r.pending == minus(minus(r.total as int, r.done as int), r.in_flight as int)
    &&& r.headline@ == noun + decimal_digits(r.done as nat) + " of "@
        + decimal_digits(r.total as nat) + " generated  ·  in flight: "@
        + decimal_digits(r.in_flight as nat) + "  ·  pending: "@
        + decimal_digits(r.pending as nat)
    &&& r.rows@.len() == m.len()
    &&& forall|i: int|
        0 <= i < m.len() ==> {
            &&& (#[trigger] r.rows@[i]).marker@ == if done(i) {
                "✓"@
            } else if running.contains(m[i].id@) {
                "…"@
            } else {
                "•"@
            }
            &&& r.rows@[i].label@ == if done(i) {
                "Regenerate"@
            } else {
                "Generate"@
            }
            &&& r.rows@[i].enabled == (!running.contains(m[i].id@) && !auto)
        }
    &&& r.auto == auto
    &&& r.can_next == (r.pending > 0 && !auto && r.in_flight == 0)
    &&& r.can_auto == (r.pending > 0 && !auto)
    &&& r.can_advance == (r.in_flight == 0)
}

fn batch_row(done: bool, running: bool, auto: bool) -> (r: BatchRow)
    ensures
        r.marker@ == if done {
            "✓"@
        } else if running {
            "…"@
        } else {
            "•"@
        },
        r.label@ == if done {
            "Regenerate"@
        } else {
            "Generate"@
        },
        r.enabled == (!running && !auto),
{
    BatchRow {
        marker: if done {
            "✓"
        } else if running {
            "…"
        } else {
            "•"
        },
        label: if done {
            "Regenerate"
        } else {
            "Generate"
        },
        enabled: !running && !auto,
    }
}

fn batch_headline(noun: &str, done: usize, total: usize, in_flight: usize, pending: usize) -> (r:
    String)
    ensures
        r@ == noun@ + decimal_digits(done as nat) + " of "@
            + decimal_digits(total as nat) + " generated  ·  in flight: "@
            + decimal_digits(in_flight as nat) + "  ·  pending: "@
            + decimal_digits(pending as nat),
{
    let d = decimal(done);
    let t = decimal(total);
    let f = decimal(in_flight);
    let p = decimal(pending);
    let a = cat5(noun, d.as_str(), " of ", t.as_str(), " generated  ·  in flight: ");
    cat4(a.as_str(), f.as_str(), "  ·  pending: ", p.as_str())
}

fn batch_view(
    noun: &str,
    m: &Vec<ObjectEntry>,
    done: &Vec<bool>,
    running: &IdSet,
    auto: bool,
    Ghost(is_done): Ghost<spec_fn(int) -> bool>,
) -> (r: BatchView)
    requires
        done@.len() == m@.len(),
        forall|i: int| 0 <= i < m@.len() ==> #[trigger] done@[i] == is_done(i),
    ensures
        shows_batch(r, noun@, m@, is_done, running@, auto),
{
    let in_flight = running.len();
    let total = m.len();
    let mut n: usize = 0;
    let mut rows: Vec<BatchRow> = Vec::new();
    let mut i: usize = 0;
    while i < m.len()
        invariant
            i <= m@.len(),
            done@.len() == m@.len(),
            forall|k: int| 0 <= k < m@.len() ==> #[trigger] done@[k] == is_done(k),
            n == count_where(is_done, i as nat),
            n <= i,
            rows@.len() == i,
            forall|k: int|
                0 <= k < i ==> {
                    &&& (#[trigger] rows@[k]).marker@ == if is_done(k) {
                        "✓"@
                    } else if running@.contains(m@[k].id@) {
                        "…"@
                    } else {
                        "•"@
                    }
                    &&& rows@[k].label@ == if is_done(k) {
                        "Regenerate"@
                    } else {
                        "Generate"@
                    }
                    &&& rows@[k].enabled == (!running@.contains(m@[k].id@) && !auto)
                },
        decreases m.len() - i,
    {
        if done[i] {
            n = n + 1;
        }
        let out = running.contains(m[i].id.as_str());
        rows.push(batch_row(done[i], out, auto));
        i = i + 1;
    }
    let open: usize = total - n;
    let pending: usize = if open > in_flight {
        open - in_flight
    } else {
        0
    };
    let headline = batch_headline(noun, n, total, in_flight, pending);
    BatchView {
        in_flight,
        total,
        done: n,
        pending,
        headline,
        rows,
        auto,
        can_next: pending > 0 && !auto && in_flight == 0,
        can_auto: pending > 0 && !auto,
        can_advance: in_flight == 0,
    }
}

/// What the reference stage shows.
pub fn references_view(s: &WizardSession, on_disk: &IdSet) -> (r: BatchView)
    ensures
        shows_batch(
            r,
            "Reference images: "@,
            s.state.manifest@,
            reference_done(s.state.manifest@, on_disk@),
            s.running_ref_ids@,
            s.auto_continue_refs,
        ),
{
    let m = &s.state.manifest;
    let mut done: Vec<bool> = Vec::new();
    let mut i: usize = 0;
    while i < m.len()
        invariant
            i <= m@.len(),
            m@ == s.state.manifest@,
            done@.len() == i,
            forall|k: int|
                0 <= k < i ==> #[trigger] done@[k] == reference_done(
                    s.state.manifest@,
                    on_disk@,
                )(k),
        decreases m.len() - i,
    {
        done.push(!reference_missing(&m[i], on_disk));
        i = i + 1;
    }
    batch_view(
        "Reference images: ",
        m,
        &done,
        &s.running_ref_ids,
        s.auto_continue_refs,
        Ghost(reference_done(s.state.manifest@, on_disk@)),
    )
}

/// What the object stage shows.
pub fn objects_view(s: &WizardSession, on_disk: &IdSet) -> (r: BatchView)
    ensures
        shows_batch(
            r,
            "Per-object modules: "@,
            s.state.manifest@,
            module_done(s.state.manifest@, on_disk@),
            s.running_object_ids@,
            s.auto_continue_objects,
        ),
{
    let m = &s.state.manifest;
    let mut done: Vec<bool> = Vec::new();
    let mut i: usize = 0;
    while i < m.len()
        invariant
            i <= m@.len(),
            m@ == s.state.manifest@,
            done@.len() == i,
            forall|k: int|
                0 <= k < i ==> #[trigger] done@[k] == module_done(s.state.manifest@, on_disk@)(k),
        decreases m.len() - i,
    {
        done.push(!object_missing(&m[i], on_disk));
        i = i + 1;
    }
    batch_view(
        "Per-object modules: ",
        m,
        &done,
        &s.running_object_ids,
        s.auto_continue_objects,
        Ghost(module_done(s.state.manifest@, on_disk@)),
    )
}

// ---- assembly and reviews --------------------------------------------------

/// What the assemble stage shows.
pub struct AssembleView {
    pub busy: bool,
    pub assembly: Option<String>,
    pub built: Option<String>,
    pub can_run: bool,
    pub can_open: bool,
    pub can_advance: bool,
}

/// A path with a label in front of it.
pub open spec fn labelled(label: Seq<char>, path: Option<String>) -> Option<Seq<char>> {
    match path {
        Some(p) => Some(label + p@),
        None => None,
    }
}

fn label_path(label: &str, path: &Option<String>) -> (r: Option<String>)
    ensures
        opt_view(r) == labelled(label@, *path),
{
    match path {
        Some(p) => Some(cat2(label, p.as_str())),
        None => None,
    }
}

/// What the assemble stage shows.
pub fn assemble_view(s: &WizardSession) -> (r: AssembleView)
    ensures
        r.busy == (s.running == WizardBusy::Assemble || s.running == WizardBusy::Build),
        opt_view(r.assembly) == labelled("Assembly: "@, s.state.assembly_path),
        opt_view(r.built) == labelled("Built: "@, s.state.built_glb),
        r.can_run == !r.busy,
        r.can_open == s.state.assembly_path is Some,
        r.can_advance == s.state.built_glb is Some,
{
    let busy = s.running == WizardBusy::Assemble || s.running == WizardBusy::Build;
    AssembleView {
        busy,
        assembly: label_path("Assembly: ", &s.state.assembly_path),
        built: label_path("Built: ", &s.state.built_glb),
        can_run: !busy,
        can_open: s.state.assembly_path.is_some(),
        can_advance: s.state.built_glb.is_some(),
    }
}

/// What the done stage shows: the built file and the assembly.
pub fn done_view(s: &WizardSession) -> (r: (Option<String>, Option<String>))
    ensures
        opt_view(r.0) == labelled("Final GLB: "@, s.state.built_glb),
        opt_view(r.1) == labelled("Assembly: "@, s.state.assembly_path),
{
    (
        label_path("Final GLB: ", &s.state.built_glb),
        label_path("Assembly: ", &s.state.assembly_path),
    )
}

/// One object in the object review stage.
pub enum ReviewRow {
    /// A verdict; a failed object can be made again.
    Judged { pass: bool, label: &'static str, notes: Option<String> },
    /// No verdict yet.
    Open { can_review: bool },
}

/// Whether any object review is running.
pub open spec fn reviewing(s: WizardSession) -> bool {
    s.running matches WizardBusy::ReviewObject(_)
}

/// Whether `r` shows the object `o`.
pub open spec fn shows_review(s: WizardSession, o: ObjectEntry, r: ReviewRow) -> bool {
    if s.state.per_object_reviews@.contains_key(o.id@) {
        let review = s.state.per_object_reviews@[o.id@];
        &&& r matches ReviewRow::Judged { pass, label, notes }
        &&& pass == review.pass
        &&& label@ == if review.pass {
            "PASS"@
        } else {
            "FAIL"@
        }
        &&& notes == if review.notes@.len() > 0 {
            Some(review.notes)
        } else {
            None
        }
    } else {
        &&& r matches ReviewRow::Open { can_review }
        &&& can_review == (!reviewing(s) && (o.thumb_path is Some || o.reference_image is Some))
    }
}

/// Whether any object review is running.
pub fn review_running(s: &WizardSession) -> (r: bool)
    ensures
        r == reviewing(*s),
{
    match s.running {
        WizardBusy::ReviewObject(_) => true,
        _ => false,
    }
}

/// What the object review stage shows, one row per object.
pub fn review_rows(s: &WizardSession) -> (r: Vec<ReviewRow>)
    ensures
        r@.len() == s.state.manifest@.len(),
        forall|i: int|
            0 <= i < r@.len() ==> shows_review(*s, s.state.manifest@[i], #[trigger] r@[i]),
{
    let busy = review_running(s);
    let mut rows: Vec<ReviewRow> = Vec::new();
    let mut i: usize = 0;
    while i < s.state.manifest.len()
        invariant
            i <= s.state.manifest@.len(),
            busy == reviewing(*s),
            rows@.len() == i,
            forall|k: int|
                0 <= k < i ==> shows_review(*s, s.state.manifest@[k], #[trigger] rows@[k]),
        decreases s.state.manifest.len() - i,
    {
        let o = &s.state.manifest[i];
        let row = match s.state.per_object_reviews.get(o.id.as_str()) {
            Some(review) => ReviewRow::Judged {
                pass: review.pass,
                label: if review.pass {
                    "PASS"
                } else {
                    "FAIL"
                },
                notes: if review.notes.as_str().unicode_len() > 0 {
                    Some(review.notes.clone())
                } else {
                    None
                },
            },
            None => ReviewRow::Open {
                can_review: !busy && (o.thumb_path.is_some() || o.reference_image.is_some()),
            },
        };
        rows.push(row);
        i = i + 1;
    }
    rows
}

/// What the scene review stage shows.
pub struct SceneReviewView {
    pub busy: bool,
    pub screenshot: String,
    pub capture_label: &'static str,
    /// The line above the corrections, when there is a review.
    pub corrections: Option<String>,
    pub can_review: bool,
    pub review_hint: String,
    pub can_apply: bool,
}

/// What the scene review stage shows.
pub fn scene_review_view(s: &WizardSession) -> (r: SceneReviewView)
    requires
        s.correction_iterations < u32::MAX,
    ensures
        r.busy == (s.running == WizardBusy::SceneReview),
        r.screenshot@ == match s.state.scene_thumb {
            Some(p) => "screenshot: "@ + p@,
            None => "No isometric screenshot yet"@,
        },
        r.capture_label@ == if s.state.scene_thumb is Some {
            "Recapture iso screenshot"@
        } else {
            "Capture iso screenshot"@
        },
        opt_view(r.corrections) == match s.state.scene_review {
            Some(review) => if review.corrections@.len() == 0 {
                Some("No corrections needed."@)
            } else {
                Some(
                    decimal_digits(review.corrections@.len()) + " correction(s):"@,
                )
            },
            None => None,
        },
        r.can_review == (!r.busy && s.correction_iterations < MAX_CORRECTION_ITERS),
        r.review_hint@ == "Run a fresh isometric render through the LLM (iteration "@
            + decimal_digits((s.correction_iterations + 1) as nat) + "/"@
            + decimal_digits(MAX_CORRECTION_ITERS as nat) + ")"@,
        r.can_apply == (!r.busy && match s.state.scene_review {
            Some(review) => review.corrections@.len() > 0,
            None => false,
        }),
{
    let busy = s.running == WizardBusy::SceneReview;
    let screenshot = match &s.state.scene_thumb {
        Some(p) => cat2("screenshot: ", p.as_str()),
        None => "No isometric screenshot yet".to_owned(),
    };
    let corrections = match &s.state.scene_review {
        Some(review) => {
            if review.corrections.len() == 0 {
                Some("No corrections needed.".to_owned())
            } else {
                let n = decimal(review.corrections.len());
                Some(cat2(n.as_str(), " correction(s):"))
            }
        },
        None => None,
    };
    let can_apply = match &s.state.scene_review {
        Some(review) => !busy && review.corrections.len() > 0,
        None => false,
    };
    let k = decimal((s.correction_iterations + 1) as usize);
    let max = decimal(MAX_CORRECTION_ITERS as usize);
    SceneReviewView {
        busy,
        screenshot,
        capture_label: if s.state.scene_thumb.is_some() {
            "Recapture iso screenshot"
        } else {
            "Capture iso screenshot"
        },
        corrections,
        can_review: !busy && s.correction_iterations < MAX_CORRECTION_ITERS,
        review_hint: cat5(
            "Run a fresh isometric render through the LLM (iteration ",
            k.as_str(),
            "/",
            max.as_str(),
            ")",
        ),
        can_apply,
    }
}

// ---- laws ------------------------------------------------------------------

/// The strip counts ten stages from one; the current one is marked, and those
/// up to it are reached.
pub proof fn law_strip_marks_the_current_stage(current: Stage, r: Vec<StripEntry>, i: int, j: int)
    requires
        call_ensures(stage_strip, (current,), r),
        0 <= i < j < r@.len(),
    ensures
        r@.len() == 10,
        r@[i].number == i + 1,
        r@[i].stage != r@[j].stage,
        r@[i].active <==> r@[i].stage == current,
        r@[j].active ==> r@[i].reached && r@[j].reached,
        r@[i].active ==> r@[i].reached && !r@[j].reached,
        r@[0].stage == Stage::Location && r@[9].stage == Stage::Done && !r@[9].arrow,
        i < 9 ==> r@[i].arrow,
{
    assert(r@[i].stage == all_stages()[i]);
    assert(r@[j].stage == all_stages()[j]);
    assert(r@[0].stage == all_stages()[0]);
    assert(r@[9].stage == all_stages()[9]);
    assert(forall|k: int| 0 <= k < 10 ==> (#[trigger] all_stages()[k]).place() == k);
}

/// The stages before the references can be left when what they are for is
/// there and no worker is on it.
pub proof fn law_early_stages_wait_for_their_result(
    s: &WizardSession,
    ready: bool,
    prompt: PromptView,
    brief: BriefView,
    manifest: ManifestView,
)
    requires
        call_ensures(location_ready, (s,), ready),
        call_ensures(prompt_view, (s,), prompt),
        call_ensures(brief_view, (s,), brief),
        call_ensures(manifest_view, (s,), manifest),
    ensures
        ready <==> s.location_draft@.len() > 0,
        prompt.can_run <==> s.running == WizardBusy::Idle && !blank(s.prompt_draft@),
        brief.can_advance <==> s.running != WizardBusy::Brief && (s.state.brief matches Some(t)
            && !blank(t@)),
        s.state.brief is Some ==> brief.body == BriefBody::Text,
        s.state.brief is None && s.running == WizardBusy::Brief ==> brief.body == BriefBody::Waiting,
        manifest.can_advance <==> s.running != WizardBusy::Manifest && s.state.manifest@.len() > 0,
        s.state.manifest@.len() > 0 ==> manifest.headline@ == decimal_digits(
            s.state.manifest@.len(),
        ) + " objects planned:"@,
        brief.can_regenerate <==> s.running != WizardBusy::Brief,
        manifest.can_generate <==> s.running != WizardBusy::Manifest,
{
}

/// The brief is what was typed into its field, and nothing else changes.
pub proof fn law_edited_brief_is_kept(s: &mut WizardSession, text: String)
    requires
        call_ensures(edit_brief, (s, text), ()),
    ensures
        final(s).state.brief == Some(text),
        final(s).state.manifest == old(s).state.manifest && final(s).state.stage == old(s).state.stage && final(s).running == old(s).running,
{
}

/// Every object has a row. It is ticked when its file is on disk, and only
/// then offers to make it again; its button is off while a worker is on it and
/// during a bulk run. The same goes for references and modules.
pub proof fn law_rows_show_what_is_on_disk(
    s: &WizardSession,
    on_disk: &IdSet,
    refs: BatchView,
    mods: BatchView,
    i: int,
)
    requires
        call_ensures(references_view, (s, on_disk), refs),
        call_ensures(objects_view, (s, on_disk), mods),
        0 <= i < s.state.manifest@.len(),
    ensures
        refs.rows@.len() == s.state.manifest@.len() && mods.rows@.len() == s.state.manifest@.len(),
        refs.rows@[i].marker@ == "✓"@ <==> (s.state.manifest@[i].reference_image matches Some(p)
            && on_disk@.contains(p@)),
        mods.rows@[i].marker@ == "✓"@ <==> (s.state.manifest@[i].mog_path matches Some(p)
            && on_disk@.contains(p@)),
        refs.rows@[i].label@ == "Regenerate"@ <==> refs.rows@[i].marker@ == "✓"@,
        mods.rows@[i].label@ == "Regenerate"@ <==> mods.rows@[i].marker@ == "✓"@,
        refs.rows@[i].enabled <==> !s.running_ref_ids@.contains(s.state.manifest@[i].id@)
            && !s.auto_continue_refs,
        mods.rows@[i].enabled <==> !s.running_object_ids@.contains(s.state.manifest@[i].id@)
            && !s.auto_continue_objects,
{
    lemma_row_words();
    let m = s.state.manifest@;
    let (a, b) = (reference_done(m, on_disk@), module_done(m, on_disk@));
    assert(a(i) == !absent(m[i].reference_image, on_disk@));
    assert(b(i) == !absent(m[i].mog_path, on_disk@));
    assert(refs.rows@[i].label@ == "Regenerate"@ || refs.rows@[i].label@ == "Generate"@);
    assert(mods.rows@[i].label@ == "Regenerate"@ || mods.rows@[i].label@ == "Generate"@);
}

proof fn lemma_row_words()
    ensures
        "✓"@ != "…"@,
        "✓"@ != "•"@,
        "Regenerate"@ != "Generate"@,
{
    reveal_strlit("✓");
    reveal_strlit("…");
    reveal_strlit("•");
    reveal_strlit("Regenerate");
    reveal_strlit("Generate");
    assert("✓"@[0] != "…"@[0] && "✓"@[0] != "•"@[0]);
    assert("Regenerate"@.len() != "Generate"@.len());
}

/// The counts add up: all that are not done and not in flight are pending, and
/// one can go on only when no worker is out.
pub proof fn law_batch_counts_add_up(
    s: &WizardSession,
    on_disk: &IdSet,
    refs: BatchView,
    mods: BatchView,
)
    requires
        call_ensures(references_view, (s, on_disk), refs),
        call_ensures(objects_view, (s, on_disk), mods),
    ensures
        refs.total == s.state.manifest@.len() && mods.total == s.state.manifest@.len(),
        refs.in_flight == s.running_ref_ids@.len() && mods.in_flight
            == s.running_object_ids@.len(),
        refs.done + refs.in_flight <= refs.total ==> refs.done + refs.in_flight + refs.pending
            == refs.total,
        mods.done + mods.in_flight <= mods.total ==> mods.done + mods.in_flight + mods.pending
            == mods.total,
        refs.can_advance <==> s.running_ref_ids@.len() == 0,
        mods.can_advance <==> s.running_object_ids@.len() == 0,
        refs.can_auto <==> refs.pending > 0 && !s.auto_continue_refs,
        mods.can_auto <==> mods.pending > 0 && !s.auto_continue_objects,
        refs.can_next <==> refs.can_auto && refs.in_flight == 0,
        mods.can_next <==> mods.can_auto && mods.in_flight == 0,
        (forall|i: int|
            0 <= i < s.state.manifest@.len() ==> ((
            #[trigger] s.state.manifest@[i]).reference_image matches Some(p) && on_disk@.contains(
                p@,
            ))) ==> refs.done == refs.total,
        (forall|i: int|
            0 <= i < s.state.manifest@.len() ==> (
            (#[trigger] s.state.manifest@[i]).reference_image matches Some(p) ==> !on_disk@.contains(
                p@,
            ))) ==> refs.done == 0,
{
    let m = s.state.manifest@;
    lemma_count_all(reference_done(m, on_disk@), m.len());
}

proof fn lemma_count_all(p: spec_fn(int) -> bool, n: nat)
    ensures
        count_where(p, n) <= n,
        (forall|i: int| 0 <= i < n ==> #[trigger] p(i)) ==> count_where(p, n) == n,
        (forall|i: int| 0 <= i < n ==> !(#[trigger] p(i))) ==> count_where(p, n) == 0,
    decreases n,
{
    if n > 0 {
        lemma_count_all(p, (n - 1) as nat);
    }
}

/// The assembly can be opened once it is there, and the run goes on once it is
/// built; while either is being made it cannot be started again.
pub proof fn law_assembly_can_be_opened(
    s: &WizardSession,
    r: AssembleView,
    done: (Option<String>, Option<String>),
)
    requires
        call_ensures(assemble_view, (s,), r),
        call_ensures(done_view, (s,), done),
    ensures
        r.can_open <==> s.state.assembly_path is Some,
        r.can_advance <==> s.state.built_glb is Some,
        r.can_run <==> s.running != WizardBusy::Assemble && s.running != WizardBusy::Build,
        s.state.assembly_path matches Some(p) ==> opt_view(r.assembly) == Some("Assembly: "@ + p@)
            && opt_view(done.1) == Some("Assembly: "@ + p@),
        s.state.built_glb matches Some(p) ==> opt_view(r.built) == Some("Built: "@ + p@) && opt_view(
            done.0,
        ) == Some("Final GLB: "@ + p@),
{
}

/// Every object has a row with its verdict; one without can be reviewed when
/// it has a picture and no review is running.
pub proof fn law_verdicts_are_shown(s: &WizardSession, r: Vec<ReviewRow>, i: int)
    requires
        call_ensures(review_rows, (s,), r),
        0 <= i < s.state.manifest@.len(),
    ensures
        r@.len() == s.state.manifest@.len(),
        s.state.per_object_reviews@.contains_key(s.state.manifest@[i].id@) ==> (
        r@[i] matches ReviewRow::Judged { pass, label, notes } && {
            let v = s.state.per_object_reviews@[s.state.manifest@[i].id@];
            &&& pass == v.pass
            &&& v.pass ==> label@ == "PASS"@
            &&& !v.pass ==> label@ == "FAIL"@
            &&& v.notes@.len() > 0 ==> notes == Some(v.notes)
            &&& v.notes@.len() == 0 ==> notes is None
        }),
        !s.state.per_object_reviews@.contains_key(s.state.manifest@[i].id@) ==> (
        r@[i] matches ReviewRow::Open { can_review } && (can_review <==> !(s.running is ReviewObject)
            && (s.state.manifest@[i].thumb_path is Some || s.state.manifest@[i].reference_image is Some))),
{
    assert(shows_review(*s, s.state.manifest@[i], r@[i]));
}

/// Corrections can be applied when there are some, and the scene reviewed
/// again for three rounds; neither while a review is running.
pub proof fn law_corrections_can_be_applied(s: &WizardSession, r: SceneReviewView)
    requires
        call_ensures(scene_review_view, (s,), r),
        s.correction_iterations < u32::MAX,
    ensures
        r.can_apply <==> s.running != WizardBusy::SceneReview && (s.state.scene_review matches Some(v)
            && v.corrections@.len() > 0),
        r.can_review <==> s.running != WizardBusy::SceneReview && s.correction_iterations < 3,
        s.state.scene_review is None ==> r.corrections is None,
        s.state.scene_review matches Some(v) ==> v.corrections@.len() > 0 ==> opt_view(r.corrections)
            == Some(decimal_digits(v.corrections@.len()) + " correction(s):"@),
        s.state.scene_thumb matches Some(p) ==> r.screenshot@ == "screenshot: "@ + p@,
{
}

/// The caption of an object tells its role and its id, and a review is under
/// way while a worker looks at an object.
pub proof fn law_captions_tell_the_role(o: &ObjectEntry, r: String, s: &WizardSession, busy: bool)
    requires
        call_ensures(manifest_caption, (o,), r),
        call_ensures(review_running, (s,), busy),
    ensures
        r@ == "("@ + o.role@ + " • id="@ + o.id@ + ")"@,
        busy <==> s.running is ReviewObject,
{
}

} // verus!
