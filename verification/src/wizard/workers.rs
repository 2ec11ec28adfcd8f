//! Starting the background workers of a run. Each function decides whether a
//! worker starts, marks it in the session, and hands out what the worker
//! needs.

use vstd::prelude::*;

use super::claim::{
    answered, answers_of, capacity, claim_pending_batch, claims, ids_of,
    law_claim_takes_the_first_pending, lemma_ids_of, object_missing, reference_missing, unclaimed,
    waiting, wants_module, wants_reference,
};
use super::lifecycle::{is_run_config, only_session, WizardRunConfig};
use super::project::failed_with;
use super::session::{WizardBusy, WizardSession};
use super::state::{
    lemma_object_at, lemma_object_found, object_at, ObjectEntry, WizardState,
};
use crate::ids::IdSet;
use crate::paths::{
    guess_image_mime, is_extension, is_join, last_segment, mime_of, path_join, path_with_extension,
    portable, re_extendable, re_extended, suffix_of,
};
use crate::studio::{MogenStudioApp, Provider};
use crate::text::{
    blank, cat2, cat3, cat4, cat5, clone_opt, decimal, decimal_digits, is_blank, join, joined,
    opt_view, views,
};

verus! {

/// The failure shown when no text provider is signed in.
pub open spec fn no_credentials() -> Seq<char> {
    "Provider credentials missing — open Preferences and sign in."@
}

/// The failure shown when no image provider is signed in.
pub open spec fn no_image_credentials() -> Seq<char> {
    "Image generation needs a Gemini or Z.ai credential — check Preferences › Image."@
}

/// Whether the session reports `text` as its failure and nothing else about
/// it changed.
pub open spec fn only_error(pre: WizardSession, post: WizardSession, text: Seq<char>) -> bool {
    &&& post == (WizardSession { error: post.error, ..pre })
    &&& opt_view(post.error) == Some(text)
}

/// Whether the media type is the one that the extension of `path` gives.
pub open spec fn is_mime(path: Seq<char>, mime: Seq<char>) -> bool {
    &&& portable(path) ==> mime == mime_of(
        suffix_of(last_segment(path)),
    )
    &&& exists|ext: Option<Seq<char>>| #[trigger]
        is_extension(path, ext) && mime == mime_of(ext)
}

/// A picture as a worker takes it.
pub struct Picture {
    pub bytes: Vec<u8>,
    pub mime: String,
}

/// The source image as a worker takes it, when there is one and it could be
/// read.
pub open spec fn source_picture(
    state: WizardState,
    read: Option<Vec<u8>>,
    r: Option<Picture>,
) -> bool {
    match (state.source_image, read) {
        (Some(path), Some(bytes)) => r matches Some(p) && p.bytes == bytes && is_mime(
            path@,
            p.mime@,
        ),
        _ => r is None,
    }
}

/// The source image of a run as a worker takes it. `read` is what reading its
/// file gave.
pub fn read_source_image(state: &WizardState, read: Option<Vec<u8>>) -> (r: Option<Picture>)
    ensures
        source_picture(*state, read, r),
{
    match &state.source_image {
        Some(path) => match read {
            Some(bytes) => Some(Picture { bytes, mime: guess_image_mime(path.as_str()) }),
            None => None,
        },
        None => None,
    }
}

// ---- brief -----------------------------------------------------------------

/// What the brief worker needs.
pub struct BriefJob {
    pub prompt: String,
    pub source: Option<Picture>,
    pub cfg: WizardRunConfig,
}

/// What starting the brief does to a session that has credentials: the prompt
/// is taken over from its field, and then either a reason not to start is
/// reported or the worker is marked as out. `readable` says that the source
/// image could be read.
pub open spec fn brief_begun(
    pre: WizardSession,
    provider: Provider,
    readable: bool,
    post: WizardSession,
    started: bool,
) -> bool {
    let has_path = pre.state.source_image is Some;
    let has_image = has_path && readable;
    let kept = WizardSession {
        state: WizardState { prompt: pre.prompt_draft, ..pre.state },
        ..pre
    };
    if has_path && !has_image {
        &&& !started
        &&& only_error(
            kept,
            post,
            "Source image could not be read — it may have been moved or deleted. Clear the source image or choose a new one."@,
        )
    } else if has_image && !provider.supports_images {
        &&& !started
        &&& only_error(
            kept,
            post,
            provider.label@ + " can't read images — switch to a vision provider ("@
                + provider.vision_providers@
                + ") in Preferences, or clear the source image."@,
        )
    } else if !has_image && blank(pre.prompt_draft@) {
        &&& !started
        &&& only_error(kept, post, "Enter a scene prompt or choose a source image first."@)
    } else {
        &&& started
        &&& post == (WizardSession {
            running: WizardBusy::Brief,
            error: None,
            status: post.status,
            ..kept
        })
        &&& post.status@ == if has_image {
            "Reading the source image…"@
        } else {
            "Generating scene brief…"@
        }
    }
}

/// Whether a worker starts on the brief; marks it in the session.
pub fn begin_brief(
    s: &mut WizardSession,
    provider: &Provider,
    readable: bool,
) -> (started: bool)
    ensures
        brief_begun(*old(s), *provider, readable, *final(s), started),
{
    s.state.prompt = s.prompt_draft.clone();
    let has_path = s.state.source_image.is_some();
    let has_image = has_path && readable;
    if has_path && !has_image {
        s.error =
        Some(
            "Source image could not be read — it may have been moved or deleted. Clear the source image or choose a new one.".to_owned(),
        );
        return false;
    }
    if has_image && !provider.supports_images {
        s.error =
        Some(
            cat4(
                provider.label.as_str(),
                " can't read images — switch to a vision provider (",
                provider.vision_providers.as_str(),
                ") in Preferences, or clear the source image.",
            ),
        );
        return false;
    }
    if !has_image && is_blank(s.state.prompt.as_str()) {
        s.error = Some("Enter a scene prompt or choose a source image first.".to_owned());
        return false;
    }
    s.running = WizardBusy::Brief;
    s.error = None;
    s.status =
    if has_image {
        "Reading the source image…".to_owned()
    } else {
        "Generating scene brief…".to_owned()
    };
    true
}

impl MogenStudioApp {
    /// Starts the brief. `signed_in` says that a text provider can be reached,
    /// and `read` is what reading the source image gave. The run is to be saved
    /// when a job comes back.
    pub fn start_wizard_brief(
        &mut self,
        signed_in: bool,
        read: Option<Vec<u8>>,
        fresh_seed: u64,
    ) -> (r: Option<BriefJob>)
        ensures
            only_session(*old(self), *final(self)),
            old(self).wizard is None ==> r is None,
            old(self).wizard matches Some(s) ==> if !signed_in {
                r is None && failed_with(
                    s,
                    final(self).wizard,
                    no_credentials(),
                )
            } else {
                &&& brief_begun(
                    s,
                    old(self).settings.provider,
                    read is Some,
                    final(self).wizard->0,
                    r is Some,
                )
                &&& r matches Some(job) ==> {
                    &&& job.prompt@ == s.prompt_draft@
                    &&& source_picture(s.state, read, job.source)
                    &&& is_run_config(*old(self), fresh_seed, job.cfg)
                }
            },
    {
        if !signed_in {
            self.wizard_set_error(
                "Provider credentials missing — open Preferences and sign in.".to_owned(),
            );
            return None;
        }
        let cfg = self.build_wizard_run_config(fresh_seed);
        match self.wizard.as_mut() {
            Some(s) => {
                if begin_brief(s, &self.settings.provider, read.is_some()) {
                    let prompt = s.state.prompt.clone();
                    let source = read_source_image(&s.state, read);
                    Some(BriefJob { prompt, source, cfg })
                } else {
                    None
                }
            },
            None => None,
        }
    }
}

// ---- manifest --------------------------------------------------------------

/// What the manifest worker needs.
pub struct ManifestJob {
    pub prompt: String,
    pub brief: String,
    pub source: Option<Picture>,
    pub cfg: WizardRunConfig,
}

impl MogenStudioApp {
    /// Starts the manifest. `signed_in` says that a text provider can be
    /// reached, and `read` is what reading the source image gave.
    pub fn start_wizard_manifest(
        &mut self,
        signed_in: bool,
        read: Option<Vec<u8>>,
        fresh_seed: u64,
    ) -> (r: Option<ManifestJob>)
        ensures
            only_session(*old(self), *final(self)),
            old(self).wizard is None ==> r is None,
            old(self).wizard matches Some(s) ==> if !signed_in {
                r is None && failed_with(
                    s,
                    final(self).wizard,
                    no_credentials(),
                )
            } else {
                match s.state.brief {
                    None => r is None && only_error(
                        s,
                        final(self).wizard->0,
                        "Generate a brief first."@,
                    ),
                    Some(brief) => {
                        &&& final(self).wizard matches Some(t)
                        &&& t == (WizardSession {
                            running: WizardBusy::Manifest,
                            error: None,
                            status: t.status,
                            ..s
                        })
                        &&& t.status@ == "Generating object manifest…"@
                        &&& r matches Some(job)
                        &&& job.prompt@ == s.state.prompt@
                        &&& job.brief@ == brief@
                        &&& source_picture(s.state, read, job.source)
                        &&& is_run_config(*old(self), fresh_seed, job.cfg)
                    },
                }
            },
    {
        if !signed_in {
            self.wizard_set_error(
                "Provider credentials missing — open Preferences and sign in.".to_owned(),
            );
            return None;
        }
        let cfg = self.build_wizard_run_config(fresh_seed);
        match self.wizard.as_mut() {
            Some(s) => {
                let prompt = s.state.prompt.clone();
                match clone_opt(&s.state.brief) {
                    None => {
                        s.error = Some("Generate a brief first.".to_owned());
                        None
                    },
                    Some(brief) => {
                        let source = read_source_image(&s.state, read);
                        s.running = WizardBusy::Manifest;
                        s.error = None;
                        s.status = "Generating object manifest…".to_owned();
                        Some(ManifestJob { prompt, brief, source, cfg })
                    },
                }
            },
            None => None,
        }
    }
}

// ---- reference images ------------------------------------------------------

/// What the reference workers need: one worker per object, all with the same
/// source image and seed.
pub struct ReferenceJobs {
    pub objects: Vec<ObjectEntry>,
    pub source: Option<Picture>,
    pub seed: u64,
}

/// The names of a list of objects.
pub open spec fn names_of(v: Seq<ObjectEntry>) -> Seq<Seq<char>> {
    v.map_values(|o: ObjectEntry| o.name@)
}

fn joined_names(v: &Vec<ObjectEntry>) -> (r: String)
    ensures
        r@ == joined(names_of(v@), ", "@),
{
    let mut names: Vec<String> = Vec::new();
    let mut i: usize = 0;
    while i < v.len()
        invariant
            i <= v@.len(),
            names@.len() == i,
            forall|j: int| 0 <= j < i ==> (#[trigger] names@[j])@ == v@[j].name@,
        decreases v.len() - i,
    {
        names.push(v[i].name.clone());
        i = i + 1;
    }
    assert(views(names@) =~= names_of(v@));
    join(&names, ", ")
}

/// Whether `out` is what a claim hands out when exactly the objects of
/// `missing` want a worker.
pub open spec fn claimed(
    m: Seq<ObjectEntry>,
    missing: spec_fn(ObjectEntry) -> bool,
    taken: Set<Seq<char>>,
    target: int,
    out: Seq<ObjectEntry>,
) -> bool {
    let all = m.filter(unclaimed(missing, taken));
    let free = capacity(target, taken.len() as int);
    out == if all.len() <= free {
        all
    } else {
        all.take(free)
    }
}

/// What a batch of reference workers does to a session with credentials: a
/// full pool changes nothing; with nothing left to claim, a bulk run ends; else
/// the objects in `out` are claimed and reserved.
pub open spec fn reference_batch_begun(
    pre: WizardSession,
    target: int,
    auto_continue: bool,
    on_disk: Set<Seq<char>>,
    post: WizardSession,
    out: Seq<ObjectEntry>,
) -> bool {
    if pre.running_ref_ids@.len() >= target {
        post == pre && out == Seq::<ObjectEntry>::empty()
    } else {
        &&& claimed(
            pre.state.manifest@,
            wants_reference(on_disk),
            pre.running_ref_ids@,
            target,
            out,
        )
        &&& post.running_ref_ids@ == pre.running_ref_ids@.union(ids_of(out))
        &&& if out.len() > 0 {
            &&& post == (WizardSession {
                running_ref_ids: post.running_ref_ids,
                auto_continue_refs: auto_continue,
                error: None,
                status: post.status,
                ..pre
            })
            &&& post.status@ == "Generating "@ + decimal_digits(out.len())
                + " reference image(s): "@ + joined(names_of(out), ", "@) + "…"@
        } else if auto_continue {
            &&& post == (WizardSession {
                running_ref_ids: post.running_ref_ids,
                auto_continue_refs: false,
                status: post.status,
                ..pre
            })
            &&& post.status@ == "All reference images generated."@
        } else {
            post == (WizardSession { running_ref_ids: post.running_ref_ids, ..pre })
        }
    }
}

/// Claims the next reference workers of a session.
pub fn begin_reference_batch(
    s: &mut WizardSession,
    target: usize,
    auto_continue: bool,
    on_disk: &IdSet,
) -> (out: Vec<ObjectEntry>)
    ensures
        reference_batch_begun(
            *old(s),
            target as int,
            auto_continue,
            on_disk@,
            *final(s),
            out@,
        ),
{
    if s.running_ref_ids.len() >= target {
        return Vec::new();
    }
    let ghost taken = s.running_ref_ids@;
    let missing = |o: &ObjectEntry| -> (b: bool)
        ensures
            b == wants_reference(on_disk@)(*o),
        { reference_missing(o, on_disk) };
    let out = claim_pending_batch(&s.state.manifest, &mut s.running_ref_ids, target, missing);
    proof {
        let m = s.state.manifest@;
        let p = wants_reference(on_disk@);
        let free = capacity(target as int, taken.len() as int);
        let flags = choose|flags: Seq<bool>|
            {
                &&& #[trigger] answered(missing, m, flags)
                &&& claims(m, flags, taken, free, out@)
            };
        assert(answers_of(p, m, flags)) by {
            assert forall|i: int| 0 <= i < flags.len() implies #[trigger] flags[i] == p(m[i]) by {
                assert(call_ensures(missing, (&m[i],), flags[i]));
            }
        }
        law_claim_takes_the_first_pending(m, p, flags, taken, free, out@);
    }
    if out.len() == 0 {
        if auto_continue {
            s.auto_continue_refs = false;
            s.status = "All reference images generated.".to_owned();
        }
        return out;
    }
    s.auto_continue_refs = auto_continue;
    s.error = None;
    let n = decimal(out.len());
    let names = joined_names(&out);
    s.status = cat5("Generating ", n.as_str(), " reference image(s): ", names.as_str(), "…");
    out
}

impl MogenStudioApp {
    /// Starts reference workers up to `target_concurrency` in flight. `signed_in`
    /// says that an image provider can be reached, and `read` is what reading
    /// the source image gave. Nothing starts when no jobs come back.
    pub fn start_wizard_reference_batch(
        &mut self,
        signed_in: bool,
        target_concurrency: usize,
        auto_continue: bool,
        on_disk: &IdSet,
        read: Option<Vec<u8>>,
        fresh_seed: u64,
    ) -> (r: Option<ReferenceJobs>)
        ensures
            only_session(*old(self), *final(self)),
            old(self).wizard is None ==> r is None,
            old(self).wizard matches Some(s) ==> if !signed_in {
                &&& r is None
                &&& failed_with(
                    WizardSession { auto_continue_refs: false, ..s },
                    final(self).wizard,
                    no_image_credentials(),
                )
            } else {
                &&& reference_batch_begun(
                    s,
                    target_concurrency as int,
                    auto_continue,
                    on_disk@,
                    final(self).wizard->0,
                    match r {
                        Some(jobs) => jobs.objects@,
                        None => Seq::empty(),
                    },
                )
                &&& r matches Some(jobs) ==> {
                    &&& jobs.objects@.len() > 0
                    &&& source_picture(s.state, read, jobs.source)
                    &&& jobs.seed == s.state.seed
                }
            },
    {
        if !signed_in {
            if let Some(s) = self.wizard.as_mut() {
                s.auto_continue_refs = false;
            }
            self.wizard_set_error(
                "Image generation needs a Gemini or Z.ai credential — check Preferences › Image.".to_owned(),
            );
            return None;
        }
        let cfg = self.build_wizard_run_config(fresh_seed);
        match self.wizard.as_mut() {
            Some(s) => {
                let objects = begin_reference_batch(s, target_concurrency, auto_continue, on_disk);
                if objects.len() == 0 {
                    assert(objects@ =~= Seq::empty());
                    return None;
                }
                let source = read_source_image(&s.state, read);
                Some(ReferenceJobs { objects, source, seed: cfg.seed })
            },
            None => None,
        }
    }
}

/// What making one picture or module again asks of the studio.
pub struct Redo {
    /// The run is to be saved.
    pub save: bool,
    /// The old file, to be deleted.
    pub stale: Option<String>,
    /// The object to hand to a worker.
    pub object: Option<ObjectEntry>,
}

/// The objects with the reference image of the first one called `id` dropped.
pub open spec fn reference_dropped(m: Seq<ObjectEntry>, id: Seq<char>) -> Seq<ObjectEntry> {
    match object_at(m, id) {
        Some(i) => m.update(i, ObjectEntry { reference_image: None, ..m[i] }),
        None => m,
    }
}

/// The objects with the module of the first one called `id` dropped.
pub open spec fn module_dropped(m: Seq<ObjectEntry>, id: Seq<char>) -> Seq<ObjectEntry> {
    match object_at(m, id) {
        Some(i) => m.update(
            i,
            ObjectEntry { mog_path: None, position_guide: None, thumb_path: None, ..m[i] },
        ),
        None => m,
    }
}

/// What making one reference image again does to a session: an object that is
/// already in flight is left alone; else its picture is dropped and, if it is
/// in the manifest, it is reserved and handed out.
pub open spec fn reference_redone(
    pre: WizardSession,
    id: Seq<char>,
    post: WizardSession,
    r: Redo,
) -> bool {
    let found = object_at(pre.state.manifest@, id);
    if pre.running_ref_ids@.contains(id) {
        &&& post == pre
        &&& !r.save
        &&& r.stale is None
        &&& r.object is None
    } else {
        &&& r.save
        &&& post == (WizardSession {
            state: WizardState { manifest: post.state.manifest, ..pre.state },
            running_ref_ids: post.running_ref_ids,
            error: None,
            status: post.status,
            ..pre
        })
        &&& post.state.manifest@ == reference_dropped(pre.state.manifest@, id)
        &&& post.status@ == "Generating reference image for "@ + id + "…"@
        &&& match found {
            Some(i) => {
                &&& r.stale == pre.state.manifest@[i].reference_image
                &&& r.object == Some(post.state.manifest@[i])
                &&& post.running_ref_ids@ == pre.running_ref_ids@.insert(id)
            },
            None => {
                &&& r.stale is None
                &&& r.object is None
                &&& post.running_ref_ids == pre.running_ref_ids
            },
        }
    }
}

/// Makes one reference image of a session again.
pub fn redo_reference(s: &mut WizardSession, id: &str) -> (r: Redo)
    ensures
        reference_redone(*old(s), id@, *final(s), r),
{
    if s.running_ref_ids.contains(id) {
        return Redo { save: false, stale: None, object: None };
    }
    s.status = cat3("Generating reference image for ", id, "…");
    s.error = None;
    match s.state.object_index(id) {
        Some(i) => {
            let stale = clone_opt(&s.state.manifest[i].reference_image);
            s.state.manifest[i].reference_image = None;
            let object = s.state.manifest[i].clone();
            s.running_ref_ids.insert(id.to_owned());
            Redo { save: true, stale, object: Some(object) }
        },
        None => Redo { save: true, stale: None, object: None },
    }
}

/// What making one module again does to a session: an object that is already
/// in flight is left alone; else its module and its review are dropped and, if
/// it is in the manifest, it is reserved and handed out.
pub open spec fn module_redone(
    pre: WizardSession,
    id: Seq<char>,
    post: WizardSession,
    r: Redo,
) -> bool {
    let found = object_at(pre.state.manifest@, id);
    if pre.running_object_ids@.contains(id) {
        &&& post == pre
        &&& !r.save
        &&& r.stale is None
        &&& r.object is None
    } else {
        &&& r.save
        &&& post == (WizardSession {
            state: WizardState {
                manifest: post.state.manifest,
                per_object_reviews: post.state.per_object_reviews,
                ..pre.state
            },
            running_object_ids: post.running_object_ids,
            status: post.status,
            ..pre
        })
        &&& post.state.manifest@ == module_dropped(pre.state.manifest@, id)
        &&& post.state.per_object_reviews@ == pre.state.per_object_reviews@.remove(id)
        &&& post.status@ == "Regenerating "@ + id + "…"@
        &&& match found {
            Some(i) => {
                &&& r.stale == pre.state.manifest@[i].mog_path
                &&& r.object == Some(post.state.manifest@[i])
                &&& post.running_object_ids@ == pre.running_object_ids@.insert(id)
            },
            None => {
                &&& r.stale is None
                &&& r.object is None
                &&& post.running_object_ids == pre.running_object_ids
            },
        }
    }
}

/// Makes one module of a session again.
pub fn redo_module(s: &mut WizardSession, id: &str) -> (r: Redo)
    ensures
        module_redone(*old(s), id@, *final(s), r),
{
    if s.running_object_ids.contains(id) {
        return Redo { save: false, stale: None, object: None };
    }
    s.state.per_object_reviews.remove(id);
    s.status = cat3("Regenerating ", id, "…");
    match s.state.object_index(id) {
        Some(i) => {
            let stale = clone_opt(&s.state.manifest[i].mog_path);
            s.state.manifest[i].mog_path = None;
            s.state.manifest[i].position_guide = None;
            s.state.manifest[i].thumb_path = None;
            assert(s.state.manifest@ =~= module_dropped(old(s).state.manifest@, id@));
            let object = s.state.manifest[i].clone();
            s.running_object_ids.insert(id.to_owned());
            Redo { save: true, stale, object: Some(object) }
        },
        None => Redo { save: true, stale: None, object: None },
    }
}

/// Where the reference image of an object goes: `<id>.png` in the folder
/// `references` of the run.
pub fn reference_output(state: &WizardState, id: &str) -> (r: String)
    ensures
        exists|dir: Seq<char>| #[trigger]
            is_join(state.project_dir@, "references"@, dir) && is_join(
                dir,
                id@ + ".png"@,
                r@,
            ),
{
    let dir = state.references_dir();
    let name = cat2(id, ".png");
    let r = path_join(dir.as_str(), name.as_str());
    assert(is_join(state.project_dir@, "references"@, dir@));
    r
}

/// Where the module of an object goes: `<id>.mog` in the folder `objects` of
/// the run.
pub fn module_output(state: &WizardState, id: &str) -> (r: String)
    ensures
        exists|dir: Seq<char>| #[trigger]
            is_join(state.project_dir@, "objects"@, dir) && is_join(
                dir,
                id@ + ".mog"@,
                r@,
            ),
{
    let dir = state.objects_dir();
    let name = cat2(id, ".mog");
    let r = path_join(dir.as_str(), name.as_str());
    assert(is_join(state.project_dir@, "objects"@, dir@));
    r
}

/// The reference image of an object as its module worker takes it: always as
/// PNG, and only when it could be read.
pub fn module_picture(o: &ObjectEntry, read: Option<Vec<u8>>) -> (r: Option<Picture>)
    ensures
        match (o.reference_image, read) {
            (Some(_), Some(bytes)) => r matches Some(p) && p.bytes == bytes && p.mime@
                == "image/png"@,
            _ => r is None,
        },
{
    match &o.reference_image {
        Some(_) => match read {
            Some(bytes) => Some(Picture { bytes, mime: "image/png".to_owned() }),
            None => None,
        },
        None => None,
    }
}

// ---- modules ---------------------------------------------------------------

/// What the module workers need.
pub struct ModuleJobs {
    pub objects: Vec<ObjectEntry>,
    pub cfg: WizardRunConfig,
}

/// What a batch of module workers does to a session with credentials, as
/// [`reference_batch_begun`] does for reference workers.
pub open spec fn module_batch_begun(
    pre: WizardSession,
    target: int,
    auto_continue: bool,
    on_disk: Set<Seq<char>>,
    post: WizardSession,
    out: Seq<ObjectEntry>,
) -> bool {
    if pre.running_object_ids@.len() >= target {
        post == pre && out == Seq::<ObjectEntry>::empty()
    } else {
        &&& claimed(
            pre.state.manifest@,
            wants_module(on_disk),
            pre.running_object_ids@,
            target,
            out,
        )
        &&& post.running_object_ids@ == pre.running_object_ids@.union(
            ids_of(out),
        )
        &&& if out.len() > 0 {
            &&& post == (WizardSession {
                running_object_ids: post.running_object_ids,
                auto_continue_objects: auto_continue,
                error: None,
                status: post.status,
                ..pre
            })
            &&& post.status@ == "Generating "@ + decimal_digits(out.len())
                + " module(s): "@ + joined(names_of(out), ", "@) + "…"@
        } else if auto_continue {
            &&& post == (WizardSession {
                running_object_ids: post.running_object_ids,
                auto_continue_objects: false,
                status: post.status,
                ..pre
            })
            &&& post.status@ == "All object modules generated."@
        } else {
            post == (WizardSession { running_object_ids: post.running_object_ids, ..pre })
        }
    }
}

/// Claims the next module workers of a session.
pub fn begin_module_batch(
    s: &mut WizardSession,
    target: usize,
    auto_continue: bool,
    on_disk: &IdSet,
) -> (out: Vec<ObjectEntry>)
    ensures
        module_batch_begun(*old(s), target as int, auto_continue, on_disk@, *final(s), out@),
{
    if s.running_object_ids.len() >= target {
        return Vec::new();
    }
    let ghost taken = s.running_object_ids@;
    let missing = |o: &ObjectEntry| -> (b: bool)
        ensures
            b == wants_module(on_disk@)(*o),
        { object_missing(o, on_disk) };
    let out = claim_pending_batch(&s.state.manifest, &mut s.running_object_ids, target, missing);
    proof {
        let m = s.state.manifest@;
        let p = wants_module(on_disk@);
        let free = capacity(target as int, taken.len() as int);
        let flags = choose|flags: Seq<bool>|
            {
                &&& #[trigger] answered(missing, m, flags)
                &&& claims(m, flags, taken, free, out@)
            };
        assert(answers_of(p, m, flags)) by {
            assert forall|i: int| 0 <= i < flags.len() implies #[trigger] flags[i] == p(m[i]) by {
                assert(call_ensures(missing, (&m[i],), flags[i]));
            }
        }
        law_claim_takes_the_first_pending(m, p, flags, taken, free, out@);
    }
    if out.len() == 0 {
        if auto_continue {
            s.auto_continue_objects = false;
            s.status = "All object modules generated.".to_owned();
        }
        return out;
    }
    s.auto_continue_objects = auto_continue;
    s.error = None;
    let n = decimal(out.len());
    let names = joined_names(&out);
    s.status = cat5("Generating ", n.as_str(), " module(s): ", names.as_str(), "…");
    out
}

impl MogenStudioApp {
    /// Makes one reference image again. `signed_in` says that an image provider
    /// can be reached. Returns what is to be done and the seed to do it with.
    pub fn start_wizard_one_reference(&mut self, signed_in: bool, id: &str, fresh_seed: u64) -> (r: (
        Redo,
        u64,
    ))
        ensures
            only_session(*old(self), *final(self)),
            !signed_in || old(self).wizard is None ==> !r.0.save && r.0.stale is None
                && r.0.object is None,
            old(self).wizard matches Some(s) ==> if !signed_in {
                failed_with(
                    s,
                    final(self).wizard,
                    no_image_credentials(),
                )
            } else {
                reference_redone(s, id@, final(self).wizard->0, r.0) && r.1 == s.state.seed
            },
    {
        if !signed_in {
            self.wizard_set_error(
                "Image generation needs a Gemini or Z.ai credential — check Preferences › Image.".to_owned(),
            );
            return (Redo { save: false, stale: None, object: None }, fresh_seed);
        }
        let seed = self.build_wizard_run_config(fresh_seed).seed;
        match self.wizard.as_mut() {
            Some(s) => (redo_reference(s, id), seed),
            None => (Redo { save: false, stale: None, object: None }, seed),
        }
    }

    /// Starts module workers up to `target_concurrency` in flight. `signed_in`
    /// says that a text provider can be reached. Nothing starts when no jobs
    /// come back.
    pub fn start_wizard_object_batch(
        &mut self,
        signed_in: bool,
        target_concurrency: usize,
        auto_continue: bool,
        on_disk: &IdSet,
        fresh_seed: u64,
    ) -> (r: Option<ModuleJobs>)
        ensures
            only_session(*old(self), *final(self)),
            old(self).wizard is None ==> r is None,
            old(self).wizard matches Some(s) ==> if !signed_in {
                &&& r is None
                &&& failed_with(
                    WizardSession { auto_continue_objects: false, ..s },
                    final(self).wizard,
                    no_credentials(),
                )
            } else {
                &&& module_batch_begun(
                    s,
                    target_concurrency as int,
                    auto_continue,
                    on_disk@,
                    final(self).wizard->0,
                    match r {
                        Some(jobs) => jobs.objects@,
                        None => Seq::empty(),
                    },
                )
                &&& r matches Some(jobs) ==> jobs.objects@.len() > 0
                    && is_run_config(*old(self), fresh_seed, jobs.cfg)
            },
    {
        if !signed_in {
            if let Some(s) = self.wizard.as_mut() {
                s.auto_continue_objects = false;
            }
            self.wizard_set_error(
                "Provider credentials missing — open Preferences and sign in.".to_owned(),
            );
            return None;
        }
        let cfg = self.build_wizard_run_config(fresh_seed);
        match self.wizard.as_mut() {
            Some(s) => {
                let objects = begin_module_batch(s, target_concurrency, auto_continue, on_disk);
                if objects.len() == 0 {
                    assert(objects@ =~= Seq::empty());
                    return None;
                }
                Some(ModuleJobs { objects, cfg })
            },
            None => None,
        }
    }

    /// Gives a reserved module worker up because the credentials went away
    /// before it started; a bulk run stops.
    pub fn wizard_object_worker_lost(&mut self, id: &str)
        ensures
            only_session(*old(self), *final(self)),
            old(self).wizard matches Some(s) ==> (final(self).wizard matches Some(t) && {
                &&& t == (WizardSession {
                    running_object_ids: t.running_object_ids,
                    auto_continue_objects: false,
                    error: t.error,
                    ..s
                })
                &&& t.running_object_ids@ == s.running_object_ids@.remove(id@)
                &&& opt_view(t.error) == Some(
                    "Lost provider credentials mid-batch."@,
                )
            }),
    {
        if let Some(s) = self.wizard.as_mut() {
            s.running_object_ids.remove(id);
            s.auto_continue_objects = false;
            s.error = Some("Lost provider credentials mid-batch.".to_owned());
        }
    }

    /// Makes one module again.
    pub fn start_wizard_regenerate_object(&mut self, id: &str) -> (r: Redo)
        ensures
            only_session(*old(self), *final(self)),
            old(self).wizard is None ==> !r.save && r.stale is None && r.object is None,
            old(self).wizard matches Some(s) ==> module_redone(
                s,
                id@,
                final(self).wizard->0,
                r,
            ),
    {
        match self.wizard.as_mut() {
            Some(s) => redo_module(s, id),
            None => Redo { save: false, stale: None, object: None },
        }
    }

    /// Marks the assembly as under way. Returns whether a worker is to start.
    pub fn start_wizard_assemble_and_build(&mut self) -> (started: bool)
        ensures
            only_session(*old(self), *final(self)),
            started == old(self).wizard is Some,
            old(self).wizard matches Some(s) ==> (final(self).wizard matches Some(t) && {
                &&& t == (WizardSession {
                    running: WizardBusy::Assemble,
                    status: t.status,
                    error: None,
                    ..s
                })
                &&& t.status@ == "Assembling scene…"@
            }),
    {
        match self.wizard.as_mut() {
            Some(s) => {
                s.running = WizardBusy::Assemble;
                s.status = "Assembling scene…".to_owned();
                s.error = None;
                true
            },
            None => false,
        }
    }
}

// ---- building --------------------------------------------------------------

/// Where the built scene of an assembly goes: next to it, as `.glb`.
pub fn build_output(assembly: &str) -> (r: String)
    ensures
        re_extendable(assembly@) ==> r@ == re_extended(assembly@, "glb"@),
{
    proof {
        reveal_strlit("glb");
        assert("glb"@ != seq!['.'] && "glb"@ != seq!['.', '.']) by {
            assert("glb"@[0] == 'g');
        }
    }
    path_with_extension(assembly, "glb")
}

/// Why an assembly cannot be built, if it cannot: its compilation stopped at
/// `failed_stage` with `messages`, or it left no scene.
pub fn build_failure(
    failed_stage: &Option<String>,
    messages: &Vec<String>,
    has_scene: bool,
) -> (r: Option<String>)
    ensures
        opt_view(r) == match *failed_stage {
            Some(stage) => Some(
                "build failed at stage "@ + stage@ + ": "@ + joined(
                    views(messages@),
                    "; "@,
                ),
            ),
            None => if has_scene {
                None
            } else {
                Some("build produced no scene"@)
            },
        },
{
    match failed_stage {
        Some(stage) => {
            let all = join(messages, "; ");
            Some(cat4("build failed at stage ", stage.as_str(), ": ", all.as_str()))
        },
        None => if has_scene {
            None
        } else {
            Some("build produced no scene".to_owned())
        },
    }
}

// ---- reviews ---------------------------------------------------------------

/// What the review worker of one object needs.
pub struct ObjectReviewJob {
    pub object: ObjectEntry,
    pub picture: Picture,
    pub cfg: WizardRunConfig,
}

/// The picture an object is judged by: its rendered thumbnail, or else its
/// reference image.
pub open spec fn judged_by(o: ObjectEntry) -> Option<String> {
    if o.thumb_path is Some {
        o.thumb_path
    } else {
        o.reference_image
    }
}

/// The picture an object is judged by.
pub fn review_picture_path(o: &ObjectEntry) -> (r: Option<String>)
    ensures
        r == judged_by(*o),
{
    if o.thumb_path.is_some() {
        clone_opt(&o.thumb_path)
    } else {
        clone_opt(&o.reference_image)
    }
}

/// What starting the review of one object does to a session with a provider
/// that reads images. `read` is what reading its picture gave.
pub open spec fn object_review_begun(
    pre: WizardSession,
    id: Seq<char>,
    read: Option<Vec<u8>>,
    post: WizardSession,
    job: Option<(ObjectEntry, Picture)>,
) -> bool {
    match object_at(pre.state.manifest@, id) {
        None => job is None && only_error(pre, post, "Object "@ + id + " no longer in manifest"@),
        Some(i) => {
            let o = pre.state.manifest@[i];
            match (judged_by(o), read) {
                (None, _) => job is None && only_error(
                    pre,
                    post,
                    "No image available for "@ + id + " — generate a reference first."@,
                ),
                (Some(path), None) => job is None && only_error(
                    pre,
                    post,
                    "Couldn't read image at "@ + path@,
                ),
                (Some(path), Some(bytes)) => {
                    &&& post == (WizardSession {
                        running: WizardBusy::ReviewObject(i as usize),
                        status: post.status,
                        error: None,
                        ..pre
                    })
                    &&& post.status@ == "Reviewing "@ + o.name@ + "…"@
                    &&& job matches Some(j)
                    &&& j.0 == o
                    &&& j.1.bytes == bytes
                    &&& is_mime(path@, j.1.mime@)
                },
            }
        },
    }
}

/// Starts the review of one object of a session.
pub fn begin_object_review(s: &mut WizardSession, id: &str, read: Option<Vec<u8>>) -> (job: Option<
    (ObjectEntry, Picture),
>)
    ensures
        object_review_begun(*old(s), id@, read, *final(s), job),
{
    match s.state.object_index(id) {
        None => {
            s.error = Some(cat3("Object ", id, " no longer in manifest"));
            None
        },
        Some(i) => {
            let object = s.state.manifest[i].clone();
            match review_picture_path(&object) {
                None => {
                    s.error =
                    Some(cat3("No image available for ", id, " — generate a reference first."));
                    None
                },
                Some(path) => match read {
                    None => {
                        s.error = Some(cat2("Couldn't read image at ", path.as_str()));
                        None
                    },
                    Some(bytes) => {
                        let mime = guess_image_mime(path.as_str());
                        s.running = WizardBusy::ReviewObject(i);
                        s.status = cat3("Reviewing ", object.name.as_str(), "…");
                        s.error = None;
                        Some((object, Picture { bytes, mime }))
                    },
                },
            }
        },
    }
}

/// The failure shown when the provider does not read images.
pub open spec fn blind_provider(app: MogenStudioApp) -> Seq<char> {
    "Provider "@ + app.settings.provider.label@
        + " can't read images — pick a vision-capable provider in Preferences."@
}

/// What the review worker of the scene needs.
pub struct SceneReviewJob {
    pub prompt: String,
    pub manifest: Vec<ObjectEntry>,
    pub picture: Picture,
    pub iteration: u32,
    pub cfg: WizardRunConfig,
}

/// What starting the review of the scene does to a session with a provider
/// that reads images. `read` is what reading the screenshot gave.
pub open spec fn scene_review_begun(
    pre: WizardSession,
    read: Option<Vec<u8>>,
    post: WizardSession,
    picture: Option<Picture>,
) -> bool {
    match (pre.state.scene_thumb, read) {
        (None, _) => picture is None && only_error(
            pre,
            post,
            "No scene screenshot yet — assemble + render the scene first."@,
        ),
        (Some(path), None) => picture is None && only_error(
            pre,
            post,
            "Couldn't read scene screenshot at "@ + path@,
        ),
        (Some(path), Some(bytes)) => {
            &&& post == (WizardSession {
                running: WizardBusy::SceneReview,
                status: post.status,
                error: None,
                ..pre
            })
            &&& post.status@ == "Reviewing full scene (iter "@ + decimal_digits(
                (pre.correction_iterations + 1) as nat,
            ) + ")…"@
            &&& picture matches Some(p)
            &&& p.bytes == bytes
            &&& is_mime(path@, p.mime@)
        },
    }
}

/// Starts the review of the scene of a session.
pub fn begin_scene_review(s: &mut WizardSession, read: Option<Vec<u8>>) -> (picture: Option<
    Picture,
>)
    requires
        old(s).correction_iterations < u32::MAX,
    ensures
        scene_review_begun(*old(s), read, *final(s), picture),
{
    match clone_opt(&s.state.scene_thumb) {
        None => {
            s.error =
            Some("No scene screenshot yet — assemble + render the scene first.".to_owned());
            None
        },
        Some(path) => match read {
            None => {
                s.error = Some(cat2("Couldn't read scene screenshot at ", path.as_str()));
                None
            },
            Some(bytes) => {
                let mime = guess_image_mime(path.as_str());
                let n = decimal((s.correction_iterations + 1) as usize);
                s.running = WizardBusy::SceneReview;
                s.status = cat3("Reviewing full scene (iter ", n.as_str(), ")…");
                s.error = None;
                Some(Picture { bytes, mime })
            },
        },
    }
}

fn clone_objects(v: &Vec<ObjectEntry>) -> (r: Vec<ObjectEntry>)
    ensures
        r@ == v@,
{
    let mut out: Vec<ObjectEntry> = Vec::new();
    let mut i: usize = 0;
    while i < v.len()
        invariant
            i <= v@.len(),
            out@ == v@.take(i as int),
        decreases v.len() - i,
    {
        out.push(v[i].clone());
        assert(v@.take(i + 1) =~= v@.take(i as int).push(v@[i as int]));
        i = i + 1;
    }
    assert(v@.take(i as int) =~= v@);
    out
}

impl MogenStudioApp {
    /// Starts the review of one object. `signed_in` says that a text provider
    /// can be reached, and `read` is what reading the object's picture gave.
    pub fn start_wizard_object_review(
        &mut self,
        signed_in: bool,
        id: &str,
        read: Option<Vec<u8>>,
        fresh_seed: u64,
    ) -> (r: Option<ObjectReviewJob>)
        ensures
            only_session(*old(self), *final(self)),
            old(self).wizard is None ==> r is None,
            old(self).wizard matches Some(s) ==> if !signed_in {
                r is None && failed_with(
                    s,
                    final(self).wizard,
                    no_credentials(),
                )
            } else if !old(self).settings.provider.supports_images {
                r is None && failed_with(
                    s,
                    final(self).wizard,
                    blind_provider(*old(self)),
                )
            } else {
                &&& object_review_begun(
                    s,
                    id@,
                    read,
                    final(self).wizard->0,
                    match r {
                        Some(job) => Some((job.object, job.picture)),
                        None => None,
                    },
                )
                &&& r matches Some(job) ==> is_run_config(
                    *old(self),
                    fresh_seed,
                    job.cfg,
                )
            },
    {
        if !signed_in {
            self.wizard_set_error(
                "Provider credentials missing — open Preferences and sign in.".to_owned(),
            );
            return None;
        }
        if !self.settings.provider.supports_images {
            let text = cat3(
                "Provider ",
                self.settings.provider.label.as_str(),
                " can't read images — pick a vision-capable provider in Preferences.",
            );
            self.wizard_set_error(text);
            return None;
        }
        let cfg = self.build_wizard_run_config(fresh_seed);
        match self.wizard.as_mut() {
            Some(s) => match begin_object_review(s, id, read) {
                Some((object, picture)) => Some(ObjectReviewJob { object, picture, cfg }),
                None => None,
            },
            None => None,
        }
    }

    /// Starts the review of the scene. `signed_in` says that a text provider
    /// can be reached, and `read` is what reading the screenshot gave.
    pub fn start_wizard_scene_review(
        &mut self,
        signed_in: bool,
        read: Option<Vec<u8>>,
        fresh_seed: u64,
    ) -> (r: Option<SceneReviewJob>)
        requires
            old(self).wizard matches Some(s) ==> s.correction_iterations < u32::MAX,
        ensures
            only_session(*old(self), *final(self)),
            old(self).wizard is None ==> r is None,
            old(self).wizard matches Some(s) ==> if !signed_in {
                r is None && failed_with(
                    s,
                    final(self).wizard,
                    no_credentials(),
                )
            } else if !old(self).settings.provider.supports_images {
                r is None && failed_with(
                    s,
                    final(self).wizard,
                    blind_provider(*old(self)),
                )
            } else {
                &&& scene_review_begun(
                    s,
                    read,
                    final(self).wizard->0,
                    match r {
                        Some(job) => Some(job.picture),
                        None => None,
                    },
                )
                &&& r matches Some(job) ==> {
                    &&& job.prompt@ == s.state.prompt@
                    &&& job.manifest@ == s.state.manifest@
                    &&& job.iteration == s.correction_iterations + 1
                    &&& is_run_config(*old(self), fresh_seed, job.cfg)
                }
            },
    {
        if !signed_in {
            self.wizard_set_error(
                "Provider credentials missing — open Preferences and sign in.".to_owned(),
            );
            return None;
        }
        if !self.settings.provider.supports_images {
            let text = cat3(
                "Provider ",
                self.settings.provider.label.as_str(),
                " can't read images — pick a vision-capable provider in Preferences.",
            );
            self.wizard_set_error(text);
            return None;
        }
        let cfg = self.build_wizard_run_config(fresh_seed);
        match self.wizard.as_mut() {
            Some(s) => match begin_scene_review(s, read) {
                Some(picture) => {
                    let prompt = s.state.prompt.clone();
                    let manifest = clone_objects(&s.state.manifest);
                    let iteration = s.correction_iterations + 1;
                    Some(SceneReviewJob { prompt, manifest, picture, iteration, cfg })
                },
                None => None,
            },
            None => None,
        }
    }
}

// ---- laws ------------------------------------------------------------------

/// A brief starts exactly when there is something to write it from: a source
/// image that could be read by a provider that reads images, or, without one,
/// a prompt that is not blank. The prompt is what was typed, either way.
pub proof fn law_brief_needs_a_prompt_or_an_image(
    s: &mut WizardSession,
    provider: &Provider,
    readable: bool,
    started: bool,
)
    requires
        call_ensures(begin_brief, (s, provider, readable), started),
    ensures
        final(s).state.prompt == old(s).prompt_draft,
        old(s).state.source_image is Some ==> (started <==> readable && provider.supports_images),
        old(s).state.source_image is None ==> (started <==> !blank(old(s).prompt_draft@)),
        started ==> final(s).running == WizardBusy::Brief && final(s).error is None,
        !started ==> final(s).running == old(s).running && final(s).error is Some,
        final(s).state.brief == old(s).state.brief && final(s).state.manifest == old(s).state.manifest && final(s).state.stage == old(s).state.stage,
{
}

/// The brief worker gets the typed prompt, the bytes of the source image, and
/// the settings of the studio with the seed of the run.
pub proof fn law_brief_worker_gets_the_prompt(
    app: &mut MogenStudioApp,
    signed_in: bool,
    read: Option<Vec<u8>>,
    fresh: u64,
    r: Option<BriefJob>,
)
    requires
        call_ensures(MogenStudioApp::start_wizard_brief, (app, signed_in, read, fresh), r),
    ensures
        !signed_in || old(app).wizard is None ==> r is None,
        r matches Some(job) ==> (old(app).wizard matches Some(s) && {
            &&& job.prompt@ == s.prompt_draft@
            &&& s.state.source_image is None ==> job.source is None
            &&& s.state.source_image is Some ==> (read matches Some(bytes) && (
            job.source matches Some(p) && p.bytes == bytes))
            &&& job.cfg.seed == s.state.seed
            &&& job.cfg.model@ == old(app).settings.model@
        }),
        final(app).files == old(app).files,
{
}

/// The manifest starts from a brief, and only from one: its worker gets the
/// brief, the prompt of the run and the source image.
pub proof fn law_manifest_worker_gets_the_brief(
    app: &mut MogenStudioApp,
    signed_in: bool,
    read: Option<Vec<u8>>,
    fresh: u64,
    r: Option<ManifestJob>,
)
    requires
        call_ensures(MogenStudioApp::start_wizard_manifest, (app, signed_in, read, fresh), r),
    ensures
        r is Some <==> signed_in && (old(app).wizard matches Some(s) && s.state.brief is Some),
        r matches Some(job) ==> (old(app).wizard matches Some(s) && {
            let t = final(app).wizard->0;
            &&& job.brief@ == (s.state.brief->0)@
            &&& job.prompt@ == s.state.prompt@
            &&& s.state.source_image is Some && read is Some ==> (job.source matches Some(p)
                && p.bytes == read->0)
            &&& s.state.source_image is None || read is None ==> job.source is None
            &&& job.cfg.seed == s.state.seed
            &&& t.running == WizardBusy::Manifest
            &&& t.state == s.state
        }),
        old(app).wizard is Some && r is None ==> (final(app).wizard matches Some(t) && t.error is Some
            && t.state == (old(app).wizard->0).state),
{
}

/// A batch of reference workers takes the first objects without a picture and
/// without a worker, in order, as many as fit under the target, and reserves
/// them; a full pool takes none. The run itself stays.
pub proof fn law_reference_batch_takes_the_first_waiting(
    s: &mut WizardSession,
    target: usize,
    auto: bool,
    on_disk: &IdSet,
    out: Vec<ObjectEntry>,
    x: Seq<char>,
)
    requires
        call_ensures(begin_reference_batch, (s, target, auto, on_disk), out),
    ensures
        ({
            let all = waiting(
                old(s).state.manifest@,
                |o: ObjectEntry|
                    !(o.reference_image matches Some(p) && on_disk@.contains(p@)),
                old(s).running_ref_ids@,
            );
            let n = old(s).running_ref_ids@.len();
            &&& n + all.len() <= target ==> out@ == all
            &&& n <= target < n + all.len() ==> out@ == all.take(target - n)
            &&& target <= n ==> out@.len() == 0
        }),
        final(s).running_ref_ids@.contains(x) <==> old(s).running_ref_ids@.contains(x)
            || exists|k: int| 0 <= k < out@.len() && (#[trigger] out@[k]).id@ == x,
        final(s).state == old(s).state,
        final(s).running == old(s).running && final(s).running_object_ids == old(s).running_object_ids,
        out@.len() > 0 ==> final(s).auto_continue_refs == auto && final(s).error is None,
        out@.len() == 0 && auto && old(s).running_ref_ids@.len() < target ==> !final(s).auto_continue_refs,
        final(s).auto_continue_objects == old(s).auto_continue_objects,
{
    let q = |o: ObjectEntry| !(o.reference_image matches Some(p) && on_disk@.contains(p@));
    let taken = old(s).running_ref_ids@;
    assert((|o: ObjectEntry| q(o) && !taken.contains(o.id@)) =~= unclaimed(
        wants_reference(on_disk@),
        taken,
    ));
    lemma_ids_of(out@);
}

/// A batch of module workers takes the first objects without a module and
/// without a worker, in order, as many as fit under the target, and reserves
/// them; a full pool takes none. The run itself stays.
pub proof fn law_module_batch_takes_the_first_waiting(
    s: &mut WizardSession,
    target: usize,
    auto: bool,
    on_disk: &IdSet,
    out: Vec<ObjectEntry>,
    x: Seq<char>,
)
    requires
        call_ensures(begin_module_batch, (s, target, auto, on_disk), out),
    ensures
        ({
            let all = waiting(
                old(s).state.manifest@,
                |o: ObjectEntry| !(o.mog_path matches Some(p) && on_disk@.contains(p@)),
                old(s).running_object_ids@,
            );
            let n = old(s).running_object_ids@.len();
            &&& n + all.len() <= target ==> out@ == all
            &&& n <= target < n + all.len() ==> out@ == all.take(target - n)
            &&& target <= n ==> out@.len() == 0
        }),
        final(s).running_object_ids@.contains(x) <==> old(s).running_object_ids@.contains(x)
            || exists|k: int| 0 <= k < out@.len() && (#[trigger] out@[k]).id@ == x,
        final(s).state == old(s).state,
        final(s).running == old(s).running && final(s).running_ref_ids == old(s).running_ref_ids,
        out@.len() > 0 ==> final(s).auto_continue_objects == auto && final(s).error is None,
        out@.len() == 0 && auto && old(s).running_object_ids@.len() < target ==> !final(s).auto_continue_objects,
        final(s).auto_continue_refs == old(s).auto_continue_refs,
{
    let q = |o: ObjectEntry| !(o.mog_path matches Some(p) && on_disk@.contains(p@));
    let taken = old(s).running_object_ids@;
    assert((|o: ObjectEntry| q(o) && !taken.contains(o.id@)) =~= unclaimed(
        wants_module(on_disk@),
        taken,
    ));
    lemma_ids_of(out@);
}

/// The workers of a batch get the seed of the run, and the modules its
/// settings; without credentials none starts and the bulk run ends.
pub proof fn law_batch_workers_get_the_run(
    app: &mut MogenStudioApp,
    signed_in: bool,
    target: usize,
    auto: bool,
    on_disk: &IdSet,
    read: Option<Vec<u8>>,
    fresh: u64,
    r: Option<ReferenceJobs>,
)
    requires
        call_ensures(
            MogenStudioApp::start_wizard_reference_batch,
            (app, signed_in, target, auto, on_disk, read, fresh),
            r,
        ),
    ensures
        !signed_in || old(app).wizard is None ==> r is None,
        !signed_in && old(app).wizard is Some ==> (final(app).wizard matches Some(t)
            && !t.auto_continue_refs && t.error is Some && t.running_ref_ids == (old(app).wizard->0).running_ref_ids),
        r matches Some(jobs) ==> (old(app).wizard matches Some(s) && {
            &&& jobs.objects@.len() > 0
            &&& jobs.seed == s.state.seed
            &&& s.state.source_image is Some && read is Some ==> (jobs.source matches Some(p)
                && p.bytes == read->0)
            &&& forall|k: int|
                0 <= k < jobs.objects@.len() ==> (final(app).wizard->0).running_ref_ids@.contains(
                    (#[trigger] jobs.objects@[k]).id@,
                )
        }),
{
    if let Some(jobs) = r {
        lemma_ids_of(jobs.objects@);
    }
}

/// Making a picture again drops the old one of the first object with that id,
/// hands its file over for deletion and the object to a worker, and reserves
/// it. One that is being made is left alone.
pub proof fn law_redone_reference_is_dropped_and_reserved(
    s: &mut WizardSession,
    id: &str,
    r: Redo,
    i: int,
)
    requires
        call_ensures(redo_reference, (s, id), r),
        0 <= i < old(s).state.manifest@.len(),
    ensures
        old(s).running_ref_ids@.contains(id@) ==> *final(s) == *old(s) && !r.save
            && r.object is None && r.stale is None,
        !old(s).running_ref_ids@.contains(id@) ==> {
            let m = old(s).state.manifest@;
            let hit = m[i].id@ == id@ && forall|j: int|
                0 <= j < i ==> (#[trigger] m[j]).id@ != id@;
            &&& r.save
            &&& final(s).state.manifest@.len() == m.len()
            &&& hit ==> final(s).state.manifest@[i] == (ObjectEntry { reference_image: None, ..m[i] })
                && r.stale == m[i].reference_image && r.object == Some(final(s).state.manifest@[i])
                && final(s).running_ref_ids@.contains(id@)
            &&& !hit ==> final(s).state.manifest@[i] == m[i]
        },
        final(s).running_object_ids == old(s).running_object_ids,
        final(s).state.per_object_reviews == old(s).state.per_object_reviews,
{
    let m = old(s).state.manifest@;
    lemma_object_found(m, id@);
    if m[i].id@ == id@ && forall|j: int| 0 <= j < i ==> (#[trigger] m[j]).id@ != id@ {
        lemma_object_at(m, id@, i);
    }
}

/// Making a module again drops the module of the first object with that id,
/// with its guide, its thumbnail and the verdict on it, hands its file over
/// for deletion and the object to a worker, and reserves it. The reference
/// image stays, and one that is being made is left alone.
pub proof fn law_redone_module_is_dropped_and_reserved(
    s: &mut WizardSession,
    id: &str,
    r: Redo,
    i: int,
)
    requires
        call_ensures(redo_module, (s, id), r),
        0 <= i < old(s).state.manifest@.len(),
    ensures
        old(s).running_object_ids@.contains(id@) ==> *final(s) == *old(s) && !r.save
            && r.object is None && r.stale is None,
        !old(s).running_object_ids@.contains(id@) ==> {
            let m = old(s).state.manifest@;
            let hit = m[i].id@ == id@ && forall|j: int|
                0 <= j < i ==> (#[trigger] m[j]).id@ != id@;
            &&& r.save
            &&& !final(s).state.per_object_reviews@.contains_key(id@)
            &&& final(s).state.manifest@.len() == m.len()
            &&& hit ==> final(s).state.manifest@[i] == (ObjectEntry {
                mog_path: None,
                position_guide: None,
                thumb_path: None,
                ..m[i]
            }) && r.stale == m[i].mog_path && r.object == Some(final(s).state.manifest@[i]) && final(s).running_object_ids@.contains(id@)
            &&& !hit ==> final(s).state.manifest@[i] == m[i]
        },
        final(s).running_ref_ids == old(s).running_ref_ids,
{
    let m = old(s).state.manifest@;
    lemma_object_found(m, id@);
    if m[i].id@ == id@ && forall|j: int| 0 <= j < i ==> (#[trigger] m[j]).id@ != id@ {
        lemma_object_at(m, id@, i);
    }
}

/// A worker that lost its credentials frees its own place, ends the bulk run
/// and is shown.
pub proof fn law_lost_worker_frees_its_place(app: &mut MogenStudioApp, id: &str, x: Seq<char>)
    requires
        call_ensures(MogenStudioApp::wizard_object_worker_lost, (app, id), ()),
    ensures
        old(app).wizard matches Some(s) ==> {
            let t = final(app).wizard->0;
            &&& t.running_object_ids@.contains(x) <==> s.running_object_ids@.contains(x) && x != id@
            &&& !t.auto_continue_objects
            &&& t.error is Some
            &&& t.state == s.state
        },
{
}

/// An object is judged by its thumbnail, and by its reference image only
/// without one; the worker gets the first object with that id and the bytes
/// that were read. Whatever is missing is shown instead.
pub proof fn law_review_judges_the_thumbnail(
    s: &mut WizardSession,
    id: &str,
    read: Option<Vec<u8>>,
    job: Option<(ObjectEntry, Picture)>,
    i: int,
    path: Option<String>,
)
    requires
        call_ensures(begin_object_review, (s, id, read), job),
        0 <= i < old(s).state.manifest@.len(),
        old(s).state.manifest@[i].id@ == id@,
        forall|j: int| 0 <= j < i ==> (#[trigger] old(s).state.manifest@[j]).id@ != id@,
        call_ensures(review_picture_path, (&old(s).state.manifest@[i],), path),
    ensures
        old(s).state.manifest@[i].thumb_path is Some ==> path
            == old(s).state.manifest@[i].thumb_path,
        old(s).state.manifest@[i].thumb_path is None ==> path
            == old(s).state.manifest@[i].reference_image,
        job is Some <==> path is Some && read is Some,
        job matches Some(j) ==> j.0 == old(s).state.manifest@[i] && j.1.bytes == read->0 && final(s).running == WizardBusy::ReviewObject(i as usize) && final(s).error is None,
        job is None ==> final(s).error is Some && final(s).running == old(s).running,
        final(s).state == old(s).state,
{
    lemma_object_at(old(s).state.manifest@, id@, i);
}

/// The scene is judged by its screenshot: the review starts exactly when there
/// is one and it could be read, with these bytes.
pub proof fn law_scene_review_needs_the_screenshot(
    s: &mut WizardSession,
    read: Option<Vec<u8>>,
    picture: Option<Picture>,
)
    requires
        call_ensures(begin_scene_review, (s, read), picture),
        old(s).correction_iterations < u32::MAX,
    ensures
        picture is Some <==> old(s).state.scene_thumb is Some && read is Some,
        picture matches Some(p) ==> p.bytes == read->0 && final(s).running
            == WizardBusy::SceneReview && final(s).error is None,
        picture is None ==> final(s).error is Some && final(s).running == old(s).running,
        final(s).state == old(s).state && final(s).correction_iterations == old(s).correction_iterations,
{
}

/// The worker that judges the scene gets the prompt, every object, and the number of
/// the round.
pub proof fn law_scene_worker_gets_the_manifest(
    app: &mut MogenStudioApp,
    signed_in: bool,
    read: Option<Vec<u8>>,
    fresh: u64,
    r: Option<SceneReviewJob>,
)
    requires
        old(app).wizard matches Some(s) ==> s.correction_iterations < u32::MAX,
        call_ensures(MogenStudioApp::start_wizard_scene_review, (app, signed_in, read, fresh), r),
    ensures
        r is Some <==> signed_in && old(app).settings.provider.supports_images && read is Some && (
        old(app).wizard matches Some(s) && s.state.scene_thumb is Some),
        r matches Some(job) ==> (old(app).wizard matches Some(s) && {
            &&& job.prompt@ == s.state.prompt@
            &&& job.manifest@ == s.state.manifest@
            &&& job.iteration == s.correction_iterations + 1
            &&& job.picture.bytes == read->0
            &&& job.cfg.seed == s.state.seed
        }),
{
}

/// Assembling marks the worker as out, clears the error, and keeps the run.
pub proof fn law_assembling_keeps_the_run(app: &mut MogenStudioApp, started: bool)
    requires
        call_ensures(MogenStudioApp::start_wizard_assemble_and_build, (app,), started),
    ensures
        started <==> old(app).wizard is Some,
        old(app).wizard matches Some(s) ==> {
            let t = final(app).wizard->0;
            &&& t.running == WizardBusy::Assemble
            &&& t.error is None
            &&& t.state == s.state
        },
{
}

/// A build fails at the stage where it stopped, with every message, or for
/// want of a scene; with neither it does not fail.
pub proof fn law_build_failure_tells_the_stage(
    stage: &Option<String>,
    messages: &Vec<String>,
    has_scene: bool,
    r: Option<String>,
)
    requires
        call_ensures(build_failure, (stage, messages, has_scene), r),
    ensures
        r is None <==> *stage is None && has_scene,
        *stage matches Some(st) ==> (r matches Some(t) && ("build failed at stage "@ + st@
            + ": "@).is_prefix_of(t@)),
        *stage matches Some(st) ==> messages@.len() == 1 ==> (r matches Some(t) && t@
            == "build failed at stage "@ + st@ + ": "@ + messages@[0]@),
{
    if let Some(st) = *stage {
        let p = "build failed at stage "@ + st@ + ": "@;
        let t = (r->0)@;
        assert(t.take(p.len() as int) =~= p);
        if messages@.len() == 1 {
            assert(views(messages@)[0] == messages@[0]@);
        }
    }
}

} // verus!
