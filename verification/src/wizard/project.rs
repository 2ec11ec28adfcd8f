//! The folder of a run, its source image, and the objects and files in it.

use vstd::prelude::*;

use super::lifecycle::only_session;
use super::session::{WizardBusy, WizardSession};
use super::state::{ObjectEntry, Stage, WizardState};
use crate::ids::IdSet;
use crate::paths::{
    is_extension, is_join, is_parent, kept_extension, path_extension, path_join, path_parent,
    picture_extension,
};
use crate::studio::MogenStudioApp;
use crate::text::{cat2, cat3, cat4, cat5, clone_opt, decimal, decimal_digits, opt_view, str_eq};

verus! {

/// A run found in a folder, with the name of the stage that it had reached.
pub struct Resumed {
    pub state: WizardState,
    pub label: String,
}

/// What confirming the folder does: an empty draft and a folder that cannot be
/// made are refused, a run that lives there already is taken up, and else a
/// run starts there at the prompt. `save` says that the run is to be saved.
pub open spec fn location_confirmed(
    pre: WizardSession,
    created: Result<(), String>,
    found: Option<Resumed>,
    post: WizardSession,
    save: bool,
) -> bool {
    if pre.location_draft@.len() == 0 {
        &&& !save
        &&& post == (WizardSession { error: post.error, ..pre })
        &&& opt_view(post.error) == Some("Pick a folder before continuing."@)
    } else {
        match created {
            Err(e) => {
                &&& !save
                &&& post == (WizardSession { error: post.error, ..pre })
                &&& opt_view(post.error) == Some(
                    "Could not create "@ + pre.location_draft@ + ": "@ + e@,
                )
            },
            Ok(_) => match found {
                Some(r) => {
                    &&& !save
                    &&& post == (WizardSession {
                        prompt_draft: r.state.prompt,
                        status: post.status,
                        state: WizardState { project_dir: pre.location_draft, ..r.state },
                        error: None,
                        ..pre
                    })
                    &&& post.status@ == "Resumed wizard at stage `"@ + r.label@ + "` ("@
                        + decimal_digits(r.state.manifest@.len())
                        + " objects in manifest)."@
                },
                None => {
                    &&& save
                    &&& post == (WizardSession {
                        status: post.status,
                        state: WizardState {
                            project_dir: pre.location_draft,
                            stage: Stage::Prompt,
                            ..pre.state
                        },
                        error: None,
                        ..pre
                    })
                    &&& post.status@ == "Describe the scene you want to generate."@
                },
            },
        }
    }
}

/// Confirms the folder of a run.
pub fn confirm_location(
    s: &mut WizardSession,
    created: Result<(), String>,
    found: Option<Resumed>,
) -> (save: bool)
    ensures
        location_confirmed(*old(s), created, found, *final(s), save),
{
    if s.location_draft.as_str().unicode_len() == 0 {
        s.error = Some("Pick a folder before continuing.".to_owned());
        return false;
    }
    match created {
        Err(e) => {
            s.error =
            Some(cat4("Could not create ", s.location_draft.as_str(), ": ", e.as_str()));
            false
        },
        Ok(_) => {
            let save = match found {
                Some(r) => {
                    s.prompt_draft = r.state.prompt.clone();
                    let n = decimal(r.state.manifest.len());
                    s.status =
                    cat5(
                        "Resumed wizard at stage `",
                        r.label.as_str(),
                        "` (",
                        n.as_str(),
                        " objects in manifest).",
                    );
                    s.state = r.state;
                    s.state.project_dir = s.location_draft.clone();
                    false
                },
                None => {
                    s.state.project_dir = s.location_draft.clone();
                    s.state.stage = Stage::Prompt;
                    s.status = "Describe the scene you want to generate.".to_owned();
                    true
                },
            };
            s.error = None;
            save
        },
    }
}

/// Where a new source image goes, and which earlier copy has to go first.
pub struct SourceCopy {
    pub stale: Option<String>,
    pub dest: String,
}

/// The objects whose id is not `id`.
pub open spec fn without_object(m: Seq<ObjectEntry>, id: Seq<char>) -> Seq<ObjectEntry> {
    m.filter(|o: ObjectEntry| o.id@ != id)
}

/// Takes every object called `id` out of the manifest.
pub fn retain_others(m: &mut Vec<ObjectEntry>, id: &str)
    ensures
        final(m)@ == without_object(old(m)@, id@),
{
    let ghost all = m@;
    let n = m.len();
    let mut kept: Vec<ObjectEntry> = Vec::new();
    let mut i: usize = 0;
    proof {
        reveal(Seq::filter);
    }
    while i < n
        invariant
            n == all.len(),
            i <= n,
            m@ == all,
            kept@ == without_object(all.take(i as int), id@),
        decreases n - i,
    {
        proof {
            reveal(Seq::filter);
            assert(all.take(i + 1).drop_last() =~= all.take(i as int));
        }
        if !str_eq(m[i].id.as_str(), id) {
            kept.push(m[i].clone());
        }
        i = i + 1;
    }
    assert(all.take(i as int) =~= all);
    *m = kept;
}

/// Whether `out` is the path of `name` in the folder of a run.
pub open spec fn in_project(s: WizardSession, name: Seq<char>, out: Seq<char>) -> bool {
    is_join(s.state.project_dir@, name, out)
}

/// The folder that the location stage proposes, or the project root.
pub open spec fn proposed_location(app: MogenStudioApp) -> Seq<char> {
    match app.wizard {
        Some(s) => s.location_draft@,
        None => app.project_root@,
    }
}

impl MogenStudioApp {
    /// Where the folder picker opens: above the proposed folder, or at the
    /// project root.
    pub fn wizard_location_start(&self) -> (r: String)
        ensures
            exists|parent: Option<Seq<char>>| #[trigger]
                is_parent(proposed_location(*self), parent) && r@ == match parent {
                    Some(d) => d,
                    None => self.project_root@,
                },
    {
        let parent = match &self.wizard {
            Some(s) => path_parent(s.location_draft.as_str()),
            None => path_parent(self.project_root.as_str()),
        };
        let ghost seen = opt_view(parent);
        let r = match parent {
            Some(d) => d,
            None => self.project_root.clone(),
        };
        assert(is_parent(proposed_location(*self), seen));
        r
    }

    /// Takes over the folder that was picked, if one was.
    pub fn pick_wizard_location(&mut self, picked: Option<String>)
        ensures
            only_session(*old(self), *final(self)),
            old(self).wizard matches Some(s) ==> final(self).wizard == Some(
                match picked {
                    Some(p) => WizardSession { location_draft: p, error: None, ..s },
                    None => s,
                },
            ),
    {
        if let Some(p) = picked {
            if let Some(s) = self.wizard.as_mut() {
                s.location_draft = p;
                s.error = None;
            }
        }
    }

    /// Confirms the folder of the run. `created` says whether the folder could
    /// be made and `found` holds the run that was found there. Returns whether
    /// the run is to be saved.
    pub fn confirm_wizard_location(
        &mut self,
        created: Result<(), String>,
        found: Option<Resumed>,
    ) -> (save: bool)
        ensures
            only_session(*old(self), *final(self)),
            old(self).wizard is None ==> !save,
            old(self).wizard matches Some(s) ==> location_confirmed(
                s,
                created,
                found,
                final(self).wizard->0,
                save,
            ),
    {
        match self.wizard.as_mut() {
            Some(s) => confirm_location(s, created, found),
            None => false,
        }
    }

    /// Prepares the copy of a picked source image: the earlier copy is given
    /// up, and the new one is called `source` with the picture's extension.
    pub fn pick_wizard_source_image(&mut self, picked: &str) -> (r: Option<SourceCopy>)
        ensures
            only_session(*old(self), *final(self)),
            r is Some == old(self).wizard is Some,
            old(self).wizard matches Some(s) ==> {
                &&& final(self).wizard == Some(
                    WizardSession {
                        state: WizardState { source_image: None, ..s.state },
                        ..s
                    },
                )
                &&& r->0.stale == s.state.source_image
                &&& exists|ext: Option<Seq<char>>| #[trigger]
                    is_extension(picked@, ext) && in_project(
                        s,
                        "source."@ + kept_extension(ext),
                        r->0.dest@,
                    )
            },
    {
        let ext = path_extension(picked);
        let kept = picture_extension(&ext);
        let name = cat2("source.", kept);
        assert(is_extension(picked@, opt_view(ext)));
        match self.wizard.as_mut() {
            Some(s) => {
                let stale = s.state.source_image.take();
                let dest = path_join(s.state.project_dir.as_str(), name.as_str());
                Some(SourceCopy { stale, dest })
            },
            None => None,
        }
    }

    /// Takes over the copied source image, or reports why it could not be
    /// copied. Returns whether the run is to be saved.
    pub fn wizard_source_image_copied(&mut self, dest: String, copied: Result<(), String>) -> (save:
        bool)
        ensures
            only_session(*old(self), *final(self)),
            save == (old(self).wizard is Some && copied is Ok),
            old(self).wizard matches Some(s) ==> (final(self).wizard matches Some(t) && match copied {
                Ok(_) => {
                    &&& t == (WizardSession {
                        state: WizardState { source_image: Some(dest), ..s.state },
                        error: None,
                        status: t.status,
                        ..s
                    })
                    &&& t.status@ == "Source image set — the scene will be generated from it."@
                },
                Err(e) => {
                    &&& t == (WizardSession { error: t.error, ..s })
                    &&& opt_view(t.error) == Some("Couldn't copy source image: "@ + e@)
                },
            }),
    {
        match self.wizard.as_mut() {
            Some(s) => match copied {
                Ok(_) => {
                    s.state.source_image = Some(dest);
                    s.error = None;
                    s.status =
                    "Source image set — the scene will be generated from it.".to_owned();
                    true
                },
                Err(e) => {
                    s.error = Some(cat2("Couldn't copy source image: ", e.as_str()));
                    false
                },
            },
            None => false,
        }
    }

    /// Gives the source image up. Returns whether the run is to be saved, and
    /// the copy to delete.
    pub fn clear_wizard_source_image(&mut self) -> (r: (bool, Option<String>))
        ensures
            only_session(*old(self), *final(self)),
            r.0 == old(self).wizard is Some,
            old(self).wizard is None ==> r.1 is None,
            old(self).wizard matches Some(s) ==> (final(self).wizard matches Some(t) && {
                &&& r.1 == s.state.source_image
                &&& t == (WizardSession {
                    state: WizardState { source_image: None, ..s.state },
                    status: t.status,
                    ..s
                })
                &&& t.status@ == "Source image cleared — back to a text-only run."@
            }),
    {
        match self.wizard.as_mut() {
            Some(s) => {
                let stale = s.state.source_image.take();
                s.status = "Source image cleared — back to a text-only run.".to_owned();
                (true, stale)
            },
            None => (false, None),
        }
    }

    /// Hides the wizard and names the assembly to open in a tab, when there is
    /// one and its file is on disk.
    pub fn open_wizard_assembly_in_tab(&mut self, on_disk: &IdSet) -> (r: Option<String>)
        ensures
            ({
                let there = old(self).wizard matches Some(s) && s.state.assembly_path matches Some(
                    p,
                ) && on_disk@.contains(p@);
                &&& *final(self) == if there {
                    MogenStudioApp { show_wizard: false, ..*old(self) }
                } else {
                    *old(self)
                }
                &&& r == if there {
                    (old(self).wizard->0).state.assembly_path
                } else {
                    None
                }
            }),
    {
        let path = match &self.wizard {
            Some(s) => clone_opt(&s.state.assembly_path),
            None => None,
        };
        match path {
            Some(p) => {
                if on_disk.contains(p.as_str()) {
                    self.show_wizard = false;
                    Some(p)
                } else {
                    None
                }
            },
            None => None,
        }
    }

    /// Prepares a screenshot of the assembled scene: names the assembly to
    /// bring to the foreground and the file to write, or reports why there is
    /// none.
    pub fn capture_wizard_scene(&mut self, on_disk: &IdSet) -> (r: Option<(String, String)>)
        ensures
            match old(self).wizard {
                None => *final(self) == *old(self) && r is None,
                Some(s) => match s.state.assembly_path {
                    None => {
                        &&& r is None
                        &&& only_session(*old(self), *final(self))
                        &&& failed_with(
                            s,
                            final(self).wizard,
                            "No assembly file yet — build the scene first."@,
                        )
                    },
                    Some(p) => if on_disk@.contains(p@) {
                        &&& *final(self) == (MogenStudioApp {
                            show_wizard: true,
                            wizard: final(self).wizard,
                            ..*old(self)
                        })
                        &&& final(self).wizard matches Some(t)
                        &&& t == (WizardSession {
                            running: WizardBusy::SceneReview,
                            status: t.status,
                            ..s
                        })
                        &&& t.status@ == "Capturing isometric scene screenshot…"@
                        &&& r matches Some(x)
                        &&& x.0@ == p@
                        &&& in_project(s, "scene_thumb.png"@, x.1@)
                    } else {
                        &&& r is None
                        &&& only_session(*old(self), *final(self))
                        &&& failed_with(
                            s,
                            final(self).wizard,
                            "Assembly file missing on disk: "@ + p@,
                        )
                    },
                },
            },
    {
        let path = match &self.wizard {
            Some(s) => clone_opt(&s.state.assembly_path),
            None => return None,
        };
        match path {
            None => {
                self.wizard_set_error("No assembly file yet — build the scene first.".to_owned());
                None
            },
            Some(p) => {
                if !on_disk.contains(p.as_str()) {
                    self.wizard_set_error(cat2("Assembly file missing on disk: ", p.as_str()));
                    return None;
                }
                self.show_wizard = true;
                match self.submit_wizard_scene_capture() {
                    Some(out) => Some((p, out)),
                    None => None,
                }
            },
        }
    }

    /// Marks a screenshot as under way and names the file it goes to.
    pub fn submit_wizard_scene_capture(&mut self) -> (r: Option<String>)
        ensures
            only_session(*old(self), *final(self)),
            r is Some == old(self).wizard is Some,
            old(self).wizard matches Some(s) ==> (final(self).wizard matches Some(t) && {
                &&& t == (WizardSession {
                    running: WizardBusy::SceneReview,
                    status: t.status,
                    ..s
                })
                &&& t.status@ == "Capturing isometric scene screenshot…"@
                &&& in_project(s, "scene_thumb.png"@, r->0@)
            }),
    {
        match self.wizard.as_mut() {
            Some(s) => {
                let out = path_join(s.state.project_dir.as_str(), "scene_thumb.png");
                s.running = WizardBusy::SceneReview;
                s.status = "Capturing isometric scene screenshot…".to_owned();
                Some(out)
            },
            None => None,
        }
    }

    /// Takes an object and its review out of the run. Returns whether the run
    /// is to be saved.
    pub fn remove_wizard_object(&mut self, id: String) -> (save: bool)
        ensures
            only_session(*old(self), *final(self)),
            save == old(self).wizard is Some,
            old(self).wizard matches Some(s) ==> (final(self).wizard matches Some(t) && {
                &&& t == (WizardSession {
                    state: WizardState {
                        manifest: t.state.manifest,
                        per_object_reviews: t.state.per_object_reviews,
                        ..s.state
                    },
                    status: t.status,
                    ..s
                })
                &&& t.state.manifest@ == without_object(s.state.manifest@, id@)
                &&& t.state.per_object_reviews@ == s.state.per_object_reviews@.remove(id@)
                &&& t.status@ == "Removed object \""@ + id@ + "\" from manifest."@
            }),
    {
        match self.wizard.as_mut() {
            Some(s) => {
                retain_others(&mut s.state.manifest, id.as_str());
                s.state.per_object_reviews.remove(id.as_str());
                s.status = cat3("Removed object \"", id.as_str(), "\" from manifest.");
                true
            },
            None => false,
        }
    }
}

/// Whether the session reports `text` as its failure and is idle, and nothing
/// else about it changed.
pub open spec fn failed_with(
    pre: WizardSession,
    post: Option<WizardSession>,
    text: Seq<char>,
) -> bool {
    &&& post matches Some(t)
    &&& t == (WizardSession { error: t.error, running: WizardBusy::Idle, ..pre })
    &&& opt_view(t.error) == Some(text)
}

// ---- laws ------------------------------------------------------------------

/// A run that lives in the picked folder is taken up as it is, wherever the
/// folder is now; a folder without one gets the run as it stands, at the
/// prompt. Without a folder, or one that cannot be made, nothing but the error
/// changes.
pub proof fn law_confirmed_folder_is_the_folder(
    s: &mut WizardSession,
    created: Result<(), String>,
    found: Option<Resumed>,
    save: bool,
)
    requires
        call_ensures(confirm_location, (s, created, found), save),
    ensures
        ({
            let taken = old(s).location_draft@.len() > 0 && created is Ok;
            &&& !taken ==> !save && final(s).state == old(s).state && final(s).error is Some && final(s).prompt_draft == old(s).prompt_draft
            &&& taken ==> final(s).state.project_dir == old(s).location_draft && final(s).error is None
            &&& taken ==> (found matches Some(r) ==> {
                &&& !save
                &&& final(s).state == (WizardState {
                    project_dir: old(s).location_draft,
                    ..r.state
                })
                &&& final(s).prompt_draft == r.state.prompt
            })
            &&& taken && found is None ==> {
                &&& save
                &&& final(s).state.stage == Stage::Prompt
                &&& final(s).state == (WizardState {
                    project_dir: old(s).location_draft,
                    stage: Stage::Prompt,
                    ..old(s).state
                })
                &&& final(s).prompt_draft == old(s).prompt_draft
            }
        }),
        final(s).running_ref_ids == old(s).running_ref_ids,
{
}

/// Removing an object takes every object with that id out, with the verdict on
/// it, and keeps all others in their order.
pub proof fn law_removed_object_is_gone(
    app: &mut MogenStudioApp,
    id: String,
    save: bool,
    o: ObjectEntry,
    other: Seq<char>,
)
    requires
        call_ensures(MogenStudioApp::remove_wizard_object, (app, id), save),
    ensures
        save <==> old(app).wizard is Some,
        old(app).wizard matches Some(s) ==> {
            let t = final(app).wizard->0;
            &&& t.state.manifest@.contains(o) <==> s.state.manifest@.contains(o) && o.id@ != id@
            &&& !t.state.per_object_reviews@.contains_key(id@)
            &&& other != id@ ==> t.state.per_object_reviews@.contains_key(other)
                == s.state.per_object_reviews@.contains_key(other)
            &&& t.running_object_ids == s.running_object_ids && t.state.stage == s.state.stage
        },
        final(app).files == old(app).files,
{
    if let Some(s) = old(app).wizard {
        let f = |o: ObjectEntry| o.id@ != id@;
        let m = s.state.manifest@;
        let out = m.filter(f);
        broadcast use vstd::seq_lib::group_filter_ensures;

        if out.contains(o) {
            m.lemma_filter_contains_rev(f, o);
            let i = choose|i: int| 0 <= i < out.len() && out[i] == o;
            assert(f(out[i]));
        }
        if m.contains(o) && f(o) {
            let i = choose|i: int| 0 <= i < m.len() && m[i] == o;
            assert(out.contains(m[i]));
        }
    }
}

/// A picked folder is the folder that is proposed; picking none keeps it.
pub proof fn law_picked_folder_is_proposed(app: &mut MogenStudioApp, picked: Option<String>)
    requires
        call_ensures(MogenStudioApp::pick_wizard_location, (app, picked), ()),
    ensures
        old(app).wizard matches Some(s) ==> {
            let t = final(app).wizard->0;
            &&& picked matches Some(p) ==> t.location_draft == p && t.error is None
            &&& picked is None ==> t == s
            &&& t.state == s.state
        },
        old(app).wizard is None ==> *final(app) == *old(app),
{
}

/// A source image is set once its copy is there, the earlier copy is handed
/// over for deletion, and clearing it forgets it; a failed copy is shown.
pub proof fn law_source_image_is_the_copy(
    app: &mut MogenStudioApp,
    dest: String,
    copied: Result<(), String>,
    save: bool,
)
    requires
        call_ensures(MogenStudioApp::wizard_source_image_copied, (app, dest, copied), save),
    ensures
        save <==> old(app).wizard is Some && copied is Ok,
        old(app).wizard matches Some(s) ==> {
            let t = final(app).wizard->0;
            &&& copied is Ok ==> t.state.source_image == Some(dest) && t.error is None
            &&& copied matches Err(e) ==> t.state == s.state && opt_view(t.error) == Some(
                "Couldn't copy source image: "@ + e@,
            )
            &&& t.state.prompt == s.state.prompt && t.state.manifest == s.state.manifest
        },
{
}

/// Clearing the source image forgets it and names the file to delete.
pub proof fn law_cleared_source_image_is_gone(app: &mut MogenStudioApp, r: (bool, Option<String>))
    requires
        call_ensures(MogenStudioApp::clear_wizard_source_image, (app,), r),
    ensures
        old(app).wizard matches Some(s) ==> {
            let t = final(app).wizard->0;
            &&& r.0 && r.1 == s.state.source_image
            &&& t.state.source_image is None
            &&& t.state.prompt == s.state.prompt && t.state.brief == s.state.brief
        },
        old(app).wizard is None ==> !r.0 && r.1 is None && *final(app) == *old(app),
{
}

/// The assembly opens in a tab when it is on disk, and only then does the
/// wizard step aside.
pub proof fn law_assembly_opens_when_it_is_there(
    app: &mut MogenStudioApp,
    on_disk: &IdSet,
    r: Option<String>,
)
    requires
        call_ensures(MogenStudioApp::open_wizard_assembly_in_tab, (app, on_disk), r),
    ensures
        r is Some <==> (old(app).wizard matches Some(s) && (s.state.assembly_path matches Some(p)
            && on_disk@.contains(p@))),
        r is Some ==> r == (old(app).wizard->0).state.assembly_path && !final(app).show_wizard,
        r is None ==> *final(app) == *old(app),
        final(app).wizard == old(app).wizard && final(app).files == old(app).files,
{
}

/// A screenshot is taken of an assembly that is on disk; otherwise it is shown
/// what is missing. The run stays.
pub proof fn law_screenshot_needs_the_assembly(
    app: &mut MogenStudioApp,
    on_disk: &IdSet,
    r: Option<(String, String)>,
)
    requires
        call_ensures(MogenStudioApp::capture_wizard_scene, (app, on_disk), r),
    ensures
        r is Some <==> (old(app).wizard matches Some(s) && (s.state.assembly_path matches Some(p)
            && on_disk@.contains(p@))),
        old(app).wizard matches Some(s) ==> {
            let t = final(app).wizard->0;
            &&& t.state == s.state
            &&& r matches Some(x) ==> t.running == WizardBusy::SceneReview && (
            s.state.assembly_path matches Some(p) && x.0@ == p@)
            &&& r is None ==> t.error is Some && t.running == WizardBusy::Idle
        },
        old(app).wizard is None ==> *final(app) == *old(app),
{
}

} // verus!
