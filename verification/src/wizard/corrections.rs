//! Applying the corrections of a scene review.

use vstd::prelude::*;

use super::lifecycle::only_session;
use super::session::{MAX_CORRECTION_ITERS, WizardBusy, WizardSession};
use super::state::{
    lemma_object_at, lemma_object_found, object_at, Correction, ObjectEntry, WizardState,
};
use super::workers::only_error;
use crate::studio::MogenStudioApp;
use crate::text::{cat2, cat4, clone_opt, decimal, decimal_digits, opt_view};

verus! {

/// One object after a correction: moved and turned as far as the correction
/// says.
pub open spec fn moved(o: ObjectEntry, c: Correction) -> ObjectEntry {
    ObjectEntry {
        position: match c.new_position {
            Some(p) => p,
            None => o.position,
        },
        rotation_y_deg: match c.new_rotation_y_deg {
            Some(r) => r,
            None => o.rotation_y_deg,
        },
        ..o
    }
}

/// The objects after one correction, which speaks of the first object with its
/// id.
pub open spec fn corrected(m: Seq<ObjectEntry>, c: Correction) -> Seq<ObjectEntry> {
    match object_at(m, c.object_id@) {
        Some(i) => m.update(i, moved(m[i], c)),
        None => m,
    }
}

/// The objects after a list of corrections, applied in order.
pub open spec fn mirrored(m: Seq<ObjectEntry>, cs: Seq<Correction>) -> Seq<ObjectEntry>
    decreases cs.len(),
{
    if cs.len() == 0 {
        m
    } else {
        corrected(mirrored(m, cs.drop_last()), cs.last())
    }
}

/// Moves the objects as the corrections say.
pub fn mirror_corrections(state: &mut WizardState, corrections: &Vec<Correction>)
    ensures
        *final(state) == (WizardState { manifest: final(state).manifest, ..*old(state) }),
        final(state).manifest@ == mirrored(old(state).manifest@, corrections@),
{
    let ghost first = *state;
    let mut k: usize = 0;
    while k < corrections.len()
        invariant
            k <= corrections@.len(),
            *state == (WizardState { manifest: state.manifest, ..first }),
            state.manifest@ == mirrored(first.manifest@, corrections@.take(k as int)),
        decreases corrections.len() - k,
    {
        let c = &corrections[k];
        let ghost before = state.manifest@;
        assert(corrections@.take(k + 1).drop_last() =~= corrections@.take(k as int));
        if let Some(i) = state.object_index(c.object_id.as_str()) {
            if let Some(p) = c.new_position {
                state.manifest[i].position = p;
            }
            if let Some(r) = c.new_rotation_y_deg {
                state.manifest[i].rotation_y_deg = r;
            }
            assert(state.manifest@ =~= before.update(i as int, moved(before[i as int], *c)));
        }
        k = k + 1;
    }
    assert(corrections@.take(k as int) =~= corrections@);
}

/// How the edit of the assembly file went: it could not be read, or so many
/// corrections matched and the file was then written.
pub enum CorrectionOutcome {
    Unreadable(String),
    Edited { applied: usize, written: Result<(), String> },
}

/// Whether a session is ready to have its corrections applied, and to which
/// file.
pub open spec fn correction_target(s: WizardSession) -> Option<String> {
    if s.state.scene_review is None {
        None
    } else {
        s.state.assembly_path
    }
}

/// What the outcome of the edit does to a session that was ready for it:
/// `rebuild` says that the scene is to be saved and built again.
pub open spec fn corrections_applied(
    pre: WizardSession,
    outcome: CorrectionOutcome,
    post: WizardSession,
    rebuild: bool,
) -> bool {
    match outcome {
        CorrectionOutcome::Unreadable(e) => {
            &&& !rebuild
            &&& post == (WizardSession { error: post.error, ..pre })
            &&& opt_view(post.error) == Some("Couldn't read assembly: "@ + e@)
        },
        CorrectionOutcome::Edited { applied, written } => if applied == 0 {
            &&& !rebuild
            &&& post == (WizardSession { status: post.status, ..pre })
            &&& post.status@ == "No corrections matched any manifest objects."@
        } else {
            match written {
                Err(e) => {
                    &&& !rebuild
                    &&& post == (WizardSession { error: post.error, ..pre })
                    &&& opt_view(post.error) == Some(
                        "Couldn't write corrected assembly: "@ + e@,
                    )
                },
                Ok(_) => {
                    &&& rebuild
                    &&& post == (WizardSession {
                        state: WizardState {
                            manifest: post.state.manifest,
                            scene_review: None,
                            ..pre.state
                        },
                        status: post.status,
                        apply_corrections_armed: false,
                        correction_iterations: (pre.correction_iterations + 1) as u32,
                        ..pre
                    })
                    &&& post.state.manifest@ == mirrored(
                        pre.state.manifest@,
                        (pre.state.scene_review->0).corrections@,
                    )
                    &&& post.status@ == "Applied "@ + decimal_digits(applied as nat)
                        + " correction(s) (iter "@ + decimal_digits(
                        (pre.correction_iterations + 1) as nat,
                    ) + "/"@ + decimal_digits(MAX_CORRECTION_ITERS as nat) + ")."@
                },
            }
        },
    }
}

/// Folds the outcome of the edit into the session.
pub fn finish_corrections(s: &mut WizardSession, outcome: CorrectionOutcome) -> (rebuild: bool)
    requires
        old(s).state.scene_review is Some,
        old(s).correction_iterations < u32::MAX,
    ensures
        corrections_applied(*old(s), outcome, *final(s), rebuild),
{
    match outcome {
        CorrectionOutcome::Unreadable(e) => {
            s.error = Some(cat2("Couldn't read assembly: ", e.as_str()));
            false
        },
        CorrectionOutcome::Edited { applied, written } => {
            if applied == 0 {
                s.status = "No corrections matched any manifest objects.".to_owned();
                return false;
            }
            match written {
                Err(e) => {
                    s.error = Some(cat2("Couldn't write corrected assembly: ", e.as_str()));
                    false
                },
                Ok(_) => {
                    if let Some(review) = s.state.scene_review.take() {
                        mirror_corrections(&mut s.state, &review.corrections);
                    }
                    s.correction_iterations = s.correction_iterations + 1;
                    s.apply_corrections_armed = false;
                    let n = decimal(applied);
                    let k = decimal(s.correction_iterations as usize);
                    let max = decimal(MAX_CORRECTION_ITERS as usize);
                    let head = cat4("Applied ", n.as_str(), " correction(s) (iter ", k.as_str());
                    s.status = cat4(head.as_str(), "/", max.as_str(), ").");
                    true
                },
            }
        },
    }
}

/// What the outcome of the edit leads to: a session that is ready to build the
/// scene again starts that.
pub open spec fn corrections_ended(
    pre: WizardSession,
    outcome: CorrectionOutcome,
    post: WizardSession,
    rebuild: bool,
) -> bool {
    exists|mid: WizardSession| #[trigger]
        corrections_applied(pre, outcome, mid, rebuild) && if rebuild {
            &&& post == (WizardSession {
                running: WizardBusy::Assemble,
                status: post.status,
                error: None,
                ..mid
            })
            &&& post.status@ == "Assembling scene…"@
        } else {
            post == mid
        }
}

impl MogenStudioApp {
    /// Names the assembly file whose objects are to be moved, or reports why
    /// there is none. Without a scene review there is nothing to apply.
    pub fn wizard_corrections_target(&mut self) -> (r: Option<String>)
        ensures
            only_session(*old(self), *final(self)),
            old(self).wizard is None ==> r is None,
            old(self).wizard matches Some(s) ==> {
                &&& r == correction_target(s)
                &&& if s.state.scene_review is Some && s.state.assembly_path is None {
                    only_error(
                        s,
                        final(self).wizard->0,
                        "No assembly file to edit — build the scene first."@,
                    )
                } else {
                    final(self).wizard == old(self).wizard
                }
            },
    {
        match self.wizard.as_mut() {
            Some(s) => {
                if s.state.scene_review.is_none() {
                    return None;
                }
                let path = clone_opt(&s.state.assembly_path);
                if path.is_none() {
                    s.error =
                    Some("No assembly file to edit — build the scene first.".to_owned());
                }
                path
            },
            None => None,
        }
    }

    /// Folds the outcome of editing the assembly file into the run, and when
    /// it went well marks the rebuild as under way. Returns whether the run is
    /// to be saved and built again.
    pub fn apply_wizard_corrections(&mut self, outcome: CorrectionOutcome) -> (rebuild: bool)
        requires
            old(self).wizard matches Some(s) ==> s.correction_iterations < u32::MAX,
        ensures
            only_session(*old(self), *final(self)),
            old(self).wizard is None ==> !rebuild,
            old(self).wizard matches Some(s) ==> if correction_target(s) is None {
                !rebuild && final(self).wizard == old(self).wizard
            } else {
                final(self).wizard matches Some(t) && corrections_ended(s, outcome, t, rebuild)
            },
    {
        let rebuild = match self.wizard.as_mut() {
            Some(s) => {
                if s.state.scene_review.is_none() || s.state.assembly_path.is_none() {
                    return false;
                }
                finish_corrections(s, outcome)
            },
            None => return false,
        };
        let ghost mid = self.wizard->0;
        assert(corrections_applied(old(self).wizard->0, outcome, mid, rebuild));
        if rebuild {
            self.start_wizard_assemble_and_build();
        }
        rebuild
    }
}

// ---- what corrections guarantee --------------------------------------------

/// Corrections move objects and nothing else: the manifest keeps its length
/// and order, and every object all its fields but position and rotation.
pub proof fn law_corrections_only_move(m: Seq<ObjectEntry>, cs: Seq<Correction>)
    ensures
        mirrored(m, cs).len() == m.len(),
        forall|i: int|
            0 <= i < m.len() ==> (#[trigger] mirrored(m, cs)[i]) == (ObjectEntry {
                position: mirrored(m, cs)[i].position,
                rotation_y_deg: mirrored(m, cs)[i].rotation_y_deg,
                ..m[i]
            }),
    decreases cs.len(),
{
    if cs.len() > 0 {
        let before = mirrored(m, cs.drop_last());
        law_corrections_only_move(m, cs.drop_last());
        lemma_object_found(before, cs.last().object_id@);
        assert forall|i: int| 0 <= i < m.len() implies (#[trigger] mirrored(m, cs)[i]) == (
        ObjectEntry {
            position: mirrored(m, cs)[i].position,
            rotation_y_deg: mirrored(m, cs)[i].rotation_y_deg,
            ..m[i]
        }) by {
            assert(before[i] == (ObjectEntry {
                position: before[i].position,
                rotation_y_deg: before[i].rotation_y_deg,
                ..m[i]
            }));
        }
    }
}

/// An object that no correction speaks of stays where it is.
pub proof fn law_uncorrected_objects_stay(m: Seq<ObjectEntry>, cs: Seq<Correction>, i: int)
    requires
        0 <= i < m.len(),
        forall|k: int| 0 <= k < cs.len() ==> (#[trigger] cs[k]).object_id@ != m[i].id@,
    ensures
        mirrored(m, cs)[i] == m[i],
    decreases cs.len(),
{
    if cs.len() > 0 {
        let t = cs.drop_last();
        let before = mirrored(m, t);
        assert forall|k: int| 0 <= k < t.len() implies (#[trigger] t[k]).object_id@ != m[i].id@ by {
            assert(t[k] == cs[k]);
        }
        law_uncorrected_objects_stay(m, t, i);
        law_corrections_only_move(m, t);
        lemma_object_found(before, cs.last().object_id@);
        assert(cs[cs.len() - 1].object_id@ != m[i].id@);
    }
}

/// Whether no object in front of the one at `i` has its id.
pub open spec fn first_of_its_id(m: Seq<ObjectEntry>, i: int) -> bool {
    0 <= i < m.len() && forall|j: int| 0 <= j < i ==> (#[trigger] m[j]).id@ != m[i].id@
}

proof fn lemma_hit(m: Seq<ObjectEntry>, cs: Seq<Correction>, i: int)
    requires
        first_of_its_id(m, i),
        cs.len() > 0,
    ensures
        mirrored(m, cs).len() == m.len(),
        mirrored(m, cs.drop_last()).len() == m.len(),
        cs.last().object_id@ != m[i].id@ ==> mirrored(m, cs)[i] == mirrored(m, cs.drop_last())[i],
        cs.last().object_id@ == m[i].id@ ==> mirrored(m, cs)[i] == moved(
            mirrored(m, cs.drop_last())[i],
            cs.last(),
        ),
{
    let t = cs.drop_last();
    let before = mirrored(m, t);
    law_corrections_only_move(m, t);
    law_corrections_only_move(m, cs);
    assert(before[i].id == m[i].id);
    lemma_object_found(before, cs.last().object_id@);
    if cs.last().object_id@ == m[i].id@ {
        assert forall|j: int| 0 <= j < i implies (#[trigger] before[j]).id@ != m[i].id@ by {
            assert(before[j].id == m[j].id);
        }
        lemma_object_at(before, m[i].id@, i);
    }
}

proof fn lemma_last_rotation(m: Seq<ObjectEntry>, cs: Seq<Correction>, i: int, k: int)
    requires
        first_of_its_id(m, i),
        -1 <= k < cs.len(),
        k >= 0 ==> cs[k].object_id@ == m[i].id@ && cs[k].new_rotation_y_deg is Some,
        forall|l: int|
            k < l < cs.len() && (#[trigger] cs[l]).object_id@ == m[i].id@
                ==> cs[l].new_rotation_y_deg is None,
    ensures
        mirrored(m, cs)[i].rotation_y_deg == if k >= 0 {
            cs[k].new_rotation_y_deg->0
        } else {
            m[i].rotation_y_deg
        },
    decreases cs.len(),
{
    if cs.len() > 0 {
        let t = cs.drop_last();
        lemma_hit(m, cs, i);
        if k < cs.len() - 1 {
            assert forall|l: int|
                k < l < t.len() && (#[trigger] t[l]).object_id@ == m[i].id@
                    implies t[l].new_rotation_y_deg is None by {
                assert(t[l] == cs[l]);
            }
            lemma_last_rotation(m, t, i, k);
            assert(cs[cs.len() - 1] == cs.last());
        }
    }
}

proof fn lemma_last_position(m: Seq<ObjectEntry>, cs: Seq<Correction>, i: int, k: int)
    requires
        first_of_its_id(m, i),
        -1 <= k < cs.len(),
        k >= 0 ==> cs[k].object_id@ == m[i].id@ && cs[k].new_position is Some,
        forall|l: int|
            k < l < cs.len() && (#[trigger] cs[l]).object_id@ == m[i].id@ ==> cs[l].new_position is None,
    ensures
        mirrored(m, cs)[i].position == if k >= 0 {
            cs[k].new_position->0
        } else {
            m[i].position
        },
    decreases cs.len(),
{
    if cs.len() > 0 {
        let t = cs.drop_last();
        lemma_hit(m, cs, i);
        if k < cs.len() - 1 {
            assert forall|l: int|
                k < l < t.len() && (#[trigger] t[l]).object_id@ == m[i].id@
                    implies t[l].new_position is None by {
                assert(t[l] == cs[l]);
            }
            lemma_last_position(m, t, i, k);
            assert(cs[cs.len() - 1] == cs.last());
        }
    }
}

/// The last correction of an object that carries a rotation is the one that
/// counts: after all corrections the object has exactly that rotation.
pub proof fn law_last_rotation_wins(
    state: &mut WizardState,
    corrections: &Vec<Correction>,
    i: int,
    k: int,
)
    requires
        call_ensures(mirror_corrections, (state, corrections), ()),
        first_of_its_id(old(state).manifest@, i),
        0 <= k < corrections@.len(),
        corrections@[k].object_id@ == old(state).manifest@[i].id@,
        corrections@[k].new_rotation_y_deg is Some,
        forall|l: int|
            k < l < corrections@.len() && (#[trigger] corrections@[l]).object_id@
                == old(state).manifest@[i].id@ ==> corrections@[l].new_rotation_y_deg is None,
    ensures
        Some(final(state).manifest@[i].rotation_y_deg) == corrections@[k].new_rotation_y_deg,
{
    lemma_last_rotation(old(state).manifest@, corrections@, i, k);
}

/// The last correction of an object that carries a position is the one that
/// counts: after all corrections the object is exactly there.
pub proof fn law_last_position_wins(
    state: &mut WizardState,
    corrections: &Vec<Correction>,
    i: int,
    k: int,
)
    requires
        call_ensures(mirror_corrections, (state, corrections), ()),
        first_of_its_id(old(state).manifest@, i),
        0 <= k < corrections@.len(),
        corrections@[k].object_id@ == old(state).manifest@[i].id@,
        corrections@[k].new_position is Some,
        forall|l: int|
            k < l < corrections@.len() && (#[trigger] corrections@[l]).object_id@
                == old(state).manifest@[i].id@ ==> corrections@[l].new_position is None,
    ensures
        Some(final(state).manifest@[i].position) == corrections@[k].new_position,
{
    lemma_last_position(old(state).manifest@, corrections@, i, k);
}

/// What no correction of an object speaks of stays: without a rotation among
/// them it keeps its rotation, without a position its place.
pub proof fn law_unnamed_parts_stay(state: &mut WizardState, corrections: &Vec<Correction>, i: int)
    requires
        call_ensures(mirror_corrections, (state, corrections), ()),
        first_of_its_id(old(state).manifest@, i),
    ensures
        (forall|l: int|
            0 <= l < corrections@.len() && (#[trigger] corrections@[l]).object_id@
                == old(state).manifest@[i].id@ ==> corrections@[l].new_rotation_y_deg is None)
            ==> final(state).manifest@[i].rotation_y_deg == old(state).manifest@[i].rotation_y_deg,
        (forall|l: int|
            0 <= l < corrections@.len() && (#[trigger] corrections@[l]).object_id@
                == old(state).manifest@[i].id@ ==> corrections@[l].new_position is None)
            ==> final(state).manifest@[i].position == old(state).manifest@[i].position,
{
    let m = old(state).manifest@;
    let cs = corrections@;
    if forall|l: int|
        0 <= l < cs.len() && (#[trigger] cs[l]).object_id@ == m[i].id@
            ==> cs[l].new_rotation_y_deg is None {
        lemma_last_rotation(m, cs, i, -1);
    }
    if forall|l: int|
        0 <= l < cs.len() && (#[trigger] cs[l]).object_id@ == m[i].id@ ==> cs[l].new_position is None {
        lemma_last_position(m, cs, i, -1);
    }
}

/// Mirroring corrections touches the objects and nothing else of the run, and
/// of an object nothing but its place and rotation.
pub proof fn law_mirroring_keeps_the_rest(
    state: &mut WizardState,
    corrections: &Vec<Correction>,
    i: int,
)
    requires
        call_ensures(mirror_corrections, (state, corrections), ()),
    ensures
        *final(state) == (WizardState { manifest: final(state).manifest, ..*old(state) }),
        final(state).manifest@.len() == old(state).manifest@.len(),
        0 <= i < old(state).manifest@.len() ==> final(state).manifest@[i] == (ObjectEntry {
            position: final(state).manifest@[i].position,
            rotation_y_deg: final(state).manifest@[i].rotation_y_deg,
            ..old(state).manifest@[i]
        }),
{
    law_corrections_only_move(old(state).manifest@, corrections@);
}

proof fn lemma_second_of_an_id_stays(m: Seq<ObjectEntry>, cs: Seq<Correction>, i: int, j: int)
    requires
        0 <= j < i < m.len(),
        m[j].id@ == m[i].id@,
    ensures
        mirrored(m, cs)[i] == m[i],
    decreases cs.len(),
{
    if cs.len() > 0 {
        let before = mirrored(m, cs.drop_last());
        lemma_second_of_an_id_stays(m, cs.drop_last(), i, j);
        law_corrections_only_move(m, cs.drop_last());
        lemma_object_found(before, cs.last().object_id@);
        assert(before[j].id == m[j].id);
    }
}

/// Of several objects with one id corrections move the first only.
pub proof fn law_corrections_speak_of_the_first(
    state: &mut WizardState,
    corrections: &Vec<Correction>,
    i: int,
    j: int,
)
    requires
        call_ensures(mirror_corrections, (state, corrections), ()),
        0 <= j < i < old(state).manifest@.len(),
        old(state).manifest@[j].id@ == old(state).manifest@[i].id@,
    ensures
        final(state).manifest@[i] == old(state).manifest@[i],
{
    lemma_second_of_an_id_stays(old(state).manifest@, corrections@, i, j);
}

/// The scene is built again exactly when some correction matched and the
/// edited file was written; only then does the run change, the review is used
/// up and a round is counted. Whatever failed is shown.
pub proof fn law_corrections_are_all_or_nothing(
    s: &mut WizardSession,
    outcome: CorrectionOutcome,
    rebuild: bool,
)
    requires
        call_ensures(finish_corrections, (s, outcome), rebuild),
        old(s).state.scene_review is Some,
        old(s).correction_iterations < u32::MAX,
    ensures
        rebuild <==> (outcome matches CorrectionOutcome::Edited { applied, written } && applied > 0
            && written is Ok),
        !rebuild ==> final(s).state == old(s).state && final(s).correction_iterations
            == old(s).correction_iterations,
        rebuild ==> final(s).state.scene_review is None && final(s).correction_iterations
            == old(s).correction_iterations + 1 && !final(s).apply_corrections_armed
            && final(s).error == old(s).error,
        rebuild ==> final(s).state == (WizardState {
            manifest: final(s).state.manifest,
            scene_review: None,
            ..old(s).state
        }),
        outcome matches CorrectionOutcome::Unreadable(e) ==> final(s).error is Some && e@.is_suffix_of(
            final(s).error->0@,
        ),
        outcome matches CorrectionOutcome::Edited { applied, written: Err(e) } ==> applied > 0
            ==> final(s).error is Some && e@.is_suffix_of(final(s).error->0@),
        final(s).running == old(s).running,
        final(s).running_ref_ids == old(s).running_ref_ids,
        final(s).running_object_ids == old(s).running_object_ids,
{
    match outcome {
        CorrectionOutcome::Unreadable(e) => {
            let all = "Couldn't read assembly: "@ + e@;
            assert(all.skip(all.len() - e@.len()) =~= e@);
        },
        CorrectionOutcome::Edited { applied, written } => {
            if let Err(e) = written {
                let all = "Couldn't write corrected assembly: "@ + e@;
                assert(all.skip(all.len() - e@.len()) =~= e@);
            }
        },
    }
}

/// A rotation and a position that the review asks for reach the object when
/// the corrections have been applied.
pub proof fn law_applied_corrections_reach_the_objects(
    s: &mut WizardSession,
    outcome: CorrectionOutcome,
    i: int,
    k: int,
)
    requires
        call_ensures(finish_corrections, (s, outcome), true),
        old(s).state.scene_review is Some,
        old(s).correction_iterations < u32::MAX,
        first_of_its_id(old(s).state.manifest@, i),
        0 <= k < (old(s).state.scene_review->0).corrections@.len(),
        (old(s).state.scene_review->0).corrections@[k].object_id@ == old(s).state.manifest@[i].id@,
        forall|l: int|
            k < l < (old(s).state.scene_review->0).corrections@.len() ==> (
            #[trigger] (old(s).state.scene_review->0).corrections@[l]).object_id@
                != old(s).state.manifest@[i].id@,
    ensures
        (old(s).state.scene_review->0).corrections@[k].new_rotation_y_deg matches Some(r)
            ==> final(s).state.manifest@[i].rotation_y_deg == r,
        (old(s).state.scene_review->0).corrections@[k].new_position matches Some(p)
            ==> final(s).state.manifest@[i].position == p,
{
    let m = old(s).state.manifest@;
    let cs = (old(s).state.scene_review->0).corrections@;
    if cs[k].new_rotation_y_deg is Some {
        lemma_last_rotation(m, cs, i, k);
    }
    if cs[k].new_position is Some {
        lemma_last_position(m, cs, i, k);
    }
}

/// Corrections go to the assembly of the run, once the scene was judged; a
/// judged scene without an assembly is an error.
pub proof fn law_corrections_go_to_the_assembly(app: &mut MogenStudioApp, r: Option<String>)
    requires
        call_ensures(MogenStudioApp::wizard_corrections_target, (app,), r),
    ensures
        old(app).wizard is None ==> r is None,
        old(app).wizard matches Some(s) ==> (s.state.scene_review is Some && s.state.assembly_path is Some
            ==> r == s.state.assembly_path && final(app).wizard == old(app).wizard),
        old(app).wizard matches Some(s) ==> (s.state.scene_review is None ==> r is None
            && final(app).wizard == old(app).wizard),
        old(app).wizard matches Some(s) ==> (s.state.scene_review is Some && s.state.assembly_path is None
            ==> r is None && (final(app).wizard matches Some(t) && opt_view(t.error) == Some(
            "No assembly file to edit — build the scene first."@,
        ) && t.state == s.state)),
        final(app).files == old(app).files,
{
}

/// Corrections that were written to the assembly of a judged scene let it be
/// built again, count as one more round, and use the verdict up; what was not
/// written leaves the run as it is.
pub proof fn law_written_corrections_rebuild_the_scene(
    app: &mut MogenStudioApp,
    outcome: CorrectionOutcome,
    rebuild: bool,
    s: WizardSession,
)
    requires
        call_ensures(MogenStudioApp::apply_wizard_corrections, (app, outcome), rebuild),
        old(app).wizard == Some(s),
        s.correction_iterations < u32::MAX,
        s.state.scene_review is Some,
        s.state.assembly_path is Some,
    ensures
        final(app).wizard is Some,
        rebuild <==> (outcome matches CorrectionOutcome::Edited { applied, written } && applied > 0
            && written is Ok),
        rebuild ==> final(app).wizard->0.running is Assemble && final(app).wizard->0.error is None
            && final(app).wizard->0.correction_iterations == s.correction_iterations + 1
            && final(app).wizard->0.state.scene_review is None
            && final(app).wizard->0.state.assembly_path == s.state.assembly_path,
        !rebuild ==> final(app).wizard->0.state == s.state && final(app).wizard->0.running
            == s.running && final(app).wizard->0.correction_iterations == s.correction_iterations,
        outcome matches CorrectionOutcome::Unreadable(e) ==> opt_view(final(app).wizard->0.error)
            == Some("Couldn't read assembly: "@ + e@),
        outcome matches CorrectionOutcome::Edited { applied, written } ==> (applied > 0
            && written is Err ==> opt_view(final(app).wizard->0.error) == Some(
            "Couldn't write corrected assembly: "@ + (written->Err_0)@,
        )),
{
    let t = final(app).wizard->0;
    let mid = choose|mid: WizardSession| #[trigger]
        corrections_applied(s, outcome, mid, rebuild) && if rebuild {
            &&& t == (WizardSession {
                running: WizardBusy::Assemble,
                status: t.status,
                error: None,
                ..mid
            })
            &&& t.status@ == "Assembling scene…"@
        } else {
            t == mid
        };
    assert(corrections_applied(s, outcome, mid, rebuild));
}

} // verus!
