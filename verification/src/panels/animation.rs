//! The panel of the animation clips.

use vstd::prelude::*;
use vstd::utf8::*;

use super::gradient::{order, ordered};
use crate::edits::{
    collect, committed, edit_taken, entries, front_committed, idle, lemma_named_edit_taken,
    lemma_no_entry, lemma_one_entry, named_edit, source_taken, SourceEdit, UndoStep,
};
use crate::naming::{
    declared_name, is_word_char, largest_number, law_adding_counts_up, law_next_name_is_fresh,
    next_name, next_proc_clip_name, no_names, numbered_name, with_declaration,
};
use crate::pick::{as_places, lemma_places, lemma_places_same, places};
use crate::rewrite::{clipped, renamed, rewrite_node_name_literal};
use crate::scene::{import_in_view, in_view, listed_clips, visible_origins, Clip, SceneGraph};
use crate::span::Span;
use crate::studio::MogenStudioApp;
use crate::text::{
    blank, cat2, cat5, is_space, lemma_drop_back, lemma_trimmed, only, opt_is, opt_view, strip_back,
    trim, trimmed, without_back,
};

verus! {

// ---- which clips are listed ------------------------------------------------

/// The import whose declarations are shown beside the scene's own: none
/// without a compiled scene.
pub open spec fn shown_import(app: MogenStudioApp) -> Option<Seq<char>> {
    match app.front().last_result {
        Some(result) => match result.scene {
            Some(s) => import_in_view(s, app.primary()),
            None => None,
        },
        None => None,
    }
}

/// Whether a clip is listed.
pub open spec fn clip_listed(clips: Seq<Clip>, import: Option<Seq<char>>) -> spec_fn(int) -> bool {
    |c: int| in_view(clips[c].origin, import)
}

impl MogenStudioApp {
    fn import_shown(&self) -> (r: Option<String>)
        requires
            self.wf(),
        ensures
            opt_view(r) == shown_import(*self),
    {
        match &self.active().last_result {
            Some(result) => match &result.scene {
                Some(s) => visible_origins(s, self.primary_selection()),
                None => None,
            },
            None => None,
        }
    }

    /// Whether any clip of the scene in the foreground is listed.
    pub fn has_visible_clips(&self) -> (r: bool)
        requires
            self.wf(),
        ensures
            r == match self.front().last_result {
                None => false,
                Some(result) => match result.scene {
                    None => false,
                    Some(s) => exists|c: int|
                        0 <= c < s.clips@.len() && in_view(
                            (#[trigger] s.clips@[c]).origin,
                            import_in_view(s, self.primary()),
                        ),
                },
            },
    {
        match &self.active().last_result {
            None => false,
            Some(result) => match &result.scene {
                None => false,
                Some(s) => {
                    let import = visible_origins(s, self.primary_selection());
                    any_listed(&s.clips, &import)
                },
            },
        }
    }

    /// The clips that the panel lists, of those that the preview plays. The
    /// panel is empty without any.
    pub fn ui_animation(&self, clips: &Vec<Clip>) -> (r: Vec<usize>)
        requires
            self.wf(),
        ensures
            as_places(r@) == places(clip_listed(clips@, shown_import(*self)), clips@.len()),
    {
        let import = self.import_shown();
        let r = listed_clips(clips, &import);
        proof {
            lemma_places_same(
                |c: int| in_view(clips@[c].origin, opt_view(import)),
                clip_listed(clips@, shown_import(*self)),
                clips@.len(),
            );
        }
        r
    }
}

fn any_listed(clips: &Vec<Clip>, import: &Option<String>) -> (r: bool)
    ensures
        r == (exists|c: int|
            0 <= c < clips@.len() && in_view((#[trigger] clips@[c]).origin, opt_view(*import))),
{
    let listed = listed_clips(clips, import);
    proof {
        let p = |c: int| in_view(clips@[c].origin, opt_view(*import));
        let found = places(p, clips@.len());
        lemma_places(p, clips@.len());
        assert(as_places(listed@) == found);
        assert(found.len() == listed@.len());
        if found.len() > 0 {
            let c = found[0];
            assert(p(c));
            assert(in_view(clips@[c].origin, opt_view(*import)));
        }
        assert forall|c: int|
            0 <= c < clips@.len() && in_view(
                (#[trigger] clips@[c]).origin,
                opt_view(*import),
            ) implies found.len() > 0 by {
            assert(p(c));
            assert(found.contains(c));
        }
    }
    listed.len() > 0
}

/// A list with one entry for each clip: cut, or filled up with `default`. The
/// preview's lists may lag behind the clips for a moment.
pub fn one_per_clip<T: Copy>(list: &Vec<T>, clips: usize, default: T) -> (r: Vec<T>)
    ensures
        r@ == Seq::new(
            clips as nat,
            |i: int|
                if i < list@.len() {
                    list@[i]
                } else {
                    default
                },
        ),
{
    let mut out: Vec<T> = Vec::new();
    let mut i: usize = 0;
    while i < clips
        invariant
            i <= clips,
            out@.len() == i,
            forall|j: int|
                0 <= j < i ==> #[trigger] out@[j] == if j < list@.len() {
                    list@[j]
                } else {
                    default
                },
        decreases clips - i,
    {
        if i < list.len() {
            out.push(list[i]);
        } else {
            out.push(default);
        }
        i = i + 1;
    }
    out
}

// ---- playback --------------------------------------------------------------

/// The label of the playback button.
pub fn play_label(playing: bool) -> (r: &'static str)
    ensures
        r@ == if playing {
            "⏸ Pause"@
        } else {
            "▶ Play"@
        },
{
    if playing {
        "⏸ Pause"
    } else {
        "▶ Play"
    }
}

/// Whether a speed, as the bit pattern of a single-precision number, is real
/// time: one, or the number just below it.
pub open spec fn real_time(speed: u32) -> bool {
    0x3f7f_ffff <= speed <= 0x3f80_0000
}

/// Whether a speed is less than five thousandths away from standing still.
pub open spec fn standing(speed: u32) -> bool {
    -0x3ba3_d70a < order(speed) < 0x3ba3_d70a
}

/// Whether the button that resets the speed is shown.
pub fn offers_speed_reset(speed: u32) -> (r: bool)
    ensures
        r == !real_time(speed),
{
    !(0x3f7f_ffff <= speed && speed <= 0x3f80_0000)
}

/// What a speed does, in a word. The speed is the bit pattern of a
/// single-precision number; one that is no number counts as slow.
pub fn speed_tag(speed: u32) -> (r: &'static str)
    ensures
        r@ == if !ordered(speed) {
            "slow"@
        } else if standing(speed) {
            "paused"@
        } else if order(speed) < 0 {
            "reverse"@
        } else if real_time(speed) {
            "real time"@
        } else if order(speed) > 0x3f80_0000 {
            "fast"@
        } else {
            "slow"@
        },
{
    let negative = speed > 0x8000_0000;
    let magnitude = if speed >= 0x8000_0000 {
        speed - 0x8000_0000
    } else {
        speed
    };
    if magnitude > 0x7f80_0000 {
        "slow"
    } else if magnitude < 0x3ba3_d70a {
        "paused"
    } else if negative {
        "reverse"
    } else if !offers_speed_reset(speed) {
        "real time"
    } else if speed > 0x3f80_0000 {
        "fast"
    } else {
        "slow"
    }
}

// ---- adding a clip ---------------------------------------------------------

/// A template for a new clip.
#[derive(Clone, Copy, Debug)]
pub struct ClipTemplate {
    pub kind: &'static str,
    pub label: &'static str,
}

/// The templates for a new clip, in order.
pub open spec fn clip_templates() -> Seq<ClipTemplate> {
    seq![
        ClipTemplate { kind: "spin", label: "spin (rotation about an axis)" },
        ClipTemplate { kind: "open_close", label: "open_close (hinge swing)" },
        ClipTemplate { kind: "wave", label: "wave (oscillation)" },
        ClipTemplate { kind: "flap", label: "flap (one-direction oscillation)" },
        ClipTemplate { kind: "idle", label: "idle (subtle bob)" },
    ]
}

/// The templates for a new clip, in order.
pub fn all_clip_templates() -> (r: Vec<ClipTemplate>)
    ensures
        r@ == clip_templates(),
{
    let mut r: Vec<ClipTemplate> = Vec::new();
    r.push(ClipTemplate { kind: "spin", label: "spin (rotation about an axis)" });
    r.push(ClipTemplate { kind: "open_close", label: "open_close (hinge swing)" });
    r.push(ClipTemplate { kind: "wave", label: "wave (oscillation)" });
    r.push(ClipTemplate { kind: "flap", label: "flap (one-direction oscillation)" });
    r.push(ClipTemplate { kind: "idle", label: "idle (subtle bob)" });
    assert(r@ =~= clip_templates());
    r
}

/// The declaration of a new clip.
pub open spec fn new_clip(kind: Seq<char>, name: Seq<char>, target: Seq<char>) -> Seq<char> {
    kind + " \""@ + name + "\" (target=\""@ + target + "\")"@
}

impl MogenStudioApp {
    /// Whether a clip can be added: it needs a target.
    pub fn can_add_clip(&self) -> (r: bool)
        ensures
            r == (trimmed(self.add_clip_target@).len() > 0),
    {
        !trim(self.add_clip_target.as_str()).is_empty()
    }

    /// Appends a clip of the picked kind, for the typed target, to the scene
    /// in the foreground. `append` puts a declaration into a source.
    pub fn add_clip<F: Fn(&String, &String) -> String>(&mut self, append: F, now: u64) -> (undo:
        Option<UndoStep>)
        requires
            old(self).wf(),
            trimmed(old(self).add_clip_target@).len() > 0,
            largest_number(old(self).front().source@, old(self).add_clip_kind@) < u32::MAX,
            forall|s: &String, d: &String| call_requires(append, (s, d)),
        ensures
            final(self).wf(),
            exists|declaration: String, source: String|
                #![trigger call_ensures(append, (&old(self).front().source, &declaration), source)]
                {
                    &&& call_ensures(append, (&old(self).front().source, &declaration), source)
                    &&& declaration@ == new_clip(
                        old(self).add_clip_kind@,
                        next_name(old(self).front().source@, old(self).add_clip_kind@),
                        trimmed(old(self).add_clip_target@),
                    )
                    &&& front_committed(
                        *old(self),
                        SourceEdit::AddClip,
                        source,
                        now,
                        *final(self),
                        undo,
                    )
                },
    {
        let name = next_proc_clip_name(
            self.active().source.as_str(),
            self.add_clip_kind.as_str(),
        );
        let target = trim(self.add_clip_target.as_str());
        let mut declaration = cat5(
            self.add_clip_kind.as_str(),
            " \"",
            name.as_str(),
            "\" (target=\"",
            target,
        );
        declaration.append("\")");
        let source = append(&self.active().source, &declaration);
        self.commit_source(&SourceEdit::AddClip, source, now)
    }
}

// ---- deleting a clip -------------------------------------------------------

/// The delete button of a clip: its label and what it says of itself.
/// `pending` says that it waits for the second click, `declared` that the clip
/// has a declaration of its own.
pub fn delete_button(pending: bool, declared: bool) -> (r: (&'static str, &'static str))
    ensures
        r.0@ == if pending {
            "Delete?"@
        } else {
            "🗑"@
        },
        r.1@ == if pending {
            "Click again to delete this clip"@
        } else if declared {
            "Delete this clip from the DSL source"@
        } else {
            "This clip has no authored source to delete\n(procedural template with multiple targets)"@
        },
{
    if pending {
        ("Delete?", "Click again to delete this clip")
    } else if declared {
        ("🗑", "Delete this clip from the DSL source")
    } else {
        (
            "🗑",
            "This clip has no authored source to delete\n(procedural template with multiple targets)",
        )
    }
}

/// Whether a click on the delete button of a clip deletes it, when `waiting`
/// is the clip whose button waits for the second click.
pub open spec fn deletes_clip(waiting: Option<Seq<char>>, clip: Seq<char>) -> bool {
    waiting == Some(clip)
}

/// The clip whose button waits for the second click after a click on one.
pub open spec fn waiting_after(waiting: Option<Seq<char>>, clip: Seq<char>) -> Option<Seq<char>> {
    if deletes_clip(waiting, clip) {
        None
    } else {
        Some(clip)
    }
}

impl MogenStudioApp {
    /// Whether the delete button of a clip waits for the second click.
    pub fn delete_pending(&self, clip: &str) -> (r: bool)
        ensures
            r == deletes_clip(opt_view(self.clip_delete_pending), clip@),
    {
        opt_is(&self.clip_delete_pending, clip)
    }

    /// A click on the delete button of a clip. The first click asks, the
    /// second one deletes: says whether the clip is to be deleted.
    pub fn click_delete_clip(&mut self, clip: &str) -> (delete: bool)
        ensures
            delete == deletes_clip(opt_view(old(self).clip_delete_pending), clip@),
            *final(self) == (MogenStudioApp {
                clip_delete_pending: final(self).clip_delete_pending,
                ..*old(self)
            }),
            opt_view(final(self).clip_delete_pending) == waiting_after(
                opt_view(old(self).clip_delete_pending),
                clip@,
            ),
    {
        if self.delete_pending(clip) {
            self.clip_delete_pending = None;
            true
        } else {
            self.clip_delete_pending = Some(clip.to_owned());
            false
        }
    }

    /// A click anywhere else in the panel: no delete button waits any more.
    pub fn click_elsewhere(&mut self)
        ensures
            *final(self) == (MogenStudioApp { clip_delete_pending: None, ..*old(self) }),
    {
        self.clip_delete_pending = None;
    }
}

// ---- renaming and timing a clip --------------------------------------------

/// Whether `out` is the source with the clip at `span` renamed.
pub open spec fn is_clip_renamed(
    source: Seq<char>,
    span: Span,
    new_name: Seq<char>,
    out: Seq<char>,
) -> bool {
    encode_utf8(out) == renamed(
        encode_utf8(source),
        clipped(span.start, encode_utf8(source).len()),
        clipped(span.end, encode_utf8(source).len()),
        encode_utf8(new_name),
    )
}

/// The key under which the typed duration of a clip is kept.
pub open spec fn duration_key(clip: Seq<char>) -> Seq<char> {
    clip + "::dur"@
}

/// The key under which the typed duration of a clip is kept.
pub fn duration_draft_key(clip: &str) -> (r: String)
    ensures
        r@ == duration_key(clip@),
{
    cat2(clip, "::dur")
}

/// A number that was written with decimals, without the zeros at its end.
pub open spec fn short_number(text: Seq<char>) -> Seq<char> {
    without_back(without_back(text, '0'), '.')
}

/// A number that was written with decimals, without the zeros at its end.
pub fn seconds_text(text: &str) -> (r: String)
    ensures
        r@ == short_number(text@),
{
    strip_back(strip_back(text, '0'), '.').to_owned()
}

/// What renaming a clip does to the studio: the source is committed, and the
/// draft of the old name goes if anything changed.
pub open spec fn clip_renamed(
    pre: MogenStudioApp,
    span: Option<Span>,
    old_name: Seq<char>,
    new_name: Seq<char>,
    now: u64,
    post: MogenStudioApp,
    undo: Option<UndoStep>,
) -> bool {
    match span {
        None => idle(pre, post, undo),
        Some(s) => exists|source: String| #[trigger]
            is_clip_renamed(pre.front().source@, s, new_name, source@) && {
                &&& committed(pre.front(), SourceEdit::RenameClip, source, now, post.front(), undo)
                &&& post.files@ == pre.files@.update(pre.active as int, post.front())
                &&& post == (MogenStudioApp {
                    files: post.files,
                    clip_name_drafts: post.clip_name_drafts,
                    ..pre
                })
                &&& post.clip_name_drafts@ == if undo is Some {
                    pre.clip_name_drafts@.remove(old_name)
                } else {
                    pre.clip_name_drafts@
                }
            },
    }
}

/// What committing a source with a new duration of a clip does; there is none
/// when the clip has no declaration.
pub open spec fn seconds_committed(
    pre: MogenStudioApp,
    clip: Seq<char>,
    edited: Option<String>,
    now: u64,
    post: MogenStudioApp,
    undo: Option<UndoStep>,
) -> bool {
    match edited {
        None => idle(pre, post, undo),
        Some(source) => {
            &&& committed(pre.front(), SourceEdit::ClipSeconds, source, now, post.front(), undo)
            &&& post.files@ == pre.files@.update(pre.active as int, post.front())
            &&& post == (MogenStudioApp {
                files: post.files,
                clip_duration_drafts: post.clip_duration_drafts,
                ..pre
            })
            &&& post.clip_duration_drafts@ == if undo is Some {
                pre.clip_duration_drafts@.remove(duration_key(clip))
            } else {
                pre.clip_duration_drafts@
            }
        },
    }
}

impl MogenStudioApp {
    /// Renames the clip that is declared at `span` in the source in the
    /// foreground. The draft of its name goes with the old name.
    pub fn rename_clip(&mut self, span: Option<Span>, old_name: &str, new_name: &str, now: u64) -> (undo:
        Option<UndoStep>)
        requires
            old(self).wf(),
        ensures
            final(self).wf(),
            clip_renamed(*old(self), span, old_name@, new_name@, now, *final(self), undo),
    {
        match span {
            None => None,
            Some(s) => {
                let source = rewrite_node_name_literal(self.active().source.as_str(), s, new_name);
                assert(is_clip_renamed(self.front().source@, s, new_name@, source@));
                let undo = self.commit_source(&SourceEdit::RenameClip, source, now);
                if undo.is_some() {
                    self.clip_name_drafts.remove(old_name);
                }
                undo
            },
        }
    }

    /// Commits a source in which the duration of a clip was written. The draft
    /// of the duration goes when anything changed.
    pub fn commit_clip_seconds(&mut self, clip: &str, edited: Option<String>, now: u64) -> (undo:
        Option<UndoStep>)
        requires
            old(self).wf(),
        ensures
            final(self).wf(),
            seconds_committed(*old(self), clip@, edited, now, *final(self), undo),
    {
        match edited {
            None => None,
            Some(source) => {
                let undo = self.commit_source(&SourceEdit::ClipSeconds, source, now);
                if undo.is_some() {
                    let key = duration_draft_key(clip);
                    self.clip_duration_drafts.remove(key.as_str());
                }
                undo
            },
        }
    }
}

// ---- a frame of the panel --------------------------------------------------

/// What was committed in the list of clips in one frame.
pub struct ClipClicks {
    /// The clip to delete.
    pub delete: Option<String>,
    /// The clip to rename, and its new name.
    pub rename: Option<(String, String)>,
    /// The clip with a new duration, and the duration written with decimals.
    pub seconds: Option<(String, String)>,
}

/// What a rename does, if one was asked for. `find` looks the clip up.
pub open spec fn clip_rename_step<F: Fn(&String, &String) -> Option<Span>>(
    find: F,
    pre: MogenStudioApp,
    rename: Option<(String, String)>,
    now: u64,
    post: MogenStudioApp,
    undo: Option<UndoStep>,
) -> bool {
    match rename {
        None => idle(pre, post, undo),
        Some((from, to)) => exists|span: Option<Span>| #[trigger]
            call_ensures(find, (&pre.front().source, &from), span) && clip_renamed(
                pre,
                span,
                from@,
                to@,
                now,
                post,
                undo,
            ),
    }
}

/// What a new duration does, if there is one. `write` puts it into a source.
pub open spec fn seconds_step<F: Fn(&String, &String, &String) -> Option<String>>(
    write: F,
    pre: MogenStudioApp,
    seconds: Option<(String, String)>,
    now: u64,
    post: MogenStudioApp,
    undo: Option<UndoStep>,
) -> bool {
    match seconds {
        None => idle(pre, post, undo),
        Some((clip, written)) => exists|text: String, out: Option<String>|
            #![trigger call_ensures(write, (&pre.front().source, &clip, &text), out)]
            {
                &&& call_ensures(write, (&pre.front().source, &clip, &text), out)
                &&& text@ == short_number(written@)
                &&& seconds_committed(pre, clip@, out, now, post, undo)
            },
    }
}

/// Whether `s` holds the studio before and after each step of a frame, in
/// order, and `u` what each gave for the undo stack: deleting, renaming and
/// timing a clip.
pub open spec fn is_clip_frame<
    D: Fn(&String, &String) -> Option<String>,
    L: Fn(&String, &String) -> Option<Span>,
    W: Fn(&String, &String, &String) -> Option<String>,
>(
    host: (D, L, W),
    c: ClipClicks,
    now: u64,
    s: Seq<MogenStudioApp>,
    u: Seq<Option<UndoStep>>,
) -> bool {
    &&& s.len() == 4
    &&& u.len() == 3
    &&& named_edit(host.0, s[0], SourceEdit::DeleteClip, c.delete, now, s[1], u[0])
    &&& clip_rename_step(host.1, s[1], c.rename, now, s[2], u[1])
    &&& seconds_step(host.2, s[2], c.seconds, now, s[3], u[2])
}

/// Whether a frame of clicks leads from one studio to another, and what it
/// gives for the undo stack.
pub open spec fn clip_frame_done<
    D: Fn(&String, &String) -> Option<String>,
    L: Fn(&String, &String) -> Option<Span>,
    W: Fn(&String, &String, &String) -> Option<String>,
>(
    host: (D, L, W),
    c: ClipClicks,
    now: u64,
    pre: MogenStudioApp,
    post: MogenStudioApp,
    undo: Seq<UndoStep>,
) -> bool {
    exists|s: Seq<MogenStudioApp>, u: Seq<Option<UndoStep>>| #[trigger]
        is_clip_frame(host, c, now, s, u) && s[0] == pre && s[3] == post && undo == entries(u)
}

impl MogenStudioApp {
    fn rename_clip_asked<F: Fn(&String, &String) -> Option<Span>>(
        &mut self,
        rename: &Option<(String, String)>,
        find: F,
        now: u64,
    ) -> (undo: Option<UndoStep>)
        requires
            old(self).wf(),
            forall|s: &String, n: &String| call_requires(find, (s, n)),
        ensures
            final(self).wf(),
            clip_rename_step(find, *old(self), *rename, now, *final(self), undo),
    {
        match rename {
            None => None,
            Some((from, to)) => {
                let span = find(&self.active().source, from);
                self.rename_clip(span, from.as_str(), to.as_str(), now)
            },
        }
    }

    fn write_seconds<F: Fn(&String, &String, &String) -> Option<String>>(
        &mut self,
        seconds: &Option<(String, String)>,
        write: F,
        now: u64,
    ) -> (undo: Option<UndoStep>)
        requires
            old(self).wf(),
            forall|s: &String, n: &String, t: &String| call_requires(write, (s, n, t)),
        ensures
            final(self).wf(),
            seconds_step(write, *old(self), *seconds, now, *final(self), undo),
    {
        match seconds {
            None => None,
            Some((clip, written)) => {
                let text = seconds_text(written.as_str());
                let out = write(&self.active().source, clip, &text);
                self.commit_clip_seconds(clip.as_str(), out, now)
            },
        }
    }

    /// Does what was asked for in one frame of the list of clips, in order.
    /// `host` holds what is done to a source: deleting a clip; looking one up;
    /// and writing its duration. Each gives nothing when the clip has no
    /// declaration there. Returns the entries for the undo stack.
    pub fn apply_clip_clicks<
        D: Fn(&String, &String) -> Option<String>,
        L: Fn(&String, &String) -> Option<Span>,
        W: Fn(&String, &String, &String) -> Option<String>,
    >(&mut self, c: &ClipClicks, host: (D, L, W), now: u64) -> (r: Vec<UndoStep>)
        requires
            old(self).wf(),
            forall|s: &String, n: &String| call_requires(host.0, (s, n)),
            forall|s: &String, n: &String| call_requires(host.1, (s, n)),
            forall|s: &String, n: &String, t: &String| call_requires(host.2, (s, n, t)),
        ensures
            final(self).wf(),
            clip_frame_done(host, *c, now, *old(self), *final(self), r@),
    {
        let ghost s0 = *self;
        let mut undo: Vec<UndoStep> = Vec::new();
        let u0 = self.edit_named(&SourceEdit::DeleteClip, &c.delete, host.0, now);
        let ghost (s1, g0) = (*self, u0);
        collect(&mut undo, u0, Ghost(Seq::empty()));
        let u1 = self.rename_clip_asked(&c.rename, host.1, now);
        let ghost (s2, g1) = (*self, u1);
        collect(&mut undo, u1, Ghost(Seq::empty().push(g0)));
        let u2 = self.write_seconds(&c.seconds, host.2, now);
        let ghost (s3, g2) = (*self, u2);
        collect(&mut undo, u2, Ghost(Seq::empty().push(g0).push(g1)));
        proof {
            let s = seq![s0, s1, s2, s3];
            let u = Seq::empty().push(g0).push(g1).push(g2);
            assert(is_clip_frame(host, *c, now, s, u));
        }
        undo
    }
}

// ---- laws ------------------------------------------------------------------

/// Adding a clip takes a name that no clip of its kind has anywhere in the
/// source, and once the declaration stands behind the source, after the blanks
/// `gap`, the next clip of the kind gets a number one higher. The kind and the
/// target hold no quotes.
pub proof fn law_new_clips_never_share_a_name(
    src: Seq<char>,
    gap: Seq<char>,
    kind: Seq<char>,
    target: Seq<char>,
)
    requires
        largest_number(src, kind) < u32::MAX,
        blank(gap),
        (src + gap).len() == 0 || !is_word_char((src + gap).last()),
        !kind.contains('"'),
        !target.contains('"'),
        trimmed(target).len() > 0,
    ensures
        forall|i: int| #[trigger] declared_name(src, kind, i) != Some(next_name(src, kind)),
        next_name(src + gap + new_clip(kind, next_name(src, kind), trimmed(target)), kind)
            == numbered_name(kind, largest_number(src, kind) + 2),
{
    let name = next_name(src, kind);
    let t = trimmed(target);
    let rest = " (target=\""@ + t + "\")"@;
    assert forall|i: int| #[trigger] declared_name(src, kind, i) != Some(name) by {
        law_next_name_is_fresh(src, kind, i);
    }
    lemma_trimmed(target);
    reveal_strlit(" \"");
    reveal_strlit("\" (target=\"");
    reveal_strlit(" (target=\"");
    reveal_strlit("\")");
    let added = src + gap + new_clip(kind, name, t);
    assert(added =~= with_declaration(src, gap, kind, name, rest));
    assert(no_names(rest)) by {
        assert forall|i: int| 0 <= i < rest.len() && #[trigger] rest[i] == '"' implies i > 0
            && !is_space(rest[i - 1]) by {
            if 10 <= i < 10 + t.len() {
                assert(rest[i] == t[i - 10]);
                assert(target.contains(t[i - 10]));
            } else if i == 10 + t.len() {
                assert(rest[i - 1] == t.last());
            }
        }
    }
    law_adding_counts_up(src, gap, kind, rest);
}

/// A clip is deleted by two clicks on its own button in a row, and by no
/// fewer: a click on another button, or anywhere else, starts over.
pub proof fn law_deleting_takes_two_clicks(
    waiting: Option<Seq<char>>,
    first: Seq<char>,
    second: Seq<char>,
)
    requires
        !deletes_clip(waiting, first),
    ensures
        deletes_clip(waiting_after(waiting, first), second) == (first == second),
        waiting_after(waiting_after(waiting, first), first) is None,
        !deletes_clip(None, first),
{
}

/// Taking the zeros off the end of a number never touches its whole part.
pub proof fn law_short_numbers_keep_the_whole(whole: Seq<char>, decimals: Seq<char>)
    requires
        whole.len() > 0,
        whole.last() != '.',
        forall|i: int| 0 <= i < decimals.len() ==> #[trigger] decimals[i] != '.',
    ensures
        whole.is_prefix_of(short_number(whole.push('.') + decimals)),
    decreases decimals.len(),
{
    let text = whole.push('.') + decimals;
    if decimals.len() == 0 {
        assert(text =~= whole.push('.'));
        assert(text.last() == '.');
        assert(without_back(text, '0') == text);
        assert(text.drop_last() =~= whole);
        assert(without_back(text, '.') == without_back(whole, '.'));
        assert(without_back(whole, '.') == whole);
    } else if decimals.last() == '0' {
        assert(text.last() == '0');
        assert(text.drop_last() =~= whole.push('.') + decimals.drop_last());
        assert(without_back(text, '0') == without_back(text.drop_last(), '0'));
        law_short_numbers_keep_the_whole(whole, decimals.drop_last());
    } else {
        assert(text.last() != '0' && text.last() != '.');
        assert(without_back(text, '0') == text);
        assert(without_back(text, '.') == text);
        assert(text.take(whole.len() as int) =~= whole);
    }
}

/// The first click on a delete button waits and the second deletes; a click on
/// another button, or elsewhere, makes it wait anew. Nothing else changes.
pub proof fn law_delete_button_waits_for_the_second_click(
    app: &mut MogenStudioApp,
    clip: &str,
    delete: bool,
    pending: bool,
)
    requires
        call_ensures(MogenStudioApp::click_delete_clip, (app, clip), delete),
        call_ensures(MogenStudioApp::delete_pending, (&*old(app), clip), pending),
    ensures
        pending <==> (old(app).clip_delete_pending matches Some(c) && c@ == clip@),
        delete <==> pending,
        delete ==> final(app).clip_delete_pending is None,
        !delete ==> (final(app).clip_delete_pending matches Some(c) && c@ == clip@),
        final(app).files == old(app).files && final(app).selected == old(app).selected,
{
}

/// A click elsewhere takes every waiting button back.
pub proof fn law_click_elsewhere_takes_it_back(
    app: &mut MogenStudioApp,
    clip: &str,
    pending: bool,
)
    requires
        call_ensures(MogenStudioApp::click_elsewhere, (app,), ()),
        call_ensures(MogenStudioApp::delete_pending, (&*final(app), clip), pending),
    ensures
        !pending,
        final(app).files == old(app).files,
{
}

/// A speed is paused near zero, backwards below it, real time at one, and fast
/// above it; anything else is slow. The reset is offered away from one.
pub proof fn law_speed_tags(speed: u32, tag: &'static str, reset: bool)
    requires
        call_ensures(speed_tag, (speed,), tag),
        call_ensures(offers_speed_reset, (speed,), reset),
    ensures
        speed < 0x3ba3_d70a || 0x8000_0000 <= speed < 0xbba3_d70a ==> tag@ == "paused"@,
        0xbba3_d70a <= speed <= 0xff80_0000 ==> tag@ == "reverse"@,
        speed == 0x3f80_0000 || speed == 0x3f7f_ffff ==> tag@ == "real time"@ && !reset,
        0x3f80_0000 < speed <= 0x7f80_0000 ==> tag@ == "fast"@,
        0x3ba3_d70a <= speed < 0x3f7f_ffff ==> tag@ == "slow"@,
        reset <==> speed != 0x3f80_0000 && speed != 0x3f7f_ffff,
{
}

/// A new clip is of the picked kind, under the next free name, and for the
/// typed target without the blanks around it; what `append` makes of the
/// source with it is committed.
pub proof fn law_added_clip_is_committed<F: Fn(&String, &String) -> String>(
    app: &mut MogenStudioApp,
    append: F,
    now: u64,
    undo: Option<UndoStep>,
)
    requires
        old(app).wf(),
        call_ensures(MogenStudioApp::add_clip::<F>, (app, append, now), undo),
    ensures
        exists|declaration: String, source: String|
            #![trigger call_ensures(append, (&old(app).files@[old(app).active as int].source, &declaration), source)]
            {
                &&& call_ensures(
                    append,
                    (&old(app).files@[old(app).active as int].source, &declaration),
                    source,
                )
                &&& declaration@ == old(app).add_clip_kind@ + " \""@ + next_name(
                    old(app).files@[old(app).active as int].source@,
                    old(app).add_clip_kind@,
                ) + "\" (target=\""@ + trimmed(old(app).add_clip_target@) + "\")"@
                &&& source_taken(*old(app), source@, *final(app), undo)
            },
        *final(app) == (MogenStudioApp { files: final(app).files, ..*old(app) }),
{
    let (declaration, source) = choose|declaration: String, source: String|
        #![trigger call_ensures(append, (&old(app).front().source, &declaration), source)]
        {
            &&& call_ensures(append, (&old(app).front().source, &declaration), source)
            &&& declaration@ == new_clip(
                old(app).add_clip_kind@,
                next_name(old(app).front().source@, old(app).add_clip_kind@),
                trimmed(old(app).add_clip_target@),
            )
            &&& front_committed(*old(app), SourceEdit::AddClip, source, now, *final(app), undo)
        };
    assert(call_ensures(
        append,
        (&old(app).files@[old(app).active as int].source, &declaration),
        source,
    ));
}

/// A clip can be added when a target was typed that is not all blank.
pub proof fn law_new_clip_needs_a_target(app: &MogenStudioApp, r: bool)
    requires
        call_ensures(MogenStudioApp::can_add_clip, (app,), r),
    ensures
        r <==> trimmed(app.add_clip_target@).len() > 0,
{
}

/// Renaming a clip commits the source that renaming its declaration gives, and
/// takes the draft of the old name, and of no other, away. A clip without a
/// declaration is left alone.
pub proof fn law_renamed_clip_is_committed(
    app: &mut MogenStudioApp,
    span: Option<Span>,
    old_name: &str,
    new_name: &str,
    now: u64,
    undo: Option<UndoStep>,
    renamed_source: String,
    other: Seq<char>,
)
    requires
        old(app).wf(),
        call_ensures(MogenStudioApp::rename_clip, (app, span, old_name, new_name, now), undo),
        span matches Some(s) ==> exists|src: &str|
            #![trigger src@]
            src@ == old(app).files@[old(app).active as int].source@ && call_ensures(
                rewrite_node_name_literal,
                (src, s, new_name),
                renamed_source,
            ),
    ensures
        span is None ==> *final(app) == *old(app) && undo is None,
        span is Some ==> source_taken(*old(app), renamed_source@, *final(app), undo),
        undo is Some ==> !final(app).clip_name_drafts@.contains_key(old_name@),
        other != old_name@ ==> final(app).clip_name_drafts@.contains_key(other) == old(app).clip_name_drafts@.contains_key(other),
        final(app).selected == old(app).selected && final(app).wizard == old(app).wizard,
{
    if let Some(s) = span {
        let source = choose|source: String| #[trigger]
            is_clip_renamed(old(app).front().source@, s, new_name@, source@) && {
                &&& committed(
                    old(app).front(),
                    SourceEdit::RenameClip,
                    source,
                    now,
                    final(app).front(),
                    undo,
                )
                &&& final(app).files@ == old(app).files@.update(
                    old(app).active as int,
                    final(app).front(),
                )
                &&& *final(app) == (MogenStudioApp {
                    files: final(app).files,
                    clip_name_drafts: final(app).clip_name_drafts,
                    ..*old(app)
                })
                &&& final(app).clip_name_drafts@ == if undo is Some {
                    old(app).clip_name_drafts@.remove(old_name@)
                } else {
                    old(app).clip_name_drafts@
                }
            };
        encode_utf8_decode_utf8(source@);
        encode_utf8_decode_utf8(renamed_source@);
        assert(source@ == renamed_source@);
    }
}

/// A source with a new duration is committed, and the draft of that duration,
/// and of no other, goes; without one nothing happens.
pub proof fn law_new_duration_is_committed(
    app: &mut MogenStudioApp,
    clip: &str,
    edited: Option<String>,
    now: u64,
    undo: Option<UndoStep>,
    key: String,
    other: Seq<char>,
)
    requires
        old(app).wf(),
        call_ensures(MogenStudioApp::commit_clip_seconds, (app, clip, edited, now), undo),
        call_ensures(duration_draft_key, (clip,), key),
    ensures
        edited is None ==> *final(app) == *old(app) && undo is None,
        edited matches Some(source) ==> source_taken(*old(app), source@, *final(app), undo),
        undo is Some ==> !final(app).clip_duration_drafts@.contains_key(key@),
        other != key@ ==> final(app).clip_duration_drafts@.contains_key(other) == old(app).clip_duration_drafts@.contains_key(other),
        final(app).clip_name_drafts == old(app).clip_name_drafts,
        key@ == clip@ + "::dur"@,
{
}

/// A written number loses zeros, and then dots, off its end and nothing else;
/// what is left ends in neither a dot nor, behind decimals, a zero.
pub proof fn law_written_seconds_lose_only_the_zeros(text: &str, r: String, i: int)
    requires
        call_ensures(seconds_text, (text,), r),
        r@.len() <= i < text@.len(),
    ensures
        r@.is_prefix_of(text@),
        text@[i] == '0' || text@[i] == '.',
        r@.len() > 0 ==> r@.last() != '.',
{
    let a = without_back(text@, '0');
    let n = lemma_drop_back(text@, only('0'));
    let m = lemma_drop_back(a, only('.'));
    assert(r@ =~= text@.take(m));
    if i >= n {
        assert(only('0')(text@[i]));
    } else {
        assert(only('.')(a[i]));
    }
}

/// Every clip has an entry: its own from the list, or the default behind its
/// end.
pub proof fn law_every_clip_has_an_entry<T: Copy>(
    list: &Vec<T>,
    clips: usize,
    default: T,
    r: Vec<T>,
    i: int,
)
    requires
        call_ensures(one_per_clip::<T>, (list, clips, default), r),
        0 <= i < clips,
    ensures
        r@.len() == clips,
        i < list@.len() ==> r@[i] == list@[i],
        i >= list@.len() ==> r@[i] == default,
{
}

/// The panel lists exactly the clips that the file declares itself or that
/// come from the file of the selected node, and it is there for a scene with
/// such a clip.
pub proof fn law_clip_panel_lists_what_is_at_hand(
    app: &MogenStudioApp,
    clips: &Vec<Clip>,
    r: Vec<usize>,
    c: int,
)
    requires
        app.wf(),
        call_ensures(MogenStudioApp::ui_animation, (app, clips), r),
        0 <= c < clips@.len(),
    ensures
        clips@[c].origin is None ==> exists|k: int| 0 <= k < r@.len() && #[trigger] r@[k] == c,
        (exists|k: int| 0 <= k < r@.len() && #[trigger] r@[k] == c) ==> (
        clips@[c].origin matches Some(p) ==> shown_import(*app) == Some(p@)),
        app.selected@.len() == 0 && clips@[c].origin is Some ==> !(exists|k: int|
            0 <= k < r@.len() && #[trigger] r@[k] == c),
{
    let p = clip_listed(clips@, shown_import(*app));
    let all = places(p, clips@.len());
    lemma_places(p, clips@.len());
    assert(forall|k: int| 0 <= k < r@.len() ==> #[trigger] as_places(r@)[k] == r@[k] as int);
    if exists|k: int| 0 <= k < r@.len() && #[trigger] r@[k] == c {
        let k = choose|k: int| 0 <= k < r@.len() && #[trigger] r@[k] == c;
        assert(as_places(r@)[k] == c);
        assert(p(all[k]));
    }
    if p(c) {
        assert(all.contains(c));
        let k = choose|k: int| 0 <= k < all.len() && all[k] == c;
        assert(as_places(r@)[k] == r@[k] as int);
    }
}

/// A frame in which only one thing was clicked does that thing: it deletes the
/// clip that was clicked, or writes the new duration of the clip into the
/// source. A frame without clicks changes nothing.
pub proof fn law_single_clip_click_is_carried_out<
    D: Fn(&String, &String) -> Option<String>,
    L: Fn(&String, &String) -> Option<Span>,
    W: Fn(&String, &String, &String) -> Option<String>,
>(app: &mut MogenStudioApp, c: &ClipClicks, host: (D, L, W), now: u64, r: Vec<UndoStep>)
    requires
        old(app).wf(),
        call_ensures(MogenStudioApp::apply_clip_clicks::<D, L, W>, (app, c, host, now), r),
    ensures
        c.delete is None && c.rename is None && c.seconds is None ==> *final(app) == *old(app)
            && r@.len() == 0,
        c.rename is None && c.seconds is None ==> (c.delete matches Some(n) ==> (exists|out: Option<
            String,
        >| #[trigger]
            call_ensures(host.0, (&old(app).front().source, &n), out) && edit_taken(
                *old(app),
                out,
                *final(app),
                r@,
            ))),
        c.delete is None && c.rename is None ==> (c.seconds matches Some((clip, written)) ==> (
        exists|text: String, out: Option<String>| #[trigger]
            call_ensures(host.2, (&old(app).front().source, &clip, &text), out) && text@
                == short_number(written@) && (out matches Some(s) ==> final(app).front().source@
                == s@) && (out is None ==> final(app).front().source == old(app).front().source))),
        c.delete is None && c.seconds is None ==> (c.rename matches Some((from, to)) ==> (
        exists|span: Option<Span>| #[trigger]
            call_ensures(host.1, (&old(app).front().source, &from), span) && (span is None
                ==> final(app).front().source == old(app).front().source))),
{
    let (s, u) = choose|s: Seq<MogenStudioApp>, u: Seq<Option<UndoStep>>| #[trigger]
        is_clip_frame(host, *c, now, s, u) && s[0] == *old(app) && s[3] == *final(app) && r@
            == entries(u);
    if c.delete is None && c.rename is None && c.seconds is None {
        lemma_no_entry(u);
    }
    if c.rename is None && c.seconds is None {
        lemma_one_entry(u, 0);
        if let Some(n) = c.delete {
            lemma_named_edit_taken(host.0, s[0], SourceEdit::DeleteClip, n, now, s[1], u[0]);
        }
    }
}

/// The five templates, each under its own kind.
pub proof fn law_templates_are_the_five(r: Vec<ClipTemplate>)
    requires
        call_ensures(all_clip_templates, (), r),
    ensures
        r@.len() == 5,
        r@[0].kind@ == "spin"@ && r@[1].kind@ == "open_close"@ && r@[2].kind@ == "wave"@
            && r@[3].kind@ == "flap"@ && r@[4].kind@ == "idle"@,
        r@[0].label@ == "spin (rotation about an axis)"@,
        r@[1].label@ == "open_close (hinge swing)"@,
        r@[2].label@ == "wave (oscillation)"@,
        r@[3].label@ == "flap (one-direction oscillation)"@,
        r@[4].label@ == "idle (subtle bob)"@,
{
}

/// The panel opens exactly for a scene with a clip of this file, or one of the
/// import that the selected node comes from.
pub proof fn law_panel_opens_for_a_clip_at_hand(
    app: &MogenStudioApp,
    r: bool,
    s: SceneGraph,
    c: int,
)
    requires
        app.wf(),
        call_ensures(MogenStudioApp::has_visible_clips, (app,), r),
        app.front().last_result matches Some(b) && b.scene == Some(s),
        0 <= c < s.clips@.len(),
        s.clips@[c].origin matches Some(o) ==> app.selected@.len() > 0 && app.selected@.last()
            < s.nodes@.len() && (s.nodes@[app.selected@.last() as int].origin matches Some(p) && p@
            == o@),
    ensures
        r,
{
    assert(in_view(s.clips@[c].origin, import_in_view(s, app.primary())));
}

} // verus!
