//! The source editor: what it does in a frame, and what typing does to the
//! file.

use vstd::prelude::*;
use vstd::string::*;
use vstd::utf8::*;

use crate::edits::with_source;
use crate::rewrite::{clipped, lemma_encode_concat};
use crate::studio::{MogenStudioApp, OpenFile};
use crate::text::{chars_of, str_eq};

verus! {

/// What the editor does in a frame, in the order of the fields.
#[derive(Clone, Copy, Debug, PartialEq, Eq, Structural)]
pub struct EditorPlan {
    /// Closes the completions and drops all carets but one: the source is
    /// about to be replaced.
    pub yields: bool,
    /// Searches again and shows the find bar.
    pub finds: bool,
    /// Hands key strokes to all carets.
    pub fans_out: bool,
    /// Lets the text be edited.
    pub interactive: bool,
    /// Follows links on a click.
    pub follows_links: bool,
    /// Refreshes the completions.
    pub completes: bool,
}

impl MogenStudioApp {
    /// What the editor does in this frame. While a model call is out for the
    /// file it will replace the source, so nothing may be typed.
    pub fn ui_editor(&self, find_open: bool) -> (r: EditorPlan)
        requires
            self.wf(),
        ensures
            r == (EditorPlan {
                yields: self.front().llm_in_flight,
                finds: find_open,
                fans_out: !self.front().llm_in_flight,
                interactive: !self.front().llm_in_flight,
                follows_links: !self.front().llm_in_flight,
                completes: !self.front().llm_in_flight,
            }),
    {
        let generating = self.active().llm_in_flight;
        EditorPlan {
            yields: generating,
            finds: find_open,
            fans_out: !generating,
            interactive: !generating,
            follows_links: !generating,
            completes: !generating,
        }
    }

    /// Takes over what was typed into the file in the foreground. Typing has
    /// an undo of its own; later edits must not merge with earlier ones.
    pub fn note_typing(&mut self, typed: String, now: u64)
        requires
            old(self).wf(),
        ensures
            final(self).wf(),
            *final(self) == (MogenStudioApp { files: final(self).files, ..*old(self) }),
            final(self).files@ == old(self).files@.update(
                old(self).active as int,
                with_source(old(self).front(), typed, now),
            ),
    {
        let i = self.active;
        self.files[i].dirty = !str_eq(typed.as_str(), self.files[i].last_saved_source.as_str());
        self.files[i].source = typed;
        self.files[i].needs_compile = true;
        self.files[i].last_edit_at = Some(now);
        assert(self.files@ =~= old(self).files@.update(
            old(self).active as int,
            with_source(old(self).front(), typed, now),
        ));
    }

    /// The place that the caret is to jump to; it jumps once.
    pub fn take_pending_caret(&mut self) -> (r: Option<usize>)
        requires
            old(self).wf(),
        ensures
            final(self).wf(),
            r == old(self).front().pending_caret,
            *final(self) == (MogenStudioApp { files: final(self).files, ..*old(self) }),
            final(self).files@ == old(self).files@.update(
                old(self).active as int,
                OpenFile { pending_caret: None, ..old(self).front() },
            ),
    {
        let i = self.active;
        let r = self.files[i].pending_caret;
        self.files[i].pending_caret = None;
        r
    }
}

/// Whether a click with the other button puts back the selection that was
/// there before: it does over the text, if anything was selected. `prior` is
/// the selection's two ends.
pub fn restores_selection(hovered: bool, pressed: bool, prior: Option<(usize, usize)>) -> (r: bool)
    ensures
        r == (hovered && pressed && match prior {
            Some((a, b)) => a != b,
            None => false,
        }),
{
    hovered && pressed && match prior {
        Some((a, b)) => a != b,
        None => false,
    }
}

/// Whether `n` characters of `s` take the first `bytes` bytes of it.
pub open spec fn chars_in(s: Seq<char>, bytes: int, n: int) -> bool {
    0 <= n <= s.len() && encode_utf8(s.take(n)) == encode_utf8(s).take(bytes)
}

/// The place of a byte offset in characters; beyond the end it is the end.
pub fn caret_index(src: &str, offset: usize) -> (r: usize)
    requires
        is_char_boundary(encode_utf8(src@), clipped(offset, encode_utf8(src@).len())),
    ensures
        chars_in(src@, clipped(offset, encode_utf8(src@).len()), r as int),
{
    let ghost b = encode_utf8(src@);
    let len = src.as_bytes().len();
    let at = if offset <= len {
        offset
    } else {
        len
    };
    proof {
        encode_utf8_valid_utf8(src@);
    }
    let (before, after) = src.split_at(at);
    let r = chars_of(before).len();
    proof {
        lemma_encode_concat(before@, after@);
        assert(encode_utf8(before@) + encode_utf8(after@) =~= b);
        encode_utf8_decode_utf8(src@);
        encode_utf8_decode_utf8(before@ + after@);
        assert(src@ == before@ + after@);
        assert(src@.take(r as int) =~= before@);
        assert(encode_utf8(before@) =~= b.take(at as int));
    }
    r
}

// ---- what the editor guarantees --------------------------------------------

/// Nothing can be typed while a model call is out for the file, and everything
/// can when none is.
pub proof fn law_editor_is_locked_while_generating(
    app: &MogenStudioApp,
    find_open: bool,
    r: EditorPlan,
)
    requires
        app.wf(),
        call_ensures(MogenStudioApp::ui_editor, (app, find_open), r),
    ensures
        app.front().llm_in_flight ==> r.yields && !r.interactive && !r.fans_out && !r.follows_links
            && !r.completes,
        !app.front().llm_in_flight ==> !r.yields && r.interactive && r.fans_out && r.follows_links
            && r.completes,
        r.finds == find_open,
{
}

/// What was typed is the source; it counts as unsaved unless it is what was
/// saved last, and it is compiled again. The other files stay.
pub proof fn law_typed_text_is_the_source(app: &mut MogenStudioApp, typed: String, now: u64)
    requires
        old(app).wf(),
        call_ensures(MogenStudioApp::note_typing, (app, typed, now), ()),
    ensures
        final(app).front().source@ == typed@,
        final(app).front().dirty <==> typed@ != old(app).front().last_saved_source@,
        final(app).front().last_saved_source == old(app).front().last_saved_source,
        final(app).front().path == old(app).front().path,
        final(app).front().needs_compile,
        final(app).front().last_edit_at == Some(now),
        final(app).active == old(app).active,
        final(app).files@.len() == old(app).files@.len(),
        forall|j: int|
            0 <= j < old(app).files@.len() && j != old(app).active ==> #[trigger] final(
                app).files@[j] == old(app).files@[j],
{
}

/// The caret jumps once: the place is handed out and is gone afterwards.
pub proof fn law_caret_jumps_once(
    app: &mut MogenStudioApp,
    r: Option<usize>,
    again: &mut MogenStudioApp,
    then: Option<usize>,
)
    requires
        old(app).wf(),
        call_ensures(MogenStudioApp::take_pending_caret, (app,), r),
        *old(again) == *final(app),
        call_ensures(MogenStudioApp::take_pending_caret, (again,), then),
    ensures
        r == old(app).front().pending_caret,
        then is None,
        final(app).front().source == old(app).front().source,
        final(app).active == old(app).active,
{
}

/// The caret of the byte that follows a text stands after the characters of
/// that text.
pub proof fn law_caret_follows_the_text(
    src: &str,
    before: Seq<char>,
    after: Seq<char>,
    offset: usize,
    r: usize,
)
    requires
        src@ == before + after,
        offset == encode_utf8(before).len(),
        call_ensures(caret_index, (src, offset), r),
    ensures
        r == before.len(),
{
    lemma_encode_concat(before, after);
    let b = encode_utf8(src@);
    assert(b.take(offset as int) =~= encode_utf8(before));
    encode_utf8_decode_utf8(before);
    encode_utf8_decode_utf8(src@.take(r as int));
    assert(src@.take(r as int) == before);
}

/// A click with the other button puts the selection back only over the text,
/// and only where something was selected.
pub proof fn law_selection_survives_the_other_button(
    hovered: bool,
    pressed: bool,
    prior: Option<(usize, usize)>,
    r: bool,
)
    requires
        call_ensures(restores_selection, (hovered, pressed, prior), r),
    ensures
        !hovered || !pressed || prior is None ==> !r,
        prior matches Some((a, b)) ==> (a == b ==> !r) && (hovered && pressed && a != b ==> r),
{
}

} // verus!
