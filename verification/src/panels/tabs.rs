//! The strip of tabs, one for each open file.

use vstd::prelude::*;

use crate::studio::{MogenStudioApp, OpenFile};
use crate::text::{cat2, cat3, clone_opt, opt_view};

verus! {

/// The label of a tab: its name, with a dot in front when it has unsaved
/// changes and an arrow behind while a model call is out.
pub open spec fn label_of(f: OpenFile, name: Seq<char>) -> Seq<char> {
    (if f.dirty {
        "• "@
    } else {
        ""@
    }) + name + if f.llm_in_flight {
        " ⟳"@
    } else {
        ""@
    }
}

/// The label of a tab. `name` is how the file is shown.
pub fn tab_label(f: &OpenFile, name: &str) -> (r: String)
    ensures
        r@ == label_of(*f, name@),
{
    let dot = if f.dirty {
        "• "
    } else {
        ""
    };
    let arrow = if f.llm_in_flight {
        " ⟳"
    } else {
        ""
    };
    cat3(dot, name, arrow)
}

/// What a tab says of itself; one with nothing to say has no text.
pub fn tab_hint(f: &OpenFile) -> (r: Option<&'static str>)
    ensures
        match r {
            Some(t) => t@ == if f.dirty && f.llm_in_flight {
                "• unsaved changes · ⟳ AI request in progress"@
            } else if f.dirty {
                "• unsaved changes — Cmd/Ctrl+S to save"@
            } else {
                "⟳ AI request in progress"@
            } && (f.dirty || f.llm_in_flight),
            None => !f.dirty && !f.llm_in_flight,
        },
{
    if f.dirty && f.llm_in_flight {
        Some("• unsaved changes · ⟳ AI request in progress")
    } else if f.dirty {
        Some("• unsaved changes — Cmd/Ctrl+S to save")
    } else if f.llm_in_flight {
        Some("⟳ AI request in progress")
    } else {
        None
    }
}

/// Which entries of a tab's menu can be used.
#[derive(Clone, Copy, Debug, PartialEq, Eq, Structural)]
pub struct TabMenu {
    /// Copying and revealing the path.
    pub has_path: bool,
    /// Closing the tabs to the right.
    pub has_right: bool,
    /// Closing the others.
    pub has_others: bool,
}

/// What was clicked on the strip in one frame.
pub struct TabClicks {
    pub new_file: bool,
    pub activate: Option<usize>,
    pub duplicate: Option<usize>,
    pub copy_path: Option<usize>,
    pub reveal: Option<usize>,
    pub close: Option<usize>,
    pub close_others: Option<usize>,
    pub close_right: Option<usize>,
    pub close_all: bool,
}

/// What is to be done for a click.
pub enum TabCommand {
    NewFile,
    Activate(usize),
    Duplicate(usize),
    CopyPath(String),
    Reveal(String),
    Close(usize),
    CloseOthers(usize),
    CloseRight(usize),
    CloseAll,
}

/// A command for a tab, as plain values.
pub enum TabStep {
    NewFile,
    Activate(int),
    Duplicate(int),
    CopyPath(Seq<char>),
    Reveal(Seq<char>),
    Close(int),
    CloseOthers(int),
    CloseRight(int),
    CloseAll,
}

impl View for TabCommand {
    type V = TabStep;

    open spec fn view(&self) -> TabStep {
        match self {
            TabCommand::NewFile => TabStep::NewFile,
            TabCommand::Activate(i) => TabStep::Activate(*i as int),
            TabCommand::Duplicate(i) => TabStep::Duplicate(*i as int),
            TabCommand::CopyPath(p) => TabStep::CopyPath(p@),
            TabCommand::Reveal(p) => TabStep::Reveal(p@),
            TabCommand::Close(i) => TabStep::Close(*i as int),
            TabCommand::CloseOthers(i) => TabStep::CloseOthers(*i as int),
            TabCommand::CloseRight(i) => TabStep::CloseRight(*i as int),
            TabCommand::CloseAll => TabStep::CloseAll,
        }
    }
}

/// One step, or none.
pub open spec fn step_if(b: bool, step: TabStep) -> Seq<TabStep> {
    if b {
        seq![step]
    } else {
        Seq::empty()
    }
}

/// The path of an open file.
pub open spec fn path_of(files: Seq<OpenFile>, tab: Option<usize>) -> Option<Seq<char>> {
    match tab {
        Some(i) => if i < files.len() {
            opt_view(files[i as int].path)
        } else {
            None
        },
        None => None,
    }
}

/// What the clicks of one frame do, in order: opening before closing, and a
/// path only where the file has one.
pub open spec fn steps(files: Seq<OpenFile>, c: TabClicks) -> Seq<TabStep> {
    step_if(c.new_file, TabStep::NewFile) + step_if(
        c.activate is Some,
        TabStep::Activate((c.activate->0) as int),
    ) + step_if(c.duplicate is Some, TabStep::Duplicate((c.duplicate->0) as int)) + step_if(
        path_of(files, c.copy_path) is Some,
        TabStep::CopyPath(path_of(files, c.copy_path)->0),
    ) + step_if(
        path_of(files, c.reveal) is Some,
        TabStep::Reveal(path_of(files, c.reveal)->0),
    ) + step_if(c.close is Some, TabStep::Close((c.close->0) as int)) + step_if(
        c.close_others is Some,
        TabStep::CloseOthers((c.close_others->0) as int),
    ) + step_if(c.close_right is Some, TabStep::CloseRight((c.close_right->0) as int)) + step_if(
        c.close_all,
        TabStep::CloseAll,
    )
}

/// The steps of a list of commands.
pub open spec fn steps_of(v: Seq<TabCommand>) -> Seq<TabStep> {
    v.map_values(|c: TabCommand| c@)
}

fn push_step(v: &mut Vec<TabCommand>, c: TabCommand)
    ensures
        steps_of(final(v)@) == steps_of(old(v)@) + seq![c@],
{
    let ghost before = v@;
    v.push(c);
    assert(steps_of(v@) =~= steps_of(before) + seq![c@]);
}

impl MogenStudioApp {
    /// Which entries of a tab's menu can be used.
    pub fn tab_menu(&self, i: usize) -> (r: TabMenu)
        requires
            i < self.files@.len(),
        ensures
            r == (TabMenu {
                has_path: self.files@[i as int].path is Some,
                has_right: i + 1 < self.files@.len(),
                has_others: self.files@.len() > 1,
            }),
    {
        TabMenu {
            has_path: self.files[i].path.is_some(),
            has_right: self.files.len() - i > 1,
            has_others: self.files.len() > 1,
        }
    }

    fn tab_path(&self, tab: Option<usize>) -> (r: Option<String>)
        ensures
            opt_view(r) == path_of(self.files@, tab),
    {
        match tab {
            Some(i) => if i < self.files.len() {
                clone_opt(&self.files[i].path)
            } else {
                None
            },
            None => None,
        }
    }

    /// What the clicks of one frame do, in order.
    pub fn ui_tabs(&self, c: &TabClicks) -> (r: Vec<TabCommand>)
        ensures
            steps_of(r@) == steps(self.files@, *c),
    {
        let mut v: Vec<TabCommand> = Vec::new();
        assert(steps_of(v@) =~= Seq::empty());
        if c.new_file {
            push_step(&mut v, TabCommand::NewFile);
        }
        if let Some(i) = c.activate {
            push_step(&mut v, TabCommand::Activate(i));
        }
        if let Some(i) = c.duplicate {
            push_step(&mut v, TabCommand::Duplicate(i));
        }
        if let Some(p) = self.tab_path(c.copy_path) {
            push_step(&mut v, TabCommand::CopyPath(p));
        }
        if let Some(p) = self.tab_path(c.reveal) {
            push_step(&mut v, TabCommand::Reveal(p));
        }
        if let Some(i) = c.close {
            push_step(&mut v, TabCommand::Close(i));
        }
        if let Some(i) = c.close_others {
            push_step(&mut v, TabCommand::CloseOthers(i));
        }
        if let Some(i) = c.close_right {
            push_step(&mut v, TabCommand::CloseRight(i));
        }
        if c.close_all {
            push_step(&mut v, TabCommand::CloseAll);
        }
        assert(steps_of(v@) =~= steps(self.files@, *c));
        v
    }

    /// Puts a text into the status line of the file in the foreground.
    pub fn set_status(&mut self, status: String)
        requires
            old(self).wf(),
        ensures
            final(self).wf(),
            *final(self) == (MogenStudioApp { files: final(self).files, ..*old(self) }),
            final(self).files@ == old(self).files@.update(
                old(self).active as int,
                OpenFile { status, ..old(self).front() },
            ),
    {
        let i = self.active;
        self.files[i].status = status;
    }
}

/// The status after a path was copied.
pub fn copied_status(path: &str) -> (r: String)
    ensures
        r@ == "copied path: "@ + path@,
{
    cat2("copied path: ", path)
}

// ---- what the strip guarantees ---------------------------------------------

/// A tab shows its name between the dot of unsaved changes and the arrow of a
/// model call, each only where it holds.
pub proof fn law_label_marks_the_tab(f: &OpenFile, name: &str, r: String)
    requires
        call_ensures(tab_label, (f, name), r),
    ensures
        f.dirty && f.llm_in_flight ==> r@ == "• "@ + name@ + " ⟳"@,
        f.dirty && !f.llm_in_flight ==> r@ == "• "@ + name@,
        !f.dirty && f.llm_in_flight ==> r@ == name@ + " ⟳"@,
        !f.dirty && !f.llm_in_flight ==> r@ == name@,
{
    reveal_strlit("");
    assert(f.dirty && !f.llm_in_flight ==> r@ =~= "• "@ + name@);
    assert(!f.dirty && f.llm_in_flight ==> r@ =~= name@ + " ⟳"@);
    assert(!f.dirty && !f.llm_in_flight ==> r@ =~= name@);
}

/// A tab without unsaved changes and without a model call says nothing; any
/// other says which of the two holds.
pub proof fn law_hint_tells_the_marks(f: &OpenFile, r: Option<&'static str>)
    requires
        call_ensures(tab_hint, (f,), r),
    ensures
        r is None <==> !f.dirty && !f.llm_in_flight,
        f.dirty && f.llm_in_flight ==> r->0@ == "• unsaved changes · ⟳ AI request in progress"@,
        f.dirty && !f.llm_in_flight ==> r->0@ == "• unsaved changes — Cmd/Ctrl+S to save"@,
        !f.dirty && f.llm_in_flight ==> r->0@ == "⟳ AI request in progress"@,
{
}

/// Whether a step is among the commands.
pub open spec fn asks(v: Seq<TabCommand>, step: TabStep) -> bool {
    exists|k: int| 0 <= k < v.len() && (#[trigger] v[k])@ == step
}

/// Whether a command answers a click, on the tab that was clicked.
pub open spec fn answers(c: TabCommand, clicks: TabClicks, files: Seq<OpenFile>) -> bool {
    match c {
        TabCommand::NewFile => clicks.new_file,
        TabCommand::Activate(i) => clicks.activate == Some(i),
        TabCommand::Duplicate(i) => clicks.duplicate == Some(i),
        TabCommand::CopyPath(p) => clicks.copy_path matches Some(i) && i < files.len() && (
        files[i as int].path matches Some(q) && q@ == p@),
        TabCommand::Reveal(p) => clicks.reveal matches Some(i) && i < files.len() && (
        files[i as int].path matches Some(q) && q@ == p@),
        TabCommand::Close(i) => clicks.close == Some(i),
        TabCommand::CloseOthers(i) => clicks.close_others == Some(i),
        TabCommand::CloseRight(i) => clicks.close_right == Some(i),
        TabCommand::CloseAll => clicks.close_all,
    }
}

/// Whether a command closes tabs.
pub open spec fn closes(c: TabCommand) -> bool {
    c is Close || c is CloseOthers || c is CloseRight || c is CloseAll
}

/// Every click is answered on the tab that was clicked.
pub proof fn law_every_click_is_answered(app: &MogenStudioApp, c: &TabClicks, r: Vec<TabCommand>)
    requires
        call_ensures(MogenStudioApp::ui_tabs, (app, c), r),
    ensures
        c.new_file ==> asks(r@, TabStep::NewFile),
        c.activate matches Some(i) ==> asks(r@, TabStep::Activate(i as int)),
        c.duplicate matches Some(i) ==> asks(r@, TabStep::Duplicate(i as int)),
        c.copy_path matches Some(i) ==> i < app.files@.len() ==> (
        app.files@[i as int].path matches Some(p) ==> asks(r@, TabStep::CopyPath(p@))),
        c.reveal matches Some(i) ==> i < app.files@.len() ==> (
        app.files@[i as int].path matches Some(p) ==> asks(r@, TabStep::Reveal(p@))),
        c.close matches Some(i) ==> asks(r@, TabStep::Close(i as int)),
        c.close_others matches Some(i) ==> asks(r@, TabStep::CloseOthers(i as int)),
        c.close_right matches Some(i) ==> asks(r@, TabStep::CloseRight(i as int)),
        c.close_all ==> asks(r@, TabStep::CloseAll),
{
    let files = app.files@;
    lemma_steps_hold(files, *c, TabStep::NewFile);
    lemma_steps_hold(files, *c, TabStep::Activate((c.activate->0) as int));
    lemma_steps_hold(files, *c, TabStep::Duplicate((c.duplicate->0) as int));
    lemma_steps_hold(files, *c, TabStep::CopyPath(path_of(files, c.copy_path)->0));
    lemma_steps_hold(files, *c, TabStep::Reveal(path_of(files, c.reveal)->0));
    lemma_steps_hold(files, *c, TabStep::Close((c.close->0) as int));
    lemma_steps_hold(files, *c, TabStep::CloseOthers((c.close_others->0) as int));
    lemma_steps_hold(files, *c, TabStep::CloseRight((c.close_right->0) as int));
    lemma_steps_hold(files, *c, TabStep::CloseAll);
    assert forall|t: TabStep| #[trigger] steps_of(r@).contains(t) implies asks(r@, t) by {
        let k = choose|k: int| 0 <= k < steps_of(r@).len() && steps_of(r@)[k] == t;
        assert(r@[k]@ == t);
    }
    assert(forall|t: TabStep| #[trigger]
        steps(files, *c).contains(t) ==> steps_of(r@).contains(t));
}

proof fn lemma_sum_holds(a: Seq<TabStep>, b: Seq<TabStep>, t: TabStep)
    ensures
        (a + b).contains(t) <==> a.contains(t) || b.contains(t),
{
    if a.contains(t) {
        let k = choose|k: int| 0 <= k < a.len() && a[k] == t;
        assert((a + b)[k] == t);
    }
    if b.contains(t) {
        let k = choose|k: int| 0 <= k < b.len() && b[k] == t;
        assert((a + b)[a.len() + k] == t);
    }
    if (a + b).contains(t) {
        let k = choose|k: int| 0 <= k < (a + b).len() && (a + b)[k] == t;
        if k < a.len() {
            assert(a[k] == t);
        } else {
            assert(b[k - a.len()] == t);
        }
    }
}

proof fn lemma_step_if(b: bool, step: TabStep, t: TabStep)
    ensures
        step_if(b, step).contains(t) <==> b && t == step,
{
    if b {
        assert(step_if(b, step)[0] == step);
    }
}

/// Which steps the clicks of one frame ask for.
proof fn lemma_steps_hold(files: Seq<OpenFile>, c: TabClicks, t: TabStep)
    ensures
        steps(files, c).contains(t) <==> {
            ||| c.new_file && t == TabStep::NewFile
            ||| c.activate is Some && t == TabStep::Activate((c.activate->0) as int)
            ||| c.duplicate is Some && t == TabStep::Duplicate((c.duplicate->0) as int)
            ||| path_of(files, c.copy_path) is Some && t == TabStep::CopyPath(
                path_of(files, c.copy_path)->0,
            )
            ||| path_of(files, c.reveal) is Some && t == TabStep::Reveal(
                path_of(files, c.reveal)->0,
            )
            ||| c.close is Some && t == TabStep::Close((c.close->0) as int)
            ||| c.close_others is Some && t == TabStep::CloseOthers((c.close_others->0) as int)
            ||| c.close_right is Some && t == TabStep::CloseRight((c.close_right->0) as int)
            ||| c.close_all && t == TabStep::CloseAll
        },
{
    let copy = path_of(files, c.copy_path);
    let reveal = path_of(files, c.reveal);
    let s = step_if(c.new_file, TabStep::NewFile);
    lemma_step_if(c.new_file, TabStep::NewFile, t);
    let s = lemma_one_more(s, c.activate is Some, TabStep::Activate((c.activate->0) as int), t);
    let s = lemma_one_more(s, c.duplicate is Some, TabStep::Duplicate((c.duplicate->0) as int), t);
    let s = lemma_one_more(s, copy is Some, TabStep::CopyPath(copy->0), t);
    let s = lemma_one_more(s, reveal is Some, TabStep::Reveal(reveal->0), t);
    let s = lemma_one_more(s, c.close is Some, TabStep::Close((c.close->0) as int), t);
    let s = lemma_one_more(
        s,
        c.close_others is Some,
        TabStep::CloseOthers((c.close_others->0) as int),
        t,
    );
    let s = lemma_one_more(
        s,
        c.close_right is Some,
        TabStep::CloseRight((c.close_right->0) as int),
        t,
    );
    let s = lemma_one_more(s, c.close_all, TabStep::CloseAll, t);
    assert(s == steps(files, c));
}

proof fn lemma_one_more(a: Seq<TabStep>, b: bool, step: TabStep, t: TabStep) -> (s: Seq<TabStep>)
    ensures
        s == a + step_if(b, step),
        s.contains(t) <==> a.contains(t) || b && t == step,
{
    lemma_sum_holds(a, step_if(b, step), t);
    lemma_step_if(b, step, t);
    a + step_if(b, step)
}

/// Whether a step closes tabs.
spec fn shuts(t: TabStep) -> bool {
    t is Close || t is CloseOthers || t is CloseRight || t is CloseAll
}

/// Whether the steps of a list that close tabs are those from `n` on.
spec fn shuts_from(s: Seq<TabStep>, n: int) -> bool {
    forall|j: int| 0 <= j < s.len() ==> (shuts(#[trigger] s[j]) <==> n <= j)
}

proof fn lemma_opens_first(a: Seq<TabStep>, b: bool, step: TabStep) -> (s: Seq<TabStep>)
    requires
        shuts_from(a, a.len() as int),
        !shuts(step),
    ensures
        s == a + step_if(b, step),
        shuts_from(s, s.len() as int),
{
    let s = a + step_if(b, step);
    assert forall|j: int| 0 <= j < s.len() implies !shuts(#[trigger] s[j]) by {
        if j < a.len() {
            assert(s[j] == a[j]);
        }
    }
    s
}

proof fn lemma_shuts_last(a: Seq<TabStep>, n: int, b: bool, step: TabStep) -> (s: Seq<TabStep>)
    requires
        n <= a.len(),
        shuts_from(a, n),
        shuts(step),
    ensures
        s == a + step_if(b, step),
        n <= s.len(),
        shuts_from(s, n),
{
    let s = a + step_if(b, step);
    assert forall|j: int| 0 <= j < s.len() implies (shuts(#[trigger] s[j]) <==> n <= j) by {
        if j < a.len() {
            assert(s[j] == a[j]);
        }
    }
    s
}

/// Where the steps that close tabs begin.
proof fn lemma_closing_comes_last(files: Seq<OpenFile>, c: TabClicks) -> (n: int)
    ensures
        shuts_from(steps(files, c), n),
{
    let copy = path_of(files, c.copy_path);
    let reveal = path_of(files, c.reveal);
    let s = step_if(c.new_file, TabStep::NewFile);
    let s = lemma_opens_first(s, c.activate is Some, TabStep::Activate((c.activate->0) as int));
    let s = lemma_opens_first(s, c.duplicate is Some, TabStep::Duplicate((c.duplicate->0) as int));
    let s = lemma_opens_first(s, copy is Some, TabStep::CopyPath(copy->0));
    let s = lemma_opens_first(s, reveal is Some, TabStep::Reveal(reveal->0));
    let n = s.len() as int;
    let s = lemma_shuts_last(s, n, c.close is Some, TabStep::Close((c.close->0) as int));
    let s = lemma_shuts_last(
        s,
        n,
        c.close_others is Some,
        TabStep::CloseOthers((c.close_others->0) as int),
    );
    let s = lemma_shuts_last(
        s,
        n,
        c.close_right is Some,
        TabStep::CloseRight((c.close_right->0) as int),
    );
    let s = lemma_shuts_last(s, n, c.close_all, TabStep::CloseAll);
    assert(s == steps(files, c));
    n
}

/// Nothing is done that was not clicked, and tabs are closed only after
/// everything else.
pub proof fn law_only_clicks_are_answered(
    app: &MogenStudioApp,
    c: &TabClicks,
    r: Vec<TabCommand>,
    k: int,
)
    requires
        call_ensures(MogenStudioApp::ui_tabs, (app, c), r),
        0 <= k < r@.len(),
    ensures
        answers(r@[k], *c, app.files@),
        closes(r@[k]) ==> forall|j: int| k <= j < r@.len() ==> closes(#[trigger] r@[j]),
{
    let files = app.files@;
    let n = lemma_closing_comes_last(files, *c);
    lemma_step_answers(r@, steps(files, *c), *c, files, k);
    lemma_closing_commands(r@, steps(files, *c), n);
}

proof fn lemma_step_answers(
    v: Seq<TabCommand>,
    s: Seq<TabStep>,
    c: TabClicks,
    files: Seq<OpenFile>,
    k: int,
)
    requires
        steps_of(v) == s,
        s == steps(files, c),
        0 <= k < v.len(),
    ensures
        answers(v[k], c, files),
{
    assert(steps_of(v)[k] == v[k]@);
    assert(s.contains(s[k]));
    lemma_steps_hold(files, c, v[k]@);
}

proof fn lemma_closing_commands(v: Seq<TabCommand>, s: Seq<TabStep>, n: int)
    requires
        steps_of(v) == s,
        shuts_from(s, n),
    ensures
        forall|j: int| 0 <= j < v.len() ==> (closes(#[trigger] v[j]) <==> n <= j),
{
    assert forall|j: int| 0 <= j < v.len() implies (closes(#[trigger] v[j]) <==> n <= j) by {
        assert(steps_of(v)[j] == v[j]@);
        assert(shuts(s[j]) <==> n <= j);
    }
}

/// A menu offers the path of a file that has one, the tabs to the right where
/// there are some, and the others where there are some.
pub proof fn law_menu_offers_what_there_is(app: &MogenStudioApp, i: usize, r: TabMenu)
    requires
        call_ensures(MogenStudioApp::tab_menu, (app, i), r),
        i < app.files@.len(),
    ensures
        r.has_path <==> app.files@[i as int].path is Some,
        r.has_right <==> i != app.files@.len() - 1,
        r.has_others <==> app.files@.len() != 1,
{
}

/// A status is shown in the foreground, and nothing else changes.
pub proof fn law_status_is_shown_in_front(app: &mut MogenStudioApp, status: String)
    requires
        old(app).wf(),
        call_ensures(MogenStudioApp::set_status, (app, status), ()),
    ensures
        final(app).front().status == status,
        final(app).front().source == old(app).front().source,
        final(app).front().dirty == old(app).front().dirty,
        final(app).active == old(app).active,
        final(app).files@.len() == old(app).files@.len(),
        forall|j: int|
            0 <= j < old(app).files@.len() && j != old(app).active ==> #[trigger] final(
                app).files@[j] == old(app).files@[j],
{
}

} // verus!
