//! The validator's findings: the footer of the editor and the problems of the
//! selected node.

use vstd::prelude::*;

use crate::pick::{
    as_places, count_where, lemma_count_filtered, lemma_places, lemma_places_same, marked_places,
    places,
};
use crate::scene::{CompileResult, Diagnostic, Severity};
use crate::span::{intersects, overlap, Span};
use crate::studio::{MogenStudioApp, OpenFile};
use crate::text::{
    cat2, cat3, cat4, clone_opt, decimal, decimal_digits, join, joined, opt_view, views,
};

verus! {

/// The predicate of the findings of one severity.
pub open spec fn of_severity(d: Seq<Diagnostic>, severity: Severity) -> spec_fn(int) -> bool {
    |i: int| d[i].severity == severity
}

/// How many findings have one severity.
pub open spec fn count_severity(d: Seq<Diagnostic>, severity: Severity) -> nat {
    count_where(of_severity(d, severity), d.len())
}

fn tally(d: &Vec<Diagnostic>, severity: Severity) -> (r: usize)
    ensures
        r == count_severity(d@, severity),
{
    let mut n: usize = 0;
    let mut i: usize = 0;
    while i < d.len()
        invariant
            i <= d@.len(),
            n <= i,
            n == count_where(of_severity(d@, severity), i as nat),
        decreases d.len() - i,
    {
        assert(of_severity(d@, severity)(i as int) == (d@[i as int].severity == severity));
        if d[i].severity == severity {
            n = n + 1;
        }
        i = i + 1;
    }
    n
}

// ---- the footer ------------------------------------------------------------

/// A count and a noun, in the plural unless there is exactly one.
pub open spec fn plural(n: nat, noun: Seq<char>) -> Seq<char> {
    decimal_digits(n) + " "@ + noun + if n == 1 {
        ""@
    } else {
        "s"@
    }
}

/// The counts that a header lists: errors, warnings and infos, each only where
/// there are some.
pub open spec fn header_parts(d: Seq<Diagnostic>) -> Seq<Seq<char>> {
    let errors = count_severity(d, Severity::Error);
    let warnings = count_severity(d, Severity::Warning);
    let infos = count_severity(d, Severity::Info);
    let a = if errors > 0 {
        seq![plural(errors, "error"@)]
    } else {
        Seq::empty()
    };
    let b = if warnings > 0 {
        seq![plural(warnings, "warning"@)]
    } else {
        Seq::empty()
    };
    let c = if infos > 0 {
        seq![decimal_digits(infos) + " info"@]
    } else {
        Seq::empty()
    };
    a + b + c
}

/// The header of the footer.
pub open spec fn header_label(result: Option<CompileResult>) -> Seq<char> {
    match result {
        None => "Diagnostics — (no build yet)"@,
        Some(r) => if r.diagnostics@.len() == 0 {
            match r.failed_stage {
                None => "Diagnostics — ✓ ok"@,
                Some(stage) => "Diagnostics — "@ + stage@,
            }
        } else {
            "Diagnostics — "@ + joined(header_parts(r.diagnostics@), ", "@)
        },
    }
}

fn count_text(n: usize, noun: &str) -> (r: String)
    ensures
        r@ == plural(n as nat, noun@),
{
    let digits = decimal(n);
    cat4(
        digits.as_str(),
        " ",
        noun,
        if n == 1 {
            ""
        } else {
            "s"
        },
    )
}

fn parts_of(d: &Vec<Diagnostic>) -> (r: Vec<String>)
    ensures
        views(r@) == header_parts(d@),
{
    let errors = tally(d, Severity::Error);
    let warnings = tally(d, Severity::Warning);
    let infos = tally(d, Severity::Info);
    let mut parts: Vec<String> = Vec::new();
    if errors > 0 {
        parts.push(count_text(errors, "error"));
    }
    if warnings > 0 {
        parts.push(count_text(warnings, "warning"));
    }
    if infos > 0 {
        let digits = decimal(infos);
        parts.push(cat2(digits.as_str(), " info"));
    }
    assert(views(parts@) =~= header_parts(d@));
    parts
}

/// One row of the footer.
pub struct DiagnosticRow {
    /// The severity and the code.
    pub tag: String,
    /// Where a click takes the caret: the start of the finding, clipped to the
    /// source.
    pub jump_to: Option<usize>,
}

/// The word for a severity.
pub open spec fn severity_tag(s: Severity) -> Seq<char> {
    match s {
        Severity::Error => "error"@,
        Severity::Warning => "warn"@,
        Severity::Info => "info"@,
    }
}

/// Whether `r` shows the finding `d` of a source of `len` bytes.
pub open spec fn shows_diagnostic(d: Diagnostic, len: nat, r: DiagnosticRow) -> bool {
    &&& r.tag@ == "["@ + severity_tag(d.severity) + "] "@ + d.code@
    &&& match d.span {
        None => r.jump_to is None,
        Some(span) => r.jump_to == Some(
            if span.start <= len {
                span.start
            } else {
                len as usize
            },
        ),
    }
}

/// What the footer shows.
pub enum DiagnosticsView {
    NoBuild,
    /// Nothing to report; the stage at which compiling stopped, if it did.
    Clean { stage: Option<String> },
    Rows(Vec<DiagnosticRow>),
}

fn row_of(d: &Diagnostic, source: &str) -> (r: DiagnosticRow)
    ensures
        shows_diagnostic(*d, vstd::utf8::encode_utf8(source@).len(), r),
{
    let tag = match d.severity {
        Severity::Error => "error",
        Severity::Warning => "warn",
        Severity::Info => "info",
    };
    let len = source.as_bytes().len();
    DiagnosticRow {
        tag: cat4("[", tag, "] ", d.code.as_str()),
        jump_to: match d.span {
            None => None,
            Some(span) => Some(
                if span.start <= len {
                    span.start
                } else {
                    len
                },
            ),
        },
    }
}

/// Whether there is an error or a warning among the findings.
pub open spec fn blocks(d: Seq<Diagnostic>) -> bool {
    exists|i: int| 0 <= i < d.len() && (#[trigger] d[i]).severity != Severity::Info
}

fn any_blocking(d: &Vec<Diagnostic>) -> (r: bool)
    ensures
        r == blocks(d@),
{
    let mut i: usize = 0;
    while i < d.len()
        invariant
            i <= d@.len(),
            forall|j: int| 0 <= j < i ==> (#[trigger] d@[j]).severity == Severity::Info,
        decreases d.len() - i,
    {
        if d[i].severity != Severity::Info {
            assert(d@[i as int].severity != Severity::Info);
            return true;
        }
        i = i + 1;
    }
    false
}

impl MogenStudioApp {
    /// Whether the file in the foreground has an error or a warning.
    pub fn has_blocking_diagnostics(&self) -> (r: bool)
        requires
            self.wf(),
        ensures
            r == match self.front().last_result {
                None => false,
                Some(result) => blocks(result.diagnostics@),
            },
    {
        match &self.active().last_result {
            None => false,
            Some(result) => any_blocking(&result.diagnostics),
        }
    }

    /// The header of the footer: a summary of the validator's findings in one
    /// line.
    pub fn diagnostics_header_label(&self) -> (r: String)
        requires
            self.wf(),
        ensures
            r@ == header_label(self.front().last_result),
    {
        match &self.active().last_result {
            None => "Diagnostics — (no build yet)".to_owned(),
            Some(result) => {
                if result.diagnostics.len() == 0 {
                    match &result.failed_stage {
                        None => "Diagnostics — ✓ ok".to_owned(),
                        Some(stage) => cat2("Diagnostics — ", stage.as_str()),
                    }
                } else {
                    let parts = parts_of(&result.diagnostics);
                    let all = join(&parts, ", ");
                    cat2("Diagnostics — ", all.as_str())
                }
            },
        }
    }

    /// What the footer shows.
    pub fn ui_diagnostics(&self) -> (v: DiagnosticsView)
        requires
            self.wf(),
        ensures
            match self.front().last_result {
                None => v is NoBuild,
                Some(result) => if result.diagnostics@.len() == 0 {
                    v matches DiagnosticsView::Clean { stage } && opt_view(stage)
                        == opt_view(result.failed_stage)
                } else {
                    v matches DiagnosticsView::Rows(rows) && rows@.len()
                        == result.diagnostics@.len() && forall|i: int|
                        0 <= i < rows@.len() ==> shows_diagnostic(
                            result.diagnostics@[i],
                            vstd::utf8::encode_utf8(self.front().source@).len(),
                            #[trigger] rows@[i],
                        )
                },
            },
    {
        let f = self.active();
        match &f.last_result {
            None => DiagnosticsView::NoBuild,
            Some(result) => {
                let d = &result.diagnostics;
                if d.len() == 0 {
                    return DiagnosticsView::Clean {
                        stage: clone_opt(&result.failed_stage),
                    };
                }
                let mut rows: Vec<DiagnosticRow> = Vec::new();
                let mut i: usize = 0;
                while i < d.len()
                    invariant
                        i <= d@.len(),
                        rows@.len() == i,
                        forall|j: int|
                            0 <= j < i ==> shows_diagnostic(
                                d@[j],
                                vstd::utf8::encode_utf8(f.source@).len(),
                                #[trigger] rows@[j],
                            ),
                    decreases d.len() - i,
                {
                    rows.push(row_of(&d[i], f.source.as_str()));
                    i = i + 1;
                }
                DiagnosticsView::Rows(rows)
            },
        }
    }

    /// Lets the editor's caret jump to a finding.
    pub fn jump_to_diagnostic(&mut self, offset: usize)
        requires
            old(self).wf(),
        ensures
            *final(self) == (MogenStudioApp { files: final(self).files, ..*old(self) }),
            final(self).files@ == old(self).files@.update(
                old(self).active as int,
                OpenFile { pending_caret: Some(offset), ..old(self).front() },
            ),
    {
        let i = self.active;
        self.files[i].pending_caret = Some(offset);
    }
}

// ---- problems of one node --------------------------------------------------

/// The rank of a severity: errors come first, infos last.
pub open spec fn rank(s: Severity) -> int {
    match s {
        Severity::Error => 0,
        Severity::Warning => 1,
        Severity::Info => 2,
    }
}

/// Whether a finding concerns a node that stands at `span`.
pub open spec fn concerns(d: Diagnostic, span: Span) -> bool {
    d.span matches Some(s) && overlap(s, span)
}

/// The predicate of the findings of one severity that concern a node.
pub open spec fn problem_of(d: Seq<Diagnostic>, span: Span, severity: Severity) -> spec_fn(
    int,
) -> bool {
    |i: int| concerns(d[i], span) && d[i].severity == severity
}

/// The findings that concern a node: errors, then warnings, then infos, each
/// in the order of the validator.
pub open spec fn problems_of(d: Seq<Diagnostic>, span: Span) -> Seq<int> {
    places(problem_of(d, span, Severity::Error), d.len()) + places(
        problem_of(d, span, Severity::Warning),
        d.len(),
    ) + places(problem_of(d, span, Severity::Info), d.len())
}

fn problems_with(d: &Vec<Diagnostic>, span: Span, severity: Severity) -> (r: Vec<usize>)
    ensures
        as_places(r@) == places(
            problem_of(d@, span, severity),
            d@.len(),
        ),
{
    let mut marks: Vec<bool> = Vec::new();
    let mut i: usize = 0;
    while i < d.len()
        invariant
            i <= d@.len(),
            marks@.len() == i,
            forall|j: int| 0 <= j < i ==> #[trigger] marks@[j] == problem_of(d@, span, severity)(j),
        decreases d.len() - i,
    {
        let hit = match d[i].span {
            Some(s) => intersects(s, span),
            None => false,
        };
        marks.push(hit && d[i].severity == severity);
        i = i + 1;
    }
    proof {
        lemma_places_same(
            |j: int| marks@[j],
            problem_of(d@, span, severity),
            marks@.len(),
        );
    }
    marked_places(&marks)
}

/// The findings that concern the node at `span`, the worst first. A node
/// without a place in the source has none.
pub fn node_problems(d: &Vec<Diagnostic>, span: Option<Span>) -> (r: Vec<usize>)
    ensures
        as_places(r@) == match span {
            Some(s) => problems_of(d@, s),
            None => Seq::empty(),
        },
{
    match span {
        None => {
            let r: Vec<usize> = Vec::new();
            assert(as_places(r@) =~= Seq::empty());
            r
        },
        Some(s) => {
            let errors = problems_with(d, s, Severity::Error);
            let warnings = problems_with(d, s, Severity::Warning);
            let infos = problems_with(d, s, Severity::Info);
            let mut r = errors.clone();
            r.extend_from_slice(warnings.as_slice());
            r.extend_from_slice(infos.as_slice());
            assert(as_places(r@) =~= problems_of(d@, s));
            r
        },
    }
}

/// The header above the problems of a node.
pub fn problems_header(n: usize) -> (r: String)
    ensures
        r@ == "Problems ("@ + decimal_digits(n as nat) + ")"@,
{
    let digits = decimal(n);
    cat3("Problems (", digits.as_str(), ")")
}

/// The mark in front of a problem.
pub fn problem_glyph(s: Severity) -> (r: &'static str)
    ensures
        r@ == match s {
            Severity::Error => "✖"@,
            Severity::Warning => "⚠"@,
            Severity::Info => "ℹ"@,
        },
{
    match s {
        Severity::Error => "✖",
        Severity::Warning => "⚠",
        Severity::Info => "ℹ",
    }
}

// ---- what the listing guarantees -------------------------------------------

proof fn lemma_places_sorted(p: spec_fn(int) -> bool, n: nat)
    ensures
        forall|a: int, b: int|
            0 <= a < b < places(p, n).len() ==> (#[trigger] places(
                p,
                n,
            )[a]) < (#[trigger] places(p, n)[b]),
    decreases n,
{
    if n > 0 {
        lemma_places_sorted(p, (n - 1) as nat);
        lemma_places(p, (n - 1) as nat);
    }
}

/// The problems of a node are exactly the findings that concern it, ordered by
/// severity, and among equals in the order of the validator.
pub proof fn law_problems_are_sorted_and_complete(d: Seq<Diagnostic>, span: Span)
    ensures
        ({
            let r = problems_of(d, span);
            &&& forall|k: int|
                0 <= k < r.len() ==> 0 <= (#[trigger] r[k]) < d.len() && concerns(d[r[k]], span)
            &&& forall|i: int|
                0 <= i < d.len() && concerns(#[trigger] d[i], span) ==> r.contains(i)
            &&& forall|a: int, b: int|
                0 <= a < b < r.len() ==> {
                    ||| rank(d[#[trigger] r[a]].severity) < rank(d[#[trigger] r[b]].severity)
                    ||| rank(d[r[a]].severity) == rank(d[r[b]].severity) && r[a] < r[b]
                }
        }),
{
    let n = d.len();
    let pe = problem_of(d, span, Severity::Error);
    let pw = problem_of(d, span, Severity::Warning);
    let pi = problem_of(d, span, Severity::Info);
    let e = places(pe, n);
    let w = places(pw, n);
    let i = places(pi, n);
    let r = problems_of(d, span);
    lemma_places(pe, n);
    lemma_places(pw, n);
    lemma_places(pi, n);
    lemma_places_sorted(pe, n);
    lemma_places_sorted(pw, n);
    lemma_places_sorted(pi, n);
    assert(r =~= e + w + i);
    assert forall|k: int| 0 <= k < r.len() implies 0 <= (#[trigger] r[k]) < d.len() && concerns(
        d[r[k]],
        span,
    ) by {
        if k < e.len() {
            assert(r[k] == e[k]);
        } else if k < e.len() + w.len() {
            assert(r[k] == w[k - e.len()]);
        } else {
            assert(r[k] == i[k - e.len() - w.len()]);
        }
    }
    assert forall|x: int| 0 <= x < d.len() && concerns(#[trigger] d[x], span) implies r.contains(
        x,
    ) by {
        match d[x].severity {
            Severity::Error => {
                assert(pe(x));
                assert(e.contains(x));
                let k = choose|k: int| 0 <= k < e.len() && e[k] == x;
                assert(r[k] == x);
            },
            Severity::Warning => {
                assert(pw(x));
                assert(w.contains(x));
                let k = choose|k: int| 0 <= k < w.len() && w[k] == x;
                assert(r[e.len() + k] == x);
            },
            Severity::Info => {
                assert(pi(x));
                assert(i.contains(x));
                let k = choose|k: int| 0 <= k < i.len() && i[k] == x;
                assert(r[e.len() + w.len() + k] == x);
            },
        }
    }
    assert forall|a: int, b: int| 0 <= a < b < r.len() implies {
        ||| rank(d[#[trigger] r[a]].severity) < rank(d[#[trigger] r[b]].severity)
        ||| rank(d[r[a]].severity) == rank(d[r[b]].severity) && r[a] < r[b]
    } by {
        lemma_part_of(e, w, i, r, a, pe, pw, pi);
        lemma_part_of(e, w, i, r, b, pe, pw, pi);
        if b < e.len() {
            assert(e[a] < e[b]);
        } else if e.len() <= a && b < e.len() + w.len() {
            assert(w[a - e.len()] < w[b - e.len()]);
        } else if e.len() + w.len() <= a {
            assert(i[a - e.len() - w.len()] < i[b - e.len() - w.len()]);
        }
    }
}

proof fn lemma_part_of(
    e: Seq<int>,
    w: Seq<int>,
    i: Seq<int>,
    r: Seq<int>,
    k: int,
    pe: spec_fn(int) -> bool,
    pw: spec_fn(int) -> bool,
    pi: spec_fn(int) -> bool,
)
    requires
        r == e + w + i,
        0 <= k < r.len(),
        forall|j: int| 0 <= j < e.len() ==> pe(#[trigger] e[j]),
        forall|j: int| 0 <= j < w.len() ==> pw(#[trigger] w[j]),
        forall|j: int| 0 <= j < i.len() ==> pi(#[trigger] i[j]),
    ensures
        k < e.len() ==> r[k] == e[k] && pe(r[k]),
        e.len() <= k < e.len() + w.len() ==> r[k] == w[k - e.len()] && pw(r[k]),
        e.len() + w.len() <= k ==> r[k] == i[k - e.len() - w.len()] && pi(r[k]),
{
}

/// The findings of one severity.
pub open spec fn findings(d: Seq<Diagnostic>, severity: Severity) -> Seq<Diagnostic> {
    d.filter(|x: Diagnostic| x.severity == severity)
}

proof fn lemma_tally(d: Seq<Diagnostic>, severity: Severity)
    ensures
        count_severity(d, severity) == findings(d, severity).len(),
{
    let q = |x: Diagnostic| x.severity == severity;
    lemma_count_filtered(d, q, of_severity(d, severity), d.len());
    assert(d.take(d.len() as int) =~= d);
}

/// The header counts the errors, the warnings and the infos, in that order,
/// names none of which there is none, and puts only a single error or warning
/// into the singular.
pub proof fn law_header_counts_every_kind(app: &MogenStudioApp, result: CompileResult, r: String)
    requires
        app.wf(),
        call_ensures(MogenStudioApp::diagnostics_header_label, (app,), r),
        app.front().last_result == Some(result),
        result.diagnostics@.len() > 0,
    ensures
        ({
            let e = findings(result.diagnostics@, Severity::Error).len();
            let w = findings(result.diagnostics@, Severity::Warning).len();
            let i = findings(result.diagnostics@, Severity::Info).len();
            let none = Seq::<char>::empty();
            r@ == "Diagnostics — "@ + (if e == 0 {
                none
            } else if e == 1 {
                decimal_digits(1) + " error"@
            } else {
                decimal_digits(e) + " errors"@
            }) + (if e > 0 && w > 0 {
                ", "@
            } else {
                none
            }) + (if w == 0 {
                none
            } else if w == 1 {
                decimal_digits(1) + " warning"@
            } else {
                decimal_digits(w) + " warnings"@
            }) + (if (e > 0 || w > 0) && i > 0 {
                ", "@
            } else {
                none
            }) + (if i == 0 {
                none
            } else {
                decimal_digits(i) + " info"@
            })
        }),
{
    let d = result.diagnostics@;
    lemma_tally(d, Severity::Error);
    lemma_tally(d, Severity::Warning);
    lemma_tally(d, Severity::Info);
    let e = findings(d, Severity::Error).len();
    let w = findings(d, Severity::Warning).len();
    let i = findings(d, Severity::Info).len();
    lemma_plural(e, w);
    let parts = header_parts(d);
    if e > 0 && w > 0 && i > 0 {
        lemma_joined_three(plural(e, "error"@), plural(w, "warning"@), decimal_digits(i) + " info"@);
        assert(parts =~= seq![
            plural(e, "error"@),
            plural(w, "warning"@),
            decimal_digits(i) + " info"@,
        ]);
    } else if e > 0 && w > 0 {
        lemma_joined_two(plural(e, "error"@), plural(w, "warning"@));
        assert(parts =~= seq![plural(e, "error"@), plural(w, "warning"@)]);
    } else if e > 0 && i > 0 {
        lemma_joined_two(plural(e, "error"@), decimal_digits(i) + " info"@);
        assert(parts =~= seq![plural(e, "error"@), decimal_digits(i) + " info"@]);
    } else if w > 0 && i > 0 {
        lemma_joined_two(plural(w, "warning"@), decimal_digits(i) + " info"@);
        assert(parts =~= seq![plural(w, "warning"@), decimal_digits(i) + " info"@]);
    } else if e > 0 {
        assert(parts =~= seq![plural(e, "error"@)]);
    } else if w > 0 {
        assert(parts =~= seq![plural(w, "warning"@)]);
    } else if i > 0 {
        assert(parts =~= seq![decimal_digits(i) + " info"@]);
    } else {
        assert(parts =~= Seq::empty());
    }
}

proof fn lemma_joined_two(a: Seq<char>, b: Seq<char>)
    ensures
        joined(seq![a, b], ", "@) == a + ", "@ + b,
{
    assert(seq![a, b].drop_last() =~= seq![a]);
    reveal_with_fuel(joined, 2);
}

proof fn lemma_joined_three(a: Seq<char>, b: Seq<char>, c: Seq<char>)
    ensures
        joined(seq![a, b, c], ", "@) == a + ", "@ + b + ", "@ + c,
{
    assert(seq![a, b, c].drop_last() =~= seq![a, b]);
    lemma_joined_two(a, b);
}

proof fn lemma_plural(e: nat, w: nat)
    ensures
        plural(e, "error"@) == decimal_digits(e) + if e == 1 {
            " error"@
        } else {
            " errors"@
        },
        plural(w, "warning"@) == decimal_digits(w) + if w == 1 {
            " warning"@
        } else {
            " warnings"@
        },
{
    reveal_strlit("");
    reveal_strlit(" ");
    reveal_strlit("s");
    reveal_strlit("error");
    reveal_strlit(" error");
    reveal_strlit(" errors");
    reveal_strlit("warning");
    reveal_strlit(" warning");
    reveal_strlit(" warnings");
    assert(" "@ + "error"@ + ""@ =~= " error"@);
    assert(" "@ + "error"@ + "s"@ =~= " errors"@);
    assert(" "@ + "warning"@ + ""@ =~= " warning"@);
    assert(" "@ + "warning"@ + "s"@ =~= " warnings"@);
    assert(plural(e, "error"@) =~= decimal_digits(e) + (" "@ + "error"@ + if e == 1 {
        ""@
    } else {
        "s"@
    }));
    assert(plural(w, "warning"@) =~= decimal_digits(w) + (" "@ + "warning"@ + if w == 1 {
        ""@
    } else {
        "s"@
    }));
}

/// Without findings the header says whether there was a build and where it
/// stopped.
pub proof fn law_header_tells_the_build(app: &MogenStudioApp, r: String)
    requires
        app.wf(),
        call_ensures(MogenStudioApp::diagnostics_header_label, (app,), r),
    ensures
        app.front().last_result is None ==> r@ == "Diagnostics — (no build yet)"@,
        app.front().last_result matches Some(b) ==> b.diagnostics@.len() == 0 ==> r@ == match b.failed_stage {
            None => "Diagnostics — ✓ ok"@,
            Some(stage) => "Diagnostics — "@ + stage@,
        },
{
}

/// An error or a warning in the foreground blocks; infos alone do not, and
/// neither does a file that was not built.
pub proof fn law_errors_and_warnings_block(app: &MogenStudioApp, r: bool)
    requires
        app.wf(),
        call_ensures(MogenStudioApp::has_blocking_diagnostics, (app,), r),
    ensures
        app.front().last_result is None ==> !r,
        app.front().last_result matches Some(b) ==> forall|i: int|
            0 <= i < b.diagnostics@.len() && (#[trigger] b.diagnostics@[i]).severity is Error ==> r,
        app.front().last_result matches Some(b) ==> forall|i: int|
            0 <= i < b.diagnostics@.len() && (#[trigger] b.diagnostics@[i]).severity is Warning
                ==> r,
        app.front().last_result matches Some(b) ==> (forall|i: int|
            0 <= i < b.diagnostics@.len() ==> (#[trigger] b.diagnostics@[i]).severity is Info)
            ==> !r,
{
}

/// Every finding has its row, with its severity and its code; a click goes to
/// its start, or to the end of a source that is shorter by now.
pub proof fn law_every_finding_has_its_row(
    app: &MogenStudioApp,
    result: CompileResult,
    v: DiagnosticsView,
    i: int,
)
    requires
        app.wf(),
        call_ensures(MogenStudioApp::ui_diagnostics, (app,), v),
        app.front().last_result == Some(result),
        0 <= i < result.diagnostics@.len(),
    ensures
        v is Rows,
        v->0@.len() == result.diagnostics@.len(),
        result.diagnostics@[i].severity is Error ==> v->0@[i].tag@ == "[error] "@
            + result.diagnostics@[i].code@,
        result.diagnostics@[i].severity is Warning ==> v->0@[i].tag@ == "[warn] "@
            + result.diagnostics@[i].code@,
        result.diagnostics@[i].severity is Info ==> v->0@[i].tag@ == "[info] "@
            + result.diagnostics@[i].code@,
        v->0@[i].jump_to is Some <==> result.diagnostics@[i].span is Some,
        result.diagnostics@[i].span matches Some(s) ==> ({
            let len = vstd::utf8::encode_utf8(app.front().source@).len();
            v->0@[i].jump_to matches Some(at) && at <= s.start && at <= len && (at == s.start || at
                == len)
        }),
{
    let d = result.diagnostics@[i];
    let row = v->0@[i];
    assert(shows_diagnostic(d, vstd::utf8::encode_utf8(app.front().source@).len(), row));
    lemma_tags();
}

proof fn lemma_tags()
    ensures
        "["@ + "error"@ + "] "@ == "[error] "@,
        "["@ + "warn"@ + "] "@ == "[warn] "@,
        "["@ + "info"@ + "] "@ == "[info] "@,
{
    reveal_strlit("[");
    reveal_strlit("] ");
    reveal_strlit("error");
    reveal_strlit("warn");
    reveal_strlit("info");
    reveal_strlit("[error] ");
    reveal_strlit("[warn] ");
    reveal_strlit("[info] ");
    assert("["@ + "error"@ + "] "@ =~= "[error] "@);
    assert("["@ + "warn"@ + "] "@ =~= "[warn] "@);
    assert("["@ + "info"@ + "] "@ =~= "[info] "@);
}

/// Without findings there are no rows: the footer says that there was no
/// build, or where it stopped.
pub proof fn law_footer_without_findings(app: &MogenStudioApp, v: DiagnosticsView)
    requires
        app.wf(),
        call_ensures(MogenStudioApp::ui_diagnostics, (app,), v),
    ensures
        app.front().last_result is None ==> v is NoBuild,
        app.front().last_result matches Some(b) ==> b.diagnostics@.len() == 0 ==> (
        v matches DiagnosticsView::Clean { stage } && opt_view(stage) == opt_view(b.failed_stage)),
{
}

/// A click on a finding sends the caret there, and changes nothing else.
pub proof fn law_click_sends_the_caret(app: &mut MogenStudioApp, offset: usize)
    requires
        old(app).wf(),
        call_ensures(MogenStudioApp::jump_to_diagnostic, (app, offset), ()),
    ensures
        final(app).front().pending_caret == Some(offset),
        final(app).front().source == old(app).front().source,
        final(app).active == old(app).active,
        final(app).files@.len() == old(app).files@.len(),
        forall|j: int|
            0 <= j < old(app).files@.len() && j != old(app).active ==> #[trigger] final(app).files@[j] == old(app).files@[j],
{
}

/// The problems of a node are the findings whose place meets its own, all of
/// them and each once, errors before warnings before infos.
pub proof fn law_problems_meet_the_node(d: &Vec<Diagnostic>, span: Span, r: Vec<usize>)
    requires
        call_ensures(node_problems, (d, Some(span)), r),
    ensures
        forall|k: int|
            0 <= k < r@.len() ==> (#[trigger] r@[k]) < d@.len() && (
            d@[r@[k] as int].span matches Some(s) && s.start < span.end && span.start < s.end),
        forall|i: int|
            0 <= i < d@.len() && ((#[trigger] d@[i]).span matches Some(s) && s.start < span.end
                && span.start < s.end) ==> exists|k: int|
                0 <= k < r@.len() && #[trigger] r@[k] == i,
        forall|a: int, b: int|
            0 <= a < b < r@.len() && d@[#[trigger] r@[b] as int].severity is Error
                ==> d@[#[trigger] r@[a] as int].severity is Error && r@[a] < r@[b],
        forall|a: int, b: int|
            0 <= a < b < r@.len() && d@[#[trigger] r@[a] as int].severity is Info
                ==> d@[#[trigger] r@[b] as int].severity is Info && r@[a] < r@[b],
        forall|a: int, b: int|
            0 <= a < b < r@.len() && d@[#[trigger] r@[a] as int].severity is Warning
                && d@[#[trigger] r@[b] as int].severity is Warning ==> r@[a] < r@[b],
{
    law_problems_are_sorted_and_complete(d@, span);
    let p = problems_of(d@, span);
    assert(p.len() == r@.len());
    assert forall|k: int| 0 <= k < r@.len() implies #[trigger] r@[k] as int == p[k] by {
        assert(as_places(r@)[k] == r@[k] as int);
    }
    assert forall|i: int|
        0 <= i < d@.len() && ((#[trigger] d@[i]).span matches Some(s) && s.start < span.end
            && span.start < s.end) implies exists|k: int|
        0 <= k < r@.len() && #[trigger] r@[k] == i by {
        assert(concerns(d@[i], span));
        assert(p.contains(i));
        let k = choose|k: int| 0 <= k < p.len() && p[k] == i;
        assert(r@[k] as int == p[k]);
    }
    assert forall|a: int, b: int| 0 <= a < b < r@.len() implies {
        ||| rank(d@[#[trigger] r@[a] as int].severity) < rank(d@[#[trigger] r@[b] as int].severity)
        ||| rank(d@[r@[a] as int].severity) == rank(d@[r@[b] as int].severity) && r@[a] < r@[b]
    } by {
        assert(r@[a] as int == p[a] && r@[b] as int == p[b]);
    }
}

/// A node without a place in the source has no problems.
pub proof fn law_placeless_nodes_have_no_problems(d: &Vec<Diagnostic>, r: Vec<usize>)
    requires
        call_ensures(node_problems, (d, None), r),
    ensures
        r@.len() == 0,
{
    assert(as_places(r@).len() == r@.len());
}

/// Each severity has a mark of its own.
pub proof fn law_marks_tell_the_severity(s: Severity, r: &'static str)
    requires
        call_ensures(problem_glyph, (s,), r),
    ensures
        s is Error ==> r@ == "✖"@,
        s is Warning ==> r@ == "⚠"@,
        s is Info ==> r@ == "ℹ"@,
{
}

} // verus!
