//! Telling plain numbers from expressions in attribute text, so that dragging
//! a value never overwrites an expression.

use vstd::prelude::*;

use crate::naming::is_digit;
use crate::text::{
    ascii_lower, ascii_lower_char, cat3, chars_of, drop_back, is_space, lemma_drop_front_skip,
    lemma_find_at, matches_ignoring_case, only, opt_view, split, split_on, strip_back, strip_front,
    trim, trimmed, views, without_back, without_front,
};

verus! {

// ---- numbers ---------------------------------------------------------------

/// The first place at or after `i` that holds no digit.
pub open spec fn digits_end(s: Seq<char>, i: int) -> int
    decreases s.len() - i,
{
    if 0 <= i < s.len() && is_digit(s[i]) {
        digits_end(s, i + 1)
    } else {
        i
    }
}

/// A text without one leading sign.
pub open spec fn unsigned_text(s: Seq<char>) -> Seq<char> {
    if s.len() > 0 && (s[0] == '+' || s[0] == '-') {
        s.skip(1)
    } else {
        s
    }
}

/// Digits, perhaps after a sign.
pub open spec fn is_exponent(s: Seq<char>) -> bool {
    let d = unsigned_text(s);
    d.len() > 0 && digits_end(d, 0) == d.len()
}

/// Digits with at most one dot among, before or after them, and then perhaps
/// an `e` and an exponent.
pub open spec fn is_decimal(s: Seq<char>) -> bool {
    let whole = digits_end(s, 0);
    let dot = whole < s.len() && s[whole] == '.';
    let end = if dot {
        digits_end(s, whole + 1)
    } else {
        whole
    };
    &&& whole > 0 || (dot && end > whole + 1)
    &&& end == s.len() || ((s[end] == 'e' || s[end] == 'E') && is_exponent(s.skip(end + 1)))
}

/// A floating-point number as text: a decimal number, an infinity or `nan`,
/// in any mix of cases, perhaps after a sign.
pub open spec fn is_number(s: Seq<char>) -> bool {
    let u = unsigned_text(s);
    ||| is_decimal(u)
    ||| ascii_lower(u) == "inf"@
    ||| ascii_lower(u) == "infinity"@
    ||| ascii_lower(u) == "nan"@
}

proof fn lemma_digits_end_skip(s: Seq<char>, k: int, i: int)
    requires
        0 <= k <= i <= s.len(),
    ensures
        digits_end(s.skip(k), i - k) == digits_end(s, i) - k,
    decreases s.len() - i,
{
    if i < s.len() {
        assert(s.skip(k)[i - k] == s[i]);
        if is_digit(s[i]) {
            lemma_digits_end_skip(s, k, i + 1);
        }
    }
}

fn end_of_digits(cs: &Vec<char>, from: usize) -> (r: usize)
    requires
        from <= cs@.len(),
    ensures
        from <= r <= cs@.len(),
        r == digits_end(cs@, from as int),
{
    let mut i: usize = from;
    while i < cs.len() && '0' <= cs[i] && cs[i] <= '9'
        invariant
            from <= i <= cs@.len(),
            digits_end(cs@, from as int) == digits_end(cs@, i as int),
        decreases cs.len() - i,
    {
        i = i + 1;
    }
    i
}

/// Whether the characters from `from` on are a decimal number.
fn decimal_from(cs: &Vec<char>, from: usize) -> (r: bool)
    requires
        from <= cs@.len(),
    ensures
        r == is_decimal(cs@.skip(from as int)),
{
    let ghost s = cs@.skip(from as int);
    let n = cs.len();
    let whole = end_of_digits(cs, from);
    proof {
        lemma_digits_end_skip(cs@, from as int, from as int);
        if whole < n {
            assert(s[whole - from] == cs@[whole as int]);
        }
    }
    let dot = whole < n && cs[whole] == '.';
    let end = if dot {
        let e = end_of_digits(cs, whole + 1);
        proof {
            lemma_digits_end_skip(cs@, from as int, whole + 1);
        }
        e
    } else {
        whole
    };
    if !(whole > from || (dot && end > whole + 1)) {
        return false;
    }
    if end == n {
        return true;
    }
    assert(s[end - from] == cs@[end as int]);
    if cs[end] != 'e' && cs[end] != 'E' {
        return false;
    }
    let signed = end + 1 < n && (cs[end + 1] == '+' || cs[end + 1] == '-');
    let start = if signed {
        end + 2
    } else {
        end + 1
    };
    let ghost t = s.skip(end - from + 1);
    assert(t =~= cs@.skip(end + 1));
    assert(end + 1 < n ==> t[0] == cs@[end + 1]);
    assert(unsigned_text(t) =~= cs@.skip(start as int));
    let last = end_of_digits(cs, start);
    proof {
        lemma_digits_end_skip(cs@, start as int, start as int);
    }
    start < n && last == n
}

/// Whether a text is a floating-point number.
pub fn number_text(s: &str) -> (r: bool)
    ensures
        r == is_number(s@),
{
    let cs = chars_of(s);
    let from: usize = if cs.len() > 0 && (cs[0] == '+' || cs[0] == '-') {
        1
    } else {
        0
    };
    let u = s.substring_char(from, cs.len());
    assert(u@ =~= unsigned_text(s@));
    assert(cs@.skip(from as int) =~= u@);
    decimal_from(&cs, from) || matches_ignoring_case(u, "inf") || matches_ignoring_case(
        u,
        "infinity",
    ) || matches_ignoring_case(u, "nan")
}

// ---- single values ---------------------------------------------------------

/// What an attribute holds.
pub enum Field {
    /// Nothing: the default is shown, and it can be edited.
    Absent,
    /// A plain number, which can be edited.
    Num(String),
    /// An expression, which is only shown.
    Locked(String),
}

/// The view of a field: what it holds, without surrounding white space.
pub open spec fn is_field(raw: Option<Seq<char>>, f: Field) -> bool {
    match raw {
        None => f is Absent,
        Some(s) => if is_number(trimmed(s)) {
            f matches Field::Num(t) && t@ == trimmed(s)
        } else {
            f matches Field::Locked(t) && t@ == trimmed(s)
        },
    }
}

/// Classifies the text of an attribute.
pub fn field(raw: &Option<String>) -> (r: Field)
    ensures
        is_field(opt_view(*raw), r),
{
    match raw {
        None => Field::Absent,
        Some(s) => {
            let t = trim(s.as_str());
            if number_text(t) {
                Field::Num(t.to_owned())
            } else {
                Field::Locked(t.to_owned())
            }
        },
    }
}

/// The word that the text of an attribute holds, without white space and
/// quotes around it.
pub open spec fn word_in(raw: Option<Seq<char>>) -> Option<Seq<char>> {
    match raw {
        None => None,
        Some(s) => Some(without_back(without_front(trimmed(s), '"'), '"')),
    }
}

/// The word that the text of an attribute holds.
pub fn read_str(raw: &Option<String>) -> (r: Option<String>)
    ensures
        opt_view(r) == word_in(opt_view(*raw)),
{
    match raw {
        None => None,
        Some(s) => Some(strip_back(strip_front(trim(s.as_str()), '"'), '"').to_owned()),
    }
}

// ---- lists of values -------------------------------------------------------

/// The components of a list in square brackets, or of a bare value.
pub open spec fn components(s: Seq<char>) -> Seq<Seq<char>> {
    split_on(without_back(without_front(trimmed(s), '['), ']'), ',').map_values(
        |p: Seq<char>| trimmed(p),
    )
}

/// Whether every component of a list is a plain number.
pub open spec fn all_numbers(s: Seq<char>) -> bool {
    forall|i: int| 0 <= i < components(s).len() ==> is_number(#[trigger] components(s)[i])
}

/// What an attribute that takes a list holds.
pub enum VecField {
    Absent,
    Nums(Vec<String>),
    /// One component that is an expression locks the whole list.
    Locked(String),
}

/// The view of a list field.
pub open spec fn is_vec_field(raw: Option<Seq<char>>, f: VecField) -> bool {
    match raw {
        None => f is Absent,
        Some(s) => if all_numbers(s) {
            f matches VecField::Nums(n) && views(n@) == components(s)
        } else {
            f matches VecField::Locked(t) && t@ == trimmed(s)
        },
    }
}

fn components_of(s: &str) -> (r: Vec<String>)
    ensures
        views(r@) == components(s@),
{
    let inner = strip_back(strip_front(trim(s), '['), ']');
    let parts = split(inner, ',');
    let ghost cut = split_on(inner@, ',');
    let mut out: Vec<String> = Vec::new();
    let mut i: usize = 0;
    while i < parts.len()
        invariant
            i <= parts@.len(),
            parts@.map_values(|p: &str| p@) == cut,
            parts@.len() == cut.len(),
            out@.len() == i,
            forall|j: int| 0 <= j < i ==> (#[trigger] out@[j])@ == trimmed(cut[j]),
        decreases parts.len() - i,
    {
        assert(cut[i as int] == parts@[i as int]@);
        out.push(trim(parts[i]).to_owned());
        i = i + 1;
    }
    assert(views(out@) =~= components(s@));
    out
}

fn numbers_only(v: &Vec<String>) -> (r: bool)
    ensures
        r == (forall|i: int| 0 <= i < v@.len() ==> is_number((#[trigger] v@[i])@)),
{
    let mut i: usize = 0;
    while i < v.len()
        invariant
            i <= v@.len(),
            forall|j: int| 0 <= j < i ==> is_number((#[trigger] v@[j])@),
        decreases v.len() - i,
    {
        if !number_text(v[i].as_str()) {
            return false;
        }
        i = i + 1;
    }
    true
}

/// Classifies the text of an attribute that takes a list.
pub fn vec_field(raw: &Option<String>) -> (r: VecField)
    ensures
        is_vec_field(opt_view(*raw), r),
{
    match raw {
        None => VecField::Absent,
        Some(s) => {
            let parts = components_of(s.as_str());
            let ghost cs = components(s@);
            assert(forall|i: int|
                0 <= i < parts@.len() ==> (#[trigger] parts@[i])@ == cs[i] && parts@.len()
                    == cs.len()) by {
                assert forall|i: int| 0 <= i < parts@.len() implies (#[trigger] parts@[i])@ == cs[i]
                    && parts@.len() == cs.len() by {
                    assert(views(parts@)[i] == parts@[i]@);
                }
            }
            if numbers_only(&parts) {
                assert(all_numbers(s@)) by {
                    assert forall|i: int| 0 <= i < cs.len() implies is_number(#[trigger] cs[i]) by {
                        assert(views(parts@).len() == cs.len());
                        assert(is_number(parts@[i]@));
                    }
                }
                VecField::Nums(parts)
            } else {
                assert(!all_numbers(s@)) by {
                    let i = choose|i: int|
                        0 <= i < parts@.len() && !is_number((#[trigger] parts@[i])@);
                    assert(!is_number(cs[i]));
                }
                VecField::Locked(trim(s.as_str()).to_owned())
            }
        },
    }
}

/// A list of values as a row of `arity` shows it: a single value fills the
/// row, and any other list is cut or filled up with `default`.
pub open spec fn fitted<T>(n: Seq<T>, arity: nat, default: T) -> Seq<T> {
    if n.len() == 1 {
        Seq::new(arity, |i: int| n[0])
    } else {
        Seq::new(
            arity,
            |i: int|
                if i < n.len() {
                    n[i]
                } else {
                    default
                },
        )
    }
}

/// Fits a list of values to a row of `arity`.
pub fn fit_components<T: Copy>(n: &Vec<T>, arity: usize, default: T) -> (r: Vec<T>)
    ensures
        r@ == fitted(n@, arity as nat, default),
{
    let mut out: Vec<T> = Vec::new();
    let mut i: usize = 0;
    while i < arity
        invariant
            i <= arity,
            out@.len() == i,
            forall|j: int| 0 <= j < i ==> #[trigger] out@[j] == fitted(n@, arity as nat, default)[j],
        decreases arity - i,
    {
        if n.len() == 1 {
            out.push(n[0]);
        } else if i < n.len() {
            out.push(n[i]);
        } else {
            out.push(default);
        }
        i = i + 1;
    }
    assert(out@ =~= fitted(n@, arity as nat, default));
    out
}

/// The values that a row of `arity` shows: those authored, fitted to the row,
/// or the default throughout when none are.
pub fn row_components<T: Copy>(authored: &Option<Vec<T>>, arity: usize, default: T) -> (r: Vec<T>)
    ensures
        r@ == match *authored {
            Some(n) => fitted(n@, arity as nat, default),
            None => Seq::new(arity as nat, |i: int| default),
        },
{
    match authored {
        Some(n) => fit_components(n, arity, default),
        None => {
            let none: Vec<T> = Vec::new();
            let r = fit_components(&none, arity, default);
            assert(r@ =~= Seq::new(arity as nat, |i: int| default));
            r
        },
    }
}

/// The values that a row with one default per component shows. A list of
/// another length is filled up with the last default; without defaults there
/// are no values.
pub fn schema_row_components<T: Copy>(authored: &Option<Vec<T>>, defaults: &Vec<T>) -> (r: Vec<T>)
    ensures
        r@ == match *authored {
            Some(n) => fitted(n@, defaults@.len(), defaults@.last()),
            None => defaults@,
        },
{
    match authored {
        Some(n) => if defaults.len() > 0 {
            fit_components(n, defaults.len(), defaults[defaults.len() - 1])
        } else {
            let none: Vec<T> = Vec::new();
            assert(none@ =~= fitted(n@, 0, defaults@.last()));
            none
        },
        None => {
            let mut out: Vec<T> = Vec::new();
            let mut i: usize = 0;
            while i < defaults.len()
                invariant
                    i <= defaults@.len(),
                    out@ == defaults@.take(i as int),
                decreases defaults.len() - i,
            {
                out.push(defaults[i]);
                assert(defaults@.take(i + 1) =~= defaults@.take(i as int).push(
                    defaults@[i as int],
                ));
                i = i + 1;
            }
            assert(defaults@.take(i as int) =~= defaults@);
            out
        },
    }
}

// ---- parametric transforms -------------------------------------------------

/// An attribute and the text it holds in the source, if it is there.
pub struct AttrText {
    pub name: &'static str,
    pub raw: Option<String>,
}

/// Whether an attribute holds something that is not all plain numbers.
pub open spec fn is_parametric(a: AttrText) -> bool {
    match a.raw {
        Some(s) => !all_numbers(s@),
        None => false,
    }
}

/// The first attribute with an expression in it.
pub fn expr_attr(attrs: &Vec<AttrText>) -> (r: Option<String>)
    ensures
        match r {
            None => forall|i: int| 0 <= i < attrs@.len() ==> !is_parametric(#[trigger] attrs@[i]),
            Some(text) => exists|k: int|
                {
                    &&& 0 <= k < attrs@.len()
                    &&& is_parametric(#[trigger] attrs@[k])
                    &&& forall|j: int| 0 <= j < k ==> !is_parametric(#[trigger] attrs@[j])
                    &&& text@ == attrs@[k].name@ + "="@ + trimmed((attrs@[k].raw->0)@)
                },
        },
{
    let mut i: usize = 0;
    while i < attrs.len()
        invariant
            i <= attrs@.len(),
            forall|j: int| 0 <= j < i ==> !is_parametric(#[trigger] attrs@[j]),
        decreases attrs.len() - i,
    {
        if let VecField::Locked(t) = vec_field(&attrs[i].raw) {
            assert(is_parametric(attrs@[i as int]));
            return Some(cat3(attrs[i].name, "=", t.as_str()));
        }
        i = i + 1;
    }
    None
}

// ---- laws ------------------------------------------------------------------

proof fn lemma_digits_run(s: Seq<char>, i: int)
    requires
        0 <= i <= s.len(),
    ensures
        i <= digits_end(s, i) <= s.len(),
        forall|k: int| i <= k < digits_end(s, i) ==> is_digit(#[trigger] s[k]),
    decreases s.len() - i,
{
    if i < s.len() && is_digit(s[i]) {
        lemma_digits_run(s, i + 1);
    }
}

/// A character that a number may hold: a digit, a dot, a sign, or a letter.
pub open spec fn in_numbers(c: char) -> bool {
    '0' <= c <= '9' || c == '.' || c == '+' || c == '-' || 'a' <= c <= 'z' || 'A' <= c <= 'Z'
}

proof fn lemma_exponent_chars(s: Seq<char>, i: int)
    requires
        is_exponent(s),
        0 <= i < s.len(),
    ensures
        in_numbers(s[i]),
{
    let d = unsigned_text(s);
    lemma_digits_run(d, 0);
    if d.len() < s.len() {
        if i > 0 {
            assert(d[i - 1] == s[i]);
        }
    } else {
        assert(d[i] == s[i]);
    }
}

proof fn lemma_decimal_chars(s: Seq<char>, i: int)
    requires
        is_decimal(s),
        0 <= i < s.len(),
    ensures
        in_numbers(s[i]),
{
    let whole = digits_end(s, 0);
    lemma_digits_run(s, 0);
    let dot = whole < s.len() && s[whole] == '.';
    if dot {
        lemma_digits_run(s, whole + 1);
    }
    let end = if dot {
        digits_end(s, whole + 1)
    } else {
        whole
    };
    if i > end {
        let t = s.skip(end + 1);
        assert(t[i - end - 1] == s[i]);
        lemma_exponent_chars(t, i - end - 1);
    }
}

/// A text with anything in it that no number holds, such as a bracket, an
/// operator, a blank or a quote, is no number, so that it is never overwritten
/// by a drag.
pub proof fn law_expressions_are_no_numbers(s: &str, r: bool, i: int)
    requires
        call_ensures(number_text, (s,), r),
        0 <= i < s@.len(),
        !in_numbers(s@[i]),
    ensures
        !r,
{
    let u = unsigned_text(s@);
    let k = if u.len() < s@.len() {
        i - 1
    } else {
        i
    };
    assert(u[k] == s@[i]);
    if is_decimal(u) {
        lemma_decimal_chars(u, k);
    }
    lemma_words_of_numbers();
    assert(ascii_lower(u)[k] == ascii_lower_char(u[k]));
    assert(ascii_lower(u)[k] == u[k]);
    assert(ascii_lower(u).len() == u.len());
    if ascii_lower(u) == "inf"@ {
        assert('a' <= "inf"@[k] <= 'z');
    }
    if ascii_lower(u) == "infinity"@ {
        assert('a' <= "infinity"@[k] <= 'z');
    }
    if ascii_lower(u) == "nan"@ {
        assert('a' <= "nan"@[k] <= 'z');
    }
}

proof fn lemma_words_of_numbers()
    ensures
        forall|k: int| 0 <= k < "inf"@.len() ==> 'a' <= #[trigger] "inf"@[k] <= 'z',
        forall|k: int| 0 <= k < "infinity"@.len() ==> 'a' <= #[trigger] "infinity"@[k] <= 'z',
        forall|k: int| 0 <= k < "nan"@.len() ==> 'a' <= #[trigger] "nan"@[k] <= 'z',
{
    reveal_strlit("inf");
    reveal_strlit("infinity");
    reveal_strlit("nan");
}

proof fn lemma_all_digits(s: Seq<char>, i: int)
    requires
        0 <= i <= s.len(),
        forall|k: int| i <= k < s.len() ==> is_digit(#[trigger] s[k]),
    ensures
        digits_end(s, i) == s.len(),
    decreases s.len() - i,
{
    if i < s.len() {
        lemma_all_digits(s, i + 1);
    }
}

proof fn lemma_digits_stop(s: Seq<char>, i: int, n: int)
    requires
        0 <= i <= n < s.len(),
        forall|k: int| i <= k < n ==> is_digit(#[trigger] s[k]),
        !is_digit(s[n]),
    ensures
        digits_end(s, i) == n,
    decreases n - i,
{
    if i < n {
        lemma_digits_stop(s, i + 1, n);
    }
}

/// Digits are a number, and so are digits with a dot and digits behind them,
/// and either of them behind a minus.
pub proof fn law_decimals_are_numbers(
    whole: Seq<char>,
    frac: Seq<char>,
    a: &str,
    b: &str,
    c: &str,
    ra: bool,
    rb: bool,
    rc: bool,
)
    requires
        whole.len() > 0,
        forall|k: int| 0 <= k < whole.len() ==> '0' <= #[trigger] whole[k] <= '9',
        forall|k: int| 0 <= k < frac.len() ==> '0' <= #[trigger] frac[k] <= '9',
        a@ == whole,
        b@ == whole + seq!['.'] + frac,
        c@ == seq!['-'] + b@,
        call_ensures(number_text, (a,), ra),
        call_ensures(number_text, (b,), rb),
        call_ensures(number_text, (c,), rc),
    ensures
        ra && rb && rc,
{
    lemma_all_digits(whole, 0);
    assert(is_decimal(whole));
    assert(unsigned_text(whole) == whole);
    let d = whole + seq!['.'] + frac;
    let n = whole.len() as int;
    assert(forall|k: int| 0 <= k < n ==> #[trigger] d[k] == whole[k]);
    assert(d[n] == '.');
    lemma_digits_stop(d, 0, n);
    assert forall|k: int| n + 1 <= k < d.len() implies is_digit(#[trigger] d[k]) by {
        assert(d[k] == frac[k - n - 1]);
    }
    lemma_all_digits(d, n + 1);
    assert(is_decimal(d));
    assert(d[0] == whole[0]);
    assert(unsigned_text(d) == d);
    assert(unsigned_text(c@) =~= d);
}

/// A field shows what its attribute holds, without the blanks around it: as a
/// number that can be edited exactly when it is one, else locked. Only without
/// the attribute is it empty.
pub proof fn law_fields_show_the_attribute(raw: &Option<String>, f: Field, text: &str, number: bool)
    requires
        call_ensures(field, (raw,), f),
        *raw matches Some(s) ==> text@ == trimmed(s@),
        call_ensures(number_text, (text,), number),
    ensures
        f is Absent <==> *raw is None,
        *raw is Some && number ==> (f matches Field::Num(t) && t@ == text@),
        *raw is Some && !number ==> (f matches Field::Locked(t) && t@ == text@),
{
}

/// A list is editable exactly when every component of it is a number; then its
/// components are shown one by one, and otherwise it is shown as it is.
pub proof fn law_lists_lock_as_a_whole(raw: &Option<String>, f: VecField)
    requires
        call_ensures(vec_field, (raw,), f),
    ensures
        f is Absent <==> *raw is None,
        f matches VecField::Nums(n) ==> forall|i: int|
            0 <= i < n@.len() ==> is_number((#[trigger] n@[i])@),
        f matches VecField::Locked(t) ==> t@ == trimmed((raw->0)@),
{
    if let VecField::Nums(n) = f {
        let s = (raw->0)@;
        assert(views(n@) == components(s));
        assert forall|i: int| 0 <= i < n@.len() implies is_number((#[trigger] n@[i])@) by {
            assert(views(n@)[i] == n@[i]@);
            assert(is_number(components(s)[i]));
        }
    }
}

proof fn lemma_split_three(x: Seq<char>, y: Seq<char>, z: Seq<char>)
    requires
        !x.contains(','),
        !y.contains(','),
        !z.contains(','),
    ensures
        split_on(x + seq![','] + y + seq![','] + z, ',') == seq![x, y, z],
{
    let s = x + seq![','] + y + seq![','] + z;
    let t = y + seq![','] + z;
    lemma_split_first(x, t);
    assert(s =~= x + seq![','] + t);
    lemma_split_first(y, z);
    lemma_split_none(z);
    assert(seq![x] + (seq![y] + seq![z]) =~= seq![x, y, z]);
}

proof fn lemma_split_first(x: Seq<char>, t: Seq<char>)
    requires
        !x.contains(','),
    ensures
        split_on(x + seq![','] + t, ',') == seq![x] + split_on(t, ','),
{
    let s = x + seq![','] + t;
    assert forall|k: int| 0 <= k < x.len() implies #[trigger] s[k] != ',' by {
        assert(x.contains(x[k]));
    }
    assert(s[x.len() as int] == ',');
    lemma_find_at(s, ',', x.len() as int);
    assert(s.take(x.len() as int) =~= x);
    assert(s.skip(x.len() as int + 1) =~= t);
}

proof fn lemma_split_none(z: Seq<char>)
    requires
        !z.contains(','),
    ensures
        split_on(z, ',') == seq![z],
{
    assert forall|k: int| 0 <= k < z.len() implies #[trigger] z[k] != ',' by {
        assert(z.contains(z[k]));
    }
    lemma_find_at(z, ',', z.len() as int);
}

/// A plain component: not empty, and without blanks, commas and brackets.
pub open spec fn is_component(x: Seq<char>) -> bool {
    x.len() > 0 && forall|k: int|
        0 <= k < x.len() ==> !is_space(#[trigger] x[k]) && x[k] != ',' && x[k] != '[' && x[k] != ']'
}

proof fn lemma_trim_component(x: Seq<char>)
    requires
        is_component(x),
    ensures
        trimmed(x) == x,
        trimmed(seq![' '] + x) == x,
{
    let p = |c: char| is_space(c);
    lemma_drop_front_skip(x, p, 0);
    assert(x.skip(0) =~= x);
    assert(!p(x.last())) by {
        assert(!is_space(x[x.len() - 1]));
    }
    assert(!p(x[0]));
    let y = seq![' '] + x;
    assert(y[0] == ' ');
    assert(is_space(' '));
    assert(y[1] == x[0]);
    lemma_drop_front_skip(y, p, 1);
    assert(y.skip(1) =~= x);
}

/// Three numbers that were written as a list are read back one by one.
pub proof fn law_triples_read_back(
    raw: &Option<String>,
    x: Seq<char>,
    y: Seq<char>,
    z: Seq<char>,
    f: VecField,
)
    requires
        is_component(x) && is_component(y) && is_component(z),
        is_number(x) && is_number(y) && is_number(z),
        opt_view(*raw) == Some("["@ + x + ", "@ + y + ", "@ + z + "]"@),
        call_ensures(vec_field, (raw,), f),
    ensures
        f matches VecField::Nums(n) && views(n@) == seq![x, y, z],
{
    reveal_strlit("[");
    reveal_strlit("]");
    reveal_strlit(", ");
    let s = (raw->0)@;
    let inner = x + seq![','] + (seq![' '] + y) + seq![','] + (seq![' '] + z);
    assert(s =~= seq!['['] + inner + seq![']']);
    assert(inner[0] == x[0]);
    assert(inner.last() == z[z.len() - 1]);
    lemma_inside_brackets(inner);
    lemma_no_comma(x);
    lemma_no_comma(y);
    lemma_no_comma(z);
    lemma_split_three(x, seq![' '] + y, seq![' '] + z);
    lemma_trim_component(x);
    lemma_trim_component(y);
    lemma_trim_component(z);
    assert(components(s) =~= seq![x, y, z]);
}

proof fn lemma_no_comma(w: Seq<char>)
    requires
        is_component(w),
    ensures
        !w.contains(','),
        !(seq![' '] + w).contains(','),
{
    let v = seq![' '] + w;
    assert forall|k: int| 0 <= k < v.len() implies #[trigger] v[k] != ',' by {
        if k > 0 {
            assert(v[k] == w[k - 1]);
        }
    }
}

proof fn lemma_inside_brackets(inner: Seq<char>)
    requires
        inner.len() > 0,
        inner[0] != '[',
        inner.last() != ']',
    ensures
        without_back(
            without_front(trimmed(seq!['['] + inner + seq![']']), '['),
            ']',
        ) == inner,
{
    let s = seq!['['] + inner + seq![']'];
    let p = |c: char| is_space(c);
    assert(s[0] == '[' && s.last() == ']');
    assert(!is_space('[') && !is_space(']'));
    lemma_drop_front_skip(s, p, 0);
    assert(s.skip(0) =~= s);
    assert(trimmed(s) == s);
    assert(s[1] == inner[0]);
    lemma_drop_front_skip(s, only('['), 1);
    let t = without_front(s, '[');
    assert(t =~= inner + seq![']']);
    assert(t.last() == ']');
    assert(t.drop_last() =~= inner);
    assert(drop_back(t, only(']')) == drop_back(inner, only(']')));
    assert(drop_back(inner, only(']')) == inner);
}

/// A row shows one value throughout, or the values in order, cut to its width
/// and filled up with the default.
pub proof fn law_rows_fit_the_values<T: Copy>(
    n: &Vec<T>,
    arity: usize,
    default: T,
    r: Vec<T>,
    i: int,
)
    requires
        call_ensures(fit_components::<T>, (n, arity, default), r),
        0 <= i < arity,
    ensures
        r@.len() == arity,
        n@.len() == 1 ==> r@[i] == n@[0],
        n@.len() != 1 && i < n@.len() ==> r@[i] == n@[i],
        n@.len() != 1 && i >= n@.len() ==> r@[i] == default,
{
}

/// Rows show what is authored; without that the default, or the defaults one
/// by one.
pub proof fn law_rows_show_the_defaults<T: Copy>(
    arity: usize,
    default: T,
    defaults: &Vec<T>,
    a: Vec<T>,
    b: Vec<T>,
    i: int,
)
    requires
        call_ensures(row_components::<T>, (&None, arity, default), a),
        call_ensures(schema_row_components::<T>, (&None, defaults), b),
    ensures
        a@.len() == arity,
        0 <= i < arity ==> a@[i] == default,
        b@ == defaults@,
{
}

/// The first attribute with an expression in it is named, with the expression;
/// there is none exactly when all are plain numbers or absent.
pub proof fn law_first_expression_is_named(attrs: &Vec<AttrText>, r: Option<String>, k: int)
    requires
        call_ensures(expr_attr, (attrs,), r),
        0 <= k < attrs@.len(),
        is_parametric(attrs@[k]),
        forall|j: int| 0 <= j < k ==> !is_parametric(#[trigger] attrs@[j]),
    ensures
        r matches Some(t) && t@ == attrs@[k].name@ + "="@ + trimmed((attrs@[k].raw->0)@),
{
    if let Some(t) = r {
        let q = choose|q: int|
            {
                &&& 0 <= q < attrs@.len()
                &&& is_parametric(#[trigger] attrs@[q])
                &&& forall|j: int| 0 <= j < q ==> !is_parametric(#[trigger] attrs@[j])
                &&& t@ == attrs@[q].name@ + "="@ + trimmed((attrs@[q].raw->0)@)
            };
        assert(is_parametric(attrs@[q]));
        if q < k {
            assert(!is_parametric(attrs@[q]));
        }
    } else {
        assert(!is_parametric(attrs@[k]));
    }
}

/// A word is read without the blanks around it and without its quotes.
pub proof fn law_words_lose_their_quotes(raw: &Option<String>, w: Seq<char>, r: Option<String>)
    requires
        call_ensures(read_str, (raw,), r),
        *raw is Some ==> (raw->0)@ == seq!['"'] + w + seq!['"'],
        w.len() > 0,
        w[0] != '"',
        w.last() != '"',
    ensures
        *raw is None ==> r is None,
        *raw is Some ==> (r matches Some(t) && t@ == w),
{
    if *raw is Some {
        let s = seq!['"'] + w + seq!['"'];
        let p = |c: char| is_space(c);
        assert(s[0] == '"' && s.last() == '"');
        assert(!is_space('"'));
        lemma_drop_front_skip(s, p, 0);
        assert(s.skip(0) =~= s);
        assert(trimmed(s) == s);
        assert(s[1] == w[0]);
        lemma_drop_front_skip(s, only('"'), 1);
        let t = without_front(s, '"');
        assert(t =~= w + seq!['"']);
        assert(t.last() == '"');
        assert(t.drop_last() =~= w);
        assert(drop_back(t, only('"')) == drop_back(w, only('"')));
        assert(drop_back(w, only('"')) == w);
    }
}

/// A number may have an exponent behind a small or a capital `e`, with or
/// without a sign, and behind a fraction too.
pub proof fn law_exponents_are_numbers(
    whole: Seq<char>,
    frac: Seq<char>,
    e: char,
    exponent: Seq<char>,
    a: &str,
    b: &str,
    ra: bool,
    rb: bool,
)
    requires
        whole.len() > 0,
        exponent.len() > 0,
        e == 'e' || e == 'E',
        forall|k: int| 0 <= k < whole.len() ==> '0' <= #[trigger] whole[k] <= '9',
        forall|k: int| 0 <= k < frac.len() ==> '0' <= #[trigger] frac[k] <= '9',
        forall|k: int| 0 <= k < exponent.len() ==> '0' <= #[trigger] exponent[k] <= '9',
        a@ == whole + seq![e] + exponent,
        b@ == whole + seq!['.'] + frac + seq![e, '-'] + exponent,
        call_ensures(number_text, (a,), ra),
        call_ensures(number_text, (b,), rb),
    ensures
        ra && rb,
{
    let n = whole.len() as int;
    lemma_all_digits(exponent, 0);
    assert(unsigned_text(exponent) == exponent);
    assert(is_exponent(exponent));
    assert(forall|k: int| 0 <= k < n ==> #[trigger] a@[k] == whole[k]);
    assert(a@[n] == e);
    lemma_digits_stop(a@, 0, n);
    assert(a@.skip(n + 1) =~= exponent);
    assert(is_decimal(a@));
    assert(a@[0] == whole[0]);
    assert(unsigned_text(a@) == a@);
    let m = n + 1 + frac.len();
    assert(forall|k: int| 0 <= k < n ==> #[trigger] b@[k] == whole[k]);
    assert(b@[n] == '.');
    lemma_digits_stop(b@, 0, n);
    assert forall|k: int| n + 1 <= k < m implies is_digit(#[trigger] b@[k]) by {
        assert(b@[k] == frac[k - n - 1]);
    }
    assert(b@[m] == e);
    lemma_digits_stop(b@, n + 1, m);
    let tail = seq!['-'] + exponent;
    assert(b@.skip(m + 1) =~= tail);
    assert(unsigned_text(tail) =~= exponent);
    assert(is_exponent(tail));
    assert(is_decimal(b@));
    assert(b@[0] == whole[0]);
    assert(unsigned_text(b@) == b@);
}

} // verus!
