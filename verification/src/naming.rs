//! Fresh names for declarations, by counting up from those in the source.

use vstd::prelude::*;

use crate::text::{
    after_prefix, blank, cat2, cat3, chars_of, decimal, decimal_digits, digit_char, find, find_from,
    holds_at, is_space, lemma_drop_front, lemma_drop_front_skip, lemma_find_at, lemma_find_bound,
    space_char, stands_at, strip_prefix, trim_start, trimmed_start,
};

verus! {

/// Whether `c` is an ASCII digit.
pub open spec fn is_digit(c: char) -> bool {
    '0' <= c <= '9'
}

/// The number that a row of digits stands for.
pub open spec fn digits_value(s: Seq<char>) -> nat
    decreases s.len(),
{
    if s.len() == 0 {
        0
    } else {
        10 * digits_value(s.drop_last()) + (s.last() as nat - 48) as nat
    }
}

/// Whether a text is a row of one or more digits.
pub open spec fn all_digits(s: Seq<char>) -> bool {
    s.len() > 0 && forall|i: int| 0 <= i < s.len() ==> is_digit(#[trigger] s[i])
}

/// A text without one leading plus sign.
pub open spec fn unsigned_part(s: Seq<char>) -> Seq<char> {
    if s.len() > 0 && s[0] == '+' {
        s.skip(1)
    } else {
        s
    }
}

/// The 32-bit number that a text holds: digits, perhaps after a plus sign.
pub open spec fn number_in(s: Seq<char>) -> Option<nat> {
    let d = unsigned_part(s);
    if all_digits(d) && digits_value(d) <= u32::MAX {
        Some(digits_value(d))
    } else {
        None
    }
}

proof fn lemma_value_grows(s: Seq<char>, n: int)
    requires
        0 <= n <= s.len(),
        forall|i: int| 0 <= i < s.len() ==> is_digit(#[trigger] s[i]),
    ensures
        digits_value(s.take(n)) <= digits_value(s),
    decreases s.len() - n,
{
    if n < s.len() {
        let t = s.drop_last();
        assert(t.take(n) =~= s.take(n));
        assert forall|i: int| 0 <= i < t.len() implies is_digit(#[trigger] t[i]) by {
            assert(t[i] == s[i]);
        }
        lemma_value_grows(t, n);
    } else {
        assert(s.take(n) =~= s);
    }
}

/// The 32-bit number that a text holds.
pub fn parse_number(s: &str) -> (r: Option<u32>)
    ensures
        match r {
            Some(n) => number_in(s@) == Some(n as nat),
            None => number_in(s@) is None,
        },
{
    let cs = chars_of(s);
    let from: usize = if cs.len() > 0 && cs[0] == '+' {
        1
    } else {
        0
    };
    let ghost d = unsigned_part(s@);
    assert(d =~= s@.skip(from as int));
    if from == cs.len() {
        return None;
    }
    let mut n: u64 = 0;
    let mut i: usize = from;
    while i < cs.len()
        invariant
            from <= i <= cs@.len(),
            cs@ == s@,
            d == s@.skip(from as int),
            d == unsigned_part(s@),
            forall|j: int| 0 <= j < i - from ==> is_digit(#[trigger] d[j]),
            n == digits_value(d.take(i - from)),
            n <= u32::MAX,
        decreases cs.len() - i,
    {
        let c = cs[i];
        assert(d[i - from] == c);
        if !('0' <= c && c <= '9') {
            return None;
        }
        let v: u64 = (c as u32 - 48) as u64;
        assert(d.take(i - from + 1).drop_last() =~= d.take(i - from));
        n = 10 * n + v;
        if n > u32::MAX as u64 {
            proof {
                if all_digits(d) {
                    lemma_value_grows(d, i - from + 1);
                }
            }
            return None;
        }
        i = i + 1;
    }
    assert(d.take(i - from) =~= d);
    Some(n as u32)
}

// ---- declarations in a source ----------------------------------------------

/// Whether `c` can be part of a keyword: an ASCII letter or digit, or an
/// underscore.
pub open spec fn is_word_char(c: char) -> bool {
    '0' <= c <= '9' || 'A' <= c <= 'Z' || 'a' <= c <= 'z' || c == '_'
}

/// Whether the keyword `kind` stands at index `i` of a source and is not the
/// end of a longer word.
pub open spec fn keyword_at(src: Seq<char>, kind: Seq<char>, i: int) -> bool {
    stands_at(src, kind, i) && (i == 0 || !is_word_char(src[i - 1]))
}

/// The text in quotes that a text starts with, after one or more blanks.
pub open spec fn quoted_after_blanks(s: Seq<char>) -> Option<Seq<char>> {
    if s.len() > 0 && is_space(s[0]) {
        match after_prefix(trimmed_start(s), seq!['"']) {
            None => None,
            Some(q) => if find(q, '"') < q.len() {
                Some(q.take(find(q, '"') as int))
            } else {
                None
            },
        }
    } else {
        None
    }
}

/// The name that a source declares at index `i`: the text in quotes after the
/// keyword `kind`, if the keyword stands there.
pub open spec fn declared_name(src: Seq<char>, kind: Seq<char>, i: int) -> Option<Seq<char>> {
    if keyword_at(src, kind, i) {
        quoted_after_blanks(src.skip(i + kind.len()))
    } else {
        None
    }
}

/// What the numbered names of a kind start with.
pub open spec fn name_prefix(kind: Seq<char>) -> Seq<char> {
    kind.push('_')
}

/// The number in a numbered name of a kind.
pub open spec fn name_number(name: Option<Seq<char>>, kind: Seq<char>) -> Option<nat> {
    match name {
        None => None,
        Some(name) => match after_prefix(name, name_prefix(kind)) {
            None => None,
            Some(rest) => number_in(rest),
        },
    }
}

/// The largest number in the names of a kind that are declared before index
/// `n` of a source, or zero.
pub open spec fn largest_before(src: Seq<char>, kind: Seq<char>, n: int) -> nat
    decreases n,
{
    if n <= 0 {
        0
    } else {
        let before = largest_before(src, kind, n - 1);
        match name_number(declared_name(src, kind, n - 1), kind) {
            Some(k) => if k > before {
                k
            } else {
                before
            },
            None => before,
        }
    }
}

/// The largest number in the names of a kind that are declared anywhere in a
/// source, or zero.
pub open spec fn largest_number(src: Seq<char>, kind: Seq<char>) -> nat {
    largest_before(src, kind, src.len() as int)
}

/// The numbered name of a kind.
pub open spec fn numbered_name(kind: Seq<char>, n: nat) -> Seq<char> {
    name_prefix(kind) + decimal_digits(n)
}

/// The name after the last numbered one of a kind that `src` declares.
pub open spec fn next_name(src: Seq<char>, kind: Seq<char>) -> Seq<char> {
    numbered_name(kind, largest_number(src, kind) + 1)
}

/// The name after the last numbered material that `src` declares.
pub open spec fn next_material(src: Seq<char>) -> Seq<char> {
    "material_"@ + decimal_digits(largest_number(src, "material"@) + 1)
}

fn word_char(c: char) -> (r: bool)
    ensures
        r == is_word_char(c),
{
    ('0' <= c && c <= '9') || ('A' <= c && c <= 'Z') || ('a' <= c && c <= 'z') || c == '_'
}

/// The number in the name that `s` starts with, in quotes after one or more
/// blanks.
fn quoted_number(s: &str, prefix: &str, Ghost(kind): Ghost<Seq<char>>) -> (r: Option<u32>)
    requires
        prefix@ == name_prefix(kind),
    ensures
        match r {
            Some(n) => name_number(quoted_after_blanks(s@), kind) == Some(n as nat),
            None => name_number(quoted_after_blanks(s@), kind) is None,
        },
{
    proof {
        reveal_strlit("\"");
        assert("\""@ =~= seq!['"']);
    }
    if s.unicode_len() == 0 || !space_char(s.get_char(0)) {
        return None;
    }
    let after_quote = match strip_prefix(trim_start(s), "\"") {
        Some(q) => q,
        None => return None,
    };
    let cs = chars_of(after_quote);
    let end = find_from(&cs, 0, '"');
    assert(cs@.skip(0) =~= cs@);
    if end == cs.len() {
        return None;
    }
    let name = after_quote.substring_char(0, end);
    assert(name@ =~= after_quote@.take(end as int));
    match strip_prefix(name, prefix) {
        Some(rest) => parse_number(rest),
        None => None,
    }
}

/// The largest number in the names of a kind that are declared anywhere in
/// `src`, or zero.
pub fn largest_declared(src: &str, kind: &str) -> (r: u32)
    ensures
        r == largest_number(src@, kind@),
{
    let cs = chars_of(src);
    let word = chars_of(kind);
    let prefix = cat2(kind, "_");
    proof {
        reveal_strlit("_");
        assert(prefix@ =~= name_prefix(kind@));
    }
    let mut max_n: u32 = 0;
    let mut i: usize = 0;
    while i < cs.len()
        invariant
            i <= cs@.len(),
            cs@ == src@,
            word@ == kind@,
            prefix@ == name_prefix(kind@),
            max_n == largest_before(src@, kind@, i as int),
        decreases cs.len() - i,
    {
        if holds_at(&cs, &word, i) && (i == 0 || !word_char(cs[i - 1])) {
            let after = src.substring_char(i + word.len(), cs.len());
            assert(after@ =~= src@.skip(i + kind@.len()));
            if let Some(n) = quoted_number(after, prefix.as_str(), Ghost(kind@)) {
                if n > max_n {
                    max_n = n;
                }
            }
        }
        i = i + 1;
    }
    max_n
}

/// A name for a new clip: its kind and the number after the largest one in use
/// for that kind.
pub fn next_proc_clip_name(src: &str, kind: &str) -> (r: String)
    requires
        largest_number(src@, kind@) < u32::MAX,
    ensures
        r@ == next_name(src@, kind@),
{
    let max_n = largest_declared(src, kind);
    let digits = decimal((max_n + 1) as usize);
    proof {
        reveal_strlit("_");
        assert(kind@ + "_"@ =~= name_prefix(kind@));
    }
    cat3(kind, "_", digits.as_str())
}

/// A name for a new material: `material_` with the number after the largest
/// one in use.
pub fn next_material_name(src: &str) -> (r: String)
    requires
        largest_number(src@, "material"@) < u32::MAX,
    ensures
        r@ == next_material(src@),
{
    proof {
        law_materials_are_named_like_clips(src@);
    }
    next_proc_clip_name(src, "material")
}

// ---- laws ------------------------------------------------------------------

proof fn lemma_digits_read_back(n: nat)
    ensures
        all_digits(decimal_digits(n)),
        digits_value(decimal_digits(n)) == n,
    decreases n,
{
    let s = decimal_digits(n);
    if n < 10 {
        assert(s[0] == digit_char(n));
        assert(s.drop_last() =~= Seq::empty());
        assert(digits_value(s.drop_last()) == 0);
    } else {
        lemma_digits_read_back(n / 10);
        let t = decimal_digits(n / 10);
        assert(s.drop_last() =~= t);
        assert forall|i: int| 0 <= i < s.len() implies is_digit(#[trigger] s[i]) by {
            if i < t.len() {
                assert(s[i] == t[i]);
            }
        }
    }
}

/// A declaration, taken apart: the keyword at `i`, blanks up to the quote at
/// `o`, and the closing quote at `c`.
spec fn laid_out(src: Seq<char>, kind: Seq<char>, i: int, o: int, c: int) -> bool {
    &&& keyword_at(src, kind, i)
    &&& i + kind.len() < o < c < src.len()
    &&& forall|k: int| i + kind.len() <= k < o ==> is_space(#[trigger] src[k])
    &&& src[o] == '"'
    &&& src[c] == '"'
    &&& forall|k: int| o < k < c ==> #[trigger] src[k] != '"'
}

proof fn lemma_laid_out_declares(src: Seq<char>, kind: Seq<char>, i: int, o: int, c: int)
    requires
        laid_out(src, kind, i, o, c),
    ensures
        declared_name(src, kind, i) == Some(src.subrange(o + 1, c)),
{
    let from = i + kind.len();
    let s = src.skip(from);
    assert(s[0] == src[from]);
    assert forall|k: int| 0 <= k < o - from implies (|c: char| is_space(c))(#[trigger] s[k]) by {
        assert(s[k] == src[from + k]);
    }
    assert(s[o - from] == '"');
    lemma_drop_front_skip(s, |c: char| is_space(c), o - from);
    let t = trimmed_start(s);
    assert(t =~= src.skip(o));
    assert(t.take(1) =~= seq!['"']);
    let q = t.skip(1);
    assert(q =~= src.skip(o + 1));
    assert forall|k: int| 0 <= k < c - o - 1 implies #[trigger] q[k] != '"' by {
        assert(q[k] == src[o + 1 + k]);
    }
    assert(q[c - o - 1] == src[c]);
    lemma_find_at(q, '"', c - o - 1);
    assert(q.take(c - o - 1) =~= src.subrange(o + 1, c));
}

proof fn lemma_declared_is_laid_out(src: Seq<char>, kind: Seq<char>, i: int) -> (r: (int, int))
    requires
        declared_name(src, kind, i) is Some,
    ensures
        laid_out(src, kind, i, r.0, r.1),
        declared_name(src, kind, i) == Some(src.subrange(r.0 + 1, r.1)),
{
    let from = i + kind.len();
    let s = src.skip(from);
    let n = lemma_drop_front(s, |c: char| is_space(c));
    let t = trimmed_start(s);
    assert(t == s.skip(n));
    let o = from + n;
    assert(t.take(1)[0] == '"');
    assert(t[0] == src[o]);
    assert(n > 0);
    assert forall|k: int| from <= k < o implies is_space(#[trigger] src[k]) by {
        assert((|c: char| is_space(c))(s[k - from]));
    }
    let q = t.skip(1);
    lemma_find_bound(q, '"');
    let c = o + 1 + find(q, '"');
    assert(q[find(q, '"') as int] == src[c]);
    assert forall|k: int| o < k < c implies #[trigger] src[k] != '"' by {
        assert(q[k - o - 1] == src[k]);
    }
    assert(q.take(find(q, '"') as int) =~= src.subrange(o + 1, c));
    (o, c)
}

proof fn lemma_largest(src: Seq<char>, kind: Seq<char>, n: int, i: int)
    requires
        0 <= i < n,
        name_number(declared_name(src, kind, i), kind) is Some,
    ensures
        name_number(declared_name(src, kind, i), kind)->0 <= largest_before(src, kind, n),
    decreases n,
{
    if i < n - 1 {
        lemma_largest(src, kind, n - 1, i);
    }
}

proof fn lemma_largest_bound(src: Seq<char>, kind: Seq<char>, n: int, bound: nat)
    requires
        forall|i: int|
            0 <= i < n && (#[trigger] name_number(declared_name(src, kind, i), kind)) is Some
                ==> name_number(declared_name(src, kind, i), kind)->0 <= bound,
    ensures
        largest_before(src, kind, n) <= bound,
    decreases n,
{
    if n > 0 {
        lemma_largest_bound(src, kind, n - 1, bound);
    }
}

proof fn lemma_name_has_its_number(kind: Seq<char>, n: nat)
    requires
        n <= u32::MAX,
    ensures
        name_number(Some(numbered_name(kind, n)), kind) == Some(n),
{
    let name = numbered_name(kind, n);
    let prefix = name_prefix(kind);
    lemma_digits_read_back(n);
    assert(name.take(prefix.len() as int) =~= prefix);
    assert(name.skip(prefix.len() as int) =~= decimal_digits(n));
    assert(unsigned_part(decimal_digits(n)) == decimal_digits(n)) by {
        assert(is_digit(decimal_digits(n)[0]));
    }
}

/// The suggested name is new: nowhere in the source is it declared.
pub proof fn law_next_name_is_fresh(src: Seq<char>, kind: Seq<char>, i: int)
    requires
        largest_number(src, kind) < u32::MAX,
    ensures
        declared_name(src, kind, i) != Some(next_name(src, kind)),
{
    let n = largest_number(src, kind) + 1;
    if declared_name(src, kind, i) == Some(next_name(src, kind)) {
        lemma_name_has_its_number(kind, n);
        let at = lemma_declared_is_laid_out(src, kind, i);
        lemma_largest(src, kind, src.len() as int, i);
    }
}

/// A material is named as a clip would be whose kind is `material`.
pub proof fn law_materials_are_named_like_clips(src: Seq<char>)
    ensures
        next_material(src) == next_name(src, "material"@),
{
    reveal_strlit("material");
    reveal_strlit("material_");
    assert("material_"@ =~= name_prefix("material"@));
}

/// A source with a declaration of `name` put behind it: after the blanks
/// `gap`, and with `rest` after the name.
pub open spec fn with_declaration(
    src: Seq<char>,
    gap: Seq<char>,
    kind: Seq<char>,
    name: Seq<char>,
    rest: Seq<char>,
) -> Seq<char> {
    src + gap + kind + seq![' ', '"'] + name + seq!['"'] + rest
}

/// Whether a text has no quote, and so no name in quotes, behind a blank or at
/// its start.
pub open spec fn no_names(s: Seq<char>) -> bool {
    forall|i: int| 0 <= i < s.len() && #[trigger] s[i] == '"' ==> i > 0 && !is_space(s[i - 1])
}

/// The characters of a source with a declaration behind it, place by place.
spec fn has_behind(
    new: Seq<char>,
    src: Seq<char>,
    gap: Seq<char>,
    kind: Seq<char>,
    name: Seq<char>,
    rest: Seq<char>,
) -> bool {
    let p = src.len() + gap.len();
    let q1 = p + kind.len() + 1;
    let q2 = q1 + 1 + name.len();
    &&& new.len() == q2 + 1 + rest.len()
    &&& forall|k: int| 0 <= k < src.len() ==> #[trigger] new[k] == src[k]
    &&& forall|k: int| src.len() <= k < p ==> #[trigger] new[k] == gap[k - src.len()]
    &&& forall|k: int| p <= k < q1 - 1 ==> #[trigger] new[k] == kind[k - p]
    &&& new[q1 - 1] == ' '
    &&& new[q1 as int] == '"'
    &&& forall|k: int| q1 < k < q2 ==> #[trigger] new[k] == name[k - q1 - 1]
    &&& new[q2 as int] == '"'
    &&& forall|k: int| q2 < k < new.len() ==> #[trigger] new[k] == rest[k - q2 - 1]
}

proof fn lemma_has_behind(
    src: Seq<char>,
    gap: Seq<char>,
    kind: Seq<char>,
    name: Seq<char>,
    rest: Seq<char>,
)
    ensures
        has_behind(
            with_declaration(src, gap, kind, name, rest),
            src,
            gap,
            kind,
            name,
            rest,
        ),
{
    let a = src + gap;
    let b = a + kind;
    let c = b + seq![' ', '"'];
    let d = c + name;
    let e = d + seq!['"'];
    let new = e + rest;
    let p = src.len() + gap.len();
    assert forall|k: int| src.len() <= k < p implies #[trigger] new[k] == gap[k - src.len()] by {
        assert(new[k] == a[k]);
    }
    assert forall|k: int| p <= k < b.len() implies #[trigger] new[k] == kind[k - p] by {
        assert(new[k] == b[k]);
    }
    assert(new[b.len() as int] == c[b.len() as int]);
    assert(new[b.len() as int + 1] == c[b.len() as int + 1]);
    assert forall|k: int| c.len() <= k < d.len() implies #[trigger] new[k] == name[k - c.len()] by {
        assert(new[k] == d[k]);
    }
    assert(new[d.len() as int] == e[d.len() as int]);
}

/// The name of a declaration that starts in the source and ends at the quote
/// in front of the added name has a blank at its end, and so no number.
proof fn lemma_no_number_before_quote(text: Seq<char>, kind: Seq<char>)
    requires
        text.len() > 0,
        text.last() == ' ',
    ensures
        name_number(Some(text), kind) is None,
{
    let prefix = name_prefix(kind);
    if after_prefix(text, prefix) is Some {
        assert(text.take(prefix.len() as int).last() == '_');
        let number = text.skip(prefix.len() as int);
        assert(number.len() > 0);
        assert(number.last() == ' ');
        let d = unsigned_part(number);
        if d.len() > 0 {
            assert(d.last() == ' ');
            assert(!is_digit(d[d.len() - 1]));
        }
    }
}

/// No declaration in a source with the suggested name behind it has a number
/// above that of the suggested name.
proof fn lemma_numbers_behind(
    new: Seq<char>,
    src: Seq<char>,
    gap: Seq<char>,
    kind: Seq<char>,
    rest: Seq<char>,
    i: int,
)
    requires
        largest_number(src, kind) < u32::MAX,
        has_behind(new, src, gap, kind, next_name(src, kind), rest),
        blank(gap),
        !kind.contains('"'),
        no_names(rest),
        name_number(declared_name(new, kind, i), kind) is Some,
    ensures
        name_number(declared_name(new, kind, i), kind)->0 <= largest_number(src, kind) + 1,
{
    let n = largest_number(src, kind) + 1;
    let name = next_name(src, kind);
    let digits = decimal_digits(n);
    let p = (src.len() + gap.len()) as int;
    let q1 = p + kind.len() + 1;
    let q2 = q1 + 1 + name.len();
    let (o, c) = lemma_declared_is_laid_out(new, kind, i);
    let text = new.subrange(o + 1, c);
    assert(is_space(new[o - 1]));
    lemma_digits_read_back(n);
    lemma_name_has_its_number(kind, n);
    if o > q2 {
        assert(new[o] == rest[o - q2 - 1]);
        if o - q2 - 1 > 0 {
            assert(new[o - 1] == rest[o - q2 - 2]);
        }
    } else if o == q2 {
        assert(new[o - 1] == name.last());
        assert(name.last() == digits.last());
        assert(is_digit(digits[digits.len() - 1]));
    } else if o > q1 {
        assert(new[o] == name[o - q1 - 1]);
        lemma_name_is_unquoted(kind, n, o - q1 - 1);
    } else if o == q1 {
        if c < q2 {
            assert(new[c] == name[c - q1 - 1]);
            lemma_name_is_unquoted(kind, n, c - q1 - 1);
        }
        assert(c == q2);
        assert(text =~= name);
    } else {
        if src.len() <= o < p {
            assert(new[o] == gap[o - src.len()]);
            assert(is_space(gap[o - src.len()]));
        } else if p <= o < q1 - 1 {
            assert(new[o] == kind[o - p]);
        }
        assert(o < src.len());
        if c < src.len() {
            assert(src.subrange(i, i + kind.len()) =~= new.subrange(i, i + kind.len()));
            assert forall|k: int| i + kind.len() <= k < o implies is_space(#[trigger] src[k]) by {
                assert(new[k] == src[k]);
            }
            assert forall|k: int| o < k < c implies #[trigger] src[k] != '"' by {
                assert(new[k] == src[k]);
            }
            assert(laid_out(src, kind, i, o, c));
            lemma_laid_out_declares(src, kind, i, o, c);
            assert(src.subrange(o + 1, c) =~= text);
            lemma_largest(src, kind, src.len() as int, i);
        } else {
            if c < p {
                assert(new[c] == gap[c - src.len()]);
                assert(is_space(gap[c - src.len()]));
            } else if c < q1 - 1 {
                assert(new[c] == kind[c - p]);
            } else if c > q1 {
                assert(new[q1] != '"');
            }
            assert(c == q1);
            assert(text.last() == ' ');
            lemma_no_number_before_quote(text, kind);
        }
    }
}

proof fn lemma_name_is_unquoted(kind: Seq<char>, n: nat, j: int)
    requires
        !kind.contains('"'),
        0 <= j < numbered_name(kind, n).len(),
    ensures
        numbered_name(kind, n)[j] != '"',
{
    let name = numbered_name(kind, n);
    let digits = decimal_digits(n);
    lemma_digits_read_back(n);
    if j < kind.len() {
        assert(name[j] == kind[j]);
    } else if j > kind.len() {
        assert(name[j] == digits[j - kind.len() - 1]);
        assert(is_digit(digits[j - kind.len() - 1]));
    }
}

/// The suggested name is declared behind the source, and its number is the
/// largest there.
proof fn lemma_largest_behind(
    new: Seq<char>,
    src: Seq<char>,
    gap: Seq<char>,
    kind: Seq<char>,
    rest: Seq<char>,
)
    requires
        largest_number(src, kind) < u32::MAX,
        has_behind(new, src, gap, kind, next_name(src, kind), rest),
        blank(gap),
        src.len() + gap.len() == 0 || !is_word_char(new[src.len() + gap.len() - 1]),
        !kind.contains('"'),
        no_names(rest),
    ensures
        largest_number(new, kind) == largest_number(src, kind) + 1,
{
    let n = largest_number(src, kind) + 1;
    let name = next_name(src, kind);
    let p = (src.len() + gap.len()) as int;
    let q1 = p + kind.len() + 1;
    let q2 = q1 + 1 + name.len();
    lemma_name_has_its_number(kind, n);
    assert(new.subrange(p, p + kind.len()) =~= kind);
    assert(new.subrange(q1 + 1, q2) =~= name);
    assert forall|k: int| q1 < k < q2 implies #[trigger] new[k] != '"' by {
        lemma_name_is_unquoted(kind, n, k - q1 - 1);
    }
    assert(laid_out(new, kind, p, q1, q2));
    lemma_laid_out_declares(new, kind, p, q1, q2);
    lemma_largest(new, kind, new.len() as int, p);
    assert forall|i: int|
        0 <= i < new.len() && (#[trigger] name_number(declared_name(new, kind, i), kind)) is Some
        implies name_number(declared_name(new, kind, i), kind)->0 <= n by {
        lemma_numbers_behind(new, src, gap, kind, rest, i);
    }
    lemma_largest_bound(new, kind, new.len() as int, n);
}

/// Adding counts up: once the suggested name is declared behind the source,
/// the next suggestion has a number one higher. So no number of adds ever
/// repeats a name. The declaration starts a word of its own, its kind holds no
/// quote, and what follows the name declares no other.
pub proof fn law_adding_counts_up(
    src: Seq<char>,
    gap: Seq<char>,
    kind: Seq<char>,
    rest: Seq<char>,
)
    requires
        largest_number(src, kind) < u32::MAX,
        blank(gap),
        (src + gap).len() == 0 || !is_word_char((src + gap).last()),
        !kind.contains('"'),
        no_names(rest),
    ensures
        largest_number(with_declaration(src, gap, kind, next_name(src, kind), rest), kind)
            == largest_number(src, kind) + 1,
        next_name(with_declaration(src, gap, kind, next_name(src, kind), rest), kind)
            == numbered_name(kind, largest_number(src, kind) + 2),
{
    let name = next_name(src, kind);
    let p = (src.len() + gap.len()) as int;
    let new = with_declaration(src, gap, kind, name, rest);
    lemma_has_behind(src, gap, kind, name, rest);
    if p > 0 {
        if gap.len() > 0 {
            assert(new[p - 1] == gap[gap.len() - 1]);
        } else {
            assert(new[p - 1] == src[p - 1]);
        }
    }
    lemma_largest_behind(new, src, gap, kind, rest);
}

/// A name that the source declares for a kind, in quotes after its keyword and
/// blanks, is never suggested again.
pub proof fn law_declared_names_are_avoided(
    src: &str,
    kind: &str,
    r: String,
    i: int,
    o: int,
    c: int,
)
    requires
        largest_number(src@, kind@) < u32::MAX,
        call_ensures(next_proc_clip_name, (src, kind), r),
        0 <= i && i + kind@.len() < o < c < src@.len(),
        src@.subrange(i, i + kind@.len()) == kind@,
        i == 0 || src@[i - 1] == ' ' || src@[i - 1] == '\n' || src@[i - 1] == '\t' || src@[i - 1]
            == '{' || src@[i - 1] == '}',
        forall|k: int|
            i + kind@.len() <= k < o ==> (#[trigger] src@[k] == ' ' || src@[k] == '\n' || src@[k]
                == '\t'),
        src@[o] == '"',
        src@[c] == '"',
        forall|k: int| o < k < c ==> #[trigger] src@[k] != '"',
    ensures
        r@ != src@.subrange(o + 1, c),
{
    lemma_laid_out_declares(src@, kind@, i, o, c);
    law_next_name_is_fresh(src@, kind@, i);
}

/// A suggested name is the kind and a number: one, or one more than a number
/// that is in use.
pub proof fn law_suggested_numbers_follow_on(src: &str, kind: &str, r: String)
    requires
        largest_number(src@, kind@) < u32::MAX,
        call_ensures(next_proc_clip_name, (src, kind), r),
    ensures
        exists|n: nat|
            {
                &&& r@ == kind@ + seq!['_'] + #[trigger] decimal_digits(n + 1)
                &&& n == 0 || exists|i: int|
                    #[trigger] declared_name(src@, kind@, i) == Some(
                        kind@ + seq!['_'] + (declared_name(src@, kind@, i)->0).skip(
                            kind@.len() as int + 1,
                        ),
                    ) && number_in(
                        (declared_name(src@, kind@, i)->0).skip(kind@.len() as int + 1),
                    ) == Some(n)
            },
{
    let n = largest_number(src@, kind@);
    assert(kind@ + seq!['_'] =~= name_prefix(kind@));
    lemma_largest_is_declared(src@, kind@, src@.len() as int);
    if n > 0 {
        let i = choose|i: int| name_number(#[trigger] declared_name(src@, kind@, i), kind@) == Some(n);
        let name = declared_name(src@, kind@, i)->0;
        let p = name_prefix(kind@);
        assert(name =~= p + name.skip(p.len() as int)) by {
            assert(name.take(p.len() as int) == p);
        }
    }
    assert(r@ == kind@ + seq!['_'] + decimal_digits(n + 1));
}

proof fn lemma_largest_is_declared(src: Seq<char>, kind: Seq<char>, n: int)
    ensures
        largest_before(src, kind, n) == 0 || exists|i: int|
            name_number(#[trigger] declared_name(src, kind, i), kind) == Some(
                largest_before(src, kind, n),
            ),
    decreases n,
{
    if n > 0 {
        lemma_largest_is_declared(src, kind, n - 1);
        let before = largest_before(src, kind, n - 1);
        if before > 0 {
            let i = choose|i: int| name_number(#[trigger] declared_name(src, kind, i), kind) == Some(
                before,
            );
            assert(name_number(declared_name(src, kind, i), kind) == Some(before));
        }
        let here = declared_name(src, kind, n - 1);
        assert(name_number(here, kind) == name_number(declared_name(src, kind, n - 1), kind));
    }
}

/// A number that was written in decimal is read back, with or without a plus.
pub proof fn law_numbers_read_back(text: &str, signed: &str, n: nat, a: Option<u32>, b: Option<u32>)
    requires
        n <= u32::MAX,
        text@ == decimal_digits(n),
        signed@ == seq!['+'] + decimal_digits(n),
        call_ensures(parse_number, (text,), a),
        call_ensures(parse_number, (signed,), b),
    ensures
        a matches Some(x) && x == n,
        b matches Some(y) && y == n,
{
    lemma_digits_read_back(n);
    assert(is_digit(text@[0]));
    assert(signed@.skip(1) =~= decimal_digits(n));
}

/// What holds anything but digits, behind a plus at most, is no number.
pub proof fn law_other_texts_are_no_number(s: &str, r: Option<u32>, i: int)
    requires
        call_ensures(parse_number, (s,), r),
        0 <= i < s@.len(),
        !('0' <= s@[i] <= '9'),
        i > 0 || s@[i] != '+',
    ensures
        r is None,
{
    let d = unsigned_part(s@);
    if s@[0] == '+' {
        assert(d[i - 1] == s@[i]);
    } else {
        assert(d[i] == s@[i]);
    }
}

} // verus!
