//! Text building blocks: comparison, trimming, splitting, joining, replacing
//! and decimal numbers, each stated over the sequence of characters of a
//! string.

use vstd::prelude::*;
use vstd::string::*;
use vstd::utf8::*;

verus! {

/// The view of an optional string.
pub open spec fn opt_view(o: Option<String>) -> Option<Seq<char>> {
    match o {
        Some(s) => Some(s@),
        None => None,
    }
}

/// The views of a list of strings.
pub open spec fn views(v: Seq<String>) -> Seq<Seq<char>> {
    v.map_values(|s: String| s@)
}

/// The characters of `s`, one per element.
pub fn chars_of(s: &str) -> (r: Vec<char>)
    ensures
        r@ == s@,
{
    let mut out: Vec<char> = Vec::new();
    for c in it: s.chars()
        invariant
            out@ == it.seq().take(it.index() as int),
            it.seq() == s@,
    {
        out.push(c);
    }
    out
}

/// Whether two strings hold the same characters.
pub fn str_eq(a: &str, b: &str) -> (r: bool)
    ensures
        r == (a@ == b@),
{
    let x = a.as_bytes();
    let y = b.as_bytes();
    proof {
        encode_utf8_decode_utf8(a@);
        encode_utf8_decode_utf8(b@);
    }
    if x.len() != y.len() {
        return false;
    }
    let mut i: usize = 0;
    while i < x.len()
        invariant
            i <= x@.len(),
            x@.len() == y@.len(),
            x@.take(i as int) == y@.take(i as int),
            x@ == a.spec_bytes(),
            y@ == b.spec_bytes(),
        decreases x.len() - i,
    {
        if x[i] != y[i] {
            return false;
        }
        assert(x@.take(i + 1) =~= x@.take(i as int).push(x@[i as int]));
        assert(y@.take(i + 1) =~= y@.take(i as int).push(y@[i as int]));
        i = i + 1;
    }
    assert(x@.take(i as int) =~= x@);
    assert(y@.take(i as int) =~= y@);
    true
}

/// Whether an optional string holds exactly `s`.
pub fn opt_is(o: &Option<String>, s: &str) -> (r: bool)
    ensures
        r == (opt_view(*o) == Some(s@)),
{
    match o {
        Some(x) => str_eq(x.as_str(), s),
        None => false,
    }
}

/// A copy of an optional string.
pub fn clone_opt(o: &Option<String>) -> (r: Option<String>)
    ensures
        r == *o,
{
    match o {
        Some(s) => Some(s.clone()),
        None => None,
    }
}

/// Two pieces of text in a row.
pub fn cat2(a: &str, b: &str) -> (r: String)
    ensures
        r@ == a@ + b@,
{
    let mut s = a.to_owned();
    s.append(b);
    s
}

/// Three pieces of text in a row.
pub fn cat3(a: &str, b: &str, c: &str) -> (r: String)
    ensures
        r@ == a@ + b@ + c@,
{
    let mut s = cat2(a, b);
    s.append(c);
    s
}

/// Four pieces of text in a row.
pub fn cat4(a: &str, b: &str, c: &str, d: &str) -> (r: String)
    ensures
        r@ == a@ + b@ + c@ + d@,
{
    let mut s = cat3(a, b, c);
    s.append(d);
    s
}

/// Five pieces of text in a row.
pub fn cat5(a: &str, b: &str, c: &str, d: &str, e: &str) -> (r: String)
    ensures
        r@ == a@ + b@ + c@ + d@ + e@,
{
    let mut s = cat4(a, b, c, d);
    s.append(e);
    s
}

// ---- decimal numbers -------------------------------------------------------

/// The character of one decimal digit.
pub open spec fn digit_char(d: nat) -> char {
    (48 + d) as char
}

/// The decimal digits of `n`, most significant first, without leading zeros.
pub open spec fn decimal_digits(n: nat) -> Seq<char>
    decreases n,
{
    if n < 10 {
        seq![digit_char(n)]
    } else {
        decimal_digits(n / 10).push(digit_char(n % 10))
    }
}

fn digit_text(d: usize) -> (r: &'static str)
    requires
        d < 10,
    ensures
        r@ == seq![digit_char(d as nat)],
{
    proof {
        reveal_strlit("0");
        reveal_strlit("1");
        reveal_strlit("2");
        reveal_strlit("3");
        reveal_strlit("4");
        reveal_strlit("5");
        reveal_strlit("6");
        reveal_strlit("7");
        reveal_strlit("8");
        reveal_strlit("9");
    }
    let r = if d == 0 {
        "0"
    } else if d == 1 {
        "1"
    } else if d == 2 {
        "2"
    } else if d == 3 {
        "3"
    } else if d == 4 {
        "4"
    } else if d == 5 {
        "5"
    } else if d == 6 {
        "6"
    } else if d == 7 {
        "7"
    } else if d == 8 {
        "8"
    } else {
        "9"
    };
    assert(r@ =~= seq![digit_char(d as nat)]);
    r
}

/// `n` written in decimal.
pub fn decimal_wide(n: u128) -> (r: String)
    ensures
        r@ == decimal_digits(n as nat),
    decreases n,
{
    if n < 10 {
        digit_text(n as usize).to_owned()
    } else {
        let mut s = decimal_wide(n / 10);
        s.append(digit_text((n % 10) as usize));
        assert(s@ =~= decimal_digits((n / 10) as nat).push(digit_char((n % 10) as nat)));
        s
    }
}

/// `n` written in decimal.
pub fn decimal(n: usize) -> (r: String)
    ensures
        r@ == decimal_digits(n as nat),
{
    decimal_wide(n as u128)
}

// ---- case ------------------------------------------------------------------

/// `c` with an ASCII capital turned small.
pub open spec fn ascii_lower_char(c: char) -> char {
    if 'A' <= c <= 'Z' {
        (c as u32 + 32) as char
    } else {
        c
    }
}

/// `s` with its ASCII capitals turned small.
pub open spec fn ascii_lower(s: Seq<char>) -> Seq<char> {
    s.map_values(|c: char| ascii_lower_char(c))
}

fn lower_is(x: char, y: char) -> (r: bool)
    ensures
        r == (ascii_lower_char(x) == y),
{
    let n: u32 = x as u32;
    if 65 <= n && n <= 90 {
        n + 32 == y as u32
    } else {
        x == y
    }
}

/// Whether `s`, with its ASCII capitals turned small, is `lit`.
pub fn matches_ignoring_case(s: &str, lit: &str) -> (r: bool)
    ensures
        r == (ascii_lower(s@) == lit@),
{
    let a = chars_of(s);
    let b = chars_of(lit);
    if a.len() != b.len() {
        return false;
    }
    let mut i: usize = 0;
    while i < a.len()
        invariant
            i <= a@.len(),
            a@ == s@,
            b@ == lit@,
            a@.len() == b@.len(),
            forall|j: int| 0 <= j < i ==> #[trigger] ascii_lower(s@)[j] == lit@[j],
        decreases a.len() - i,
    {
        assert(ascii_lower(s@)[i as int] == ascii_lower_char(a@[i as int]));
        if !lower_is(a[i], b[i]) {
            return false;
        }
        i = i + 1;
    }
    assert(ascii_lower(s@) =~= lit@);
    true
}

// ---- white space and trimming ----------------------------------------------

/// Whether `c` has the Unicode `White_Space` property.
pub open spec fn is_space(c: char) -> bool {
    let n = c as u32;
    ||| 0x09 <= n <= 0x0d
    ||| n == 0x20
    ||| n == 0x85
    ||| n == 0xa0
    ||| n == 0x1680
    ||| 0x2000 <= n <= 0x200a
    ||| n == 0x2028
    ||| n == 0x2029
    ||| n == 0x202f
    ||| n == 0x205f
    ||| n == 0x3000
}

/// Whether `c` is white space.
pub fn space_char(c: char) -> (r: bool)
    ensures
        r == is_space(c),
{
    let n: u32 = c as u32;
    (0x09 <= n && n <= 0x0d) || n == 0x20 || n == 0x85 || n == 0xa0 || n == 0x1680 || (0x2000 <= n
        && n <= 0x200a) || n == 0x2028 || n == 0x2029 || n == 0x202f || n == 0x205f || n == 0x3000
}

/// Whether a text holds nothing but white space.
pub open spec fn blank(s: Seq<char>) -> bool {
    forall|i: int| 0 <= i < s.len() ==> is_space(#[trigger] s[i])
}

/// Whether `s` holds nothing but white space.
pub fn is_blank(s: &str) -> (r: bool)
    ensures
        r == blank(s@),
{
    let cs = chars_of(s);
    let mut i: usize = 0;
    while i < cs.len()
        invariant
            i <= cs@.len(),
            cs@ == s@,
            forall|j: int| 0 <= j < i ==> is_space(#[trigger] s@[j]),
        decreases cs.len() - i,
    {
        if !space_char(cs[i]) {
            return false;
        }
        i = i + 1;
    }
    true
}

/// `s` without the characters at its front that satisfy `p`.
pub open spec fn drop_front(s: Seq<char>, p: spec_fn(char) -> bool) -> Seq<char>
    decreases s.len(),
{
    if s.len() > 0 && p(s[0]) {
        drop_front(s.drop_first(), p)
    } else {
        s
    }
}

/// `s` without the characters at its back that satisfy `p`.
pub open spec fn drop_back(s: Seq<char>, p: spec_fn(char) -> bool) -> Seq<char>
    decreases s.len(),
{
    if s.len() > 0 && p(s.last()) {
        drop_back(s.drop_last(), p)
    } else {
        s
    }
}

/// `s` without the white space at its front.
pub open spec fn trimmed_start(s: Seq<char>) -> Seq<char> {
    drop_front(s, |c: char| is_space(c))
}

/// `s` without the white space at either end.
pub open spec fn trimmed(s: Seq<char>) -> Seq<char> {
    drop_back(trimmed_start(s), |c: char| is_space(c))
}

/// The predicate that holds of `c` alone.
pub open spec fn only(c: char) -> spec_fn(char) -> bool {
    |x: char| x == c
}

/// `s` without the copies of `c` at its front.
pub open spec fn without_front(s: Seq<char>, c: char) -> Seq<char> {
    drop_front(s, only(c))
}

/// `s` without the copies of `c` at its back.
pub open spec fn without_back(s: Seq<char>, c: char) -> Seq<char> {
    drop_back(s, only(c))
}

pub proof fn lemma_drop_front_skip(s: Seq<char>, p: spec_fn(char) -> bool, n: int)
    requires
        0 <= n <= s.len(),
        forall|j: int| 0 <= j < n ==> p(#[trigger] s[j]),
        n == s.len() || !p(s[n]),
    ensures
        drop_front(s, p) == s.skip(n),
    decreases n,
{
    if n == 0 {
        assert(s.skip(0) =~= s);
    } else {
        assert(p(s[0]));
        let t = s.drop_first();
        assert forall|j: int| 0 <= j < n - 1 implies p(#[trigger] t[j]) by {
            assert(t[j] == s[j + 1]);
        }
        lemma_drop_front_skip(t, p, n - 1);
        assert(t.skip(n - 1) =~= s.skip(n));
    }
}

/// How many characters `drop_front` drops.
pub proof fn lemma_drop_front(s: Seq<char>, p: spec_fn(char) -> bool) -> (n: int)
    ensures
        0 <= n <= s.len(),
        forall|j: int| 0 <= j < n ==> p(#[trigger] s[j]),
        n == s.len() || !p(s[n]),
        drop_front(s, p) == s.skip(n),
    decreases s.len(),
{
    if s.len() > 0 && p(s[0]) {
        let t = s.drop_first();
        let m = lemma_drop_front(t, p);
        assert forall|j: int| 0 <= j < m + 1 implies p(#[trigger] s[j]) by {
            if j > 0 {
                assert(s[j] == t[j - 1]);
            }
        }
        assert(t.skip(m) =~= s.skip(m + 1));
        m + 1
    } else {
        assert(s.skip(0) =~= s);
        0
    }
}

proof fn lemma_drop_back_take(s: Seq<char>, p: spec_fn(char) -> bool, n: int)
    requires
        0 <= n <= s.len(),
        forall|j: int| n <= j < s.len() ==> p(#[trigger] s[j]),
        n == 0 || !p(s[n - 1]),
    ensures
        drop_back(s, p) == s.take(n),
    decreases s.len() - n,
{
    if n == s.len() {
        assert(s.take(n) =~= s);
    } else {
        assert(p(s[s.len() - 1]));
        let t = s.drop_last();
        lemma_drop_back_take(t, p, n);
        assert(t.take(n) =~= s.take(n));
    }
}

pub proof fn lemma_drop_back(s: Seq<char>, p: spec_fn(char) -> bool) -> (n: int)
    ensures
        0 <= n <= s.len(),
        n == 0 || !p(s[n - 1]),
        forall|j: int| n <= j < s.len() ==> p(#[trigger] s[j]),
        drop_back(s, p) == s.take(n),
    decreases s.len(),
{
    if s.len() > 0 && p(s.last()) {
        let t = s.drop_last();
        let n = lemma_drop_back(t, p);
        assert(t.take(n) =~= s.take(n));
        assert forall|j: int| n <= j < s.len() implies p(#[trigger] s[j]) by {
            if j < t.len() {
                assert(s[j] == t[j]);
            }
        }
        n
    } else {
        assert(s.take(s.len() as int) =~= s);
        s.len() as int
    }
}

/// A trimmed text holds only what the text holds, and does not end in white
/// space.
pub proof fn lemma_trimmed(s: Seq<char>)
    ensures
        trimmed(s).len() > 0 ==> !is_space(trimmed(s).last()),
        forall|i: int| 0 <= i < trimmed(s).len() ==> s.contains(#[trigger] trimmed(s)[i]),
{
    let p = |c: char| is_space(c);
    let n = lemma_drop_front(s, p);
    let t = trimmed_start(s);
    let m = lemma_drop_back(t, p);
    assert(trimmed(s) == t.take(m));
    assert forall|i: int| 0 <= i < trimmed(s).len() implies s.contains(#[trigger] trimmed(s)[i]) by {
        assert(trimmed(s)[i] == s[n + i]);
    }
}

/// `s` without the white space at its front.
pub fn trim_start(s: &str) -> (r: &str)
    ensures
        r@ == trimmed_start(s@),
{
    let cs = chars_of(s);
    let mut i: usize = 0;
    while i < cs.len() && space_char(cs[i])
        invariant
            i <= cs@.len(),
            cs@ == s@,
            forall|j: int| 0 <= j < i ==> is_space(#[trigger] s@[j]),
        decreases cs.len() - i,
    {
        i = i + 1;
    }
    proof {
        lemma_drop_front_skip(s@, |c: char| is_space(c), i as int);
    }
    assert(s@.subrange(i as int, s@.len() as int) =~= s@.skip(i as int));
    s.substring_char(i, cs.len())
}

/// `s` without the white space at either end.
pub fn trim(s: &str) -> (r: &str)
    ensures
        r@ == trimmed(s@),
{
    let t = trim_start(s);
    let cs = chars_of(t);
    let mut n: usize = cs.len();
    while n > 0 && space_char(cs[n - 1])
        invariant
            n <= cs@.len(),
            cs@ == t@,
            forall|j: int| n <= j < t@.len() ==> is_space(#[trigger] t@[j]),
        decreases n,
    {
        n = n - 1;
    }
    proof {
        lemma_drop_back_take(t@, |c: char| is_space(c), n as int);
    }
    assert(t@.subrange(0, n as int) =~= t@.take(n as int));
    t.substring_char(0, n)
}

/// `s` without the copies of `c` at its front.
pub fn strip_front(s: &str, c: char) -> (r: &str)
    ensures
        r@ == without_front(s@, c),
{
    let cs = chars_of(s);
    let mut i: usize = 0;
    while i < cs.len() && cs[i] == c
        invariant
            i <= cs@.len(),
            cs@ == s@,
            forall|j: int| 0 <= j < i ==> #[trigger] s@[j] == c,
        decreases cs.len() - i,
    {
        i = i + 1;
    }
    proof {
        lemma_drop_front_skip(s@, only(c), i as int);
    }
    assert(s@.subrange(i as int, s@.len() as int) =~= s@.skip(i as int));
    s.substring_char(i, cs.len())
}

/// `s` without the copies of `c` at its back.
pub fn strip_back(s: &str, c: char) -> (r: &str)
    ensures
        r@ == without_back(s@, c),
{
    let cs = chars_of(s);
    let mut n: usize = cs.len();
    while n > 0 && cs[n - 1] == c
        invariant
            n <= cs@.len(),
            cs@ == s@,
            forall|j: int| n <= j < s@.len() ==> #[trigger] s@[j] == c,
        decreases n,
    {
        n = n - 1;
    }
    proof {
        lemma_drop_back_take(s@, only(c), n as int);
    }
    assert(s@.subrange(0, n as int) =~= s@.take(n as int));
    s.substring_char(0, n)
}

// ---- searching, splitting, joining -----------------------------------------

/// The index of the first `c` in `s`, or the length of `s` when there is none.
pub open spec fn find(s: Seq<char>, c: char) -> nat
    decreases s.len(),
{
    if s.len() == 0 || s[0] == c {
        0
    } else {
        1 + find(s.drop_first(), c)
    }
}

pub proof fn lemma_find_at(s: Seq<char>, c: char, n: int)
    requires
        0 <= n <= s.len(),
        forall|j: int| 0 <= j < n ==> #[trigger] s[j] != c,
        n == s.len() || s[n] == c,
    ensures
        find(s, c) == n,
    decreases n,
{
    if n > 0 {
        let t = s.drop_first();
        assert(s[0] != c);
        assert forall|j: int| 0 <= j < n - 1 implies #[trigger] t[j] != c by {
            assert(t[j] == s[j + 1]);
        }
        lemma_find_at(t, c, n - 1);
    }
}

pub proof fn lemma_find_bound(s: Seq<char>, c: char)
    ensures
        find(s, c) <= s.len(),
        find(s, c) < s.len() ==> s[find(s, c) as int] == c,
        forall|j: int| 0 <= j < find(s, c) ==> #[trigger] s[j] != c,
    decreases s.len(),
{
    if s.len() > 0 && s[0] != c {
        let t = s.drop_first();
        lemma_find_bound(t, c);
        assert forall|j: int| 0 <= j < find(s, c) implies #[trigger] s[j] != c by {
            if j > 0 {
                assert(t[j - 1] == s[j]);
            }
        }
    }
}

/// The index of the first `c` at or after `from`, or the length when there is
/// none.
pub fn find_from(cs: &Vec<char>, from: usize, c: char) -> (r: usize)
    requires
        from <= cs@.len(),
    ensures
        from <= r <= cs@.len(),
        r == from + find(cs@.skip(from as int), c),
        r < cs@.len() ==> cs@[r as int] == c,
        forall|j: int| from <= j < r ==> #[trigger] cs@[j] != c,
{
    let mut i: usize = from;
    while i < cs.len() && cs[i] != c
        invariant
            from <= i <= cs@.len(),
            forall|j: int| from <= j < i ==> #[trigger] cs@[j] != c,
        decreases cs.len() - i,
    {
        i = i + 1;
    }
    proof {
        let t = cs@.skip(from as int);
        assert forall|j: int| 0 <= j < i - from implies #[trigger] t[j] != c by {
            assert(t[j] == cs@[from + j]);
        }
        lemma_find_at(t, c, i - from);
    }
    i
}

/// The pieces of `s` between the copies of `c`.
pub open spec fn split_on(s: Seq<char>, c: char) -> Seq<Seq<char>>
    decreases s.len(),
    via split_on_decreases
{
    let i = find(s, c) as int;
    if i >= s.len() {
        seq![s]
    } else {
        seq![s.take(i)] + split_on(s.skip(i + 1), c)
    }
}

#[via_fn]
proof fn split_on_decreases(s: Seq<char>, c: char) {
    lemma_find_bound(s, c);
}

/// The pieces of `s` between the copies of `c`.
pub fn split<'a>(s: &'a str, c: char) -> (r: Vec<&'a str>)
    ensures
        r@.map_values(|p: &'a str| p@) == split_on(s@, c),
{
    let cs = chars_of(s);
    let mut out: Vec<&'a str> = Vec::new();
    let mut from: usize = 0;
    assert(s@.skip(0) =~= s@);
    assert(out@.map_values(|p: &'a str| p@) + split_on(s@.skip(0), c) =~= split_on(s@, c));
    loop
        invariant
            from <= cs@.len(),
            cs@ == s@,
            out@.map_values(|p: &'a str| p@) + split_on(s@.skip(from as int), c) == split_on(s@, c),
        decreases cs@.len() - from,
    {
        let i = find_from(&cs, from, c);
        let ghost rest = s@.skip(from as int);
        let ghost before = out@.map_values(|p: &'a str| p@);
        let piece = s.substring_char(from, i);
        assert(piece@ =~= rest.take(i - from));
        out.push(piece);
        assert(out@.map_values(|p: &'a str| p@) =~= before.push(piece@));
        if i == cs.len() {
            assert(piece@ =~= rest);
            assert(before.push(piece@) =~= before + seq![rest]);
            return out;
        }
        assert(rest.skip(i - from + 1) =~= s@.skip(i + 1));
        assert(before + (seq![rest.take(i - from)] + split_on(s@.skip(i + 1), c)) =~= before.push(
            piece@,
        ) + split_on(s@.skip(i + 1), c));
        from = i + 1;
    }
}

/// The pieces with `sep` between each two of them.
pub open spec fn joined(parts: Seq<Seq<char>>, sep: Seq<char>) -> Seq<char>
    decreases parts.len(),
{
    if parts.len() == 0 {
        Seq::empty()
    } else if parts.len() == 1 {
        parts[0]
    } else {
        joined(parts.drop_last(), sep) + sep + parts.last()
    }
}

/// The strings of `parts` with `sep` between each two of them.
pub fn join(parts: &Vec<String>, sep: &str) -> (r: String)
    ensures
        r@ == joined(views(parts@), sep@),
{
    let mut out = String::new();
    let mut i: usize = 0;
    while i < parts.len()
        invariant
            i <= parts@.len(),
            out@ == joined(views(parts@.take(i as int)), sep@),
        decreases parts.len() - i,
    {
        let ghost now = views(parts@.take(i as int));
        let ghost next = views(parts@.take(i + 1));
        assert(next.drop_last() =~= now);
        assert(next.last() == parts@[i as int]@);
        if i > 0 {
            out.append(sep);
        }
        out.append(parts[i].as_str());
        assert(out@ =~= joined(next, sep@));
        i = i + 1;
    }
    assert(parts@.take(i as int) =~= parts@);
    out
}

/// The rest of `s` after the prefix `p`, when `s` starts with `p`.
pub open spec fn after_prefix(s: Seq<char>, p: Seq<char>) -> Option<Seq<char>> {
    if p.len() <= s.len() && s.take(p.len() as int) == p {
        Some(s.skip(p.len() as int))
    } else {
        None
    }
}

/// The rest of `s` after the prefix `p`, when `s` starts with `p`.
pub fn strip_prefix<'a>(s: &'a str, p: &str) -> (r: Option<&'a str>)
    ensures
        (match r {
            Some(t) => Some(t@),
            None => None,
        }) == after_prefix(s@, p@),
{
    let n = p.unicode_len();
    let m = s.unicode_len();
    if n > m {
        return None;
    }
    let head = s.substring_char(0, n);
    assert(head@ =~= s@.take(n as int));
    if str_eq(head, p) {
        let tail = s.substring_char(n, m);
        assert(tail@ =~= s@.skip(n as int));
        Some(tail)
    } else {
        None
    }
}

// ---- replacing -------------------------------------------------------------

/// Whether `pat` stands in `s` at index `i`.
pub open spec fn stands_at(s: Seq<char>, pat: Seq<char>, i: int) -> bool {
    0 <= i && i + pat.len() <= s.len() && s.subrange(i, i + pat.len()) == pat
}

/// `s` with every copy of `from` replaced by `to`, found from left to right
/// and never overlapping. An empty `from` replaces nothing.
pub open spec fn replaced(s: Seq<char>, from: Seq<char>, to: Seq<char>) -> Seq<char>
    decreases s.len(),
{
    if s.len() == 0 || from.len() == 0 {
        s
    } else if stands_at(s, from, 0) {
        to + replaced(s.skip(from.len() as int), from, to)
    } else {
        seq![s[0]] + replaced(s.drop_first(), from, to)
    }
}

/// Whether `pat` stands in `cs` at index `i`.
pub fn holds_at(cs: &Vec<char>, pat: &Vec<char>, i: usize) -> (r: bool)
    requires
        i <= cs@.len(),
    ensures
        r == stands_at(cs@, pat@, i as int),
{
    if pat.len() > cs.len() - i {
        return false;
    }
    let mut k: usize = 0;
    while k < pat.len()
        invariant
            k <= pat@.len(),
            i + pat.len() <= cs.len(),
            forall|j: int| 0 <= j < k ==> #[trigger] pat@[j] == cs@[i + j],
        decreases pat.len() - k,
    {
        if cs[i + k] != pat[k] {
            assert(cs@.subrange(i as int, i + pat@.len())[k as int] != pat@[k as int]);
            return false;
        }
        k = k + 1;
    }
    assert(cs@.subrange(i as int, i + pat@.len()) =~= pat@);
    true
}

/// `s` with every copy of `from` replaced by `to`.
pub fn replace_all(s: &str, from: &str, to: &str) -> (r: String)
    requires
        from@.len() > 0,
    ensures
        r@ == replaced(s@, from@, to@),
{
    let cs = chars_of(s);
    let pat = chars_of(from);
    let mut out = String::new();
    // Everything before `kept` is in `out`; `kept..i` is plain text still to copy.
    let mut kept: usize = 0;
    let mut i: usize = 0;
    assert(s@.skip(0) =~= s@);
    assert(out@ + s@.subrange(0, 0) + replaced(s@.skip(0), from@, to@) =~= replaced(
        s@,
        from@,
        to@,
    ));
    while i < cs.len()
        invariant
            kept <= i <= cs@.len(),
            cs@ == s@,
            pat@ == from@,
            from@.len() > 0,
            out@ + s@.subrange(kept as int, i as int) + replaced(s@.skip(i as int), from@, to@)
                == replaced(s@, from@, to@),
        decreases cs@.len() - i,
    {
        let ghost rest = s@.skip(i as int);
        let ghost head = out@ + s@.subrange(kept as int, i as int);
        if holds_at(&cs, &pat, i) {
            assert(rest.subrange(0, from@.len() as int) =~= s@.subrange(i as int, i + from@.len()));
            let plain = s.substring_char(kept, i);
            out.append(plain);
            out.append(to);
            i = i + pat.len();
            kept = i;
            assert(rest.skip(from@.len() as int) =~= s@.skip(i as int));
            assert(out@ + s@.subrange(kept as int, i as int) =~= head + to@);
            assert(head + (to@ + replaced(s@.skip(i as int), from@, to@)) =~= head + to@ + replaced(
                s@.skip(i as int),
                from@,
                to@,
            ));
        } else {
            assert(!stands_at(rest, from@, 0)) by {
                if stands_at(rest, from@, 0) {
                    assert(rest.subrange(0, from@.len() as int) =~= s@.subrange(
                        i as int,
                        i + from@.len(),
                    ));
                }
            }
            assert(rest.drop_first() =~= s@.skip(i + 1));
            assert(s@.subrange(kept as int, i + 1) =~= s@.subrange(kept as int, i as int).push(
                s@[i as int],
            ));
            assert(out@ + s@.subrange(kept as int, i + 1) =~= head + seq![rest[0]]);
            assert(head + (seq![rest[0]] + replaced(s@.skip(i + 1), from@, to@)) =~= head
                + seq![rest[0]] + replaced(s@.skip(i + 1), from@, to@));
            i = i + 1;
        }
    }
    out.append(s.substring_char(kept, i));
    assert(s@.skip(i as int) =~= Seq::<char>::empty());
    assert(out@ + Seq::<char>::empty() =~= out@);
    out
}

// ---- laws ------------------------------------------------------------------

/// Joining one piece gives that piece, and joining two lists one after the
/// other is joining all of their pieces: none is lost, and the separator
/// stands between each two and nowhere else.
pub proof fn law_join_keeps_every_piece(a: Seq<Seq<char>>, b: Seq<Seq<char>>, sep: Seq<char>)
    ensures
        joined(Seq::empty(), sep) == Seq::<char>::empty(),
        a.len() == 1 ==> joined(a, sep) == a[0],
        a.len() > 0 && b.len() > 0 ==> joined(a + b, sep) == joined(a, sep) + sep + joined(b, sep),
    decreases b.len(),
{
    if a.len() > 0 && b.len() == 1 {
        assert((a + b).drop_last() =~= a);
        assert((a + b).last() == b[0]);
    } else if a.len() > 0 && b.len() > 1 {
        let t = b.drop_last();
        law_join_keeps_every_piece(a, t, sep);
        assert((a + b).drop_last() =~= a + t);
        assert((a + b).last() == b.last());
        assert(joined(a + b, sep) =~= joined(a, sep) + sep + joined(b, sep));
    }
}

/// What is joined can be told apart again: pieces without the first character
/// of the separator are given back by the text.
pub proof fn law_join_reads_back(a: Seq<Seq<char>>, b: Seq<Seq<char>>, sep: Seq<char>)
    requires
        sep.len() > 0,
        a.len() > 0,
        b.len() > 0,
        forall|i: int| 0 <= i < a.len() ==> !(#[trigger] a[i]).contains(sep[0]),
        forall|i: int| 0 <= i < b.len() ==> !(#[trigger] b[i]).contains(sep[0]),
        joined(a, sep) == joined(b, sep),
    ensures
        a == b,
    decreases a.len(),
{
    lemma_joined_front(a, sep);
    lemma_joined_front(b, sep);
    let j = joined(a, sep);
    assert(a[0] == j.take(a[0].len() as int));
    assert(b[0] == j.take(b[0].len() as int));
    assert(!a[0].contains(sep[0]) && !b[0].contains(sep[0]));
    if a[0].len() < b[0].len() {
        if a.len() > 1 {
            assert(j[a[0].len() as int] == sep[0]);
            assert(b[0][a[0].len() as int] == sep[0]);
        }
    } else if b[0].len() < a[0].len() {
        if b.len() > 1 {
            assert(j[b[0].len() as int] == sep[0]);
            assert(a[0][b[0].len() as int] == sep[0]);
        }
    }
    assert(a[0].len() == b[0].len());
    if a.len() > 1 && b.len() > 1 {
        let n = (a[0].len() + sep.len()) as int;
        assert(j.skip(n) =~= joined(a.drop_first(), sep));
        assert(j.skip(n) =~= joined(b.drop_first(), sep));
        assert forall|i: int| 0 <= i < a.drop_first().len() implies !(
        #[trigger] a.drop_first()[i]).contains(sep[0]) by {
            assert(a.drop_first()[i] == a[i + 1]);
        }
        assert forall|i: int| 0 <= i < b.drop_first().len() implies !(
        #[trigger] b.drop_first()[i]).contains(sep[0]) by {
            assert(b.drop_first()[i] == b[i + 1]);
        }
        law_join_reads_back(a.drop_first(), b.drop_first(), sep);
        assert(a =~= seq![a[0]] + a.drop_first());
        assert(b =~= seq![b[0]] + b.drop_first());
    } else {
        assert(a.len() == 1 && b.len() == 1);
        assert(a =~= b);
    }
}

pub proof fn lemma_joined_front(parts: Seq<Seq<char>>, sep: Seq<char>)
    requires
        parts.len() > 0,
    ensures
        parts.len() == 1 ==> joined(parts, sep) == parts[0],
        parts.len() > 1 ==> joined(parts, sep) == parts[0] + sep + joined(parts.drop_first(), sep),
{
    if parts.len() > 1 {
        law_join_keeps_every_piece(seq![parts[0]], parts.drop_first(), sep);
        assert(seq![parts[0]] + parts.drop_first() =~= parts);
        assert(joined(seq![parts[0]], sep) == parts[0]);
    }
}

/// Whether `pat` stands nowhere in `s`.
pub open spec fn free_of(s: Seq<char>, pat: Seq<char>) -> bool {
    forall|i: int| 0 <= i && i + pat.len() <= s.len() ==> #[trigger] s.subrange(i, i + pat.len())
        != pat
}

/// Whether the text `s` with `from` in it at certain places, and nowhere
/// between them, becomes `out` with `to` at those very places.
pub open spec fn swapped(
    pieces: Seq<Seq<char>>,
    s: Seq<char>,
    from: Seq<char>,
    out: Seq<char>,
    to: Seq<char>,
) -> bool {
    &&& pieces.len() > 0
    &&& s == joined(pieces, from)
    &&& out == joined(pieces, to)
    &&& forall|i: int| 0 <= i < pieces.len() ==> free_of(#[trigger] pieces[i], from)
}

proof fn lemma_swapped(s: Seq<char>, from: Seq<char>, to: Seq<char>) -> (pieces: Seq<Seq<char>>)
    requires
        from.len() > 0,
    ensures
        swapped(pieces, s, from, replaced(s, from, to), to),
    decreases s.len(),
{
    if s.len() == 0 {
        let p: Seq<Seq<char>> = seq![s];
        p
    } else if stands_at(s, from, 0) {
        let rest = s.skip(from.len() as int);
        let t = lemma_swapped(rest, from, to);
        let none: Seq<char> = Seq::empty();
        let p = seq![none] + t;
        assert(p.drop_first() =~= t);
        lemma_joined_front(p, from);
        lemma_joined_front(p, to);
        assert(s =~= from + rest) by {
            assert(s.subrange(0, from.len() as int) =~= s.take(from.len() as int));
        }
        assert(joined(p, from) =~= s);
        assert(joined(p, to) =~= to + replaced(rest, from, to));
        assert forall|i: int| 0 <= i < p.len() implies free_of(#[trigger] p[i], from) by {
            if i > 0 {
                assert(p[i] == t[i - 1]);
            }
        }
        p
    } else {
        let rest = s.drop_first();
        let t = lemma_swapped(rest, from, to);
        let one = seq![s[0]] + t[0];
        let p = seq![one] + t.drop_first();
        assert(p.drop_first() =~= t.drop_first());
        lemma_joined_front(p, from);
        lemma_joined_front(t, from);
        lemma_joined_front(p, to);
        lemma_joined_front(t, to);
        assert(s =~= seq![s[0]] + rest);
        assert(joined(p, from) =~= s);
        assert(joined(p, to) =~= seq![s[0]] + replaced(rest, from, to));
        assert forall|i: int| 0 <= i < p.len() implies free_of(#[trigger] p[i], from) by {
            if i > 0 {
                assert(p[i] == t[i]);
            } else {
                assert forall|k: int|
                    0 <= k && k + from.len() <= one.len() implies #[trigger] one.subrange(
                    k,
                    k + from.len(),
                ) != from by {
                    if k == 0 {
                        assert(one =~= s.take(one.len() as int));
                        assert(one.subrange(0, from.len() as int) =~= s.subrange(
                            0,
                            from.len() as int,
                        ));
                    } else {
                        assert(free_of(t[0], from));
                        assert(one.subrange(k, k + from.len()) =~= t[0].subrange(
                            k - 1,
                            k - 1 + from.len(),
                        ));
                    }
                }
            }
        }
        p
    }
}

pub proof fn lemma_replacing(s: Seq<char>, from: Seq<char>, to: Seq<char>)
    requires
        from.len() > 0,
    ensures
        exists|pieces: Seq<Seq<char>>| swapped(pieces, s, from, replaced(s, from, to), to),
        to.len() > 0 && apart(from, to) ==> free_of(replaced(s, from, to), from),
{
    let pieces = lemma_swapped(s, from, to);
    let r = replaced(s, from, to);
    if to.len() > 0 && apart(from, to) {
        assert forall|i: int| 0 <= i && i + from.len() <= r.len() implies #[trigger] r.subrange(
            i,
            i + from.len(),
        ) != from by {
            lemma_none_left(s, from, to, i);
        }
    }
}

/// Replacing puts the new text at every place of the old one and changes
/// nothing between them, whatever the lengths of the two.
pub proof fn law_replacing_swaps_every_copy(s: &str, from: &str, to: &str, r: String)
    requires
        from@.len() > 0,
        call_ensures(replace_all, (s, from, to), r),
    ensures
        exists|pieces: Seq<Seq<char>>| swapped(pieces, s@, from@, r@, to@),
{
    lemma_replacing(s@, from@, to@);
}

/// Whether a copy of `a` that starts `d` characters behind the start of a
/// copy of `b` cannot stand in one text with it: they differ at a shared
/// place.
pub open spec fn clash(a: Seq<char>, b: Seq<char>, d: int) -> bool {
    exists|k: int| 0 <= k < a.len() && 0 <= k + d < b.len() && #[trigger] a[k] != b[k + d]
}

/// Whether no copy of `a` can share a place with a copy of `b`.
pub open spec fn apart(a: Seq<char>, b: Seq<char>) -> bool {
    forall|d: int| -a.len() < d < b.len() ==> #[trigger] clash(a, b, d)
}

proof fn lemma_first_copy(s: Seq<char>, from: Seq<char>, to: Seq<char>) -> (q: int)
    requires
        from.len() > 0,
    ensures
        0 <= q <= s.len(),
        replaced(s, from, to).len() >= q,
        replaced(s, from, to).take(q) == s.take(q),
        q == s.len() ==> replaced(s, from, to) == s,
        q < s.len() ==> stands_at(replaced(s, from, to), to, q),
    decreases s.len(),
{
    let r = replaced(s, from, to);
    if s.len() == 0 {
        0
    } else if stands_at(s, from, 0) {
        assert(r.subrange(0, to.len() as int) =~= to);
        assert(r.take(0) =~= s.take(0));
        0
    } else {
        let t = s.drop_first();
        let rt = replaced(t, from, to);
        let q = lemma_first_copy(t, from, to);
        assert(r.take(q + 1) =~= seq![s[0]] + rt.take(q));
        assert(s.take(q + 1) =~= seq![s[0]] + t.take(q));
        if q == t.len() {
            assert(r =~= s);
        } else {
            assert(r.subrange(q + 1, q + 1 + to.len()) =~= rt.subrange(q, q + to.len()));
        }
        q + 1
    }
}

proof fn lemma_none_left(s: Seq<char>, from: Seq<char>, to: Seq<char>, i: int)
    requires
        from.len() > 0,
        to.len() > 0,
        apart(from, to),
    ensures
        !stands_at(replaced(s, from, to), from, i),
    decreases s.len(),
{
    let r = replaced(s, from, to);
    if stands_at(r, from, i) {
        assert forall|k: int| 0 <= k < from.len() implies #[trigger] from[k] == r[i + k] by {
            assert(r.subrange(i, i + from.len())[k] == r[i + k]);
        }
        if s.len() == 0 {
        } else if stands_at(s, from, 0) {
            let rest = s.skip(from.len() as int);
            if i >= to.len() {
                let rr = replaced(rest, from, to);
                assert(rr.subrange(i - to.len(), i - to.len() + from.len()) =~= r.subrange(
                    i,
                    i + from.len(),
                ));
                lemma_none_left(rest, from, to, i - to.len());
            } else {
                assert(clash(from, to, i));
                let k = choose|k: int|
                    0 <= k < from.len() && 0 <= k + i < to.len() && #[trigger] from[k] != to[k + i];
                assert(r[i + k] == to[k + i]);
            }
        } else if i >= 1 {
            let rr = replaced(s.drop_first(), from, to);
            assert(rr.subrange(i - 1, i - 1 + from.len()) =~= r.subrange(i, i + from.len()));
            lemma_none_left(s.drop_first(), from, to, i - 1);
        } else {
            let q = lemma_first_copy(s, from, to);
            if q >= from.len() || q == s.len() {
                assert forall|k: int| 0 <= k < from.len() implies s[k] == from[k] by {
                    if q < s.len() {
                        assert(r.take(q)[k] == s.take(q)[k]);
                    }
                }
                assert(s.subrange(0, from.len() as int) =~= from);
            } else {
                assert(clash(from, to, -q));
                let k = choose|k: int|
                    0 <= k < from.len() && 0 <= k + (-q) < to.len() && #[trigger] from[k] != to[k + (
                    -q)];
                assert(r.subrange(q, q + to.len())[k - q] == r[k]);
                assert(from[k] == r[0 + k]);
            }
        }
    }
}

/// No copy of the replaced text is left, where the new text cannot be part of
/// one.
pub proof fn law_replacing_leaves_no_copy(s: &str, from: &str, to: &str, r: String)
    requires
        from@.len() > 0,
        to@.len() > 0,
        apart(from@, to@),
        call_ensures(replace_all, (s, from, to), r),
    ensures
        free_of(r@, from@),
{
    lemma_replacing(s@, from@, to@);
}

/// The decimal digits of a number are digits, they never start with a needless
/// zero, and reading them gives the number back.
pub proof fn law_decimal_reads_back(n: nat)
    ensures
        decimal_digits(n).len() > 0,
        forall|i: int| 0 <= i < decimal_digits(n).len() ==> '0' <= #[trigger] decimal_digits(n)[i]
            <= '9',
        decimal_digits(n)[0] == '0' ==> n == 0,
        decimal_value(decimal_digits(n)) == n,
    decreases n,
{
    if n >= 10 {
        law_decimal_reads_back(n / 10);
        let d = decimal_digits(n);
        assert(d.drop_last() =~= decimal_digits(n / 10));
        assert(d[0] == decimal_digits(n / 10)[0]);
        assert forall|i: int| 0 <= i < d.len() implies '0' <= #[trigger] d[i] <= '9' by {
            if i < d.len() - 1 {
                assert(d[i] == decimal_digits(n / 10)[i]);
            }
        }
    } else {
        assert(decimal_digits(n).drop_last() =~= Seq::empty());
        reveal_with_fuel(decimal_value, 2);
    }
}

/// The number that decimal digits stand for.
pub open spec fn decimal_value(d: Seq<char>) -> nat
    decreases d.len(),
{
    if d.len() == 0 {
        0
    } else {
        decimal_value(d.drop_last()) * 10 + (d.last() as nat - '0' as nat) as nat
    }
}

/// Trimming takes blanks off both ends and nothing else: what is left starts
/// and ends with no blank, and around it the text was blank.
pub proof fn law_trim_takes_the_blanks_off(s: &str, r: &str) -> (n: int)
    requires
        call_ensures(trim, (s,), r),
    ensures
        0 <= n && n + r@.len() <= s@.len(),
        s@.subrange(n, n + r@.len()) == r@,
        forall|i: int| 0 <= i < n ==> is_space(#[trigger] s@[i]),
        forall|i: int| n + r@.len() <= i < s@.len() ==> is_space(#[trigger] s@[i]),
        r@.len() > 0 ==> !is_space(r@[0]) && !is_space(r@.last()),
{
    let p = |c: char| is_space(c);
    let n = lemma_drop_front(s@, p);
    let t = drop_front(s@, p);
    let m = lemma_drop_back(t, p);
    assert forall|i: int| n + r@.len() <= i < s@.len() implies is_space(#[trigger] s@[i]) by {
        assert(p(t[i - n]));
    }
    n
}

proof fn lemma_split_reads_back(s: Seq<char>, c: char)
    ensures
        split_on(s, c).len() > 0,
        joined(split_on(s, c), seq![c]) == s,
        forall|k: int| 0 <= k < split_on(s, c).len() ==> !(#[trigger] split_on(s, c)[k]).contains(c),
    decreases s.len(),
{
    let i = find(s, c) as int;
    lemma_find_bound(s, c);
    if i >= s.len() {
        assert(split_on(s, c) == seq![s]);
    } else {
        let rest = s.skip(i + 1);
        let tail = split_on(rest, c);
        lemma_split_reads_back(rest, c);
        let all = seq![s.take(i)] + tail;
        assert(split_on(s, c) == all);
        law_join_keeps_every_piece(seq![s.take(i)], tail, seq![c]);
        assert(s =~= s.take(i) + seq![c] + rest);
        assert forall|k: int| 0 <= k < all.len() implies !(#[trigger] all[k]).contains(c) by {
            if k > 0 {
                assert(all[k] == tail[k - 1]);
            }
        }
    }
}

/// Splitting at a character gives pieces without it, and joined with it they
/// are the text again.
pub proof fn law_split_reads_back(s: &str, c: char, r: Vec<&str>)
    requires
        call_ensures(split, (s, c), r),
    ensures
        r@.len() > 0,
        joined(r@.map_values(|p: &str| p@), seq![c]) == s@,
        forall|k: int| 0 <= k < r@.len() ==> !(#[trigger] r@[k])@.contains(c),
{
    lemma_split_reads_back(s@, c);
    let v = r@.map_values(|p: &str| p@);
    assert(v.len() == r@.len());
    assert forall|k: int| 0 <= k < r@.len() implies !(#[trigger] r@[k])@.contains(c) by {
        assert(v[k] == r@[k]@);
    }
}

/// What follows a prefix is what the text holds behind it; a text that does
/// not begin with the prefix has nothing behind it.
pub proof fn law_prefix_and_rest_are_the_text(s: &str, p: &str, r: Option<&str>)
    requires
        call_ensures(strip_prefix, (s, p), r),
    ensures
        r matches Some(t) ==> s@ == p@ + t@,
        r is None ==> !p@.is_prefix_of(s@),
{
    if let Some(t) = r {
        assert(s@ =~= p@ + s@.skip(p@.len() as int));
    } else if p@.is_prefix_of(s@) {
        assert(s@.take(p@.len() as int) =~= p@);
    }
}

/// Letters match in either case, and everything else matches itself alone.
pub proof fn law_case_makes_no_difference(s: &str, lit: &str, r: bool, i: int)
    requires
        call_ensures(matches_ignoring_case, (s, lit), r),
        r,
        0 <= i < s@.len(),
    ensures
        s@.len() == lit@.len(),
        'A' <= s@[i] <= 'Z' ==> lit@[i] as u32 == s@[i] as u32 + 32,
        !('A' <= s@[i] <= 'Z') ==> lit@[i] == s@[i],
{
    assert(ascii_lower(s@)[i] == ascii_lower_char(s@[i]));
}

/// A text without capitals matches itself, and two texts are equal exactly
/// when they have the same characters.
pub proof fn law_equal_texts_are_equal(s: &str, t: &str, r: bool, same: bool)
    requires
        call_ensures(matches_ignoring_case, (s, t), r),
        call_ensures(str_eq, (s, t), same),
    ensures
        same <==> s@ == t@,
        (forall|i: int| 0 <= i < s@.len() ==> !('A' <= (#[trigger] s@[i]) <= 'Z')) ==> (r <==> same),
{
    if forall|i: int| 0 <= i < s@.len() ==> !('A' <= (#[trigger] s@[i]) <= 'Z') {
        assert(ascii_lower(s@) =~= s@);
    }
}

/// A text is blank exactly when nothing of it is left once trimmed.
pub proof fn law_blank_texts_trim_to_nothing(s: &str, blank_one: bool, r: &str)
    requires
        call_ensures(is_blank, (s,), blank_one),
        call_ensures(trim, (s,), r),
    ensures
        blank_one <==> r@.len() == 0,
{
    let p = |c: char| is_space(c);
    let n = lemma_drop_front(s@, p);
    let rest = drop_front(s@, p);
    let m = lemma_drop_back(rest, p);
    if n < s@.len() {
        assert(rest[0] == s@[n]);
        assert(p(s@[n]) == is_space(s@[n]));
        if m == 0 {
            assert(p(rest[0]));
        }
    } else {
        assert(rest.len() == 0);
        assert(forall|j: int| 0 <= j < s@.len() ==> p(#[trigger] s@[j]) == is_space(s@[j]));
    }
}

} // verus!
