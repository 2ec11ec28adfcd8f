//! Rewriting one word of a declaration in place: the quoted name in its
//! header, or the keyword in front of it. Everything else keeps its bytes.

use vstd::prelude::*;
use vstd::string::*;
use vstd::utf8::*;

use crate::span::Span;

verus! {

/// The smaller of an offset and the length of the text.
pub open spec fn clipped(offset: usize, len: nat) -> int {
    if offset <= len {
        offset as int
    } else {
        len as int
    }
}

/// The first `"` at or after `i` and before `end`, or `end`.
pub open spec fn open_quote(b: Seq<u8>, i: int, end: int) -> int
    decreases end - i,
{
    if i >= end || b[i] == 34 {
        i
    } else {
        open_quote(b, i + 1, end)
    }
}

/// The first `"` at or after `i` and before `end` that no backslash escapes,
/// or `end`.
pub open spec fn close_quote(b: Seq<u8>, i: int, end: int) -> int
    decreases end - i,
{
    if i >= end || b[i] == 34 {
        i
    } else if b[i] == 92 && i + 1 < end {
        close_quote(b, i + 2, end)
    } else {
        close_quote(b, i + 1, end)
    }
}

/// Where the quotes of the first string literal in a span stand.
pub open spec fn literal_in(b: Seq<u8>, start: int, end: int) -> Option<(int, int)> {
    let open = open_quote(b, start, end);
    if open >= end {
        None
    } else {
        let close = close_quote(b, open + 1, end);
        if close >= end {
            None
        } else {
            Some((open, close))
        }
    }
}

/// The bytes with what stands between `from` and `to` replaced.
pub open spec fn spliced(b: Seq<u8>, from: int, to: int, new: Seq<u8>) -> Seq<u8> {
    b.take(from) + new + b.skip(to)
}

/// The bytes with the first string literal of the span replaced.
pub open spec fn renamed(b: Seq<u8>, start: int, end: int, new: Seq<u8>) -> Seq<u8> {
    match literal_in(b, start, end) {
        Some((open, close)) => spliced(b, open + 1, close, new),
        None => b,
    }
}

/// An ASCII white space byte.
pub open spec fn is_space_byte(x: u8) -> bool {
    x == 32 || x == 9 || x == 10 || x == 12 || x == 13
}

/// A byte of a keyword: an ASCII letter or digit, or an underscore.
pub open spec fn is_word_byte(x: u8) -> bool {
    48 <= x <= 57 || 65 <= x <= 90 || 97 <= x <= 122 || x == 95
}

/// The first byte at or after `i` that is no white space.
pub open spec fn skip_space(b: Seq<u8>, i: int) -> int
    decreases b.len() - i,
{
    if i >= b.len() || !is_space_byte(b[i]) {
        i
    } else {
        skip_space(b, i + 1)
    }
}

/// The first byte at or after `i` that belongs to no keyword.
pub open spec fn skip_word(b: Seq<u8>, i: int) -> int
    decreases b.len() - i,
{
    if i >= b.len() || !is_word_byte(b[i]) {
        i
    } else {
        skip_word(b, i + 1)
    }
}

/// The bytes with the keyword at or after `start` replaced; without one there,
/// they stay as they are.
pub open spec fn rekeyed(b: Seq<u8>, start: int, new: Seq<u8>) -> Seq<u8> {
    let from = skip_space(b, start);
    let to = skip_word(b, from);
    if to == from {
        b
    } else {
        spliced(b, from, to, new)
    }
}

// ---- UTF-8 -----------------------------------------------------------------

pub proof fn lemma_encode_concat(x: Seq<char>, y: Seq<char>)
    ensures
        encode_utf8(x + y) == encode_utf8(x) + encode_utf8(y),
    decreases x.len(),
{
    if x.len() == 0 {
        assert(x + y =~= y);
        assert(encode_utf8(x) + encode_utf8(y) =~= encode_utf8(y));
    } else {
        lemma_encode_concat(x.drop_first(), y);
        assert((x + y).drop_first() =~= x.drop_first() + y);
        assert((x + y)[0] == x[0]);
        assert(encode_scalar(x[0] as u32) + (encode_utf8(x.drop_first()) + encode_utf8(y))
            =~= encode_scalar(x[0] as u32) + encode_utf8(x.drop_first()) + encode_utf8(y));
    }
}

proof fn lemma_ascii_run_boundary(b: Seq<u8>, n: int)
    requires
        valid_utf8(b),
        0 <= n <= b.len(),
        forall|i: int| 0 <= i < n ==> #[trigger] b[i] < 128,
    ensures
        is_char_boundary(b, n),
    decreases n,
{
    if n > 0 {
        assert(b[0] < 128);
        let t = pop_first_scalar(b);
        assert(t =~= b.skip(1));
        assert forall|i: int| 0 <= i < n - 1 implies #[trigger] t[i] < 128 by {
            assert(t[i] == b[i + 1]);
        }
        lemma_ascii_run_boundary(t, n - 1);
    }
}

/// The first `n` bytes of `s` before an ASCII byte, and the rest.
fn split_before_ascii(s: &str, n: usize) -> (r: (&str, &str))
    requires
        n < encode_utf8(s@).len(),
        encode_utf8(s@)[n as int] < 128,
    ensures
        encode_utf8(r.0@) == encode_utf8(s@).take(n as int),
        encode_utf8(r.1@) == encode_utf8(s@).skip(n as int),
{
    proof {
        encode_utf8_valid_utf8(s@);
        is_char_boundary_iff_not_is_continuation_byte(encode_utf8(s@), n as int);
        assert(!is_continuation_byte(encode_utf8(s@)[n as int]));
    }
    let r = s.split_at(n);
    assert(encode_utf8(s@).subrange(0, n as int) =~= encode_utf8(s@).take(n as int));
    assert(encode_utf8(s@).subrange(n as int, encode_utf8(s@).len() as int) =~= encode_utf8(
        s@,
    ).skip(n as int));
    r
}

/// The first `n` bytes of `s`, all of them ASCII, and the rest.
fn split_after_ascii(s: &str, n: usize) -> (r: (&str, &str))
    requires
        n <= encode_utf8(s@).len(),
        forall|i: int| 0 <= i < n ==> #[trigger] encode_utf8(s@)[i] < 128,
    ensures
        encode_utf8(r.0@) == encode_utf8(s@).take(n as int),
        encode_utf8(r.1@) == encode_utf8(s@).skip(n as int),
{
    proof {
        encode_utf8_valid_utf8(s@);
        lemma_ascii_run_boundary(encode_utf8(s@), n as int);
    }
    let r = s.split_at(n);
    assert(encode_utf8(s@).subrange(0, n as int) =~= encode_utf8(s@).take(n as int));
    assert(encode_utf8(s@).subrange(n as int, encode_utf8(s@).len() as int) =~= encode_utf8(
        s@,
    ).skip(n as int));
    r
}

fn concat3(a: &str, b: &str, c: &str) -> (r: String)
    ensures
        encode_utf8(r@) == encode_utf8(a@) + encode_utf8(b@) + encode_utf8(c@),
{
    let mut s = a.to_owned();
    s.append(b);
    s.append(c);
    proof {
        lemma_encode_concat(a@, b@);
        lemma_encode_concat(a@ + b@, c@);
    }
    s
}

// ---- names -----------------------------------------------------------------

/// Rewrites the first quoted name in the span to `new_name`. Quotes behind a
/// backslash do not end a name. Without a quoted name in the span the source
/// stays as it is.
pub fn rewrite_node_name_literal(src: &str, span: Span, new_name: &str) -> (r: String)
    ensures
        encode_utf8(r@) == renamed(
            encode_utf8(src@),
            clipped(span.start, encode_utf8(src@).len()),
            clipped(span.end, encode_utf8(src@).len()),
            encode_utf8(new_name@),
        ),
{
    let bytes = src.as_bytes();
    let ghost b = encode_utf8(src@);
    let len = bytes.len();
    let start = if span.start <= len {
        span.start
    } else {
        len
    };
    let end = if span.end <= len {
        span.end
    } else {
        len
    };
    let mut i: usize = start;
    while i < end && bytes[i] != 34
        invariant
            bytes@ == b,
            end <= len,
            len == b.len(),
            start <= i,
            i <= end || i == start,
            open_quote(b, start as int, end as int) == open_quote(b, i as int, end as int),
        decreases end - i,
    {
        i = i + 1;
    }
    if i >= end {
        return src.to_owned();
    }
    let open = i;
    i = i + 1;
    while i < end && bytes[i] != 34
        invariant
            bytes@ == b,
            end <= len,
            len == b.len(),
            open < i <= end,
            close_quote(b, open + 1, end as int) == close_quote(b, i as int, end as int),
        decreases end - i,
    {
        if bytes[i] == 92 && i + 1 < end {
            i = i + 2;
        } else {
            i = i + 1;
        }
    }
    if i >= end {
        return src.to_owned();
    }
    let close = i;
    let (head, rest) = split_before_ascii(src, open);
    assert(encode_utf8(rest@)[0] == b[open as int]);
    let (quote, _) = split_after_ascii(rest, 1);
    let (_, tail) = split_before_ascii(src, close);
    let opened = concat3(head, quote, new_name);
    let mut out = opened.clone();
    out.append(tail);
    proof {
        lemma_encode_concat(opened@, tail@);
        assert(b.take(open as int) + b.skip(open as int).take(1) =~= b.take(open + 1));
    }
    out
}

/// Rewrites the quoted name in the header of a material declaration.
pub fn rewrite_material_decl_name(src: &str, span: Span, new_name: &str) -> (r: String)
    ensures
        encode_utf8(r@) == renamed(
            encode_utf8(src@),
            clipped(span.start, encode_utf8(src@).len()),
            clipped(span.end, encode_utf8(src@).len()),
            encode_utf8(new_name@),
        ),
{
    rewrite_node_name_literal(src, span, new_name)
}

/// Rewrites the keyword at the start of the declaration that the span covers.
/// Without a keyword there the source stays as it is.
pub fn rewrite_node_kind(src: &str, span: Span, new_kind: &str) -> (r: String)
    ensures
        encode_utf8(r@) == rekeyed(
            encode_utf8(src@),
            clipped(span.start, encode_utf8(src@).len()),
            encode_utf8(new_kind@),
        ),
{
    let bytes = src.as_bytes();
    let ghost b = encode_utf8(src@);
    let len = bytes.len();
    let start = if span.start <= len {
        span.start
    } else {
        len
    };
    let mut i: usize = start;
    while i < len && (bytes[i] == 32 || bytes[i] == 9 || bytes[i] == 10 || bytes[i] == 12
        || bytes[i] == 13)
        invariant
            bytes@ == b,
            len == b.len(),
            start <= i <= len,
            skip_space(b, start as int) == skip_space(b, i as int),
        decreases len - i,
    {
        i = i + 1;
    }
    let from = i;
    while i < len && ((48 <= bytes[i] && bytes[i] <= 57) || (65 <= bytes[i] && bytes[i] <= 90) || (
    97 <= bytes[i] && bytes[i] <= 122) || bytes[i] == 95)
        invariant
            bytes@ == b,
            len == b.len(),
            from <= i <= len,
            skip_word(b, from as int) == skip_word(b, i as int),
            forall|j: int| from <= j < i ==> is_word_byte(#[trigger] b[j]),
        decreases len - i,
    {
        i = i + 1;
    }
    if i == from {
        return src.to_owned();
    }
    let (head, rest) = split_before_ascii(src, from);
    assert forall|j: int| 0 <= j < i - from implies #[trigger] encode_utf8(rest@)[j] < 128 by {
        assert(encode_utf8(rest@)[j] == b[from + j]);
    }
    let (_, tail) = split_after_ascii(rest, i - from);
    assert(b.skip(from as int).skip(i - from) =~= b.skip(i as int));
    concat3(head, new_kind, tail)
}

// ---- what rewriting guarantees ---------------------------------------------

proof fn lemma_open_quote(b: Seq<u8>, i: int, k: int, end: int)
    requires
        i <= k <= end,
        forall|j: int| i <= j < k ==> #[trigger] b[j] != 34,
        k == end || b[k] == 34,
    ensures
        open_quote(b, i, end) == k,
    decreases k - i,
{
    if i < k {
        assert(b[i] != 34);
        lemma_open_quote(b, i + 1, k, end);
    }
}

proof fn lemma_open_quote_found(b: Seq<u8>, i: int, end: int)
    ensures
        open_quote(b, i, end) < end ==> i <= open_quote(b, i, end) && b[open_quote(b, i, end)] == 34,
        forall|j: int| i <= j < open_quote(b, i, end) ==> #[trigger] b[j] != 34,
    decreases end - i,
{
    if i < end && b[i] != 34 {
        lemma_open_quote_found(b, i + 1, end);
    }
}

proof fn lemma_close_quote_found(b: Seq<u8>, i: int, end: int)
    ensures
        close_quote(b, i, end) < end ==> i <= close_quote(b, i, end) && b[close_quote(b, i, end)]
            == 34,
    decreases end - i,
{
    if i < end && b[i] != 34 {
        if b[i] == 92 && i + 1 < end {
            lemma_close_quote_found(b, i + 2, end);
        } else {
            lemma_close_quote_found(b, i + 1, end);
        }
    }
}

proof fn lemma_close_quote_plain(b: Seq<u8>, i: int, k: int, end: int)
    requires
        i <= k < end,
        forall|j: int| i <= j < k ==> #[trigger] b[j] != 34 && b[j] != 92,
        b[k] == 34,
    ensures
        close_quote(b, i, end) == k,
    decreases k - i,
{
    if i < k {
        assert(b[i] != 34 && b[i] != 92);
        lemma_close_quote_plain(b, i + 1, k, end);
    }
}

/// A name that can stand between quotes as it is: without a quote or a
/// backslash in it.
pub open spec fn unquoted(name: Seq<u8>) -> bool {
    forall|j: int| 0 <= j < name.len() ==> #[trigger] name[j] != 34 && name[j] != 92
}

/// Where a span ends after the name in it has been rewritten.
pub open spec fn shifted_end(b: Seq<u8>, start: int, end: int, new: Seq<u8>) -> int {
    match literal_in(b, start, end) {
        Some((open, close)) => end - (close - open - 1) + new.len(),
        None => end,
    }
}

/// A rewritten name reads back: in the new source, the first string literal of
/// the (shifted) span is the new name, at the place of the old one.
pub proof fn law_rename_reads_back(b: Seq<u8>, start: int, end: int, new: Seq<u8>)
    requires
        0 <= start,
        end <= b.len(),
        literal_in(b, start, end) is Some,
        unquoted(new),
    ensures
        ({
            let (open, close) = literal_in(b, start, end)->0;
            let out = renamed(b, start, end, new);
            &&& literal_in(out, start, shifted_end(b, start, end, new)) == Some(
                (open, open + 1 + new.len()),
            )
            &&& out.subrange(open + 1, open + 1 + new.len()) == new
        }),
{
    let (open, close) = literal_in(b, start, end)->0;
    let out = renamed(b, start, end, new);
    let end2 = shifted_end(b, start, end, new);
    lemma_open_quote_found(b, start, end);
    lemma_close_quote_found(b, open + 1, end);
    assert forall|j: int| start <= j < open implies #[trigger] out[j] != 34 by {
        assert(out[j] == b[j]);
    }
    assert(out[open] == b[open]);
    lemma_open_quote(out, start, open, end2);
    let k = open + 1 + new.len();
    assert(out[k as int] == b[close]);
    assert forall|j: int| open + 1 <= j < k implies #[trigger] out[j] != 34 && out[j] != 92 by {
        assert(out[j] == new[j - open - 1]);
    }
    lemma_close_quote_plain(out, open + 1, k as int, end2);
    assert(out.subrange(open + 1, k as int) =~= new);
}

/// Of two rewritings in a row only the last one is seen.
pub proof fn law_last_rename_wins(b: Seq<u8>, start: int, end: int, first: Seq<u8>, second: Seq<u8>)
    requires
        0 <= start,
        end <= b.len(),
        literal_in(b, start, end) is Some,
        unquoted(first),
    ensures
        renamed(
            renamed(b, start, end, first),
            start,
            shifted_end(b, start, end, first),
            second,
        ) == renamed(b, start, end, second),
{
    let (open, close) = literal_in(b, start, end)->0;
    law_rename_reads_back(b, start, end, first);
    lemma_open_quote_found(b, start, end);
    lemma_close_quote_found(b, open + 1, end);
    let mid = renamed(b, start, end, first);
    assert(mid.take(open + 1) =~= b.take(open + 1));
    assert(mid.skip(open + 1 + first.len()) =~= b.skip(close));
}

/// Rewriting a name to itself changes nothing.
pub proof fn law_rename_to_itself(b: Seq<u8>, start: int, end: int)
    requires
        0 <= start,
        end <= b.len(),
        literal_in(b, start, end) is Some,
    ensures
        ({
            let (open, close) = literal_in(b, start, end)->0;
            renamed(b, start, end, b.subrange(open + 1, close)) == b
        }),
{
    let (open, close) = literal_in(b, start, end)->0;
    lemma_open_quote_found(b, start, end);
    lemma_close_quote_found(b, open + 1, end);
    assert(renamed(b, start, end, b.subrange(open + 1, close)) =~= b);
}

proof fn lemma_close_quote_escaped(b: Seq<u8>, i: int, k: int, end: int)
    requires
        i <= k < end,
        b[k] == 34,
        i < k ==> b[k - 1] != 92,
        forall|j: int|
            i <= j < k && #[trigger] b[j] == 34 ==> i < j && b[j - 1] == 92 && (j - 1 == i || b[j
                - 2] != 92),
    ensures
        close_quote(b, i, end) == k,
    decreases k - i,
{
    if i < k {
        assert(b[i] != 34);
        if b[i] == 92 {
            assert(i + 1 != k);
            lemma_close_quote_escaped(b, i + 2, k, end);
        } else {
            lemma_close_quote_escaped(b, i + 1, k, end);
        }
    }
}

/// Renaming puts the new name between the first quote of the span and the
/// quote that ends the name, which is the first one that no backslash stands
/// before, and keeps every other byte of the source.
pub proof fn law_rename_replaces_the_quoted_name(
    src: &str,
    span: Span,
    new_name: &str,
    r: String,
    open: int,
    close: int,
)
    requires
        call_ensures(rewrite_node_name_literal, (src, span, new_name), r),
        span.start <= open < close < span.end <= encode_utf8(src@).len(),
        encode_utf8(src@)[open] == 34,
        encode_utf8(src@)[close] == 34,
        forall|j: int| span.start <= j < open ==> #[trigger] encode_utf8(src@)[j] != 34,
        open + 1 < close ==> encode_utf8(src@)[close - 1] != 92,
        forall|j: int|
            open < j < close && #[trigger] encode_utf8(src@)[j] == 34 ==> open + 1 < j
                && encode_utf8(src@)[j - 1] == 92 && (j - 2 == open || encode_utf8(src@)[j - 2]
                != 92),
    ensures
        encode_utf8(r@) == encode_utf8(src@).take(open + 1) + encode_utf8(new_name@) + encode_utf8(
            src@,
        ).skip(close),
{
    let b = encode_utf8(src@);
    lemma_open_quote(b, span.start as int, open, span.end as int);
    lemma_close_quote_escaped(b, open + 1, close, span.end as int);
}

proof fn lemma_no_quote(b: Seq<u8>, i: int, end: int)
    requires
        forall|j: int| i <= j < end ==> #[trigger] b[j] != 34,
    ensures
        open_quote(b, i, end) >= end,
    decreases end - i,
{
    if i < end {
        assert(b[i] != 34);
        lemma_no_quote(b, i + 1, end);
    }
}

/// A span without a quote has no name, and renaming leaves the source alone.
pub proof fn law_rename_without_a_name_changes_nothing(
    src: &str,
    span: Span,
    new_name: &str,
    r: String,
)
    requires
        call_ensures(rewrite_node_name_literal, (src, span, new_name), r),
        forall|j: int|
            span.start <= j < span.end && j < encode_utf8(src@).len() ==> #[trigger] encode_utf8(
                src@,
            )[j] != 34,
    ensures
        r@ == src@,
{
    let b = encode_utf8(src@);
    lemma_no_quote(b, clipped(span.start, b.len()), clipped(span.end, b.len()));
    encode_utf8_decode_utf8(r@);
    encode_utf8_decode_utf8(src@);
}

/// The declaration of a material is renamed as a node is.
pub proof fn law_materials_are_renamed_like_nodes(
    src: &str,
    span: Span,
    new_name: &str,
    r: String,
    other: String,
)
    requires
        call_ensures(rewrite_node_name_literal, (src, span, new_name), r),
        call_ensures(rewrite_material_decl_name, (src, span, new_name), other),
    ensures
        r@ == other@,
{
    encode_utf8_decode_utf8(r@);
    encode_utf8_decode_utf8(other@);
}

proof fn lemma_skip_space(b: Seq<u8>, i: int, k: int)
    requires
        i <= k <= b.len(),
        forall|j: int| i <= j < k ==> is_space_byte(#[trigger] b[j]),
        k == b.len() || !is_space_byte(b[k]),
    ensures
        skip_space(b, i) == k,
    decreases k - i,
{
    if i < k {
        assert(is_space_byte(b[i]));
        lemma_skip_space(b, i + 1, k);
    }
}

proof fn lemma_skip_word(b: Seq<u8>, i: int, k: int)
    requires
        i <= k <= b.len(),
        forall|j: int| i <= j < k ==> is_word_byte(#[trigger] b[j]),
        k == b.len() || !is_word_byte(b[k]),
    ensures
        skip_word(b, i) == k,
    decreases k - i,
{
    if i < k {
        assert(is_word_byte(b[i]));
        lemma_skip_word(b, i + 1, k);
    }
}

/// Changing the kind of a node replaces the whole first word of its span,
/// letters, digits and underscores, behind blanks, tabs and line ends, and
/// keeps every other byte of the source.
pub proof fn law_kind_replaces_the_first_word(
    src: &str,
    span: Span,
    new_kind: &str,
    r: String,
    from: int,
    to: int,
)
    requires
        call_ensures(rewrite_node_kind, (src, span, new_kind), r),
        span.start <= from < to <= encode_utf8(src@).len(),
        forall|j: int|
            span.start <= j < from ==> (#[trigger] encode_utf8(src@)[j] == 32 || encode_utf8(src@)[j]
                == 9 || encode_utf8(src@)[j] == 10 || encode_utf8(src@)[j] == 12 || encode_utf8(
                src@,
            )[j] == 13),
        forall|j: int|
            from <= j < to ==> (48 <= #[trigger] encode_utf8(src@)[j] <= 57 || 65 <= encode_utf8(
                src@,
            )[j] <= 90 || 97 <= encode_utf8(src@)[j] <= 122 || encode_utf8(src@)[j] == 95),
        to == encode_utf8(src@).len() || !(48 <= encode_utf8(src@)[to] <= 57 || 65 <= encode_utf8(
            src@,
        )[to] <= 90 || 97 <= encode_utf8(src@)[to] <= 122 || encode_utf8(src@)[to] == 95),
    ensures
        encode_utf8(r@) == encode_utf8(src@).take(from) + encode_utf8(new_kind@) + encode_utf8(
            src@,
        ).skip(to),
{
    let b = encode_utf8(src@);
    assert(b[from] != 32);
    lemma_skip_space(b, span.start as int, from);
    lemma_skip_word(b, from, to);
}

} // verus!
