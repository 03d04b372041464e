//! Text tools that the rest of the library is built on: decimal numerals,
//! slices of a string between byte offsets, and the test for the openers of
//! block and comment tags.

use vstd::prelude::*;
use vstd::string::*;
use vstd::utf8::*;

verus! {

/// The numeral for one decimal digit.
pub open spec fn digit(d: nat) -> char {
    if d == 0 {
        '0'
    } else if d == 1 {
        '1'
    } else if d == 2 {
        '2'
    } else if d == 3 {
        '3'
    } else if d == 4 {
        '4'
    } else if d == 5 {
        '5'
    } else if d == 6 {
        '6'
    } else if d == 7 {
        '7'
    } else if d == 8 {
        '8'
    } else {
        '9'
    }
}

/// The decimal numeral of `n`, without sign or leading zeros.
pub open spec fn decimal_text(n: nat) -> Seq<char>
    decreases n,
{
    if n < 10 {
        seq![digit(n)]
    } else {
        decimal_text(n / 10).push(digit(n % 10))
    }
}

/// A numeral has at least one digit.
pub proof fn lemma_decimal_not_empty(n: nat)
    ensures
        decimal_text(n).len() >= 1,
    decreases n,
{
    if n >= 10 {
        lemma_decimal_not_empty(n / 10);
    }
}

/// Different numbers have different numerals.
pub proof fn lemma_decimal_distinct(a: nat, b: nat)
    requires
        decimal_text(a) == decimal_text(b),
    ensures
        a == b,
    decreases a,
{
    lemma_decimal_not_empty(a / 10);
    lemma_decimal_not_empty(b / 10);
    if a < 10 && b < 10 {
        assert(decimal_text(a)[0] == digit(a));
        assert(decimal_text(b)[0] == digit(b));
    } else if a >= 10 && b >= 10 {
        let x = decimal_text(a / 10);
        let y = decimal_text(b / 10);
        assert(x.push(digit(a % 10)).last() == digit(a % 10));
        assert(y.push(digit(b % 10)).last() == digit(b % 10));
        assert(x.push(digit(a % 10)).drop_last() =~= x);
        assert(y.push(digit(b % 10)).drop_last() =~= y);
        lemma_decimal_distinct(a / 10, b / 10);
    } else if a < 10 {
        assert(decimal_text(a).len() == 1);
        assert(decimal_text(b).len() == decimal_text(b / 10).len() + 1);
    } else {
        assert(decimal_text(b).len() == 1);
        assert(decimal_text(a).len() == decimal_text(a / 10).len() + 1);
    }
}

fn digit_str(d: u64) -> (s: &'static str)
    requires
        d < 10,
    ensures
        s@ =~= seq![digit(d as nat)],
{
    proof {
        reveal_strlit("0");
        reveal_strlit("1");
        reveal_strlit("2");
        reveal_strlit("3");
        reveal_strlit("4");
        reveal_strlit("5");
        reveal_strlit("6");
        reveal_strlit("7");
        reveal_strlit("8");
        reveal_strlit("9");
    }
    if d == 0 {
        "0"
    } else if d == 1 {
        "1"
    } else if d == 2 {
        "2"
    } else if d == 3 {
        "3"
    } else if d == 4 {
        "4"
    } else if d == 5 {
        "5"
    } else if d == 6 {
        "6"
    } else if d == 7 {
        "7"
    } else if d == 8 {
        "8"
    } else {
        "9"
    }
}

/// Writes `n` as a decimal numeral.
pub fn decimal(n: u64) -> (s: String)
    ensures
        s@ == decimal_text(n as nat),
    decreases n,
{
    if n < 10 {
        String::from_str(digit_str(n))
    } else {
        let mut s = decimal(n / 10);
        s.append(digit_str(n % 10));
        assert(s@ =~= decimal_text((n / 10) as nat).push(digit((n % 10) as nat)));
        s
    }
}

/// The characters of `text` whose UTF-8 bytes lie between the byte offsets
/// `from` and `to`.
pub open spec fn span(text: Seq<char>, from: int, to: int) -> Seq<char> {
    decode_utf8(encode_utf8(text).subrange(from, to))
}

/// `from..to` is a range of byte offsets of `text` that cuts no character.
pub open spec fn cuts_cleanly(text: Seq<char>, from: int, to: int) -> bool {
    &&& 0 <= from <= to <= encode_utf8(text).len()
    &&& is_char_boundary(encode_utf8(text), from)
    &&& is_char_boundary(encode_utf8(text), to)
}

/// A character boundary of a text is one of every tail that starts at an
/// earlier boundary.
proof fn lemma_boundary_in_tail(bytes: Seq<u8>, from: int, to: int)
    requires
        valid_utf8(bytes),
        0 <= from <= to <= bytes.len(),
        is_char_boundary(bytes, from),
        is_char_boundary(bytes, to),
    ensures
        valid_utf8(bytes.subrange(from, bytes.len() as int)),
        is_char_boundary(bytes.subrange(from, bytes.len() as int), to - from),
{
    let tail = bytes.subrange(from, bytes.len() as int);
    valid_utf8_split(bytes, from);
    if to == bytes.len() {
        is_char_boundary_start_end_of_seq(tail);
    } else {
        is_char_boundary_iff_not_is_continuation_byte(bytes, to);
        assert(tail[to - from] == bytes[to]);
        is_char_boundary_iff_not_is_continuation_byte(tail, to - from);
    }
}

/// A character boundary of a text is one of every head that ends at a later
/// boundary.
proof fn lemma_boundary_in_head(bytes: Seq<u8>, at: int, to: int)
    requires
        valid_utf8(bytes),
        0 <= at <= to <= bytes.len(),
        is_char_boundary(bytes, at),
        is_char_boundary(bytes, to),
    ensures
        valid_utf8(bytes.subrange(0, to)),
        is_char_boundary(bytes.subrange(0, to), at),
{
    let head = bytes.subrange(0, to);
    valid_utf8_split(bytes, to);
    if at == to {
        is_char_boundary_start_end_of_seq(head);
    } else {
        is_char_boundary_iff_not_is_continuation_byte(bytes, at);
        assert(head[at] == bytes[at]);
        is_char_boundary_iff_not_is_continuation_byte(head, at);
    }
}

/// Two spans that meet make up the span from the start of the first to the
/// end of the second.
pub proof fn lemma_spans_join(text: Seq<char>, from: int, mid: int, to: int)
    requires
        cuts_cleanly(text, from, mid),
        cuts_cleanly(text, mid, to),
    ensures
        span(text, from, mid) + span(text, mid, to) == span(text, from, to),
{
    let bytes = encode_utf8(text);
    encode_utf8_valid_utf8(text);
    lemma_boundary_in_tail(bytes, from, to);
    lemma_boundary_in_tail(bytes, from, mid);
    let tail = bytes.subrange(from, bytes.len() as int);
    lemma_boundary_in_head(tail, mid - from, to - from);
    let piece = tail.subrange(0, to - from);
    decode_utf8_split(piece, mid - from);
    assert(piece =~= bytes.subrange(from, to));
    assert(piece.subrange(0, mid - from) =~= bytes.subrange(from, mid));
    assert(piece.subrange(mid - from, piece.len() as int) =~= bytes.subrange(mid, to));
}

/// The span over all of a text is the text.
pub proof fn lemma_span_of_all(text: Seq<char>)
    ensures
        span(text, 0, encode_utf8(text).len() as int) == text,
{
    let bytes = encode_utf8(text);
    assert(bytes.subrange(0, bytes.len() as int) =~= bytes);
    encode_utf8_decode_utf8(text);
}

/// The span between an offset and itself is empty.
pub proof fn lemma_span_of_nothing(text: Seq<char>, at: int)
    requires
        0 <= at <= encode_utf8(text).len(),
    ensures
        span(text, at, at) == Seq::<char>::empty(),
{
    let bytes = encode_utf8(text);
    assert(bytes.subrange(at, at) =~= Seq::<u8>::empty());
    assert(decode_utf8(Seq::<u8>::empty()) == Seq::<char>::empty()) by {
        reveal_with_fuel(valid_utf8, 1);
        reveal_with_fuel(decode_utf8, 1);
    }
}

/// The part of `text` between two byte offsets that cut no character.
pub fn slice<'a>(text: &'a str, from: usize, to: usize) -> (piece: &'a str)
    requires
        cuts_cleanly(text@, from as int, to as int),
    ensures
        piece@ == span(text@, from as int, to as int),
{
    broadcast use encode_utf8_valid_utf8, encode_utf8_decode_utf8;

    let ghost bytes = text.spec_bytes();
    let (_, rest) = text.split_at(from);
    proof {
        lemma_boundary_in_tail(bytes, from as int, to as int);
        assert(rest.spec_bytes() == bytes.subrange(from as int, bytes.len() as int));
    }
    let (piece, _) = rest.split_at(to - from);
    proof {
        assert(piece.spec_bytes() =~= bytes.subrange(from as int, to as int));
        assert(decode_utf8(encode_utf8(piece@)) == piece@);
    }
    piece
}

/// The byte of the opening brace.
pub const OPEN_BRACE: u8 = 0x7b;

/// The byte of the hash sign.
pub const HASH: u8 = 0x23;

/// The byte of the backslash.
pub const BACKSLASH: u8 = 0x5c;

/// A block tag (`{{`) or a comment (`{#`) opens at offset `at`: the two
/// bytes stand there, and no backslash in front of them escapes the brace.
pub open spec fn tag_opens_at(bytes: Seq<u8>, at: int) -> bool {
    &&& 0 <= at
    &&& at + 1 < bytes.len()
    &&& bytes[at] == OPEN_BRACE
    &&& (bytes[at + 1] == OPEN_BRACE || bytes[at + 1] == HASH)
    &&& (at == 0 || bytes[at - 1] != BACKSLASH)
}

/// Somewhere in the text a block tag or a comment opens.
pub open spec fn opens_tag(text: Seq<char>) -> bool {
    exists|at: int| tag_opens_at(encode_utf8(text), at)
}

/// Whether a block tag (`{{`) or a comment (`{#`) opens anywhere in `text`,
/// with no backslash in front of it.
pub fn has_tag_opener(text: &str) -> (found: bool)
    ensures
        found == opens_tag(text@),
{
    let bytes = text.as_bytes();
    let n: usize = bytes.len();
    if n < 2 {
        return false;
    }
    let mut i: usize = 0;
    while i < n - 1
        invariant
            2 <= n == bytes@.len(),
            i <= n - 1,
            bytes@ == encode_utf8(text@),
            forall|at: int| 0 <= at < i ==> !tag_opens_at(bytes@, at),
        decreases n - i,
    {
        if bytes[i] == OPEN_BRACE && (bytes[i + 1] == OPEN_BRACE || bytes[i + 1] == HASH) && (i == 0
            || bytes[i - 1] != BACKSLASH) {
            assert(tag_opens_at(bytes@, i as int));
            return true;
        }
        i = i + 1;
    }
    false
}

/// The last byte of the text is a backslash.
pub open spec fn ends_in_backslash(text: Seq<char>) -> bool {
    encode_utf8(text).len() > 0 && encode_utf8(text).last() == BACKSLASH
}

/// Whether `text` ends in a backslash.
pub fn has_trailing_backslash(text: &str) -> (found: bool)
    ensures
        found == ends_in_backslash(text@),
{
    let bytes = text.as_bytes();
    let n: usize = bytes.len();
    n > 0 && bytes[n - 1] == BACKSLASH
}

/// `needle` stands in `hay` from offset `at` on.
pub open spec fn occurs_at(needle: Seq<u8>, hay: Seq<u8>, at: int) -> bool {
    &&& 0 <= at
    &&& at + needle.len() <= hay.len()
    &&& hay.subrange(at, at + needle.len()) == needle
}

/// The text `needle` occurs somewhere in the text `hay`. Stated over the
/// UTF-8 bytes of both, where one text lies within another exactly if its
/// bytes do.
pub open spec fn occurs_in(needle: Seq<char>, hay: Seq<char>) -> bool {
    exists|at: int| occurs_at(encode_utf8(needle), encode_utf8(hay), at)
}

/// Whether `needle` stands in `hay` from `at` on.
fn matches_at(needle: &[u8], hay: &[u8], at: usize) -> (same: bool)
    requires
        at + needle@.len() <= hay@.len(),
    ensures
        same == occurs_at(needle@, hay@, at as int),
{
    let n: usize = hay.len();
    let mut k: usize = 0;
    while k < needle.len()
        invariant
            k <= needle@.len(),
            at + needle@.len() <= hay@.len() == n,
            forall|j: int| 0 <= j < k ==> hay@[at + j] == needle@[j],
        decreases needle@.len() - k,
    {
        if hay[at + k] != needle[k] {
            assert(hay@.subrange(at as int, at + needle@.len())[k as int] != needle@[k as int]);
            return false;
        }
        k = k + 1;
    }
    assert(hay@.subrange(at as int, at + needle@.len()) =~= needle@);
    true
}

/// Whether `needle` occurs in `hay`.
pub fn contains(hay: &str, needle: &str) -> (found: bool)
    ensures
        found == occurs_in(needle@, hay@),
{
    let hay_bytes = hay.as_bytes();
    let needle_bytes = needle.as_bytes();
    if needle_bytes.len() > hay_bytes.len() {
        return false;
    }
    let last: usize = hay_bytes.len() - needle_bytes.len();
    let mut at: usize = 0;
    while at < last
        invariant
            hay_bytes@ == encode_utf8(hay@),
            needle_bytes@ == encode_utf8(needle@),
            last == hay_bytes@.len() - needle_bytes@.len(),
            at <= last,
            forall|j: int| 0 <= j < at ==> !occurs_at(needle_bytes@, hay_bytes@, j),
        decreases last - at,
    {
        if matches_at(needle_bytes, hay_bytes, at) {
            return true;
        }
        at = at + 1;
    }
    matches_at(needle_bytes, hay_bytes, last)
}

} // verus!
