//! Escaping of template text. Raw text may hold braces that are no
//! placeholders: the object syntax of a JSON body, a shell fragment. Before a
//! text is compiled, every opening brace that does not begin a placeholder of
//! the form `{input.<field>}` gets a backslash in front of it, so that the
//! template engine takes it literally. Closing braces are left alone.

use crate::text::{
    cuts_cleanly, lemma_span_of_all, lemma_span_of_nothing, lemma_spans_join, slice, span,
};
use vstd::prelude::*;
use vstd::string::*;
use vstd::utf8::*;

verus! {

/// The pattern that finds the braces of a text: a placeholder (an opening
/// brace, optional whitespace, `input.`, word characters, optional whitespace,
/// a closing brace) or else a single opening brace.
pub const BRACE_PATTERN: &'static str = "(\\{\\s*input\\.\\w+\\s*})|(\\{)";

/// The capture group of `BRACE_PATTERN` that takes part in a match exactly
/// when the match is a single opening brace and no placeholder.
pub const LONE_BRACE_GROUP: usize = 2;

/// What a lone opening brace is replaced by.
pub const ESCAPED_BRACE: &'static str = "\\{";

/// One match of the brace pattern: the byte offsets it spans, and whether it
/// is a lone brace (else it is a placeholder).
#[derive(Debug, Clone, Copy, PartialEq, Eq, Structural)]
pub struct BraceMatch {
    pub start: usize,
    pub end: usize,
    pub lone: bool,
}

/// The matches that the regex engine finds for `pattern` in `text`, from left
/// to right, each marked with whether capture group `group` took part in it;
/// `None` where the engine does not accept the pattern.
pub uninterp spec fn pattern_matches(pattern: Seq<char>, group: usize, text: Seq<char>) -> Option<
    Seq<BraceMatch>,
>;

/// The matches cut no character of the text, and each starts where the one
/// before it has ended, or later.
pub open spec fn in_order(text: Seq<char>, found: Seq<BraceMatch>) -> bool {
    &&& forall|i: int|
        0 <= i < found.len() ==> cuts_cleanly(
            text,
            (#[trigger] found[i]).start as int,
            found[i].end as int,
        )
    &&& forall|i: int, j: int|
        0 <= i < j < found.len() ==> (#[trigger] found[i]).end <= (#[trigger] found[j]).start
}

/// Compiles `pattern` with `regex::Regex::new` and walks `text` with
/// `Regex::captures_iter`. The result is a function of the three arguments.
/// Of the matches the contract claims what the crate documents of every
/// `Match` and of the iterator: offsets lie on character boundaries within
/// the text with `start <= end`, and successive matches do not overlap.
#[verifier::external_body]
fn find_matches(pattern: &str, group: usize, text: &str) -> (r: Option<Vec<BraceMatch>>)
    ensures
        match r {
            Some(found) => pattern_matches(pattern@, group, text@) == Some(found@) && in_order(
                text@,
                found@,
            ),
            None => pattern_matches(pattern@, group, text@) is None,
        },
{
    let compiled = regex::Regex::new(pattern).ok()?;
    Some(
        compiled.captures_iter(text).map(
            |c| BraceMatch {
                start: c.get_match().start(),
                end: c.get_match().end(),
                lone: c.get(group).is_some(),
            },
        ).collect(),
    )
}

/// What stands in the escaped text for one match: the escaped brace for a
/// lone brace, the placeholder itself otherwise.
pub open spec fn replacement(text: Seq<char>, m: BraceMatch) -> Seq<char> {
    if m.lone {
        ESCAPED_BRACE@
    } else {
        span(text, m.start as int, m.end as int)
    }
}

/// The byte offset up to which the text is consumed once the first `n`
/// matches are dealt with.
pub open spec fn consumed(found: Seq<BraceMatch>, n: int) -> int {
    if n <= 0 {
        0
    } else {
        found[n - 1].end as int
    }
}

/// The escaped text as far as the first `n` matches reach: for each of them
/// the untouched text before it, then its replacement.
pub open spec fn escaped_upto(text: Seq<char>, found: Seq<BraceMatch>, n: nat) -> Seq<char>
    decreases n,
{
    if n == 0 {
        Seq::empty()
    } else {
        let m = found[n - 1];
        escaped_upto(text, found, (n - 1) as nat) + span(
            text,
            consumed(found, n - 1),
            m.start as int,
        ) + replacement(text, m)
    }
}

/// The text with every lone brace among `found` escaped and all else as it
/// was.
pub open spec fn escaped(text: Seq<char>, found: Seq<BraceMatch>) -> Seq<char> {
    escaped_upto(text, found, found.len()) + span(
        text,
        consumed(found, found.len() as int),
        encode_utf8(text).len() as int,
    )
}

/// Escaping changes lone braces only: as far as none of the first `n`
/// matches is a lone brace, the escaped text is the text itself up to the
/// end of the last of them.
proof fn lemma_placeholders_copied(text: Seq<char>, found: Seq<BraceMatch>, n: nat)
    requires
        in_order(text, found),
        n <= found.len(),
        forall|i: int| 0 <= i < n ==> !(#[trigger] found[i]).lone,
    ensures
        escaped_upto(text, found, n) == span(text, 0, consumed(found, n as int)),
        cuts_cleanly(text, 0, consumed(found, n as int)),
    decreases n,
{
    encode_utf8_valid_utf8(text);
    is_char_boundary_start_end_of_seq(encode_utf8(text));
    if n == 0 {
        lemma_span_of_nothing(text, 0);
    } else {
        lemma_placeholders_copied(text, found, (n - 1) as nat);
        let m = found[n - 1];
        let before = consumed(found, n - 1);
        assert(cuts_cleanly(text, m.start as int, m.end as int));
        assert(before <= m.start) by {
            if n > 1 {
                assert(found[n - 2].end <= found[n - 1].start);
            }
        }
        lemma_spans_join(text, 0, before, m.start as int);
        lemma_spans_join(text, 0, m.start as int, m.end as int);
    }
}

/// A text in which the pattern finds placeholders only, and no lone brace,
/// is its own escaped form: placeholders are left untouched.
pub proof fn lemma_without_lone_braces_unchanged(text: Seq<char>, found: Seq<BraceMatch>)
    requires
        in_order(text, found),
        forall|i: int| 0 <= i < found.len() ==> !(#[trigger] found[i]).lone,
    ensures
        escaped(text, found) == text,
{
    encode_utf8_valid_utf8(text);
    is_char_boundary_start_end_of_seq(encode_utf8(text));
    lemma_placeholders_copied(text, found, found.len());
    let end = consumed(found, found.len() as int);
    lemma_spans_join(text, 0, end, encode_utf8(text).len() as int);
    lemma_span_of_all(text);
}

/// Rewrites `text` around the matches `found`: lone braces are escaped,
/// placeholders and the text between matches are copied.
pub fn escape_braces(text: &str, found: &Vec<BraceMatch>) -> (out: String)
    requires
        in_order(text@, found@),
    ensures
        out@ == escaped(text@, found@),
{
    broadcast use encode_utf8_valid_utf8;

    let mut out = String::new();
    let mut cursor: usize = 0;
    let mut i: usize = 0;
    proof {
        is_char_boundary_start_end_of_seq(encode_utf8(text@));
    }
    while i < found.len()
        invariant
            i <= found.len(),
            in_order(text@, found@),
            cursor == consumed(found@, i as int),
            cuts_cleanly(text@, cursor as int, cursor as int),
            is_char_boundary(encode_utf8(text@), encode_utf8(text@).len() as int),
            out@ == escaped_upto(text@, found@, i as nat),
        decreases found.len() - i,
    {
        let m = found[i];
        assert(cuts_cleanly(text@, found@[i as int].start as int, found@[i as int].end as int));
        assert(cursor <= m.start) by {
            if i > 0 {
                assert(found@[i - 1].end <= found@[i as int].start);
            }
        }
        out.append(slice(text, cursor, m.start));
        if m.lone {
            out.append(ESCAPED_BRACE);
        } else {
            out.append(slice(text, m.start, m.end));
        }
        cursor = m.end;
        i = i + 1;
    }
    let end: usize = text.as_bytes().len();
    out.append(slice(text, cursor, end));
    out
}

/// The text with every opening brace escaped that begins no
/// `{input.<field>}` placeholder; `None` only if the regex engine does not
/// accept the brace pattern.
pub open spec fn sanitized(text: Seq<char>) -> Option<Seq<char>> {
    match pattern_matches(BRACE_PATTERN@, LONE_BRACE_GROUP, text) {
        Some(found) => Some(escaped(text, found)),
        None => None,
    }
}

/// Escapes every opening brace of `text` that begins no `{input.<field>}`
/// placeholder. `None` only if the regex engine turns the brace pattern down.
pub fn sanitize_template_text(text: &str) -> (r: Option<String>)
    ensures
        match sanitized(text@) {
            Some(clean) => r matches Some(out) && out@ == clean,
            None => r is None,
        },
{
    match find_matches(BRACE_PATTERN, LONE_BRACE_GROUP, text) {
        Some(found) => Some(escape_braces(text, &found)),
        None => None,
    }
}

} // verus!
