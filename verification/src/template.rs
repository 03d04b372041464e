//! A set of named templates and the two value formatters. Compiling and
//! rendering are `tinytemplate`'s; the set keeps the texts and hands them to
//! the engine, which calls back into the formatters defined here.

use crate::json::{json_text, to_text};
use crate::text::{ends_in_backslash, has_tag_opener, has_trailing_backslash, opens_tag};
use serde_json::Value;
use vstd::prelude::*;
use vstd::string::*;
use vstd::utf8::*;

verus! {

/// `tinytemplate::error::Error`, the error that a formatter hands to the
/// engine.
#[verifier::external_type_specification]
#[verifier::external_body]
pub struct ExEngineError(tinytemplate::error::Error);

/// The name under which the percent-encoding formatter is registered, as in
/// `{ value | url_encode }`.
pub const URL_ENCODE: &'static str = "url_encode";

/// The complaint about a text in which a block tag or a comment opens.
pub const TAGS_UNSUPPORTED: &'static str =
    "Block tags and comments are not supported; only value placeholders are";

/// The complaint about a text that ends in a backslash.
pub const TRAILING_BACKSLASH: &'static str =
    "A template cannot end in a backslash: nothing follows that it could escape";

/// The engine can be handed the text: no block tag or comment opens in it,
/// and it does not end in a backslash.
pub open spec fn fit_for_engine(text: Seq<char>) -> bool {
    !opens_tag(text) && !ends_in_backslash(text)
}

/// A text that is quoted loses its first and its last character, the pair of
/// quotes around it; any other text stays as it is.
pub open spec fn unquoted(text: Seq<char>) -> Seq<char> {
    if text.len() >= 2 && text.first() == '"' && text.last() == '"' {
        text.subrange(1, text.len() - 1)
    } else {
        text
    }
}

/// A text put between two quotes comes back when the quotes are taken off:
/// a JSON string renders as its content, unquoted.
pub proof fn lemma_unquoted_content(content: Seq<char>)
    ensures
        unquoted(seq!['"'] + content + seq!['"']) == content,
{
    let quoted = seq!['"'] + content + seq!['"'];
    assert(quoted.subrange(1, quoted.len() - 1) =~= content);
}

/// Taking the quotes off leaves alone what is not between quotes.
pub proof fn lemma_unquoted_bare(text: Seq<char>)
    requires
        text.len() == 0 || text.first() != '"',
    ensures
        unquoted(text) == text,
{
}

/// Takes one pair of surrounding double quotes off `text`, if it has one.
pub fn strip_quotes(text: &str) -> (bare: &str)
    ensures
        bare@ == unquoted(text@),
{
    let n: usize = text.unicode_len();
    if n >= 2 && text.get_char(0) == '"' && text.get_char(n - 1) == '"' {
        text.substring_char(1, n - 1)
    } else {
        text
    }
}

/// The bytes that percent-encoding leaves as they are: ASCII letters and
/// digits, `-`, `.`, `_` and `~`.
pub open spec fn is_unreserved(b: u8) -> bool {
    ||| 0x30 <= b <= 0x39
    ||| 0x41 <= b <= 0x5a
    ||| 0x61 <= b <= 0x7a
    ||| b == 0x2d
    ||| b == 0x2e
    ||| b == 0x5f
    ||| b == 0x7e
}

/// The upper-case hexadecimal numeral of a value below sixteen.
pub open spec fn hex_digit(d: int) -> char {
    if d < 10 {
        (0x30 + d) as char
    } else {
        (0x41 + d - 10) as char
    }
}

/// One byte, percent-encoded: itself if unreserved, else `%` and its two
/// hexadecimal digits.
pub open spec fn percent_encoded_byte(b: u8) -> Seq<char> {
    if is_unreserved(b) {
        seq![b as char]
    } else {
        seq!['%', hex_digit(b as int / 16), hex_digit(b as int % 16)]
    }
}

/// A byte string, percent-encoded byte by byte.
pub open spec fn percent_encoded(bytes: Seq<u8>) -> Seq<char>
    decreases bytes.len(),
{
    if bytes.len() == 0 {
        Seq::empty()
    } else {
        percent_encoded_byte(bytes[0]) + percent_encoded(bytes.drop_first())
    }
}

/// Calls `urlencoding::encode`, which percent-encodes every byte of the
/// UTF-8 text except ASCII letters, digits, `-`, `.`, `_` and `~`, with
/// upper-case hexadecimal digits.
#[verifier::external_body]
fn percent_encode(text: &str) -> (encoded: String)
    ensures
        encoded@ == percent_encoded(encode_utf8(text@)),
{
    urlencoding::encode(text).into_owned()
}

/// Wraps a serializer's error as the template engine's, with
/// `tinytemplate::error::Error::from`.
#[verifier::external_body]
fn serializer_failure(cause: serde_json::Error) -> tinytemplate::error::Error {
    tinytemplate::error::Error::from(cause)
}

/// The engine's complaint about a template text that it cannot compile;
/// `None` for a text that it compiles.
pub uninterp spec fn compile_failure(text: Seq<char>) -> Option<Seq<char>>;

/// What the engine renders from a template text against a context, with the
/// formatters of this module in place and the percent-encoding one registered
/// as `encoder`: the rendered text, or the engine's complaint.
pub uninterp spec fn rendered(text: Seq<char>, encoder: Seq<char>, context: Value) -> Result<
    Seq<char>,
    Seq<char>,
>;

/// Compiles `text` with `TinyTemplate::add_template` in a fresh engine. The
/// verdict is a function of the text. Texts in which a block tag or a comment
/// opens, and texts that end in a backslash, are kept out: on some of them
/// the engine's parser panics. The parser takes a brace for the start of a
/// tag only at the start of the text, behind a tag, or behind text that does
/// not end in a backslash.
#[verifier::external_body]
fn compile_text(text: &str) -> (r: Result<(), String>)
    requires
        fit_for_engine(text@),
    ensures
        match r {
            Ok(_) => compile_failure(text@) is None,
            Err(complaint) => compile_failure(text@) == Some(complaint@),
        },
{
    tinytemplate::TinyTemplate::new().add_template(text, text).map_err(|e| e.to_string())
}

/// Renders `text` against `context` in a fresh engine: sets the default
/// formatter, registers the percent-encoding one as `encoder`, compiles the
/// text and calls `TinyTemplate::render`. The outcome is a function of the
/// three arguments. The texts that are kept out of compiling are kept out
/// here too.
#[verifier::external_body]
fn render_text(text: &str, encoder: &str, context: &Value) -> (r: Result<String, String>)
    requires
        fit_for_engine(text@),
    ensures
        match r {
            Ok(out) => rendered(text@, encoder@, *context) == Ok::<Seq<char>, Seq<char>>(out@),
            Err(complaint) => rendered(text@, encoder@, *context) == Err::<Seq<char>, Seq<char>>(
                complaint@,
            ),
        },
{
    let mut engine = tinytemplate::TinyTemplate::new();
    engine.set_default_formatter(&Template::default_formatter);
    engine.add_formatter(encoder, Template::url_encode_formatter);
    engine.add_template(text, text).map_err(|e| e.to_string())?;
    engine.render(text, context).map_err(|e| e.to_string())
}

/// Why a text is no template: the complaint about tags where one opens in
/// it, the complaint about a backslash at its end, else the engine's
/// complaint, if it has one.
pub open spec fn template_fault(text: Seq<char>) -> Option<Seq<char>> {
    if opens_tag(text) {
        Some(TAGS_UNSUPPORTED@)
    } else if ends_in_backslash(text) {
        Some(TRAILING_BACKSLASH@)
    } else {
        compile_failure(text)
    }
}

/// A text that is no template.
#[derive(Debug)]
pub struct TemplateError {
    pub message: String,
}

/// A template that could not be rendered against an input.
#[derive(Debug)]
pub struct RenderError {
    pub message: String,
}

/// Checks that `text` is a template: no block tag or comment opens in it,
/// it does not end in a backslash, and the engine compiles it.
pub fn check_template(text: &str) -> (r: Result<(), TemplateError>)
    ensures
        match template_fault(text@) {
            None => r is Ok,
            Some(complaint) => r matches Err(e) && e.message@ == complaint,
        },
{
    if has_tag_opener(text) {
        return Err(TemplateError { message: String::from_str(TAGS_UNSUPPORTED) });
    }
    if has_trailing_backslash(text) {
        return Err(TemplateError { message: String::from_str(TRAILING_BACKSLASH) });
    }
    match compile_text(text) {
        Ok(_) => Ok(()),
        Err(complaint) => Err(TemplateError { message: complaint }),
    }
}

/// One named template of a set.
struct Slot {
    name: String,
    text: String,
}

/// The mapping that a list of slots stands for: each name bound to the text
/// of the last slot that bears it.
spec fn slot_map(slots: Seq<Slot>) -> Map<Seq<char>, Seq<char>>
    decreases slots.len(),
{
    if slots.len() == 0 {
        Map::empty()
    } else {
        slot_map(slots.drop_last()).insert(slots.last().name@, slots.last().text@)
    }
}

/// A name that no slot bears is not bound.
proof fn lemma_unbound(slots: Seq<Slot>, name: Seq<char>)
    requires
        forall|j: int| 0 <= j < slots.len() ==> slots[j].name@ != name,
    ensures
        !slot_map(slots).contains_key(name),
    decreases slots.len(),
{
    if slots.len() > 0 {
        lemma_unbound(slots.drop_last(), name);
    }
}

/// A name is bound to the text of the last slot that bears it.
proof fn lemma_bound(slots: Seq<Slot>, at: int, name: Seq<char>)
    requires
        0 <= at < slots.len(),
        slots[at].name@ == name,
        forall|j: int| at < j < slots.len() ==> slots[j].name@ != name,
    ensures
        slot_map(slots).contains_key(name),
        slot_map(slots)[name] == slots[at].text@,
    decreases slots.len(),
{
    if at < slots.len() - 1 {
        lemma_bound(slots.drop_last(), at, name);
    }
}

/// A set of templates, each under a name of its own. A set only ever holds
/// texts that are templates.
pub struct Template {
    slots: Vec<Slot>,
}

impl View for Template {
    type V = Map<Seq<char>, Seq<char>>;

    /// The template text under each name.
    closed spec fn view(&self) -> Map<Seq<char>, Seq<char>> {
        slot_map(self.slots@)
    }
}

/// The start of the complaint about a name under which the set holds nothing.
pub const UNKNOWN_TEMPLATE: &'static str = "Unknown template '";

/// The end of that complaint.
pub const CLOSING_QUOTE: &'static str = "'";

/// What rendering the template `name` of a set against `context` gives: the
/// engine's rendering of the text under that name, or the complaint that the
/// set holds no such name.
pub open spec fn render_outcome(
    templates: Map<Seq<char>, Seq<char>>,
    name: Seq<char>,
    context: Value,
) -> Result<Seq<char>, Seq<char>> {
    if templates.contains_key(name) {
        rendered(templates[name], URL_ENCODE@, context)
    } else {
        Err(UNKNOWN_TEMPLATE@ + name + CLOSING_QUOTE@)
    }
}

impl Template {
    #[verifier::type_invariant]
    spec fn sound(self) -> bool {
        forall|i: int|
            0 <= i < self.slots@.len() ==> template_fault((#[trigger] self.slots@[i]).text@) is None
    }

    /// The default formatter: appends the JSON text of `value` to `output`,
    /// without the quotes around it if it is a string. Numbers, objects and
    /// all else appear as their JSON text.
    pub fn default_formatter(value: &Value, output: &mut String) -> (r: Result<
        (),
        tinytemplate::error::Error,
    >)
        ensures
            match json_text(*value) {
                Some(text) => r is Ok && final(output)@ == old(output)@ + unquoted(text),
                None => r is Err && final(output)@ == old(output)@,
            },
    {
        match to_text(value) {
            Ok(text) => {
                output.append(strip_quotes(text.as_str()));
                Ok(())
            },
            Err(cause) => Err(serializer_failure(cause)),
        }
    }

    /// The formatter for URL paths and queries: appends the JSON text of
    /// `value`, percent-encoded, to `output`.
    pub fn url_encode_formatter(value: &Value, output: &mut String) -> (r: Result<
        (),
        tinytemplate::error::Error,
    >)
        ensures
            match json_text(*value) {
                Some(text) => r is Ok && final(output)@ == old(output)@ + percent_encoded(
                    encode_utf8(text),
                ),
                None => r is Err && final(output)@ == old(output)@,
            },
    {
        match to_text(value) {
            Ok(text) => {
                let encoded = percent_encode(text.as_str());
                output.append(encoded.as_str());
                Ok(())
            },
            Err(cause) => Err(serializer_failure(cause)),
        }
    }

    /// The empty set.
    pub fn new() -> (set: Template)
        ensures
            set@ == Map::<Seq<char>, Seq<char>>::empty(),
    {
        Template { slots: Vec::new() }
    }

    /// Puts `template_str` into the set under `name`, in place of what was
    /// there under that name. A text that is no template is turned down and
    /// the set stays as it was.
    pub fn add_template(&mut self, name: &str, template_str: &str) -> (r: Result<(), TemplateError>)
        ensures
            match template_fault(template_str@) {
                None => r is Ok && final(self)@ == old(self)@.insert(name@, template_str@),
                Some(complaint) => r matches Err(e) && e.message@ == complaint && final(self)@
                    == old(self)@,
            },
    {
        proof {
            use_type_invariant(&*self);
        }
        match check_template(template_str) {
            Ok(_) => {
                let ghost before = self.slots@;
                let slot = Slot { name: String::from_str(name), text: String::from_str(template_str) };
                let mut slots: Vec<Slot> = Vec::new();
                std::mem::swap(&mut self.slots, &mut slots);
                slots.push(slot);
                proof {
                    assert(slots@.drop_last() =~= before);
                }
                self.slots = slots;
                Ok(())
            },
            Err(e) => Err(e),
        }
    }

    /// The index of the last slot that bears `name`.
    fn find(&self, name: &str) -> (r: Option<usize>)
        ensures
            match r {
                Some(at) => at < self.slots@.len() && self@.contains_key(name@) && self@[name@]
                    == self.slots@[at as int].text@,
                None => !self@.contains_key(name@),
            },
    {
        let wanted = String::from_str(name);
        let mut i: usize = self.slots.len();
        while i > 0
            invariant
                i <= self.slots@.len(),
                wanted@ == name@,
                forall|j: int| i <= j < self.slots@.len() ==> self.slots@[j].name@ != name@,
            decreases i,
        {
            i = i - 1;
            if self.slots[i].name == wanted {
                proof {
                    lemma_bound(self.slots@, i as int, name@);
                }
                return Some(i);
            }
        }
        proof {
            lemma_unbound(self.slots@, name@);
        }
        None
    }

    /// Whether the set holds a template under `name`.
    pub fn contains(&self, name: &str) -> (held: bool)
        ensures
            held == self@.contains_key(name@),
    {
        self.find(name).is_some()
    }

    /// Renders the template `name` against `input`.
    pub fn render(&self, name: &str, input: &Value) -> (r: Result<String, RenderError>)
        ensures
            match render_outcome(self@, name@, *input) {
                Ok(text) => r matches Ok(out) && out@ == text,
                Err(complaint) => r matches Err(e) && e.message@ == complaint,
            },
    {
        proof {
            use_type_invariant(self);
        }
        match self.find(name) {
            Some(at) => {
                match render_text(self.slots[at].text.as_str(), URL_ENCODE, input) {
                    Ok(out) => Ok(out),
                    Err(complaint) => Err(RenderError { message: complaint }),
                }
            },
            None => {
                let mut message = String::from_str(UNKNOWN_TEMPLATE);
                message.append(name);
                message.append(CLOSING_QUOTE);
                Err(RenderError { message })
            },
        }
    }
}

impl Clone for Template {
    /// A set with the same templates under the same names.
    fn clone(&self) -> (copy: Self)
        ensures
            copy@ == self@,
    {
        proof {
            use_type_invariant(self);
        }
        let mut slots: Vec<Slot> = Vec::new();
        let mut i: usize = 0;
        while i < self.slots.len()
            invariant
                i <= self.slots@.len(),
                slots@.len() == i,
                forall|j: int|
                    0 <= j < i ==> (#[trigger] slots@[j]).name@ == self.slots@[j].name@ && slots@[j].text@
                        == self.slots@[j].text@,
                forall|j: int|
                    0 <= j < self.slots@.len() ==> template_fault(
                        (#[trigger] self.slots@[j]).text@,
                    ) is None,
            decreases self.slots@.len() - i,
        {
            let slot = Slot { name: self.slots[i].name.clone(), text: self.slots[i].text.clone() };
            slots.push(slot);
            i = i + 1;
        }
        proof {
            lemma_same_map(slots@, self.slots@);
        }
        Template { slots }
    }
}

/// Lists of slots that agree name by name and text by text stand for the
/// same mapping.
proof fn lemma_same_map(a: Seq<Slot>, b: Seq<Slot>)
    requires
        a.len() == b.len(),
        forall|j: int| 0 <= j < a.len() ==> a[j].name@ == b[j].name@ && a[j].text@ == b[j].text@,
    ensures
        slot_map(a) == slot_map(b),
    decreases a.len(),
{
    if a.len() > 0 {
        lemma_same_map(a.drop_last(), b.drop_last());
    }
}

} // verus!
