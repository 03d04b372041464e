//! The slots of a tool's template set: their names, and the step that turns
//! a list of named raw texts into a set of compiled templates.

use crate::sanitize::{sanitize_template_text, sanitized};
use crate::template::{check_template, template_fault, Template};
use crate::text::{decimal, decimal_text};
use vstd::prelude::*;
use vstd::string::*;

verus! {

/// The slot of an HTTP tool's URL.
pub const URL_TEMPLATE_NAME: &'static str = "url";

/// The slot of an HTTP tool's body.
pub const BODY_TEMPLATE_NAME: &'static str = "body";

/// The key under which the caller's input stands in the rendering context:
/// templates address it as `input.<field>`.
pub const INPUT_NAME: &'static str = "input";

/// The slot of a command tool's program.
pub const COMMAND_TEMPLATE_NAME: &'static str = "command";

/// The slot of a command tool's standard input.
pub const STDIN_TEMPLATE_NAME: &'static str = "stdin";

/// What the slot of a header begins with; the header's name follows.
pub const HEADER_PREFIX: &'static str = "header_";

/// What the slot of an argument begins with; the argument's index follows.
pub const ARGS_PREFIX: &'static str = "args_";

/// The complaint about a text that could not be searched for braces.
pub const PATTERN_REJECTED: &'static str = "The pattern that finds placeholders was not accepted";

/// The slot of the header `name`.
pub open spec fn header_slot(name: Seq<char>) -> Seq<char> {
    HEADER_PREFIX@ + name
}

/// The slot of the argument at position `idx`.
pub open spec fn arg_slot(idx: nat) -> Seq<char> {
    ARGS_PREFIX@ + decimal_text(idx)
}

/// The name of the slot that holds the template of the header `name`.
pub fn http_header_template_name(name: String) -> (slot: String)
    ensures
        slot@ == header_slot(name@),
{
    let mut slot = String::from_str(HEADER_PREFIX);
    slot.append(name.as_str());
    slot
}

/// The name of the slot that holds the template of the argument at `idx`.
pub fn command_args_template_name(idx: usize) -> (slot: String)
    ensures
        slot@ == arg_slot(idx as nat),
{
    let mut slot = String::from_str(ARGS_PREFIX);
    let numeral = decimal(idx as u64);
    slot.append(numeral.as_str());
    slot
}

/// A slot of a tool that could not be compiled: which tool of the catalog,
/// which slot, and why.
#[derive(Debug)]
pub struct SlotError {
    pub tool_index: usize,
    pub slot: String,
    pub message: String,
}

/// A `SlotError` with strings as their characters.
pub struct SlotErrorView {
    pub tool_index: usize,
    pub slot: Seq<char>,
    pub message: Seq<char>,
}

impl View for SlotError {
    type V = SlotErrorView;

    open spec fn view(&self) -> SlotErrorView {
        SlotErrorView { tool_index: self.tool_index, slot: self.slot@, message: self.message@ }
    }
}

/// Why a raw text cannot fill a slot: it could not be escaped, or its escaped
/// form is no template. `None` for a text that can.
pub open spec fn slot_fault(raw: Seq<char>) -> Option<Seq<char>> {
    match sanitized(raw) {
        None => Some(PATTERN_REJECTED@),
        Some(clean) => template_fault(clean),
    }
}

/// The template text that a raw text is compiled from: its escaped form.
pub open spec fn slot_text(raw: Seq<char>) -> Seq<char> {
    sanitized(raw)->0
}

/// The first among the first `n` named raw texts that cannot fill its slot.
pub open spec fn first_fault(slots: Seq<(Seq<char>, Seq<char>)>, n: nat) -> Option<int>
    decreases n,
{
    if n == 0 {
        None
    } else {
        match first_fault(slots, (n - 1) as nat) {
            Some(i) => Some(i),
            None => if slot_fault(slots[n - 1].1) is Some {
                Some(n - 1)
            } else {
                None
            },
        }
    }
}

/// The set that holds the escaped form of each of the first `n` raw texts
/// under its name; a later text replaces an earlier one of the same name.
pub open spec fn filled(slots: Seq<(Seq<char>, Seq<char>)>, n: nat) -> Map<Seq<char>, Seq<char>>
    decreases n,
{
    if n == 0 {
        Map::empty()
    } else {
        filled(slots, (n - 1) as nat).insert(slots[n - 1].0, slot_text(slots[n - 1].1))
    }
}

/// What compiling a list of named raw texts for the tool at `tool_index`
/// gives: the filled set, or the first slot that cannot be filled.
pub open spec fn compiled(tool_index: usize, slots: Seq<(Seq<char>, Seq<char>)>) -> Result<
    Map<Seq<char>, Seq<char>>,
    SlotErrorView,
> {
    match first_fault(slots, slots.len()) {
        None => Ok(filled(slots, slots.len())),
        Some(i) => Err(
            SlotErrorView { tool_index, slot: slots[i].0, message: slot_fault(slots[i].1)->0 },
        ),
    }
}

/// A name among the first `n` holds the escaped form of the last raw text
/// that was put under it.
pub proof fn lemma_filled_holds_last(slots: Seq<(Seq<char>, Seq<char>)>, n: nat, at: int)
    requires
        0 <= at < n <= slots.len(),
        forall|j: int| at < j < n ==> slots[j].0 != slots[at].0,
    ensures
        filled(slots, n).contains_key(slots[at].0),
        filled(slots, n)[slots[at].0] == slot_text(slots[at].1),
    decreases n,
{
    if at < n - 1 {
        lemma_filled_holds_last(slots, (n - 1) as nat, at);
    }
}

/// Arguments at different positions have different slots.
pub proof fn lemma_arg_slots_distinct(i: nat, j: nat)
    requires
        i != j,
    ensures
        arg_slot(i) != arg_slot(j),
{
    let prefix = ARGS_PREFIX@;
    if arg_slot(i) == arg_slot(j) {
        assert(arg_slot(i).subrange(prefix.len() as int, arg_slot(i).len() as int) =~= decimal_text(
            i,
        ));
        assert(arg_slot(j).subrange(prefix.len() as int, arg_slot(j).len() as int) =~= decimal_text(
            j,
        ));
        crate::text::lemma_decimal_distinct(i, j);
    }
}

/// The slot of an argument is neither the program's nor that of the
/// standard input.
pub proof fn lemma_arg_slot_is_no_fixed_slot(i: nat)
    ensures
        arg_slot(i) != COMMAND_TEMPLATE_NAME@,
        arg_slot(i) != STDIN_TEMPLATE_NAME@,
{
    reveal_strlit("args_");
    reveal_strlit("command");
    reveal_strlit("stdin");
    assert(arg_slot(i)[0] == 'a');
    assert(COMMAND_TEMPLATE_NAME@[0] == 'c');
    assert(STDIN_TEMPLATE_NAME@[0] == 's');
}

/// The slot of a header is neither the URL's nor the body's.
pub proof fn lemma_header_slot_is_no_fixed_slot(name: Seq<char>)
    ensures
        header_slot(name) != URL_TEMPLATE_NAME@,
        header_slot(name) != BODY_TEMPLATE_NAME@,
{
    reveal_strlit("header_");
    reveal_strlit("url");
    reveal_strlit("body");
    assert(header_slot(name)[0] == 'h');
    assert(URL_TEMPLATE_NAME@[0] == 'u');
    assert(BODY_TEMPLATE_NAME@[0] == 'b');
}

/// Headers of different names have different slots.
pub proof fn lemma_header_slots_distinct(a: Seq<char>, b: Seq<char>)
    requires
        a != b,
    ensures
        header_slot(a) != header_slot(b),
{
    let prefix = HEADER_PREFIX@;
    if header_slot(a) == header_slot(b) {
        assert(header_slot(a).subrange(prefix.len() as int, header_slot(a).len() as int) =~= a);
        assert(header_slot(b).subrange(prefix.len() as int, header_slot(b).len() as int) =~= b);
    }
}

/// Escapes `raw` and checks that the result is a template.
pub fn compile_slot(raw: &str) -> (r: Result<String, String>)
    ensures
        match slot_fault(raw@) {
            None => r matches Ok(clean) && clean@ == slot_text(raw@),
            Some(complaint) => r matches Err(m) && m@ == complaint,
        },
{
    match sanitize_template_text(raw) {
        None => Err(String::from_str(PATTERN_REJECTED)),
        Some(clean) => match check_template(clean.as_str()) {
            Ok(_) => Ok(clean),
            Err(e) => Err(e.message),
        },
    }
}

/// Compiles the named raw texts of one tool, in order, into a template set.
/// The first text that cannot be compiled ends the work; the error names the
/// tool and the slot.
pub fn compile_slots(tool_index: usize, slots: &Vec<(String, String)>) -> (r: Result<
    Template,
    SlotError,
>)
    ensures
        match compiled(tool_index, slots.deep_view()) {
            Ok(set) => r matches Ok(t) && t@ == set,
            Err(fault) => r matches Err(e) && e@ == fault,
        },
{
    let ghost plan = slots.deep_view();
    let mut set = Template::new();
    let mut i: usize = 0;
    while i < slots.len()
        invariant
            i <= slots@.len(),
            plan == slots.deep_view(),
            first_fault(plan, i as nat) is None,
            set@ == filled(plan, i as nat),
        decreases slots@.len() - i,
    {
        assert(plan[i as int] == (slots@[i as int].0@, slots@[i as int].1@));
        match compile_slot(slots[i].1.as_str()) {
            Err(message) => {
                proof {
                    lemma_first_fault_stays(plan, (i + 1) as nat, plan.len());
                }
                return Err(SlotError { tool_index, slot: slots[i].0.clone(), message });
            },
            Ok(clean) => {
                let added = set.add_template(slots[i].0.as_str(), clean.as_str());
                assert(added is Ok);
            },
        }
        i = i + 1;
    }
    Ok(set)
}

/// Once a fault is found among the first `n` texts, it stays the first
/// however many more are looked at.
proof fn lemma_first_fault_stays(slots: Seq<(Seq<char>, Seq<char>)>, n: nat, m: nat)
    requires
        n <= m,
        first_fault(slots, n) is Some,
    ensures
        first_fault(slots, m) == first_fault(slots, n),
    decreases m,
{
    if n < m {
        lemma_first_fault_stays(slots, n, (m - 1) as nat);
    }
}

} // verus!
