//! The command executor. A tool is compiled once from its definition; for
//! each call it renders the command line from the caller's input and, once
//! the caller has run the process, turns what came back into the call's
//! result.

use crate::json::{from_text, json_object, json_parsed, object_with};
use crate::outcome::{verdict_of, ErrorKind, ToolError, ToolOutput, Verdict};
use crate::slots::{
    arg_slot, command_args_template_name, compile_slots, compiled, filled,
    lemma_arg_slot_is_no_fixed_slot, lemma_arg_slots_distinct, lemma_filled_holds_last, slot_text,
    SlotError, SlotErrorView, COMMAND_TEMPLATE_NAME, INPUT_NAME, STDIN_TEMPLATE_NAME,
};
use crate::template::{render_outcome, Template};
use serde_json::Value;
use vstd::prelude::*;
use vstd::string::*;

verus! {

/// A command tool, compiled: its template set, the number of its arguments,
/// and whether it feeds the process through standard input.
pub struct CommandTool {
    templates: Template,
    arg_count: usize,
    has_stdin: bool,
}

/// A `CommandTool` as the contracts speak of it.
pub struct CommandToolView {
    pub templates: Map<Seq<char>, Seq<char>>,
    pub arg_count: nat,
    pub has_stdin: bool,
}

impl View for CommandTool {
    type V = CommandToolView;

    closed spec fn view(&self) -> CommandToolView {
        CommandToolView {
            templates: self.templates@,
            arg_count: self.arg_count as nat,
            has_stdin: self.has_stdin,
        }
    }
}

/// The named raw texts of a command tool, in the order in which they are
/// compiled: the program, the standard input if there is one, then the
/// arguments, each under the slot named after its position.
pub open spec fn command_slots(
    command: Seq<char>,
    stdin: Option<Seq<char>>,
    args: Seq<Seq<char>>,
) -> Seq<(Seq<char>, Seq<char>)> {
    let first = seq![(COMMAND_TEMPLATE_NAME@, command)];
    let second = match stdin {
        Some(text) => seq![(STDIN_TEMPLATE_NAME@, text)],
        None => Seq::empty(),
    };
    first + second + Seq::new(args.len(), |i: int| (arg_slot(i as nat), args[i]))
}

/// In the set that a command tool is compiled to, every slot holds the
/// escaped form of its own raw text: the program's, that of the standard
/// input, and each argument's under its position.
pub proof fn lemma_command_slots_hold_their_texts(
    command: Seq<char>,
    stdin: Option<Seq<char>>,
    args: Seq<Seq<char>>,
)
    ensures
        ({
            let slots = command_slots(command, stdin, args);
            let set = filled(slots, slots.len());
            &&& set.contains_key(COMMAND_TEMPLATE_NAME@)
            &&& set[COMMAND_TEMPLATE_NAME@] == slot_text(command)
            &&& stdin matches Some(text) ==> set.contains_key(STDIN_TEMPLATE_NAME@)
                && set[STDIN_TEMPLATE_NAME@] == slot_text(text)
            &&& forall|i: int|
                0 <= i < args.len() ==> set.contains_key(#[trigger] arg_slot(i as nat)) && set[arg_slot(
                    i as nat,
                )] == slot_text(args[i])
        }),
{
    reveal_strlit("command");
    reveal_strlit("stdin");
    let slots = command_slots(command, stdin, args);
    let n = slots.len();
    let fixed: int = if stdin is Some { 2 } else { 1 };
    assert(COMMAND_TEMPLATE_NAME@[0] == 'c' && STDIN_TEMPLATE_NAME@[0] == 's');
    assert forall|j: int| fixed <= j < n implies #[trigger] slots[j] == (
        arg_slot((j - fixed) as nat),
        args[j - fixed],
    ) by {}
    assert forall|j: int| fixed <= j < n implies (#[trigger] slots[j]).0 != COMMAND_TEMPLATE_NAME@
        && slots[j].0 != STDIN_TEMPLATE_NAME@ by {
        lemma_arg_slot_is_no_fixed_slot((j - fixed) as nat);
    }
    assert(slots[0] == (COMMAND_TEMPLATE_NAME@, command));
    lemma_filled_holds_last(slots, n, 0);
    if stdin is Some {
        assert(slots[1] == (STDIN_TEMPLATE_NAME@, stdin->0));
        lemma_filled_holds_last(slots, n, 1);
    }
    assert forall|i: int| 0 <= i < args.len() implies filled(slots, n).contains_key(
        #[trigger] arg_slot(i as nat),
    ) && filled(slots, n)[arg_slot(i as nat)] == slot_text(args[i]) by {
        assert(slots[fixed + i] == (arg_slot(i as nat), args[i]));
        let here = slots[fixed + i].0;
        assert forall|j: int| fixed + i < j < n implies (#[trigger] slots[j]).0 != here by {
            lemma_arg_slots_distinct(i as nat, (j - fixed) as nat);
        }
        lemma_filled_holds_last(slots, n, fixed + i);
    }
}

/// The arguments of a definition; none where the definition lists none.
pub open spec fn args_of(args: Option<Vec<String>>) -> Seq<Seq<char>> {
    match args {
        Some(list) => list.deep_view(),
        None => Seq::empty(),
    }
}

/// The command tool that the parts of a definition compile to, or the first
/// slot that does not compile.
pub open spec fn command_tool(
    tool_index: usize,
    command: Seq<char>,
    args: Seq<Seq<char>>,
    stdin: Option<Seq<char>>,
) -> Result<CommandToolView, SlotErrorView> {
    match compiled(tool_index, command_slots(command, stdin, args)) {
        Ok(set) => Ok(
            CommandToolView { templates: set, arg_count: args.len(), has_stdin: stdin is Some },
        ),
        Err(fault) => Err(fault),
    }
}

/// Compiles a command tool from the parts of its definition. Every template
/// text is escaped and compiled: the program, the standard input, then each
/// argument under the slot named after its position. The first text that
/// does not compile is reported with the tool's index and the slot's name.
pub fn general_command_template(
    tool_index: usize,
    command_template: String,
    args_template: Option<Vec<String>>,
    stdin_template: Option<String>,
) -> (r: Result<CommandTool, SlotError>)
    ensures
        match command_tool(
            tool_index,
            command_template@,
            args_of(args_template),
            stdin_template.deep_view(),
        ) {
            Ok(compiled) => r matches Ok(tool) && tool@ == compiled,
            Err(fault) => r matches Err(e) && e@ == fault,
        },
{
    let ghost args = args_of(args_template);
    let ghost plan = command_slots(command_template@, stdin_template.deep_view(), args);
    let has_stdin = stdin_template.is_some();
    let mut slots: Vec<(String, String)> = Vec::new();
    slots.push((String::from_str(COMMAND_TEMPLATE_NAME), command_template));
    match stdin_template {
        Some(text) => {
            slots.push((String::from_str(STDIN_TEMPLATE_NAME), text));
        },
        None => {},
    }
    let ghost fixed = slots.deep_view();
    let mut list: Vec<String> = match args_template {
        Some(list) => list,
        None => Vec::new(),
    };
    assert(list.deep_view() =~= args);
    let arg_count: usize = list.len();
    let mut done: usize = 0;
    while list.len() > 0
        invariant
            done + list@.len() == arg_count == args.len(),
            list.deep_view() =~= args.subrange(done as int, args.len() as int),
            slots.deep_view() =~= fixed + Seq::new(
                done as nat,
                |i: int| (arg_slot(i as nat), args[i]),
            ),
        decreases list.len(),
    {
        let ghost before = list.deep_view();
        let ghost rest = args.subrange(done as int, args.len() as int);
        let ghost planned = slots.deep_view();
        let text = list.remove(0);
        proof {
            assert(before.len() > 0 && before =~= rest);
            assert(before[0] == text@);
            assert(rest[0] == args[done as int]);
            assert(list.deep_view() =~= before.subrange(1, before.len() as int));
        }
        let slot = command_args_template_name(done);
        slots.push((slot, text));
        proof {
            assert(slots.deep_view() =~= planned.push((arg_slot(done as nat), args[done as int])));
        }
        done = done + 1;
    }
    assert(slots.deep_view() =~= plan);
    match compile_slots(tool_index, &slots) {
        Ok(templates) => Ok(CommandTool { templates, arg_count, has_stdin }),
        Err(e) => Err(e),
    }
}

/// A process to run: the program, its arguments in order, and what to write
/// to its standard input. Standard input is attached only where `stdin` is
/// present.
#[derive(Debug)]
pub struct CommandLine {
    pub program: String,
    pub args: Vec<String>,
    pub stdin: Option<String>,
}

/// A `CommandLine` with strings as their characters.
pub struct CommandLineView {
    pub program: Seq<char>,
    pub args: Seq<Seq<char>>,
    pub stdin: Option<Seq<char>>,
}

impl View for CommandLine {
    type V = CommandLineView;

    open spec fn view(&self) -> CommandLineView {
        CommandLineView {
            program: self.program@,
            args: self.args.deep_view(),
            stdin: self.stdin.deep_view(),
        }
    }
}

/// What the complaint about a program that does not render begins with.
pub const COMMAND_RENDER_FAILED: &'static str = "Error while rendering command template: ";

/// What the complaint about an argument that does not render begins with.
pub const ARGS_RENDER_FAILED: &'static str = "Error while rendering args template: ";

/// What the complaint about a standard input that does not render begins
/// with.
pub const STDIN_RENDER_FAILED: &'static str = "Error while rendering stdin template: ";

/// The first `n` arguments of a tool, rendered against `context`, or the
/// complaint about the first that does not render.
pub open spec fn rendered_args(tool: CommandToolView, context: Value, n: nat) -> Result<
    Seq<Seq<char>>,
    Seq<char>,
>
    decreases n,
{
    if n == 0 {
        Ok(Seq::empty())
    } else {
        match rendered_args(tool, context, (n - 1) as nat) {
            Err(complaint) => Err(complaint),
            Ok(done) => match render_outcome(tool.templates, arg_slot((n - 1) as nat), context) {
                Ok(value) => Ok(done.push(value)),
                Err(complaint) => Err(ARGS_RENDER_FAILED@ + complaint),
            },
        }
    }
}

/// The command line that a tool makes of an input: the program rendered,
/// then every argument in order, then the standard input if the tool has
/// one, all against the input wrapped under `input`. The first template that
/// does not render decides the complaint, and no process is run.
pub open spec fn planned_command(tool: CommandToolView, input: Value) -> Result<
    CommandLineView,
    Seq<char>,
> {
    let context = json_object(INPUT_NAME@, input);
    match render_outcome(tool.templates, COMMAND_TEMPLATE_NAME@, context) {
        Err(complaint) => Err(COMMAND_RENDER_FAILED@ + complaint),
        Ok(program) => match rendered_args(tool, context, tool.arg_count) {
            Err(complaint) => Err(complaint),
            Ok(args) => if tool.has_stdin {
                match render_outcome(tool.templates, STDIN_TEMPLATE_NAME@, context) {
                    Err(complaint) => Err(STDIN_RENDER_FAILED@ + complaint),
                    Ok(stdin) => Ok(CommandLineView { program, args, stdin: Some(stdin) }),
                }
            } else {
                Ok(CommandLineView { program, args, stdin: None })
            },
        },
    }
}

/// The rendered arguments map one to one, and in order, to the argument
/// templates: where the first `n` render, there are `n` of them, and each is
/// the rendering of the slot of its position.
pub proof fn lemma_args_in_order(tool: CommandToolView, context: Value, n: nat)
    requires
        rendered_args(tool, context, n) is Ok,
    ensures
        rendered_args(tool, context, n)->Ok_0.len() == n,
        forall|i: int|
            0 <= i < n ==> render_outcome(tool.templates, #[trigger] arg_slot(i as nat), context)
                == Ok::<Seq<char>, Seq<char>>(rendered_args(tool, context, n)->Ok_0[i]),
    decreases n,
{
    if n > 0 {
        lemma_args_in_order(tool, context, (n - 1) as nat);
    }
}

fn render_failure(prefix: &str, complaint: &str) -> (e: ToolError)
    ensures
        e.kind == ErrorKind::RenderError,
        e.message@ == prefix@ + complaint@,
{
    let mut message = String::from_str(prefix);
    message.append(complaint);
    ToolError { kind: ErrorKind::RenderError, message }
}

impl CommandTool {
    /// Renders the command line for one call. A template that does not
    /// render ends the call with a `RenderError` that names the slot.
    pub fn prepare(&self, input: Value) -> (r: Result<CommandLine, ToolError>)
        ensures
            match planned_command(self@, input) {
                Ok(line) => r matches Ok(out) && out@ == line,
                Err(complaint) => r matches Err(e) && e.kind == ErrorKind::RenderError
                    && e.message@ == complaint,
            },
    {
        let context = object_with(INPUT_NAME, input);
        let program = match self.templates.render(COMMAND_TEMPLATE_NAME, &context) {
            Ok(program) => program,
            Err(e) => {
                return Err(render_failure(COMMAND_RENDER_FAILED, e.message.as_str()));
            },
        };
        let mut args: Vec<String> = Vec::new();
        let mut i: usize = 0;
        while i < self.arg_count
            invariant
                i <= self.arg_count,
                context == json_object(INPUT_NAME@, input),
                render_outcome(self@.templates, COMMAND_TEMPLATE_NAME@, context) is Ok,
                rendered_args(self@, context, i as nat) matches Ok(done) && done
                    =~= args.deep_view(),
            decreases self.arg_count - i,
        {
            let slot = command_args_template_name(i);
            match self.templates.render(slot.as_str(), &context) {
                Ok(value) => {
                    let ghost before = args.deep_view();
                    args.push(value);
                    assert(args.deep_view() =~= before.push(value@));
                },
                Err(e) => {
                    proof {
                        lemma_arg_failure_stays(self@, context, (i + 1) as nat, self@.arg_count);
                    }
                    return Err(render_failure(ARGS_RENDER_FAILED, e.message.as_str()));
                },
            }
            i = i + 1;
        }
        let stdin = if self.has_stdin {
            match self.templates.render(STDIN_TEMPLATE_NAME, &context) {
                Ok(stdin) => Some(stdin),
                Err(e) => {
                    return Err(render_failure(STDIN_RENDER_FAILED, e.message.as_str()));
                },
            }
        } else {
            None
        };
        Ok(CommandLine { program, args, stdin })
    }
}

/// Once an argument has failed to render, the complaint stays the same
/// however many more arguments are looked at.
proof fn lemma_arg_failure_stays(tool: CommandToolView, context: Value, n: nat, m: nat)
    requires
        n <= m,
        rendered_args(tool, context, n) is Err,
    ensures
        rendered_args(tool, context, m) == rendered_args(tool, context, n),
    decreases m,
{
    if n < m {
        lemma_arg_failure_stays(tool, context, n, (m - 1) as nat);
    }
}

/// How running a process ended.
#[derive(Debug)]
pub enum CommandOutcome {
    /// The process could not be started; the system's words.
    SpawnFailed(String),
    /// The process was started with standard input attached, but there was
    /// nothing to write to.
    StdinMissing,
    /// Standard input could not be written or closed; the system's words.
    StdinFailed(String),
    /// The end of the process could not be awaited; the system's words.
    WaitFailed(String),
    /// The process has ended.
    Exited { success: bool, stdout: String, stderr: String },
}

/// What the complaint about a process that could not be started begins
/// with.
pub const SPAWN_FAILED: &'static str = "Error while spawning a process: ";

/// The cause given where a started process has no standard input to write
/// to.
pub const STDIN_IS_NONE: &'static str = "stdin is None";

/// What the complaint about standard input that could not be written begins
/// with.
pub const WRITE_FAILED: &'static str = "Error while writing stdin: ";

/// What the complaint about a process that could not be awaited begins with.
pub const WAIT_FAILED: &'static str = "Error while waiting for a process: ";

/// What the complaint about a process that exited unsuccessfully begins
/// with; its standard error follows.
pub const COMMAND_FAILED: &'static str = "Error while executing a command: ";

/// What the outcome of running a process amounts to. A process that could
/// not be started, fed or awaited is a `TransportError`; one that exited
/// unsuccessfully is a `ResponseError` that shows what it wrote to standard
/// error. Of a process that succeeded, the standard output is the call's
/// content: as a JSON value where it parses as one, else as text.
pub open spec fn command_verdict(outcome: CommandOutcome) -> Verdict {
    match outcome {
        CommandOutcome::SpawnFailed(cause) => Verdict::Failed(
            ErrorKind::TransportError,
            SPAWN_FAILED@ + cause@,
        ),
        CommandOutcome::StdinMissing => Verdict::Failed(
            ErrorKind::TransportError,
            SPAWN_FAILED@ + STDIN_IS_NONE@,
        ),
        CommandOutcome::StdinFailed(cause) => Verdict::Failed(
            ErrorKind::TransportError,
            WRITE_FAILED@ + cause@,
        ),
        CommandOutcome::WaitFailed(cause) => Verdict::Failed(
            ErrorKind::TransportError,
            WAIT_FAILED@ + cause@,
        ),
        CommandOutcome::Exited { success, stdout, stderr } => if !success {
            Verdict::Failed(ErrorKind::ResponseError, COMMAND_FAILED@ + stderr@)
        } else {
            match json_parsed(stdout@) {
                Ok(value) => Verdict::Json(value),
                Err(_) => Verdict::Text(stdout@),
            }
        },
    }
}

fn failure(kind: ErrorKind, prefix: &str, cause: &str) -> (e: ToolError)
    ensures
        e.kind == kind,
        e.message@ == prefix@ + cause@,
{
    let mut message = String::from_str(prefix);
    message.append(cause);
    ToolError { kind, message }
}

/// Turns the outcome of running the process into the call's result.
pub fn finish_command(outcome: CommandOutcome) -> (r: Result<ToolOutput, ToolError>)
    ensures
        verdict_of(r) == command_verdict(outcome),
{
    match outcome {
        CommandOutcome::SpawnFailed(cause) => Err(
            failure(ErrorKind::TransportError, SPAWN_FAILED, cause.as_str()),
        ),
        CommandOutcome::StdinMissing => Err(
            failure(ErrorKind::TransportError, SPAWN_FAILED, STDIN_IS_NONE),
        ),
        CommandOutcome::StdinFailed(cause) => Err(
            failure(ErrorKind::TransportError, WRITE_FAILED, cause.as_str()),
        ),
        CommandOutcome::WaitFailed(cause) => Err(
            failure(ErrorKind::TransportError, WAIT_FAILED, cause.as_str()),
        ),
        CommandOutcome::Exited { success, stdout, stderr } => {
            if !success {
                Err(failure(ErrorKind::ResponseError, COMMAND_FAILED, stderr.as_str()))
            } else {
                match from_text(stdout.as_str()) {
                    Ok(value) => Ok(ToolOutput::Json(value)),
                    Err(_) => Ok(ToolOutput::Text(stdout)),
                }
            }
        },
    }
}

} // verus!
