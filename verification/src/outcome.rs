//! What a tool call ends in: structured content, or an error of one of four
//! classes.

use serde_json::Value;
use vstd::prelude::*;

verus! {

/// The class of a per-call failure.
#[derive(Debug, Clone, Copy, PartialEq, Eq, Structural)]
pub enum ErrorKind {
    /// A template named a field that the input lacks, or a value could not be formatted.
    RenderError,
    /// The request could not be sent, or the process could not be started or fed.
    TransportError,
    /// The server answered outside 200..=299, or the process exited unsuccessfully.
    ResponseError,
    /// A body declared as JSON did not parse.
    ParseError,
}

/// JSON-RPC's code for a message that could not be parsed.
pub const PARSE_ERROR_CODE: i32 = -32700;

/// JSON-RPC's code for a failure inside the server.
pub const INTERNAL_ERROR_CODE: i32 = -32603;

/// A failed tool call: its class and a sentence for the caller.
#[derive(Debug)]
pub struct ToolError {
    pub kind: ErrorKind,
    pub message: String,
}

impl ErrorKind {
    /// The JSON-RPC code under which a failure of this class is reported.
    pub open spec fn spec_code(self) -> i32 {
        match self {
            ErrorKind::RenderError => PARSE_ERROR_CODE,
            _ => INTERNAL_ERROR_CODE,
        }
    }

    /// The JSON-RPC code under which a failure of this class is reported:
    /// rendering failures count as parse errors, everything else as internal.
    #[verifier::when_used_as_spec(spec_code)]
    pub fn code(self) -> (code: i32)
        ensures
            code == self.spec_code(),
    {
        match self {
            ErrorKind::RenderError => PARSE_ERROR_CODE,
            _ => INTERNAL_ERROR_CODE,
        }
    }
}

impl ToolError {
    pub fn new(kind: ErrorKind, message: String) -> (e: ToolError)
        ensures
            e.kind == kind,
            e.message == message,
    {
        ToolError { kind, message }
    }

    /// The JSON-RPC code of this failure.
    pub fn code(&self) -> (code: i32)
        ensures
            code == self.kind.spec_code(),
    {
        self.kind.code()
    }
}

/// The content of a successful call: a JSON value, or text that is passed on
/// as it is.
#[derive(Debug)]
pub enum ToolOutput {
    Json(Value),
    Text(String),
}

/// What a call has ended in, with strings as their characters.
pub enum Verdict {
    Json(Value),
    Text(Seq<char>),
    Failed(ErrorKind, Seq<char>),
}

/// What the result of a call says.
pub open spec fn verdict_of(r: Result<ToolOutput, ToolError>) -> Verdict {
    match r {
        Ok(ToolOutput::Json(value)) => Verdict::Json(value),
        Ok(ToolOutput::Text(text)) => Verdict::Text(text@),
        Err(e) => Verdict::Failed(e.kind, e.message@),
    }
}

} // verus!
