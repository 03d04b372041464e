//! The catalog: the tool definitions and the server settings that a
//! configuration file holds, as plain data.

use serde_json::Value;
use vstd::prelude::*;
use vstd::string::*;

verus! {

/// `rmcp::model::ToolAnnotations`, the hints a tool gives to its callers;
/// passed on unread.
#[verifier::external_type_specification]
#[verifier::external_body]
pub struct ExToolAnnotations(rmcp::model::ToolAnnotations);

/// `rmcp::model::Implementation`, the server's name and version; passed on
/// unread.
#[verifier::external_type_specification]
#[verifier::external_body]
pub struct ExImplementation(rmcp::model::Implementation);

/// `rmcp::model::ServerCapabilities`, what the server offers; passed on
/// unread.
#[verifier::external_type_specification]
#[verifier::external_body]
pub struct ExServerCapabilities(rmcp::model::ServerCapabilities);

/// What a tool is backed by.
#[derive(Debug, Clone, Copy, PartialEq, Eq, Structural)]
pub enum ToolType {
    HTTP,
    COMMAND,
}

/// The request methods an HTTP tool can use.
#[derive(Debug, Clone, Copy, PartialEq, Eq, Structural)]
pub enum HttpMethod {
    GET,
    POST,
    PUT,
    DELETE,
}

/// How the server talks to its clients.
#[derive(Debug, Clone, Copy, PartialEq, Eq, Structural)]
pub enum TransportType {
    STDIO,
    SSE,
}

/// The HTTP side of a tool definition. `url`, `body` and the header values
/// are template texts. `headers` lists name and value template of each
/// header; where a name occurs twice, the later template counts.
#[derive(Debug)]
pub struct HttpMetadata {
    pub url: String,
    pub method: HttpMethod,
    pub body: Option<String>,
    pub headers: Option<Vec<(String, String)>>,
    pub input_schema: serde_json::Map<String, Value>,
    pub output_schema: Option<serde_json::Map<String, Value>>,
}

/// The command side of a tool definition. `command`, each of `args` and
/// `stdin` are template texts; the order of `args` is the order of the
/// arguments on the command line.
#[derive(Debug)]
pub struct CommandMetadata {
    pub command: String,
    pub args: Option<Vec<String>>,
    pub stdin: Option<String>,
    pub input_schema: serde_json::Map<String, Value>,
    pub output_schema: Option<serde_json::Map<String, Value>>,
}

/// One tool definition of the catalog. The metadata that matches
/// `tool_type` must be present for the tool to be served.
#[derive(Debug)]
pub struct ToolData {
    pub name: String,
    pub description: String,
    pub tool_type: ToolType,
    pub http_metadata: Option<HttpMetadata>,
    pub command_metadata: Option<CommandMetadata>,
    pub tool_annotations: Option<rmcp::model::ToolAnnotations>,
}

/// Settings of the event-stream transport.
#[derive(Debug)]
pub struct SseConfig {
    pub address: String,
    pub sse_path: Option<String>,
    pub post_path: Option<String>,
    pub keep_alive_duration: Option<String>,
}

/// The transport the server is started with.
#[derive(Debug)]
pub struct TransportConfig {
    pub transport_type: TransportType,
    pub sse_config: Option<SseConfig>,
}

impl Default for TransportConfig {
    /// The local-stream transport, with no event-stream settings.
    fn default() -> (config: Self)
        ensures
            config.transport_type == TransportType::STDIO,
            config.sse_config is None,
    {
        TransportConfig { transport_type: TransportType::STDIO, sse_config: None }
    }
}

/// Everything a configuration file holds.
#[derive(Debug)]
pub struct DynamicMCPConfig {
    pub tools: Vec<ToolData>,
    pub instruction: Option<String>,
    pub server_info: Option<rmcp::model::Implementation>,
    pub server_capabilities: Option<rmcp::model::ServerCapabilities>,
    pub transport_config: Option<TransportConfig>,
}

/// The path events are streamed from when the configuration names none.
pub const DEFAULT_SSE_PATH: &'static str = "/sse";

/// The path messages are posted to when the configuration names none.
pub const DEFAULT_POST_PATH: &'static str = "/message";

/// A length of time: whole seconds and the nanoseconds beyond them.
#[derive(Debug, Clone, Copy, PartialEq, Eq, Structural)]
pub struct KeepAlive {
    pub secs: u64,
    pub nanos: u32,
}

/// What `duration_string` reads from a text such as `30s` or `1h 5m`: the
/// length of time, or its complaint.
pub uninterp spec fn duration_read(text: Seq<char>) -> Result<KeepAlive, Seq<char>>;

/// Parses with `DurationString::from_string` and takes the duration apart
/// with `Duration::as_secs` and `Duration::subsec_nanos`. The result is a
/// function of the text.
#[verifier::external_body]
fn read_duration(text: &str) -> (r: Result<KeepAlive, String>)
    ensures
        match r {
            Ok(length) => duration_read(text@) == Ok::<KeepAlive, Seq<char>>(length),
            Err(complaint) => duration_read(text@) == Err::<KeepAlive, Seq<char>>(complaint@),
        },
{
    match duration_string::DurationString::from_string(text.to_owned()) {
        Ok(d) => Ok(KeepAlive { secs: d.as_secs(), nanos: d.subsec_nanos() }),
        Err(e) => Err(e.to_string()),
    }
}

/// The event-stream transport with every default filled in.
#[derive(Debug)]
pub struct SsePlan {
    pub address: String,
    pub sse_path: String,
    pub post_path: String,
    pub keep_alive: Option<KeepAlive>,
}

/// The transport to start, settled from the configuration.
#[derive(Debug)]
pub enum TransportPlan {
    Stdio,
    Sse(SsePlan),
}

/// Why a configuration names no usable transport.
#[derive(Debug)]
pub enum ConfigError {
    /// The configuration has no `transport_config`.
    MissingTransportConfig,
    /// The event-stream transport is chosen without `sse_config`.
    MissingSseConfig,
    /// `keep_alive_duration` is no length of time; the parser's words.
    InvalidKeepAlive(String),
}

/// What a `TransportPlan` or a `ConfigError` says, with strings as their
/// characters.
pub enum TransportChoice {
    Stdio,
    Sse { address: Seq<char>, sse_path: Seq<char>, post_path: Seq<char>, keep_alive: Option<KeepAlive> },
    MissingTransportConfig,
    MissingSseConfig,
    InvalidKeepAlive(Seq<char>),
}

/// A path of the configuration, or the default where it names none.
pub open spec fn path_or(path: Option<String>, default: Seq<char>) -> Seq<char> {
    match path {
        Some(p) => p@,
        None => default,
    }
}

/// The transport that a configuration asks for: the local stream, or the
/// event stream with `/sse` and `/message` as default paths and the
/// keep-alive period read from its text.
pub open spec fn transport_choice(config: Option<TransportConfig>) -> TransportChoice {
    match config {
        None => TransportChoice::MissingTransportConfig,
        Some(transport) => match transport.transport_type {
            TransportType::STDIO => TransportChoice::Stdio,
            TransportType::SSE => match transport.sse_config {
                None => TransportChoice::MissingSseConfig,
                Some(sse) => {
                    let address = sse.address@;
                    let sse_path = path_or(sse.sse_path, DEFAULT_SSE_PATH@);
                    let post_path = path_or(sse.post_path, DEFAULT_POST_PATH@);
                    match sse.keep_alive_duration {
                        None => TransportChoice::Sse { address, sse_path, post_path, keep_alive: None },
                        Some(text) => match duration_read(text@) {
                            Ok(length) => TransportChoice::Sse {
                                address,
                                sse_path,
                                post_path,
                                keep_alive: Some(length),
                            },
                            Err(complaint) => TransportChoice::InvalidKeepAlive(complaint),
                        },
                    }
                },
            },
        },
    }
}

/// What the result of `transport_plan` says.
pub open spec fn plan_view(r: Result<TransportPlan, ConfigError>) -> TransportChoice {
    match r {
        Ok(TransportPlan::Stdio) => TransportChoice::Stdio,
        Ok(TransportPlan::Sse(plan)) => TransportChoice::Sse {
            address: plan.address@,
            sse_path: plan.sse_path@,
            post_path: plan.post_path@,
            keep_alive: plan.keep_alive,
        },
        Err(ConfigError::MissingTransportConfig) => TransportChoice::MissingTransportConfig,
        Err(ConfigError::MissingSseConfig) => TransportChoice::MissingSseConfig,
        Err(ConfigError::InvalidKeepAlive(complaint)) => TransportChoice::InvalidKeepAlive(complaint@),
    }
}

fn path_or_default(path: &Option<String>, default: &str) -> (r: String)
    ensures
        r@ == path_or(*path, default@),
{
    match path {
        Some(p) => p.clone(),
        None => String::from_str(default),
    }
}

impl DynamicMCPConfig {
    /// Settles which transport to start and with what settings. A missing
    /// `transport_config`, the event stream without `sse_config`, and a
    /// keep-alive period that does not parse are errors.
    pub fn transport_plan(&self) -> (r: Result<TransportPlan, ConfigError>)
        ensures
            plan_view(r) == transport_choice(self.transport_config),
    {
        match &self.transport_config {
            None => Err(ConfigError::MissingTransportConfig),
            Some(transport) => match transport.transport_type {
                TransportType::STDIO => Ok(TransportPlan::Stdio),
                TransportType::SSE => match &transport.sse_config {
                    None => Err(ConfigError::MissingSseConfig),
                    Some(sse) => {
                        let keep_alive = match &sse.keep_alive_duration {
                            None => None,
                            Some(text) => match read_duration(text.as_str()) {
                                Ok(length) => Some(length),
                                Err(complaint) => {
                                    return Err(ConfigError::InvalidKeepAlive(complaint));
                                },
                            },
                        };
                        Ok(
                            TransportPlan::Sse(
                                SsePlan {
                                    address: sse.address.clone(),
                                    sse_path: path_or_default(&sse.sse_path, DEFAULT_SSE_PATH),
                                    post_path: path_or_default(&sse.post_path, DEFAULT_POST_PATH),
                                    keep_alive,
                                },
                            ),
                        )
                    },
                },
            },
        }
    }
}

} // verus!
