//! The HTTP executor. A tool is compiled once from its definition; for each
//! call it renders the request from the caller's input and, once the caller
//! has sent the request, turns what came back into the call's result.

use crate::config::HttpMethod;
use crate::json::{from_text, json_object, json_parsed, json_string, object_with, show, shown, string_value};
use crate::outcome::{verdict_of, ErrorKind, ToolError, ToolOutput, Verdict};
use crate::slots::{
    compile_slots, compiled, filled, header_slot, http_header_template_name,
    lemma_filled_holds_last, lemma_header_slot_is_no_fixed_slot, lemma_header_slots_distinct,
    slot_text, SlotError, SlotErrorView, BODY_TEMPLATE_NAME, INPUT_NAME, URL_TEMPLATE_NAME,
};
use crate::template::{render_outcome, Template};
use crate::text::{contains, decimal, decimal_text, occurs_in};
use serde_json::Value;
use vstd::prelude::*;
use vstd::string::*;

verus! {

/// An HTTP tool, compiled: its method, its template set, the names of its
/// headers in the order of the definition, and whether it sends a body.
pub struct HttpTool {
    method: HttpMethod,
    templates: Template,
    header_names: Vec<String>,
    has_body: bool,
}

/// An `HttpTool` as the contracts speak of it.
pub struct HttpToolView {
    pub method: HttpMethod,
    pub templates: Map<Seq<char>, Seq<char>>,
    pub header_names: Seq<Seq<char>>,
    pub has_body: bool,
}

impl View for HttpTool {
    type V = HttpToolView;

    closed spec fn view(&self) -> HttpToolView {
        HttpToolView {
            method: self.method,
            templates: self.templates@,
            header_names: self.header_names.deep_view(),
            has_body: self.has_body,
        }
    }
}

/// The named raw texts of an HTTP tool, in the order in which they are
/// compiled: the URL, the body if there is one, then the headers.
pub open spec fn http_slots(
    url: Seq<char>,
    body: Option<Seq<char>>,
    headers: Seq<(Seq<char>, Seq<char>)>,
) -> Seq<(Seq<char>, Seq<char>)> {
    let first = seq![(URL_TEMPLATE_NAME@, url)];
    let second = match body {
        Some(text) => seq![(BODY_TEMPLATE_NAME@, text)],
        None => Seq::empty(),
    };
    first + second + Seq::new(headers.len(), |i: int| (header_slot(headers[i].0), headers[i].1))
}

/// In the set that an HTTP tool is compiled to, every slot holds the escaped
/// form of its own raw text: the URL's, the body's, and under each header's
/// slot that of the last header of that name.
pub proof fn lemma_http_slots_hold_their_texts(
    url: Seq<char>,
    body: Option<Seq<char>>,
    headers: Seq<(Seq<char>, Seq<char>)>,
)
    ensures
        ({
            let slots = http_slots(url, body, headers);
            let set = filled(slots, slots.len());
            &&& set.contains_key(URL_TEMPLATE_NAME@)
            &&& set[URL_TEMPLATE_NAME@] == slot_text(url)
            &&& body matches Some(text) ==> set.contains_key(BODY_TEMPLATE_NAME@)
                && set[BODY_TEMPLATE_NAME@] == slot_text(text)
            &&& forall|i: int|
                0 <= i < headers.len() && (forall|j: int|
                    i < j < headers.len() ==> (#[trigger] headers[j]).0 != headers[i].0)
                    ==> set.contains_key(header_slot((#[trigger] headers[i]).0)) && set[header_slot(
                    headers[i].0,
                )] == slot_text(headers[i].1)
        }),
{
    reveal_strlit("url");
    reveal_strlit("body");
    let slots = http_slots(url, body, headers);
    let n = slots.len();
    let fixed: int = if body is Some { 2 } else { 1 };
    assert(URL_TEMPLATE_NAME@[0] == 'u' && BODY_TEMPLATE_NAME@[0] == 'b');
    assert forall|j: int| fixed <= j < n implies #[trigger] slots[j] == (
        header_slot(headers[j - fixed].0),
        headers[j - fixed].1,
    ) by {}
    assert forall|j: int| fixed <= j < n implies (#[trigger] slots[j]).0 != URL_TEMPLATE_NAME@
        && slots[j].0 != BODY_TEMPLATE_NAME@ by {
        lemma_header_slot_is_no_fixed_slot(headers[j - fixed].0);
    }
    assert(slots[0] == (URL_TEMPLATE_NAME@, url));
    lemma_filled_holds_last(slots, n, 0);
    if body is Some {
        assert(slots[1] == (BODY_TEMPLATE_NAME@, body->0));
        lemma_filled_holds_last(slots, n, 1);
    }
    assert forall|i: int|
        0 <= i < headers.len() && (forall|j: int|
            i < j < headers.len() ==> (#[trigger] headers[j]).0 != headers[i].0) implies filled(
        slots,
        n,
    ).contains_key(header_slot((#[trigger] headers[i]).0)) && filled(slots, n)[header_slot(
        headers[i].0,
    )] == slot_text(headers[i].1) by {
        assert(slots[fixed + i] == (header_slot(headers[i].0), headers[i].1));
        let here = slots[fixed + i].0;
        assert forall|j: int| fixed + i < j < n implies (#[trigger] slots[j]).0 != here by {
            assert(headers[j - fixed].0 != headers[i].0);
            lemma_header_slots_distinct(headers[j - fixed].0, headers[i].0);
        }
        lemma_filled_holds_last(slots, n, fixed + i);
    }
}

/// The headers of a definition; none where the definition lists none.
pub open spec fn headers_of(headers: Option<Vec<(String, String)>>) -> Seq<(Seq<char>, Seq<char>)> {
    match headers {
        Some(list) => list.deep_view(),
        None => Seq::empty(),
    }
}

/// The HTTP tool that the parts of a definition compile to, or the first
/// slot that does not compile.
pub open spec fn http_tool(
    tool_index: usize,
    method: HttpMethod,
    url: Seq<char>,
    body: Option<Seq<char>>,
    headers: Seq<(Seq<char>, Seq<char>)>,
) -> Result<HttpToolView, SlotErrorView> {
    match compiled(tool_index, http_slots(url, body, headers)) {
        Ok(set) => Ok(
            HttpToolView {
                method,
                templates: set,
                header_names: Seq::new(headers.len(), |i: int| headers[i].0),
                has_body: body is Some,
            },
        ),
        Err(fault) => Err(fault),
    }
}

/// Compiles an HTTP tool from the parts of its definition. Every template
/// text is escaped and compiled: the URL, the body, then each header's value
/// under the slot named after the header. The first text that does not
/// compile is reported with the tool's index and the slot's name.
pub fn general_http_method_template(
    tool_index: usize,
    method: HttpMethod,
    url: String,
    body_template: Option<String>,
    header_template: Option<Vec<(String, String)>>,
) -> (r: Result<HttpTool, SlotError>)
    ensures
        match http_tool(
            tool_index,
            method,
            url@,
            body_template.deep_view(),
            headers_of(header_template),
        ) {
            Ok(compiled) => r matches Ok(tool) && tool@ == compiled,
            Err(fault) => r matches Err(e) && e@ == fault,
        },
{
    let ghost headers = headers_of(header_template);
    let ghost plan = http_slots(url@, body_template.deep_view(), headers);
    let has_body = body_template.is_some();
    let mut slots: Vec<(String, String)> = Vec::new();
    slots.push((String::from_str(URL_TEMPLATE_NAME), url));
    match body_template {
        Some(text) => {
            slots.push((String::from_str(BODY_TEMPLATE_NAME), text));
        },
        None => {},
    }
    let ghost fixed = slots.deep_view();
    let mut header_names: Vec<String> = Vec::new();
    let mut list: Vec<(String, String)> = match header_template {
        Some(list) => list,
        None => Vec::new(),
    };
    assert(list.deep_view() =~= headers);
    let ghost done: int = 0;
    while list.len() > 0
        invariant
            0 <= done <= headers.len(),
            list.deep_view() =~= headers.subrange(done, headers.len() as int),
            header_names.deep_view() =~= Seq::new(done as nat, |i: int| headers[i].0),
            slots.deep_view() =~= fixed + Seq::new(
                done as nat,
                |i: int| (header_slot(headers[i].0), headers[i].1),
            ),
        decreases list.len(),
    {
        let ghost before = list.deep_view();
        let ghost rest = headers.subrange(done, headers.len() as int);
        let (name, value) = list.remove(0);
        proof {
            assert(before.len() > 0 && before =~= rest);
            assert(before[0] == (name@, value@));
            assert(rest[0] == headers[done]);
            assert(list.deep_view() =~= before.subrange(1, before.len() as int));
        }
        let ghost names = header_names.deep_view();
        let ghost planned = slots.deep_view();
        let slot = http_header_template_name(name.clone());
        header_names.push(name);
        slots.push((slot, value));
        proof {
            assert(header_names.deep_view() =~= names.push(headers[done].0));
            assert(slots.deep_view() =~= planned.push(
                (header_slot(headers[done].0), headers[done].1),
            ));
            done = done + 1;
        }
    }
    assert(slots.deep_view() =~= plan);
    match compile_slots(tool_index, &slots) {
        Ok(templates) => Ok(HttpTool { method, templates, header_names, has_body }),
        Err(e) => Err(e),
    }
}

/// A request, ready to be sent.
#[derive(Debug)]
pub struct HttpRequest {
    pub method: HttpMethod,
    pub url: String,
    pub headers: Vec<(String, String)>,
    pub body: Option<String>,
}

/// An `HttpRequest` with strings as their characters.
pub struct HttpRequestView {
    pub method: HttpMethod,
    pub url: Seq<char>,
    pub headers: Seq<(Seq<char>, Seq<char>)>,
    pub body: Option<Seq<char>>,
}

impl View for HttpRequest {
    type V = HttpRequestView;

    open spec fn view(&self) -> HttpRequestView {
        HttpRequestView {
            method: self.method,
            url: self.url@,
            headers: self.headers.deep_view(),
            body: self.body.deep_view(),
        }
    }
}

/// What the complaint about a header that does not render begins with.
pub const HEADER_RENDER_FAILED: &'static str =
    "Error while rendering header template, header name ";

/// What stands between the header's name and the engine's complaint.
pub const HEADER_RENDER_SEPARATOR: &'static str = " : ";

/// What the complaint about a URL that does not render begins with.
pub const URL_RENDER_FAILED: &'static str = "Error while rendering url template: ";

/// What the complaint about a body that does not render begins with.
pub const BODY_RENDER_FAILED: &'static str = "Error while rendering body template: ";

/// The first `n` headers of a tool, rendered against `context`: name and
/// value of each, or the complaint about the first that does not render.
pub open spec fn rendered_headers(tool: HttpToolView, context: Value, n: nat) -> Result<
    Seq<(Seq<char>, Seq<char>)>,
    Seq<char>,
>
    decreases n,
{
    if n == 0 {
        Ok(Seq::empty())
    } else {
        match rendered_headers(tool, context, (n - 1) as nat) {
            Err(complaint) => Err(complaint),
            Ok(done) => {
                let name = tool.header_names[n - 1];
                match render_outcome(tool.templates, header_slot(name), context) {
                    Ok(value) => Ok(done.push((name, value))),
                    Err(complaint) => Err(
                        HEADER_RENDER_FAILED@ + name + HEADER_RENDER_SEPARATOR@ + complaint,
                    ),
                }
            },
        }
    }
}

/// The request that a tool makes of an input: every header rendered, then
/// the URL, then the body if the tool has one, all against the input wrapped
/// under `input`. The first template that does not render decides the
/// complaint, and no request is made.
pub open spec fn planned_request(tool: HttpToolView, input: Value) -> Result<
    HttpRequestView,
    Seq<char>,
> {
    let context = json_object(INPUT_NAME@, input);
    match rendered_headers(tool, context, tool.header_names.len()) {
        Err(complaint) => Err(complaint),
        Ok(headers) => match render_outcome(tool.templates, URL_TEMPLATE_NAME@, context) {
            Err(complaint) => Err(URL_RENDER_FAILED@ + complaint),
            Ok(url) => if tool.has_body {
                match render_outcome(tool.templates, BODY_TEMPLATE_NAME@, context) {
                    Err(complaint) => Err(BODY_RENDER_FAILED@ + complaint),
                    Ok(body) => Ok(
                        HttpRequestView { method: tool.method, url, headers, body: Some(body) },
                    ),
                }
            } else {
                Ok(HttpRequestView { method: tool.method, url, headers, body: None })
            },
        },
    }
}

/// The rendered headers map one to one, and in order, to the headers of the
/// tool: where the first `n` render, there are `n` of them, each under its
/// own name and with the rendering of its own slot.
pub proof fn lemma_headers_in_order(tool: HttpToolView, context: Value, n: nat)
    requires
        rendered_headers(tool, context, n) is Ok,
    ensures
        rendered_headers(tool, context, n)->Ok_0.len() == n,
        forall|i: int|
            0 <= i < n ==> (#[trigger] rendered_headers(tool, context, n)->Ok_0[i]).0
                == tool.header_names[i] && render_outcome(
                tool.templates,
                header_slot(tool.header_names[i]),
                context,
            ) == Ok::<Seq<char>, Seq<char>>(rendered_headers(tool, context, n)->Ok_0[i].1),
    decreases n,
{
    if n > 0 {
        lemma_headers_in_order(tool, context, (n - 1) as nat);
    }
}

fn render_failure(prefix: &str, complaint: &str) -> (e: ToolError)
    ensures
        e.kind == ErrorKind::RenderError,
        e.message@ == prefix@ + complaint@,
{
    let mut message = String::from_str(prefix);
    message.append(complaint);
    ToolError { kind: ErrorKind::RenderError, message }
}

impl HttpTool {
    /// The method the tool sends its requests with.
    pub fn method(&self) -> (method: HttpMethod)
        ensures
            method == self@.method,
    {
        self.method
    }

    /// Renders the request for one call. A template that does not render
    /// ends the call with a `RenderError` that names the slot.
    pub fn prepare(&self, input: Value) -> (r: Result<HttpRequest, ToolError>)
        ensures
            match planned_request(self@, input) {
                Ok(request) => r matches Ok(out) && out@ == request,
                Err(complaint) => r matches Err(e) && e.kind == ErrorKind::RenderError
                    && e.message@ == complaint,
            },
    {
        let context = object_with(INPUT_NAME, input);
        let mut headers: Vec<(String, String)> = Vec::new();
        let mut i: usize = 0;
        while i < self.header_names.len()
            invariant
                i <= self.header_names@.len(),
                context == json_object(INPUT_NAME@, input),
                rendered_headers(self@, context, i as nat) matches Ok(done) && done
                    =~= headers.deep_view(),
            decreases self.header_names@.len() - i,
        {
            let name = self.header_names[i].clone();
            assert(self@.header_names[i as int] == name@);
            let slot = http_header_template_name(name.clone());
            match self.templates.render(slot.as_str(), &context) {
                Ok(value) => {
                    let ghost before = headers.deep_view();
                    headers.push((name, value));
                    assert(headers.deep_view() =~= before.push((name@, value@)));
                },
                Err(e) => {
                    let mut message = String::from_str(HEADER_RENDER_FAILED);
                    message.append(name.as_str());
                    message.append(HEADER_RENDER_SEPARATOR);
                    message.append(e.message.as_str());
                    proof {
                        lemma_header_failure_stays(
                            self@,
                            context,
                            (i + 1) as nat,
                            self@.header_names.len(),
                        );
                    }
                    return Err(ToolError { kind: ErrorKind::RenderError, message });
                },
            }
            i = i + 1;
        }
        let url = match self.templates.render(URL_TEMPLATE_NAME, &context) {
            Ok(url) => url,
            Err(e) => {
                return Err(render_failure(URL_RENDER_FAILED, e.message.as_str()));
            },
        };
        let body = if self.has_body {
            match self.templates.render(BODY_TEMPLATE_NAME, &context) {
                Ok(body) => Some(body),
                Err(e) => {
                    return Err(render_failure(BODY_RENDER_FAILED, e.message.as_str()));
                },
            }
        } else {
            None
        };
        Ok(HttpRequest { method: self.method, url, headers, body })
    }
}

/// Once a header has failed to render, the complaint stays the same however
/// many more headers are looked at.
proof fn lemma_header_failure_stays(tool: HttpToolView, context: Value, n: nat, m: nat)
    requires
        n <= m,
        rendered_headers(tool, context, n) is Err,
    ensures
        rendered_headers(tool, context, m) == rendered_headers(tool, context, n),
    decreases m,
{
    if n < m {
        lemma_header_failure_stays(tool, context, n, (m - 1) as nat);
    }
}

/// What the server sent back.
#[derive(Debug)]
pub struct HttpResponse {
    pub status: u16,
    /// The value of the `Content-Type` header; empty if there is none.
    pub content_type: String,
    /// The length the server declared for the body; 0 if it declared none.
    pub content_length: u64,
    /// The body as text, or why it could not be read.
    pub body: Result<String, String>,
}

/// How sending a request ended.
#[derive(Debug)]
pub enum HttpOutcome {
    /// The request could not be sent; the transport's words.
    SendFailed(String),
    /// The server answered.
    Answered(HttpResponse),
}

/// The content type that marks a body as JSON.
pub const JSON_CONTENT_TYPE: &'static str = "application/json";

/// What the complaint about a request that failed begins with; the URL
/// follows.
pub const SEND_FAILED: &'static str = "Error while sending a request to ";

/// What the complaint about a body that could not be read begins with.
pub const READ_FAILED: &'static str = "Error while reading content from ";

/// What the complaint about a body that is no JSON begins with.
pub const JSON_FAILED: &'static str = "Error while parsing json content from ";

/// What stands between the URL and the cause of a failure.
pub const COLON: &'static str = ": ";

/// What stands before the status in the complaint about an answer.
pub const GOT_STATUS: &'static str = ", got status code : ";

/// What stands before the body in the complaint about an answer.
pub const RESPONSE_BODY: &'static str = ", response body : ";

/// The status is one of success: 200 to 299.
pub open spec fn is_success(status: u16) -> bool {
    200 <= status <= 299
}

/// The text of a body: what was read, or nothing where nothing could be read.
pub open spec fn body_text(body: Result<String, String>) -> Seq<char> {
    match body {
        Ok(text) => text@,
        Err(_) => Seq::empty(),
    }
}

/// What an answer to a request for `url` amounts to. A body that could not
/// be read although the server declared a length is a `TransportError`. A
/// body declared as JSON is parsed, and a `ParseError` if it does not parse;
/// any other body counts as a JSON string. A status outside 200..=299 is a
/// `ResponseError` that shows the status and the body's value. Otherwise the
/// value is the call's content.
pub open spec fn answer_verdict(url: Seq<char>, response: HttpResponse) -> Verdict {
    if response.body is Err && response.content_length > 0 {
        Verdict::Failed(
            ErrorKind::TransportError,
            READ_FAILED@ + url + COLON@ + response.body->Err_0@,
        )
    } else {
        let text = body_text(response.body);
        if occurs_in(JSON_CONTENT_TYPE@, response.content_type@) {
            match json_parsed(text) {
                Err(complaint) => Verdict::Failed(
                    ErrorKind::ParseError,
                    JSON_FAILED@ + url + COLON@ + complaint,
                ),
                Ok(value) => status_verdict(url, response.status, value),
            }
        } else {
            status_verdict(url, response.status, json_string(text))
        }
    }
}

/// The verdict on a body's value under the answer's status.
pub open spec fn status_verdict(url: Seq<char>, status: u16, value: Value) -> Verdict {
    if is_success(status) {
        Verdict::Json(value)
    } else {
        Verdict::Failed(
            ErrorKind::ResponseError,
            SEND_FAILED@ + url + GOT_STATUS@ + decimal_text(status as nat) + RESPONSE_BODY@ + shown(
                value,
            ),
        )
    }
}

/// What the outcome of sending a request to `url` amounts to: a
/// `TransportError` where it could not be sent, else the verdict on the
/// answer.
pub open spec fn http_verdict(url: Seq<char>, outcome: HttpOutcome) -> Verdict {
    match outcome {
        HttpOutcome::SendFailed(cause) => Verdict::Failed(
            ErrorKind::TransportError,
            SEND_FAILED@ + url + COLON@ + cause@,
        ),
        HttpOutcome::Answered(response) => answer_verdict(url, response),
    }
}

fn failure(kind: ErrorKind, prefix: &str, url: &str, cause: &str) -> (e: ToolError)
    ensures
        e.kind == kind,
        e.message@ == prefix@ + url@ + COLON@ + cause@,
{
    let mut message = String::from_str(prefix);
    message.append(url);
    message.append(COLON);
    message.append(cause);
    ToolError { kind, message }
}

fn judge_status(url: &str, status: u16, value: Value) -> (r: Result<ToolOutput, ToolError>)
    ensures
        verdict_of(r) == status_verdict(url@, status, value),
{
    if 200 <= status && status <= 299 {
        Ok(ToolOutput::Json(value))
    } else {
        let mut message = String::from_str(SEND_FAILED);
        message.append(url);
        message.append(GOT_STATUS);
        message.append(decimal(status as u64).as_str());
        message.append(RESPONSE_BODY);
        message.append(show(&value).as_str());
        Err(ToolError { kind: ErrorKind::ResponseError, message })
    }
}

/// Turns the outcome of sending the request for `url` into the call's
/// result.
pub fn finish_http(url: &str, outcome: HttpOutcome) -> (r: Result<ToolOutput, ToolError>)
    ensures
        verdict_of(r) == http_verdict(url@, outcome),
{
    match outcome {
        HttpOutcome::SendFailed(cause) => Err(
            failure(ErrorKind::TransportError, SEND_FAILED, url, cause.as_str()),
        ),
        HttpOutcome::Answered(response) => {
            let HttpResponse { status, content_type, content_length, body } = response;
            let text = match body {
                Ok(text) => text,
                Err(cause) => {
                    if content_length > 0 {
                        return Err(
                            failure(ErrorKind::TransportError, READ_FAILED, url, cause.as_str()),
                        );
                    }
                    String::new()
                },
            };
            if contains(content_type.as_str(), JSON_CONTENT_TYPE) {
                match from_text(text.as_str()) {
                    Ok(value) => judge_status(url, status, value),
                    Err(complaint) => Err(
                        failure(ErrorKind::ParseError, JSON_FAILED, url, complaint.as_str()),
                    ),
                }
            } else {
                judge_status(url, status, string_value(text))
            }
        },
    }
}

} // verus!
