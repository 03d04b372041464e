use dynamic_mcp::config::HttpMethod;
use dynamic_mcp::http::{
    finish_http, general_http_method_template, HttpOutcome, HttpResponse, HttpTool,
};
use dynamic_mcp::outcome::{ErrorKind, ToolOutput};
use serde_json::Value;

fn json(text: &str) -> Value {
    serde_json::from_str(text).unwrap()
}

fn tool(url: &str, body: Option<&str>, headers: &[(&str, &str)]) -> HttpTool {
    let headers = if headers.is_empty() {
        None
    } else {
        Some(headers.iter().map(|(n, v)| (n.to_string(), v.to_string())).collect())
    };
    general_http_method_template(0, HttpMethod::GET, url.to_string(), body.map(str::to_string), headers)
        .unwrap()
}

fn answered(status: u16, content_type: &str, body: &str) -> HttpOutcome {
    HttpOutcome::Answered(HttpResponse {
        status,
        content_type: content_type.to_string(),
        content_length: body.len() as u64,
        body: Ok(body.to_string()),
    })
}

#[test]
fn get_tool_renders_its_url() {
    let t = tool("https://api.example.com/items/{input.id}", None, &[]);
    let request = t.prepare(json(r#"{"id": 42}"#)).unwrap();
    assert_eq!(request.url, "https://api.example.com/items/42");
    assert_eq!(request.method, HttpMethod::GET);
    assert!(request.headers.is_empty());
    assert_eq!(request.body, None);
}

#[test]
fn literal_object_body_renders_as_written_whatever_the_input() {
    let t = tool("http://h/", Some("{\"a\": 1}"), &[]);
    for input in [r#"{}"#, r#"{"a": 2}"#, r#"{"input": {"a": 3}}"#, r#"[1, 2]"#, r#""text""#] {
        let request = t.prepare(json(input)).unwrap();
        assert_eq!(request.body.as_deref(), Some("{\"a\": 1}"));
    }
}

#[test]
fn body_and_headers_are_rendered_from_the_input() {
    let t = general_http_method_template(
        3,
        HttpMethod::POST,
        "http://h/{input.path}".to_string(),
        Some("{\"name\": \"{input.name}\", \"tags\": {input.tags}}".to_string()),
        Some(vec![
            ("Authorization".to_string(), "Bearer {input.token}".to_string()),
            ("X-Static".to_string(), "{plain}".to_string()),
        ]),
    )
    .unwrap();
    assert_eq!(t.method(), HttpMethod::POST);
    let request = t
        .prepare(json(r#"{"path": "p", "name": "n", "tags": ["a", "b"], "token": "s3"}"#))
        .unwrap();
    assert_eq!(request.method, HttpMethod::POST);
    assert_eq!(request.url, "http://h/p");
    assert_eq!(request.body.as_deref(), Some(r#"{"name": "n", "tags": ["a","b"]}"#));
    assert_eq!(
        request.headers,
        vec![
            ("Authorization".to_string(), "Bearer s3".to_string()),
            ("X-Static".to_string(), "{plain}".to_string()),
        ]
    );
}

#[test]
fn a_repeated_header_name_takes_the_later_template() {
    let t = tool("http://h/", None, &[("A", "one"), ("A", "two")]);
    let request = t.prepare(json("{}")).unwrap();
    assert_eq!(
        request.headers,
        vec![("A".to_string(), "two".to_string()), ("A".to_string(), "two".to_string())]
    );
}

#[test]
fn http_field_the_input_lacks_is_a_render_error_that_names_the_slot() {
    let t = tool("http://h/{input.u}", Some("{input.b}"), &[("H", "{input.h}")]);
    let e = t.prepare(json(r#"{"u": 1, "b": 2}"#)).unwrap_err();
    assert_eq!(e.kind, ErrorKind::RenderError);
    assert!(e.message.starts_with("Error while rendering header template, header name H : "));
    let e = t.prepare(json(r#"{"h": 1, "b": 2}"#)).unwrap_err();
    assert_eq!(e.kind, ErrorKind::RenderError);
    assert!(e.message.starts_with("Error while rendering url template: "));
    let e = t.prepare(json(r#"{"h": 1, "u": 2}"#)).unwrap_err();
    assert_eq!(e.kind, ErrorKind::RenderError);
    assert!(e.message.starts_with("Error while rendering body template: "));
    assert_eq!(e.code(), -32700);
}

#[test]
fn http_template_that_does_not_compile_is_reported_with_tool_and_slot() {
    let e = general_http_method_template(
        7,
        HttpMethod::PUT,
        "http://h/".to_string(),
        Some("{\ninput.x}".to_string()),
        None,
    )
    .err()
    .unwrap();
    assert_eq!(e.tool_index, 7);
    assert_eq!(e.slot, "body");
    assert!(e.message.contains("closing"), "{}", e.message);
    let e = general_http_method_template(
        1,
        HttpMethod::GET,
        "http://h/".to_string(),
        None,
        Some(vec![("Ok".to_string(), "v".to_string()), ("Bad".to_string(), "{ input.x\n}".to_string())]),
    )
    .err()
    .unwrap();
    assert_eq!((e.tool_index, e.slot.as_str()), (1, "header_Bad"));
}

#[test]
fn json_answer_is_json_content() {
    let r = finish_http("http://h/", answered(200, "application/json; charset=utf-8", r#"{"x": 1}"#));
    match r.unwrap() {
        ToolOutput::Json(v) => assert_eq!(v, json(r#"{"x":1}"#)),
        other => panic!("{:?}", other),
    }
}

#[test]
fn other_answer_is_a_json_string() {
    let r = finish_http("http://h/", answered(299, "text/plain", "hello"));
    match r.unwrap() {
        ToolOutput::Json(v) => assert_eq!(v, Value::String("hello".to_string())),
        other => panic!("{:?}", other),
    }
    let r = finish_http("http://h/", answered(200, "", "{\"x\": 1}"));
    match r.unwrap() {
        ToolOutput::Json(v) => assert_eq!(v, Value::String("{\"x\": 1}".to_string())),
        other => panic!("{:?}", other),
    }
}

#[test]
fn not_found_is_a_response_error_and_later_calls_still_succeed() {
    let t = tool("http://h/items/{input.id}", None, &[]);
    let request = t.prepare(json(r#"{"id": 1}"#)).unwrap();
    let e = finish_http(
        &request.url,
        answered(404, "application/json", r#"{"error":"not found"}"#),
    )
    .unwrap_err();
    assert_eq!(e.kind, ErrorKind::ResponseError);
    assert_eq!(
        e.message,
        "Error while sending a request to http://h/items/1, got status code : 404, response body : {\"error\":\"not found\"}"
    );
    assert_eq!(e.code(), -32603);
    let request = t.prepare(json(r#"{"id": 2}"#)).unwrap();
    assert_eq!(request.url, "http://h/items/2");
    assert!(finish_http(&request.url, answered(200, "application/json", "[]")).is_ok());
}

#[test]
fn status_bounds() {
    assert!(finish_http("u", answered(200, "", "")).is_ok());
    assert!(finish_http("u", answered(299, "", "")).is_ok());
    for status in [100, 199, 300, 500, 65535] {
        let e = finish_http("u", answered(status, "text/plain", "b")).unwrap_err();
        assert_eq!(e.kind, ErrorKind::ResponseError);
        assert_eq!(
            e.message,
            format!("Error while sending a request to u, got status code : {}, response body : \"b\"", status)
        );
    }
}

#[test]
fn declared_json_that_does_not_parse_is_a_parse_error() {
    let e = finish_http("http://h/", answered(200, "application/json", "{oops")).unwrap_err();
    assert_eq!(e.kind, ErrorKind::ParseError);
    assert!(e.message.starts_with("Error while parsing json content from http://h/: "));
    let e = finish_http("http://h/", answered(500, "application/json", "")).unwrap_err();
    assert_eq!(e.kind, ErrorKind::ParseError);
}

#[test]
fn request_that_could_not_be_sent_is_a_transport_error() {
    let e = finish_http("http://h/", HttpOutcome::SendFailed("connection refused".to_string()))
        .unwrap_err();
    assert_eq!(e.kind, ErrorKind::TransportError);
    assert_eq!(e.message, "Error while sending a request to http://h/: connection refused");
}

#[test]
fn unreadable_body_counts_only_if_a_length_was_declared() {
    let unreadable = |content_length| {
        HttpOutcome::Answered(HttpResponse {
            status: 200,
            content_type: "text/plain".to_string(),
            content_length,
            body: Err("reset".to_string()),
        })
    };
    let e = finish_http("http://h/", unreadable(10)).unwrap_err();
    assert_eq!(e.kind, ErrorKind::TransportError);
    assert_eq!(e.message, "Error while reading content from http://h/: reset");
    match finish_http("http://h/", unreadable(0)).unwrap() {
        ToolOutput::Json(v) => assert_eq!(v, Value::String(String::new())),
        other => panic!("{:?}", other),
    }
}

#[test]
fn a_brace_right_before_a_placeholder_is_literal() {
    let t = tool("http://h/", Some("{{input.a}, {input.b}}"), &[]);
    let request = t.prepare(json(r#"{"a": 1, "b": [2]}"#)).unwrap();
    assert_eq!(request.body.as_deref(), Some("{1, [2]}"));
}
