use dynamic_mcp::command::{finish_command, general_command_template, CommandOutcome, CommandTool};
use dynamic_mcp::outcome::{ErrorKind, ToolOutput};
use serde_json::Value;

fn json(text: &str) -> Value {
    serde_json::from_str(text).unwrap()
}

fn tool(command: &str, args: &[&str], stdin: Option<&str>) -> CommandTool {
    let args = if args.is_empty() { None } else { Some(args.iter().map(|a| a.to_string()).collect()) };
    general_command_template(0, command.to_string(), args, stdin.map(str::to_string)).unwrap()
}

fn exited(success: bool, stdout: &str, stderr: &str) -> CommandOutcome {
    CommandOutcome::Exited { success, stdout: stdout.to_string(), stderr: stderr.to_string() }
}

#[test]
fn echo_tool_gives_text_or_json_content() {
    let t = tool("echo", &["{input.msg}"], None);
    let line = t.prepare(json(r#"{"msg":"hi"}"#)).unwrap();
    assert_eq!(line.program, "echo");
    assert_eq!(line.args, vec!["hi".to_string()]);
    assert_eq!(line.stdin, None);
    match finish_command(exited(true, "hi\n", "")).unwrap() {
        ToolOutput::Text(text) => assert_eq!(text, "hi\n"),
        other => panic!("{:?}", other),
    }
    match finish_command(exited(true, "{\"x\":1}", "")).unwrap() {
        ToolOutput::Json(v) => assert_eq!(v, json(r#"{"x":1}"#)),
        other => panic!("{:?}", other),
    }
}

#[test]
fn arguments_keep_their_order() {
    let names: Vec<String> = (0..12).map(|i| format!("{{input.a{}}}", i)).collect();
    let refs: Vec<&str> = names.iter().map(String::as_str).collect();
    let t = tool("{input.bin}", &refs, None);
    let mut input = serde_json::Map::new();
    input.insert("bin".to_string(), Value::from("/bin/x"));
    for i in 0..12 {
        input.insert(format!("a{}", i), Value::from(i * 10));
    }
    let line = t.prepare(Value::Object(input)).unwrap();
    assert_eq!(line.program, "/bin/x");
    let expected: Vec<String> = (0..12).map(|i| (i * 10).to_string()).collect();
    assert_eq!(line.args, expected);
}

#[test]
fn stdin_is_rendered_only_where_declared() {
    let t = tool("jq", &[".", "-c"], Some("{\"v\": {input.v}}"));
    let line = t.prepare(json(r#"{"v": [1, {"k": "s"}]}"#)).unwrap();
    assert_eq!(line.args, vec![".".to_string(), "-c".to_string()]);
    assert_eq!(line.stdin.as_deref(), Some(r#"{"v": [1,{"k":"s"}]}"#));
    let t = tool("true", &[], None);
    let line = t.prepare(json("{}")).unwrap();
    assert!(line.args.is_empty());
    assert_eq!(line.stdin, None);
}

#[test]
fn command_field_the_input_lacks_is_a_render_error_that_names_the_slot() {
    let t = tool("{input.c}", &["ok", "{input.a}"], Some("{input.s}"));
    let e = t.prepare(json(r#"{"a": 1, "s": 2}"#)).unwrap_err();
    assert_eq!(e.kind, ErrorKind::RenderError);
    assert!(e.message.starts_with("Error while rendering command template: "));
    let e = t.prepare(json(r#"{"c": 1, "s": 2}"#)).unwrap_err();
    assert_eq!(e.kind, ErrorKind::RenderError);
    assert!(e.message.starts_with("Error while rendering args template: "));
    let e = t.prepare(json(r#"{"c": 1, "a": 2}"#)).unwrap_err();
    assert_eq!(e.kind, ErrorKind::RenderError);
    assert!(e.message.starts_with("Error while rendering stdin template: "));
}

#[test]
fn command_template_that_does_not_compile_is_reported_with_tool_and_slot() {
    let e = general_command_template(
        4,
        "sh".to_string(),
        Some(vec!["-c".to_string(), "{input.x\n}".to_string()]),
        None,
    )
    .err()
    .unwrap();
    assert_eq!((e.tool_index, e.slot.as_str()), (4, "args_1"));
    let e = general_command_template(5, "sh".to_string(), None, Some("{\tinput.x\n}".to_string()))
        .err()
        .unwrap();
    assert_eq!((e.tool_index, e.slot.as_str()), (5, "stdin"));
    let e = general_command_template(6, "{input.c\r\n}".to_string(), None, None).err().unwrap();
    assert_eq!((e.tool_index, e.slot.as_str()), (6, "command"));
}

#[test]
fn unsuccessful_exit_is_a_response_error_with_standard_error() {
    let e = finish_command(exited(false, "{\"ignored\": true}", "boom\n")).unwrap_err();
    assert_eq!(e.kind, ErrorKind::ResponseError);
    assert_eq!(e.message, "Error while executing a command: boom\n");
    assert_eq!(e.code(), -32603);
}

#[test]
fn process_that_could_not_be_run_is_a_transport_error() {
    let e = finish_command(CommandOutcome::SpawnFailed("No such file".to_string())).unwrap_err();
    assert_eq!(e.kind, ErrorKind::TransportError);
    assert_eq!(e.message, "Error while spawning a process: No such file");
    let e = finish_command(CommandOutcome::StdinMissing).unwrap_err();
    assert_eq!(e.kind, ErrorKind::TransportError);
    assert_eq!(e.message, "Error while spawning a process: stdin is None");
    let e = finish_command(CommandOutcome::StdinFailed("broken pipe".to_string())).unwrap_err();
    assert_eq!(e.kind, ErrorKind::TransportError);
    assert_eq!(e.message, "Error while writing stdin: broken pipe");
    let e = finish_command(CommandOutcome::WaitFailed("interrupted".to_string())).unwrap_err();
    assert_eq!(e.kind, ErrorKind::TransportError);
    assert_eq!(e.message, "Error while waiting for a process: interrupted");
}

#[test]
fn empty_output_is_text() {
    match finish_command(exited(true, "", "warning")).unwrap() {
        ToolOutput::Text(text) => assert_eq!(text, ""),
        other => panic!("{:?}", other),
    }
    match finish_command(exited(true, " 12 ", "")).unwrap() {
        ToolOutput::Json(v) => assert_eq!(v, json("12")),
        other => panic!("{:?}", other),
    }
}
