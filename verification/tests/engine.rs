use dynamic_mcp::config::{
    CommandMetadata, DynamicMCPConfig, HttpMetadata, HttpMethod, ToolData, ToolType,
};
use dynamic_mcp::engine::{
    generate_tool_description, CatalogError, DispatchTable, DynamicMCP, Executor,
};
use dynamic_mcp::outcome::ErrorKind;
use dynamic_mcp::slots::{command_args_template_name, compile_slot, http_header_template_name};
use serde_json::Value;

fn schema(kind: &str) -> serde_json::Map<String, Value> {
    let mut m = serde_json::Map::new();
    m.insert("type".to_string(), Value::from(kind));
    m
}

fn http(name: &str, url: &str) -> ToolData {
    ToolData {
        name: name.to_string(),
        description: format!("about {}", name),
        tool_type: ToolType::HTTP,
        http_metadata: Some(HttpMetadata {
            url: url.to_string(),
            method: HttpMethod::DELETE,
            body: None,
            headers: None,
            input_schema: schema("object"),
            output_schema: Some(schema("array")),
        }),
        command_metadata: None,
        tool_annotations: None,
    }
}

fn command(name: &str, program: &str) -> ToolData {
    ToolData {
        name: name.to_string(),
        description: format!("about {}", name),
        tool_type: ToolType::COMMAND,
        http_metadata: None,
        command_metadata: Some(CommandMetadata {
            command: program.to_string(),
            args: Some(vec!["{input.a}".to_string()]),
            stdin: None,
            input_schema: schema("object"),
            output_schema: None,
        }),
        tool_annotations: Some(rmcp::model::ToolAnnotations::new().read_only(true)),
    }
}

fn disabled(name: &str) -> ToolData {
    let mut t = http(name, "http://unused/");
    t.tool_type = ToolType::COMMAND;
    t
}

#[test]
fn table_holds_the_enabled_tools_in_catalog_order() {
    let table = DynamicMCP::tool_router(vec![
        http("a", "http://h/{input.id}"),
        disabled("b"),
        command("c", "echo"),
        http("d", "http://h/d"),
    ])
    .unwrap();
    let names: Vec<&str> = table.entries.iter().map(|e| e.schema.name.as_str()).collect();
    assert_eq!(names, vec!["a", "c", "d"]);
    assert!(table.excluded.is_empty());
    assert!(matches!(table.entries[0].executor, Executor::Http(_)));
    assert!(matches!(table.entries[1].executor, Executor::Command(_)));
    let first = &table.entries[0].schema;
    assert_eq!(first.description, "about a");
    assert_eq!(first.input_schema, schema("object"));
    assert_eq!(first.output_schema, Some(schema("array")));
    assert_eq!(first.annotations, None);
    let second = &table.entries[1].schema;
    assert_eq!(second.output_schema, None);
    assert_eq!(second.annotations, Some(rmcp::model::ToolAnnotations::new().read_only(true)));
    assert_eq!(table.find("c"), Some(1));
    assert_eq!(table.find("b"), None);
    assert_eq!(table.find(""), None);
}

#[test]
fn tools_of_the_table_carry_out_calls() {
    let table = DynamicMCP::tool_router(vec![http("a", "http://h/{input.id}"), command("c", "echo")])
        .unwrap();
    let input: Value = serde_json::from_str(r#"{"id": 5, "a": "x"}"#).unwrap();
    match &table.entries[table.find("a").unwrap()].executor {
        Executor::Http(tool) => {
            let request = tool.prepare(input.clone()).unwrap();
            assert_eq!(request.url, "http://h/5");
            assert_eq!(request.method, HttpMethod::DELETE);
        }
        Executor::Command(_) => panic!(),
    }
    match &table.entries[table.find("c").unwrap()].executor {
        Executor::Command(tool) => {
            let line = tool.prepare(input).unwrap();
            assert_eq!((line.program.as_str(), line.args), ("echo", vec!["x".to_string()]));
        }
        Executor::Http(_) => panic!(),
    }
}

#[test]
fn duplicate_names_turn_the_catalog_down() {
    let r = DynamicMCP::tool_router(vec![
        http("a", "http://h/1"),
        command("b", "x"),
        http("c", "http://h/2"),
        command("a", "y"),
        http("b", "http://h/3"),
    ]);
    match r {
        Err(CatalogError::DuplicateName { name, first, second }) => {
            assert_eq!((name.as_str(), first, second), ("a", 0, 3));
        }
        Ok(_) => panic!("duplicate accepted"),
    }
}

#[test]
fn a_disabled_tool_repeats_no_name() {
    let table = DynamicMCP::tool_router(vec![disabled("a"), http("a", "http://h/"), disabled("a")])
        .unwrap();
    assert_eq!(table.entries.len(), 1);
    assert_eq!(table.find("a"), Some(0));
}

#[test]
fn a_tool_whose_template_does_not_compile_is_left_out_alone() {
    let table = DynamicMCP::tool_router(vec![
        http("good", "http://h/{input.id}"),
        http("bad", "http://h/{input.id\n}"),
        command("also-good", "echo"),
        command("also-bad", "{\ninput.c}"),
    ])
    .unwrap();
    let names: Vec<&str> = table.entries.iter().map(|e| e.schema.name.as_str()).collect();
    assert_eq!(names, vec!["good", "also-good"]);
    let left_out: Vec<(usize, &str)> =
        table.excluded.iter().map(|e| (e.tool_index, e.slot.as_str())).collect();
    assert_eq!(left_out, vec![(1, "url"), (3, "command")]);
}

#[test]
fn empty_catalog_gives_an_empty_table() {
    let table = DynamicMCP::tool_router(Vec::new()).unwrap();
    assert!(table.entries.is_empty() && table.excluded.is_empty());
}

#[test]
fn server_keeps_what_the_configuration_says_of_it() {
    let mut info = rmcp::model::Implementation::default();
    info.name = "n".to_string();
    let server = DynamicMCP::new(DynamicMCPConfig {
        tools: vec![http("a", "http://h/")],
        instruction: Some("be kind".to_string()),
        server_info: Some(info),
        server_capabilities: None,
        transport_config: None,
    })
    .unwrap();
    assert_eq!(server.tool_router.entries.len(), 1);
    assert_eq!(server.instruction.as_deref(), Some("be kind"));
    assert_eq!(server.server_info.unwrap().name, "n");
    assert!(server.server_capabilities.is_none());
    let r = DynamicMCP::new(DynamicMCPConfig {
        tools: vec![http("a", "http://h/"), http("a", "http://h/")],
        instruction: None,
        server_info: None,
        server_capabilities: None,
        transport_config: None,
    });
    assert!(matches!(r, Err(CatalogError::DuplicateName { first: 0, second: 1, .. })));
}

#[test]
fn schema_is_put_together_from_its_parts() {
    let s = generate_tool_description(
        "d".to_string(),
        "n".to_string(),
        schema("object"),
        None,
        None,
    );
    assert_eq!((s.name.as_str(), s.description.as_str()), ("n", "d"));
    assert_eq!(s.input_schema, schema("object"));
    assert!(s.output_schema.is_none() && s.annotations.is_none());
}

#[test]
fn slot_names() {
    assert_eq!(http_header_template_name("X-Api-Key".to_string()), "header_X-Api-Key");
    assert_eq!(http_header_template_name(String::new()), "header_");
    assert_eq!(command_args_template_name(0), "args_0");
    assert_eq!(command_args_template_name(12), "args_12");
}

#[test]
fn slot_text_is_the_escaped_raw_text() {
    assert_eq!(compile_slot("{\"k\": {input.v}}").unwrap(), "\\{\"k\": {input.v}}");
    assert!(compile_slot("{input.v\n}").is_err());
}

#[test]
fn error_codes_by_class() {
    assert_eq!(ErrorKind::RenderError.code(), -32700);
    assert_eq!(ErrorKind::TransportError.code(), -32603);
    assert_eq!(ErrorKind::ResponseError.code(), -32603);
    assert_eq!(ErrorKind::ParseError.code(), -32603);
}

fn shareable<T: Send + Sync>() {}

#[test]
fn the_table_can_be_shared_between_concurrent_calls() {
    shareable::<DispatchTable>();
    shareable::<DynamicMCP>();
    shareable::<dynamic_mcp::template::Template>();
}
