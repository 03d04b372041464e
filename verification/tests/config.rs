use dynamic_mcp::config::{
    ConfigError, DynamicMCPConfig, KeepAlive, SseConfig, TransportConfig, TransportPlan,
    TransportType,
};

fn config(transport_config: Option<TransportConfig>) -> DynamicMCPConfig {
    DynamicMCPConfig {
        tools: Vec::new(),
        instruction: None,
        server_info: None,
        server_capabilities: None,
        transport_config,
    }
}

fn sse(sse_path: Option<&str>, post_path: Option<&str>, keep_alive: Option<&str>) -> TransportConfig {
    TransportConfig {
        transport_type: TransportType::SSE,
        sse_config: Some(SseConfig {
            address: "127.0.0.1:8000".to_string(),
            sse_path: sse_path.map(str::to_string),
            post_path: post_path.map(str::to_string),
            keep_alive_duration: keep_alive.map(str::to_string),
        }),
    }
}

#[test]
fn default_transport_is_the_local_stream() {
    let d = TransportConfig::default();
    assert_eq!(d.transport_type, TransportType::STDIO);
    assert!(d.sse_config.is_none());
}

#[test]
fn local_stream_needs_no_settings() {
    let plan = config(Some(TransportConfig::default())).transport_plan().unwrap();
    assert!(matches!(plan, TransportPlan::Stdio));
}

#[test]
fn missing_settings_are_errors() {
    assert!(matches!(config(None).transport_plan(), Err(ConfigError::MissingTransportConfig)));
    let no_sse = TransportConfig { transport_type: TransportType::SSE, sse_config: None };
    assert!(matches!(config(Some(no_sse)).transport_plan(), Err(ConfigError::MissingSseConfig)));
}

#[test]
fn event_stream_paths_have_defaults() {
    match config(Some(sse(None, None, None))).transport_plan().unwrap() {
        TransportPlan::Sse(plan) => {
            assert_eq!(plan.address, "127.0.0.1:8000");
            assert_eq!(plan.sse_path, "/sse");
            assert_eq!(plan.post_path, "/message");
            assert_eq!(plan.keep_alive, None);
        }
        TransportPlan::Stdio => panic!(),
    }
    match config(Some(sse(Some("/events"), Some("/in"), Some("1m 30s 5ms")))).transport_plan().unwrap() {
        TransportPlan::Sse(plan) => {
            assert_eq!(plan.sse_path, "/events");
            assert_eq!(plan.post_path, "/in");
            assert_eq!(plan.keep_alive, Some(KeepAlive { secs: 90, nanos: 5_000_000 }));
        }
        TransportPlan::Stdio => panic!(),
    }
}

#[test]
fn keep_alive_that_is_no_duration_is_an_error() {
    match config(Some(sse(None, None, Some("soon")))).transport_plan() {
        Err(ConfigError::InvalidKeepAlive(reason)) => assert!(!reason.is_empty()),
        other => panic!("{:?}", other.map(|_| ())),
    }
}
