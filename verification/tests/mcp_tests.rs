use rust_indexer::adapters::registry::{adapter_for, registered_languages, sort_languages, AdapterKind};
use rust_indexer::infra::mcp::{handler_params, JsonRpcRequest, McpAdapter, McpTool, McpTools, ToolSchema};
use serde_json::Value;

fn request(method: &str, params: Option<Value>) -> JsonRpcRequest {
    JsonRpcRequest { jsonrpc: "2.0".to_string(), id: Some(Value::from(1)), method: method.to_string(), params }
}

#[test]
fn mcp_adapter_parse_valid_request() {
    let adapter = McpAdapter::new();
    let raw = r#"{"jsonrpc":"2.0","id":1,"method":"list_languages","params":{}}"#;
    let req = adapter.parse_request(raw).unwrap();
    assert_eq!(req.method, "list_languages");
    assert_eq!(req.id, Some(Value::from(1)));
}

#[test]
fn mcp_adapter_parse_missing_method() {
    let adapter = McpAdapter::new();
    let raw = r#"{"jsonrpc":"2.0","id":1,"params":{}}"#;
    let result = adapter.parse_request(raw);
    assert!(result.is_err());
}

#[test]
fn mcp_adapter_handle_unknown_method() {
    let adapter = McpAdapter::new();
    let req = request("unknown", None);
    let resp = adapter.respond(req, None);
    assert!(resp.error.is_some());
    assert_eq!(resp.error.as_ref().unwrap().code, -32601);
}

#[test]
fn mcp_tool_schema_define_stop() {
    let tool = McpTool::stop();
    assert_eq!(tool.name, "stop");
}

#[test]
fn mcp_tool_schema_define_status() {
    let tool = McpTool::status();
    assert_eq!(tool.name, "status");
}

#[test]
fn mcp_tools_list_returns_all() {
    let tools = McpTools::list();
    assert_eq!(tools.len(), 4);
    let names: Vec<_> = tools.iter().map(|t| t.name.clone()).collect();
    assert!(names.contains(&"list_languages".to_string()));
    assert!(names.contains(&"index_path".to_string()));
    assert!(names.contains(&"stop".to_string()));
    assert!(names.contains(&"status".to_string()));
}

#[test]
fn requests_default_to_version_two() {
    let req = McpAdapter::new().parse_request(r#"{"method":"status"}"#).unwrap();
    assert_eq!(req.jsonrpc, "2.0");
    assert_eq!(req.method, "status");
    assert!(req.id.is_none());
    assert!(req.params.is_none());
    let req = McpAdapter::new().parse_request(r#"{"jsonrpc":2,"method":"stop","id":"a"}"#).unwrap();
    assert_eq!(req.jsonrpc, "2.0");
    assert_eq!(req.id, Some(Value::from("a")));
}

#[test]
fn refused_requests_say_why() {
    let a = McpAdapter::new();
    assert_eq!(a.parse_request(r#"[1, 2]"#).err().unwrap(), "Request must be a JSON object");
    assert_eq!(a.parse_request(r#"{"jsonrpc":"1.0","method":"x"}"#).err().unwrap(), "Unsupported jsonrpc version: 1.0");
    assert_eq!(a.parse_request(r#"{"method":3}"#).err().unwrap(), "Missing 'method' field");
    assert!(a.parse_request("{not json").err().unwrap().starts_with("Failed to parse JSON: "));
}

#[test]
fn responses_carry_the_handler_outcome() {
    let a = McpAdapter::new();
    let ok = a.respond(request("status", None), Some(Ok(Value::from("ready"))));
    assert_eq!(ok.jsonrpc, "2.0");
    assert_eq!(ok.id, Some(Value::from(1)));
    assert_eq!(ok.result, Some(Value::from("ready")));
    assert!(ok.error.is_none());
    let failed = a.respond(request("status", None), Some(Err("boom".to_string())));
    let e = failed.error.unwrap();
    assert_eq!(e.code, -32603);
    assert_eq!(e.message, "boom");
    assert!(failed.result.is_none());
    assert!(handler_params(None).as_object().map(|m| m.is_empty()).unwrap_or(false));
    assert_eq!(handler_params(Some(Value::from(42))), Value::from(42));
}

#[test]
fn tools_describe_their_inputs() {
    let tools = McpTools::list();
    let names: Vec<&str> = tools.iter().map(|t| t.name.as_str()).collect();
    assert_eq!(names, vec!["list_languages", "index_path", "stop", "status"]);
    assert!(tools[1].input_schema == ToolSchema::IndexPath);
    assert!(tools[0].input_schema == ToolSchema::NoProperties);
    assert_eq!(McpTool::list_languages().description, "Returns the list of supported languages");
}

#[test]
fn languages_map_to_their_adapters() {
    assert_eq!(registered_languages(), vec!["go", "java", "javascript", "python", "rust", "typescript"]);
    assert_eq!(adapter_for("javascript"), Some(AdapterKind::TypeScript));
    assert_eq!(adapter_for("typescript"), Some(AdapterKind::TypeScript));
    assert_eq!(adapter_for("rust"), Some(AdapterKind::Rust));
    assert_eq!(adapter_for("cobol"), None);
    let sorted = sort_languages(&vec!["rust".to_string(), "go".to_string(), "java".to_string()]);
    assert_eq!(sorted, vec!["go", "java", "rust"]);
}
