//! The MCP mode's decisions: reading a JSON-RPC 2.0 request, answering it,
//! and the tools the mode describes. Serving standard input, running the
//! method handlers and writing the responses are the caller's part.
use vstd::prelude::*;
use serde_json::Value;
use crate::text::{append_str, string_of};
use crate::infra::json::{
    JsonPlace, empty_json_object, json_as_str, json_get, json_has_field, json_is_object, json_read, json_root,
    json_str, json_value, json_value_is_object, parse_json,
};

verus! {

/// A JSON-RPC request.
pub struct JsonRpcRequest {
    pub jsonrpc: String,
    pub id: Option<Value>,
    pub method: String,
    pub params: Option<Value>,
}

/// A JSON-RPC error.
pub struct JsonRpcError {
    pub code: i32,
    pub message: String,
    pub data: Option<Value>,
}

/// A JSON-RPC response.
pub struct JsonRpcResponse {
    pub jsonrpc: String,
    pub id: Option<Value>,
    pub result: Option<Value>,
    pub error: Option<JsonRpcError>,
}

impl JsonRpcResponse {
    /// A successful response.
    pub fn success(id: Option<Value>, result: Value) -> (r: Self)
        ensures
            r.jsonrpc@ == "2.0"@,
            r.id == id,
            r.result == Some(result),
            r.error is None,
    {
        JsonRpcResponse { jsonrpc: "2.0".to_owned(), id, result: Some(result), error: None }
    }

    /// An error response.
    pub fn error(id: Option<Value>, code: i32, message: &str) -> (r: Self)
        ensures
            r.jsonrpc@ == "2.0"@,
            r.id == id,
            r.result is None,
            r.error matches Some(e) && e.code == code && e.message@ == message@ && e.data is None,
    {
        JsonRpcResponse {
            jsonrpc: "2.0".to_owned(),
            id,
            result: None,
            error: Some(JsonRpcError { code, message: message.to_owned(), data: None }),
        }
    }
}

/// The version a request names: its `jsonrpc` member when that is a
/// string, else `2.0`.
pub open spec fn request_version(root: JsonPlace) -> Seq<char> {
    let f = root.field("jsonrpc"@);
    if json_has_field(f) && json_str(f) is Some {
        json_str(f)->0
    } else {
        "2.0"@
    }
}

/// The method a request names: its `method` member, when that is a string.
pub open spec fn request_method(root: JsonPlace) -> Option<Seq<char>> {
    let f = root.field("method"@);
    if json_has_field(f) {
        json_str(f)
    } else {
        None
    }
}

/// What reading a request gives: its method, or the message of why it is
/// refused (the text is not JSON, not an object, names another version
/// than `2.0`, or names no method).
pub open spec fn request_outcome(text: Seq<char>) -> Result<Seq<char>, Seq<char>> {
    let root = json_root(text);
    match json_read(text) {
        Err(m) => Err("Failed to parse JSON: "@ + m),
        Ok(_) => if !json_is_object(root) {
            Err("Request must be a JSON object"@)
        } else if request_version(root) != "2.0"@ {
            Err("Unsupported jsonrpc version: "@ + request_version(root))
        } else {
            match request_method(root) {
                Some(m) => Ok(m),
                None => Err("Missing 'method' field"@),
            }
        },
    }
}

fn joined(a: &str, b: &str) -> (r: String)
    ensures
        r@ == a@ + b@,
{
    let mut v: Vec<char> = Vec::new();
    append_str(&mut v, a);
    append_str(&mut v, b);
    string_of(v.as_slice())
}

fn member_text(c: &crate::infra::json::JsonCursor, key: &str) -> (r: Option<String>)
    ensures
        r is Some <==> (json_has_field(c@.field(key@)) && json_str(c@.field(key@)) is Some),
        r matches Some(s) ==> json_str(c@.field(key@)) == Some(s@),
{
    match json_get(c, key) {
        Some(d) => json_as_str(&d),
        None => None,
    }
}

fn member_value(c: &crate::infra::json::JsonCursor, key: &str) -> (r: Option<Value>)
    ensures
        r is Some <==> json_has_field(c@.field(key@)),
{
    match json_get(c, key) {
        Some(d) => Some(json_value(d)),
        None => None,
    }
}

/// Reads and answers JSON-RPC 2.0 requests.
pub struct McpAdapter;

impl Default for McpAdapter {
    fn default() -> (r: Self) {
        McpAdapter
    }
}

impl McpAdapter {
    pub fn new() -> (r: Self) {
        McpAdapter
    }

    /// Reads a request from its text: the version is `2.0` unless the
    /// request names another (refused), and the method must be named; the
    /// `id` and `params` members are kept when present.
    pub fn parse_request(&self, raw: &str) -> (r: Result<JsonRpcRequest, String>)
        ensures
            match request_outcome(raw@) {
                Err(m) => r matches Err(e) && e@ == m,
                Ok(method) => r matches Ok(q) && q.jsonrpc@ == "2.0"@ && q.method@ == method
                    && (q.id is Some <==> json_has_field(json_root(raw@).field("id"@)))
                    && (q.params is Some <==> json_has_field(json_root(raw@).field("params"@))),
            },
    {
        proof {
            reveal_strlit("jsonrpc");
            reveal_strlit("method");
            reveal_strlit("id");
            reveal_strlit("params");
        }
        let root = match parse_json(raw) {
            Ok(c) => c,
            Err(e) => {
                return Err(joined("Failed to parse JSON: ", e.as_str()));
            },
        };
        if !json_value_is_object(&root) {
            return Err("Request must be a JSON object".to_owned());
        }
        let jsonrpc = match member_text(&root, "jsonrpc") {
            Some(v) => v,
            None => "2.0".to_owned(),
        };
        if !crate::text::same_text(jsonrpc.as_str(), "2.0") {
            return Err(joined("Unsupported jsonrpc version: ", jsonrpc.as_str()));
        }
        let method = match member_text(&root, "method") {
            Some(m) => m,
            None => {
                return Err("Missing 'method' field".to_owned());
            },
        };
        let id = member_value(&root, "id");
        let params = member_value(&root, "params");
        Ok(JsonRpcRequest { jsonrpc, id, method, params })
    }

    /// The response to a request, given what its method's handler did:
    /// `None` when no handler serves the method (-32601, `Method not
    /// found`), else the handler's result, or its error message (-32603).
    pub fn respond(&self, request: JsonRpcRequest, outcome: Option<Result<Value, String>>) -> (r: JsonRpcResponse)
        ensures
            r.jsonrpc@ == "2.0"@,
            r.id == request.id,
            outcome is None ==> r.result is None && (r.error matches Some(e) && e.code == -32601
                && e.message@ == "Method not found"@ && e.data is None),
            outcome matches Some(Ok(v)) ==> r.result == Some(v) && r.error is None,
            outcome matches Some(Err(m)) ==> r.result is None && (r.error matches Some(e) && e.code == -32603
                && e.message@ == m@ && e.data is None),
    {
        match outcome {
            None => JsonRpcResponse::error(request.id, -32601, "Method not found"),
            Some(Ok(v)) => JsonRpcResponse::success(request.id, v),
            Some(Err(m)) => JsonRpcResponse::error(request.id, -32603, m.as_str()),
        }
    }
}

/// What a handler is given: the request's `params`, else `{}`.
pub fn handler_params(params: Option<Value>) -> (r: Value)
    ensures
        params matches Some(v) ==> r == v,
{
    match params {
        Some(v) => v,
        None => empty_json_object(),
    }
}

/// The shape of a tool's input.
#[derive(Debug, Clone, Copy, PartialEq, Eq, Structural)]
pub enum ToolSchema {
    /// An object without properties.
    NoProperties,
    /// An object with a `path` string and an `options` object
    /// (`max_concurrency`, `include`, `exclude`).
    IndexPath,
}

/// A tool the MCP mode describes.
pub struct McpTool {
    pub name: String,
    pub description: String,
    pub input_schema: ToolSchema,
}

impl McpTool {
    pub fn list_languages() -> (r: Self)
        ensures
            r.name@ == "list_languages"@,
            r.description@ == "Returns the list of supported languages"@,
            r.input_schema == ToolSchema::NoProperties,
    {
        McpTool {
            name: "list_languages".to_owned(),
            description: "Returns the list of supported languages".to_owned(),
            input_schema: ToolSchema::NoProperties,
        }
    }

    pub fn index_path() -> (r: Self)
        ensures
            r.name@ == "index_path"@,
            r.description@ == "Index a directory path"@,
            r.input_schema == ToolSchema::IndexPath,
    {
        McpTool { name: "index_path".to_owned(), description: "Index a directory path".to_owned(), input_schema: ToolSchema::IndexPath }
    }

    pub fn stop() -> (r: Self)
        ensures
            r.name@ == "stop"@,
            r.description@ == "Stop the current indexing job"@,
            r.input_schema == ToolSchema::NoProperties,
    {
        McpTool { name: "stop".to_owned(), description: "Stop the current indexing job".to_owned(), input_schema: ToolSchema::NoProperties }
    }

    pub fn status() -> (r: Self)
        ensures
            r.name@ == "status"@,
            r.description@ == "Get the current status of the indexer"@,
            r.input_schema == ToolSchema::NoProperties,
    {
        McpTool {
            name: "status".to_owned(),
            description: "Get the current status of the indexer".to_owned(),
            input_schema: ToolSchema::NoProperties,
        }
    }
}

/// The tools of the MCP mode.
pub struct McpTools;

impl McpTools {
    /// The four tools, in order: `list_languages`, `index_path`, `stop`,
    /// `status`.
    pub fn list() -> (r: Vec<McpTool>)
        ensures
            r@.len() == 4,
            r@[0].name@ == "list_languages"@ && r@[0].input_schema == ToolSchema::NoProperties,
            r@[1].name@ == "index_path"@ && r@[1].input_schema == ToolSchema::IndexPath,
            r@[2].name@ == "stop"@ && r@[2].input_schema == ToolSchema::NoProperties,
            r@[3].name@ == "status"@ && r@[3].input_schema == ToolSchema::NoProperties,
            r@[0].description@ == "Returns the list of supported languages"@,
            r@[1].description@ == "Index a directory path"@,
            r@[2].description@ == "Stop the current indexing job"@,
            r@[3].description@ == "Get the current status of the indexer"@,
    {
        let mut v: Vec<McpTool> = Vec::new();
        v.push(McpTool::list_languages());
        v.push(McpTool::index_path());
        v.push(McpTool::stop());
        v.push(McpTool::status());
        v
    }
}

} // verus!
