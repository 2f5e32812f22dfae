use serde_json::Value;
use zeroai::mcp::{closed_connection, read_reply, McpManager, McpTool, RequestIds, RpcError, RpcReply};

fn tool(name: &str) -> McpTool {
    McpTool { name: name.to_string(), description: None, input_schema: Value::Null }
}

#[test]
fn request_ids_count_from_one() {
    let mut ids = RequestIds::new();
    assert_eq!(ids.next_id(), 1);
    assert_eq!(ids.next_id(), 2);
    let mut top = RequestIds { next: u64::MAX };
    assert_eq!(top.next_id(), u64::MAX);
    assert_eq!(top.next_id(), 0);
}

#[test]
fn replies_give_result_or_error_text() {
    let ok = read_reply(RpcReply { result: Some(Value::Bool(true)), error: None });
    assert_eq!(ok.unwrap(), Some(Value::Bool(true)));
    let null = read_reply(RpcReply { result: None, error: None });
    assert_eq!(null.unwrap(), None);
    let err = read_reply(RpcReply {
        result: Some(Value::Null),
        error: Some(RpcError { code: -32601, message: "Method not found".into() }),
    });
    assert_eq!(err.unwrap_err(), "MCP error -32601: Method not found");
    assert_eq!(closed_connection(), "MCP server closed connection");
}

#[test]
fn directory_connects_replaces_and_disconnects() {
    let mut m = McpManager::new();
    m.connect_server("fs".into(), vec![tool("read"), tool("write")]);
    m.connect_server("web".into(), vec![tool("fetch")]);
    assert_eq!(m.connected_servers(), vec!["fs".to_string(), "web".to_string()]);
    let all: Vec<(String, String)> = m.all_tools().into_iter().map(|(s, t)| (s, t.name)).collect();
    assert_eq!(
        all,
        vec![("fs".into(), "read".into()), ("fs".into(), "write".into()), ("web".into(), "fetch".into())]
    );
    m.connect_server("fs".into(), vec![tool("stat")]);
    assert_eq!(m.connected_servers(), vec!["fs".to_string(), "web".to_string()]);
    assert_eq!(m.all_tools().len(), 2);
    m.disconnect_server("fs");
    assert_eq!(m.connected_servers(), vec!["web".to_string()]);
    m.disconnect_server("absent");
    assert_eq!(m.connected_servers(), vec!["web".to_string()]);
}

#[test]
fn tool_calls_are_routed() {
    let mut m = McpManager::new();
    m.connect_server("a".into(), vec![tool("x")]);
    m.connect_server("b".into(), vec![tool("y"), tool("x")]);
    let inv = m.call_tool_any("y", Value::Bool(false)).unwrap();
    assert_eq!(inv.server, "b");
    assert_eq!(inv.tool, "y");
    assert_eq!(m.call_tool_any("x", Value::Null).unwrap().server, "a");
    assert_eq!(m.call_tool_any("z", Value::Null).unwrap_err(), "No MCP server has tool: z");
    assert_eq!(m.call_tool("b", "x", Value::Null).unwrap().server, "b");
    assert_eq!(m.call_tool("c", "x", Value::Null).unwrap_err(), "MCP server 'c' not connected");
    assert_eq!(m.server_with_tool("x"), Some(0));
}
