use mcp_arch::config::path::PathConfig;
use mcp_arch::json::{JsonNumber, JsonValue};
use mcp_arch::protocol::{
    handle_initialize, handle_message, handle_tools_call, handle_tools_list, json_rpc_error,
    json_rpc_result, message_would_panic, tool_error, tools_call_would_panic, tools_catalogue,
    validate_request_id_type, Reply,
};
use mcp_arch::tools::common::{CommandPlan, ToolStep};

static NULL: JsonValue = JsonValue::Null;

fn at<'a>(v: &'a JsonValue, key: &str) -> &'a JsonValue {
    v.get(key).unwrap_or(&NULL)
}

fn item(v: &JsonValue, i: usize) -> &JsonValue {
    match v {
        JsonValue::Array(items) => items.get(i).unwrap_or(&NULL),
        _ => &NULL,
    }
}

fn items(v: &JsonValue) -> Option<&Vec<JsonValue>> {
    match v {
        JsonValue::Array(items) => Some(items),
        _ => None,
    }
}

fn as_str(v: &JsonValue) -> Option<&str> {
    match v {
        JsonValue::String(s) => Some(s.as_str()),
        _ => None,
    }
}

fn text(s: &str) -> JsonValue {
    JsonValue::String(s.to_string())
}

fn number(n: u64) -> JsonValue {
    JsonValue::Number(JsonNumber::PosInt(n))
}

fn object(entries: Vec<(&str, JsonValue)>) -> JsonValue {
    JsonValue::Object(entries.into_iter().map(|(k, v)| (k.to_string(), v)).collect())
}

fn is_object(v: &JsonValue) -> bool {
    matches!(v, JsonValue::Object(_))
}

fn tool_names(tools_list: &JsonValue) -> Vec<&str> {
    items(at(tools_list, "tools"))
        .expect("tools should be an array")
        .iter()
        .map(|tool| as_str(at(tool, "name")).expect("each tool should have a string name"))
        .collect()
}

fn find_tool<'a>(tools_list: &'a JsonValue, name: &str) -> &'a JsonValue {
    items(at(tools_list, "tools"))
        .expect("tools should be an array")
        .iter()
        .find(|tool| as_str(at(tool, "name")) == Some(name))
        .unwrap_or_else(|| panic!("expected tool named {name}"))
}

fn catalogue() -> JsonValue {
    tools_catalogue(&"/home/jarom/Projects".to_string(), &"/home/jarom/Projects/sandbox".to_string())
}

#[test]
fn validate_request_id_accepts_string_id() {
    let msg = object(vec![
        ("jsonrpc", text("2.0")),
        ("id", text("abc-123")),
        ("method", text("tools/list")),
    ]);

    assert_eq!(validate_request_id_type(&msg), Some(text("abc-123")));
}

#[test]
fn validate_request_id_accepts_number_id() {
    let msg = object(vec![("jsonrpc", text("2.0")), ("id", number(42)), ("method", text("tools/list"))]);

    assert_eq!(validate_request_id_type(&msg), Some(number(42)));
}

#[test]
fn validate_request_id_rejects_missing_id() {
    let msg = object(vec![("jsonrpc", text("2.0")), ("method", text("notifications/initialized"))]);

    assert_eq!(validate_request_id_type(&msg), None);
}

#[test]
fn validate_request_id_rejects_null_id() {
    let msg = object(vec![("jsonrpc", text("2.0")), ("id", JsonValue::Null), ("method", text("tools/list"))]);

    assert_eq!(validate_request_id_type(&msg), None);
}

#[test]
fn json_rpc_result_wraps_result_with_protocol_fields() {
    let response = json_rpc_result(number(7), object(vec![("ok", JsonValue::Bool(true))]));

    assert_eq!(at(&response, "jsonrpc"), &text("2.0"));
    assert_eq!(at(&response, "id"), &number(7));
    assert_eq!(at(at(&response, "result"), "ok"), &JsonValue::Bool(true));
    assert!(response.get("error").is_none());
}

#[test]
fn json_rpc_error_wraps_error_with_code_and_message() {
    let response = json_rpc_error(text("request-1"), -32601, "unknown method");

    assert_eq!(at(&response, "jsonrpc"), &text("2.0"));
    assert_eq!(at(&response, "id"), &text("request-1"));
    assert_eq!(at(at(&response, "error"), "code"), &JsonValue::Number(JsonNumber::NegInt(-32601)));
    assert_eq!(at(at(&response, "error"), "message"), &text("unknown method"));
    assert!(response.get("result").is_none());
}

#[test]
fn tool_error_returns_mcp_tool_error_shape() {
    let response = tool_error("something went wrong");

    assert_eq!(at(&response, "isError"), &JsonValue::Bool(true));
    assert_eq!(at(item(at(&response, "content"), 0), "type"), &text("text"));
    assert_eq!(at(item(at(&response, "content"), 0), "text"), &text("something went wrong"));
}

#[test]
fn initialize_returns_expected_server_metadata() {
    let response = handle_initialize();

    assert_eq!(at(&response, "protocolVersion"), &text("2025-06-18"));
    assert!(is_object(at(at(&response, "capabilities"), "tools")));
    assert_eq!(at(at(&response, "serverInfo"), "name"), &text("mcp-arch-linux"));
    assert_eq!(at(at(&response, "serverInfo"), "version"), &text("0.1.0"));
}

#[test]
fn tools_list_contains_expected_tools() {
    let response = catalogue();
    let names = tool_names(&response);

    let expected = [
        "disk_usage",
        "cpu_information",
        "active_processes",
        "list_containers",
        "list_docker_images",
        "list_directory",
        "read_file",
        "write_file",
        "git_status",
        "git_diff",
        "git_diff_file",
        "git_log",
        "git_branch",
    ];

    for expected_name in expected {
        assert!(names.contains(&expected_name), "missing expected tool: {expected_name}");
    }
}

#[test]
fn every_tool_has_name_description_and_input_schema() {
    let response = catalogue();
    let tools = items(at(&response, "tools")).expect("tools should be an array");

    for tool in tools {
        assert!(as_str(at(tool, "name")).is_some(), "tool missing string name: {tool:?}");
        assert!(as_str(at(tool, "description")).is_some(), "tool missing string description: {tool:?}");
        assert!(is_object(at(tool, "inputSchema")), "tool missing inputSchema object: {tool:?}");
        assert_eq!(
            at(at(tool, "inputSchema"), "type"),
            &text("object"),
            "tool inputSchema should be object: {tool:?}"
        );
    }
}

#[test]
fn read_file_schema_requires_path() {
    let response = catalogue();
    let tool = find_tool(&response, "read_file");

    let required = items(at(at(tool, "inputSchema"), "required")).expect("required should be an array");

    assert!(required.iter().any(|field| field == &text("path")));
}

#[test]
fn write_file_schema_requires_path() {
    let response = catalogue();
    let tool = find_tool(&response, "write_file");

    let required = items(at(at(tool, "inputSchema"), "required")).expect("required should be an array");

    assert!(required.iter().any(|field| field == &text("path")));
}

#[test]
fn write_file_schema_exposes_contents_property() {
    let response = catalogue();
    let tool = find_tool(&response, "write_file");

    assert!(
        is_object(at(at(at(tool, "inputSchema"), "properties"), "contents")),
        "write_file should expose contents property"
    );
}

#[test]
fn git_tools_require_path() {
    let response = catalogue();

    for tool_name in ["git_status", "git_diff", "git_diff_file", "git_log", "git_branch"] {
        let tool = find_tool(&response, tool_name);

        let required = items(at(at(tool, "inputSchema"), "required"))
            .unwrap_or_else(|| panic!("{tool_name} required should be an array"));

        assert!(required.iter().any(|field| field == &text("path")), "{tool_name} should require path");
    }
}

#[test]
fn read_and_write_descriptions_include_allowed_roots_context() {
    let response = catalogue();

    let read_file = find_tool(&response, "read_file");
    let write_file = find_tool(&response, "write_file");

    let read_description =
        as_str(at(read_file, "description")).expect("read_file description should be a string");

    let write_description =
        as_str(at(write_file, "description")).expect("write_file description should be a string");

    assert!(
        read_description.contains("Allowed readable roots"),
        "read_file description should mention readable roots"
    );

    assert!(
        write_description.contains("Allowed writable roots"),
        "write_file description should mention writable roots"
    );
}

fn done(step: ToolStep) -> JsonValue {
    match step {
        ToolStep::Done(v) => v,
        _ => panic!("expected a finished tool result"),
    }
}

fn config() -> PathConfig {
    PathConfig::from_settings(None, None, None)
}

#[test]
fn tools_call_without_name_returns_tool_error() {
    let msg = object(vec![
        ("jsonrpc", text("2.0")),
        ("id", number(1)),
        ("method", text("tools/call")),
        ("params", object(vec![("arguments", object(vec![]))])),
    ]);

    let response = done(handle_tools_call(&msg, &config()));

    assert_eq!(at(&response, "isError"), &JsonValue::Bool(true));
    assert_eq!(at(item(at(&response, "content"), 0), "type"), &text("text"));
    assert_eq!(at(item(at(&response, "content"), 0), "text"), &text("tools/call requires params.name"));
}

#[test]
fn tools_call_unknown_tool_returns_tool_error() {
    let msg = object(vec![
        ("jsonrpc", text("2.0")),
        ("id", number(1)),
        ("method", text("tools/call")),
        ("params", object(vec![("name", text("fake_tool")), ("arguments", object(vec![]))])),
    ]);

    let response = done(handle_tools_call(&msg, &config()));

    assert_eq!(at(&response, "isError"), &JsonValue::Bool(true));
    assert_eq!(at(item(at(&response, "content"), 0), "type"), &text("text"));
    assert_eq!(at(item(at(&response, "content"), 0), "text"), &text("unknown tool: fake_tool"));
}

#[test]
fn tools_list_of_a_configuration_names_its_roots() {
    let config = PathConfig::from_settings(
        None,
        Some("/definitely/not/here".to_string()),
        Some("".to_string()),
    );
    let response = handle_tools_list(&config);

    let read_description = as_str(at(find_tool(&response, "read_file"), "description")).unwrap();
    let write_description = as_str(at(find_tool(&response, "write_file"), "description")).unwrap();

    assert!(read_description.ends_with("Allowed readable roots: /definitely/not/here"));
    assert!(write_description.ends_with("Allowed writable roots: none"));
}

#[test]
fn tools_call_dispatches_to_the_named_tool() {
    let msg = object(vec![
        ("id", number(3)),
        ("method", text("tools/call")),
        (
            "params",
            object(vec![
                ("name", text("git_log")),
                ("arguments", object(vec![("path", text("/repo")), ("limit", number(12))])),
            ]),
        ),
    ]);

    match handle_tools_call(&msg, &config()) {
        ToolStep::Run(CommandPlan { program, args, failure, line_limit }) => {
            assert_eq!(program, "git");
            assert_eq!(args, vec!["-C", "/repo", "log", "-n", "12"]);
            assert_eq!(failure, "failed to display git commit logs");
            assert_eq!(line_limit, None);
        }
        _ => panic!("expected a command"),
    }
}

#[test]
fn tools_call_panics_only_for_git_tools_without_path() {
    let call = |name: &str, arguments: JsonValue| {
        object(vec![
            ("id", number(1)),
            ("method", text("tools/call")),
            ("params", object(vec![("name", text(name)), ("arguments", arguments)])),
        ])
    };

    assert!(tools_call_would_panic(&call("git_status", object(vec![]))));
    assert!(tools_call_would_panic(&call("git_diff", object(vec![("path", number(1))]))));
    assert!(tools_call_would_panic(&call("git_diff_file", JsonValue::Null)));
    assert!(!tools_call_would_panic(&call("git_status", object(vec![("path", text("/r"))]))));
    assert!(!tools_call_would_panic(&call("git_log", object(vec![]))));
    assert!(message_would_panic(&call("git_status", object(vec![]))));
}

#[test]
fn handle_message_answers_initialize_with_the_request_id() {
    let msg = object(vec![("jsonrpc", text("2.0")), ("id", text("x")), ("method", text("initialize"))]);

    match handle_message(&msg, &config()) {
        Reply::Respond(v) => assert_eq!(v, json_rpc_result(text("x"), handle_initialize())),
        _ => panic!("expected a response"),
    }
}

#[test]
fn handle_message_ignores_notifications() {
    let msg = object(vec![("jsonrpc", text("2.0")), ("method", text("notifications/initialized"))]);

    match handle_message(&msg, &config()) {
        Reply::Ignore(log) => assert_eq!(
            log,
            "received notification or invalid request without usable id: notifications/initialized"
        ),
        _ => panic!("expected the message to be ignored"),
    }
}

#[test]
fn handle_message_rejects_unknown_methods() {
    let msg = object(vec![("id", number(9)), ("method", text("resources/list"))]);

    match handle_message(&msg, &config()) {
        Reply::Respond(v) => {
            assert_eq!(v, json_rpc_error(number(9), -32601, "unknown method: resources/list"))
        }
        _ => panic!("expected a response"),
    }
}

#[test]
fn handle_message_hands_tool_calls_on_with_the_id() {
    let msg = object(vec![
        ("id", number(5)),
        ("method", text("tools/call")),
        ("params", object(vec![("name", text("cpu_information"))])),
    ]);

    match handle_message(&msg, &config()) {
        Reply::Call(id, ToolStep::Run(plan)) => {
            assert_eq!(id, number(5));
            assert_eq!(plan.program, "lscpu");
            assert!(plan.args.is_empty());
        }
        _ => panic!("expected a tool call"),
    }
}
