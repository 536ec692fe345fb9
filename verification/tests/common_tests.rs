use mcp_arch::json::JsonValue;
use mcp_arch::tools::common::{
    allowed_roots_description, command_result, describe_roots, normalize_root, show_root,
    take_lines, tool_error_result, tool_text_result, CommandPlan,
};
use std::path::PathBuf;

static NULL: JsonValue = JsonValue::Null;

fn at<'a>(v: &'a JsonValue, key: &str) -> &'a JsonValue {
    v.get(key).unwrap_or(&NULL)
}

fn item(v: &JsonValue, i: usize) -> &JsonValue {
    match v {
        JsonValue::Array(items) => items.get(i).unwrap_or(&NULL),
        _ => &NULL,
    }
}

fn text(s: &str) -> JsonValue {
    JsonValue::String(s.to_string())
}

fn object(entries: Vec<(&str, JsonValue)>) -> JsonValue {
    JsonValue::Object(entries.into_iter().map(|(k, v)| (k.to_string(), v)).collect())
}

#[test]
fn tool_text_result_returns_text_content_array() {
    let result = tool_text_result("hello from tool".to_string());

    assert_eq!(
        result,
        object(vec![(
            "content",
            JsonValue::Array(vec![object(vec![("type", text("text")), ("text", text("hello from tool"))])]),
        )])
    );
}

#[test]
fn tool_text_result_does_not_mark_result_as_error() {
    let result = tool_text_result("successful result".to_string());

    assert!(result.get("isError").is_none());
}

#[test]
fn tool_error_result_returns_text_content_array_with_error_message() {
    let result = tool_error_result("something went wrong".to_string());

    assert_eq!(
        result,
        object(vec![
            (
                "content",
                JsonValue::Array(vec![object(vec![
                    ("type", text("text")),
                    ("text", text("something went wrong")),
                ])]),
            ),
            ("isError", JsonValue::Bool(true)),
        ])
    );
}

#[test]
fn tool_error_result_marks_result_as_error() {
    let result = tool_error_result("permission denied".to_string());

    assert_eq!(at(&result, "isError"), &JsonValue::Bool(true));
}

#[test]
fn allowed_roots_description_joins_multiple_roots() {
    let roots = vec![
        "/home/jarom/Projects".to_string(),
        "/home/jarom/Projects/sandbox".to_string(),
        "/tmp/example".to_string(),
    ];

    let description = allowed_roots_description(&roots);

    assert!(description.contains("/home/jarom/Projects"), "missing first root");
    assert!(description.contains("/home/jarom/Projects/sandbox"), "missing second root");
    assert!(description.contains("/tmp/example"), "missing third root");
    assert!(description.contains(", "), "expected roots to be comma separated");
}

#[test]
fn allowed_roots_description_returns_single_root() {
    let roots = vec!["/home/jarom/Projects".to_string()];

    let description = allowed_roots_description(&roots);

    assert_eq!(description, "/home/jarom/Projects");
}

#[test]
fn allowed_roots_description_returns_none_when_empty() {
    let roots: Vec<String> = vec![];

    let description = allowed_roots_description(&roots);

    assert_eq!(description, "none");
}

#[test]
fn normalize_root_returns_original_path_when_canonicalize_fails() {
    let path = PathBuf::from("/definitely/not/a/real/path");

    let normalized = normalize_root(path.to_str().unwrap());

    assert_eq!(normalized, "/definitely/not/a/real/path");
}

#[test]
fn normalize_root_returns_canonical_path_when_path_exists() {
    let path = PathBuf::from("/tmp");

    let normalized = normalize_root(path.to_str().unwrap());

    assert!(normalized.ends_with("/tmp"), "expected canonicalized tmp path");
}

#[test]
fn describe_roots_shows_canonical_forms_and_falls_back_to_the_root() {
    let roots = vec!["/a/../b".to_string(), "/missing".to_string()];
    let outcomes = vec![Ok(b"/b".to_vec()), Err("No such file or directory".to_string())];

    assert_eq!(describe_roots(&roots, &outcomes), "/b, /missing");
    assert_eq!(describe_roots(&vec![], &vec![]), "none");
}

#[test]
fn show_root_prefers_the_canonical_form() {
    assert_eq!(show_root("/x/./y", &Ok(b"/x/y".to_vec())), "/x/y");
    assert_eq!(show_root("/x", &Ok(vec![b'/', 0xff])), "/\u{fffd}");
    assert_eq!(show_root("/x/./y", &Err("gone".to_string())), "/x/./y");
}

#[test]
fn take_lines_keeps_the_first_lines_only() {
    let text = "USER PID\nroot 1\r\nroot 2\nroot 3\n";

    assert_eq!(take_lines(text, 2), "USER PID\nroot 1");
    assert_eq!(take_lines(text, 1), "USER PID");
    assert_eq!(take_lines(text, 0), "");
    assert_eq!(take_lines(text, 25), "USER PID\nroot 1\nroot 2\nroot 3");
    assert_eq!(take_lines("", 5), "");
    assert_eq!(take_lines("a\rb\r", 5), "a\rb\r");
}

fn plan(limit: Option<u64>) -> CommandPlan {
    CommandPlan {
        program: "ps".to_string(),
        args: vec!["aux".to_string()],
        failure: "failed to determine active processes".to_string(),
        line_limit: limit,
    }
}

#[test]
fn command_result_wraps_output_as_text() {
    let result = command_result(&plan(None), Ok(b"one\ntwo\n".to_vec()));

    assert_eq!(result, tool_text_result("one\ntwo\n".to_string()));
}

#[test]
fn command_result_cuts_output_to_the_line_limit() {
    let result = command_result(&plan(Some(1)), Ok(b"HEADER\nrow\n".to_vec()));

    assert_eq!(result, tool_text_result("HEADER".to_string()));
}

#[test]
fn command_result_replaces_invalid_utf8() {
    let result = command_result(&plan(None), Ok(vec![b'o', b'k', 0xff]));

    assert_eq!(result, tool_text_result("ok\u{fffd}".to_string()));
}

#[test]
fn command_result_reports_a_failure_to_run() {
    let result = command_result(&plan(None), Err("No such file or directory (os error 2)".to_string()));

    assert_eq!(
        result,
        tool_error_result(
            "failed to determine active processes: No such file or directory (os error 2)".to_string()
        )
    );
    assert_eq!(item(at(&result, "content"), 0).get("type"), Some(&text("text")));
}
