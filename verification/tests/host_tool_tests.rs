use mcp_arch::json::{JsonNumber, JsonValue};
use mcp_arch::tools::common::command_result;
use mcp_arch::tools::docker::{list_containers, list_docker_images};
use mcp_arch::tools::system::{active_processes, cpu_information, disk_usage};

static NULL: JsonValue = JsonValue::Null;

const DOCKER_PS: &str = "CONTAINER ID   IMAGE     COMMAND   CREATED   STATUS    PORTS     NAMES\n";
const DOCKER_IMAGES: &str = "REPOSITORY   TAG       IMAGE ID   CREATED   SIZE\n";
const DF: &str = "Filesystem      Size  Used Avail Use% Mounted on\n/dev/sda1        50G   20G   28G  42% /\n";
const LSCPU: &str = "Architecture:            x86_64\nCPU(s):                  8\n";

fn ps_aux(rows: usize) -> String {
    let mut out = "USER         PID %CPU %MEM    VSZ   RSS TTY      STAT START   TIME COMMAND\n".to_string();
    for i in 0..rows {
        out.push_str(&format!("root {:>10}  0.0  0.0      0     0 ?        S    10:00   0:00 [worker/{i}]\n", i + 1));
    }
    out
}

fn object(entries: Vec<(&str, JsonValue)>) -> JsonValue {
    JsonValue::Object(entries.into_iter().map(|(k, v)| (k.to_string(), v)).collect())
}

fn at<'a>(v: &'a JsonValue, key: &str) -> &'a JsonValue {
    v.get(key).unwrap_or(&NULL)
}

fn first_content(v: &JsonValue) -> &JsonValue {
    match at(v, "content") {
        JsonValue::Array(items) => items.first().unwrap_or(&NULL),
        _ => &NULL,
    }
}

fn content_type(v: &JsonValue) -> &JsonValue {
    at(first_content(v), "type")
}

fn content_text(v: &JsonValue) -> Option<&str> {
    match at(first_content(v), "text") {
        JsonValue::String(s) => Some(s.as_str()),
        _ => None,
    }
}

fn is_object(v: &JsonValue) -> bool {
    matches!(v, JsonValue::Object(_))
}

fn is_array(v: &JsonValue) -> bool {
    matches!(v, JsonValue::Array(_))
}

fn text_type() -> JsonValue {
    JsonValue::String("text".to_string())
}

fn containers(arguments: &JsonValue) -> JsonValue {
    command_result(&list_containers(arguments), Ok(DOCKER_PS.as_bytes().to_vec()))
}

fn images(arguments: &JsonValue) -> JsonValue {
    command_result(&list_docker_images(arguments), Ok(DOCKER_IMAGES.as_bytes().to_vec()))
}

fn processes(arguments: &JsonValue) -> JsonValue {
    command_result(&active_processes(arguments), Ok(ps_aux(40).into_bytes()))
}

#[test]
fn list_containers_returns_json_object() {
    let result = containers(&object(vec![]));

    assert!(is_object(&result));
}

#[test]
fn list_containers_returns_content_array() {
    let result = containers(&object(vec![]));

    assert!(result.get("content").is_some());
    assert!(is_array(at(&result, "content")));
}

#[test]
fn list_containers_accepts_all_flag() {
    let arguments = object(vec![("all", JsonValue::Bool(true))]);
    assert_eq!(list_containers(&arguments).args, vec!["ps", "-a"]);
    let result = containers(&arguments);

    assert!(is_object(&result));
    assert!(result.get("content").is_some());
}

#[test]
fn list_docker_images_returns_json_object() {
    let result = images(&object(vec![]));

    assert!(is_object(&result));
}

#[test]
fn list_docker_images_returns_content_array() {
    let result = images(&object(vec![]));

    assert!(result.get("content").is_some());
    assert!(is_array(at(&result, "content")));
}

#[test]
fn list_docker_images_accepts_all_flag() {
    let arguments = object(vec![("all", JsonValue::Bool(true))]);
    assert_eq!(list_docker_images(&arguments).args, vec!["images", "-a"]);
    let result = images(&arguments);

    assert!(is_object(&result));
    assert!(result.get("content").is_some());
}

#[test]
fn list_containers_returns_text_content_entry() {
    let result = containers(&object(vec![]));

    assert_eq!(content_type(&result), &text_type());
}

#[test]
fn list_docker_images_returns_text_content_entry() {
    let result = images(&object(vec![]));

    assert_eq!(content_type(&result), &text_type());
}

#[test]
fn disk_usage_returns_text_content() {
    let result = command_result(&disk_usage(&object(vec![])), Ok(DF.as_bytes().to_vec()));

    assert_eq!(content_type(&result), &text_type());
    assert!(content_text(&result).is_some());
}

#[test]
fn disk_usage_defaults_to_human_readable_output() {
    let plan = disk_usage(&object(vec![]));
    assert_eq!(plan.args, vec!["-h"]);
    let result = command_result(&plan, Ok(DF.as_bytes().to_vec()));

    let text = content_text(&result).expect("disk usage result should contain text");

    assert!(text.contains("Filesystem"), "expected df output header, got: {text}");
}

#[test]
fn disk_usage_accepts_human_readable_false() {
    let plan = disk_usage(&object(vec![("human_readable", JsonValue::Bool(false))]));
    assert!(plan.args.is_empty());
    let result = command_result(&plan, Ok(DF.as_bytes().to_vec()));

    assert_eq!(content_type(&result), &text_type());
    assert!(content_text(&result).is_some());
}

#[test]
fn cpu_information_returns_text_content() {
    let result = command_result(&cpu_information(), Ok(LSCPU.as_bytes().to_vec()));

    assert_eq!(content_type(&result), &text_type());
    assert!(content_text(&result).is_some());
}

#[test]
fn cpu_information_includes_expected_lscpu_fields() {
    let result = command_result(&cpu_information(), Ok(LSCPU.as_bytes().to_vec()));

    let text = content_text(&result).expect("cpu information result should contain text");

    assert!(text.contains("Architecture") || text.contains("CPU"), "expected lscpu output fields, got: {text}");
}

#[test]
fn active_processes_returns_text_content() {
    let result = processes(&object(vec![]));

    assert_eq!(content_type(&result), &text_type());
    assert!(content_text(&result).is_some());
}

#[test]
fn active_processes_defaults_to_limited_output() {
    let result = processes(&object(vec![]));

    let text = content_text(&result).expect("active processes result should contain text");

    assert!(
        text.lines().count() <= 25,
        "expected default process output to contain at most 25 lines, got {}",
        text.lines().count()
    );
    assert_eq!(text.lines().count(), 25);
}

#[test]
fn active_processes_respects_limit_argument() {
    let result = processes(&object(vec![("limit", JsonValue::Number(JsonNumber::PosInt(5)))]));

    let text = content_text(&result).expect("active processes result should contain text");

    assert!(
        text.lines().count() <= 5,
        "expected process output to contain at most 5 lines, got {}",
        text.lines().count()
    );
}

#[test]
fn active_processes_with_limit_one_returns_only_header_line() {
    let result = processes(&object(vec![("limit", JsonValue::Number(JsonNumber::PosInt(1)))]));

    let text = content_text(&result).expect("active processes result should contain text");

    assert_eq!(text.lines().count(), 1);
    assert!(text.contains("USER"), "expected ps aux header line, got: {text}");
}

#[test]
fn active_processes_with_limit_zero_returns_empty_text() {
    let result = processes(&object(vec![("limit", JsonValue::Number(JsonNumber::PosInt(0)))]));

    assert_eq!(content_text(&result), Some(""));
}
