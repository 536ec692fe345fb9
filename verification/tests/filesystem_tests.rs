use mcp_arch::config::path::{
    check_root, parse_paths, parts_of, path_is_absolute, same_bytes, scan_roots, starts_with_components, target_within,
    PathConfig,
};
use mcp_arch::json::{JsonNumber, JsonValue};
use mcp_arch::tools::common::{tool_error_result, tool_text_result, ToolStep};
use mcp_arch::tools::filesystem::{
    admission_decision, canonicalize_existing_parent, list_directory, list_directory_result, parent_answer,
    read_file, read_file_result, write_file, write_file_result, Access,
};
use std::path::PathBuf;

static NULL: JsonValue = JsonValue::Null;

fn at<'a>(v: &'a JsonValue, key: &str) -> &'a JsonValue {
    v.get(key).unwrap_or(&NULL)
}

fn item(v: &JsonValue, i: usize) -> &JsonValue {
    match v {
        JsonValue::Array(items) => items.get(i).unwrap_or(&NULL),
        _ => &NULL,
    }
}

fn text(s: &str) -> JsonValue {
    JsonValue::String(s.to_string())
}

fn object(entries: Vec<(&str, JsonValue)>) -> JsonValue {
    JsonValue::Object(entries.into_iter().map(|(k, v)| (k.to_string(), v)).collect())
}

fn tool_text(response: &JsonValue) -> &str {
    match at(item(at(response, "content"), 0), "text") {
        JsonValue::String(s) => s.as_str(),
        _ => panic!("tool response should contain text"),
    }
}

fn done(step: ToolStep) -> JsonValue {
    match step {
        ToolStep::Done(v) => v,
        _ => panic!("expected a finished tool result"),
    }
}

fn config() -> PathConfig {
    PathConfig::from_settings(None, None, None)
}

#[test]
fn canonicalize_existing_parent_returns_real_parent_path() {
    let path = "/tmp/example_file_that_does_not_exist.txt";

    let parent = canonicalize_existing_parent(path).expect("parent /tmp should canonicalize");

    assert_eq!(PathBuf::from(String::from_utf8(parent).unwrap()), PathBuf::from("/tmp"));
}

#[test]
fn canonicalize_existing_parent_refuses_a_path_without_parent() {
    assert_eq!(canonicalize_existing_parent("/"), Err("path must have a parent directory".to_string()));
    assert_eq!(canonicalize_existing_parent(""), Err("path must have a parent directory".to_string()));
}

#[test]
fn canonicalize_existing_parent_reports_a_missing_parent() {
    let err = canonicalize_existing_parent("/definitely/not/a/dir/file.txt").unwrap_err();

    assert!(err.starts_with("failed to canonicalize the parent directory: "));
}

#[test]
fn read_file_returns_error_when_path_missing() {
    let arguments = object(vec![]);

    let response = done(read_file(&arguments, &config()));

    assert_eq!(at(&response, "isError"), &JsonValue::Bool(true));
    assert_eq!(tool_text(&response), "path is required");
}

#[test]
fn read_file_returns_error_when_path_is_relative() {
    let arguments = object(vec![("path", text("relative/path.txt"))]);

    let response = done(read_file(&arguments, &config()));

    assert_eq!(at(&response, "isError"), &JsonValue::Bool(true));
    assert_eq!(tool_text(&response), "Path must be absolute");
}

#[test]
fn write_file_returns_error_when_missing_args() {
    let arguments = object(vec![("path", text("/tmp/test.txt"))]);

    let response = done(write_file(&arguments, &config()));

    assert_eq!(at(&response, "isError"), &JsonValue::Bool(true));
    assert_eq!(tool_text(&response), "contents is required");
}

#[test]
fn read_file_inside_a_readable_root_goes_ahead() {
    let config = PathConfig::from_settings(None, Some("/tmp".to_string()), Some("/tmp".to_string()));
    let arguments = object(vec![("path", text("/tmp/some_file.txt"))]);

    match read_file(&arguments, &config) {
        ToolStep::ReadFile(p) => assert_eq!(p, "/tmp/some_file.txt"),
        _ => panic!("expected the read to go ahead"),
    }
}

#[test]
fn read_file_outside_the_readable_roots_is_refused() {
    let config = PathConfig::from_settings(None, Some("/tmp".to_string()), None);
    let arguments = object(vec![("path", text("/etc/hostname"))]);

    let response = done(read_file(&arguments, &config));

    assert_eq!(tool_text(&response), "refusing to read outside allowed roots: /etc/hostname");
}

#[test]
fn read_file_with_a_missing_root_reports_it() {
    let config = PathConfig::from_settings(None, Some("/definitely/missing".to_string()), None);
    let arguments = object(vec![("path", text("/tmp/x.txt"))]);

    let response = done(read_file(&arguments, &config));

    assert!(tool_text(&response).starts_with("failed to canonicalize root /definitely/missing: "));
}

#[test]
fn write_file_on_a_directory_is_refused() {
    let config = PathConfig::from_settings(None, None, Some("/".to_string()));
    let arguments = object(vec![("path", text("/tmp")), ("contents", text("x"))]);

    let response = done(write_file(&arguments, &config));

    assert_eq!(tool_text(&response), "refusing to write because path is a directory");
}

#[test]
fn write_file_inside_a_writable_root_goes_ahead() {
    let config = PathConfig::from_settings(None, None, Some("/tmp".to_string()));
    let arguments = object(vec![("path", text("/tmp/out.txt")), ("contents", text("hello"))]);

    match write_file(&arguments, &config) {
        ToolStep::WriteFile(p, c) => {
            assert_eq!(p, "/tmp/out.txt");
            assert_eq!(c, "hello");
        }
        _ => panic!("expected the write to go ahead"),
    }
}

#[test]
fn admission_decision_covers_every_answer() {
    let ok = |b: bool| Ok::<bool, String>(b);
    assert_eq!(admission_decision("/p", Access::Read, ok(true), ok(true), false, ok(true)), None);
    assert_eq!(
        admission_decision("/p", Access::Read, Err("boom".to_string()), ok(true), false, ok(true)),
        Some(tool_error_result("boom".to_string()))
    );
    assert_eq!(
        admission_decision("/p", Access::Write, ok(true), Err("bang".to_string()), false, ok(true)),
        Some(tool_error_result("bang".to_string()))
    );
    assert_eq!(
        admission_decision("/p", Access::Write, ok(true), ok(false), false, ok(true)),
        Some(tool_error_result("refusing to write outside allowed roots: /p".to_string()))
    );
    assert_eq!(
        admission_decision("/p", Access::Read, ok(true), ok(true), true, ok(true)),
        Some(tool_error_result("refusing to read because path is a directory".to_string()))
    );
    assert_eq!(
        admission_decision("/p", Access::Write, ok(true), ok(true), false, ok(false)),
        Some(tool_error_result("refusing to write outside allowed roots: /p".to_string()))
    );
    assert_eq!(
        admission_decision("/p", Access::Read, ok(true), ok(true), false, Err("lost".to_string())),
        Some(tool_error_result("lost".to_string()))
    );
}

#[test]
fn check_root_decides_one_root() {
    let b = |s: &str| s.as_bytes().to_vec();
    assert_eq!(check_root(&b("/tmp/a"), "/tmp", Ok(b("/tmp"))), Some(Ok(true)));
    assert_eq!(check_root(&b("/tmp"), "/tmp", Ok(b("/tmp"))), Some(Ok(true)));
    assert_eq!(check_root(&b("/tmpx/a"), "/tmp", Ok(b("/tmp"))), None);
    assert_eq!(check_root(&b("/etc/passwd"), "/tmp", Ok(b("/tmp"))), None);
    assert_eq!(
        check_root(&b("/tmp/a"), "r", Err("gone".to_string())),
        Some(Err("failed to canonicalize root r: gone".to_string()))
    );
}

#[test]
fn starts_with_components_compares_whole_components() {
    let b = |s: &str| s.as_bytes().to_vec();
    assert!(starts_with_components(&b("/a/b/c"), &b("/a/b")));
    assert!(starts_with_components(&b("/a//b/./c"), &b("/a/b/")));
    assert!(starts_with_components(&b("/a"), &b("/")));
    assert!(!starts_with_components(&b("/ab/c"), &b("/a")));
    assert!(!starts_with_components(&b("/a"), &b("/a/b")));
    assert!(!starts_with_components(&b("a/b"), &b("/a")));
    assert!(!starts_with_components(&b("/allowed/../etc"), &b("/allowed/x")));
    assert!(starts_with_components(&b("a/b"), &b("a")));
}

#[test]
fn parts_of_drops_empty_and_dot_components() {
    let b = |s: &str| s.as_bytes().to_vec();
    assert_eq!(parts_of(&b("/a//b/./c/")), vec![b("a"), b("b"), b("c")]);
    assert_eq!(parts_of(&b("/")), Vec::<Vec<u8>>::new());
    assert_eq!(parts_of(&b("x/../y")), vec![b("x"), b(".."), b("y")]);
    assert!(same_bytes(&b("/x"), &b("/x")));
    assert!(!same_bytes(&b("/x"), &b("/y")));
    assert!(!same_bytes(&b("/x"), &b("/x/")));
}

#[test]
fn is_allowed_compares_canonical_parents() {
    let config = PathConfig::from_settings(None, Some("/tmp".to_string()), None);
    assert_eq!(config.is_readable("/tmp/../etc/passwd"), Ok(false));
    assert_eq!(config.is_readable("/tmp/./x"), Ok(true));
    assert!(config.is_readable("/tmp/no/such/dir/x").unwrap_err().starts_with("failed to canonicalize parent: "));
}

#[test]
fn target_within_resolves_the_file_itself() {
    let tmp = vec!["/tmp".to_string()];
    assert_eq!(target_within("/tmp", &tmp), Ok(true));
    assert_eq!(target_within("/tmp/../etc", &tmp), Ok(false));
    assert_eq!(target_within("/tmp/does_not_exist_here.txt", &tmp), Ok(true));
    let etc = vec!["/etc".to_string()];
    assert_eq!(target_within("/tmp", &etc), Ok(false));
    let missing = vec!["/definitely/missing".to_string()];
    assert!(target_within("/tmp", &missing).unwrap_err().starts_with("failed to canonicalize root /definitely/missing: "));
}

#[test]
fn scan_roots_tries_roots_in_order() {
    let target = b"/tmp/x".to_vec();
    let bad_first = vec!["/definitely/missing".to_string(), "/tmp".to_string()];
    assert!(scan_roots(&target, &bad_first).unwrap_err().starts_with("failed to canonicalize root /definitely/missing: "));
    let good_first = vec!["/tmp".to_string(), "/definitely/missing".to_string()];
    assert_eq!(scan_roots(&target, &good_first), Ok(true));
    assert_eq!(scan_roots(&target, &vec!["/etc".to_string()]), Ok(false));
    assert_eq!(scan_roots(&target, &vec![]), Ok(false));
}

#[test]
fn path_is_absolute_means_a_leading_slash() {
    assert!(path_is_absolute("/x"));
    assert!(!path_is_absolute("x/y"));
    assert!(!path_is_absolute(""));
}

#[test]
fn is_readable_checks_the_readable_roots() {
    let config = PathConfig::from_settings(None, Some("/usr, /tmp".to_string()), Some("/usr".to_string()));

    assert_eq!(config.is_readable("/tmp/file.txt"), Ok(true));
    assert_eq!(config.is_writable("/tmp/file.txt"), Ok(false));
    assert_eq!(config.is_readable("/"), Err("path must have a parent directory".to_string()));
}

#[test]
fn parse_paths_splits_trims_and_drops_empty_pieces() {
    assert_eq!(parse_paths(" /a , /b/c,,\t/d\u{a0} ,"), vec!["/a", "/b/c", "/d"]);
    assert_eq!(parse_paths(""), Vec::<String>::new());
    assert_eq!(parse_paths("/only"), vec!["/only"]);
}

#[test]
fn from_settings_defaults_follow_the_base_path() {
    let config = PathConfig::from_settings(None, None, None);
    assert_eq!(config.base_path, "/home/user");
    assert_eq!(config.readable_roots, vec!["/home/user/readable"]);
    assert_eq!(config.writable_roots, vec!["/home/user/writable"]);

    let config = PathConfig::from_settings(Some("/srv".to_string()), None, Some("/w1,/w2".to_string()));
    assert_eq!(config.readable_roots, vec!["/srv/readable"]);
    assert_eq!(config.writable_roots, vec!["/w1", "/w2"]);
}

#[test]
fn list_directory_needs_a_path() {
    let response = done(list_directory(&object(vec![("path", JsonValue::Number(JsonNumber::PosInt(1)))])));
    assert_eq!(tool_text(&response), "path is required");

    match list_directory(&object(vec![("path", text("/anywhere"))])) {
        ToolStep::ListDirectory(p) => assert_eq!(p, "/anywhere"),
        _ => panic!("expected a listing"),
    }
}

#[test]
fn file_results_are_worded_as_before() {
    assert_eq!(
        list_directory_result(Ok(vec!["a.txt".to_string(), "b".to_string()])),
        tool_text_result("a.txt\nb\n".to_string())
    );
    assert_eq!(
        list_directory_result(Err("denied".to_string())),
        tool_error_result("failed to list directory: denied".to_string())
    );
    assert_eq!(read_file_result(Ok("body".to_string())), tool_text_result("body".to_string()));
    assert_eq!(
        read_file_result(Err("gone".to_string())),
        tool_error_result("failed to read file: gone".to_string())
    );
    assert_eq!(
        write_file_result("/tmp/x", "héllo", Ok(())),
        tool_text_result("wrote 6 bytes to /tmp/x".to_string())
    );
    assert_eq!(
        write_file_result("/tmp/x", "", Err("full".to_string())),
        tool_error_result("failed to write file: full".to_string())
    );
}

#[test]
fn parent_answer_words_the_failure() {
    assert_eq!(parent_answer(Ok(b"/tmp".to_vec())), Ok(b"/tmp".to_vec()));
    assert_eq!(
        parent_answer(Err("gone".to_string())),
        Err("failed to canonicalize the parent directory: gone".to_string())
    );
}

#[test]
fn read_file_through_a_link_that_leaves_the_roots_is_refused() {
    let config = PathConfig::from_settings(None, Some("/proc".to_string()), None);
    assert_eq!(config.is_readable("/proc/self/exe"), Ok(true));
    assert_eq!(target_within("/proc/self/exe", &config.readable_roots), Ok(false));
    let arguments = object(vec![("path", text("/proc/self/exe"))]);

    let response = done(read_file(&arguments, &config));

    assert_eq!(at(&response, "isError"), &JsonValue::Bool(true));
    assert_eq!(tool_text(&response), "refusing to read outside allowed roots: /proc/self/exe");
}

#[test]
fn is_allowed_tries_roots_in_order() {
    let config = config();
    let bad_first = vec!["/definitely/missing".to_string(), "/tmp".to_string()];
    assert!(config
        .is_allowed("/tmp/x.txt", &bad_first)
        .unwrap_err()
        .starts_with("failed to canonicalize root /definitely/missing: "));
    let good_first = vec!["/tmp".to_string(), "/definitely/missing".to_string()];
    assert_eq!(config.is_allowed("/tmp/x.txt", &good_first), Ok(true));
    let misses = vec!["/etc".to_string(), "/usr".to_string()];
    assert_eq!(config.is_allowed("/tmp/x.txt", &misses), Ok(false));
}
