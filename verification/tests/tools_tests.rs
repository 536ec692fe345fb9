use mcp_arch::json::{JsonNumber, JsonValue};
use mcp_arch::text::decimal_text;
use mcp_arch::tools::docker::{list_containers, list_docker_images};
use mcp_arch::tools::git::{git_branch, git_diff, git_diff_file, git_log, git_status};
use mcp_arch::tools::system::{active_processes, cpu_information, disk_usage};

fn text(s: &str) -> JsonValue {
    JsonValue::String(s.to_string())
}

fn object(entries: Vec<(&str, JsonValue)>) -> JsonValue {
    JsonValue::Object(entries.into_iter().map(|(k, v)| (k.to_string(), v)).collect())
}

#[test]
fn disk_usage_defaults_to_human_readable() {
    let plan = disk_usage(&object(vec![]));
    assert_eq!(plan.program, "df");
    assert_eq!(plan.args, vec!["-h"]);

    let plan = disk_usage(&object(vec![("human_readable", JsonValue::Bool(false))]));
    assert!(plan.args.is_empty());
    assert_eq!(plan.failure, "failed to run command to determine disk usage");
}

#[test]
fn cpu_information_runs_lscpu() {
    let plan = cpu_information();
    assert_eq!(plan.program, "lscpu");
    assert!(plan.args.is_empty());
    assert_eq!(plan.failure, "failed to gather cpu information");
}

#[test]
fn active_processes_limit_defaults_to_25() {
    let plan = active_processes(&object(vec![]));
    assert_eq!(plan.program, "ps");
    assert_eq!(plan.args, vec!["aux"]);
    assert_eq!(plan.line_limit, Some(25));

    let plan = active_processes(&object(vec![("limit", JsonValue::Number(JsonNumber::PosInt(5)))]));
    assert_eq!(plan.line_limit, Some(5));

    let plan = active_processes(&object(vec![("limit", JsonValue::Number(JsonNumber::NegInt(-5)))]));
    assert_eq!(plan.line_limit, Some(25));
}

#[test]
fn docker_listings_add_all_flag_on_request() {
    let plan = list_containers(&object(vec![]));
    assert_eq!((plan.program.as_str(), plan.args.clone()), ("docker", vec!["ps".to_string()]));

    let plan = list_containers(&object(vec![("all", JsonValue::Bool(true))]));
    assert_eq!(plan.args, vec!["ps", "-a"]);
    assert_eq!(plan.failure, "failed to list docker containers");

    let plan = list_docker_images(&object(vec![("all", JsonValue::Bool(true))]));
    assert_eq!(plan.args, vec!["images", "-a"]);
    assert_eq!(plan.failure, "failed to list Docker images");
}

#[test]
fn git_commands_name_the_repository() {
    let args = object(vec![("path", text("/repo"))]);
    assert_eq!(git_status(&args).args, vec!["-C", "/repo", "status"]);
    assert_eq!(git_diff(&args).args, vec!["-C", "/repo", "diff"]);
    assert_eq!(git_diff_file(&args).args, vec!["diff", "--", "/repo"]);
    assert_eq!(git_branch(&args).args, vec!["-C", "/repo", "branch"]);
    assert_eq!(git_log(&args).args, vec!["-C", "/repo", "log", "-n", "5"]);
}

#[test]
fn git_log_and_branch_fall_back_to_the_default_repository() {
    let args = object(vec![("limit", JsonValue::Number(JsonNumber::PosInt(1)))]);
    assert_eq!(git_log(&args).args, vec!["-C", "/home/jarom/GitHub", "log", "-n", "1"]);
    assert_eq!(git_branch(&object(vec![])).args, vec!["-C", "/home/jarom/GitHub", "branch"]);
}

#[test]
fn decimal_text_writes_numbers_in_base_ten() {
    assert_eq!(decimal_text(0), "0");
    assert_eq!(decimal_text(7), "7");
    assert_eq!(decimal_text(10), "10");
    assert_eq!(decimal_text(18446744073709551615), "18446744073709551615");
}
