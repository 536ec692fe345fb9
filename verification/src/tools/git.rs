//! Tools that inspect a git repository.
use vstd::prelude::*;

use crate::json::{Json, JsonValue};
use crate::text::{decimal, decimal_text};
use crate::tools::common::{CommandPlan, PlanModel};
use crate::tools::system::plan;

verus! {

/// The `path` argument, which the status and diff tools cannot do without.
pub open spec fn path_argument(arguments: Json) -> Option<Seq<char>> {
    arguments.at("path"@).as_text()
}

/// The repository for the log and branch tools: the `path` argument, else
/// `/home/jarom/GitHub`.
pub open spec fn repository(arguments: Json) -> Seq<char> {
    match path_argument(arguments) {
        Some(p) => p,
        None => "/home/jarom/GitHub"@,
    }
}

/// How many commits the log tool shows: `limit`, else 5.
pub open spec fn log_limit(arguments: Json) -> u64 {
    match arguments.at("limit"@).as_u64() {
        Some(n) => n,
        None => 5,
    }
}

/// The log and branch tools look at the repository that `path` names, and at
/// `/home/jarom/GitHub` where `path` is absent or not a string; the log shows
/// as many commits as `limit` asks when it is a non-negative integer, else 5.
pub proof fn law_git_arguments(arguments: Json)
    ensures
        arguments.at("path"@).as_text() is Some ==> repository(arguments) == arguments.at(
            "path"@,
        ).as_text()->0,
        arguments.at("path"@).as_text() is None ==> repository(arguments) == "/home/jarom/GitHub"@,
        arguments.at("limit"@).as_u64() is Some ==> log_limit(arguments) == arguments.at(
            "limit"@,
        ).as_u64()->0,
        arguments.at("limit"@).as_u64() is None ==> log_limit(arguments) == 5,
{
}

pub open spec fn git_plan(args: Seq<Seq<char>>, failure: Seq<char>) -> PlanModel {
    PlanModel { program: "git"@, args, failure, line_limit: None }
}

fn path_of(arguments: &JsonValue) -> (r: String)
    requires
        path_argument(arguments@) is Some,
    ensures
        r@ == path_argument(arguments@)->0,
{
    match arguments.text_at("path") {
        Some(p) => p.clone(),
        None => String::new(),
    }
}

fn repository_of(arguments: &JsonValue) -> (r: String)
    ensures
        r@ == repository(arguments@),
{
    match arguments.text_at("path") {
        Some(p) => p.clone(),
        None => String::from_str("/home/jarom/GitHub"),
    }
}

/// Status of the repository at `path`: `git -C <path> status`.
pub fn git_status(arguments: &JsonValue) -> (r: CommandPlan)
    requires
        path_argument(arguments@) is Some,
    ensures
        r@ == git_plan(
            seq!["-C"@, path_argument(arguments@)->0, "status"@],
            "failed to check git status at specified path"@,
        ),
{
    let path = path_of(arguments);
    let r = plan(
        "git",
        vec![String::from_str("-C"), path, String::from_str("status")],
        "failed to check git status at specified path",
        None,
    );
    assert(r@.args =~= seq!["-C"@, path_argument(arguments@)->0, "status"@]);
    r
}

/// Unstaged changes of the repository at `path`: `git -C <path> diff`.
pub fn git_diff(arguments: &JsonValue) -> (r: CommandPlan)
    requires
        path_argument(arguments@) is Some,
    ensures
        r@ == git_plan(
            seq!["-C"@, path_argument(arguments@)->0, "diff"@],
            "failed to check git diff at repository"@,
        ),
{
    let path = path_of(arguments);
    let r = plan(
        "git",
        vec![String::from_str("-C"), path, String::from_str("diff")],
        "failed to check git diff at repository",
        None,
    );
    assert(r@.args =~= seq!["-C"@, path_argument(arguments@)->0, "diff"@]);
    r
}

/// Unstaged changes of one file: `git diff -- <path>`.
pub fn git_diff_file(arguments: &JsonValue) -> (r: CommandPlan)
    requires
        path_argument(arguments@) is Some,
    ensures
        r@ == git_plan(
            seq!["diff"@, "--"@, path_argument(arguments@)->0],
            "failed to check git diff at file path"@,
        ),
{
    let path = path_of(arguments);
    let r = plan(
        "git",
        vec![String::from_str("diff"), String::from_str("--"), path],
        "failed to check git diff at file path",
        None,
    );
    assert(r@.args =~= seq!["diff"@, "--"@, path_argument(arguments@)->0]);
    r
}

/// Recent commits: `git -C <repository> log -n <limit>`.
pub fn git_log(arguments: &JsonValue) -> (r: CommandPlan)
    ensures
        r@ == git_plan(
            seq![
                "-C"@,
                repository(arguments@),
                "log"@,
                "-n"@,
                decimal(log_limit(arguments@) as nat),
            ],
            "failed to display git commit logs"@,
        ),
{
    let repo = repository_of(arguments);
    let limit = match arguments.u64_at("limit") {
        Some(n) => n,
        None => 5,
    };
    let r = plan(
        "git",
        vec![
            String::from_str("-C"),
            repo,
            String::from_str("log"),
            String::from_str("-n"),
            decimal_text(limit),
        ],
        "failed to display git commit logs",
        None,
    );
    assert(r@.args =~= seq![
        "-C"@,
        repository(arguments@),
        "log"@,
        "-n"@,
        decimal(log_limit(arguments@) as nat),
    ]);
    r
}

/// Branches: `git -C <repository> branch`.
pub fn git_branch(arguments: &JsonValue) -> (r: CommandPlan)
    ensures
        r@ == git_plan(
            seq!["-C"@, repository(arguments@), "branch"@],
            "failed to display current git branch"@,
        ),
{
    let repo = repository_of(arguments);
    let r = plan(
        "git",
        vec![String::from_str("-C"), repo, String::from_str("branch")],
        "failed to display current git branch",
        None,
    );
    assert(r@.args =~= seq!["-C"@, repository(arguments@), "branch"@]);
    r
}

} // verus!
