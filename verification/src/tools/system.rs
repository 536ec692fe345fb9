//! Tools that report on the host: disk usage, the CPU, running processes.
use vstd::prelude::*;

use crate::json::{Json, JsonValue};
use crate::tools::common::{CommandPlan, PlanModel};

verus! {

/// A plan with no line limit, from literal parts.
pub(crate) fn plan(program: &str, args: Vec<String>, failure: &str, line_limit: Option<u64>) -> (r:
    CommandPlan)
    ensures
        r.program@ == program@,
        r.args == args,
        r.failure@ == failure@,
        r.line_limit == line_limit,
{
    CommandPlan {
        program: String::from_str(program),
        args,
        failure: String::from_str(failure),
        line_limit,
    }
}

/// Whether `df` should print sizes in human-readable form: the
/// `human_readable` argument, `true` where it is absent or not a boolean.
pub open spec fn human_readable_flag(arguments: Json) -> bool {
    match arguments.at("human_readable"@).as_bool() {
        Some(b) => b,
        None => true,
    }
}

pub open spec fn disk_usage_plan(arguments: Json) -> PlanModel {
    PlanModel {
        program: "df"@,
        args: if human_readable_flag(arguments) { seq!["-h"@] } else { Seq::empty() },
        failure: "failed to run command to determine disk usage"@,
        line_limit: None,
    }
}

/// `df` gets `-h` exactly when human-readable sizes are asked for: where
/// `human_readable` is the boolean `b`, the arguments are `["-h"]` when `b`
/// holds and none otherwise; where it is absent or not a boolean, `["-h"]`.
pub proof fn law_disk_usage_follows_the_flag(arguments: Json)
    ensures
        disk_usage_plan(arguments).program == "df"@,
        arguments.at("human_readable"@).as_bool() is Some ==> {
            let b = arguments.at("human_readable"@).as_bool()->0;
            &&& (disk_usage_plan(arguments).args == seq!["-h"@]) <==> b
            &&& (disk_usage_plan(arguments).args == Seq::<Seq<char>>::empty()) <==> !b
        },
        arguments.at("human_readable"@).as_bool() is None ==> disk_usage_plan(arguments).args == seq![
            "-h"@,
        ],
{
    let h: Seq<Seq<char>> = seq!["-h"@];
    assert(h.len() == 1);
    assert(h != Seq::<Seq<char>>::empty());
}

/// Disk usage: `df`, with `-h` unless `human_readable` is `false`.
pub fn disk_usage(arguments: &JsonValue) -> (r: CommandPlan)
    ensures
        r@ == disk_usage_plan(arguments@),
{
    let human_readable = match arguments.bool_at("human_readable") {
        Some(b) => b,
        None => true,
    };
    let mut args: Vec<String> = Vec::new();
    if human_readable {
        args.push(String::from_str("-h"));
    }
    let r = plan("df", args, "failed to run command to determine disk usage", None);
    assert(r@.args =~= disk_usage_plan(arguments@).args);
    r
}

pub open spec fn cpu_information_plan() -> PlanModel {
    PlanModel {
        program: "lscpu"@,
        args: Seq::empty(),
        failure: "failed to gather cpu information"@,
        line_limit: None,
    }
}

/// CPU information: `lscpu`.
pub fn cpu_information() -> (r: CommandPlan)
    ensures
        r@ == cpu_information_plan(),
{
    let r = plan("lscpu", Vec::new(), "failed to gather cpu information", None);
    assert(r@.args =~= cpu_information_plan().args);
    r
}

/// How many lines of `ps aux` to keep: the `limit` argument, 25 where it is
/// absent or not a non-negative integer.
pub open spec fn process_limit(arguments: Json) -> u64 {
    match arguments.at("limit"@).as_u64() {
        Some(n) => n,
        None => 25,
    }
}

pub open spec fn active_processes_plan(arguments: Json) -> PlanModel {
    PlanModel {
        program: "ps"@,
        args: seq!["aux"@],
        failure: "failed to determine active processes"@,
        line_limit: Some(process_limit(arguments)),
    }
}

/// The process listing keeps exactly as many lines as asked: where `limit` is
/// a non-negative integer `n`, the plan is `ps aux` cut to `n` lines, and where
/// it is absent or anything else, to 25 lines.
pub proof fn law_process_listing_keeps_the_limit(arguments: Json)
    ensures
        active_processes_plan(arguments).program == "ps"@,
        active_processes_plan(arguments).args == seq!["aux"@],
        arguments.at("limit"@).as_u64() is Some ==> active_processes_plan(arguments).line_limit
            == arguments.at("limit"@).as_u64(),
        arguments.at("limit"@).as_u64() is None ==> active_processes_plan(arguments).line_limit == Some(
            25u64,
        ),
{
}

/// Running processes: `ps aux`, its output cut to `limit` lines (25 by default).
pub fn active_processes(arguments: &JsonValue) -> (r: CommandPlan)
    ensures
        r@ == active_processes_plan(arguments@),
{
    let limit = match arguments.u64_at("limit") {
        Some(n) => n,
        None => 25,
    };
    let r = plan(
        "ps",
        vec![String::from_str("aux")],
        "failed to determine active processes",
        Some(limit),
    );
    assert(r@.args =~= active_processes_plan(arguments@).args);
    r
}

} // verus!
