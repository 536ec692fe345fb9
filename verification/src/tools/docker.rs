//! Tools that look at the Docker environment.
use vstd::prelude::*;

use crate::json::{Json, JsonValue};
use crate::tools::common::{CommandPlan, PlanModel};
use crate::tools::system::plan;

verus! {

/// Whether to include everything (`-a`): the `all` argument, `false` where
/// it is absent or not a boolean.
pub open spec fn all_flag(arguments: Json) -> bool {
    match arguments.at("all"@).as_bool() {
        Some(b) => b,
        None => false,
    }
}

pub open spec fn docker_plan(arguments: Json, command: Seq<char>, failure: Seq<char>) -> PlanModel {
    PlanModel {
        program: "docker"@,
        args: if all_flag(arguments) { seq![command, "-a"@] } else { seq![command] },
        failure,
        line_limit: None,
    }
}

/// The Docker listings add `-a` exactly when `all` is `true`: the program is
/// `docker`, its first argument the listing command, followed by `-a` where
/// `all` is the boolean `true`, and by nothing otherwise.
pub proof fn law_docker_all_flag(arguments: Json, command: Seq<char>, failure: Seq<char>)
    ensures
        docker_plan(arguments, command, failure).program == "docker"@,
        docker_plan(arguments, command, failure).failure == failure,
        arguments.at("all"@).as_bool() == Some(true) ==> docker_plan(arguments, command, failure).args
            == seq![command, "-a"@],
        arguments.at("all"@).as_bool() != Some(true) ==> docker_plan(arguments, command, failure).args
            == seq![command],
{
}

fn docker_listing(arguments: &JsonValue, command: &str, failure: &str) -> (r: CommandPlan)
    ensures
        r@ == docker_plan(arguments@, command@, failure@),
{
    let include_all = match arguments.bool_at("all") {
        Some(b) => b,
        None => false,
    };
    let mut args: Vec<String> = vec![String::from_str(command)];
    if include_all {
        args.push(String::from_str("-a"));
    }
    let r = plan("docker", args, failure, None);
    assert(r@.args =~= docker_plan(arguments@, command@, failure@).args);
    r
}

/// Containers: `docker ps`, with `-a` when `all` is `true`.
pub fn list_containers(arguments: &JsonValue) -> (r: CommandPlan)
    ensures
        r@ == docker_plan(arguments@, "ps"@, "failed to list docker containers"@),
{
    docker_listing(arguments, "ps", "failed to list docker containers")
}

/// Images: `docker images`, with `-a` when `all` is `true`.
pub fn list_docker_images(arguments: &JsonValue) -> (r: CommandPlan)
    ensures
        r@ == docker_plan(arguments@, "images"@, "failed to list Docker images"@),
{
    docker_listing(arguments, "images", "failed to list Docker images")
}

} // verus!
