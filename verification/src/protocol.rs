//! The JSON-RPC side of the server: request validation, the response
//! envelopes, the `initialize`, `tools/list` and `tools/call` methods, and
//! the handling of one incoming message.
use vstd::prelude::*;

use crate::config::path::{answers_for, views_of, PathConfig};
use crate::json::{lookup, same_text, Json, JsonNumber, JsonValue, NumberModel, number_model};
use crate::tools::common::{
    allowed_roots_description, error_result, roots_description, tool_error_result, StepModel,
    ToolStep,
};
use crate::tools::docker::{docker_plan, list_containers, list_docker_images};
use crate::config::path::{lemma_access_errors_start, lemma_target_errors_start};
use crate::tools::common::lemma_error_result_injective;
use crate::tools::filesystem::{
    admission, admission_answers, list_directory, list_directory_step, read_file, read_step, verb, write_file,
    write_step, Access,
};
use crate::tools::git::{
    git_branch, git_diff, git_diff_file, git_log, git_plan, git_status, log_limit, path_argument,
    repository,
};
use crate::tools::system::{
    active_processes, active_processes_plan, cpu_information, cpu_information_plan, disk_usage,
    disk_usage_plan,
};
use crate::text::decimal;

verus! {

// ---------------------------------------------------------------------------
// Envelopes.
// ---------------------------------------------------------------------------

/// The id of a request: its `id` member when that is a string or a number;
/// anything else (absent, `null`, ...) marks a notification or an invalid
/// request.
pub open spec fn request_id(msg: Json) -> Option<Json> {
    match msg.get("id"@) {
        Some(Json::Str(s)) => Some(Json::Str(s)),
        Some(Json::Number(n)) => Some(Json::Number(n)),
        _ => None,
    }
}

fn copy_number(n: &JsonNumber) -> (r: JsonNumber)
    ensures
        number_model(&r) == number_model(n),
{
    match n {
        JsonNumber::PosInt(u) => JsonNumber::PosInt(*u),
        JsonNumber::NegInt(i) => JsonNumber::NegInt(*i),
        JsonNumber::Decimal(s) => JsonNumber::Decimal(s.clone()),
    }
}

/// The request's id when it is usable (a string or a number).
pub fn validate_request_id_type(msg: &JsonValue) -> (r: Option<JsonValue>)
    ensures
        match r {
            Some(v) => request_id(msg@) == Some(v@),
            None => request_id(msg@) is None,
        },
{
    match msg.get("id") {
        Some(JsonValue::String(s)) => Some(JsonValue::String(s.clone())),
        Some(JsonValue::Number(n)) => Some(JsonValue::Number(copy_number(n))),
        _ => None,
    }
}

/// A successful JSON-RPC response.
pub open spec fn rpc_result(id: Json, result: Json) -> Json {
    Json::Object(seq![("jsonrpc"@, Json::Str("2.0"@)), ("id"@, id), ("result"@, result)])
}

/// A JSON integer.
pub open spec fn integer(n: i64) -> Json {
    if n >= 0 {
        Json::Number(NumberModel::PosInt(n as u64))
    } else {
        Json::Number(NumberModel::NegInt(n))
    }
}

/// A JSON-RPC error response.
pub open spec fn rpc_error(id: Json, code: i64, message: Seq<char>) -> Json {
    Json::Object(
        seq![
            ("jsonrpc"@, Json::Str("2.0"@)),
            ("id"@, id),
            ("error"@, Json::Object(seq![("code"@, integer(code)), ("message"@, Json::Str(message))])),
        ],
    )
}

/// Wraps `result` in a JSON-RPC response to the request `id`.
pub fn json_rpc_result(id: JsonValue, result: JsonValue) -> (r: JsonValue)
    ensures
        r@ == rpc_result(id@, result@),
{
    JsonValue::object3("jsonrpc", JsonValue::text("2.0"), "id", id, "result", result)
}

fn integer_value(n: i64) -> (r: JsonValue)
    ensures
        r@ == integer(n),
{
    if n >= 0 {
        JsonValue::Number(JsonNumber::PosInt(n as u64))
    } else {
        JsonValue::Number(JsonNumber::NegInt(n))
    }
}

/// A JSON-RPC error response to the request `id`.
pub fn json_rpc_error(id: JsonValue, code: i64, message: &str) -> (r: JsonValue)
    ensures
        r@ == rpc_error(id@, code, message@),
{
    let error = JsonValue::object2("code", integer_value(code), "message", JsonValue::text(message));
    JsonValue::object3("jsonrpc", JsonValue::text("2.0"), "id", id, "error", error)
}

/// A tool result that reports `message` as an error.
pub fn tool_error(message: &str) -> (r: JsonValue)
    ensures
        r@ == error_result(message@),
{
    tool_error_result(String::from_str(message))
}

/// The JSON-RPC envelopes: a result response carries `jsonrpc: "2.0"`, the
/// request's id and the result, and no `error`; an error response carries
/// `jsonrpc: "2.0"`, the id and an `error` with the code and message, and no
/// `result`.
pub proof fn law_envelopes(id: Json, result: Json, code: i64, message: Seq<char>)
    ensures
        rpc_result(id, result).at("jsonrpc"@) == Json::Str("2.0"@),
        rpc_result(id, result).at("id"@) == id,
        rpc_result(id, result).at("result"@) == result,
        rpc_result(id, result).get("error"@) is None,
        rpc_error(id, code, message).at("jsonrpc"@) == Json::Str("2.0"@),
        rpc_error(id, code, message).at("id"@) == id,
        rpc_error(id, code, message).at("error"@).at("code"@) == integer(code),
        rpc_error(id, code, message).at("error"@).at("message"@) == Json::Str(message),
        rpc_error(id, code, message).get("result"@) is None,
{
    reveal_with_fuel(lookup, 4);
    reveal_strlit("jsonrpc");
    reveal_strlit("id");
    reveal_strlit("result");
    reveal_strlit("error");
    reveal_strlit("code");
    reveal_strlit("message");
    assert("jsonrpc"@[0] != "id"@[0]);
    assert("jsonrpc"@[0] != "result"@[0]);
    assert("jsonrpc"@[0] != "error"@[0]);
    assert("id"@[0] != "result"@[0]);
    assert("id"@[0] != "error"@[0]);
    assert("result"@[0] != "error"@[0]);
    assert("code"@[0] != "message"@[0]);
    let r = seq![("jsonrpc"@, Json::Str("2.0"@)), ("id"@, id), ("result"@, result)];
    assert(r.drop_first() =~= seq![("id"@, id), ("result"@, result)]);
    assert(r.drop_first().drop_first() =~= seq![("result"@, result)]);
    let err = Json::Object(seq![("code"@, integer(code)), ("message"@, Json::Str(message))]);
    let e = seq![("jsonrpc"@, Json::Str("2.0"@)), ("id"@, id), ("error"@, err)];
    assert(e.drop_first() =~= seq![("id"@, id), ("error"@, err)]);
    assert(e.drop_first().drop_first() =~= seq![("error"@, err)]);
    let ce = seq![("code"@, integer(code)), ("message"@, Json::Str(message))];
    assert(ce.drop_first() =~= seq![("message"@, Json::Str(message))]);
}

/// A usable request id is the message's own `id` member, and it is usable
/// exactly when it is a string or a number.
pub proof fn law_request_id(msg: Json)
    ensures
        request_id(msg) matches Some(v) ==> msg.get("id"@) == Some(v),
        request_id(msg) is Some <==> (msg.get("id"@) matches Some(v) && (v is Str || v is Number)),
{
}

// ---------------------------------------------------------------------------
// initialize
// ---------------------------------------------------------------------------

/// The answer to `initialize`: the protocol version, the tool capability and
/// who the server is.
pub open spec fn initialize_doc() -> Json {
    Json::Object(
        seq![
            ("protocolVersion"@, Json::Str("2025-06-18"@)),
            ("capabilities"@, Json::Object(seq![("tools"@, Json::Object(Seq::empty()))])),
            (
                "serverInfo"@,
                Json::Object(
                    seq![("name"@, Json::Str("mcp-arch-linux"@)), ("version"@, Json::Str("0.1.0"@))],
                ),
            ),
        ],
    )
}

/// The answer to `initialize`.
pub fn handle_initialize() -> (r: JsonValue)
    ensures
        r@ == initialize_doc(),
{
    JsonValue::object3(
        "protocolVersion",
        JsonValue::text("2025-06-18"),
        "capabilities",
        JsonValue::object1("tools", JsonValue::object0()),
        "serverInfo",
        JsonValue::object2(
            "name",
            JsonValue::text("mcp-arch-linux"),
            "version",
            JsonValue::text("0.1.0"),
        ),
    )
}

// ---------------------------------------------------------------------------
// tools/list
// ---------------------------------------------------------------------------

/// A property of a tool's input: its JSON type and what it means.
pub open spec fn property(kind: Seq<char>, description: Seq<char>) -> Json {
    Json::Object(seq![("type"@, Json::Str(kind)), ("description"@, Json::Str(description))])
}

/// The list of required inputs: `path`, or none.
pub open spec fn required(path_required: bool) -> Json {
    if path_required {
        Json::Array(seq![Json::Str("path"@)])
    } else {
        Json::Array(Seq::empty())
    }
}

/// A tool as listed: name, description, and an object schema of its inputs.
pub open spec fn tool(name: Seq<char>, description: Seq<char>, properties: Json, path_required: bool) -> Json {
    Json::Object(
        seq![
            ("name"@, Json::Str(name)),
            ("description"@, Json::Str(description)),
            (
                "inputSchema"@,
                Json::Object(
                    seq![
                        ("type"@, Json::Str("object"@)),
                        ("properties"@, properties),
                        ("required"@, required(path_required)),
                    ],
                ),
            ),
        ],
    )
}

pub open spec fn one_property(name: Seq<char>, kind: Seq<char>, description: Seq<char>) -> Json {
    Json::Object(seq![(name, property(kind, description))])
}

/// The tools the server offers, in order; the descriptions of `read_file`
/// and `write_file` name the allowed roots.
pub open spec fn catalogue(read_roots: Seq<char>, write_roots: Seq<char>) -> Seq<Json> {
    seq![
        tool(
            "disk_usage"@,
            "Shows available space for filesystems the user has access to read."@,
            one_property("human_readable"@, "boolean"@, "Whether to show disk sizes in human-readable format."@),
            false,
        ),
        tool(
            "cpu_information"@,
            "Shows host machine CPU architectural information."@,
            Json::Object(Seq::empty()),
            false,
        ),
        tool(
            "active_processes"@,
            "Lists running processes."@,
            one_property("limit"@, "integer"@, "Maximum number of process rows to return."@),
            false,
        ),
        tool(
            "list_containers"@,
            "Lists Docker containers currently running on the machine."@,
            one_property("all"@, "boolean"@, "Whether to include stopped containers."@),
            false,
        ),
        tool(
            "list_docker_images"@,
            "Lists Docker images available to run on the machine."@,
            one_property("all"@, "boolean"@, "Whether to include all images, tagged or untagged."@),
            false,
        ),
        tool(
            "list_directory"@,
            "Lists items in a directory at a given path."@,
            one_property("path"@, "string"@, "Absolute path to inspect, such as /home/jarom/Projects"@),
            true,
        ),
        tool(
            "read_file"@,
            "Read contents of a file at an absolute path. Allowed readable roots: "@ + read_roots,
            one_property(
                "path"@,
                "string"@,
                "Absolute path to inspect, such as /home/jarom/Projects/test.txt"@,
            ),
            true,
        ),
        tool(
            "write_file"@,
            "Writes contents to a file under an allowed project directory. Allowed writable roots: "@
                + write_roots,
            Json::Object(
                seq![
                    ("path"@, property("string"@, "Absolute path to the file for writing."@)),
                    (
                        "contents"@,
                        property("string"@, "Full replacement contents for the file in question."@),
                    ),
                ],
            ),
            true,
        ),
        tool(
            "git_status"@,
            "Check status of git repository."@,
            one_property(
                "path"@,
                "string"@,
                "Absolute path to repo to inspect status, such as /home/jarom/GitHub/Repo_Name"@,
            ),
            true,
        ),
        tool(
            "git_diff"@,
            "Check difference of versions in git repository."@,
            one_property(
                "path"@,
                "string"@,
                "Absolute path to repo to inspect difference, such as /home/jarom/GitHub/Serenity"@,
            ),
            true,
        ),
        tool(
            "git_diff_file"@,
            "Check difference of versions in git per file."@,
            one_property(
                "path"@,
                "string"@,
                "Absolute filepath to file in quesiton to test difference in version."@,
            ),
            true,
        ),
        tool(
            "git_log"@,
            "Displays recent git commits. Can be limited using the limit property."@,
            Json::Object(
                seq![
                    ("path"@, property("string"@, "Absolute path to the git repo."@)),
                    (
                        "limit"@,
                        property("integer"@, "Quantity of commits to display in order from most recent."@),
                    ),
                ],
            ),
            true,
        ),
        tool(
            "git_branch"@,
            "Displays git branches in a repository."@,
            one_property("path"@, "string"@, "Absolute path to the git repo."@),
            true,
        ),
    ]
}

/// The answer to `tools/list`.
pub open spec fn tools_list(read_roots: Seq<char>, write_roots: Seq<char>) -> Json {
    Json::Object(seq![("tools"@, Json::Array(catalogue(read_roots, write_roots)))])
}

/// The names of the tools, in the order they are listed.
pub open spec fn tool_names() -> Seq<Seq<char>> {
    seq![
        "disk_usage"@,
        "cpu_information"@,
        "active_processes"@,
        "list_containers"@,
        "list_docker_images"@,
        "list_directory"@,
        "read_file"@,
        "write_file"@,
        "git_status"@,
        "git_diff"@,
        "git_diff_file"@,
        "git_log"@,
        "git_branch"@,
    ]
}

/// Whether `t` occurs in `s` as a contiguous piece.
pub open spec fn contains_text(s: Seq<char>, t: Seq<char>) -> bool {
    exists|i: int| 0 <= i && i + t.len() <= s.len() && #[trigger] s.subrange(i, i + t.len()) == t
}

proof fn lemma_tool_shape(name: Seq<char>, description: Seq<char>, properties: Json, path_required: bool)
    ensures
        tool(name, description, properties, path_required).at("name"@) == Json::Str(name),
        tool(name, description, properties, path_required).at("description"@) == Json::Str(
            description,
        ),
        tool(name, description, properties, path_required).at("inputSchema"@) == Json::Object(
            seq![
                ("type"@, Json::Str("object"@)),
                ("properties"@, properties),
                ("required"@, required(path_required)),
            ],
        ),
        tool(name, description, properties, path_required).at("inputSchema"@).at("type"@) == Json::Str(
            "object"@,
        ),
        tool(name, description, properties, path_required).at("inputSchema"@).at("properties"@)
            == properties,
        tool(name, description, properties, path_required).at("inputSchema"@).at("required"@)
            == required(path_required),
{
    reveal_with_fuel(lookup, 4);
    reveal_strlit("name");
    reveal_strlit("description");
    reveal_strlit("inputSchema");
    reveal_strlit("type");
    reveal_strlit("properties");
    reveal_strlit("required");
    assert("name"@[0] != "description"@[0]);
    assert("name"@[0] != "inputSchema"@[0]);
    assert("description"@[0] != "inputSchema"@[0]);
    assert("type"@[0] != "properties"@[0]);
    assert("type"@[0] != "required"@[0]);
    assert("properties"@[0] != "required"@[0]);
    let schema = Json::Object(
        seq![
            ("type"@, Json::Str("object"@)),
            ("properties"@, properties),
            ("required"@, required(path_required)),
        ],
    );
    let t = seq![
        ("name"@, Json::Str(name)),
        ("description"@, Json::Str(description)),
        ("inputSchema"@, schema),
    ];
    assert(t.drop_first() =~= seq![("description"@, Json::Str(description)), ("inputSchema"@, schema)]);
    assert(t.drop_first().drop_first() =~= seq![("inputSchema"@, schema)]);
    let e = seq![
        ("type"@, Json::Str("object"@)),
        ("properties"@, properties),
        ("required"@, required(path_required)),
    ];
    assert(e.drop_first() =~= seq![("properties"@, properties), ("required"@, required(path_required))]);
    assert(e.drop_first().drop_first() =~= seq![("required"@, required(path_required))]);
}

/// The tool catalogue: thirteen tools, named in order by [`tool_names`]; each
/// has a string name and description and an object input schema of type
/// `object`; listing a directory, the file tools and the git tools require
/// `path`; `write_file` takes `contents`; the file tools' descriptions name
/// the allowed roots.
pub proof fn law_catalogue(read_roots: Seq<char>, write_roots: Seq<char>)
    ensures
        catalogue(read_roots, write_roots).len() == tool_names().len(),
        forall|i: int|
            0 <= i < tool_names().len() ==> {
                let t = #[trigger] catalogue(read_roots, write_roots)[i];
                &&& t.at("name"@) == Json::Str(tool_names()[i])
                &&& t.at("description"@) is Str
                &&& t.at("inputSchema"@) is Object
                &&& t.at("inputSchema"@).at("type"@) == Json::Str("object"@)
                &&& 5 <= i ==> t.at("inputSchema"@).at("required"@) == Json::Array(
                    seq![Json::Str("path"@)],
                )
            },
        catalogue(read_roots, write_roots)[7].at("inputSchema"@).at("properties"@).at(
            "contents"@,
        ) is Object,
        contains_text(
            catalogue(read_roots, write_roots)[6].at("description"@)->Str_0,
            "Allowed readable roots"@,
        ),
        contains_text(
            catalogue(read_roots, write_roots)[7].at("description"@)->Str_0,
            "Allowed writable roots"@,
        ),
{
    let c = catalogue(read_roots, write_roots);
    assert forall|i: int| 0 <= i < tool_names().len() implies {
        let t = #[trigger] catalogue(read_roots, write_roots)[i];
        &&& t.at("name"@) == Json::Str(tool_names()[i])
        &&& t.at("description"@) is Str
        &&& t.at("inputSchema"@) is Object
        &&& t.at("inputSchema"@).at("type"@) == Json::Str("object"@)
        &&& 5 <= i ==> t.at("inputSchema"@).at("required"@) == Json::Array(seq![Json::Str("path"@)])
    } by {
        let t = c[i];
        assert(t is Object);
        let e = t->Object_0;
        lemma_tool_shape(
            e[0].1->Str_0,
            e[1].1->Str_0,
            e[2].1->Object_0[1].1,
            i >= 5,
        );
    }
    let pe = seq![
        ("path"@, property("string"@, "Absolute path to the file for writing."@)),
        ("contents"@, property("string"@, "Full replacement contents for the file in question."@)),
    ];
    lemma_tool_shape(
        "write_file"@,
        "Writes contents to a file under an allowed project directory. Allowed writable roots: "@
            + write_roots,
        Json::Object(pe),
        true,
    );
    reveal_with_fuel(lookup, 3);
    reveal_strlit("path");
    reveal_strlit("contents");
    assert("path"@[0] != "contents"@[0]);
    assert(pe.drop_first() =~= seq![
        ("contents"@, property("string"@, "Full replacement contents for the file in question."@)),
    ]);
    lemma_tool_shape(
        "read_file"@,
        "Read contents of a file at an absolute path. Allowed readable roots: "@ + read_roots,
        one_property(
            "path"@,
            "string"@,
            "Absolute path to inspect, such as /home/jarom/Projects/test.txt"@,
        ),
        true,
    );
    let rd = "Read contents of a file at an absolute path. Allowed readable roots: "@ + read_roots;
    let wd = "Writes contents to a file under an allowed project directory. Allowed writable roots: "@
        + write_roots;
    reveal_strlit("Read contents of a file at an absolute path. Allowed readable roots: ");
    reveal_strlit("Allowed readable roots");
    reveal_strlit("Writes contents to a file under an allowed project directory. Allowed writable roots: ");
    reveal_strlit("Allowed writable roots");
    assert(rd.subrange(45int, 45int + "Allowed readable roots"@.len()) =~= "Allowed readable roots"@);
    assert(wd.subrange(62int, 62int + "Allowed writable roots"@.len()) =~= "Allowed writable roots"@);
}

fn property_value(kind: &str, description: &str) -> (r: JsonValue)
    ensures
        r@ == property(kind@, description@),
{
    JsonValue::object2("type", JsonValue::text(kind), "description", JsonValue::text(description))
}

fn one_property_value(name: &str, kind: &str, description: &str) -> (r: JsonValue)
    ensures
        r@ == one_property(name@, kind@, description@),
{
    JsonValue::object1(name, property_value(kind, description))
}

fn tool_value(name: &str, description: String, properties: JsonValue, path_required: bool) -> (r:
    JsonValue)
    ensures
        r@ == tool(name@, description@, properties@, path_required),
{
    let req = if path_required {
        JsonValue::array1(JsonValue::text("path"))
    } else {
        let r = JsonValue::array(Vec::new());
        assert(r@->Array_0 =~= Seq::<Json>::empty());
        r
    };
    let schema = JsonValue::object3(
        "type",
        JsonValue::text("object"),
        "properties",
        properties,
        "required",
        req,
    );
    JsonValue::object3(
        "name",
        JsonValue::text(name),
        "description",
        JsonValue::String(description),
        "inputSchema",
        schema,
    )
}

fn prefixed(prefix: &str, rest: &String) -> (r: String)
    ensures
        r@ == prefix@ + rest@,
{
    let mut r = String::from_str(prefix);
    r.append(rest.as_str());
    r
}

/// The tool catalogue, given the descriptions of the readable and the
/// writable roots.
pub fn tools_catalogue(read_roots: &String, write_roots: &String) -> (r: JsonValue)
    ensures
        r@ == tools_list(read_roots@, write_roots@),
{
    let t1 = tool_value(
        "disk_usage",
        String::from_str("Shows available space for filesystems the user has access to read."),
        one_property_value("human_readable", "boolean", "Whether to show disk sizes in human-readable format."),
        false,
    );
    let t2 = tool_value(
        "cpu_information",
        String::from_str("Shows host machine CPU architectural information."),
        JsonValue::object0(),
        false,
    );
    let t3 = tool_value(
        "active_processes",
        String::from_str("Lists running processes."),
        one_property_value("limit", "integer", "Maximum number of process rows to return."),
        false,
    );
    let t4 = tool_value(
        "list_containers",
        String::from_str("Lists Docker containers currently running on the machine."),
        one_property_value("all", "boolean", "Whether to include stopped containers."),
        false,
    );
    let t5 = tool_value(
        "list_docker_images",
        String::from_str("Lists Docker images available to run on the machine."),
        one_property_value("all", "boolean", "Whether to include all images, tagged or untagged."),
        false,
    );
    let t6 = tool_value(
        "list_directory",
        String::from_str("Lists items in a directory at a given path."),
        one_property_value("path", "string", "Absolute path to inspect, such as /home/jarom/Projects"),
        true,
    );
    let t7 = tool_value(
        "read_file",
        prefixed("Read contents of a file at an absolute path. Allowed readable roots: ", read_roots),
        one_property_value(
            "path",
            "string",
            "Absolute path to inspect, such as /home/jarom/Projects/test.txt",
        ),
        true,
    );
    let t8 = tool_value(
        "write_file",
        prefixed(
            "Writes contents to a file under an allowed project directory. Allowed writable roots: ",
            write_roots,
        ),
        JsonValue::object2(
            "path",
            property_value("string", "Absolute path to the file for writing."),
            "contents",
            property_value("string", "Full replacement contents for the file in question."),
        ),
        true,
    );
    let t9 = tool_value(
        "git_status",
        String::from_str("Check status of git repository."),
        one_property_value(
            "path",
            "string",
            "Absolute path to repo to inspect status, such as /home/jarom/GitHub/Repo_Name",
        ),
        true,
    );
    let t10 = tool_value(
        "git_diff",
        String::from_str("Check difference of versions in git repository."),
        one_property_value(
            "path",
            "string",
            "Absolute path to repo to inspect difference, such as /home/jarom/GitHub/Serenity",
        ),
        true,
    );
    let t11 = tool_value(
        "git_diff_file",
        String::from_str("Check difference of versions in git per file."),
        one_property_value(
            "path",
            "string",
            "Absolute filepath to file in quesiton to test difference in version.",
        ),
        true,
    );
    let t12 = tool_value(
        "git_log",
        String::from_str("Displays recent git commits. Can be limited using the limit property."),
        JsonValue::object2(
            "path",
            property_value("string", "Absolute path to the git repo."),
            "limit",
            property_value("integer", "Quantity of commits to display in order from most recent."),
        ),
        true,
    );
    let t13 = tool_value(
        "git_branch",
        String::from_str("Displays git branches in a repository."),
        one_property_value("path", "string", "Absolute path to the git repo."),
        true,
    );
    let ghost expected = catalogue(read_roots@, write_roots@);
    let ghost got = seq![
        t1@, t2@, t3@, t4@, t5@, t6@, t7@, t8@, t9@, t10@, t11@, t12@, t13@,
    ];
    assert(got =~= expected);
    let items = vec![t1, t2, t3, t4, t5, t6, t7, t8, t9, t10, t11, t12, t13];
    assert(items@.map_values(|x: JsonValue| x@) =~= got);
    let tools = JsonValue::array(items);
    JsonValue::object1("tools", tools)
}

/// The answer to `tools/list` for this configuration: the catalogue, with the
/// configured roots described (canonicalized where possible).
pub fn handle_tools_list(config: &PathConfig) -> (r: JsonValue)
    ensures
        exists|cr: Seq<Result<Seq<u8>, Seq<char>>>, cw: Seq<Result<Seq<u8>, Seq<char>>>|
            #![trigger roots_description(views_of(config.readable_roots@), cr), roots_description(views_of(config.writable_roots@), cw)]
            answers_for(views_of(config.readable_roots@), cr) && answers_for(views_of(config.writable_roots@), cw)
                && r@ == tools_list(
                roots_description(views_of(config.readable_roots@), cr),
                roots_description(views_of(config.writable_roots@), cw),
            ),
{
    let read_roots = allowed_roots_description(&config.readable_roots);
    let write_roots = allowed_roots_description(&config.writable_roots);
    tools_catalogue(&read_roots, &write_roots)
}

// ---------------------------------------------------------------------------
// tools/call
// ---------------------------------------------------------------------------

/// The name of the tool that a `tools/call` request asks for.
pub open spec fn call_name(msg: Json) -> Option<Seq<char>> {
    msg.at("params"@).at("name"@).as_text()
}

/// The arguments of a `tools/call` request (`null` where there are none).
pub open spec fn call_arguments(msg: Json) -> Json {
    msg.at("params"@).at("arguments"@)
}

/// The `tools/call` requests on which the tool itself gives up: the git
/// status and diff tools called without a string `path`.
pub open spec fn tools_call_panics(msg: Json) -> bool {
    match call_name(msg) {
        Some(n) => (n == "git_status"@ || n == "git_diff"@ || n == "git_diff_file"@) && path_argument(
            call_arguments(msg),
        ) is None,
        None => false,
    }
}

/// What a `tools/call` request comes to: a refusal without a tool name or for
/// an unknown tool, else what the named tool makes of the arguments.
pub open spec fn tools_call_step(
    msg: Json,
    readable: Seq<Seq<char>>,
    writable: Seq<Seq<char>>,
    step: StepModel,
) -> bool {
    match call_name(msg) {
        None => step == StepModel::Done(error_result("tools/call requires params.name"@)),
        Some(n) => {
            let a = call_arguments(msg);
            if n == "disk_usage"@ {
                step == StepModel::Run(disk_usage_plan(a))
            } else if n == "cpu_information"@ {
                step == StepModel::Run(cpu_information_plan())
            } else if n == "active_processes"@ {
                step == StepModel::Run(active_processes_plan(a))
            } else if n == "list_containers"@ {
                step == StepModel::Run(docker_plan(a, "ps"@, "failed to list docker containers"@))
            } else if n == "list_docker_images"@ {
                step == StepModel::Run(docker_plan(a, "images"@, "failed to list Docker images"@))
            } else if n == "list_directory"@ {
                step == list_directory_step(a)
            } else if n == "read_file"@ {
                read_step(a, readable, step)
            } else if n == "git_status"@ {
                step == StepModel::Run(
                    git_plan(
                        seq!["-C"@, path_argument(a)->0, "status"@],
                        "failed to check git status at specified path"@,
                    ),
                )
            } else if n == "git_diff"@ {
                step == StepModel::Run(
                    git_plan(
                        seq!["-C"@, path_argument(a)->0, "diff"@],
                        "failed to check git diff at repository"@,
                    ),
                )
            } else if n == "git_diff_file"@ {
                step == StepModel::Run(
                    git_plan(
                        seq!["diff"@, "--"@, path_argument(a)->0],
                        "failed to check git diff at file path"@,
                    ),
                )
            } else if n == "write_file"@ {
                write_step(a, writable, step)
            } else if n == "git_log"@ {
                step == StepModel::Run(
                    git_plan(
                        seq!["-C"@, repository(a), "log"@, "-n"@, decimal(log_limit(a) as nat)],
                        "failed to display git commit logs"@,
                    ),
                )
            } else if n == "git_branch"@ {
                step == StepModel::Run(
                    git_plan(
                        seq!["-C"@, repository(a), "branch"@],
                        "failed to display current git branch"@,
                    ),
                )
            } else {
                step == StepModel::Done(error_result("unknown tool: "@ + n))
            }
        },
    }
}

/// The catalogue and the dispatcher agree: a `tools/call` that names a listed
/// tool is never answered with "unknown tool".
pub proof fn law_listed_tools_are_known(
    msg: Json,
    readable: Seq<Seq<char>>,
    writable: Seq<Seq<char>>,
    step: StepModel,
    i: int,
)
    requires
        0 <= i < tool_names().len(),
        call_name(msg) == Some(tool_names()[i]),
        tools_call_step(msg, readable, writable, step),
    ensures
        step != StepModel::Done(error_result("unknown tool: "@ + tool_names()[i])),
{
    let n = tool_names()[i];
    let u = "unknown tool: "@ + n;
    let a = call_arguments(msg);
    reveal_strlit("unknown tool: ");
    reveal_strlit("path is required");
    reveal_strlit("contents is required");
    reveal_strlit("Path must be absolute");
    reveal_strlit("refusing to ");
    if step == StepModel::Done(error_result(u)) {
        assert(u[0] == 'u');
        if n == "list_directory"@ {
            lemma_error_result_injective(u, "path is required"@);
        } else if n == "read_file"@ || n == "write_file"@ {
            let access = if n == "read_file"@ { Access::Read } else { Access::Write };
            let roots = if n == "read_file"@ { readable } else { writable };
            if let Some(p) = a.at("path"@).as_text() {
                if n == "write_file"@ && a.at("contents"@).as_text() is None {
                    reveal_strlit("write_file");
                    reveal_strlit("read_file");
                    reveal_strlit("list_directory");
                    assert("write_file"@[0] != "read_file"@[0]);
                    assert("write_file"@[0] != "list_directory"@[0]);
                    lemma_error_result_injective(u, "contents is required"@);
                } else if !(p.len() > 0 && p[0] == '/') {
                    lemma_error_result_injective(u, "Path must be absolute"@);
                } else {
                    let (first, second, is_dir, target) = choose|
                        first: Result<bool, Seq<char>>,
                        second: Result<bool, Seq<char>>,
                        is_dir: bool,
                        target: Result<bool, Seq<char>>,
                    |
                        #![trigger admission(p, access, first, second, is_dir, target)]
                        admission_answers(p, roots, first, second, is_dir, target) && step == match admission(
                            p,
                            access,
                            first,
                            second,
                            is_dir,
                            target,
                        ) {
                            Some(refusal) => StepModel::Done(refusal),
                            None => if n == "read_file"@ {
                                StepModel::ReadFile(p)
                            } else {
                                StepModel::WriteFile(p, a.at("contents"@).as_text()->0)
                            },
                        };
                    lemma_access_errors_start(p, roots, first);
                    if first is Ok {
                        lemma_access_errors_start(p, roots, second);
                    }
                    if second == Ok::<bool, Seq<char>>(true) && !is_dir {
                        lemma_target_errors_start(p, roots, target);
                    }
                    let outside = "refusing to "@ + verb(access) + " outside allowed roots: "@ + p;
                    match first {
                        Err(m) => lemma_error_result_injective(u, m),
                        Ok(_) => match second {
                            Err(m) => lemma_error_result_injective(u, m),
                            Ok(false) => lemma_error_result_injective(u, outside),
                            Ok(true) => {
                                if is_dir {
                                    lemma_error_result_injective(
                                        u,
                                        "refusing to "@ + verb(access) + " because path is a directory"@,
                                    );
                                } else {
                                    match target {
                                        Err(m) => lemma_error_result_injective(u, m),
                                        Ok(false) => lemma_error_result_injective(u, outside),
                                        Ok(true) => {},
                                    }
                                }
                            },
                        },
                    }
                }
            } else {
                lemma_error_result_injective(u, "path is required"@);
            }
        }
    }
}

/// The dispatcher answers a `tools/call` exactly as the named tool answers its
/// arguments: for each listed name, the steps it may come to are those of that
/// tool (the plan that the tool's own function builds, or the file tool's
/// steps over the configured roots); any other name is refused as an unknown
/// tool, and a request without a name is refused for that.
pub proof fn law_dispatch_is_each_tool(
    msg: Json,
    readable: Seq<Seq<char>>,
    writable: Seq<Seq<char>>,
    step: StepModel,
)
    ensures
        ({
            let a = call_arguments(msg);
            let t = tools_call_step(msg, readable, writable, step);
            &&& call_name(msg) is None ==> (t <==> step == StepModel::Done(
                error_result("tools/call requires params.name"@),
            ))
            &&& call_name(msg) == Some("disk_usage"@) ==> (t <==> step == StepModel::Run(disk_usage_plan(a)))
            &&& call_name(msg) == Some("cpu_information"@) ==> (t <==> step == StepModel::Run(
                cpu_information_plan(),
            ))
            &&& call_name(msg) == Some("active_processes"@) ==> (t <==> step == StepModel::Run(
                active_processes_plan(a),
            ))
            &&& call_name(msg) == Some("list_containers"@) ==> (t <==> step == StepModel::Run(
                docker_plan(a, "ps"@, "failed to list docker containers"@),
            ))
            &&& call_name(msg) == Some("list_docker_images"@) ==> (t <==> step == StepModel::Run(
                docker_plan(a, "images"@, "failed to list Docker images"@),
            ))
            &&& call_name(msg) == Some("list_directory"@) ==> (t <==> step == list_directory_step(a))
            &&& call_name(msg) == Some("read_file"@) ==> (t <==> read_step(a, readable, step))
            &&& call_name(msg) == Some("write_file"@) ==> (t <==> write_step(a, writable, step))
            &&& call_name(msg) == Some("git_status"@) ==> (t <==> step == StepModel::Run(
                git_plan(
                    seq!["-C"@, path_argument(a)->0, "status"@],
                    "failed to check git status at specified path"@,
                ),
            ))
            &&& call_name(msg) == Some("git_diff"@) ==> (t <==> step == StepModel::Run(
                git_plan(seq!["-C"@, path_argument(a)->0, "diff"@], "failed to check git diff at repository"@),
            ))
            &&& call_name(msg) == Some("git_diff_file"@) ==> (t <==> step == StepModel::Run(
                git_plan(seq!["diff"@, "--"@, path_argument(a)->0], "failed to check git diff at file path"@),
            ))
            &&& call_name(msg) == Some("git_log"@) ==> (t <==> step == StepModel::Run(
                git_plan(
                    seq!["-C"@, repository(a), "log"@, "-n"@, decimal(log_limit(a) as nat)],
                    "failed to display git commit logs"@,
                ),
            ))
            &&& call_name(msg) == Some("git_branch"@) ==> (t <==> step == StepModel::Run(
                git_plan(seq!["-C"@, repository(a), "branch"@], "failed to display current git branch"@),
            ))
            &&& call_name(msg) is Some && !tool_names().contains(call_name(msg)->0) ==> (t <==> step
                == StepModel::Done(error_result("unknown tool: "@ + call_name(msg)->0)))
        }),
{
    reveal_strlit("disk_usage");
    reveal_strlit("cpu_information");
    reveal_strlit("active_processes");
    reveal_strlit("list_containers");
    reveal_strlit("list_docker_images");
    reveal_strlit("list_directory");
    reveal_strlit("read_file");
    reveal_strlit("write_file");
    reveal_strlit("git_status");
    reveal_strlit("git_diff");
    reveal_strlit("git_diff_file");
    reveal_strlit("git_log");
    reveal_strlit("git_branch");
    assert("list_containers"@[0] != "cpu_information"@[0]);
    assert("git_status"@[0] != "disk_usage"@[0]);
    assert("write_file"@[0] != "disk_usage"@[0]);
    assert("write_file"@[0] != "git_status"@[0]);
    assert("git_branch"@[0] != "disk_usage"@[0]);
    assert("git_branch"@[4] != "git_status"@[4]);
    assert("git_branch"@[0] != "write_file"@[0]);
    if let Some(n) = call_name(msg) {
        if !tool_names().contains(n) {
            assert forall|k: int| 0 <= k < tool_names().len() implies tool_names()[k] != n by {
                if tool_names()[k] == n {
                    assert(tool_names().contains(n));
                }
            }
            assert(tool_names()[0] != n);
            assert(tool_names()[1] != n);
            assert(tool_names()[2] != n);
            assert(tool_names()[3] != n);
            assert(tool_names()[4] != n);
            assert(tool_names()[5] != n);
            assert(tool_names()[6] != n);
            assert(tool_names()[7] != n);
            assert(tool_names()[8] != n);
            assert(tool_names()[9] != n);
            assert(tool_names()[10] != n);
            assert(tool_names()[11] != n);
            assert(tool_names()[12] != n);
        }
    }
}

/// A `tools/call` is answered "unknown tool" exactly when its name is not one
/// of the listed tools (those that the catalogue advertises, see
/// [`law_catalogue`]): every advertised tool can be called, and every tool that
/// can be called is advertised.
pub proof fn law_known_exactly_when_listed(
    msg: Json,
    readable: Seq<Seq<char>>,
    writable: Seq<Seq<char>>,
    step: StepModel,
)
    requires
        call_name(msg) is Some,
        tools_call_step(msg, readable, writable, step),
    ensures
        (step != StepModel::Done(error_result("unknown tool: "@ + call_name(msg)->0))) <==> tool_names().contains(
            call_name(msg)->0,
        ),
{
    let n = call_name(msg)->0;
    if tool_names().contains(n) {
        let i = choose|i: int| 0 <= i < tool_names().len() && tool_names()[i] == n;
        law_listed_tools_are_known(msg, readable, writable, step, i);
    } else {
        law_dispatch_is_each_tool(msg, readable, writable, step);
    }
}

/// Whether a `tools/call` request is one on which the tool gives up (see
/// [`tools_call_panics`]).
pub fn tools_call_would_panic(msg: &JsonValue) -> (r: bool)
    ensures
        r == tools_call_panics(msg@),
{
    let params = msg.get("params");
    let name = match params {
        Some(p) => p.text_at("name"),
        None => None,
    };
    match name {
        None => false,
        Some(n) => {
            if same_text(n.as_str(), "git_status") || same_text(n.as_str(), "git_diff") || same_text(
                n.as_str(),
                "git_diff_file",
            ) {
                let path = match params {
                    Some(p) => match p.get("arguments") {
                        Some(a) => a.text_at("path"),
                        None => None,
                    },
                    None => None,
                };
                path.is_none()
            } else {
                false
            }
        },
    }
}

/// The step for a `tools/call` request: the tool is looked up by name and
/// given the request's arguments.
pub fn handle_tools_call(msg: &JsonValue, config: &PathConfig) -> (r: ToolStep)
    requires
        !tools_call_panics(msg@),
    ensures
        tools_call_step(
            msg@,
            views_of(config.readable_roots@),
            views_of(config.writable_roots@),
            r@,
        ),
{
    let params = msg.get("params");
    let name = match params {
        Some(p) => p.text_at("name"),
        None => None,
    };
    let tool_name = match name {
        Some(n) => n,
        None => {
            return ToolStep::Done(tool_error("tools/call requires params.name"));
        },
    };
    let null = JsonValue::Null;
    let arguments: &JsonValue = match params {
        Some(p) => match p.get("arguments") {
            Some(a) => a,
            None => &null,
        },
        None => &null,
    };
    assert(arguments@ == call_arguments(msg@));
    let n = tool_name.as_str();
    if same_text(n, "disk_usage") {
        ToolStep::Run(disk_usage(arguments))
    } else if same_text(n, "cpu_information") {
        ToolStep::Run(cpu_information())
    } else if same_text(n, "active_processes") {
        ToolStep::Run(active_processes(arguments))
    } else if same_text(n, "list_containers") {
        ToolStep::Run(list_containers(arguments))
    } else if same_text(n, "list_docker_images") {
        ToolStep::Run(list_docker_images(arguments))
    } else if same_text(n, "list_directory") {
        list_directory(arguments)
    } else if same_text(n, "read_file") {
        read_file(arguments, config)
    } else if same_text(n, "git_status") {
        ToolStep::Run(git_status(arguments))
    } else if same_text(n, "git_diff") {
        ToolStep::Run(git_diff(arguments))
    } else if same_text(n, "git_diff_file") {
        ToolStep::Run(git_diff_file(arguments))
    } else if same_text(n, "write_file") {
        write_file(arguments, config)
    } else if same_text(n, "git_log") {
        ToolStep::Run(git_log(arguments))
    } else if same_text(n, "git_branch") {
        ToolStep::Run(git_branch(arguments))
    } else {
        let mut m = String::from_str("unknown tool: ");
        m.append(n);
        ToolStep::Done(tool_error_result(m))
    }
}

// ---------------------------------------------------------------------------
// One incoming message.
// ---------------------------------------------------------------------------

/// What the server does with one message.
pub enum Reply {
    /// No response: the message is a notification or has no usable id; the
    /// text is logged.
    Ignore(String),
    /// Send this response.
    Respond(JsonValue),
    /// A tool call for the request `id`: carry out the step, then send the
    /// tool result wrapped by [`json_rpc_result`].
    Call(JsonValue, ToolStep),
}

/// The mathematical form of a [`Reply`].
pub enum ReplyModel {
    Ignore(Seq<char>),
    Respond(Json),
    Call(Json, StepModel),
}

impl View for Reply {
    type V = ReplyModel;

    open spec fn view(&self) -> ReplyModel {
        match self {
            Reply::Ignore(s) => ReplyModel::Ignore(s@),
            Reply::Respond(v) => ReplyModel::Respond(v@),
            Reply::Call(id, step) => ReplyModel::Call(id@, step@),
        }
    }
}

/// The method a message names (empty where it names none).
pub open spec fn method_of(msg: Json) -> Seq<char> {
    match msg.at("method"@).as_text() {
        Some(m) => m,
        None => Seq::empty(),
    }
}

/// The messages on which the server gives up: tool calls that the tool itself
/// gives up on (see [`tools_call_panics`]).
pub open spec fn message_panics(msg: Json) -> bool {
    request_id(msg) is Some && method_of(msg) == "tools/call"@ && tools_call_panics(msg)
}

/// What the server does with `msg`: a message without a usable id is only
/// logged; `initialize`, `tools/list` and `tools/call` are answered; any other
/// method is answered with the JSON-RPC error `-32601`.
pub open spec fn reply_to(
    msg: Json,
    readable: Seq<Seq<char>>,
    writable: Seq<Seq<char>>,
    reply: ReplyModel,
) -> bool {
    match request_id(msg) {
        None => reply == ReplyModel::Ignore(
            "received notification or invalid request without usable id: "@ + method_of(msg),
        ),
        Some(id) => {
            let m = method_of(msg);
            if m == "initialize"@ {
                reply == ReplyModel::Respond(rpc_result(id, initialize_doc()))
            } else if m == "tools/list"@ {
                exists|cr: Seq<Result<Seq<u8>, Seq<char>>>, cw: Seq<Result<Seq<u8>, Seq<char>>>|
                    #![trigger roots_description(readable, cr), roots_description(writable, cw)]
                    answers_for(readable, cr) && answers_for(writable, cw) && reply
                        == ReplyModel::Respond(
                        rpc_result(
                            id,
                            tools_list(roots_description(readable, cr), roots_description(writable, cw)),
                        ),
                    )
            } else if m == "tools/call"@ {
                reply matches ReplyModel::Call(i, step) && i == id && tools_call_step(
                    msg,
                    readable,
                    writable,
                    step,
                )
            } else {
                reply == ReplyModel::Respond(rpc_error(id, -32601i64, "unknown method: "@ + m))
            }
        },
    }
}

/// Every request with a usable id is answered with that id, in a JSON-RPC
/// 2.0 envelope (or, for a tool call, handed on with that id); a message
/// without a usable id is never answered.
pub proof fn law_replies_echo_the_id(
    msg: Json,
    readable: Seq<Seq<char>>,
    writable: Seq<Seq<char>>,
    reply: ReplyModel,
)
    requires
        reply_to(msg, readable, writable, reply),
    ensures
        request_id(msg) is None <==> reply is Ignore,
        reply matches ReplyModel::Respond(v) ==> v.at("jsonrpc"@) == Json::Str("2.0"@) && v.at("id"@)
            == request_id(msg)->0,
        reply matches ReplyModel::Call(i, _) ==> i == request_id(msg)->0,
{
    if let Some(id) = request_id(msg) {
        let m = method_of(msg);
        law_envelopes(id, initialize_doc(), -32601i64, "unknown method: "@ + m);
        if m == "tools/list"@ {
            let (cr, cw) = choose|cr: Seq<Result<Seq<u8>, Seq<char>>>, cw: Seq<Result<Seq<u8>, Seq<char>>>|
                #![trigger roots_description(readable, cr), roots_description(writable, cw)]
                answers_for(readable, cr) && answers_for(writable, cw) && reply
                    == ReplyModel::Respond(
                    rpc_result(
                        id,
                        tools_list(roots_description(readable, cr), roots_description(writable, cw)),
                    ),
                );
            law_envelopes(
                id,
                tools_list(roots_description(readable, cr), roots_description(writable, cw)),
                0,
                Seq::empty(),
            );
        }
    }
}

/// A `tools/list` request with a usable id is answered with a result
/// response, never an error: it echoes the id, and its result lists the
/// tools, named in order by [`tool_names`], whatever the configured roots.
pub proof fn law_tools_list_answers_with_the_catalogue(
    msg: Json,
    readable: Seq<Seq<char>>,
    writable: Seq<Seq<char>>,
    reply: ReplyModel,
)
    requires
        reply_to(msg, readable, writable, reply),
        request_id(msg) is Some,
        method_of(msg) == "tools/list"@,
    ensures
        reply is Respond,
        reply->Respond_0.get("error"@) is None,
        reply->Respond_0.at("id"@) == request_id(msg)->0,
        reply->Respond_0.at("result"@).at("tools"@) is Array,
        reply->Respond_0.at("result"@).at("tools"@)->Array_0.len() == tool_names().len(),
        forall|i: int|
            0 <= i < tool_names().len() ==> #[trigger] reply->Respond_0.at("result"@).at(
                "tools"@,
            )->Array_0[i].at("name"@) == Json::Str(tool_names()[i]),
{
    let id = request_id(msg)->0;
    reveal_strlit("tools/list");
    reveal_strlit("initialize");
    assert("tools/list"@[0] != "initialize"@[0]);
    let (cr, cw) = choose|cr: Seq<Result<Seq<u8>, Seq<char>>>, cw: Seq<Result<Seq<u8>, Seq<char>>>|
        #![trigger roots_description(readable, cr), roots_description(writable, cw)]
        answers_for(readable, cr) && answers_for(writable, cw) && reply == ReplyModel::Respond(
            rpc_result(id, tools_list(roots_description(readable, cr), roots_description(writable, cw))),
        );
    let rd = roots_description(readable, cr);
    let wd = roots_description(writable, cw);
    law_envelopes(id, tools_list(rd, wd), 0, Seq::empty());
    law_catalogue(rd, wd);
    reveal_with_fuel(lookup, 2);
    assert(tools_list(rd, wd).at("tools"@) == Json::Array(catalogue(rd, wd)));
}

/// Each method gets its own answer: a message without a usable id is only
/// logged, never answered; `initialize` is answered with a result response
/// (no error) carrying the server's description; a method other than
/// `initialize`, `tools/list` and `tools/call` is answered with an error
/// response (no result) with code -32601 and the message
/// "unknown method: <method>"; `tools/call` is handed on with the request id.
pub proof fn law_methods_answered(
    msg: Json,
    readable: Seq<Seq<char>>,
    writable: Seq<Seq<char>>,
    reply: ReplyModel,
)
    requires
        reply_to(msg, readable, writable, reply),
    ensures
        request_id(msg) is None ==> reply is Ignore,
        request_id(msg) is Some && method_of(msg) == "initialize"@ ==> reply is Respond
            && reply->Respond_0.at("result"@) == initialize_doc() && reply->Respond_0.get("error"@) is None,
        request_id(msg) is Some && method_of(msg) != "initialize"@ && method_of(msg) != "tools/list"@
            && method_of(msg) != "tools/call"@ ==> reply is Respond && reply->Respond_0.get("result"@) is None
            && reply->Respond_0.at("error"@).at("code"@) == Json::Number(NumberModel::NegInt(-32601i64))
            && reply->Respond_0.at("error"@).at("message"@) == Json::Str("unknown method: "@ + method_of(msg)),
        request_id(msg) is Some && method_of(msg) == "tools/call"@ ==> reply is Call && reply->Call_0
            == request_id(msg)->0,
{
    if let Some(id) = request_id(msg) {
        let m = method_of(msg);
        law_envelopes(id, initialize_doc(), -32601i64, "unknown method: "@ + m);
        reveal_strlit("tools/list");
        reveal_strlit("initialize");
        reveal_strlit("tools/call");
        assert("tools/list"@[0] != "initialize"@[0]);
        assert("tools/call"@[0] != "initialize"@[0]);
        assert("tools/call"@[6] != "tools/list"@[6]);
    }
}

/// Whether the server would give up on `msg` (see [`message_panics`]).
pub fn message_would_panic(msg: &JsonValue) -> (r: bool)
    ensures
        r == message_panics(msg@),
{
    let id = validate_request_id_type(msg);
    let method = match msg.text_at("method") {
        Some(m) => m.as_str(),
        None => "",
    };
    assert(method@ == method_of(msg@)) by {
        reveal_strlit("");
    }
    id.is_some() && same_text(method, "tools/call") && tools_call_would_panic(msg)
}

/// What to do with one parsed message.
pub fn handle_message(msg: &JsonValue, config: &PathConfig) -> (r: Reply)
    requires
        !message_panics(msg@),
    ensures
        reply_to(msg@, views_of(config.readable_roots@), views_of(config.writable_roots@), r@),
{
    let method = match msg.text_at("method") {
        Some(m) => m.as_str(),
        None => "",
    };
    assert(method@ == method_of(msg@)) by {
        reveal_strlit("");
    }
    let id = match validate_request_id_type(msg) {
        Some(id) => id,
        None => {
            let mut m = String::from_str("received notification or invalid request without usable id: ");
            m.append(method);
            return Reply::Ignore(m);
        },
    };
    if same_text(method, "initialize") {
        Reply::Respond(json_rpc_result(id, handle_initialize()))
    } else if same_text(method, "tools/list") {
        Reply::Respond(json_rpc_result(id, handle_tools_list(config)))
    } else if same_text(method, "tools/call") {
        Reply::Call(id, handle_tools_call(msg, config))
    } else {
        let mut m = String::from_str("unknown method: ");
        m.append(method);
        Reply::Respond(json_rpc_error(id, -32601, m.as_str()))
    }
}

} // verus!
