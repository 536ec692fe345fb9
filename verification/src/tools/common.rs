//! Results of tool calls, and the description of the configured roots.
use vstd::prelude::*;

use crate::config::path::{answer_for, answers_for, canonical_path, path_outcome, views_of};
use crate::json::{lookup, Json, JsonValue};
use crate::text::{
    join, joined, lemma_joined_occurrences, lemma_lines_bounds, lemma_split_joined, lines, lines_of, split_on, strip_cr,
};

verus! {

/// The content array of a tool result: one text item.
pub open spec fn text_content(text: Seq<char>) -> Json {
    Json::Array(seq![Json::Object(seq![("type"@, Json::Str("text"@)), ("text"@, Json::Str(text))])])
}

/// A successful tool result carrying `text`.
pub open spec fn text_result(text: Seq<char>) -> Json {
    Json::Object(seq![("content"@, text_content(text))])
}

/// A failed tool result carrying `message`, marked with `isError: true`.
pub open spec fn error_result(message: Seq<char>) -> Json {
    Json::Object(seq![("content"@, text_content(message)), ("isError"@, Json::Bool(true))])
}

/// Tool results have the MCP shape: one text item carrying the text; a
/// successful result has no `isError` member, a failed one has
/// `isError: true`.
pub proof fn law_tool_result_shape(text: Seq<char>)
    ensures
        text_result(text).at("content"@) == text_content(text),
        text_result(text).get("isError"@) is None,
        error_result(text).at("content"@) == text_content(text),
        error_result(text).at("isError"@) == Json::Bool(true),
        text_content(text) matches Json::Array(items) && items.len() == 1 && items[0].at("type"@)
            == Json::Str("text"@) && items[0].at("text"@) == Json::Str(text),
{
    reveal_with_fuel(lookup, 3);
    reveal_strlit("content");
    reveal_strlit("isError");
    reveal_strlit("type");
    reveal_strlit("text");
    assert("content"@ != "isError"@) by {
        assert("content"@[0] != "isError"@[0]);
    }
    assert("type"@ != "text"@) by {
        assert("type"@[1] != "text"@[1]);
    }
    let es = seq![("content"@, text_content(text))];
    assert(es.drop_first().len() == 0);
    let ee = seq![("content"@, text_content(text)), ("isError"@, Json::Bool(true))];
    assert(ee.drop_first() =~= seq![("isError"@, Json::Bool(true))]);
    let ie = seq![("type"@, Json::Str("text"@)), ("text"@, Json::Str(text))];
    assert(ie.drop_first() =~= seq![("text"@, Json::Str(text))]);
}

/// Different messages make different error results.
pub proof fn lemma_error_result_injective(a: Seq<char>, b: Seq<char>)
    requires
        error_result(a) == error_result(b),
    ensures
        a == b,
{
    let ea = error_result(a)->Object_0;
    let eb = error_result(b)->Object_0;
    assert(ea[0] == eb[0]);
    let ca = text_content(a)->Array_0;
    let cb = text_content(b)->Array_0;
    assert(ca[0] == cb[0]);
    let ia = ca[0]->Object_0;
    let ib = cb[0]->Object_0;
    assert(ia[1] == ib[1]);
}

fn content_of(text: String) -> (r: JsonValue)
    ensures
        r@ == text_content(text@),
{
    let item = JsonValue::object2(
        "type",
        JsonValue::text("text"),
        "text",
        JsonValue::String(text),
    );
    JsonValue::array1(item)
}

/// The tool result that hands `text` back to the client.
pub fn tool_text_result(text: String) -> (r: JsonValue)
    ensures
        r@ == text_result(text@),
{
    JsonValue::object1("content", content_of(text))
}

/// The tool result that reports `message` as an error.
pub fn tool_error_result(message: String) -> (r: JsonValue)
    ensures
        r@ == error_result(message@),
{
    JsonValue::object2("content", content_of(message), "isError", JsonValue::Bool(true))
}

/// How a root is shown: its canonical form (as text, invalid UTF-8 replaced)
/// when that could be had, else the root as configured.
pub open spec fn root_shown(root: Seq<char>, canonical: Result<Seq<u8>, Seq<char>>) -> Seq<char> {
    match canonical {
        Ok(c) => lossy_text(c),
        Err(_) => root,
    }
}

/// The description of `roots` whose canonicalizations gave `canonical`:
/// `none` for no roots, else the shown roots separated by `, `.
pub open spec fn roots_description(
    roots: Seq<Seq<char>>,
    canonical: Seq<Result<Seq<u8>, Seq<char>>>,
) -> Seq<char> {
    if roots.len() == 0 {
        "none"@
    } else {
        joined(Seq::new(roots.len(), |i: int| root_shown(roots[i], canonical[i])), ", "@)
    }
}

/// A root as shown to the client, given its canonicalization outcome.
pub fn show_root(root: &str, canonical: &Result<Vec<u8>, String>) -> (r: String)
    ensures
        r@ == root_shown(root@, path_outcome(*canonical)),
{
    match canonical {
        Ok(c) => text_from_bytes(c),
        Err(_) => String::from_str(root),
    }
}

/// A root in the form shown to the client: canonicalized where possible.
pub fn normalize_root(path: &str) -> (r: String)
    ensures
        exists|c: Result<Seq<u8>, Seq<char>>| answer_for(path@, c) && r@ == #[trigger] root_shown(path@, c),
{
    let c = canonical_path(path);
    show_root(path, &c)
}

pub open spec fn outcomes_of(cs: Seq<Result<Vec<u8>, String>>) -> Seq<Result<Seq<u8>, Seq<char>>> {
    cs.map_values(|c: Result<Vec<u8>, String>| path_outcome(c))
}

/// The description of `roots` for the given canonicalization outcomes, one
/// per root.
pub fn describe_roots(roots: &Vec<String>, canonical: &Vec<Result<Vec<u8>, String>>) -> (r: String)
    requires
        canonical@.len() == roots@.len(),
    ensures
        r@ == roots_description(views_of(roots@), outcomes_of(canonical@)),
{
    if roots.len() == 0 {
        return String::from_str("none");
    }
    let ghost rs = views_of(roots@);
    let ghost cs = outcomes_of(canonical@);
    let ghost shown = Seq::new(rs.len(), |i: int| root_shown(rs[i], cs[i]));
    let mut pieces: Vec<String> = Vec::new();
    let mut i: usize = 0;
    while i < roots.len()
        invariant
            0 <= i <= roots@.len(),
            canonical@.len() == roots@.len(),
            rs == views_of(roots@),
            cs == outcomes_of(canonical@),
            shown == Seq::new(rs.len(), |i: int| root_shown(rs[i], cs[i])),
            pieces@.len() == i,
            forall|j: int| 0 <= j < i ==> #[trigger] pieces@[j]@ == shown[j],
        decreases roots@.len() - i,
    {
        let p = show_root(roots[i].as_str(), &canonical[i]);
        pieces.push(p);
        i = i + 1;
    }
    assert(views_of(pieces@) =~= shown);
    join(&pieces, ", ")
}

/// The description of the configured roots given to the client: `none` when
/// there are none, else each root (canonicalized where possible) joined with
/// `, `.
pub fn allowed_roots_description(roots: &Vec<String>) -> (r: String)
    ensures
        roots@.len() == 0 ==> r@ == "none"@,
        exists|cs: Seq<Result<Seq<u8>, Seq<char>>>|
            answers_for(views_of(roots@), cs) && r@ == #[trigger] roots_description(
                views_of(roots@),
                cs,
            ),
{
    let mut canonical: Vec<Result<Vec<u8>, String>> = Vec::new();
    let mut i: usize = 0;
    while i < roots.len()
        invariant
            0 <= i <= roots@.len(),
            canonical@.len() == i,
            forall|j: int| 0 <= j < i ==> #[trigger] answer_for(views_of(roots@)[j], outcomes_of(canonical@)[j]),
        decreases roots@.len() - i,
    {
        let c = canonical_path(roots[i].as_str());
        let ghost before = outcomes_of(canonical@);
        canonical.push(c);
        assert(outcomes_of(canonical@) =~= before.push(path_outcome(c)));
        i = i + 1;
    }
    let ghost cs = outcomes_of(canonical@);
    let r = describe_roots(roots, &canonical);
    assert(r@ == roots_description(views_of(roots@), cs));
    r
}

// ---------------------------------------------------------------------------
// What a tool call asks of the host, and what comes back.
// ---------------------------------------------------------------------------

/// A program to run for a tool: its name, its arguments, the text that
/// introduces a failure to start it, and, for some tools, how many lines of
/// its output to keep.
pub struct CommandPlan {
    pub program: String,
    pub args: Vec<String>,
    pub failure: String,
    pub line_limit: Option<u64>,
}

/// The mathematical form of a [`CommandPlan`].
pub struct PlanModel {
    pub program: Seq<char>,
    pub args: Seq<Seq<char>>,
    pub failure: Seq<char>,
    pub line_limit: Option<u64>,
}

impl View for CommandPlan {
    type V = PlanModel;

    open spec fn view(&self) -> PlanModel {
        PlanModel {
            program: self.program@,
            args: views_of(self.args@),
            failure: self.failure@,
            line_limit: self.line_limit,
        }
    }
}

/// The next step of a tool call: a finished result, or the outside work that
/// the host must do before the result can be made.
pub enum ToolStep {
    /// The call is answered with this tool result.
    Done(JsonValue),
    /// Run a program; the result comes from [`command_result`].
    Run(CommandPlan),
    /// Read a file; the result comes from `read_file_result`.
    ReadFile(String),
    /// Write `contents` to the file at `path`; the result comes from
    /// `write_file_result`.
    WriteFile(String, String),
    /// List a directory; the result comes from `list_directory_result`.
    ListDirectory(String),
}

/// The mathematical form of a [`ToolStep`].
pub enum StepModel {
    Done(Json),
    Run(PlanModel),
    ReadFile(Seq<char>),
    WriteFile(Seq<char>, Seq<char>),
    ListDirectory(Seq<char>),
}

impl View for ToolStep {
    type V = StepModel;

    open spec fn view(&self) -> StepModel {
        match self {
            ToolStep::Done(v) => StepModel::Done(v@),
            ToolStep::Run(p) => StepModel::Run(p@),
            ToolStep::ReadFile(p) => StepModel::ReadFile(p@),
            ToolStep::WriteFile(p, c) => StepModel::WriteFile(p@, c@),
            ToolStep::ListDirectory(p) => StepModel::ListDirectory(p@),
        }
    }
}

/// The name for what `String::from_utf8_lossy` makes of bytes: the text they
/// encode, with each invalid sequence replaced by U+FFFD.
pub uninterp spec fn lossy_text(bytes: Seq<u8>) -> Seq<char>;

/// `String::from_utf8_lossy`, named by [`lossy_text`]; its documentation
/// gives that valid UTF-8 is decoded unchanged, which is stated too.
#[verifier::external_body]
pub(crate) fn text_from_bytes(bytes: &Vec<u8>) -> (r: String)
    ensures
        r@ == lossy_text(bytes@),
        vstd::utf8::valid_utf8(bytes@) ==> r@ == vstd::utf8::decode_utf8(bytes@),
{
    String::from_utf8_lossy(bytes.as_slice()).into_owned()
}

/// The first `limit` lines of `text` (all of them when there are fewer),
/// joined with `\n`.
pub open spec fn first_lines(text: Seq<char>, limit: u64) -> Seq<char> {
    let ls = lines(text);
    let n = if (limit as usize) < ls.len() { limit as usize as int } else { ls.len() as int };
    joined(ls.take(n), "\n"@)
}

/// The text a finished program hands back: its standard output, cut to the
/// plan's line limit where it has one.
pub open spec fn program_text(plan: PlanModel, stdout: Seq<u8>) -> Seq<char> {
    match plan.line_limit {
        Some(limit) => first_lines(lossy_text(stdout), limit),
        None => lossy_text(stdout),
    }
}

/// The tool result for a program run by `plan`, given its standard output or
/// the error that kept it from running.
pub open spec fn command_outcome(plan: PlanModel, output: Result<Seq<u8>, Seq<char>>) -> Json {
    match output {
        Ok(stdout) => text_result(program_text(plan, stdout)),
        Err(e) => error_result(plan.failure + ": "@ + e),
    }
}

pub open spec fn output_of(r: Result<Vec<u8>, String>) -> Result<Seq<u8>, Seq<char>> {
    match r {
        Ok(b) => Ok(b@),
        Err(e) => Err(e@),
    }
}

/// The first `limit` lines of `text`, joined with `\n`.
pub fn take_lines(text: &str, limit: u64) -> (r: String)
    ensures
        r@ == first_lines(text@, limit),
{
    let all = lines_of(text);
    let n: usize = if (limit as usize) < all.len() { limit as usize } else { all.len() };
    let mut kept: Vec<String> = Vec::new();
    let mut i: usize = 0;
    while i < n
        invariant
            0 <= i <= n <= all@.len(),
            kept@.len() == i,
            forall|j: int| 0 <= j < i ==> #[trigger] kept@[j]@ == all@[j]@,
        decreases n - i,
    {
        kept.push(all[i].clone());
        i = i + 1;
    }
    proof {
        let ls = all@.map_values(|l: String| l@);
        assert(ls == lines(text@));
        assert(views_of(kept@) =~= ls.take(n as int));
    }
    join(&kept, "\n")
}

/// Output cut to a line limit keeps no more lines than the limit: read back
/// as lines, the kept text has at most `limit` of them, and a limit of zero
/// keeps nothing.
pub proof fn law_first_lines_bounded(text: Seq<char>, limit: u64)
    ensures
        lines(first_lines(text, limit)).len() <= limit as usize,
        limit as usize == 0 ==> first_lines(text, limit).len() == 0,
{
    let ls = lines(text);
    let n = if (limit as usize) < ls.len() { limit as usize as int } else { ls.len() as int };
    let kept = ls.take(n);
    lemma_lines_bounds(text);
    reveal_strlit("\n");
    assert("\n"@ =~= seq!['\n']);
    if n == 0 {
        assert(kept.len() == 0);
        lemma_lines_bounds(joined(kept, "\n"@));
    } else {
        assert forall|i: int, j: int| 0 <= i < kept.len() && 0 <= j < kept[i].len() implies kept[i][j]
            != '\n' by {
            assert(kept[i] == ls[i]);
        }
        lemma_joined_occurrences(kept, '\n');
        lemma_lines_bounds(joined(kept, seq!['\n']));
    }
}

/// Output cut to a line limit keeps the first lines as they were: where every
/// line of `text` is non-empty and does not end in a carriage return, the kept
/// text, read back as lines, is the first `limit` lines of `text` (all of them
/// where there are fewer).
pub proof fn law_first_lines_are_kept(text: Seq<char>, limit: u64)
    requires
        forall|i: int|
            0 <= i < lines(text).len() ==> (#[trigger] lines(text)[i]).len() > 0 && lines(text)[i].last()
                != '\r',
    ensures
        lines(first_lines(text, limit)) == lines(text).take(
            if (limit as usize) < lines(text).len() {
                limit as usize as int
            } else {
                lines(text).len() as int
            },
        ),
{
    let ls = lines(text);
    let n = if (limit as usize) < ls.len() { limit as usize as int } else { ls.len() as int };
    let kept = ls.take(n);
    lemma_lines_bounds(text);
    reveal_strlit("\n");
    assert("\n"@ =~= seq!['\n']);
    if n == 0 {
        assert(kept.len() == 0);
        lemma_lines_bounds(joined(kept, "\n"@));
        assert(lines(joined(kept, "\n"@)) =~= kept);
    } else {
        assert forall|i: int, j: int| 0 <= i < kept.len() && 0 <= j < kept[i].len() implies kept[i][j]
            != '\n' by {
            assert(kept[i] == ls[i]);
        }
        lemma_split_joined(kept, '\n');
        let pieces = split_on(joined(kept, seq!['\n']), '\n');
        assert(pieces == kept);
        let ended = pieces.drop_last().map_values(|p: Seq<char>| strip_cr(p));
        assert forall|i: int| 0 <= i < ended.len() implies ended[i] == kept.drop_last()[i] by {
            assert(kept[i] == ls[i]);
            assert(ls[i].last() != '\r');
        }
        assert(ended =~= kept.drop_last());
        assert(kept.last() == ls[n - 1]);
        assert(kept.drop_last().push(kept.last()) =~= kept);
    }
}

/// A program's output is handed back as it came (read as text), cut to the
/// plan's line limit where it has one and whole otherwise, in a successful
/// result; a program that could not be run gives an error result that names
/// the plan's failure and the error.
pub proof fn law_program_output_handed_back(plan: PlanModel, stdout: Seq<u8>, e: Seq<char>)
    ensures
        command_outcome(plan, Ok(stdout)).get("isError"@) is None,
        plan.line_limit is None ==> command_outcome(plan, Ok(stdout)).at("content"@) == text_content(
            lossy_text(stdout),
        ),
        plan.line_limit is Some ==> command_outcome(plan, Ok(stdout)).at("content"@) == text_content(
            first_lines(lossy_text(stdout), plan.line_limit->0),
        ),
        command_outcome(plan, Err(e)).at("isError"@) == Json::Bool(true),
        command_outcome(plan, Err(e)).at("content"@) == text_content(plan.failure + ": "@ + e),
{
    law_tool_result_shape(lossy_text(stdout));
    law_tool_result_shape(program_text(plan, stdout));
    law_tool_result_shape(plan.failure + ": "@ + e);
}

/// The tool result of a program run by `plan`: its output as text (cut to the
/// line limit where the plan has one), or the failure to run it.
pub fn command_result(plan: &CommandPlan, output: Result<Vec<u8>, String>) -> (r: JsonValue)
    ensures
        r@ == command_outcome(plan@, output_of(output)),
{
    match output {
        Ok(stdout) => {
            let text = text_from_bytes(&stdout);
            match plan.line_limit {
                Some(limit) => tool_text_result(take_lines(text.as_str(), limit)),
                None => tool_text_result(text),
            }
        },
        Err(e) => {
            let mut m = plan.failure.clone();
            m.append(": ");
            m.append(e.as_str());
            tool_error_result(m)
        },
    }
}

} // verus!
