//! File tools: listing a directory, and reading and writing files under the
//! configured roots.
use vstd::prelude::*;

use crate::config::path::{
    access_outcome, answer_for, canonical_form, canonical_path, dir_seen, file_within,
    law_allowed_paths_lie_under_a_root, outcome_of, parent_of, parent_within, path_is_absolute,
    path_is_dir, path_outcome, path_parent, target_outcome, target_within, verdict_view, views_of,
    PathConfig,
};
use crate::json::{Json, JsonValue};
use crate::text::{decimal, decimal_text, lemma_split_at_separator, lemma_split_without_separator, split_on};
use crate::tools::common::{error_result, law_tool_result_shape, text_result, tool_error_result, tool_text_result, StepModel, ToolStep};

verus! {

/// The answer for a parent whose canonicalization gave `o`.
pub open spec fn parent_result(o: Result<Seq<u8>, Seq<char>>) -> Result<Seq<u8>, Seq<char>> {
    match o {
        Ok(c) => Ok(c),
        Err(e) => Err("failed to canonicalize the parent directory: "@ + e),
    }
}

/// What the parent-directory check may answer for `path`: the refusal of a
/// path without a parent, or, for an answer given on canonicalizing the
/// parent (see [`answer_for`]), that canonical path or the failure to find it.
pub open spec fn parent_outcome(path: Seq<char>, r: Result<Seq<u8>, Seq<char>>) -> bool {
    match parent_of(path) {
        None => r == Err::<Seq<u8>, Seq<char>>("path must have a parent directory"@),
        Some(q) => exists|o: Result<Seq<u8>, Seq<char>>| answer_for(q, o) && r == #[trigger] parent_result(o),
    }
}

/// The answer of the parent-directory check for a parent whose
/// canonicalization gave `canonical` (see [`parent_result`]).
pub fn parent_answer(canonical: Result<Vec<u8>, String>) -> (r: Result<Vec<u8>, String>)
    ensures
        path_outcome(r) == parent_result(path_outcome(canonical)),
{
    match canonical {
        Ok(c) => Ok(c),
        Err(e) => {
            let mut m = String::from_str("failed to canonicalize the parent directory: ");
            m.append(e.as_str());
            Err(m)
        },
    }
}

/// The canonical form (as bytes) of the directory that holds `path`: absolute
/// and free of `.` and `..`; the root and the empty path have no parent.
pub fn canonicalize_existing_parent(path: &str) -> (r: Result<Vec<u8>, String>)
    ensures
        parent_outcome(path@, path_outcome(r)),
        r matches Ok(c) ==> canonical_form(c@),
        path@.len() == 0 || path@ == seq!['/'] ==> path_outcome(r) == Err::<Seq<u8>, Seq<char>>(
            "path must have a parent directory"@,
        ),
{
    let parent = match path_parent(path) {
        Some(p) => p,
        None => {
            return Err(String::from_str("path must have a parent directory"));
        },
    };
    let canonical = canonical_path(parent.as_str());
    parent_answer(canonical)
}

// ---------------------------------------------------------------------------
// Listing a directory.
// ---------------------------------------------------------------------------

/// A listing: each name followed by a line ending.
pub open spec fn listing(names: Seq<Seq<char>>) -> Seq<char>
    decreases names.len(),
{
    if names.len() == 0 {
        Seq::empty()
    } else {
        listing(names.drop_last()) + names.last() + "\n"@
    }
}

proof fn lemma_listing_split(names: Seq<Seq<char>>, tail: Seq<char>)
    requires
        forall|i: int, j: int| 0 <= i < names.len() && 0 <= j < names[i].len() ==> names[i][j] != '\n',
    ensures
        split_on(listing(names) + tail, '\n') == names + split_on(tail, '\n'),
    decreases names.len(),
{
    reveal_strlit("\n");
    assert("\n"@ =~= seq!['\n']);
    if names.len() == 0 {
        assert(listing(names) + tail =~= tail);
        assert(names + split_on(tail, '\n') =~= split_on(tail, '\n'));
    } else {
        let prev = names.drop_last();
        let last = names.last();
        assert forall|i: int, j: int| 0 <= i < prev.len() && 0 <= j < prev[i].len() implies prev[i][j]
            != '\n' by {
            assert(prev[i] == names[i]);
        }
        let t2 = last + seq!['\n'] + tail;
        assert(listing(names) + tail =~= listing(prev) + t2);
        lemma_listing_split(prev, t2);
        assert forall|j: int| 0 <= j < last.len() implies last[j] != '\n' by {
            assert(last == names[names.len() - 1]);
        }
        lemma_split_at_separator(last, tail, '\n');
        lemma_split_without_separator(last, '\n');
        assert(prev + (seq![last] + split_on(tail, '\n')) =~= names + split_on(tail, '\n'));
    }
}

/// A listing names each entry on a line of its own, in order: where no name
/// holds a line feed, splitting the listing at line feeds gives the names,
/// followed by the empty piece after the final line ending.
pub proof fn law_listing_names_each_entry(names: Seq<Seq<char>>)
    requires
        forall|i: int, j: int| 0 <= i < names.len() && 0 <= j < names[i].len() ==> names[i][j] != '\n',
    ensures
        split_on(listing(names), '\n') == names.push(Seq::<char>::empty()),
{
    lemma_listing_split(names, Seq::empty());
    assert(listing(names) + Seq::<char>::empty() =~= listing(names));
    assert(names + seq![Seq::<char>::empty()] =~= names.push(Seq::<char>::empty()));
}

/// Listing a directory needs its `path`; nothing else is checked.
pub open spec fn list_directory_step(arguments: Json) -> StepModel {
    match arguments.at("path"@).as_text() {
        Some(p) => StepModel::ListDirectory(p),
        None => StepModel::Done(error_result("path is required"@)),
    }
}

/// The step for a directory listing.
pub fn list_directory(arguments: &JsonValue) -> (r: ToolStep)
    ensures
        r@ == list_directory_step(arguments@),
{
    match arguments.text_at("path") {
        Some(p) => ToolStep::ListDirectory(p.clone()),
        None => ToolStep::Done(tool_error_result(String::from_str("path is required"))),
    }
}

pub open spec fn listing_outcome(r: Result<Vec<String>, String>) -> Json {
    match r {
        Ok(names) => text_result(listing(views_of(names@))),
        Err(e) => error_result("failed to list directory: "@ + e@),
    }
}

/// The tool result of a directory listing, given the names of its entries or
/// the error that kept it from being read.
pub fn list_directory_result(entries: Result<Vec<String>, String>) -> (r: JsonValue)
    ensures
        r@ == listing_outcome(entries),
{
    match entries {
        Ok(names) => {
            let ghost ns = views_of(names@);
            let mut text = String::new();
            let mut i: usize = 0;
            while i < names.len()
                invariant
                    0 <= i <= names@.len(),
                    ns == views_of(names@),
                    text@ == listing(ns.take(i as int)),
                decreases names@.len() - i,
            {
                assert(ns.take(i + 1).drop_last() =~= ns.take(i as int));
                text.append(names[i].as_str());
                text.append("\n");
                i = i + 1;
            }
            assert(ns.take(names@.len() as int) =~= ns);
            tool_text_result(text)
        },
        Err(e) => {
            let mut m = String::from_str("failed to list directory: ");
            m.append(e.as_str());
            tool_error_result(m)
        },
    }
}

// ---------------------------------------------------------------------------
// Reading and writing files.
// ---------------------------------------------------------------------------

/// Reading or writing.
#[derive(Clone, Copy, PartialEq, Eq, Debug)]
pub enum Access {
    Read,
    Write,
}

pub open spec fn verb(access: Access) -> Seq<char> {
    match access {
        Access::Read => "read"@,
        Access::Write => "write"@,
    }
}

/// The admission check in front of a file access, given the two answers of
/// the access check on the parent (it is asked twice), whether the path is a
/// directory, and the answer of the check on the file itself: `None` lets the
/// access go ahead, `Some` is the tool result that refuses it.
pub open spec fn admission(
    path: Seq<char>,
    access: Access,
    first: Result<bool, Seq<char>>,
    second: Result<bool, Seq<char>>,
    is_dir: bool,
    target: Result<bool, Seq<char>>,
) -> Option<Json> {
    match first {
        Err(e) => Some(error_result(e)),
        Ok(_) => match second {
            Err(e) => Some(error_result(e)),
            Ok(false) => Some(
                error_result("refusing to "@ + verb(access) + " outside allowed roots: "@ + path),
            ),
            Ok(true) => if is_dir {
                Some(error_result("refusing to "@ + verb(access) + " because path is a directory"@))
            } else {
                match target {
                    Err(e) => Some(error_result(e)),
                    Ok(false) => Some(
                        error_result(
                            "refusing to "@ + verb(access) + " outside allowed roots: "@ + path,
                        ),
                    ),
                    Ok(true) => None,
                }
            },
        },
    }
}

fn outside_roots(path: &str, word: &str) -> (r: JsonValue)
    ensures
        r@ == error_result("refusing to "@ + word@ + " outside allowed roots: "@ + path@),
{
    let mut m = String::from_str("refusing to ");
    m.append(word);
    m.append(" outside allowed roots: ");
    m.append(path);
    tool_error_result(m)
}

/// The admission check (see [`admission`]) for the given answers.
pub fn admission_decision(
    path: &str,
    access: Access,
    first: Result<bool, String>,
    second: Result<bool, String>,
    is_dir: bool,
    target: Result<bool, String>,
) -> (r: Option<JsonValue>)
    ensures
        match r {
            Some(v) => admission(
                path@,
                access,
                verdict_view(first),
                verdict_view(second),
                is_dir,
                verdict_view(target),
            ) == Some(v@),
            None => admission(
                path@,
                access,
                verdict_view(first),
                verdict_view(second),
                is_dir,
                verdict_view(target),
            ) is None,
        },
{
    let word = match access {
        Access::Read => "read",
        Access::Write => "write",
    };
    match first {
        Err(e) => Some(tool_error_result(e)),
        Ok(_) => match second {
            Err(e) => Some(tool_error_result(e)),
            Ok(false) => Some(outside_roots(path, word)),
            Ok(true) => {
                if is_dir {
                    let mut m = String::from_str("refusing to ");
                    m.append(word);
                    m.append(" because path is a directory");
                    Some(tool_error_result(m))
                } else {
                    match target {
                        Err(e) => Some(tool_error_result(e)),
                        Ok(false) => Some(outside_roots(path, word)),
                        Ok(true) => None,
                    }
                }
            },
        },
    }
}

/// The answers that the admission check for `path` under `roots` may have met:
/// an answer of the access check on the parent; where it was no error, a
/// second one; where that allowed the path, an answer given on asking whether
/// the path is a directory; and where it is none, an answer of the check on
/// the file itself. Answers that the check never asks for are left free.
pub open spec fn admission_answers(
    path: Seq<char>,
    roots: Seq<Seq<char>>,
    first: Result<bool, Seq<char>>,
    second: Result<bool, Seq<char>>,
    is_dir: bool,
    target: Result<bool, Seq<char>>,
) -> bool {
    &&& access_outcome(path, roots, first)
    &&& first is Ok ==> access_outcome(path, roots, second)
    &&& second == Ok::<bool, Seq<char>>(true) ==> dir_seen(path, is_dir)
    &&& second == Ok::<bool, Seq<char>>(true) && !is_dir ==> target_outcome(path, roots, target)
}

/// What a file access on `path` under `roots` may come to: a relative path
/// is refused; otherwise the admission check decides, for answers that it may
/// have met (see [`admission_answers`]), between a refusal and `proceed`.
pub open spec fn file_step(
    path: Seq<char>,
    access: Access,
    roots: Seq<Seq<char>>,
    step: StepModel,
    proceed: StepModel,
) -> bool {
    if !(path.len() > 0 && path[0] == '/') {
        step == StepModel::Done(error_result("Path must be absolute"@))
    } else {
        exists|
            first: Result<bool, Seq<char>>,
            second: Result<bool, Seq<char>>,
            is_dir: bool,
            target: Result<bool, Seq<char>>,
        |
            #![trigger admission(path, access, first, second, is_dir, target)]
            admission_answers(path, roots, first, second, is_dir, target) && step == match admission(
                path,
                access,
                first,
                second,
                is_dir,
                target,
            ) {
                Some(refusal) => StepModel::Done(refusal),
                None => proceed,
            }
    }
}

/// What reading may come to: without a `path` it is refused, else see
/// [`file_step`] over the readable roots.
pub open spec fn read_step(arguments: Json, roots: Seq<Seq<char>>, step: StepModel) -> bool {
    match arguments.at("path"@).as_text() {
        None => step == StepModel::Done(error_result("path is required"@)),
        Some(p) => file_step(p, Access::Read, roots, step, StepModel::ReadFile(p)),
    }
}

/// What writing may come to: without a `path`, or without `contents`, it is
/// refused, else see [`file_step`] over the writable roots.
pub open spec fn write_step(arguments: Json, roots: Seq<Seq<char>>, step: StepModel) -> bool {
    match arguments.at("path"@).as_text() {
        None => step == StepModel::Done(error_result("path is required"@)),
        Some(p) => match arguments.at("contents"@).as_text() {
            None => step == StepModel::Done(error_result("contents is required"@)),
            Some(c) => file_step(p, Access::Write, roots, step, StepModel::WriteFile(p, c)),
        },
    }
}

pub open spec fn roots_for(config: PathConfig, access: Access) -> Seq<Seq<char>> {
    views_of(
        match access {
            Access::Read => config.readable_roots@,
            Access::Write => config.writable_roots@,
        },
    )
}

/// Runs the admission check for `path`: the access check on the parent (asked
/// twice), the directory test, then the check on the file itself, each only as
/// far as the answers so far let the access go on.
fn guard(config: &PathConfig, path: &str, access: Access) -> (r: Option<JsonValue>)
    ensures
        exists|
            first: Result<bool, Seq<char>>,
            second: Result<bool, Seq<char>>,
            is_dir: bool,
            target: Result<bool, Seq<char>>,
        |
            #![trigger admission(path@, access, first, second, is_dir, target)]
            admission_answers(path@, roots_for(*config, access), first, second, is_dir, target) && match r {
                Some(v) => admission(path@, access, first, second, is_dir, target) == Some(v@),
                None => admission(path@, access, first, second, is_dir, target) is None,
            },
{
    let roots = match access {
        Access::Read => &config.readable_roots,
        Access::Write => &config.writable_roots,
    };
    let first = config.is_allowed(path, roots);
    if first.is_err() {
        return admission_decision(path, access, first, Ok(false), false, Ok(true));
    }
    let second = config.is_allowed(path, roots);
    let is_dir = match &second {
        Ok(true) => path_is_dir(path),
        _ => false,
    };
    let target = match &second {
        Ok(true) => {
            if is_dir {
                Ok(true)
            } else {
                target_within(path, roots)
            }
        },
        _ => Ok(true),
    };
    admission_decision(path, access, first, second, is_dir, target)
}

/// The step for reading a file: the `path` argument must be given and
/// absolute, pass the access check on its parent over the readable roots and
/// the check on the file itself; a directory is refused.
pub fn read_file(arguments: &JsonValue, config: &PathConfig) -> (r: ToolStep)
    ensures
        read_step(arguments@, views_of(config.readable_roots@), r@),
{
    let path = match arguments.text_at("path") {
        Some(p) => p,
        None => {
            return ToolStep::Done(tool_error_result(String::from_str("path is required")));
        },
    };
    if !path_is_absolute(path.as_str()) {
        return ToolStep::Done(tool_error_result(String::from_str("Path must be absolute")));
    }
    match guard(config, path.as_str(), Access::Read) {
        Some(refusal) => ToolStep::Done(refusal),
        None => ToolStep::ReadFile(path.clone()),
    }
}

/// The step for writing a file: `path` and `contents` must be given, the path
/// absolute, passing the access check on its parent over the writable roots
/// and the check on the file itself; a directory is refused.
pub fn write_file(arguments: &JsonValue, config: &PathConfig) -> (r: ToolStep)
    ensures
        write_step(arguments@, views_of(config.writable_roots@), r@),
{
    let path = match arguments.text_at("path") {
        Some(p) => p,
        None => {
            return ToolStep::Done(tool_error_result(String::from_str("path is required")));
        },
    };
    let contents = match arguments.text_at("contents") {
        Some(c) => c,
        None => {
            return ToolStep::Done(tool_error_result(String::from_str("contents is required")));
        },
    };
    if !path_is_absolute(path.as_str()) {
        return ToolStep::Done(tool_error_result(String::from_str("Path must be absolute")));
    }
    match guard(config, path.as_str(), Access::Write) {
        Some(refusal) => ToolStep::Done(refusal),
        None => ToolStep::WriteFile(path.clone(), contents.clone()),
    }
}

/// Access confined to `roots`: the parent of `path`, and the file itself, lie
/// under a root as [`parent_within`] and [`file_within`] say, on the answers
/// recorded for them.
pub open spec fn confined(path: Seq<char>, roots: Seq<Seq<char>>) -> bool {
    parent_within(path, roots) && file_within(path, roots)
}

proof fn lemma_admitted_is_confined(
    path: Seq<char>,
    access: Access,
    roots: Seq<Seq<char>>,
    first: Result<bool, Seq<char>>,
    second: Result<bool, Seq<char>>,
    is_dir: bool,
    target: Result<bool, Seq<char>>,
)
    requires
        admission_answers(path, roots, first, second, is_dir, target),
        admission(path, access, first, second, is_dir, target) is None,
    ensures
        confined(path, roots),
{
    law_allowed_paths_lie_under_a_root(path, roots);
}

/// Reads stay inside the readable roots: a read step is only ever for the
/// requested path, which is absolute, and which is [`confined`] to the roots,
/// its parent and the file itself resolving under a root; a relative path is
/// always refused.
pub proof fn law_reads_only_where_allowed(arguments: Json, roots: Seq<Seq<char>>, step: StepModel)
    requires
        read_step(arguments, roots, step),
    ensures
        step matches StepModel::ReadFile(p) ==> {
            &&& arguments.at("path"@).as_text() == Some(p)
            &&& p.len() > 0 && p[0] == '/'
            &&& confined(p, roots)
        },
        arguments.at("path"@).as_text() matches Some(p) && !(p.len() > 0 && p[0] == '/') ==> step
            == StepModel::Done(error_result("Path must be absolute"@)),
{
    if let StepModel::ReadFile(q) = step {
        let p = arguments.at("path"@).as_text()->0;
        let (first, second, is_dir, target) = choose|
            first: Result<bool, Seq<char>>,
            second: Result<bool, Seq<char>>,
            is_dir: bool,
            target: Result<bool, Seq<char>>,
        |
            #![trigger admission(p, Access::Read, first, second, is_dir, target)]
            admission_answers(p, roots, first, second, is_dir, target) && step == match admission(
                p,
                Access::Read,
                first,
                second,
                is_dir,
                target,
            ) {
                Some(refusal) => StepModel::Done(refusal),
                None => StepModel::ReadFile(p),
            };
        lemma_admitted_is_confined(p, Access::Read, roots, first, second, is_dir, target);
    }
}

/// Writes stay inside the writable roots: a write step only ever writes the
/// requested contents to the requested path, which is absolute, and which is
/// [`confined`] to the roots; a relative path is always refused.
pub proof fn law_writes_only_where_allowed(arguments: Json, roots: Seq<Seq<char>>, step: StepModel)
    requires
        write_step(arguments, roots, step),
    ensures
        step matches StepModel::WriteFile(p, c) ==> {
            &&& arguments.at("path"@).as_text() == Some(p)
            &&& arguments.at("contents"@).as_text() == Some(c)
            &&& p.len() > 0 && p[0] == '/'
            &&& confined(p, roots)
        },
        arguments.at("path"@).as_text() matches Some(p) && arguments.at("contents"@).as_text() is Some
            && !(p.len() > 0 && p[0] == '/') ==> step == StepModel::Done(
            error_result("Path must be absolute"@),
        ),
{
    if let StepModel::WriteFile(q, d) = step {
        let p = arguments.at("path"@).as_text()->0;
        let c = arguments.at("contents"@).as_text()->0;
        let (first, second, is_dir, target) = choose|
            first: Result<bool, Seq<char>>,
            second: Result<bool, Seq<char>>,
            is_dir: bool,
            target: Result<bool, Seq<char>>,
        |
            #![trigger admission(p, Access::Write, first, second, is_dir, target)]
            admission_answers(p, roots, first, second, is_dir, target) && step == match admission(
                p,
                Access::Write,
                first,
                second,
                is_dir,
                target,
            ) {
                Some(refusal) => StepModel::Done(refusal),
                None => StepModel::WriteFile(p, c),
            };
        lemma_admitted_is_confined(p, Access::Write, roots, first, second, is_dir, target);
    }
}

pub open spec fn read_outcome(r: Result<Seq<char>, Seq<char>>) -> Json {
    match r {
        Ok(text) => text_result(text),
        Err(e) => error_result("failed to read file: "@ + e),
    }
}

/// A read hands the file back whole: for every text `t` that the read gave,
/// the result is a successful tool result (no `isError`) whose one text item is
/// `t` unchanged; a failed read is an error result whose text is the read error
/// after "failed to read file: ".
pub proof fn law_read_hands_back_the_contents(t: Seq<char>, e: Seq<char>)
    ensures
        read_outcome(Ok(t)).get("isError"@) is None,
        read_outcome(Ok(t)).at("content"@) matches Json::Array(items) && items.len() == 1 && items[0].at(
            "text"@,
        ) == Json::Str(t),
        read_outcome(Err(e)).at("isError"@) == Json::Bool(true),
        read_outcome(Err(e)).at("content"@) matches Json::Array(items) && items.len() == 1 && items[0].at(
            "text"@,
        ) == Json::Str("failed to read file: "@ + e),
{
    law_tool_result_shape(t);
    law_tool_result_shape("failed to read file: "@ + e);
}

/// The tool result of reading a file, given its contents or the read error.
pub fn read_file_result(contents: Result<String, String>) -> (r: JsonValue)
    ensures
        r@ == read_outcome(outcome_of(contents)),
{
    match contents {
        Ok(text) => tool_text_result(text),
        Err(e) => {
            let mut m = String::from_str("failed to read file: ");
            m.append(e.as_str());
            tool_error_result(m)
        },
    }
}

pub open spec fn write_outcome(path: Seq<char>, byte_count: nat, r: Result<(), Seq<char>>) -> Json {
    match r {
        Ok(_) => text_result("wrote "@ + decimal(byte_count) + " bytes to "@ + path),
        Err(e) => error_result("failed to write file: "@ + e),
    }
}

/// A write reports what it did: on success a result (no `isError`) whose text
/// starts with "wrote ", then the byte count in decimal, and ends with the path
/// written; on failure an error result carrying the write error after
/// "failed to write file: ".
pub proof fn law_write_reports_count_and_path(path: Seq<char>, byte_count: nat, e: Seq<char>)
    ensures
        write_outcome(path, byte_count, Ok(())).get("isError"@) is None,
        write_outcome(path, byte_count, Ok(())).at("content"@) matches Json::Array(items) && items.len()
            == 1 && (items[0].at("text"@) matches Json::Str(t) && t.take(6) == "wrote "@ && t.subrange(
            6,
            6 + decimal(byte_count).len() as int,
        ) == decimal(byte_count) && t.len() >= path.len() && t.skip(t.len() - path.len()) == path),
        write_outcome(path, byte_count, Err(e)).at("isError"@) == Json::Bool(true),
        write_outcome(path, byte_count, Err(e)).at("content"@) matches Json::Array(items) && items.len()
            == 1 && items[0].at("text"@) == Json::Str("failed to write file: "@ + e),
{
    let t = "wrote "@ + decimal(byte_count) + " bytes to "@ + path;
    law_tool_result_shape(t);
    law_tool_result_shape("failed to write file: "@ + e);
    reveal_strlit("wrote ");
    assert(t.take(6) =~= "wrote "@);
    assert(t.subrange(6, 6 + decimal(byte_count).len() as int) =~= decimal(byte_count));
    assert(t.skip(t.len() - path.len()) =~= path);
}

pub open spec fn unit_outcome(r: Result<(), String>) -> Result<(), Seq<char>> {
    match r {
        Ok(u) => Ok(u),
        Err(e) => Err(e@),
    }
}

/// The tool result of writing `contents` to `path`, given the write's outcome:
/// the number of bytes written and where, or the write error.
pub fn write_file_result(path: &str, contents: &str, written: Result<(), String>) -> (r: JsonValue)
    ensures
        r@ == write_outcome(path@, contents.len() as nat, unit_outcome(written)),
{
    match written {
        Ok(_) => {
            let mut m = String::from_str("wrote ");
            let count = decimal_text(contents.len() as u64);
            m.append(count.as_str());
            m.append(" bytes to ");
            m.append(path);
            tool_text_result(m)
        },
        Err(e) => {
            let mut m = String::from_str("failed to write file: ");
            m.append(e.as_str());
            tool_error_result(m)
        },
    }
}

} // verus!
