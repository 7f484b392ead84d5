//! Workspaces: creating them, preparing the runner script for their code,
//! and reading back what a run printed.

use vstd::prelude::*;
use crate::ids::{is_utc_rfc3339, is_v4_uuid_text, new_uuid, now_rfc3339};
use crate::models::{Dataset, ExecutionResult, Workspace};
use crate::store::{json_string_array, string_views, tags_to_json};
use crate::text::{
    chars_of, extend_chars, find_last, has_prefix, occurs_at, remove_char, remove_char_chars,
    replace_all, replace_char, replace_char_chars, replace_chars, slice_chars, starts_with,
    str_is, string_of, trim, trim_chars,
};
use crate::viewer::{utf8_lossy};

verus! {

// ---------------------------------------------------------------------------
// Creating workspaces
// ---------------------------------------------------------------------------

/// Why a workspace operation was refused.
#[derive(Debug, Clone, Copy, PartialEq, Eq, Structural)]
pub enum WorkspaceError {
    /// The workspace's dataset does not exist.
    DatasetNotFound,
    /// No workspace has the given id.
    WorkspaceNotFound,
}

impl WorkspaceError {
    /// The message the server reports for this error.
    pub fn message(&self) -> (m: String)
        ensures
            m@ == match *self {
                WorkspaceError::DatasetNotFound => "Dataset not found"@,
                WorkspaceError::WorkspaceNotFound => "Workspace not found"@,
            },
    {
        match self {
            WorkspaceError::DatasetNotFound => string_of(chars_of("Dataset not found").as_slice()),
            WorkspaceError::WorkspaceNotFound => string_of(
                chars_of("Workspace not found").as_slice(),
            ),
        }
    }
}

/// A new workspace on `dataset` (the dataset found under `dataset_id`, if
/// any): fresh id, empty code, created and updated now.
pub fn create_workspace_server(name: String, dataset_id: String, dataset: Option<Dataset>) -> (r:
    Result<Workspace, WorkspaceError>)
    ensures
        dataset is None <==> r is Err,
        match r {
            Ok(ws) => is_v4_uuid_text(ws.id@) && is_utc_rfc3339(ws.created_at@) && ws.name == name && ws.dataset_id == dataset_id
                && ws.dataset_name == dataset->0.name && ws.code@.len() == 0 && ws.created_at@
                == ws.updated_at@,
            Err(e) => e == WorkspaceError::DatasetNotFound,
        },
{
    match dataset {
        None => Err(WorkspaceError::DatasetNotFound),
        Some(d) => {
            let now = now_rfc3339();
            let ws = Workspace {
                id: new_uuid(),
                name,
                dataset_id,
                dataset_name: d.name,
                code: String::new(),
                created_at: now.clone(),
                updated_at: now,
            };
            Ok(ws)
        },
    }
}

/// The code an editor opens with: the workspace's saved code, or a starter
/// snippet naming its dataset.
pub open spec fn initial_code_of(ws: Workspace) -> Seq<char> {
    if ws.code@.len() == 0 {
        "# Dataset '"@ + ws.dataset_name@ + STARTER_TAIL@
    } else {
        ws.code@
    }
}

/// The starter snippet after the dataset name.
pub const STARTER_TAIL: &'static str = "' is pre-loaded as `df`
# Available splits: splits.keys()
import pandas as pd
import numpy as np

print(\"Dataset shape:\", df.shape)
print(\"Columns:\", df.columns.tolist())

# Create a summary table (visible in the Table tab)
summary = df.describe()
print(summary)
";

/// The code an editor opens with.
pub fn initial_code(ws: &Workspace) -> (c: String)
    ensures
        c@ == initial_code_of(*ws),
{
    if ws.code.as_str().is_empty() {
        let mut out = chars_of("# Dataset '");
        extend_chars(&mut out, chars_of(ws.dataset_name.as_str()).as_slice());
        extend_chars(&mut out, chars_of(STARTER_TAIL).as_slice());
        string_of(out.as_slice())
    } else {
        ws.code.clone()
    }
}

// ---------------------------------------------------------------------------
// The runner script
// ---------------------------------------------------------------------------

/// User code with every `'''` escaped, so that it fits in the runner's
/// triple-quoted string.
pub open spec fn escaped_code_of(code: Seq<char>) -> Seq<char> {
    replace_all(code, "'''"@, "\\'\\'\\'"@)
}

/// User code with every `'''` replaced by `\'\'\'`.
pub fn escape_user_code(code: &str) -> (e: String)
    ensures
        e@ == escaped_code_of(code@),
{
    let pat = chars_of("'''");
    proof {
        reveal_strlit("'''");
    }
    let r = replace_chars(chars_of(code).as_slice(), pat.as_slice(), chars_of("\\'\\'\\'").as_slice());
    string_of(r.as_slice())
}

/// The runner script: the template with its placeholders for the dataset
/// directory, the parquet paths and the user's (escaped) code filled in, in
/// that order.
pub open spec fn runner_script_of(
    template: Seq<char>,
    abs_base: Seq<char>,
    parquet_json: Seq<char>,
    code: Seq<char>,
) -> Seq<char> {
    replace_all(
        replace_all(
            replace_all(template, "__ABS_BASE_STR__"@, abs_base),
            "__PARQUET_PATHS_JSON__"@,
            parquet_json,
        ),
        "__USER_CODE__"@,
        escaped_code_of(code),
    )
}

/// Fills in the runner template.
pub fn build_runner_script(template: &str, abs_base: &str, parquet_json: &str, code: &str) -> (s:
    String)
    ensures
        s@ == runner_script_of(template@, abs_base@, parquet_json@, code@),
{
    proof {
        reveal_strlit("__ABS_BASE_STR__");
        reveal_strlit("__PARQUET_PATHS_JSON__");
        reveal_strlit("__USER_CODE__");
    }
    let a = replace_chars(
        chars_of(template).as_slice(),
        chars_of("__ABS_BASE_STR__").as_slice(),
        chars_of(abs_base).as_slice(),
    );
    let b = replace_chars(
        a.as_slice(),
        chars_of("__PARQUET_PATHS_JSON__").as_slice(),
        chars_of(parquet_json).as_slice(),
    );
    let escaped = escape_user_code(code);
    let c = replace_chars(
        b.as_slice(),
        chars_of("__USER_CODE__").as_slice(),
        chars_of(escaped.as_str()).as_slice(),
    );
    string_of(c.as_slice())
}

/// The JSON array of the dataset's parquet paths handed to the runner.
pub fn parquet_paths_json(paths: &Vec<String>) -> (j: String)
    ensures
        j@ == json_string_array(string_views(paths@)),
{
    tags_to_json(paths)
}

/// The file name of a workspace's runner script: its id without hyphens.
pub open spec fn script_file_name_of(ws_id: Seq<char>) -> Seq<char> {
    "open_fair_flow_run_"@ + remove_char(ws_id, '-') + ".py"@
}

/// The file name of a workspace's runner script.
pub fn script_file_name(ws_id: &str) -> (n: String)
    ensures
        n@ == script_file_name_of(ws_id@),
{
    let mut out = chars_of("open_fair_flow_run_");
    extend_chars(&mut out, remove_char_chars(chars_of(ws_id).as_slice(), '-').as_slice());
    extend_chars(&mut out, chars_of(".py").as_slice());
    string_of(out.as_slice())
}

/// A path with backslashes turned into slashes.
pub open spec fn forward_slashes_of(p: Seq<char>) -> Seq<char> {
    replace_char(p, '\\', '/')
}

/// A canonical path as the runner sees it: forward slashes, without the
/// `//?/` prefix of Windows extended paths.
pub open spec fn runner_path_of(p: Seq<char>) -> Seq<char> {
    let s = forward_slashes_of(p);
    if has_prefix(s, "//?/"@) {
        s.skip(4)
    } else {
        s
    }
}

/// A path with backslashes turned into slashes.
pub fn forward_slashes(p: &str) -> (s: String)
    ensures
        s@ == forward_slashes_of(p@),
{
    string_of(replace_char_chars(chars_of(p).as_slice(), '\\', '/').as_slice())
}

/// A canonical path as the runner sees it.
pub fn runner_path(p: &str) -> (s: String)
    ensures
        s@ == runner_path_of(p@),
{
    let f = replace_char_chars(chars_of(p).as_slice(), '\\', '/');
    let prefix = chars_of("//?/");
    proof {
        reveal_strlit("//?/");
    }
    if starts_with(f.as_slice(), prefix.as_slice()) {
        string_of(slice_chars(f.as_slice(), 4, f.len()).as_slice())
    } else {
        string_of(f.as_slice())
    }
}

/// Whether a file with this extension is a parquet file (exact match).
pub fn is_parquet_extension(ext: &str) -> (b: bool)
    ensures
        b == (ext@ == "parquet"@),
{
    str_is(ext, "parquet")
}

// ---------------------------------------------------------------------------
// Reading the run's output
// ---------------------------------------------------------------------------

/// The marker after which the runner prints its JSON result.
pub open spec fn result_marker() -> Seq<char> {
    "__FEDLAB_RESULT__"@
}

/// The last index at which `p` occurs in `s` (meaningful when it occurs).
pub open spec fn last_index(s: Seq<char>, p: Seq<char>) -> int {
    choose|i: int| occurs_at(s, p, i) && forall|j: int| i < j ==> !occurs_at(s, p, j)
}

/// The JSON text after the last result marker of the output, trimmed.
pub open spec fn result_json_of(stdout: Seq<char>) -> Option<Seq<char>> {
    if exists|i: int| occurs_at(stdout, result_marker(), i) {
        Some(trim(stdout.skip(last_index(stdout, result_marker()) + result_marker().len())))
    } else {
        None
    }
}

/// The JSON text after the last result marker of the output, trimmed.
pub fn result_json_text(stdout: &str) -> (r: Option<String>)
    ensures
        match r {
            Some(t) => result_json_of(stdout@) == Some(t@),
            None => result_json_of(stdout@) is None,
        },
{
    let s = chars_of(stdout);
    let marker = chars_of("__FEDLAB_RESULT__");
    match find_last(s.as_slice(), marker.as_slice()) {
        None => None,
        Some(i) => {
            proof {
                assert(occurs_at(s@, marker@, i as int) && forall|j: int| i < j ==> !occurs_at(s@, marker@, j));
                let k = last_index(s@, marker@);
                assert(occurs_at(s@, marker@, k) && forall|j: int| k < j ==> !occurs_at(s@, marker@, j));
                if k < i {
                    assert(!occurs_at(s@, marker@, i as int));
                }
                if k > i {
                    assert(!occurs_at(s@, marker@, k));
                }
                assert(marker@ == result_marker());
                assert(occurs_at(stdout@, result_marker(), i as int));
                assert(last_index(s@, marker@) == i as int);
            }
            let ml = marker.len();
            let sl = s.len();
            assert(i + ml <= sl);
            let rest = slice_chars(s.as_slice(), i + ml, sl);
            assert(rest@ == s@.skip(i + marker@.len()));
            Some(string_of(trim_chars(rest.as_slice()).as_slice()))
        },
    }
}

/// A member of the runner's JSON result object, as far as the result is read.
#[derive(Debug, Clone, PartialEq)]
pub enum JsonMember {
    /// A string.
    Text(String),
    /// An array; its string elements, and `None` for the others.
    List(Vec<Option<String>>),
    /// Anything else.
    Other,
}

/// The view of a member.
pub enum JsonMemberView {
    Text(Seq<char>),
    List(Seq<Option<Seq<char>>>),
    Other,
}

pub open spec fn opt_text_view(o: Option<String>) -> Option<Seq<char>> {
    match o {
        Some(s) => Some(s@),
        None => None,
    }
}

pub open spec fn member_view(m: JsonMember) -> JsonMemberView {
    match m {
        JsonMember::Text(s) => JsonMemberView::Text(s@),
        JsonMember::List(items) => JsonMemberView::List(items@.map_values(|o: Option<String>| opt_text_view(o))),
        JsonMember::Other => JsonMemberView::Other,
    }
}

pub open spec fn members_view(ms: Seq<(String, JsonMember)>) -> Seq<(Seq<char>, JsonMemberView)> {
    ms.map_values(|m: (String, JsonMember)| (m.0@, member_view(m.1)))
}

/// What `serde_json::from_str::<serde_json::Value>` makes of the text, as
/// far as the result is read: `None` if it is not JSON; otherwise the
/// members of the top-level object (none when the value is not an object).
pub uninterp spec fn runner_json_of(text: Seq<char>) -> Option<Seq<(Seq<char>, JsonMemberView)>>;

/// Parses the runner's JSON result (`serde_json::from_str::<Value>`) and
/// keeps its top-level members: strings, arrays (with their string
/// elements), and the rest. Claimed: the result depends on the text alone.
#[verifier::external_body]
fn parse_runner_json(text: &str) -> (r: Option<Vec<(String, JsonMember)>>)
    ensures
        match r {
            Some(ms) => runner_json_of(text@) == Some(members_view(ms@)),
            None => runner_json_of(text@) is None,
        },
{
    let value: serde_json::Value = serde_json::from_str(text).ok()?;
    let serde_json::Value::Object(map) = value else { return Some(Vec::new()) };
    Some(map.into_iter().map(|(k, v)| (k, match v {
        serde_json::Value::String(s) => JsonMember::Text(s),
        serde_json::Value::Array(items) => JsonMember::List(items.into_iter().map(|e| match e {
            serde_json::Value::String(s) => Some(s),
            _ => None,
        }).collect()),
        _ => JsonMember::Other,
    })).collect())
}

/// The first member named `key`.
pub open spec fn member_named(ms: Seq<(Seq<char>, JsonMemberView)>, key: Seq<char>) -> Option<JsonMemberView>
    decreases ms.len(),
{
    if ms.len() == 0 {
        None
    } else if ms[0].0 == key {
        Some(ms[0].1)
    } else {
        member_named(ms.drop_first(), key)
    }
}

/// The string member `key` (`value[key].as_str()`).
pub open spec fn text_member(ms: Seq<(Seq<char>, JsonMemberView)>, key: Seq<char>) -> Option<Seq<char>> {
    match member_named(ms, key) {
        Some(JsonMemberView::Text(s)) => Some(s),
        _ => None,
    }
}

/// The string elements, in order.
pub open spec fn present(items: Seq<Option<Seq<char>>>) -> Seq<Seq<char>>
    decreases items.len(),
{
    if items.len() == 0 {
        Seq::<Seq<char>>::empty()
    } else {
        match items.last() {
            Some(s) => present(items.drop_last()).push(s),
            None => present(items.drop_last()),
        }
    }
}

/// The string elements of the array member `key`, or none.
pub open spec fn list_member(ms: Seq<(Seq<char>, JsonMemberView)>, key: Seq<char>) -> Seq<Seq<char>> {
    match member_named(ms, key) {
        Some(JsonMemberView::List(items)) => present(items),
        _ => Seq::<Seq<char>>::empty(),
    }
}

pub open spec fn or_empty(o: Option<Seq<char>>) -> Seq<char> {
    match o {
        Some(s) => s,
        None => Seq::<char>::empty(),
    }
}

/// The result a run reports through its JSON: its fields, with the process's
/// own standard error appended to the reported one.
pub open spec fn result_from_json(r: ExecutionResult, ms: Seq<(Seq<char>, JsonMemberView)>, raw_stderr: Seq<char>) -> bool {
    &&& r.stdout@ == or_empty(text_member(ms, "stdout"@))
    &&& r.stderr@ == or_empty(text_member(ms, "stderr"@)) + raw_stderr
    &&& string_views(r.plots@) == list_member(ms, "plots"@)
    &&& opt_text_view(r.table_html) == text_member(ms, "table_html"@)
    &&& string_views(r.xai_plots@) == list_member(ms, "xai_plots"@)
    &&& opt_text_view(r.xai_html) == text_member(ms, "xai_html"@)
}

fn find_member<'a>(ms: &'a Vec<(String, JsonMember)>, key: &str) -> (r: Option<&'a JsonMember>)
    ensures
        match r {
            Some(m) => member_named(members_view(ms@), key@) == Some(member_view(*m)),
            None => member_named(members_view(ms@), key@) is None,
        },
{
    let ghost v = members_view(ms@);
    let mut i: usize = 0;
    assert(v.skip(0) == v);
    while i < ms.len()
        invariant
            i <= ms@.len(),
            v == members_view(ms@),
            member_named(v, key@) == member_named(v.skip(i as int), key@),
        decreases ms.len() - i,
    {
        assert(v.skip(i as int)[0] == (ms@[i as int].0@, member_view(ms@[i as int].1)));
        if str_is(ms[i].0.as_str(), key) {
            return Some(&ms[i].1);
        }
        assert(v.skip(i as int).drop_first() == v.skip(i + 1));
        i += 1;
    }
    None
}

fn text_of(ms: &Vec<(String, JsonMember)>, key: &str) -> (r: Option<String>)
    ensures
        opt_text_view(r) == text_member(members_view(ms@), key@),
{
    match find_member(ms, key) {
        Some(JsonMember::Text(s)) => Some(s.clone()),
        _ => None,
    }
}

fn list_of(ms: &Vec<(String, JsonMember)>, key: &str) -> (r: Vec<String>)
    ensures
        string_views(r@) == list_member(members_view(ms@), key@),
{
    let mut out: Vec<String> = Vec::new();
    match find_member(ms, key) {
        Some(JsonMember::List(items)) => {
            let ghost iv = items@.map_values(|o: Option<String>| opt_text_view(o));
            let mut i: usize = 0;
            while i < items.len()
                invariant
                    i <= items@.len(),
                    iv == items@.map_values(|o: Option<String>| opt_text_view(o)),
                    string_views(out@) == present(iv.take(i as int)),
                decreases items.len() - i,
            {
                assert(iv.take(i + 1).drop_last() == iv.take(i as int));
                assert(iv.take(i + 1).last() == opt_text_view(items@[i as int]));
                if let Some(s) = &items[i] {
                    out.push(s.clone());
                    assert(string_views(out@) =~= present(iv.take(i as int)).push(s@));
                }
                i += 1;
            }
            assert(iv.take(items.len() as int) == iv);
        },
        _ => {
            assert(string_views(out@) =~= Seq::<Seq<char>>::empty());
        },
    }
    out
}

/// The result a run reports through its JSON result object.
pub fn execution_result_from_json(ms: &Vec<(String, JsonMember)>, raw_stderr: &str) -> (r:
    ExecutionResult)
    ensures
        result_from_json(r, members_view(ms@), raw_stderr@),
{
    let stdout = match text_of(ms, "stdout") {
        Some(s) => s,
        None => String::new(),
    };
    let reported = match text_of(ms, "stderr") {
        Some(s) => s,
        None => String::new(),
    };
    let stderr = if raw_stderr.is_empty() {
        assert(raw_stderr@ =~= Seq::<char>::empty());
        assert(reported@ + raw_stderr@ == reported@);
        reported
    } else {
        let mut e = chars_of(reported.as_str());
        extend_chars(&mut e, chars_of(raw_stderr).as_slice());
        string_of(e.as_slice())
    };
    ExecutionResult {
        stdout,
        stderr,
        plots: list_of(ms, "plots"),
        table_html: text_of(ms, "table_html"),
        xai_plots: list_of(ms, "xai_plots"),
        xai_html: text_of(ms, "xai_html"),
    }
}

proof fn lemma_present_all(items: Seq<Option<Seq<char>>>)
    requires
        forall|i: int| 0 <= i < items.len() ==> (#[trigger] items[i]) is Some,
    ensures
        present(items).len() == items.len(),
        forall|i: int| 0 <= i < items.len() ==> #[trigger] present(items)[i] == items[i]->0,
    decreases items.len(),
{
    if items.len() > 0 {
        let d = items.drop_last();
        assert forall|i: int| 0 <= i < d.len() implies (#[trigger] d[i]) is Some by {
            assert(d[i] == items[i]);
        }
        lemma_present_all(d);
        assert(items.last() == items[items.len() - 1]);
        assert forall|i: int| 0 <= i < items.len() implies #[trigger] present(items)[i] == items[i]->0 by {
            if i < d.len() {
                assert(d[i] == items[i]);
            }
        }
    }
}

/// A list member whose elements are all strings reaches the result whole:
/// the same strings, in the same order.
pub open spec fn carries_list(out: Seq<String>, ms: Seq<(Seq<char>, JsonMemberView)>, key: Seq<char>) -> bool {
    match member_named(ms, key) {
        Some(JsonMemberView::List(items)) => (forall|i: int| 0 <= i < items.len() ==> (#[trigger] items[i]) is Some)
            ==> out.len() == items.len() && forall|i: int| 0 <= i < items.len() ==> #[trigger] out[i]@ == items[i]->0,
        _ => out.len() == 0,
    }
}

/// What a run reports through its JSON reaches the result unchanged: the
/// plots and the XAI plots are the strings of the arrays named `plots` and
/// `xai_plots`, in order (none where there is no such array); the table and
/// the XAI HTML are the strings named `table_html` and `xai_html`; standard
/// output is the string `stdout`; standard error is the string `stderr`
/// followed by the process's own.
pub proof fn law_run_result_carries_json(r: ExecutionResult, ms: Seq<(Seq<char>, JsonMemberView)>, raw: Seq<char>)
    requires
        result_from_json(r, ms, raw),
    ensures
        carries_list(r.plots@, ms, "plots"@),
        carries_list(r.xai_plots@, ms, "xai_plots"@),
        match member_named(ms, "table_html"@) {
            Some(JsonMemberView::Text(t)) => r.table_html is Some && r.table_html->0@ == t,
            _ => r.table_html is None,
        },
        match member_named(ms, "xai_html"@) {
            Some(JsonMemberView::Text(t)) => r.xai_html is Some && r.xai_html->0@ == t,
            _ => r.xai_html is None,
        },
        match member_named(ms, "stdout"@) {
            Some(JsonMemberView::Text(t)) => r.stdout@ == t,
            _ => r.stdout@.len() == 0,
        },
        match member_named(ms, "stderr"@) {
            Some(JsonMemberView::Text(t)) => r.stderr@ == t + raw,
            _ => r.stderr@ == raw,
        },
{
    lemma_carries(r.plots@, ms, "plots"@);
    lemma_carries(r.xai_plots@, ms, "xai_plots"@);
    assert(Seq::<char>::empty() + raw =~= raw);
}

proof fn lemma_carries(out: Seq<String>, ms: Seq<(Seq<char>, JsonMemberView)>, key: Seq<char>)
    requires
        string_views(out) == list_member(ms, key),
    ensures
        carries_list(out, ms, key),
{
    match member_named(ms, key) {
        Some(JsonMemberView::List(items)) => {
            if forall|i: int| 0 <= i < items.len() ==> (#[trigger] items[i]) is Some {
                lemma_present_all(items);
                assert forall|i: int| 0 <= i < items.len() implies #[trigger] out[i]@ == items[i]->0 by {
                    assert(string_views(out)[i] == out[i]@);
                }
            }
        },
        _ => {
            assert(string_views(out).len() == 0);
        },
    }
}

/// How the runner process ended.
#[derive(Debug, Clone, PartialEq)]
pub enum RunOutcome {
    /// It ran to completion, with this output.
    Finished { stdout: Vec<u8>, stderr: Vec<u8> },
    /// It could not be started; the error as displayed.
    SpawnFailed(String),
    /// It ran longer than the time limit.
    TimedOut,
}

/// A result that carries only a message on standard error.
pub open spec fn error_only(r: ExecutionResult, stderr: Seq<char>) -> bool {
    &&& r.stdout@.len() == 0
    &&& r.stderr@ == stderr
    &&& r.plots@.len() == 0
    &&& r.table_html is None
    &&& r.xai_plots@.len() == 0
    &&& r.xai_html is None
}

/// The message for a runner that could not be started.
pub open spec fn spawn_failure_text(err: Seq<char>) -> Seq<char> {
    "Failed to execute Python: "@ + err + "\nMake sure Python is installed and accessible in PATH."@
}

/// What a run produced: the JSON result after the marker when there is one
/// and it parses; else the raw output; or the reason the run did not finish.
pub fn execution_result(outcome: RunOutcome) -> (r: ExecutionResult)
    ensures
        match outcome {
            RunOutcome::Finished { stdout, stderr } => {
                let out = utf8_lossy(stdout@);
                let err = utf8_lossy(stderr@);
                match result_json_of(out) {
                    Some(j) => match runner_json_of(j) {
                        Some(ms) => result_from_json(r, ms, err),
                        None => r.stdout@ == out && error_only_but_stdout(r, err),
                    },
                    None => r.stdout@ == out && error_only_but_stdout(r, err),
                }
            },
            RunOutcome::SpawnFailed(e) => error_only(r, spawn_failure_text(e@)),
            RunOutcome::TimedOut => error_only(r, "Execution timed out after 30 minutes."@),
        },
{
    match outcome {
        RunOutcome::Finished { stdout, stderr } => {
            let out = crate::viewer::lossy_text(stdout.as_slice());
            let err = crate::viewer::lossy_text(stderr.as_slice());
            if let Some(j) = result_json_text(out.as_str()) {
                if let Some(ms) = parse_runner_json(j.as_str()) {
                    return execution_result_from_json(&ms, err.as_str());
                }
            }
            ExecutionResult {
                stdout: out,
                stderr: err,
                plots: Vec::new(),
                table_html: None,
                xai_plots: Vec::new(),
                xai_html: None,
            }
        },
        RunOutcome::SpawnFailed(e) => {
            let mut m = chars_of("Failed to execute Python: ");
            extend_chars(&mut m, chars_of(e.as_str()).as_slice());
            extend_chars(
                &mut m,
                chars_of("\nMake sure Python is installed and accessible in PATH.").as_slice(),
            );
            empty_result_with(string_of(m.as_slice()))
        },
        RunOutcome::TimedOut => empty_result_with(
            string_of(chars_of("Execution timed out after 30 minutes.").as_slice()),
        ),
    }
}

/// The raw-output result: nothing besides the two streams.
pub open spec fn error_only_but_stdout(r: ExecutionResult, stderr: Seq<char>) -> bool {
    &&& r.stderr@ == stderr
    &&& r.plots@.len() == 0
    &&& r.table_html is None
    &&& r.xai_plots@.len() == 0
    &&& r.xai_html is None
}

/// A result with only a message on standard error.
pub fn empty_result_with(stderr: String) -> (r: ExecutionResult)
    ensures
        error_only(r, stderr@),
{
    ExecutionResult {
        stdout: String::new(),
        stderr,
        plots: Vec::new(),
        table_html: None,
        xai_plots: Vec::new(),
        xai_html: None,
    }
}

} // verus!
