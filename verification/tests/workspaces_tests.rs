use open_fair_flow::models::{Dataset, Workspace};
use open_fair_flow::workspaces::{
    build_runner_script, create_workspace_server, escape_user_code, execution_result,
    execution_result_from_json, forward_slashes, initial_code, is_parquet_extension,
    parquet_paths_json, result_json_text, runner_path, script_file_name, JsonMember, RunOutcome,
    WorkspaceError,
};

fn dataset() -> Dataset {
    Dataset {
        id: "d1".to_string(),
        name: "MNIST train".to_string(),
        dataset_type: "MNIST".to_string(),
        description: String::new(),
        tags: vec![],
        format: String::new(),
        num_samples: None,
        num_classes: None,
        file_size: 0,
        source: "local".to_string(),
        file_path: String::new(),
        created_at: String::new(),
        status: "ready".to_string(),
    }
}

#[test]
fn creating_workspaces() {
    assert_eq!(
        create_workspace_server("w".to_string(), "d1".to_string(), None),
        Err(WorkspaceError::DatasetNotFound)
    );
    let ws = create_workspace_server("w".to_string(), "d1".to_string(), Some(dataset())).unwrap();
    assert_eq!(ws.name, "w");
    assert_eq!(ws.dataset_id, "d1");
    assert_eq!(ws.dataset_name, "MNIST train");
    assert!(ws.code.is_empty());
    assert_eq!(ws.created_at, ws.updated_at);
    assert!(ws.created_at.ends_with("+00:00") && ws.created_at.chars().nth(10) == Some('T'));
    assert_eq!(ws.id.chars().nth(14), Some('4'));
    assert_eq!(ws.id.len(), 36);
    assert_eq!(WorkspaceError::DatasetNotFound.message(), "Dataset not found");
    assert_eq!(WorkspaceError::WorkspaceNotFound.message(), "Workspace not found");
}

#[test]
fn editor_starts_with_saved_code_or_a_starter() {
    let mut ws = Workspace {
        id: "i".to_string(),
        name: "n".to_string(),
        dataset_id: "d".to_string(),
        dataset_name: "Digits".to_string(),
        code: String::new(),
        created_at: String::new(),
        updated_at: String::new(),
    };
    let starter = initial_code(&ws);
    assert!(starter.starts_with("# Dataset 'Digits' is pre-loaded as `df`\n"));
    assert!(starter.ends_with("summary = df.describe()\nprint(summary)\n"));
    ws.code = "print(1)".to_string();
    assert_eq!(initial_code(&ws), "print(1)");
}

#[test]
fn runner_script() {
    assert_eq!(escape_user_code("x = '''doc'''"), "x = \\'\\'\\'doc\\'\\'\\'");
    assert_eq!(escape_user_code("''''"), "\\'\\'\\''");
    let t = "base=__ABS_BASE_STR__ files=__PARQUET_PATHS_JSON__\n__USER_CODE__\n__USER_CODE__";
    assert_eq!(
        build_runner_script(t, "/data/d1", "[\"a.parquet\"]", "s = '''x'''"),
        "base=/data/d1 files=[\"a.parquet\"]\ns = \\'\\'\\'x\\'\\'\\'\ns = \\'\\'\\'x\\'\\'\\'"
    );
    assert_eq!(build_runner_script("none", "a", "b", "c"), "none");
    assert_eq!(parquet_paths_json(&vec!["/a/b.parquet".to_string()]), "[\"/a/b.parquet\"]");
    assert_eq!(parquet_paths_json(&vec![]), "[]");
}

#[test]
fn script_names_and_paths() {
    assert_eq!(
        script_file_name("0f8e-12ab-34cd"),
        "open_fair_flow_run_0f8e12ab34cd.py"
    );
    assert_eq!(forward_slashes("C:\\data\\x.parquet"), "C:/data/x.parquet");
    assert_eq!(runner_path("\\\\?\\C:\\data"), "C:/data");
    assert_eq!(runner_path("/home/u/data"), "/home/u/data");
    assert!(is_parquet_extension("parquet"));
    assert!(!is_parquet_extension("PARQUET"));
}

#[test]
fn result_marker_text() {
    assert_eq!(result_json_text("log\n__FEDLAB_RESULT__ {\"a\":1}\n"), Some("{\"a\":1}".to_string()));
    assert_eq!(
        result_json_text("__FEDLAB_RESULT__x __FEDLAB_RESULT__ y "),
        Some("y".to_string())
    );
    assert_eq!(result_json_text("no marker"), None);
}

#[test]
fn result_from_members() {
    let ms = vec![
        ("stdout".to_string(), JsonMember::Text("out".to_string())),
        ("plots".to_string(), JsonMember::List(vec![Some("p1".to_string()), None, Some("p2".to_string())])),
        ("stderr".to_string(), JsonMember::Text("warn\n".to_string())),
        ("table_html".to_string(), JsonMember::Other),
        ("xai_html".to_string(), JsonMember::Text("<b>".to_string())),
    ];
    let r = execution_result_from_json(&ms, "boom");
    assert_eq!(r.stdout, "out");
    assert_eq!(r.stderr, "warn\nboom");
    assert_eq!(r.plots, vec!["p1".to_string(), "p2".to_string()]);
    assert_eq!(r.table_html, None);
    assert!(r.xai_plots.is_empty());
    assert_eq!(r.xai_html, Some("<b>".to_string()));
    assert_eq!(execution_result_from_json(&ms, "").stderr, "warn\n");
}

#[test]
fn results_of_runs() {
    let out = b"training...\n__FEDLAB_RESULT__{\"stdout\":\"done\",\"stderr\":\"\",\"plots\":[\"a\",3],\"table_html\":\"<t>\",\"xai_plots\":[],\"xai_html\":null}\n".to_vec();
    let r = execution_result(RunOutcome::Finished { stdout: out, stderr: b"err".to_vec() });
    assert_eq!(r.stdout, "done");
    assert_eq!(r.stderr, "err");
    assert_eq!(r.plots, vec!["a".to_string()]);
    assert_eq!(r.table_html, Some("<t>".to_string()));
    assert_eq!(r.xai_html, None);

    let arr = execution_result(RunOutcome::Finished { stdout: b"__FEDLAB_RESULT__[1,2]".to_vec(), stderr: vec![] });
    assert_eq!(arr.stdout, "");
    assert!(arr.plots.is_empty());

    let raw = execution_result(RunOutcome::Finished { stdout: b"plain\xff".to_vec(), stderr: b"e".to_vec() });
    assert_eq!(raw.stdout, "plain\u{FFFD}");
    assert_eq!(raw.stderr, "e");

    let bad = execution_result(RunOutcome::Finished { stdout: b"__FEDLAB_RESULT__{oops".to_vec(), stderr: vec![] });
    assert_eq!(bad.stdout, "__FEDLAB_RESULT__{oops");

    let spawn = execution_result(RunOutcome::SpawnFailed("No such file".to_string()));
    assert_eq!(
        spawn.stderr,
        "Failed to execute Python: No such file\nMake sure Python is installed and accessible in PATH."
    );
    assert!(spawn.stdout.is_empty());
    let timeout = execution_result(RunOutcome::TimedOut);
    assert_eq!(timeout.stderr, "Execution timed out after 30 minutes.");
}
