use cross_platform_agent::actions::command::CommandRunParams;
use cross_platform_agent::actions::flow::{ActionFlow, ActionParams, Event, ProgramRun, Work};
use cross_platform_agent::actions::git::{
    CheckoutBranchParams, CloneParams, CommitParams, MergeBranchParams, PullParams, PushParams,
    RepoPathParams,
};
use cross_platform_agent::config::Config;
use cross_platform_agent::error::AppError;
use cross_platform_agent::path_policy::{
    absolutize_path, comparable_path, ensure_allowed_path, normalize_path, parent_path, PathStyle,
};
use cross_platform_agent::process_runner::{join_output, ProcessOutput};

fn text(v: &str) -> String {
    v.to_string()
}

fn texts(v: &[&str]) -> Vec<String> {
    v.iter().map(|x| x.to_string()).collect()
}

fn flow_config() -> Config {
    Config {
        host: text("127.0.0.1"),
        port: 0,
        ws_path: text("/ws"),
        api_token: None,
        allowed_roots: texts(&["/work"]),
        command_timeout_ms: 30000,
        retained_task_limit: 50,
        git_binary: text("/usr/bin/git"),
        command_allowed_programs: texts(&["git"]),
        path_style: PathStyle::Unix,
    }
}

fn here() -> Result<String, String> {
    Ok(text("/work"))
}

fn ok_output(stdout: &str) -> Event {
    Event::ProgramFinished(Ok(ProcessOutput { exit_code: 0, stdout: text(stdout), stderr: text("") }))
}

fn failed(message: &str) -> Event {
    Event::ProgramFinished(Err(AppError::process_failed(text(message), text("{}"))))
}

fn expect_run(work: Work) -> ProgramRun {
    match work {
        Work::Run(run) => run,
        other => panic!("expected a run, got {other:?}"),
    }
}

fn expect_finish(work: Work) -> Result<String, AppError> {
    match work {
        Work::Finish(result) => result,
        other => panic!("expected the result, got {other:?}"),
    }
}

fn parsed(text: &str) -> serde_json::Value {
    serde_json::from_str(text).expect("valid JSON")
}

fn repo(path: &str) -> RepoPathParams {
    RepoPathParams { repo_path: text(path) }
}

/// Answers the work-tree check and the three detail reads.
fn describe(flow: &mut ActionFlow, work: Work, branch: &str, head: &str, status: &str) -> Work {
    let check = expect_run(work);
    assert_eq!(check.args, texts(&["rev-parse", "--is-inside-work-tree"]));
    let read_branch = expect_run(flow.advance(ok_output("true\n")));
    assert_eq!(read_branch.args, texts(&["rev-parse", "--abbrev-ref", "HEAD"]));
    let read_head = expect_run(flow.advance(ok_output(branch)));
    assert_eq!(read_head.args, texts(&["rev-parse", "HEAD"]));
    let read_status = expect_run(flow.advance(ok_output(head)));
    assert_eq!(read_status.args, texts(&["status", "--short", "--branch"]));
    flow.advance(ok_output(status))
}

#[test]
fn status_flow_describes_the_repository() {
    let (mut flow, work) =
        ActionFlow::start(ActionParams::Status(repo("repo/./a/..")), &flow_config(), &here());
    let check = match &work {
        Work::Run(run) => run.clone(),
        other => panic!("expected a run, got {other:?}"),
    };
    assert_eq!(check.program, "/usr/bin/git");
    assert_eq!(check.cwd, Some(text("/work/repo")));
    assert!(!check.options.log_command);
    let result = expect_finish(describe(&mut flow, work, "main\n", "  abc123 \n", "   \n")).unwrap();
    assert_eq!(
        parsed(&result),
        parsed(
            r#"{"action": "git.status", "repository": {"repository_path": "/work/repo",
                "current_branch": "main", "head_commit": "abc123", "status_text": null}}"#
        )
    );
}

#[test]
fn failed_detail_read_gives_null() {
    let (mut flow, work) =
        ActionFlow::start(ActionParams::Status(repo("/work/r")), &flow_config(), &here());
    expect_run(work);
    expect_run(flow.advance(ok_output("true")));
    expect_run(flow.advance(failed("no branch")));
    expect_run(flow.advance(failed("no head")));
    let result = expect_finish(flow.advance(ok_output("## main"))).unwrap();
    let value = parsed(&result);
    assert_eq!(value["repository"]["current_branch"], serde_json::Value::Null);
    assert_eq!(value["repository"]["head_commit"], serde_json::Value::Null);
    assert_eq!(value["repository"]["status_text"], serde_json::Value::from("## main"));
}

#[test]
fn failed_work_tree_check_fails_the_action() {
    let (mut flow, work) =
        ActionFlow::start(ActionParams::Status(repo("/work/r")), &flow_config(), &here());
    expect_run(work);
    let error = expect_finish(flow.advance(failed("not a repository"))).unwrap_err();
    assert_eq!(error.status(), 422);
    assert_eq!(error.display_text(), "not a repository");
}

#[test]
fn path_outside_the_roots_is_refused_before_any_run() {
    let (_, work) =
        ActionFlow::start(ActionParams::Status(repo("/etc")), &flow_config(), &here());
    let error = expect_finish(work).unwrap_err();
    assert_eq!(error.status(), 400);
    assert_eq!(error.display_text(), "repo_path must stay within an allowed root.");
    let details = parsed(error.payload().details.as_deref().unwrap());
    assert_eq!(details["resolved_path"], serde_json::Value::from("/etc"));
}

#[test]
fn commit_failure_shows_a_dialog_then_fails() {
    let params = CommitParams { repo_path: text("/work/r"), message: text("msg"), all: true };
    let (mut flow, work) = ActionFlow::start(ActionParams::Commit(params), &flow_config(), &here());
    let run = expect_run(work);
    assert_eq!(run.args, texts(&["commit", "--all", "-m", "msg"]));
    assert!(run.options.log_command && run.options.log_output);
    let dialog = match flow.advance(failed("nothing to commit")) {
        Work::ShowDialog(request) => request,
        other => panic!("expected a dialog, got {other:?}"),
    };
    assert_eq!(dialog.title, "Git commit failed");
    assert_eq!(
        dialog.message,
        "Repository: /work/r\n\nnothing to commit\n\nCode: process_failed"
    );
    let error = expect_finish(flow.advance(Event::DialogClosed)).unwrap_err();
    assert_eq!(error.display_text(), "nothing to commit");
}

#[test]
fn commit_success_reports_message_and_repository() {
    let params = CommitParams { repo_path: text("/work/r"), message: text("first"), all: false };
    let (mut flow, work) = ActionFlow::start(ActionParams::Commit(params), &flow_config(), &here());
    expect_run(work);
    let next = flow.advance(ok_output("[main abc] first\n"));
    let result = expect_finish(describe(&mut flow, next, "main", "abc", "")).unwrap();
    let value = parsed(&result);
    assert_eq!(value["action"], serde_json::Value::from("git.commit"));
    assert_eq!(value["message"], serde_json::Value::from("first"));
    assert_eq!(value["repository"]["current_branch"], serde_json::Value::from("main"));
}

#[test]
fn merge_checks_out_target_then_merges() {
    let params = MergeBranchParams {
        repo_path: text("/work/r"),
        source_branch: text("feature"),
        target_branch: text("main"),
        no_fast_forward: true,
        commit_message: None,
    };
    let (mut flow, work) =
        ActionFlow::start(ActionParams::MergeBranch(params), &flow_config(), &here());
    assert_eq!(expect_run(work).args, texts(&["checkout", "main"]));
    let merge = expect_run(flow.advance(ok_output("")));
    assert_eq!(merge.args, texts(&["merge", "--no-ff", "feature"]));
    let error = expect_finish(flow.advance(failed("conflict"))).unwrap_err();
    assert_eq!(error.display_text(), "conflict");
}

#[test]
fn push_without_branch_pushes_the_current_branch() {
    let params = PushParams {
        repo_path: text("/work/r"),
        remote: None,
        branch: None,
        set_upstream: true,
        force: false,
    };
    let (mut flow, work) = ActionFlow::start(ActionParams::Push(params), &flow_config(), &here());
    let read = expect_run(work);
    assert_eq!(read.args, texts(&["rev-parse", "--abbrev-ref", "HEAD"]));
    let push = expect_run(flow.advance(ok_output(" feature \n")));
    assert_eq!(push.args, texts(&["push", "--set-upstream", "origin", "feature"]));
    let next = flow.advance(ok_output(""));
    let result = expect_finish(describe(&mut flow, next, "feature", "abc", "")).unwrap();
    let value = parsed(&result);
    assert_eq!(value["remote"], serde_json::Value::from("origin"));
    assert_eq!(value["branch"], serde_json::Value::from("feature"));
}

#[test]
fn push_with_blank_current_branch_fails() {
    let params = PushParams {
        repo_path: text("/work/r"),
        remote: Some(text("up")),
        branch: None,
        set_upstream: false,
        force: false,
    };
    let (mut flow, work) = ActionFlow::start(ActionParams::Push(params), &flow_config(), &here());
    expect_run(work);
    let error = expect_finish(flow.advance(ok_output("  \n"))).unwrap_err();
    assert_eq!(error.status(), 400);
    assert_eq!(error.display_text(), "Failed to resolve current branch.");
}

#[test]
fn clone_makes_the_parent_directory_first() {
    let params = CloneParams {
        remote_url: text("https://example.com/r.git"),
        destination_path: text("/work/dir/r"),
        branch: None,
        depth: Some(1),
        single_branch: false,
    };
    let (mut flow, work) = ActionFlow::start(ActionParams::Clone(params), &flow_config(), &here());
    match work {
        Work::CreateDirectory(path) => assert_eq!(path, "/work/dir"),
        other => panic!("expected a directory, got {other:?}"),
    }
    let run = expect_run(flow.advance(Event::DirectoryCreated(Ok(()))));
    assert_eq!(run.cwd, None);
    assert_eq!(
        run.args,
        texts(&["clone", "--depth", "1", "https://example.com/r.git", "/work/dir/r"])
    );
    let next = flow.advance(ok_output(""));
    let result = expect_finish(describe(&mut flow, next, "main", "abc", "")).unwrap();
    let value = parsed(&result);
    assert_eq!(value["action"], serde_json::Value::from("git.clone"));
    assert_eq!(value["repository"]["repository_path"], serde_json::Value::from("/work/dir/r"));
}

#[test]
fn clone_reports_a_parent_directory_that_cannot_be_made() {
    let params = CloneParams {
        remote_url: text("u"),
        destination_path: text("/work/dir/r"),
        branch: None,
        depth: None,
        single_branch: false,
    };
    let (mut flow, _) = ActionFlow::start(ActionParams::Clone(params), &flow_config(), &here());
    let error = expect_finish(flow.advance(Event::DirectoryCreated(Err(text("denied"))))).unwrap_err();
    assert_eq!(error.status(), 500);
    assert_eq!(error.display_text(), "Failed to create parent directory for clone target.");
    let details = parsed(error.payload().details.as_deref().unwrap());
    assert_eq!(details, parsed(r#"{"path": "/work/dir", "cause": "denied"}"#));
}

#[test]
fn structured_branches_flow() {
    let (mut flow, work) = ActionFlow::start(
        ActionParams::ListBranchesStructured(repo("/work/r")),
        &flow_config(),
        &here(),
    );
    expect_run(work);
    let local = expect_run(flow.advance(ok_output("main\n")));
    assert_eq!(local.args[0], "branch");
    let remote = expect_run(flow.advance(ok_output("main\tabc\torigin/main\ndev\tdef\t\n")));
    assert_eq!(remote.args[1], "--remotes");
    let result = expect_finish(flow.advance(ok_output("origin/main\tabc\n"))).unwrap();
    assert_eq!(
        parsed(&result)["branches"],
        parsed(
            r#"[{"name": "main", "scope": "local", "commit": "abc", "current": true, "upstream": "origin/main"},
                {"name": "dev", "scope": "local", "commit": "def", "current": false},
                {"name": "origin/main", "scope": "remote", "commit": "abc", "current": false}]"#
        )
    );
}

#[test]
fn diff_staged_flow_lists_files() {
    let (mut flow, work) =
        ActionFlow::start(ActionParams::DiffStaged(repo("/work/r")), &flow_config(), &here());
    assert_eq!(expect_run(work).args, texts(&["diff", "--cached"]));
    let names = expect_run(flow.advance(ok_output("diff --git a/x b/x")));
    assert_eq!(names.args, texts(&["diff", "--cached", "--name-only"]));
    let result = expect_finish(flow.advance(ok_output(" x \n\n y\n"))).unwrap();
    let value = parsed(&result);
    assert_eq!(value["has_changes"], serde_json::Value::from(true));
    assert_eq!(value["files"], parsed(r#"["x", "y"]"#));
    assert_eq!(value["diff_text"], serde_json::Value::from("diff --git a/x b/x"));
}

#[test]
fn command_run_flow() {
    let params = CommandRunParams { program: text("git"), args: texts(&["--version"]), cwd: Some(text("sub")) };
    let (mut flow, work) = ActionFlow::start(ActionParams::CommandRun(params), &flow_config(), &here());
    let run = expect_run(work);
    assert_eq!(run.program, "git");
    assert_eq!(run.cwd, Some(text("/work/sub")));
    assert!(run.options.enforce_command_allowlist);
    let result = expect_finish(flow.advance(ok_output("git version 2\n"))).unwrap();
    assert_eq!(
        parsed(&result),
        parsed(
            r#"{"action": "command.run", "program": "git", "args": ["--version"], "cwd": "/work/sub",
                "exit_code": 0, "stdout": "git version 2\n", "stderr": ""}"#
        )
    );
}

#[test]
fn command_run_with_blank_program_is_refused() {
    let params = CommandRunParams { program: text("  "), args: Vec::new(), cwd: Some(text("/etc")) };
    let (_, work) = ActionFlow::start(ActionParams::CommandRun(params), &flow_config(), &here());
    let error = expect_finish(work).unwrap_err();
    assert_eq!(error.display_text(), "program must not be empty.");
}

#[test]
fn unanswered_outcome_changes_nothing() {
    let (mut flow, work) =
        ActionFlow::start(ActionParams::GetCurrentBranch(repo("/work/r")), &flow_config(), &here());
    let first = expect_run(work);
    let again = expect_run(flow.advance(Event::DialogClosed));
    assert_eq!(first.args, again.args);
    let result = expect_finish(flow.advance(ok_output("dev\n"))).unwrap();
    assert_eq!(
        parsed(&result),
        parsed(r#"{"action": "git.get_current_branch", "repository_path": "/work/r", "current_branch": "dev"}"#)
    );
}

#[test]
fn output_collection_errors() {
    assert_eq!(join_output(Ok(Ok(text("out")))).unwrap(), "out");
    let read = join_output(Ok(Err(text("broken pipe")))).unwrap_err();
    assert_eq!(read.status(), 500);
    assert_eq!(read.display_text(), "Failed to read process output.");
    assert_eq!(
        parsed(read.payload().details.as_deref().unwrap()),
        parsed(r#"{"cause": "broken pipe"}"#)
    );
    let joined = join_output(Err(text("cancelled"))).unwrap_err();
    assert_eq!(joined.display_text(), "Failed to join process output task.");
}

#[test]
fn parent_of_normal_paths() {
    assert_eq!(parent_path("/work/dir/r", PathStyle::Unix), Some(text("/work/dir")));
    assert_eq!(parent_path("/work", PathStyle::Unix), Some(text("/")));
    assert_eq!(parent_path("/", PathStyle::Unix), None);
    assert_eq!(parent_path("a", PathStyle::Unix), Some(text("")));
    assert_eq!(parent_path("", PathStyle::Unix), None);
}

#[test]
fn checkout_with_create_checks_out_an_existing_branch() {
    let params = CheckoutBranchParams {
        repo_path: text("/work/r"),
        branch_name: text("feature"),
        create: true,
        start_point: Some(text("main")),
    };
    let (mut flow, work) =
        ActionFlow::start(ActionParams::CheckoutBranch(params.clone()), &flow_config(), &here());
    let lookup = expect_run(work);
    assert_eq!(lookup.args, texts(&["branch", "--list", "feature"]));
    assert!(!lookup.options.log_command);
    let checkout = expect_run(flow.advance(ok_output("  feature\n")));
    assert_eq!(checkout.args, texts(&["checkout", "feature"]));

    let (mut fresh, work) =
        ActionFlow::start(ActionParams::CheckoutBranch(params), &flow_config(), &here());
    expect_run(work);
    let create = expect_run(fresh.advance(ok_output("")));
    assert_eq!(create.args, texts(&["checkout", "-b", "feature", "main"]));
    let next = fresh.advance(ok_output(""));
    let result = expect_finish(describe(&mut fresh, next, "feature", "abc", "")).unwrap();
    assert_eq!(parsed(&result)["action"], serde_json::Value::from("git.checkout_branch"));
}

#[test]
fn checkout_without_create_runs_once() {
    let params = CheckoutBranchParams {
        repo_path: text("/work/r"),
        branch_name: text("main"),
        create: false,
        start_point: Some(text("ignored")),
    };
    let (_, work) = ActionFlow::start(ActionParams::CheckoutBranch(params), &flow_config(), &here());
    assert_eq!(expect_run(work).args, texts(&["checkout", "main"]));
}

#[test]
fn pull_of_a_branch_defaults_to_origin() {
    let params = PullParams { repo_path: text("/work/r"), remote: None, branch: Some(text("dev")), rebase: true };
    let (mut flow, work) = ActionFlow::start(ActionParams::Pull(params), &flow_config(), &here());
    assert_eq!(expect_run(work).args, texts(&["pull", "--rebase", "origin", "dev"]));
    match flow.advance(failed("conflict")) {
        Work::ShowDialog(request) => assert_eq!(request.title, "Git pull failed"),
        other => panic!("expected a dialog, got {other:?}"),
    }
    let error = expect_finish(flow.advance(Event::DialogClosed)).unwrap_err();
    assert_eq!(error.display_text(), "conflict");
}

#[test]
fn root_directory_admits_every_absolute_path() {
    let mut config = flow_config();
    config.allowed_roots = texts(&["/"]);
    let (_, work) = ActionFlow::start(ActionParams::Status(repo("/tmp/x")), &config, &here());
    assert_eq!(expect_run(work).cwd, Some(text("/tmp/x")));
    assert_eq!(
        ensure_allowed_path("/tmp/x", &texts(&["/"]), "cwd", &here(), PathStyle::Unix).unwrap(),
        "/tmp/x"
    );
    assert_eq!(ensure_allowed_path("/", &texts(&["/"]), "cwd", &here(), PathStyle::Unix).unwrap(), "/");
    assert!(ensure_allowed_path("/workshop", &texts(&["/work"]), "cwd", &here(), PathStyle::Unix).is_err());
}

fn windows_cwd() -> Result<String, String> {
    Ok(text("C:\\Users\\u"))
}

#[test]
fn windows_paths_are_normalized_with_drive_and_backslashes() {
    let w = PathStyle::Windows;
    assert_eq!(normalize_path("C:\\Users\\u\\..\\x", w), "C:\\Users\\x");
    assert_eq!(normalize_path("C:/a//b/./c", w), "C:\\a\\b\\c");
    assert_eq!(normalize_path("C:\\..\\..", w), "C:\\");
    assert_eq!(normalize_path("a\\b", PathStyle::Unix), "a\\b");
    assert_eq!(comparable_path("C:\\Users\\U\\", w), "c:/users/u");
    assert_eq!(parent_path("C:\\a", w), Some(text("C:\\")));
    assert_eq!(parent_path("C:\\", w), None);
}

#[test]
fn windows_escapes_are_refused() {
    let w = PathStyle::Windows;
    let roots = texts(&["C:\\Users\\u"]);
    let err = ensure_allowed_path("..\\..\\Windows", &roots, "cwd", &windows_cwd(), w).unwrap_err();
    let details = parsed(err.payload().details.as_deref().unwrap());
    assert_eq!(details["resolved_path"], serde_json::Value::from("C:\\Windows"));
    assert!(ensure_allowed_path("C:\\Users\\u\\..\\v", &roots, "cwd", &windows_cwd(), w).is_err());
    assert!(ensure_allowed_path("D:x", &roots, "cwd", &windows_cwd(), w).is_err());
    assert!(ensure_allowed_path("C:\\Users\\uv", &roots, "cwd", &windows_cwd(), w).is_err());
}

#[test]
fn windows_paths_compare_without_case() {
    let w = PathStyle::Windows;
    let roots = texts(&["C:\\Users\\u"]);
    assert_eq!(
        ensure_allowed_path("c:\\USERS\\U\\repo", &roots, "cwd", &windows_cwd(), w).unwrap(),
        "c:\\USERS\\U\\repo"
    );
    assert_eq!(ensure_allowed_path("repo/sub", &roots, "cwd", &windows_cwd(), w).unwrap(), "C:\\Users\\u\\repo\\sub");
    assert_eq!(absolutize_path("\\x", &windows_cwd(), w).unwrap(), "C:\\x");
    assert_eq!(absolutize_path("D:x", &windows_cwd(), w).unwrap(), "D:x");
    assert_eq!(absolutize_path("\\\\srv\\share\\d", &windows_cwd(), w).unwrap(), "\\\\srv\\share\\d");
    assert_eq!(normalize_path("//srv/share/x/../..", w), "\\\\srv\\share\\");
    let share_roots = texts(&["\\\\SRV\\share\\d"]);
    assert!(ensure_allowed_path("\\\\srv\\share\\d\\x", &share_roots, "cwd", &windows_cwd(), w).is_ok());
    assert!(ensure_allowed_path("\\\\srv\\share\\d\\..\\..\\other", &share_roots, "cwd", &windows_cwd(), w).is_err());
    let drive_roots = texts(&["C:\\"]);
    assert_eq!(ensure_allowed_path("C:\\tmp", &drive_roots, "cwd", &windows_cwd(), w).unwrap(), "C:\\tmp");
}

#[test]
fn windows_flow_runs_in_the_admitted_directory() {
    let mut config = flow_config();
    config.allowed_roots = texts(&["C:\\Users\\u"]);
    config.path_style = PathStyle::Windows;
    let (_, work) = ActionFlow::start(ActionParams::Status(repo("Repo\\.\\sub")), &config, &windows_cwd());
    assert_eq!(expect_run(work).cwd, Some(text("C:\\Users\\u\\Repo\\sub")));
    let (_, refused) = ActionFlow::start(ActionParams::Status(repo("..\\..\\Windows")), &config, &windows_cwd());
    assert_eq!(expect_finish(refused).unwrap_err().status(), 400);
}
