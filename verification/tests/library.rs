use cross_platform_agent::actions::command::command_result;
use cross_platform_agent::actions::git::{
    branch_list_result, branches_result, commit_result, current_branch_action_result,
    describe_repository_json, diff_staged_result, push_result, repository_result,
};
use cross_platform_agent::actions::command::{check_command_params, command_run_options, CommandRunParams};
use cross_platform_agent::actions::git::{
    add_args, checkout_args, clone_args, commit_args, current_branch_from_output, captured_value,
    default_true, fetch_args, merge_args, merge_checkout_args, parse_local_branches,
    parse_remote_branches, pull_args, push_args, staged_files, AddParams, CheckoutBranchParams,
    CloneParams, CommitParams, FetchParams, MergeBranchParams, PullParams, PushParams,
};
use cross_platform_agent::actions::{action_kind, catalog, resolve_action, supports, ActionKind};
use cross_platform_agent::config::{
    normalize_ws_path, parse_allowed_programs, parse_allowed_roots, parse_u16, parse_u64,
    parse_usize, Config, EnvVars,
};
use cross_platform_agent::dialog::{
    apple_quote, build_git_error_dialog, platform_dialog_commands, ps_quote, DialogRequest, Platform,
};
use cross_platform_agent::error::AppError;
use cross_platform_agent::path_policy::{
    absolutize_path, comparable_path, ensure_allowed_path, normalize_path, PathStyle,
};
use cross_platform_agent::process_runner::{finish_process, start_failure, timeout_failure};
use cross_platform_agent::runtime::{
    command_log_line, ensure_program_allowed, output_log_lines, prepare_run, ExecuteTaskRequest,
    LogStream, RunOptions, TaskStatus, TaskStore,
};
use cross_platform_agent::server::{
    authorize, extract_token, handle_client_message, lookup_task, parse_uuid, WsClientMessage, WsReply,
};

fn s(v: &str) -> String {
    v.to_string()
}

fn strings(v: &[&str]) -> Vec<String> {
    v.iter().map(|x| x.to_string()).collect()
}

fn cwd_ok(v: &str) -> Result<String, String> {
    Ok(v.to_string())
}

fn test_config(programs: &[&str]) -> Config {
    Config {
        host: s("127.0.0.1"),
        port: 0,
        ws_path: s("/ws"),
        api_token: None,
        allowed_roots: strings(&["/tmp/root"]),
        command_timeout_ms: 30000,
        retained_task_limit: 50,
        git_binary: s("git"),
        command_allowed_programs: strings(programs),
        path_style: PathStyle::Unix,
    }
}

fn json(text: &str) -> serde_json::Value {
    serde_json::from_str(text).expect("valid JSON")
}

// ----- actions -----

#[test]
fn supported_actions_are_recognised() {
    assert!(supports("git.clone"));
    assert!(supports("git.list_branches_structured"));
    assert!(supports("command.run"));
    assert!(!supports("git.rebase"));
    assert!(!supports(""));
    assert!(!supports("GIT.CLONE"));
    assert_eq!(action_kind("git.push"), Some(ActionKind::Push));
    assert_eq!(action_kind("shell"), None);
}

#[test]
fn unsupported_action_is_a_validation_error() {
    let err = resolve_action("git.rebase").unwrap_err();
    assert_eq!(err.status(), 400);
    assert_eq!(err.payload().code, "validation_error");
    assert_eq!(err.payload().message, "Unsupported action: git.rebase");
    assert_eq!(resolve_action("git.fetch").unwrap(), ActionKind::Fetch);
}

#[test]
fn catalog_describes_every_supported_action() {
    let entries = catalog();
    assert!(entries.len() >= 10);
    assert_eq!(entries.len(), 14);
    for entry in &entries {
        assert!(supports(entry.name));
    }
    assert_eq!(entries[0].name, "git.clone");
    assert_eq!(entries[0].params.len(), 5);
    assert_eq!(entries[0].params[0].name, "remote_url");
    assert_eq!(entries[0].params[0].kind, "string");
    assert!(entries[0].params[0].required);
    assert_eq!(entries[0].params[3].kind, "integer");
    assert!(!entries[0].params[3].required);
    assert_eq!(entries[13].name, "command.run");
    assert_eq!(entries[13].params[1].kind, "array<string>");
    for (i, a) in entries.iter().enumerate() {
        for b in entries.iter().skip(i + 1) {
            assert_ne!(a.name, b.name);
        }
    }
}

// ----- path policy -----

#[test]
fn normalize_path_resolves_dots() {
    assert_eq!(normalize_path("/a/b/../c/./d", PathStyle::Unix), "/a/c/d");
    assert_eq!(normalize_path("/../a", PathStyle::Unix), "/a");
    assert_eq!(normalize_path("a//b/", PathStyle::Unix), "a/b");
    assert_eq!(normalize_path("./a/..", PathStyle::Unix), "");
    assert_eq!(normalize_path("/", PathStyle::Unix), "/");
    assert_eq!(normalize_path("//x///y", PathStyle::Unix), "/x/y");
    assert_eq!(normalize_path("../../a", PathStyle::Unix), "a");
    assert_eq!(comparable_path("/a/./b/", PathStyle::Unix), "/a/b");
}

#[test]
fn normalize_path_is_idempotent_on_examples() {
    for p in ["/a/b/../c", "x/./y/..", "/", "", "../..", "/tmp//w/"] {
        let once = normalize_path(p, PathStyle::Unix);
        assert_eq!(normalize_path(&once, PathStyle::Unix), once);
    }
}

#[test]
fn absolutize_path_uses_working_directory() {
    assert_eq!(absolutize_path("  repo/sub ", &cwd_ok("/home/u"), PathStyle::Unix).unwrap(), "/home/u/repo/sub");
    assert_eq!(absolutize_path("/abs/../x", &cwd_ok("/home/u"), PathStyle::Unix).unwrap(), "/x");
    assert_eq!(absolutize_path("a", &cwd_ok("/"), PathStyle::Unix).unwrap(), "/a");
    let blank = absolutize_path("   ", &cwd_ok("/home/u"), PathStyle::Unix).unwrap_err();
    assert_eq!(blank.payload().message, "Path must not be empty.");
    assert_eq!(blank.status(), 400);
    let no_cwd = absolutize_path("rel", &Err(s("gone")), PathStyle::Unix).unwrap_err();
    assert_eq!(no_cwd.status(), 500);
    assert_eq!(no_cwd.payload().code, "internal_error");
    assert_eq!(no_cwd.payload().message, "Failed to read current working directory.");
    assert_eq!(json(no_cwd.payload().details.as_deref().unwrap()), json(r#"{"cause": "gone"}"#));
    // An absolute path does not need the working directory.
    assert_eq!(absolutize_path("/ok", &Err(s("gone")), PathStyle::Unix).unwrap(), "/ok");
}

#[test]
fn ensure_allowed_path_accepts_paths_within_roots() {
    let roots = strings(&["/tmp/root", "/srv/data/"]);
    assert_eq!(ensure_allowed_path("/tmp/root", &roots, "repo_path", &cwd_ok("/"), PathStyle::Unix).unwrap(), "/tmp/root");
    assert_eq!(
        ensure_allowed_path("/tmp/root/a/../b", &roots, "repo_path", &cwd_ok("/"), PathStyle::Unix).unwrap(),
        "/tmp/root/b"
    );
    assert_eq!(ensure_allowed_path("data/x", &roots, "cwd", &cwd_ok("/srv"), PathStyle::Unix).unwrap(), "/srv/data/x");
}

#[test]
fn ensure_allowed_path_rejects_escapes() {
    let roots = strings(&["/tmp/root"]);
    let err = ensure_allowed_path("/tmp/root/../etc", &roots, "repo_path", &cwd_ok("/"), PathStyle::Unix).unwrap_err();
    assert_eq!(err.status(), 400);
    assert_eq!(err.payload().code, "validation_error");
    assert_eq!(err.payload().message, "repo_path must stay within an allowed root.");
    assert_eq!(
        json(err.payload().details.as_deref().unwrap()),
        json(r#"{"field": "repo_path", "resolved_path": "/tmp/etc", "allowed_roots": ["/tmp/root"]}"#)
    );
    // A sibling that only shares a textual prefix is outside.
    assert!(ensure_allowed_path("/tmp/rootless", &roots, "repo_path", &cwd_ok("/"), PathStyle::Unix).is_err());
    assert!(ensure_allowed_path("", &roots, "repo_path", &cwd_ok("/"), PathStyle::Unix).is_err());
}

// ----- config -----

#[test]
fn ws_path_is_normalized() {
    assert_eq!(normalize_ws_path("ws").unwrap(), "/ws");
    assert_eq!(normalize_ws_path(" /agent/ws/ ").unwrap(), "/agent/ws");
    assert_eq!(normalize_ws_path("/").unwrap(), "/");
    assert_eq!(normalize_ws_path("/a///").unwrap(), "/a");
    assert_eq!(normalize_ws_path("//").unwrap(), "/");
    assert_eq!(normalize_ws_path("///").unwrap(), "/");
    assert_eq!(normalize_ws_path("  ").unwrap_err().payload().message, "AGENT_WS_PATH must not be empty.");
    assert_eq!(
        normalize_ws_path("/ws?x=1").unwrap_err().payload().message,
        "AGENT_WS_PATH must be a path only, without query string or fragment."
    );
    assert!(normalize_ws_path("/ws#frag").is_err());
}

#[test]
fn numbers_are_parsed_like_str_parse() {
    assert_eq!(parse_u16("AGENT_PORT", &None, 8787).unwrap(), 8787);
    assert_eq!(parse_u16("AGENT_PORT", &Some(s("9000")), 8787).unwrap(), 9000);
    assert_eq!(parse_u16("AGENT_PORT", &Some(s("+65535")), 8787).unwrap(), 65535);
    let err = parse_u16("AGENT_PORT", &Some(s("65536")), 8787).unwrap_err();
    assert_eq!(err.payload().message, "AGENT_PORT must be a valid unsigned 16-bit integer.");
    assert!(parse_u16("AGENT_PORT", &Some(s("")), 8787).is_err());
    assert!(parse_u16("AGENT_PORT", &Some(s("-1")), 8787).is_err());
    assert!(parse_u16("AGENT_PORT", &Some(s(" 80")), 8787).is_err());
    assert_eq!(parse_u64("T", &Some(s("18446744073709551615")), 1).unwrap(), u64::MAX);
    assert_eq!(
        parse_u64("T", &Some(s("18446744073709551616")), 1).unwrap_err().payload().message,
        "T must be a valid integer."
    );
    assert_eq!(parse_usize("N", &Some(s("007")), 1).unwrap(), 7);
    assert!(parse_usize("N", &Some(s("1e3")), 1).is_err());
}

#[test]
fn allowed_programs_are_trimmed_and_deduplicated() {
    let defaults = strings(&["git"]);
    let mut got = parse_allowed_programs(&Some(s(" git, ls ,,git ")), &defaults);
    got.sort();
    assert_eq!(got, strings(&["git", "ls"]));
    assert_eq!(parse_allowed_programs(&None, &defaults), strings(&["git"]));
    assert_eq!(parse_allowed_programs(&Some(s(" , ")), &defaults), strings(&["git"]));
}

#[test]
fn allowed_roots_default_to_home() {
    let roots = parse_allowed_roots(&None, &Some(s("/home/u/")), &cwd_ok("/"), PathStyle::Unix).unwrap();
    assert_eq!(roots, strings(&["/home/u"]));
    let dot = parse_allowed_roots(&None, &None, &cwd_ok("/work"), PathStyle::Unix).unwrap();
    assert_eq!(dot, strings(&["/work"]));
    let listed = parse_allowed_roots(&Some(strings(&["/a", "b"])), &None, &cwd_ok("/w"), PathStyle::Unix).unwrap();
    assert_eq!(listed, strings(&["/a", "/w/b"]));
    let bad = parse_allowed_roots(&Some(strings(&["/a", ""])), &None, &cwd_ok("/w"), PathStyle::Unix).unwrap_err();
    assert_eq!(bad.payload().message, "Path must not be empty.");
    let none = parse_allowed_roots(&Some(Vec::new()), &None, &cwd_ok("/w"), PathStyle::Unix).unwrap_err();
    assert_eq!(none.payload().message, "At least one allowed root must be configured.");
}

fn empty_env() -> EnvVars {
    EnvVars {
        host: None,
        port: None,
        ws_path: None,
        api_token: None,
        allowed_roots: None,
        home: Some(s("/home/u")),
        command_timeout_ms: None,
        retained_tasks: None,
        git_binary: None,
        allowed_programs: None,
        current_dir: cwd_ok("/"),
        path_style: PathStyle::Unix,
    }
}

#[test]
fn config_defaults() {
    let c = Config::from_env(&empty_env()).unwrap();
    assert_eq!(c.host, "127.0.0.1");
    assert_eq!(c.port, 8787);
    assert_eq!(c.ws_path, "/ws");
    assert_eq!(c.api_token, None);
    assert_eq!(c.allowed_roots, strings(&["/home/u"]));
    assert_eq!(c.command_timeout_ms, 300000);
    assert_eq!(c.retained_task_limit, 200);
    assert_eq!(c.git_binary, "git");
    assert_eq!(c.command_allowed_programs, strings(&["git"]));
}

#[test]
fn config_rejects_first_invalid_value() {
    let mut env = empty_env();
    env.api_token = Some(s("   "));
    env.port = Some(s("abc"));
    env.retained_tasks = Some(s("x"));
    let err = Config::from_env(&env).unwrap_err();
    assert_eq!(err.payload().message, "AGENT_PORT must be a valid unsigned 16-bit integer.");
    env.port = None;
    let err = Config::from_env(&env).unwrap_err();
    assert_eq!(err.payload().message, "AGENT_RETAINED_TASKS must be a valid integer.");
    env.retained_tasks = Some(s("3"));
    let c = Config::from_env(&env).unwrap();
    assert_eq!(c.retained_task_limit, 3);
    assert_eq!(c.api_token, None);
}

// ----- git -----

#[test]
fn clone_arguments() {
    let p = CloneParams {
        remote_url: s("https://example.com/r.git"),
        destination_path: s("/tmp/root/r"),
        branch: Some(s("main")),
        depth: Some(1),
        single_branch: true,
    };
    assert_eq!(
        clone_args(&p, "/tmp/root/r"),
        strings(&["clone", "--branch", "main", "--depth", "1", "--single-branch", "https://example.com/r.git", "/tmp/root/r"])
    );
    let q = CloneParams { branch: None, depth: Some(250), single_branch: false, ..p };
    assert_eq!(clone_args(&q, "/d"), strings(&["clone", "--depth", "250", "https://example.com/r.git", "/d"]));
}

#[test]
fn add_arguments_default_to_dot() {
    let p = AddParams { repo_path: s("/r"), paths: None, all: false };
    assert_eq!(add_args(&p), strings(&["add", "."]));
    let all = AddParams { repo_path: s("/r"), paths: Some(Vec::new()), all: true };
    assert_eq!(add_args(&all), strings(&["add", "--all"]));
    let some = AddParams { repo_path: s("/r"), paths: Some(strings(&["a.txt", "b"])), all: true };
    assert_eq!(add_args(&some), strings(&["add", "--all", "a.txt", "b"]));
}

#[test]
fn checkout_commit_merge_arguments() {
    let create = CheckoutBranchParams {
        repo_path: s("/r"),
        branch_name: s("feature/demo"),
        create: true,
        start_point: Some(s("main")),
    };
    assert_eq!(checkout_args(&create), strings(&["checkout", "-b", "feature/demo", "main"]));
    let existing = CheckoutBranchParams { create: false, ..create };
    assert_eq!(checkout_args(&existing), strings(&["checkout", "feature/demo"]));
    let c = CommitParams { repo_path: s("/r"), message: s("Add file"), all: true };
    assert_eq!(commit_args(&c), strings(&["commit", "--all", "-m", "Add file"]));
    let m = MergeBranchParams {
        repo_path: s("/r"),
        source_branch: s("feature/demo"),
        target_branch: s("main"),
        no_fast_forward: default_true(),
        commit_message: Some(s("Merge it")),
    };
    assert_eq!(merge_checkout_args(&m), strings(&["checkout", "main"]));
    assert_eq!(merge_args(&m), strings(&["merge", "--no-ff", "-m", "Merge it", "feature/demo"]));
}

#[test]
fn remote_arguments() {
    let f = FetchParams { repo_path: s("/r"), remote: None };
    assert_eq!(fetch_args(&f), strings(&["fetch", "origin"]));
    let p = PullParams { repo_path: s("/r"), remote: Some(s("up")), branch: Some(s("main")), rebase: true };
    assert_eq!(pull_args(&p), strings(&["pull", "--rebase", "up", "main"]));
    let bare = PullParams { repo_path: s("/r"), remote: None, branch: None, rebase: false };
    assert_eq!(pull_args(&bare), strings(&["pull"]));
    let branch_only = PullParams { repo_path: s("/r"), remote: None, branch: Some(s("dev")), rebase: false };
    assert_eq!(pull_args(&branch_only), strings(&["pull", "origin", "dev"]));
    let remote_only = PullParams { repo_path: s("/r"), remote: Some(s("up")), branch: None, rebase: false };
    assert_eq!(pull_args(&remote_only), strings(&["pull", "up"]));
    let push = PushParams { repo_path: s("/r"), remote: None, branch: None, set_upstream: true, force: true };
    assert_eq!(push_args(&push, "dev"), strings(&["push", "--set-upstream", "--force", "origin", "dev"]));
}

#[test]
fn git_output_is_read_back() {
    assert_eq!(current_branch_from_output(" main\n").unwrap(), "main");
    assert_eq!(
        current_branch_from_output("\n").unwrap_err().payload().message,
        "Failed to resolve current branch."
    );
    assert_eq!(captured_value("abc123\n"), Some(s("abc123")));
    assert_eq!(captured_value("  \n"), None);
    assert_eq!(staged_files("a.txt\n\n  b.txt \r\n"), strings(&["a.txt", "b.txt"]));
    assert_eq!(staged_files(""), Vec::<String>::new());
}

#[test]
fn branches_are_parsed() {
    let local = parse_local_branches("main\tabc\torigin/main\nfeature\tdef\t\n\tnocommit\nbad\n", "feature");
    assert_eq!(local.len(), 2);
    assert_eq!(local[0].name, "main");
    assert_eq!(local[0].scope, "local");
    assert_eq!(local[0].commit, "abc");
    assert!(!local[0].current);
    assert_eq!(local[0].upstream.as_deref(), Some("origin/main"));
    assert_eq!(local[1].name, "feature");
    assert!(local[1].current);
    assert_eq!(local[1].upstream, None);
    let remote = parse_remote_branches("origin/main\tabc\norigin/HEAD\t\n");
    assert_eq!(remote.len(), 1);
    assert_eq!(remote[0].name, "origin/main");
    assert_eq!(remote[0].scope, "remote");
    assert!(!remote[0].current);
}

// ----- command.run -----

#[test]
fn command_checks() {
    let blank = CommandRunParams { program: s("  "), args: Vec::new(), cwd: None };
    assert_eq!(check_command_params(&blank).unwrap_err().payload().message, "program must not be empty.");
    let ok = CommandRunParams { program: s("git"), args: Vec::new(), cwd: None };
    assert!(check_command_params(&ok).is_ok());
    let opts = command_run_options();
    assert!(opts.enforce_command_allowlist && opts.log_command && opts.log_output);
}

#[test]
fn program_allowlist() {
    let config = test_config(&["git"]);
    assert!(ensure_program_allowed("git", &config).is_ok());
    let path = ensure_program_allowed("/bin/git", &config).unwrap_err();
    assert_eq!(path.status(), 400);
    assert_eq!(path.payload().message, "program must be a bare executable name, not a path.");
    assert!(ensure_program_allowed("..\\git", &config).is_err());
    let other = ensure_program_allowed("rm", &config).unwrap_err();
    assert_eq!(other.status(), 403);
    assert_eq!(other.payload().code, "forbidden");
    assert_eq!(other.payload().message, "Program is not allowed: rm");
}

#[test]
fn run_preparation_and_logging() {
    let config = test_config(&["git"]);
    let args = strings(&["status", "--short"]);
    assert_eq!(command_log_line("git", &args), "$ git status --short");
    assert_eq!(command_log_line("git", &Vec::new()), "$ git ");
    assert_eq!(prepare_run("git", &args, RunOptions::logged(), &config).unwrap(), Some(s("$ git status --short")));
    assert_eq!(prepare_run("rm", &args, RunOptions::quiet(), &config).unwrap(), None);
    assert!(prepare_run("rm", &args, command_run_options(), &config).is_err());
    let output = finish_process("git", &args, &None, true, Some(0), s("a\nb\n"), s("warn\n")).unwrap();
    let lines = output_log_lines(&output, RunOptions::logged());
    assert_eq!(lines.len(), 3);
    assert_eq!(lines[0].stream, LogStream::Stdout);
    assert_eq!(lines[1].message, "b");
    assert_eq!(lines[2].stream, LogStream::Stderr);
    assert_eq!(lines[2].message, "warn");
    assert!(output_log_lines(&output, RunOptions::quiet()).is_empty());
}

#[test]
fn process_outcomes() {
    let args = strings(&["push", "origin"]);
    let ok = finish_process("git", &args, &Some(s("/r")), true, None, s("out"), s("")).unwrap();
    assert_eq!(ok.exit_code, -1);
    assert_eq!(ok.stdout, "out");
    let failed = finish_process("git", &args, &Some(s("/r")), false, Some(128), s(""), s("fatal: \"x\"\n")).unwrap_err();
    assert_eq!(failed.status(), 422);
    assert_eq!(failed.payload().code, "process_failed");
    assert_eq!(failed.payload().message, "Program exited with a non-zero status: git");
    assert_eq!(
        json(failed.payload().details.as_deref().unwrap()),
        json(r#"{"program": "git", "args": ["push", "origin"], "cwd": "/r", "exit_code": 128, "stdout": "", "stderr": "fatal: \"x\"\n"}"#)
    );
    let negative = finish_process("git", &args, &None, false, Some(-2), s(""), s("")).unwrap_err();
    assert_eq!(json(negative.payload().details.as_deref().unwrap())["exit_code"], serde_json::Value::from(-2));
    let start = start_failure("nope", &Vec::new(), &None, "not found");
    assert_eq!(start.payload().message, "Failed to start program: nope");
    assert_eq!(
        json(start.payload().details.as_deref().unwrap()),
        json(r#"{"program": "nope", "args": [], "cwd": null, "cause": "not found"}"#)
    );
    let timeout = timeout_failure("git", &args, &None, 30000, "partial\t", "\u{1}");
    assert_eq!(timeout.payload().message, "Program timed out: git");
    let details = json(timeout.payload().details.as_deref().unwrap());
    assert_eq!(details["timeout_ms"], serde_json::Value::from(30000));
    assert_eq!(details["stdout"], serde_json::Value::from("partial\t"));
    assert_eq!(details["stderr"], serde_json::Value::from("\u{1}"));
}

// ----- task store -----

fn request(action: &str) -> ExecuteTaskRequest {
    ExecuteTaskRequest { action: s(action), params: s("{\"repo_path\":\"/r\"}") }
}

#[test]
fn submitted_task_is_queued_and_retrievable() {
    let mut store = TaskStore::new();
    let task = store.submit_task(request("git.status"), 1000, 10).unwrap();
    assert_eq!(task.status, TaskStatus::Queued);
    assert_eq!(task.created_at_ms, 1000);
    assert_eq!(task.updated_at_ms, 1000);
    assert!(task.logs.is_empty());
    assert_eq!(task.params, "{\"repo_path\":\"/r\"}");
    // A version 4 id.
    assert_eq!((task.id >> 76) & 0xf, 4);
    let got = store.get_task(task.id).unwrap();
    assert_eq!(got.id, task.id);
    assert_eq!(got.action, "git.status");
    let unknown = store.submit_task(request("git.rebase"), 1000, 10).unwrap_err();
    assert_eq!(unknown.payload().message, "Unsupported action: git.rebase");
    assert_eq!(store.list_tasks().len(), 1);
}

#[test]
fn oldest_tasks_are_evicted() {
    let mut store = TaskStore::new();
    for i in 0..5u128 {
        store.submit_with_id(request("git.status"), i + 1, 100 + i as u64, 3).unwrap();
    }
    let listed = store.list_tasks();
    assert_eq!(listed.len(), 3);
    assert_eq!(listed.iter().map(|t| t.id).collect::<Vec<_>>(), vec![5, 4, 3]);
    assert!(store.get_task(1).is_none());
    assert!(store.get_task(2).is_none());
    // With no room at all the task is returned but not kept.
    let mut none = TaskStore::new();
    let t = none.submit_with_id(request("git.status"), 9, 1, 0).unwrap();
    assert_eq!(t.id, 9);
    assert!(none.get_task(9).is_none());
}

#[test]
fn task_lifecycle() {
    let mut store = TaskStore::new();
    store.submit_with_id(request("git.status"), 7, 10, 5).unwrap();
    let running = store.mark_running(7, 20).unwrap();
    assert_eq!(running.status, TaskStatus::Running);
    assert_eq!(running.started_at_ms, Some(20));
    let done = store.succeed_task(7, s("{\"ok\":true}"), 30).unwrap();
    assert_eq!(done.status, TaskStatus::Succeeded);
    assert_eq!(done.result.as_deref(), Some("{\"ok\":true}"));
    assert_eq!(done.finished_at_ms, Some(30));
    assert_eq!(done.updated_at_ms, 30);
    assert_eq!(store.get_task(7).unwrap().status, TaskStatus::Succeeded);
    let err = AppError::not_found(s("nothing here"));
    let failed = store.fail_task(7, &err, 40).unwrap();
    assert_eq!(failed.status, TaskStatus::Failed);
    assert_eq!(failed.error.unwrap().code, "not_found");
    let missing = store.mark_running(8, 1).unwrap_err();
    assert_eq!(missing.status(), 404);
    assert_eq!(missing.payload().message, "Task not found.");
}

#[test]
fn finished_tasks_settle_once() {
    let mut store = TaskStore::new();
    store.submit_with_id(request("git.status"), 1, 10, 5).unwrap();
    store.submit_with_id(request("git.fetch"), 2, 11, 5).unwrap();
    store.mark_running(1, 12).unwrap();
    let ok = store.finish_task(1, Ok(s("{}")), 13).unwrap();
    assert_eq!(ok.status, TaskStatus::Succeeded);
    assert_eq!(ok.result.as_deref(), Some("{}"));
    assert!(ok.error.is_none());
    assert_eq!(ok.started_at_ms, Some(12));
    let logged = store.append_log(1, LogStream::System, s("after"), 14, 14).unwrap();
    assert_eq!(logged.status, TaskStatus::Succeeded);
    store.mark_running(2, 15).unwrap();
    let bad = store.finish_task(2, Err(AppError::validation(s("nope"))), 16).unwrap();
    assert_eq!(bad.status, TaskStatus::Failed);
    assert!(bad.result.is_none());
    assert_eq!(bad.error.unwrap().message, "nope");
    assert_eq!(store.get_task(1).unwrap().status, TaskStatus::Succeeded);
    assert_eq!(store.finish_task(3, Ok(s("{}")), 17).unwrap_err().status(), 404);
}

#[test]
fn store_keeps_the_newest_ids_in_order() {
    let mut store = TaskStore::new();
    for id in 1..=5u128 {
        store.submit_with_id(request("git.status"), id, id as u64, 3).unwrap();
    }
    assert!(store.get_task(1).is_none());
    assert!(store.get_task(2).is_none());
    let ids: Vec<u128> = store.list_tasks().iter().map(|t| t.id).collect();
    assert_eq!(ids, vec![5, 4, 3]);
    let mut empty = TaskStore::new();
    let kept = empty.submit_with_id(request("git.status"), 9, 1, 0).unwrap();
    assert_eq!(kept.id, 9);
    assert!(empty.get_task(9).is_none());
}

#[test]
fn logs_keep_the_newest_entries() {
    let mut store = TaskStore::new();
    store.submit_with_id(request("git.status"), 1, 0, 5).unwrap();
    for i in 0..503u64 {
        store.append_log(1, LogStream::Stdout, format!("line {i}"), i, i + 1).unwrap();
    }
    let task = store.get_task(1).unwrap();
    assert_eq!(task.logs.len(), 500);
    assert_eq!(task.logs[0].message, "line 3");
    assert_eq!(task.logs[499].message, "line 502");
    assert_eq!(task.logs[499].timestamp_ms, 502);
    assert_eq!(task.updated_at_ms, 503);
    assert!(store.append_log(2, LogStream::System, s("x"), 0, 0).is_err());
}

#[test]
fn tasks_are_listed_newest_first() {
    let mut store = TaskStore::new();
    store.submit_with_id(request("git.status"), 1, 50, 10).unwrap();
    store.submit_with_id(request("git.fetch"), 2, 70, 10).unwrap();
    store.submit_with_id(request("git.pull"), 3, 60, 10).unwrap();
    let ids: Vec<u128> = store.list_tasks().iter().map(|t| t.id).collect();
    assert_eq!(ids, vec![2, 3, 1]);
}

// ----- server -----

#[test]
fn tokens_and_authorization() {
    assert_eq!(extract_token(&Some(s("Bearer  abc ")), &None), strings(&["abc"]));
    assert_eq!(extract_token(&Some(s("Bearer   ")), &Some(s(" t2 "))), strings(&["t2"]));
    assert_eq!(extract_token(&Some(s("Bearer a")), &Some(s("b"))), strings(&["a", "b"]));
    assert_eq!(extract_token(&Some(s("Basic abc")), &None), Vec::<String>::new());
    assert_eq!(extract_token(&None, &Some(s("  "))), Vec::<String>::new());
    assert!(authorize(&None, &Vec::new(), &None).is_ok());
    let expected = Some(s("test-token"));
    assert!(authorize(&expected, &strings(&["test-token"]), &None).is_ok());
    assert!(authorize(&expected, &Vec::new(), &Some(s("test-token"))).is_ok());
    let headers = extract_token(&Some(s("Bearer wrong")), &Some(s("test-token")));
    assert!(authorize(&expected, &headers, &None).is_ok());
    let denied = authorize(&expected, &strings(&["wrong"]), &None).unwrap_err();
    assert_eq!(denied.status(), 401);
    assert_eq!(denied.payload().code, "unauthorized");
    assert_eq!(denied.payload().message, "Unauthorized.");
}

#[test]
fn task_ids_are_uuids() {
    let id = parse_uuid("27a9e3f8-b9fd-49f8-a812-ea8f65df0fe8").unwrap();
    assert_eq!(id, 0x27a9e3f8_b9fd_49f8_a812_ea8f65df0fe8u128);
    assert_eq!(parse_uuid("27a9e3f8b9fd49f8a812ea8f65df0fe8").unwrap(), id);
    let err = parse_uuid("not-a-uuid").unwrap_err();
    assert_eq!(err.payload().message, "Invalid task id: not-a-uuid");
    let store = TaskStore::new();
    let missing = lookup_task(&store, "27a9e3f8-b9fd-49f8-a812-ea8f65df0fe8").unwrap_err();
    assert_eq!(missing.status(), 404);
}

#[test]
fn websocket_messages_are_answered() {
    let mut store = TaskStore::new();
    match handle_client_message(&mut store, WsClientMessage::Ping { request_id: Some(s("p")) }, 1, 10) {
        WsReply::Pong { request_id } => assert_eq!(request_id.as_deref(), Some("p")),
        other => panic!("unexpected reply {other:?}"),
    }
    let accepted = handle_client_message(
        &mut store,
        WsClientMessage::Execute { request_id: Some(s("checkout-1")), action: s("git.checkout_branch"), params: s("{}") },
        5,
        10,
    );
    let id = match accepted {
        WsReply::Accepted { request_id, task } => {
            assert_eq!(request_id.as_deref(), Some("checkout-1"));
            assert_eq!(task.status, TaskStatus::Queued);
            task.id
        }
        other => panic!("unexpected reply {other:?}"),
    };
    let text = uuid::Uuid::from_u128(id).to_string();
    match handle_client_message(&mut store, WsClientMessage::GetTask { request_id: None, task_id: text }, 6, 10) {
        WsReply::Snapshot { task, .. } => assert_eq!(task.unwrap().id, id),
        other => panic!("unexpected reply {other:?}"),
    }
    match handle_client_message(&mut store, WsClientMessage::GetTask { request_id: None, task_id: s("x") }, 6, 10) {
        WsReply::Error { error, .. } => assert_eq!(error.message, "Invalid task id: x"),
        other => panic!("unexpected reply {other:?}"),
    }
    match handle_client_message(
        &mut store,
        WsClientMessage::Execute { request_id: None, action: s("rm"), params: s("{}") },
        7,
        10,
    ) {
        WsReply::Error { error, .. } => assert_eq!(error.code, "validation_error"),
        other => panic!("unexpected reply {other:?}"),
    }
}

// ----- dialog -----

#[test]
fn dialog_quoting() {
    assert_eq!(apple_quote(r#"say "hi" \ bye"#), r#""say \"hi\" \\ bye""#);
    assert_eq!(ps_quote("it's"), "'it''s'");
    assert_eq!(ps_quote(""), "''");
}

#[test]
fn dialog_commands_per_platform() {
    let request = DialogRequest { title: s("Git push failed"), message: s("boom") };
    let mac = platform_dialog_commands(&request, Platform::MacOs);
    assert_eq!(mac.len(), 1);
    assert_eq!(mac[0].program, "osascript");
    assert_eq!(
        mac[0].args,
        strings(&["-e", "display dialog \"boom\" with title \"Git push failed\" buttons {\"OK\"} default button \"OK\" with icon caution"])
    );
    let win = platform_dialog_commands(&request, Platform::Windows);
    assert_eq!(win[0].program, "powershell");
    assert_eq!(
        win[0].args[2],
        "Add-Type -AssemblyName PresentationFramework; [System.Windows.MessageBox]::Show('boom', 'Git push failed', 'OK', 'Error') | Out-Null"
    );
    let other = platform_dialog_commands(&request, Platform::Other);
    assert_eq!(other.iter().map(|c| c.program).collect::<Vec<_>>(), vec!["zenity", "kdialog", "notify-send"]);
    assert_eq!(other[2].args, strings(&["Git push failed", "boom", "--urgency=critical"]));
}

#[test]
fn git_error_dialog_text() {
    let err = AppError::process_failed(s("Program exited with a non-zero status: git"), s("{}"));
    let d = build_git_error_dialog("push", "/r", &err);
    assert_eq!(d.title, "Git push failed");
    assert_eq!(d.message, "Repository: /r\n\nProgram exited with a non-zero status: git\n\nCode: process_failed");
}

#[test]
fn error_constructors() {
    let e = AppError::new(418, s("teapot"), s("short"), Some(s("[1]")));
    assert_eq!(e.status(), 418);
    assert_eq!(e.payload().details.as_deref(), Some("[1]"));
    assert_eq!(e.display_text(), "short");
    assert_eq!(AppError::internal(s("x")).status(), 500);
    assert_eq!(AppError::internal_with_details(s("x"), s("{}")).payload().code, "internal_error");
    assert_eq!(AppError::validation_with_details(s("v"), s("{}")).status(), 400);
    assert_eq!(AppError::forbidden(s("f")).status(), 403);
    assert_eq!(AppError::unauthorized().display_text(), "Unauthorized.");
}

// ----- results -----

#[test]
fn action_results_are_json() {
    let repo = describe_repository_json("/r", &Some(s("main")), &None, &Some(s("## main")));
    assert_eq!(
        json(&repo),
        json(r###"{"repository_path": "/r", "current_branch": "main", "head_commit": null, "status_text": "## main"}"###)
    );
    assert_eq!(
        json(&repository_result(ActionKind::Status, repo.clone())),
        json(&format!(r#"{{"action": "git.status", "repository": {repo}}}"#))
    );
    assert_eq!(json(&commit_result("msg \"q\"", s("{}")))["message"], serde_json::Value::from("msg \"q\""));
    let pushed = json(&push_result("origin", "main", s("{}")));
    assert_eq!(pushed["action"], serde_json::Value::from("git.push"));
    assert_eq!(pushed["branch"], serde_json::Value::from("main"));
    assert_eq!(
        json(&current_branch_action_result("/r", "dev")),
        json(r#"{"action": "git.get_current_branch", "repository_path": "/r", "current_branch": "dev"}"#)
    );
    let diff = json(&diff_staged_result("/r", &strings(&["a.txt"]), "diff --git"));
    assert_eq!(diff["has_changes"], serde_json::Value::from(true));
    assert_eq!(diff["files"], json(r#"["a.txt"]"#));
    let empty = json(&diff_staged_result("/r", &Vec::new(), ""));
    assert_eq!(empty["has_changes"], serde_json::Value::from(false));
    assert_eq!(json(&branch_list_result("/r", "* main"))["branches_text"], serde_json::Value::from("* main"));
    let branches = parse_local_branches("main\tabc\torigin/main\ndev\tdef\n", "main");
    let listed = json(&branches_result("/r", &branches));
    assert_eq!(
        listed["branches"],
        json(r#"[{"name": "main", "scope": "local", "commit": "abc", "current": true, "upstream": "origin/main"},
                 {"name": "dev", "scope": "local", "commit": "def", "current": false}]"#)
    );
    let params = CommandRunParams { program: s("git"), args: strings(&["rev-parse", "HEAD"]), cwd: None };
    let output = finish_process("git", &params.args, &None, true, Some(0), s("main\n"), s("")).unwrap();
    assert_eq!(
        json(&command_result(&params, &Some(s("/r")), &output)),
        json(r#"{"action": "command.run", "program": "git", "args": ["rev-parse", "HEAD"], "cwd": "/r", "exit_code": 0, "stdout": "main\n", "stderr": ""}"#)
    );
}
