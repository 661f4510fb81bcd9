//! How an action runs from its parameters to its result. The agent asks the
//! flow for the next piece of work (create a directory, run a program, show
//! a dialog, or finish with a result), performs it, and hands the outcome
//! back; the outcome decides the work after it.
use vstd::prelude::*;

use crate::actions::command::{
    check_command_params, command_params_check, command_result, command_result_json,
    command_run_options, CommandRunParams,
};
use crate::actions::git::{
    add_args_spec, branch_list_cmd, branches_result_json, checkout_args_spec, clone_args_spec,
    commit_args_spec, commit_result_json, current_branch_cmd, current_branch_result,
    current_branch_result_json, diff_cached_cmd, diff_cached_names_cmd, diff_staged_result_json,
    fetch_args_spec, head_commit_cmd, local_branches, local_branches_cmd, merge_args_spec,
    merge_checkout_args_spec, nonblank_lines, pull_args_spec, push_args_spec, push_result_json,
    remote_branches, remote_branches_cmd, remote_or_origin, repository_json,
    repository_result_json, status_cmd, work_tree_check_cmd, branch_list_result_json, captured,
    add_args, branch_list_args, branch_lookup_args, branch_lookup_cmd, checkout_create_args,
    checkout_create_args_spec, branch_list_result, branch_views, branches_result, checkout_args,
    clone_args, commit_args, commit_result, current_branch_action_result, current_branch_args,
    current_branch_from_output, captured_value, describe_repository_json, diff_cached_args,
    diff_cached_names_args, diff_staged_result, fetch_args, head_commit_args, local_branches_args,
    merge_args, merge_checkout_args, parse_local_branches, parse_remote_branches, pull_args,
    push_args, push_result, remote_branches_args, remote_name, repository_result, staged_files,
    status_args, trimmed_output, work_tree_check_args,
    AddParams, CheckoutBranchParams, CloneParams, CommitParams, FetchParams, MergeBranchParams,
    PullParams, PushParams, RepoPathParams,
};
use crate::actions::ActionKind;
use crate::config::Config;
use crate::dialog::{build_git_error_dialog, git_error_dialog, DialogRequest};
use crate::error::{copy_opt_string, internal_error, opt_view, AppError, AppErrorView};
use crate::json::{json_object, json_object_text, json_str, json_string};
use crate::path_policy::{
    comparable, cwd_view, ensure_allowed_path, ensure_allowed_result, entries_within, parent_dir,
    parent_path, PathStyle,
};
use crate::process_runner::{OutputView, ProcessOutput};
use crate::runtime::RunOptions;
use crate::text::{chars_of, copy_strings, lines, owned, trim, trim_chars, views};

verus! {

/// The parameters of an action, read from its request.
#[derive(Debug, Clone)]
pub enum ActionParams {
    Clone(CloneParams),
    Add(AddParams),
    CheckoutBranch(CheckoutBranchParams),
    Commit(CommitParams),
    GetCurrentBranch(RepoPathParams),
    DiffStaged(RepoPathParams),
    MergeBranch(MergeBranchParams),
    Pull(PullParams),
    Push(PushParams),
    Fetch(FetchParams),
    Status(RepoPathParams),
    ListBranches(RepoPathParams),
    ListBranchesStructured(RepoPathParams),
    CommandRun(CommandRunParams),
}

/// The action that parameters belong to.
pub open spec fn params_kind(p: ActionParams) -> ActionKind {
    match p {
        ActionParams::Clone(_) => ActionKind::Clone,
        ActionParams::Add(_) => ActionKind::Add,
        ActionParams::CheckoutBranch(_) => ActionKind::CheckoutBranch,
        ActionParams::Commit(_) => ActionKind::Commit,
        ActionParams::GetCurrentBranch(_) => ActionKind::GetCurrentBranch,
        ActionParams::DiffStaged(_) => ActionKind::DiffStaged,
        ActionParams::MergeBranch(_) => ActionKind::MergeBranch,
        ActionParams::Pull(_) => ActionKind::Pull,
        ActionParams::Push(_) => ActionKind::Push,
        ActionParams::Fetch(_) => ActionKind::Fetch,
        ActionParams::Status(_) => ActionKind::Status,
        ActionParams::ListBranches(_) => ActionKind::ListBranches,
        ActionParams::ListBranchesStructured(_) => ActionKind::ListBranchesStructured,
        ActionParams::CommandRun(_) => ActionKind::CommandRun,
    }
}

/// The repository path a Git action names (nothing for `command.run`).
pub open spec fn repo_input(p: ActionParams) -> Seq<char> {
    match p {
        ActionParams::Clone(c) => c.destination_path@,
        ActionParams::Add(a) => a.repo_path@,
        ActionParams::CheckoutBranch(c) => c.repo_path@,
        ActionParams::Commit(c) => c.repo_path@,
        ActionParams::GetCurrentBranch(r) => r.repo_path@,
        ActionParams::DiffStaged(r) => r.repo_path@,
        ActionParams::MergeBranch(m) => m.repo_path@,
        ActionParams::Pull(q) => q.repo_path@,
        ActionParams::Push(q) => q.repo_path@,
        ActionParams::Fetch(f) => f.repo_path@,
        ActionParams::Status(r) => r.repo_path@,
        ActionParams::ListBranches(r) => r.repo_path@,
        ActionParams::ListBranchesStructured(r) => r.repo_path@,
        ActionParams::CommandRun(_) => Seq::<char>::empty(),
    }
}

/// The actions that end by describing their repository.
pub open spec fn describes(kind: ActionKind) -> bool {
    match kind {
        ActionKind::GetCurrentBranch | ActionKind::DiffStaged | ActionKind::ListBranches
        | ActionKind::ListBranchesStructured | ActionKind::CommandRun => false,
        _ => true,
    }
}

/// The word naming an action in the dialog shown when its Git run fails.
pub open spec fn dialog_word(kind: ActionKind) -> Seq<char> {
    match kind {
        ActionKind::Commit => "commit"@,
        ActionKind::Pull => "pull"@,
        _ => "push"@,
    }
}

/// A program to run: the program, its arguments, its working directory and
/// how the run is checked and logged.
#[derive(Debug, Clone)]
pub struct ProgramRun {
    pub program: String,
    pub args: Vec<String>,
    pub cwd: Option<String>,
    pub options: RunOptions,
}

/// The mathematical value of a [`ProgramRun`].
pub struct RunView {
    pub program: Seq<char>,
    pub args: Seq<Seq<char>>,
    pub cwd: Option<Seq<char>>,
    pub options: RunOptions,
}

impl View for ProgramRun {
    type V = RunView;

    open spec fn view(&self) -> RunView {
        RunView { program: self.program@, args: views(self.args@), cwd: opt_view(self.cwd), options: self.options }
    }
}

/// The work a flow asks for next.
#[derive(Debug)]
pub enum Work {
    /// Create this directory and every missing directory above it.
    CreateDirectory(String),
    /// Run a program.
    Run(ProgramRun),
    /// Show this dialog.
    ShowDialog(DialogRequest),
    /// The action is over, with this result.
    Finish(Result<String, AppError>),
}

/// The mathematical value of a [`Work`].
pub enum WorkView {
    CreateDirectory(Seq<char>),
    Run(RunView),
    ShowDialog(Seq<char>, Seq<char>),
    Finish(Result<Seq<char>, AppErrorView>),
}

/// The view of a result that carries text or an error.
pub open spec fn text_result_view(r: Result<String, AppError>) -> Result<Seq<char>, AppErrorView> {
    match r {
        Ok(t) => Ok(t@),
        Err(e) => Err(e@),
    }
}

impl View for Work {
    type V = WorkView;

    open spec fn view(&self) -> WorkView {
        match self {
            Work::CreateDirectory(p) => WorkView::CreateDirectory(p@),
            Work::Run(r) => WorkView::Run(r@),
            Work::ShowDialog(d) => WorkView::ShowDialog(d.title@, d.message@),
            Work::Finish(r) => WorkView::Finish(text_result_view(*r)),
        }
    }
}

/// The outcome of a piece of work.
#[derive(Debug)]
pub enum Event {
    /// The directory exists now, or could not be created for the reason
    /// given.
    DirectoryCreated(Result<(), String>),
    /// The program ran and exited successfully, or the run failed.
    ProgramFinished(Result<ProcessOutput, AppError>),
    /// The dialog was shown (or could not be).
    DialogClosed,
}

/// The mathematical value of an [`Event`].
pub enum EventView {
    DirectoryCreated(Result<(), Seq<char>>),
    ProgramFinished(Result<OutputView, AppErrorView>),
    DialogClosed,
}

impl View for Event {
    type V = EventView;

    open spec fn view(&self) -> EventView {
        match self {
            Event::DirectoryCreated(r) => EventView::DirectoryCreated(
                match r {
                    Ok(()) => Ok(()),
                    Err(c) => Err(c@),
                },
            ),
            Event::ProgramFinished(r) => EventView::ProgramFinished(
                match r {
                    Ok(o) => Ok(o@),
                    Err(e) => Err(e@),
                },
            ),
            Event::DialogClosed => EventView::DialogClosed,
        }
    }
}

/// Where a flow stands.
#[derive(Debug)]
pub enum Stage {
    /// Waiting for the clone target's parent directory to be created.
    MakingParent,
    /// Waiting for the action's run of this index.
    Running(usize),
    /// Waiting for the dialog about this error to close.
    Dialog(AppError),
    /// Waiting for the check that the repository is a work tree.
    CheckingWorkTree,
    /// Waiting for the run that reads the repository's detail of this index:
    /// its current branch, head commit or short status.
    Capturing(usize),
    /// Finished with this result.
    Done(Result<String, AppError>),
}

/// The mathematical value of a [`Stage`].
pub enum StageView {
    MakingParent,
    Running(nat),
    Dialog(AppErrorView),
    CheckingWorkTree,
    Capturing(nat),
    Done(Result<Seq<char>, AppErrorView>),
}

impl View for Stage {
    type V = StageView;

    open spec fn view(&self) -> StageView {
        match self {
            Stage::MakingParent => StageView::MakingParent,
            Stage::Running(i) => StageView::Running(*i as nat),
            Stage::Dialog(e) => StageView::Dialog(e@),
            Stage::CheckingWorkTree => StageView::CheckingWorkTree,
            Stage::Capturing(k) => StageView::Capturing(*k as nat),
            Stage::Done(r) => StageView::Done(text_result_view(*r)),
        }
    }
}

/// The mathematical value of an [`ActionFlow`]: the parameters, the `git`
/// program, the admitted path, the branch read so far, whether the branch
/// to create exists, the outputs of the
/// action's runs, the repository details read so far, and the stage.
pub struct FlowView {
    pub params: ActionParams,
    pub git: Seq<char>,
    pub style: PathStyle,
    pub path: Option<Seq<char>>,
    pub branch: Seq<char>,
    pub found: bool,
    pub outputs: Seq<OutputView>,
    pub captures: Seq<Option<Seq<char>>>,
    pub stage: StageView,
}

/// The admitted path, or the empty text when there is none.
pub open spec fn path_text(path: Option<Seq<char>>) -> Seq<char> {
    match path {
        Some(p) => p,
        None => Seq::<char>::empty(),
    }
}

// ---------------------------------------------------------------------------
// The runs of each action
// ---------------------------------------------------------------------------

/// One program run of an action, before its repository is described.
pub struct PlannedRun {
    pub run: RunView,
    /// The run's output names the current branch.
    pub reads_branch: bool,
    /// The run's output tells whether the branch to create exists.
    pub probes: bool,
    /// A failure of the run is shown in a dialog before the action fails.
    pub dialog: bool,
}

/// No allowlist check, and no logging.
pub open spec fn quiet_options() -> RunOptions {
    RunOptions { enforce_command_allowlist: false, log_command: false, log_output: false }
}

/// No allowlist check; the command and its output are logged.
pub open spec fn logged_options() -> RunOptions {
    RunOptions { enforce_command_allowlist: false, log_command: true, log_output: true }
}

/// `git` with `args` in the repository `repo`.
pub open spec fn git_run(git: Seq<char>, args: Seq<Seq<char>>, repo: Seq<char>, options: RunOptions) -> RunView {
    RunView { program: git, args, cwd: Some(repo), options }
}

/// A logged `git` run that changes the repository.
pub open spec fn change_run(git: Seq<char>, args: Seq<Seq<char>>, repo: Seq<char>, dialog: bool) -> PlannedRun {
    PlannedRun { run: git_run(git, args, repo, logged_options()), reads_branch: false, probes: false, dialog }
}

/// A quiet `git` run that reads the repository.
pub open spec fn read_run(git: Seq<char>, args: Seq<Seq<char>>, repo: Seq<char>) -> PlannedRun {
    PlannedRun { run: git_run(git, args, repo, quiet_options()), reads_branch: false, probes: false, dialog: false }
}

/// The quiet `git` run that reads the current branch.
pub open spec fn branch_run(git: Seq<char>, repo: Seq<char>) -> PlannedRun {
    PlannedRun {
        run: git_run(git, current_branch_cmd(), repo, quiet_options()),
        reads_branch: true,
        probes: false,
        dialog: false,
    }
}

/// The branch that `git.push` pushes: the one named, or else the current
/// branch read before.
pub open spec fn push_branch(q: PushParams, branch: Seq<char>) -> Seq<char> {
    match q.branch {
        Some(b) => b@,
        None => branch,
    }
}

/// The runs of an action, in order, before its repository is described.
/// `branch` is the current branch once a run has read it, and `found`
/// whether the branch that `git.checkout_branch` would create exists.
pub open spec fn main_runs(
    p: ActionParams,
    git: Seq<char>,
    path: Option<Seq<char>>,
    branch: Seq<char>,
    found: bool,
) -> Seq<PlannedRun> {
    let repo = path_text(path);
    match p {
        ActionParams::Clone(c) => seq![
            PlannedRun {
                run: RunView { program: git, args: clone_args_spec(c, repo), cwd: None, options: logged_options() },
                reads_branch: false,
                probes: false,
                dialog: false,
            },
        ],
        ActionParams::Add(a) => seq![change_run(git, add_args_spec(a), repo, false)],
        ActionParams::CheckoutBranch(c) => if c.create {
            seq![
                PlannedRun {
                    run: git_run(git, branch_lookup_cmd(c.branch_name@), repo, quiet_options()),
                    reads_branch: false,
                    probes: true,
                    dialog: false,
                },
                change_run(git, checkout_create_args_spec(c, found), repo, false),
            ]
        } else {
            seq![change_run(git, checkout_args_spec(c), repo, false)]
        },
        ActionParams::Commit(c) => seq![change_run(git, commit_args_spec(c), repo, true)],
        ActionParams::GetCurrentBranch(_) => seq![branch_run(git, repo)],
        ActionParams::DiffStaged(_) => seq![read_run(git, diff_cached_cmd(), repo), read_run(git, diff_cached_names_cmd(), repo)],
        ActionParams::MergeBranch(m) => seq![
            change_run(git, merge_checkout_args_spec(m), repo, false),
            change_run(git, merge_args_spec(m), repo, false),
        ],
        ActionParams::Pull(q) => seq![change_run(git, pull_args_spec(q), repo, true)],
        ActionParams::Push(q) => {
            let push = change_run(git, push_args_spec(q, push_branch(q, branch)), repo, true);
            if q.branch is Some {
                seq![push]
            } else {
                seq![branch_run(git, repo), push]
            }
        },
        ActionParams::Fetch(f) => seq![change_run(git, fetch_args_spec(f), repo, false)],
        ActionParams::Status(_) => Seq::<PlannedRun>::empty(),
        ActionParams::ListBranches(_) => seq![read_run(git, branch_list_cmd(), repo)],
        ActionParams::ListBranchesStructured(_) => seq![
            branch_run(git, repo),
            read_run(git, local_branches_cmd(), repo),
            read_run(git, remote_branches_cmd(), repo),
        ],
        ActionParams::CommandRun(c) => seq![
            PlannedRun {
                run: RunView {
                    program: c.program@,
                    args: views(c.args@),
                    cwd: path,
                    options: RunOptions { enforce_command_allowlist: true, log_command: true, log_output: true },
                },
                reads_branch: false,
                probes: false,
                dialog: false,
            },
        ],
    }
}

/// The runs of the action of a flow.
pub open spec fn runs_of(fv: FlowView) -> Seq<PlannedRun> {
    main_runs(fv.params, fv.git, fv.path, fv.branch, fv.found)
}

/// The arguments of the run that reads a repository detail: the current
/// branch, the head commit, then the short status.
pub open spec fn capture_cmd(k: nat) -> Seq<Seq<char>> {
    if k == 0 {
        current_branch_cmd()
    } else if k == 1 {
        head_commit_cmd()
    } else {
        status_cmd()
    }
}

// ---------------------------------------------------------------------------
// Results
// ---------------------------------------------------------------------------

/// The result of an action that describes its repository, given the
/// repository's description.
pub open spec fn described_result(fv: FlowView, repository: Seq<char>) -> Seq<char> {
    match fv.params {
        ActionParams::Commit(c) => commit_result_json(c.message@, repository),
        ActionParams::Push(q) => push_result_json(
            remote_or_origin(opt_view(q.remote)),
            push_branch(q, fv.branch),
            repository,
        ),
        _ => repository_result_json(params_kind(fv.params), repository),
    }
}

/// The result of an action that does not describe its repository, from
/// the outputs of its runs.
pub open spec fn direct_result(fv: FlowView) -> Seq<char> {
    let repo = path_text(fv.path);
    match fv.params {
        ActionParams::GetCurrentBranch(_) => current_branch_result_json(repo, fv.branch),
        ActionParams::DiffStaged(_) => diff_staged_result_json(
            repo,
            nonblank_lines(lines(fv.outputs[1].stdout)),
            fv.outputs[0].stdout,
        ),
        ActionParams::ListBranches(_) => branch_list_result_json(repo, trim(fv.outputs[0].stdout)),
        ActionParams::ListBranchesStructured(_) => branches_result_json(
            repo,
            local_branches(lines(fv.outputs[1].stdout), fv.branch) + remote_branches(
                lines(fv.outputs[2].stdout),
            ),
        ),
        ActionParams::CommandRun(c) => command_result_json(c.program@, views(c.args@), fv.path, fv.outputs[0]),
        _ => Seq::<char>::empty(),
    }
}

/// The error for a clone target whose parent directory could not be made.
pub open spec fn parent_dir_error(parent: Seq<char>, cause: Seq<char>) -> AppErrorView {
    internal_error(
        "Failed to create parent directory for clone target."@,
        Some(json_object(seq!["path"@, "cause"@], seq![json_str(parent), json_str(cause)])),
    )
}

// ---------------------------------------------------------------------------
// Steps
// ---------------------------------------------------------------------------

/// The flow at another stage.
pub open spec fn at_stage(fv: FlowView, stage: StageView) -> FlowView {
    FlowView { stage, ..fv }
}

/// The flow finished with `result`.
pub open spec fn finished(fv: FlowView, result: Result<Seq<char>, AppErrorView>) -> FlowView {
    at_stage(fv, StageView::Done(result))
}

/// The flow going on at the run of index `i`: that run if there is one,
/// else the description of the repository, else the result.
pub open spec fn proceed(fv: FlowView, i: nat) -> FlowView {
    if i < runs_of(fv).len() {
        at_stage(fv, StageView::Running(i))
    } else if describes(params_kind(fv.params)) {
        at_stage(fv, StageView::CheckingWorkTree)
    } else {
        finished(fv, Ok(direct_result(fv)))
    }
}

/// A flow that has not started.
pub open spec fn fresh(p: ActionParams, git: Seq<char>, style: PathStyle, path: Option<Seq<char>>) -> FlowView {
    FlowView {
        params: p,
        git,
        style,
        path,
        branch: Seq::<char>::empty(),
        found: false,
        outputs: Seq::<OutputView>::empty(),
        captures: Seq::<Option<Seq<char>>>::empty(),
        stage: StageView::Running(0),
    }
}

/// The path an action works in, or why it may not start: `command.run`
/// checks its program and admits its working directory, if it names one;
/// every Git action admits its repository path (for a clone, the target).
pub open spec fn admission(
    style: PathStyle,
    p: ActionParams,
    roots: Seq<Seq<char>>,
    cwd: Result<Seq<char>, Seq<char>>,
) -> Result<Option<Seq<char>>, AppErrorView> {
    let admitted = match p {
        ActionParams::CommandRun(c) => match c.cwd {
            None => Ok(Seq::<char>::empty()),
            Some(d) => ensure_allowed_result(style, d@, roots, "cwd"@, cwd),
        },
        ActionParams::Clone(c) => ensure_allowed_result(style, c.destination_path@, roots, "destination_path"@, cwd),
        _ => ensure_allowed_result(style, repo_input(p), roots, "repo_path"@, cwd),
    };
    match p {
        ActionParams::CommandRun(c) => match command_params_check(c.program@) {
            Err(e) => Err(e),
            Ok(_) => match admitted {
                Err(e) => Err(e),
                Ok(x) => if c.cwd is Some {
                    Ok(Some(x))
                } else {
                    Ok(None)
                },
            },
        },
        _ => match admitted {
            Err(e) => Err(e),
            Ok(x) => Ok(Some(x)),
        },
    }
}

/// How an action starts: with its error when it may not start; a clone
/// whose target has a parent directory first makes that directory; any
/// other action goes on at its first run.
pub open spec fn initial_flow(
    p: ActionParams,
    git: Seq<char>,
    style: PathStyle,
    roots: Seq<Seq<char>>,
    cwd: Result<Seq<char>, Seq<char>>,
) -> FlowView {
    match admission(style, p, roots, cwd) {
        Err(e) => finished(fresh(p, git, style, None), Err(e)),
        Ok(path) => if p is Clone && parent_dir(style, path_text(path)) is Some {
            at_stage(fresh(p, git, style, path), StageView::MakingParent)
        } else {
            proceed(fresh(p, git, style, path), 0)
        },
    }
}

/// The flow after the run of index `i` succeeded with output `o`: a run
/// that reads the current branch fails the action when the branch is
/// blank, a lookup records whether the branch to create exists, and the
/// output is kept before the flow goes on.
pub open spec fn after_output(fv: FlowView, i: nat, o: OutputView) -> FlowView {
    let planned = runs_of(fv)[i as int];
    let kept = FlowView { outputs: fv.outputs.push(o), ..fv };
    if planned.reads_branch {
        match current_branch_result(o.stdout) {
            Err(e) => finished(fv, Err(e)),
            Ok(b) => proceed(FlowView { branch: b, ..kept }, i + 1),
        }
    } else if planned.probes {
        proceed(FlowView { found: trim(o.stdout).len() > 0, ..kept }, i + 1)
    } else {
        proceed(kept, i + 1)
    }
}

/// The flow after the outcome `ev` of its pending work. An outcome that
/// does not answer the pending work changes nothing.
pub open spec fn after(fv: FlowView, ev: EventView) -> FlowView {
    let repo = path_text(fv.path);
    match (fv.stage, ev) {
        (StageView::MakingParent, EventView::DirectoryCreated(r)) => match r {
            Ok(_) => proceed(fv, 0),
            Err(cause) => finished(fv, Err(parent_dir_error(path_text(parent_dir(fv.style, repo)), cause))),
        },
        (StageView::Running(i), EventView::ProgramFinished(r)) => {
            let planned = runs_of(fv)[i as int];
            match r {
                Err(e) => if planned.dialog {
                    at_stage(fv, StageView::Dialog(e))
                } else {
                    finished(fv, Err(e))
                },
                Ok(o) => after_output(fv, i, o),
            }
        },
        (StageView::Dialog(e), EventView::DialogClosed) => finished(fv, Err(e)),
        (StageView::CheckingWorkTree, EventView::ProgramFinished(r)) => match r {
            Err(e) => finished(fv, Err(e)),
            Ok(_) => at_stage(fv, StageView::Capturing(0)),
        },
        (StageView::Capturing(k), EventView::ProgramFinished(r)) => {
            let value = match r {
                Ok(o) => captured(o.stdout),
                Err(_) => None,
            };
            let c = fv.captures.push(value);
            if k + 1 < 3 {
                at_stage(FlowView { captures: c, ..fv }, StageView::Capturing(k + 1))
            } else {
                finished(
                    FlowView { captures: c, ..fv },
                    Ok(described_result(fv, repository_json(repo, c[0], c[1], c[2]))),
                )
            }
        },
        _ => fv,
    }
}

/// Whether `ev` answers the pending work of the flow.
pub open spec fn answers(fv: FlowView, ev: EventView) -> bool {
    match (fv.stage, ev) {
        (StageView::MakingParent, EventView::DirectoryCreated(_)) => true,
        (StageView::Running(_), EventView::ProgramFinished(_)) => true,
        (StageView::Dialog(_), EventView::DialogClosed) => true,
        (StageView::CheckingWorkTree, EventView::ProgramFinished(_)) => true,
        (StageView::Capturing(_), EventView::ProgramFinished(_)) => true,
        _ => false,
    }
}

/// The work a flow asks for at its stage.
pub open spec fn pending_work(fv: FlowView) -> WorkView {
    let repo = path_text(fv.path);
    match fv.stage {
        StageView::MakingParent => WorkView::CreateDirectory(path_text(parent_dir(fv.style, repo))),
        StageView::Running(i) => WorkView::Run(runs_of(fv)[i as int].run),
        StageView::Dialog(e) => {
            let d = git_error_dialog(dialog_word(params_kind(fv.params)), repo, e.payload.message, e.payload.code);
            WorkView::ShowDialog(d.0, d.1)
        },
        StageView::CheckingWorkTree => WorkView::Run(git_run(fv.git, work_tree_check_cmd(), repo, quiet_options())),
        StageView::Capturing(k) => WorkView::Run(git_run(fv.git, capture_cmd(k), repo, quiet_options())),
        StageView::Done(r) => WorkView::Finish(r),
    }
}

/// What every flow keeps: it waits for an existing run, has as many
/// outputs as runs that finished, and reads the repository's details in
/// order, only for an action that describes its repository.
pub open spec fn flow_wf(fv: FlowView) -> bool {
    match fv.stage {
        StageView::MakingParent => fv.outputs.len() == 0 && fv.captures.len() == 0,
        StageView::Running(i) => i < runs_of(fv).len() && fv.outputs.len() == i && fv.captures.len() == 0,
        StageView::Dialog(_) => true,
        StageView::CheckingWorkTree => describes(params_kind(fv.params)) && fv.captures.len() == 0,
        StageView::Capturing(k) => describes(params_kind(fv.params)) && k < 3 && fv.captures.len() == k,
        StageView::Done(_) => true,
    }
}

// ---------------------------------------------------------------------------
// The flow
// ---------------------------------------------------------------------------

/// An action on its way from parameters to result.
#[derive(Debug)]
pub struct ActionFlow {
    params: ActionParams,
    git: String,
    style: PathStyle,
    path: Option<String>,
    branch: String,
    found: bool,
    outputs: Vec<ProcessOutput>,
    captures: Vec<Option<String>>,
    stage: Stage,
}

impl View for ActionFlow {
    type V = FlowView;

    closed spec fn view(&self) -> FlowView {
        FlowView {
            params: self.params,
            git: self.git@,
            style: self.style,
            path: opt_view(self.path),
            branch: self.branch@,
            found: self.found,
            outputs: self.outputs@.map_values(|o: ProcessOutput| o@),
            captures: self.captures@.map_values(|c: Option<String>| opt_view(c)),
            stage: self.stage@,
        }
    }
}

/// The action that parameters belong to.
fn kind_of(p: &ActionParams) -> (k: ActionKind)
    ensures
        k == params_kind(*p),
{
    match p {
        ActionParams::Clone(_) => ActionKind::Clone,
        ActionParams::Add(_) => ActionKind::Add,
        ActionParams::CheckoutBranch(_) => ActionKind::CheckoutBranch,
        ActionParams::Commit(_) => ActionKind::Commit,
        ActionParams::GetCurrentBranch(_) => ActionKind::GetCurrentBranch,
        ActionParams::DiffStaged(_) => ActionKind::DiffStaged,
        ActionParams::MergeBranch(_) => ActionKind::MergeBranch,
        ActionParams::Pull(_) => ActionKind::Pull,
        ActionParams::Push(_) => ActionKind::Push,
        ActionParams::Fetch(_) => ActionKind::Fetch,
        ActionParams::Status(_) => ActionKind::Status,
        ActionParams::ListBranches(_) => ActionKind::ListBranches,
        ActionParams::ListBranchesStructured(_) => ActionKind::ListBranchesStructured,
        ActionParams::CommandRun(_) => ActionKind::CommandRun,
    }
}

/// The repository path that Git parameters name.
fn repo_input_str(p: &ActionParams) -> (s: &str)
    ensures
        s@ == repo_input(*p),
{
    match p {
        ActionParams::Clone(c) => c.destination_path.as_str(),
        ActionParams::Add(a) => a.repo_path.as_str(),
        ActionParams::CheckoutBranch(c) => c.repo_path.as_str(),
        ActionParams::Commit(c) => c.repo_path.as_str(),
        ActionParams::GetCurrentBranch(r) => r.repo_path.as_str(),
        ActionParams::DiffStaged(r) => r.repo_path.as_str(),
        ActionParams::MergeBranch(m) => m.repo_path.as_str(),
        ActionParams::Pull(q) => q.repo_path.as_str(),
        ActionParams::Push(q) => q.repo_path.as_str(),
        ActionParams::Fetch(f) => f.repo_path.as_str(),
        ActionParams::Status(r) => r.repo_path.as_str(),
        ActionParams::ListBranches(r) => r.repo_path.as_str(),
        ActionParams::ListBranchesStructured(r) => r.repo_path.as_str(),
        ActionParams::CommandRun(_) => {
            proof {
                reveal_strlit("");
            }
            ""
        },
    }
}

fn describes_kind(kind: ActionKind) -> (b: bool)
    ensures
        b == describes(kind),
{
    match kind {
        ActionKind::GetCurrentBranch | ActionKind::DiffStaged | ActionKind::ListBranches
        | ActionKind::ListBranchesStructured | ActionKind::CommandRun => false,
        _ => true,
    }
}

fn dialog_word_str(kind: ActionKind) -> (s: &'static str)
    ensures
        s@ == dialog_word(kind),
{
    match kind {
        ActionKind::Commit => "commit",
        ActionKind::Pull => "pull",
        _ => "push",
    }
}

/// The text of an optional path, empty when there is none.
fn path_or_empty(path: &Option<String>) -> (s: String)
    ensures
        s@ == path_text(opt_view(*path)),
{
    match path {
        Some(p) => p.clone(),
        None => {
            proof {
                reveal_strlit("");
            }
            owned("")
        },
    }
}

/// The error for a clone target whose parent directory could not be made.
fn parent_error(parent: &str, cause: &str) -> (e: AppError)
    ensures
        e@ == parent_dir_error(parent@, cause@),
{
    let keys = vec![owned("path"), owned("cause")];
    let values = vec![json_string(parent), json_string(cause)];
    assert(views(keys@) =~= seq!["path"@, "cause"@]);
    assert(views(values@) =~= seq![json_str(parent@), json_str(cause@)]);
    AppError::internal_with_details(
        owned("Failed to create parent directory for clone target."),
        json_object_text(&keys, &values),
    )
}

spec fn opt_path_result_view(r: &Result<Option<String>, AppError>) -> Result<Option<Seq<char>>, AppErrorView> {
    match r {
        Ok(p) => Ok(opt_view(*p)),
        Err(e) => Err(e@),
    }
}

/// The path an action works in, or why it may not start.
fn admitted_path(params: &ActionParams, config: &Config, cwd: &Result<String, String>) -> (r: Result<Option<String>, AppError>)
    ensures
        opt_path_result_view(&r) == admission(config.path_style, *params, views(config.allowed_roots@), cwd_view(cwd)),
{
    let roots = &config.allowed_roots;
    match params {
        ActionParams::CommandRun(c) => match check_command_params(c) {
            Err(e) => Err(e),
            Ok(()) => match &c.cwd {
                None => Ok(None),
                Some(d) => match ensure_allowed_path(d.as_str(), roots, "cwd", cwd, config.path_style) {
                    Ok(x) => Ok(Some(x)),
                    Err(e) => Err(e),
                },
            },
        },
        ActionParams::Clone(c) => match ensure_allowed_path(c.destination_path.as_str(), roots, "destination_path", cwd, config.path_style) {
            Ok(x) => Ok(Some(x)),
            Err(e) => Err(e),
        },
        _ => match ensure_allowed_path(repo_input_str(params), roots, "repo_path", cwd, config.path_style) {
            Ok(x) => Ok(Some(x)),
            Err(e) => Err(e),
        },
    }
}

impl ActionFlow {
    /// The flow keeps its stage consistent with what it has read.
    pub open spec fn wf(&self) -> bool {
        flow_wf(self@)
    }

    fn repo(&self) -> (s: String)
        ensures
            s@ == path_text(self@.path),
    {
        path_or_empty(&self.path)
    }

    fn git_run_exec(&self, args: Vec<String>, options: RunOptions) -> (r: ProgramRun)
        ensures
            r@ == git_run(self@.git, views(args@), path_text(self@.path), options),
    {
        ProgramRun { program: self.git.clone(), args, cwd: Some(self.repo()), options }
    }

    /// How many runs the action makes before describing its repository.
    fn run_count(&self) -> (n: usize)
        ensures
            n == runs_of(self@).len(),
    {
        match &self.params {
            ActionParams::DiffStaged(_) | ActionParams::MergeBranch(_) => 2,
            ActionParams::Push(q) => match &q.branch {
                Some(_) => 1,
                None => 2,
            },
            ActionParams::CheckoutBranch(c) => if c.create {
                2
            } else {
                1
            },
            ActionParams::Status(_) => 0,
            ActionParams::ListBranchesStructured(_) => 3,
            _ => 1,
        }
    }

    /// Whether the run of index `i` reads the current branch, whether it
    /// looks up the branch to create, and whether
    /// its failure is shown in a dialog.
    fn run_flags(&self, i: usize) -> (r: (bool, bool, bool))
        requires
            i < runs_of(self@).len(),
        ensures
            r.0 == runs_of(self@)[i as int].reads_branch,
            r.1 == runs_of(self@)[i as int].probes,
            r.2 == runs_of(self@)[i as int].dialog,
    {
        match &self.params {
            ActionParams::Commit(_) | ActionParams::Pull(_) => (false, false, true),
            ActionParams::GetCurrentBranch(_) => (true, false, false),
            ActionParams::CheckoutBranch(c) => (false, c.create && i == 0, false),
            ActionParams::Push(q) => match &q.branch {
                Some(_) => (false, false, true),
                None => if i == 0 {
                    (true, false, false)
                } else {
                    (false, false, true)
                },
            },
            ActionParams::ListBranchesStructured(_) => (i == 0, false, false),
            _ => (false, false, false),
        }
    }

    /// The run of index `i`.
    fn planned_run(&self, i: usize) -> (r: ProgramRun)
        requires
            i < runs_of(self@).len(),
        ensures
            r@ == runs_of(self@)[i as int].run,
    {
        match &self.params {
            ActionParams::Clone(c) => {
                let repo = self.repo();
                ProgramRun {
                    program: self.git.clone(),
                    args: clone_args(c, repo.as_str()),
                    cwd: None,
                    options: RunOptions::logged(),
                }
            },
            ActionParams::Add(a) => self.git_run_exec(add_args(a), RunOptions::logged()),
            ActionParams::CheckoutBranch(c) => if !c.create {
                self.git_run_exec(checkout_args(c), RunOptions::logged())
            } else if i == 0 {
                self.git_run_exec(branch_lookup_args(c.branch_name.as_str()), RunOptions::quiet())
            } else {
                self.git_run_exec(checkout_create_args(c, self.found), RunOptions::logged())
            },
            ActionParams::Commit(c) => self.git_run_exec(commit_args(c), RunOptions::logged()),
            ActionParams::GetCurrentBranch(_) => self.git_run_exec(current_branch_args(), RunOptions::quiet()),
            ActionParams::DiffStaged(_) => if i == 0 {
                self.git_run_exec(diff_cached_args(), RunOptions::quiet())
            } else {
                self.git_run_exec(diff_cached_names_args(), RunOptions::quiet())
            },
            ActionParams::MergeBranch(m) => if i == 0 {
                self.git_run_exec(merge_checkout_args(m), RunOptions::logged())
            } else {
                self.git_run_exec(merge_args(m), RunOptions::logged())
            },
            ActionParams::Pull(q) => self.git_run_exec(pull_args(q), RunOptions::logged()),
            ActionParams::Push(q) => match &q.branch {
                Some(b) => self.git_run_exec(push_args(q, b.as_str()), RunOptions::logged()),
                None => if i == 0 {
                    self.git_run_exec(current_branch_args(), RunOptions::quiet())
                } else {
                    self.git_run_exec(push_args(q, self.branch.as_str()), RunOptions::logged())
                },
            },
            ActionParams::Fetch(f) => self.git_run_exec(fetch_args(f), RunOptions::logged()),
            ActionParams::Status(_) => unreached(),
            ActionParams::ListBranches(_) => self.git_run_exec(branch_list_args(), RunOptions::quiet()),
            ActionParams::ListBranchesStructured(_) => if i == 0 {
                self.git_run_exec(current_branch_args(), RunOptions::quiet())
            } else if i == 1 {
                self.git_run_exec(local_branches_args(), RunOptions::quiet())
            } else {
                self.git_run_exec(remote_branches_args(), RunOptions::quiet())
            },
            ActionParams::CommandRun(c) => ProgramRun {
                program: c.program.clone(),
                args: copy_strings(&c.args),
                cwd: copy_opt_string(&self.path),
                options: command_run_options(),
            },
        }
    }

    /// The result of an action that does not describe its repository.
    fn direct_result_text(&self) -> (out: String)
        requires
            self@.outputs.len() == runs_of(self@).len(),
        ensures
            out@ == direct_result(self@),
    {
        let repo = self.repo();
        match &self.params {
            ActionParams::GetCurrentBranch(_) => current_branch_action_result(repo.as_str(), self.branch.as_str()),
            ActionParams::DiffStaged(_) => {
                let files = staged_files(self.outputs[1].stdout.as_str());
                diff_staged_result(repo.as_str(), &files, self.outputs[0].stdout.as_str())
            },
            ActionParams::ListBranches(_) => {
                let text = trimmed_output(self.outputs[0].stdout.as_str());
                branch_list_result(repo.as_str(), text.as_str())
            },
            ActionParams::ListBranchesStructured(_) => {
                let mut branches = parse_local_branches(self.outputs[1].stdout.as_str(), self.branch.as_str());
                let mut remote = parse_remote_branches(self.outputs[2].stdout.as_str());
                let ghost local_views = branch_views(branches@);
                let ghost remote_views = branch_views(remote@);
                branches.append(&mut remote);
                assert(branch_views(branches@) =~= local_views + remote_views);
                branches_result(repo.as_str(), &branches)
            },
            ActionParams::CommandRun(c) => command_result(c, &self.path, &self.outputs[0]),
            _ => {
                proof {
                    reveal_strlit("");
                }
                owned("")
            },
        }
    }

    /// The result of an action that describes its repository.
    fn described_result_text(&self, repository: String) -> (out: String)
        ensures
            out@ == described_result(self@, repository@),
    {
        match &self.params {
            ActionParams::Commit(c) => commit_result(c.message.as_str(), repository),
            ActionParams::Push(q) => {
                let remote = remote_name(&q.remote);
                let branch = match &q.branch {
                    Some(b) => b.clone(),
                    None => self.branch.clone(),
                };
                push_result(remote.as_str(), branch.as_str(), repository)
            },
            _ => repository_result(kind_of(&self.params), repository),
        }
    }

    /// Goes on at the run of index `i`.
    fn proceed_at(&mut self, i: usize)
        requires
            old(self)@.outputs.len() == i,
            i <= runs_of(old(self)@).len(),
            old(self)@.captures.len() == 0,
        ensures
            final(self)@ == proceed(old(self)@, i as nat),
            final(self).wf(),
    {
        let n = self.run_count();
        if i < n {
            self.stage = Stage::Running(i);
        } else if describes_kind(kind_of(&self.params)) {
            self.stage = Stage::CheckingWorkTree;
        } else {
            let result = self.direct_result_text();
            self.stage = Stage::Done(Ok(result));
        }
    }

    /// The work the flow asks for at its stage.
    pub fn pending(&self) -> (w: Work)
        requires
            self.wf(),
        ensures
            w@ == pending_work(self@),
    {
        match &self.stage {
            Stage::MakingParent => {
                let repo = self.repo();
                let parent = path_or_empty(&parent_path(repo.as_str(), self.style));
                Work::CreateDirectory(parent)
            },
            Stage::Running(i) => Work::Run(self.planned_run(*i)),
            Stage::Dialog(e) => {
                let repo = self.repo();
                Work::ShowDialog(build_git_error_dialog(dialog_word_str(kind_of(&self.params)), repo.as_str(), e))
            },
            Stage::CheckingWorkTree => Work::Run(self.git_run_exec(work_tree_check_args(), RunOptions::quiet())),
            Stage::Capturing(k) => {
                let args = if *k == 0 {
                    current_branch_args()
                } else if *k == 1 {
                    head_commit_args()
                } else {
                    status_args()
                };
                Work::Run(self.git_run_exec(args, RunOptions::quiet()))
            },
            Stage::Done(r) => Work::Finish(
                match r {
                    Ok(t) => Ok(t.clone()),
                    Err(e) => Err(e.duplicate()),
                },
            ),
        }
    }

    /// Keeps the output of the run of index `i` and goes on after it.
    fn keep_and_proceed(&mut self, i: usize, o: ProcessOutput)
        requires
            old(self)@.outputs.len() == i,
            i < runs_of(old(self)@).len(),
            old(self)@.captures.len() == 0,
        ensures
            final(self)@ == proceed(FlowView { outputs: old(self)@.outputs.push(o@), ..old(self)@ }, i as nat + 1),
            final(self).wf(),
    {
        let ghost fv = self@;
        let ghost ov = o@;
        self.outputs.push(o);
        assert(self@.outputs =~= fv.outputs.push(ov));
        assert(self@ == FlowView { outputs: fv.outputs.push(ov), ..fv });
        self.proceed_at(i + 1);
    }

    /// Takes the failure of a run of the action.
    fn fail_run(&mut self, i: usize, e: AppError)
        requires
            old(self).wf(),
            old(self)@.stage == StageView::Running(i as nat),
        ensures
            final(self)@ == after(old(self)@, EventView::ProgramFinished(Err(e@))),
            final(self).wf(),
    {
        let (_, _, dialog) = self.run_flags(i);
        if dialog {
            self.stage = Stage::Dialog(e);
        } else {
            self.stage = Stage::Done(Err(e));
        }
    }

    /// Takes the output of a run of the action that succeeded.
    fn complete_run(&mut self, i: usize, o: ProcessOutput)
        requires
            old(self).wf(),
            old(self)@.stage == StageView::Running(i as nat),
        ensures
            final(self)@ == after_output(old(self)@, i as nat, o@),
            final(self).wf(),
    {
        let (reads, probes, _) = self.run_flags(i);
        if reads {
            match current_branch_from_output(o.stdout.as_str()) {
                Err(e) => {
                    self.stage = Stage::Done(Err(e));
                },
                Ok(b) => {
                    self.branch = b;
                    self.keep_and_proceed(i, o);
                },
            }
        } else if probes {
            let v = chars_of(o.stdout.as_str());
            let exists = trim_chars(v.as_slice()).len() > 0;
            self.found = exists;
            self.keep_and_proceed(i, o);
        } else {
            self.keep_and_proceed(i, o);
        }
    }

    /// Takes the outcome of a run of the action.
    fn finish_run(&mut self, i: usize, r: Result<ProcessOutput, AppError>)
        requires
            old(self).wf(),
            old(self)@.stage == StageView::Running(i as nat),
        ensures
            final(self)@ == after(old(self)@, Event::ProgramFinished(r)@),
            final(self).wf(),
    {
        match r {
            Err(e) => self.fail_run(i, e),
            Ok(o) => self.complete_run(i, o),
        }
    }

    /// Takes the outcome of a run that reads a repository detail.
    fn finish_capture(&mut self, k: usize, r: Result<ProcessOutput, AppError>)
        requires
            old(self).wf(),
            old(self)@.stage == StageView::Capturing(k as nat),
        ensures
            final(self)@ == after(old(self)@, Event::ProgramFinished(r)@),
            final(self).wf(),
    {
        let ghost fv = self@;
        let value = match &r {
            Ok(o) => captured_value(o.stdout.as_str()),
            Err(_) => None,
        };
        let ghost cv = opt_view(value);
        self.captures.push(value);
        assert(self@.captures =~= fv.captures.push(cv));
        if k + 1 < 3 {
            self.stage = Stage::Capturing(k + 1);
        } else {
            let repo = self.repo();
            let repository = describe_repository_json(
                repo.as_str(),
                &self.captures[0],
                &self.captures[1],
                &self.captures[2],
            );
            let result = self.described_result_text(repository);
            self.stage = Stage::Done(Ok(result));
        }
    }

    /// Takes the outcome `event` of the pending work.
    fn apply(&mut self, event: Event)
        requires
            old(self).wf(),
        ensures
            final(self)@ == after(old(self)@, event@),
            final(self).wf(),
    {
        match event {
            Event::DirectoryCreated(r) => match &self.stage {
                Stage::MakingParent => match r {
                    Ok(()) => self.proceed_at(0),
                    Err(cause) => {
                        let repo = self.repo();
                        let parent = path_or_empty(&parent_path(repo.as_str(), self.style));
                        self.stage = Stage::Done(Err(parent_error(parent.as_str(), cause.as_str())));
                    },
                },
                _ => {},
            },
            Event::ProgramFinished(r) => match &self.stage {
                Stage::Running(i) => {
                    let i = *i;
                    self.finish_run(i, r);
                },
                Stage::CheckingWorkTree => match r {
                    Err(e) => {
                        self.stage = Stage::Done(Err(e));
                    },
                    Ok(_) => {
                        self.stage = Stage::Capturing(0);
                    },
                },
                Stage::Capturing(k) => {
                    let k = *k;
                    self.finish_capture(k, r);
                },
                _ => {},
            },
            Event::DialogClosed => match &self.stage {
                Stage::Dialog(e) => {
                    let e = e.duplicate();
                    self.stage = Stage::Done(Err(e));
                },
                _ => {},
            },
        }
    }

    /// Starts an action: admits its path (and, for `command.run`, checks
    /// its program), and gives the first work to do.
    pub fn start(params: ActionParams, config: &Config, cwd: &Result<String, String>) -> (r: (ActionFlow, Work))
        ensures
            r.0.wf(),
            r.0@ == initial_flow(
                params,
                config.git_binary@,
                config.path_style,
                views(config.allowed_roots@),
                cwd_view(cwd),
            ),
            r.1@ == pending_work(r.0@),
    {
        let ghost p = params;
        let ghost git = config.git_binary@;
        let ghost style = config.path_style;
        let admitted = admitted_path(&params, config, cwd);
        let is_clone = match &params {
            ActionParams::Clone(_) => true,
            _ => false,
        };
        let mut flow = ActionFlow {
            params,
            git: config.git_binary.clone(),
            style: config.path_style,
            path: None,
            branch: owned(""),
            found: false,
            outputs: Vec::new(),
            captures: Vec::new(),
            stage: Stage::Running(0),
        };
        proof {
            reveal_strlit("");
        }
        assert(flow@.outputs =~= Seq::<OutputView>::empty());
        assert(flow@.captures =~= Seq::<Option<Seq<char>>>::empty());
        assert(flow@.params == p);
        assert(flow@.git == git);
        assert(flow@.path == None::<Seq<char>>);
        assert(flow@.branch == Seq::<char>::empty());
        assert(flow@.stage == StageView::Running(0));
        assert(flow@ == fresh(p, git, style, None));
        match admitted {
            Err(e) => {
                flow.stage = Stage::Done(Err(e));
                assert(flow@ == finished(fresh(p, git, style, None), Err(e@)));
            },
            Ok(path) => {
                let has_parent = match &path {
                    Some(x) => is_clone && parent_path(x.as_str(), config.path_style).is_some(),
                    None => false,
                };
                let ghost pv = opt_view(path);
                flow.path = path;
                assert(flow@ == fresh(p, git, style, pv));
                assert(has_parent == (p is Clone && parent_dir(style, path_text(pv)) is Some));
                if has_parent {
                    flow.stage = Stage::MakingParent;
                } else {
                    flow.proceed_at(0);
                }
            },
        }
        let work = flow.pending();
        (flow, work)
    }

    /// Takes the outcome `event` of the pending work and gives the work
    /// after it. An outcome that does not answer the pending work changes
    /// nothing, and the same work is asked for again.
    pub fn advance(&mut self, event: Event) -> (w: Work)
        requires
            old(self).wf(),
        ensures
            final(self).wf(),
            final(self)@ == after(old(self)@, event@),
            w@ == pending_work(final(self)@),
    {
        self.apply(event);
        self.pending()
    }
}

// ---------------------------------------------------------------------------
// Laws
// ---------------------------------------------------------------------------

/// The flow after the outcomes `events`, in order.
pub open spec fn replay(fv: FlowView, events: Seq<EventView>) -> FlowView
    decreases events.len(),
{
    if events.len() == 0 {
        fv
    } else {
        after(replay(fv, events.drop_last()), events.last())
    }
}

/// How many answered pieces of work a flow has left at most.
pub open spec fn steps_left(fv: FlowView) -> nat {
    let n = runs_of(fv).len();
    let d: nat = if describes(params_kind(fv.params)) {
        4
    } else {
        0
    };
    match fv.stage {
        StageView::MakingParent => n + d + 2,
        StageView::Running(i) => (n - i) as nat + d + 1,
        StageView::Dialog(_) => 1,
        StageView::CheckingWorkTree => 4,
        StageView::Capturing(k) => (3 - k) as nat,
        StageView::Done(_) => 0,
    }
}

/// Every action comes to an end: each answered piece of work leaves the
/// flow consistent and with fewer steps left, an outcome that answers
/// nothing changes nothing, and only a finished flow has no step left.
pub proof fn law_flow_ends(fv: FlowView, ev: EventView)
    requires
        flow_wf(fv),
    ensures
        flow_wf(after(fv, ev)),
        answers(fv, ev) ==> steps_left(after(fv, ev)) < steps_left(fv),
        !answers(fv, ev) ==> after(fv, ev) == fv,
        (steps_left(fv) == 0) == (fv.stage is Done),
{
}

/// A failed run of an action fails the action with the run's error; for a
/// run whose failure is shown in a dialog, that happens once the dialog
/// about the error has closed.
pub proof fn law_failed_run_fails_action(fv: FlowView, e: AppErrorView)
    requires
        flow_wf(fv),
        fv.stage is Running,
    ensures
        ({
            let planned = runs_of(fv)[fv.stage->Running_0 as int];
            let next = after(fv, EventView::ProgramFinished(Err(e)));
            &&& !planned.dialog ==> next.stage == StageView::Done(Err(e))
            &&& planned.dialog ==> next.stage == StageView::Dialog(e) && pending_work(next) is ShowDialog
                && after(next, EventView::DialogClosed).stage == StageView::Done(Err(e))
        }),
{
}

/// What a flow keeps from its start on: its parameters, `git` program and
/// path style, its admitted path, and, when it could not start, its error.
pub open spec fn keeps_start(
    fv: FlowView,
    p: ActionParams,
    git: Seq<char>,
    style: PathStyle,
    roots: Seq<Seq<char>>,
    cwd: Result<Seq<char>, Seq<char>>,
) -> bool {
    &&& flow_wf(fv)
    &&& fv.params == p
    &&& fv.git == git
    &&& fv.style == style
    &&& match admission(style, p, roots, cwd) {
        Ok(path) => fv.path == path,
        Err(e) => fv.stage == StageView::Done(Err::<Seq<char>, AppErrorView>(e)),
    }
}

proof fn lemma_replay_keeps_start(
    p: ActionParams,
    git: Seq<char>,
    style: PathStyle,
    roots: Seq<Seq<char>>,
    cwd: Result<Seq<char>, Seq<char>>,
    events: Seq<EventView>,
)
    ensures
        keeps_start(replay(initial_flow(p, git, style, roots, cwd), events), p, git, style, roots, cwd),
    decreases events.len(),
{
    if events.len() > 0 {
        lemma_replay_keeps_start(p, git, style, roots, cwd, events.drop_last());
        law_flow_ends(replay(initial_flow(p, git, style, roots, cwd), events.drop_last()), events.last());
    }
}

/// The path is admitted: compared as the platform compares paths, the
/// entries of some allowed root begin its entries.
pub open spec fn within_some_root(style: PathStyle, path: Seq<char>, roots: Seq<Seq<char>>) -> bool {
    exists|i: int|
        0 <= i < roots.len() && entries_within(comparable(style, path), comparable(style, #[trigger] roots[i]))
}

proof fn lemma_admitted_within(
    style: PathStyle,
    p: ActionParams,
    roots: Seq<Seq<char>>,
    cwd: Result<Seq<char>, Seq<char>>,
)
    ensures
        admission(style, p, roots, cwd) matches Ok(Some(x)) ==> within_some_root(style, x, roots),
        admission(style, p, roots, cwd) matches Ok(None) ==> p matches ActionParams::CommandRun(c) && c.cwd is None,
{
    match p {
        ActionParams::CommandRun(c) => {
            if let Some(d) = c.cwd {
                if let Ok(x) = ensure_allowed_result(style, d@, roots, "cwd"@, cwd) {
                    crate::path_policy::law_accepted_path_in_root(style, d@, roots, "cwd"@, cwd, x);
                }
            }
        },
        ActionParams::Clone(c) => {
            if let Ok(x) = ensure_allowed_result(style, c.destination_path@, roots, "destination_path"@, cwd) {
                crate::path_policy::law_accepted_path_in_root(
                    style,
                    c.destination_path@,
                    roots,
                    "destination_path"@,
                    cwd,
                    x,
                );
            }
        },
        _ => {
            if let Ok(x) = ensure_allowed_result(style, repo_input(p), roots, "repo_path"@, cwd) {
                crate::path_policy::law_accepted_path_in_root(style, repo_input(p), roots, "repo_path"@, cwd, x);
            }
        },
    }
}

proof fn lemma_pending_run_in_path(fv: FlowView)
    requires
        flow_wf(fv),
        fv.stage is Done || fv.params is CommandRun || fv.path is Some,
    ensures
        pending_work(fv) matches WorkView::Run(r) ==> {
            &&& r.cwd == fv.path || (fv.params is Clone && r.cwd is None && r.args.last() == path_text(fv.path))
            &&& !(fv.params is CommandRun) ==> r.program == fv.git
        },
{
    if let StageView::Running(i) = fv.stage {
        let runs = runs_of(fv);
        let repo = path_text(fv.path);
        match fv.params {
            ActionParams::Clone(c) => {
                assert(clone_args_spec(c, repo).last() == repo);
            },
            ActionParams::CommandRun(_) => {},
            ActionParams::Push(q) => {
                assert(fv.path == Some(repo));
                if q.branch is Some {
                    assert(runs[i as int].run.cwd == Some(repo));
                } else {
                    assert(runs[i as int].run.cwd == Some(repo));
                }
            },
            _ => {
                assert(fv.path == Some(repo));
                assert(runs[i as int].run.cwd == Some(repo));
                assert(runs[i as int].run.program == fv.git);
            },
        }
    }
}

/// No action runs a program outside the allowed roots, on either platform:
/// whatever the outcomes of its work, every run an action asks for has a
/// working directory that lies within an allowed root (compared as the
/// platform compares paths), except a clone, whose target (its last
/// argument) lies within one, and a `command.run` that names no working
/// directory. Every Git run is the configured `git`, and the program of
/// `command.run` is checked against the allowlist.
pub proof fn law_runs_stay_within_roots(
    p: ActionParams,
    git: Seq<char>,
    style: PathStyle,
    roots: Seq<Seq<char>>,
    cwd: Result<Seq<char>, Seq<char>>,
    events: Seq<EventView>,
)
    ensures
        ({
            let fv = replay(initial_flow(p, git, style, roots, cwd), events);
            pending_work(fv) matches WorkView::Run(r) ==> {
                &&& r.cwd matches Some(d) ==> within_some_root(style, d, roots)
                &&& r.cwd is None ==> (p matches ActionParams::CommandRun(c) && c.cwd is None) || (
                p is Clone && within_some_root(style, r.args.last(), roots))
                &&& !(p is CommandRun) ==> r.program == git
                &&& p is CommandRun ==> r.options.enforce_command_allowlist
            }
        }),
{
    let fv = replay(initial_flow(p, git, style, roots, cwd), events);
    lemma_replay_keeps_start(p, git, style, roots, cwd, events);
    lemma_admitted_within(style, p, roots, cwd);
    if admission(style, p, roots, cwd) is Ok {
        lemma_pending_run_in_path(fv);
    }
}

/// A failed run is shown in a dialog only for `git.commit`, `git.pull`
/// and `git.push`, and there exactly for the run that changes the
/// repository (not for reading the current branch).
pub proof fn law_dialogs_for_commit_pull_push(fv: FlowView)
    ensures
        forall|i: int|
            0 <= i < runs_of(fv).len() ==> ((#[trigger] runs_of(fv)[i]).dialog <==> ((fv.params is Commit
                || fv.params is Pull || fv.params is Push) && !runs_of(fv)[i].reads_branch)),
{
}

/// A result reports what was run: `git.push` reports the remote and the
/// branch that its push named, and `git.commit` the message it committed
/// with.
pub proof fn law_results_report_runs(fv: FlowView, repository: Seq<char>)
    ensures
        fv.params is Push ==> ({
            let a = runs_of(fv).last().run.args;
            described_result(fv, repository) == push_result_json(a[a.len() - 2], a.last(), repository)
        }),
        fv.params is Commit ==> ({
            let a = runs_of(fv)[0].run.args;
            described_result(fv, repository) == commit_result_json(a.last(), repository)
        }),
{
    match fv.params {
        ActionParams::Push(q) => {
            let b = push_branch(q, fv.branch);
            crate::actions::git::law_push_command_line(q, b);
        },
        ActionParams::Commit(c) => {
            crate::actions::git::law_commit_command_line(c);
        },
        _ => {},
    }
}

} // verus!
