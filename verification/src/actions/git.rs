//! The Git actions: the parameters each takes, the `git` command lines they
//! run, and how `git`'s output is read back.
use vstd::prelude::*;

use crate::actions::{action_name, action_name_str, ActionKind};
use crate::error::{opt_view, validation_error, AppError, AppErrorView};
use crate::json::{
    json_array, json_array_text, json_bool, json_boolean, json_object, json_object_text, json_opt_str,
    json_opt_string, json_str, json_str_array, json_string, json_string_array,
};
use crate::text::{
    char_vec_views, chars_of, decimal, decimal_string, lines, lines_chars, owned, split,
    split_chars, string_from_chars, trim, trim_chars, views,
};

verus! {

/// Parameters of `git.clone`.
#[derive(Debug, Clone)]
pub struct CloneParams {
    pub remote_url: String,
    pub destination_path: String,
    pub branch: Option<String>,
    pub depth: Option<u32>,
    pub single_branch: bool,
}

/// Parameters of `git.checkout_branch`.
#[derive(Debug, Clone)]
pub struct CheckoutBranchParams {
    pub repo_path: String,
    pub branch_name: String,
    pub create: bool,
    pub start_point: Option<String>,
}

/// Parameters of `git.add`.
#[derive(Debug, Clone)]
pub struct AddParams {
    pub repo_path: String,
    pub paths: Option<Vec<String>>,
    pub all: bool,
}

/// Parameters of `git.commit`.
#[derive(Debug, Clone)]
pub struct CommitParams {
    pub repo_path: String,
    pub message: String,
    pub all: bool,
}

/// Parameters of `git.merge_branch`.
#[derive(Debug, Clone)]
pub struct MergeBranchParams {
    pub repo_path: String,
    pub source_branch: String,
    pub target_branch: String,
    pub no_fast_forward: bool,
    pub commit_message: Option<String>,
}

/// Parameters of `git.fetch`.
#[derive(Debug, Clone)]
pub struct FetchParams {
    pub repo_path: String,
    pub remote: Option<String>,
}

/// Parameters of `git.pull`.
#[derive(Debug, Clone)]
pub struct PullParams {
    pub repo_path: String,
    pub remote: Option<String>,
    pub branch: Option<String>,
    pub rebase: bool,
}

/// Parameters of `git.push`.
#[derive(Debug, Clone)]
pub struct PushParams {
    pub repo_path: String,
    pub remote: Option<String>,
    pub branch: Option<String>,
    pub set_upstream: bool,
    pub force: bool,
}

/// Parameters of the actions that only name a repository.
#[derive(Debug, Clone)]
pub struct RepoPathParams {
    pub repo_path: String,
}

/// The default of `no_fast_forward`: merges create a merge commit.
pub fn default_true() -> (b: bool)
    ensures
        b,
{
    true
}

// ---------------------------------------------------------------------------
// Command lines
// ---------------------------------------------------------------------------

/// `[flag]` when `on`, otherwise nothing.
pub open spec fn flag(on: bool, name: Seq<char>) -> Seq<Seq<char>> {
    if on {
        seq![name]
    } else {
        Seq::<Seq<char>>::empty()
    }
}

/// `[name, value]` when `value` is given, otherwise nothing.
pub open spec fn option_arg(name: Seq<char>, value: Option<Seq<char>>) -> Seq<Seq<char>> {
    match value {
        Some(v) => seq![name, v],
        None => Seq::<Seq<char>>::empty(),
    }
}

/// `[value]` when it is given, otherwise nothing.
pub open spec fn opt_arg(value: Option<Seq<char>>) -> Seq<Seq<char>> {
    match value {
        Some(v) => seq![v],
        None => Seq::<Seq<char>>::empty(),
    }
}

/// The arguments of `git clone` into `destination`.
pub open spec fn clone_args_spec(p: CloneParams, destination: Seq<char>) -> Seq<Seq<char>> {
    seq!["clone"@] + option_arg("--branch"@, opt_view(p.branch)) + option_arg(
        "--depth"@,
        match p.depth {
            Some(d) => Some(decimal(d as nat)),
            None => None,
        },
    ) + flag(p.single_branch, "--single-branch"@) + seq![p.remote_url@, destination]
}

/// The arguments of `git checkout`.
pub open spec fn checkout_args_spec(p: CheckoutBranchParams) -> Seq<Seq<char>> {
    if p.create {
        seq!["checkout"@, "-b"@, p.branch_name@] + opt_arg(opt_view(p.start_point))
    } else {
        seq!["checkout"@, p.branch_name@]
    }
}

/// The arguments of `git add`: the given paths, or `.` unless `--all`.
pub open spec fn add_args_spec(p: AddParams) -> Seq<Seq<char>> {
    seq!["add"@] + flag(p.all, "--all"@) + match p.paths {
        Some(paths) if paths@.len() > 0 => views(paths@),
        _ => if p.all {
            Seq::<Seq<char>>::empty()
        } else {
            seq!["."@]
        },
    }
}

/// `git branch --list <name>`: lists the local branch `name` when it exists
/// and prints nothing otherwise.
pub open spec fn branch_lookup_cmd(name: Seq<char>) -> Seq<Seq<char>> {
    seq!["branch"@, "--list"@, name]
}

/// The arguments of `git.checkout_branch` with `create` set, once it is
/// known whether the branch exists: an existing branch is checked out,
/// otherwise it is created.
pub open spec fn checkout_create_args_spec(p: CheckoutBranchParams, exists: bool) -> Seq<Seq<char>> {
    if exists {
        seq!["checkout"@, p.branch_name@]
    } else {
        checkout_args_spec(p)
    }
}

/// The arguments of `git commit`.
pub open spec fn commit_args_spec(p: CommitParams) -> Seq<Seq<char>> {
    seq!["commit"@] + flag(p.all, "--all"@) + seq!["-m"@, p.message@]
}

/// The arguments of the checkout that precedes a merge.
pub open spec fn merge_checkout_args_spec(p: MergeBranchParams) -> Seq<Seq<char>> {
    seq!["checkout"@, p.target_branch@]
}

/// The arguments of `git merge`.
pub open spec fn merge_args_spec(p: MergeBranchParams) -> Seq<Seq<char>> {
    seq!["merge"@] + flag(p.no_fast_forward, "--no-ff"@) + option_arg("-m"@, opt_view(p.commit_message))
        + seq![p.source_branch@]
}

/// The remote that fetch and push use: the given one, or `origin`.
pub open spec fn remote_or_origin(remote: Option<Seq<char>>) -> Seq<char> {
    match remote {
        Some(r) => r,
        None => "origin"@,
    }
}

/// The arguments of `git fetch`.
pub open spec fn fetch_args_spec(p: FetchParams) -> Seq<Seq<char>> {
    seq!["fetch"@, remote_or_origin(opt_view(p.remote))]
}

/// The arguments of `git pull`: a branch is pulled from the remote named,
/// or from `origin`; with no branch, the remote named (if any) and the
/// current upstream are used.
pub open spec fn pull_args_spec(p: PullParams) -> Seq<Seq<char>> {
    seq!["pull"@] + flag(p.rebase, "--rebase"@) + match p.branch {
        Some(b) => seq![remote_or_origin(opt_view(p.remote)), b@],
        None => opt_arg(opt_view(p.remote)),
    }
}

/// The arguments of `git push` of `branch`.
pub open spec fn push_args_spec(p: PushParams, branch: Seq<char>) -> Seq<Seq<char>> {
    seq!["push"@] + flag(p.set_upstream, "--set-upstream"@) + flag(p.force, "--force"@) + seq![
        remote_or_origin(opt_view(p.remote)),
        branch,
    ]
}

fn push_flag(args: &mut Vec<String>, on: bool, name: &str)
    ensures
        views(final(args)@) == views(old(args)@) + flag(on, name@),
{
    if on {
        let ghost before = views(args@);
        args.push(owned(name));
        assert(views(args@) =~= before + flag(on, name@));
    } else {
        assert(views(args@) =~= views(args@) + flag(on, name@));
    }
}

fn push_option(args: &mut Vec<String>, name: &str, value: Option<String>)
    ensures
        views(final(args)@) == views(old(args)@) + option_arg(name@, opt_view(value)),
{
    let ghost before = views(args@);
    match value {
        Some(v) => {
            args.push(owned(name));
            args.push(v);
            assert(views(args@) =~= before + option_arg(name@, opt_view(value)));
        },
        None => {
            assert(views(args@) =~= before + option_arg(name@, opt_view(value)));
        },
    }
}

fn push_opt(args: &mut Vec<String>, value: Option<String>)
    ensures
        views(final(args)@) == views(old(args)@) + opt_arg(opt_view(value)),
{
    let ghost before = views(args@);
    match value {
        Some(v) => {
            args.push(v);
            assert(views(args@) =~= before + opt_arg(opt_view(value)));
        },
        None => {
            assert(views(args@) =~= before + opt_arg(opt_view(value)));
        },
    }
}

fn push_value(args: &mut Vec<String>, value: String)
    ensures
        views(final(args)@) == views(old(args)@).push(value@),
{
    let ghost before = views(args@);
    args.push(value);
    assert(views(args@) =~= before.push(value@));
}

/// The arguments of `git clone` into the resolved `destination`.
pub fn clone_args(params: &CloneParams, destination: &str) -> (args: Vec<String>)
    ensures
        views(args@) == clone_args_spec(*params, destination@),
{
    let mut args = vec![owned("clone")];
    assert(views(args@) =~= seq!["clone"@]);
    push_option(&mut args, "--branch", params.branch.clone());
    let depth = match params.depth {
        Some(d) => Some(decimal_string(d as u64)),
        None => None,
    };
    push_option(&mut args, "--depth", depth);
    push_flag(&mut args, params.single_branch, "--single-branch");
    push_value(&mut args, params.remote_url.clone());
    push_value(&mut args, owned(destination));
    proof {
        assert(opt_view(depth) == match params.depth {
            Some(d) => Some(decimal(d as nat)),
            None => None::<Seq<char>>,
        });
        assert(views(args@) =~= clone_args_spec(*params, destination@));
    }
    args
}

/// The arguments of `git checkout` for an existing or a new branch.
pub fn checkout_args(params: &CheckoutBranchParams) -> (args: Vec<String>)
    ensures
        views(args@) == checkout_args_spec(*params),
{
    if params.create {
        let mut args = vec![owned("checkout"), owned("-b"), params.branch_name.clone()];
        let ghost base = views(args@);
        assert(base =~= seq!["checkout"@, "-b"@, params.branch_name@]);
        push_opt(&mut args, params.start_point.clone());
        args
    } else {
        let args = vec![owned("checkout"), params.branch_name.clone()];
        assert(views(args@) =~= checkout_args_spec(*params));
        args
    }
}

/// The arguments that look up the local branch `name`.
pub fn branch_lookup_args(name: &str) -> (args: Vec<String>)
    ensures
        views(args@) == branch_lookup_cmd(name@),
{
    let args = vec![owned("branch"), owned("--list"), owned(name)];
    assert(views(args@) =~= branch_lookup_cmd(name@));
    args
}

/// The arguments of `git.checkout_branch` with `create` set, given whether
/// the branch exists.
pub fn checkout_create_args(params: &CheckoutBranchParams, exists: bool) -> (args: Vec<String>)
    ensures
        views(args@) == checkout_create_args_spec(*params, exists),
{
    if exists {
        let args = vec![owned("checkout"), params.branch_name.clone()];
        assert(views(args@) =~= checkout_create_args_spec(*params, exists));
        args
    } else {
        checkout_args(params)
    }
}

/// The arguments of `git add`.
pub fn add_args(params: &AddParams) -> (args: Vec<String>)
    ensures
        views(args@) == add_args_spec(*params),
{
    let mut args = vec![owned("add")];
    assert(views(args@) =~= seq!["add"@]);
    push_flag(&mut args, params.all, "--all");
    let ghost base = views(args@);
    match &params.paths {
        Some(paths) if paths.len() > 0 => {
            let mut i: usize = 0;
            while i < paths.len()
                invariant
                    i <= paths.len(),
                    views(args@) == base + views(paths@).take(i as int),
                decreases paths.len() - i,
            {
                push_value(&mut args, paths[i].clone());
                assert(views(paths@).take(i + 1) =~= views(paths@).take(i as int).push(paths@[i as int]@));
                i = i + 1;
            }
            assert(views(paths@).take(paths.len() as int) =~= views(paths@));
        },
        _ => {
            if !params.all {
                push_value(&mut args, owned("."));
            } else {
                assert(views(args@) =~= base + Seq::<Seq<char>>::empty());
            }
        },
    }
    assert(views(args@) =~= add_args_spec(*params));
    args
}

/// The arguments of `git commit`.
pub fn commit_args(params: &CommitParams) -> (args: Vec<String>)
    ensures
        views(args@) == commit_args_spec(*params),
{
    let mut args = vec![owned("commit")];
    assert(views(args@) =~= seq!["commit"@]);
    push_flag(&mut args, params.all, "--all");
    push_value(&mut args, owned("-m"));
    push_value(&mut args, params.message.clone());
    assert(views(args@) =~= commit_args_spec(*params));
    args
}

/// The arguments of the checkout of the merge target.
pub fn merge_checkout_args(params: &MergeBranchParams) -> (args: Vec<String>)
    ensures
        views(args@) == merge_checkout_args_spec(*params),
{
    let args = vec![owned("checkout"), params.target_branch.clone()];
    assert(views(args@) =~= merge_checkout_args_spec(*params));
    args
}

/// The arguments of `git merge`.
pub fn merge_args(params: &MergeBranchParams) -> (args: Vec<String>)
    ensures
        views(args@) == merge_args_spec(*params),
{
    let mut args = vec![owned("merge")];
    assert(views(args@) =~= seq!["merge"@]);
    push_flag(&mut args, params.no_fast_forward, "--no-ff");
    push_option(&mut args, "-m", params.commit_message.clone());
    push_value(&mut args, params.source_branch.clone());
    assert(views(args@) =~= merge_args_spec(*params));
    args
}

/// The remote to use: the given one, or `origin`.
pub fn remote_name(remote: &Option<String>) -> (r: String)
    ensures
        r@ == remote_or_origin(opt_view(*remote)),
{
    match remote {
        Some(r) => r.clone(),
        None => owned("origin"),
    }
}

/// The arguments of `git fetch`.
pub fn fetch_args(params: &FetchParams) -> (args: Vec<String>)
    ensures
        views(args@) == fetch_args_spec(*params),
{
    let args = vec![owned("fetch"), remote_name(&params.remote)];
    assert(views(args@) =~= fetch_args_spec(*params));
    args
}

/// The arguments of `git pull`.
pub fn pull_args(params: &PullParams) -> (args: Vec<String>)
    ensures
        views(args@) == pull_args_spec(*params),
{
    let mut args = vec![owned("pull")];
    assert(views(args@) =~= seq!["pull"@]);
    push_flag(&mut args, params.rebase, "--rebase");
    match &params.branch {
        Some(b) => {
            push_value(&mut args, remote_name(&params.remote));
            push_value(&mut args, b.clone());
        },
        None => push_opt(&mut args, params.remote.clone()),
    }
    assert(views(args@) =~= pull_args_spec(*params));
    args
}

/// The arguments of `git push` of `branch`.
pub fn push_args(params: &PushParams, branch: &str) -> (args: Vec<String>)
    ensures
        views(args@) == push_args_spec(*params, branch@),
{
    let mut args = vec![owned("push")];
    assert(views(args@) =~= seq!["push"@]);
    push_flag(&mut args, params.set_upstream, "--set-upstream");
    push_flag(&mut args, params.force, "--force");
    push_value(&mut args, remote_name(&params.remote));
    push_value(&mut args, owned(branch));
    assert(views(args@) =~= push_args_spec(*params, branch@));
    args
}

/// A fixed argument list.
fn fixed_args(items: &[&str]) -> (args: Vec<String>)
    ensures
        args@.len() == items@.len(),
        forall|i: int| 0 <= i < items@.len() ==> (#[trigger] args@[i])@ == items@[i]@,
{
    let mut args: Vec<String> = Vec::new();
    let mut i: usize = 0;
    while i < items.len()
        invariant
            i <= items.len(),
            args@.len() == i,
            forall|k: int| 0 <= k < i ==> (#[trigger] args@[k])@ == items@[k]@,
        decreases items.len() - i,
    {
        args.push(owned(items[i]));
        i = i + 1;
    }
    args
}

/// `git rev-parse --is-inside-work-tree`: whether the path is a work tree.
pub open spec fn work_tree_check_cmd() -> Seq<Seq<char>> {
    seq!["rev-parse"@, "--is-inside-work-tree"@]
}

/// `git rev-parse --is-inside-work-tree`: whether the path is a work tree.
pub fn work_tree_check_args() -> (args: Vec<String>)
    ensures
        views(args@) == work_tree_check_cmd(),
{
    let items: [&str; 2] = ["rev-parse", "--is-inside-work-tree"];
    let args = fixed_args(&items);
    assert(views(args@) =~= seq!["rev-parse"@, "--is-inside-work-tree"@]);
    args
}

/// `git rev-parse --abbrev-ref HEAD`: the current branch.
pub open spec fn current_branch_cmd() -> Seq<Seq<char>> {
    seq!["rev-parse"@, "--abbrev-ref"@, "HEAD"@]
}

/// `git rev-parse --abbrev-ref HEAD`: the current branch.
pub fn current_branch_args() -> (args: Vec<String>)
    ensures
        views(args@) == current_branch_cmd(),
{
    let items: [&str; 3] = ["rev-parse", "--abbrev-ref", "HEAD"];
    let args = fixed_args(&items);
    assert(views(args@) =~= seq!["rev-parse"@, "--abbrev-ref"@, "HEAD"@]);
    args
}

/// `git rev-parse HEAD`: the head commit.
pub open spec fn head_commit_cmd() -> Seq<Seq<char>> {
    seq!["rev-parse"@, "HEAD"@]
}

/// `git rev-parse HEAD`: the head commit.
pub fn head_commit_args() -> (args: Vec<String>)
    ensures
        views(args@) == head_commit_cmd(),
{
    let items: [&str; 2] = ["rev-parse", "HEAD"];
    let args = fixed_args(&items);
    assert(views(args@) =~= seq!["rev-parse"@, "HEAD"@]);
    args
}

/// `git status --short --branch`: the short status.
pub open spec fn status_cmd() -> Seq<Seq<char>> {
    seq!["status"@, "--short"@, "--branch"@]
}

/// `git status --short --branch`: the short status.
pub fn status_args() -> (args: Vec<String>)
    ensures
        views(args@) == status_cmd(),
{
    let items: [&str; 3] = ["status", "--short", "--branch"];
    let args = fixed_args(&items);
    assert(views(args@) =~= seq!["status"@, "--short"@, "--branch"@]);
    args
}

/// `git diff --cached`: the staged diff.
pub open spec fn diff_cached_cmd() -> Seq<Seq<char>> {
    seq!["diff"@, "--cached"@]
}

/// `git diff --cached`: the staged diff.
pub fn diff_cached_args() -> (args: Vec<String>)
    ensures
        views(args@) == diff_cached_cmd(),
{
    let items: [&str; 2] = ["diff", "--cached"];
    let args = fixed_args(&items);
    assert(views(args@) =~= seq!["diff"@, "--cached"@]);
    args
}

/// `git diff --cached --name-only`: the staged file names.
pub open spec fn diff_cached_names_cmd() -> Seq<Seq<char>> {
    seq!["diff"@, "--cached"@, "--name-only"@]
}

/// `git diff --cached --name-only`: the staged file names.
pub fn diff_cached_names_args() -> (args: Vec<String>)
    ensures
        views(args@) == diff_cached_names_cmd(),
{
    let items: [&str; 3] = ["diff", "--cached", "--name-only"];
    let args = fixed_args(&items);
    assert(views(args@) =~= seq!["diff"@, "--cached"@, "--name-only"@]);
    args
}

/// `git branch --list --all --verbose`: the branch listing as text.
pub open spec fn branch_list_cmd() -> Seq<Seq<char>> {
    seq!["branch"@, "--list"@, "--all"@, "--verbose"@]
}

/// `git branch --list --all --verbose`: the branch listing as text.
pub fn branch_list_args() -> (args: Vec<String>)
    ensures
        views(args@) == branch_list_cmd(),
{
    let items: [&str; 4] = ["branch", "--list", "--all", "--verbose"];
    let args = fixed_args(&items);
    assert(views(args@) =~= seq!["branch"@, "--list"@, "--all"@, "--verbose"@]);
    args
}

/// The local branches, one per line: name, commit and upstream, separated
/// by tabs.
pub open spec fn local_branches_cmd() -> Seq<Seq<char>> {
    seq!["branch"@, "--format=%(refname:short)\t%(objectname)\t%(upstream:short)"@]
}

/// The local branches, one per line: name, commit and upstream, separated
/// by tabs.
pub fn local_branches_args() -> (args: Vec<String>)
    ensures
        views(args@) == local_branches_cmd(),
{
    let items: [&str; 2] = ["branch", "--format=%(refname:short)\t%(objectname)\t%(upstream:short)"];
    let args = fixed_args(&items);
    assert(views(args@) =~= seq!["branch"@, "--format=%(refname:short)\t%(objectname)\t%(upstream:short)"@]);
    args
}

/// The remote branches, one per line: name and commit separated by a tab.
pub open spec fn remote_branches_cmd() -> Seq<Seq<char>> {
    seq!["branch"@, "--remotes"@, "--format=%(refname:short)\t%(objectname)"@]
}

/// The remote branches, one per line: name and commit separated by a tab.
pub fn remote_branches_args() -> (args: Vec<String>)
    ensures
        views(args@) == remote_branches_cmd(),
{
    let items: [&str; 3] = ["branch", "--remotes", "--format=%(refname:short)\t%(objectname)"];
    let args = fixed_args(&items);
    assert(views(args@) =~= seq!["branch"@, "--remotes"@, "--format=%(refname:short)\t%(objectname)"@]);
    args
}

// ---------------------------------------------------------------------------
// Reading git's output
// ---------------------------------------------------------------------------

/// What `current_branch` gives for `git rev-parse --abbrev-ref HEAD`'s
/// output.
pub open spec fn current_branch_result(stdout: Seq<char>) -> Result<Seq<char>, AppErrorView> {
    if trim(stdout).len() == 0 {
        Err(validation_error("Failed to resolve current branch."@, None))
    } else {
        Ok(trim(stdout))
    }
}

/// The current branch named in the output, or an error when it is blank.
pub fn current_branch_from_output(stdout: &str) -> (r: Result<String, AppError>)
    ensures
        crate::path_policy::path_result_view(&r) == current_branch_result(stdout@),
{
    let v = chars_of(stdout);
    let t = trim_chars(v.as_slice());
    if t.len() == 0 {
        return Err(AppError::validation(owned("Failed to resolve current branch.")));
    }
    Ok(string_from_chars(t.as_slice()))
}

/// The trimmed output, or nothing when it is blank (what `try_capture`
/// keeps of a successful run).
pub open spec fn captured(stdout: Seq<char>) -> Option<Seq<char>> {
    if trim(stdout).len() == 0 {
        None
    } else {
        Some(trim(stdout))
    }
}

/// The trimmed output of a successful run, or nothing when it is blank.
pub fn captured_value(stdout: &str) -> (r: Option<String>)
    ensures
        opt_view(r) == captured(stdout@),
{
    let v = chars_of(stdout);
    let t = trim_chars(v.as_slice());
    if t.len() == 0 {
        None
    } else {
        Some(string_from_chars(t.as_slice()))
    }
}

/// The output with surrounding white space removed.
pub fn trimmed_output(stdout: &str) -> (r: String)
    ensures
        r@ == trim(stdout@),
{
    crate::text::trim_str(stdout)
}

/// The non-blank trimmed lines of `text`, in order.
pub open spec fn nonblank_lines(ls: Seq<Seq<char>>) -> Seq<Seq<char>>
    decreases ls.len(),
{
    if ls.len() == 0 {
        Seq::<Seq<char>>::empty()
    } else {
        let pre = nonblank_lines(ls.drop_last());
        if trim(ls.last()).len() == 0 {
            pre
        } else {
            pre.push(trim(ls.last()))
        }
    }
}

/// The staged file names listed by `git diff --cached --name-only`.
pub fn staged_files(stdout: &str) -> (files: Vec<String>)
    ensures
        views(files@) == nonblank_lines(lines(stdout@)),
{
    let v = chars_of(stdout);
    let ls = lines_chars(v.as_slice());
    let ghost lv = lines(stdout@);
    let mut files: Vec<String> = Vec::new();
    let mut i: usize = 0;
    while i < ls.len()
        invariant
            i <= ls.len(),
            char_vec_views(ls@) == lv,
            views(files@) == nonblank_lines(lv.take(i as int)),
        decreases ls.len() - i,
    {
        assert(lv.take(i + 1).drop_last() =~= lv.take(i as int));
        assert(lv.take(i + 1).last() == ls@[i as int]@);
        let t = trim_chars(ls[i].as_slice());
        if t.len() > 0 {
            let ghost before = views(files@);
            files.push(string_from_chars(t.as_slice()));
            assert(views(files@) =~= before.push(t@));
        }
        i = i + 1;
    }
    assert(lv.take(ls.len() as int) =~= lv);
    files
}

/// One branch in the structured listing.
#[derive(Debug, Clone)]
pub struct BranchRecord {
    pub name: String,
    pub scope: &'static str,
    pub commit: String,
    pub current: bool,
    pub upstream: Option<String>,
}

/// The mathematical value of a [`BranchRecord`].
pub struct BranchView {
    pub name: Seq<char>,
    pub scope: Seq<char>,
    pub commit: Seq<char>,
    pub current: bool,
    pub upstream: Option<Seq<char>>,
}

impl View for BranchRecord {
    type V = BranchView;

    open spec fn view(&self) -> BranchView {
        BranchView {
            name: self.name@,
            scope: self.scope@,
            commit: self.commit@,
            current: self.current,
            upstream: opt_view(self.upstream),
        }
    }
}

/// The views of branch records.
pub open spec fn branch_views(v: Seq<BranchRecord>) -> Seq<BranchView> {
    v.map_values(|b: BranchRecord| b@)
}

/// The local branch a line of the listing describes, if it names one:
/// the first field is the name, the second the commit, and a non-blank
/// third field the upstream.
pub open spec fn local_branch(line: Seq<char>, current: Seq<char>) -> Option<BranchView> {
    let fields = split(line, '\t');
    let name = trim(fields[0]);
    if fields.len() < 2 {
        None
    } else if name.len() == 0 || trim(fields[1]).len() == 0 {
        None
    } else {
        Some(
            BranchView {
                name,
                scope: "local"@,
                commit: trim(fields[1]),
                current: name == current,
                upstream: if fields.len() >= 3 && trim(fields[2]).len() > 0 {
                    Some(trim(fields[2]))
                } else {
                    None
                },
            },
        )
    }
}

/// The remote branch a line of the listing describes, if it names one.
pub open spec fn remote_branch(line: Seq<char>) -> Option<BranchView> {
    let fields = split(line, '\t');
    let name = trim(fields[0]);
    if fields.len() < 2 {
        None
    } else if name.len() == 0 || trim(fields[1]).len() == 0 {
        None
    } else {
        Some(
            BranchView {
                name,
                scope: "remote"@,
                commit: trim(fields[1]),
                current: false,
                upstream: None,
            },
        )
    }
}

/// The local branches described by `ls`, in order.
pub open spec fn local_branches(ls: Seq<Seq<char>>, current: Seq<char>) -> Seq<BranchView>
    decreases ls.len(),
{
    if ls.len() == 0 {
        Seq::<BranchView>::empty()
    } else {
        let pre = local_branches(ls.drop_last(), current);
        match local_branch(ls.last(), current) {
            Some(b) => pre.push(b),
            None => pre,
        }
    }
}

/// The remote branches described by `ls`, in order.
pub open spec fn remote_branches(ls: Seq<Seq<char>>) -> Seq<BranchView>
    decreases ls.len(),
{
    if ls.len() == 0 {
        Seq::<BranchView>::empty()
    } else {
        let pre = remote_branches(ls.drop_last());
        match remote_branch(ls.last()) {
            Some(b) => pre.push(b),
            None => pre,
        }
    }
}

/// Reads one line of a branch listing; `local` selects the local form.
fn branch_of_line(line: &Vec<char>, current: &Vec<char>, local: bool) -> (r: Option<BranchRecord>)
    ensures
        local ==> match r {
            Some(b) => local_branch(line@, current@) == Some(b@),
            None => local_branch(line@, current@) is None,
        },
        !local ==> match r {
            Some(b) => remote_branch(line@) == Some(b@),
            None => remote_branch(line@) is None,
        },
{
    let fields = split_chars(line.as_slice(), '\t');
    proof {
        crate::text::lemma_split_nonempty(line@, '\t');
    }
    let ghost fv = split(line@, '\t');
    assert(fields@[0]@ == fv[0]);
    let name = trim_chars(fields[0].as_slice());
    if fields.len() < 2 {
        return None;
    }
    assert(fields@[1]@ == fv[1]);
    let commit = trim_chars(fields[1].as_slice());
    if name.len() == 0 || commit.len() == 0 {
        return None;
    }
    if local {
        let upstream = if fields.len() >= 3 {
            assert(fields@[2]@ == fv[2]);
            let u = trim_chars(fields[2].as_slice());
            if u.len() > 0 {
                Some(string_from_chars(u.as_slice()))
            } else {
                None
            }
        } else {
            None
        };
        let is_current = crate::text::chars_equal(name.as_slice(), current.as_slice());
        let b = BranchRecord {
            name: string_from_chars(name.as_slice()),
            scope: "local",
            commit: string_from_chars(commit.as_slice()),
            current: is_current,
            upstream,
        };
        Some(b)
    } else {
        let b = BranchRecord {
            name: string_from_chars(name.as_slice()),
            scope: "remote",
            commit: string_from_chars(commit.as_slice()),
            current: false,
            upstream: None,
        };
        Some(b)
    }
}

fn parse_branches(output: &str, current: &str, local: bool) -> (out: Vec<BranchRecord>)
    ensures
        local ==> branch_views(out@) == local_branches(lines(output@), current@),
        !local ==> branch_views(out@) == remote_branches(lines(output@)),
{
    let v = chars_of(output);
    let cur = chars_of(current);
    let ls = lines_chars(v.as_slice());
    let ghost lv = lines(output@);
    let mut out: Vec<BranchRecord> = Vec::new();
    let mut i: usize = 0;
    while i < ls.len()
        invariant
            i <= ls.len(),
            char_vec_views(ls@) == lv,
            cur@ == current@,
            local ==> branch_views(out@) == local_branches(lv.take(i as int), current@),
            !local ==> branch_views(out@) == remote_branches(lv.take(i as int)),
        decreases ls.len() - i,
    {
        assert(lv.take(i + 1).drop_last() =~= lv.take(i as int));
        assert(lv.take(i + 1).last() == ls@[i as int]@);
        match branch_of_line(&ls[i], &cur, local) {
            Some(b) => {
                let ghost before = branch_views(out@);
                let ghost bv = b@;
                out.push(b);
                assert(branch_views(out@) =~= before.push(bv));
            },
            None => {},
        }
        i = i + 1;
    }
    assert(lv.take(ls.len() as int) =~= lv);
    out
}

/// The local branches of a `git branch --format` listing, marking the one
/// named `current_branch`.
pub fn parse_local_branches(output: &str, current_branch: &str) -> (out: Vec<BranchRecord>)
    ensures
        branch_views(out@) == local_branches(lines(output@), current_branch@),
{
    parse_branches(output, current_branch, true)
}

/// The remote branches of a `git branch --remotes --format` listing.
pub fn parse_remote_branches(output: &str) -> (out: Vec<BranchRecord>)
    ensures
        branch_views(out@) == remote_branches(lines(output@)),
{
    parse_branches(output, "", false)
}

// ---------------------------------------------------------------------------
// Results
// ---------------------------------------------------------------------------

/// The description of a repository: its path, current branch, head commit
/// and short status, each `null` when it could not be read.
pub open spec fn repository_json(
    path: Seq<char>,
    branch: Option<Seq<char>>,
    head: Option<Seq<char>>,
    status: Option<Seq<char>>,
) -> Seq<char> {
    json_object(
        seq!["repository_path"@, "current_branch"@, "head_commit"@, "status_text"@],
        seq![json_str(path), json_opt_str(branch), json_opt_str(head), json_opt_str(status)],
    )
}

/// The description of a repository, as JSON text.
pub fn describe_repository_json(
    repo_path: &str,
    branch: &Option<String>,
    head: &Option<String>,
    status: &Option<String>,
) -> (out: String)
    ensures
        out@ == repository_json(repo_path@, opt_view(*branch), opt_view(*head), opt_view(*status)),
{
    let keys = vec![owned("repository_path"), owned("current_branch"), owned("head_commit"), owned("status_text")];
    let values = vec![json_string(repo_path), json_opt_string(branch), json_opt_string(head), json_opt_string(status)];
    assert(views(keys@) =~= seq!["repository_path"@, "current_branch"@, "head_commit"@, "status_text"@]);
    assert(views(values@) =~= seq![json_str(repo_path@), json_opt_str(opt_view(*branch)), json_opt_str(opt_view(*head)), json_opt_str(opt_view(*status))]);
    json_object_text(&keys, &values)
}

/// The result of an action that reports only the repository.
pub open spec fn repository_result_json(kind: ActionKind, repository: Seq<char>) -> Seq<char> {
    json_object(seq!["action"@, "repository"@], seq![json_str(action_name(kind)), repository])
}

/// The result of an action that reports only the repository, given the
/// repository's JSON description.
pub fn repository_result(kind: ActionKind, repository: String) -> (out: String)
    ensures
        out@ == repository_result_json(kind, repository@),
{
    let keys = vec![owned("action"), owned("repository")];
    let values = vec![json_string(action_name_str(kind)), repository];
    assert(views(keys@) =~= seq!["action"@, "repository"@]);
    assert(views(values@) =~= seq![json_str(action_name(kind)), values@[1]@]);
    json_object_text(&keys, &values)
}

/// The result of `git.commit`.
pub open spec fn commit_result_json(message: Seq<char>, repository: Seq<char>) -> Seq<char> {
    json_object(
        seq!["action"@, "message"@, "repository"@],
        seq![json_str("git.commit"@), json_str(message), repository],
    )
}

/// The result of `git.commit`, given the repository's JSON description.
pub fn commit_result(message: &str, repository: String) -> (out: String)
    ensures
        out@ == commit_result_json(message@, repository@),
{
    let keys = vec![owned("action"), owned("message"), owned("repository")];
    let values = vec![json_string("git.commit"), json_string(message), repository];
    assert(views(keys@) =~= seq!["action"@, "message"@, "repository"@]);
    assert(views(values@) =~= seq![json_str("git.commit"@), json_str(message@), values@[2]@]);
    json_object_text(&keys, &values)
}

/// The result of `git.push`.
pub open spec fn push_result_json(remote: Seq<char>, branch: Seq<char>, repository: Seq<char>) -> Seq<char> {
    json_object(
        seq!["action"@, "remote"@, "branch"@, "repository"@],
        seq![json_str("git.push"@), json_str(remote), json_str(branch), repository],
    )
}

/// The result of `git.push`, given the repository's JSON description.
pub fn push_result(remote: &str, branch: &str, repository: String) -> (out: String)
    ensures
        out@ == push_result_json(remote@, branch@, repository@),
{
    let keys = vec![owned("action"), owned("remote"), owned("branch"), owned("repository")];
    let values = vec![json_string("git.push"), json_string(remote), json_string(branch), repository];
    assert(views(keys@) =~= seq!["action"@, "remote"@, "branch"@, "repository"@]);
    assert(views(values@) =~= seq![json_str("git.push"@), json_str(remote@), json_str(branch@), values@[3]@]);
    json_object_text(&keys, &values)
}

/// The result of `git.get_current_branch`.
pub open spec fn current_branch_result_json(repo_path: Seq<char>, branch: Seq<char>) -> Seq<char> {
    json_object(
        seq!["action"@, "repository_path"@, "current_branch"@],
        seq![json_str("git.get_current_branch"@), json_str(repo_path), json_str(branch)],
    )
}

/// The result of `git.get_current_branch`.
pub fn current_branch_action_result(repo_path: &str, branch: &str) -> (out: String)
    ensures
        out@ == current_branch_result_json(repo_path@, branch@),
{
    let keys = vec![owned("action"), owned("repository_path"), owned("current_branch")];
    let values = vec![json_string("git.get_current_branch"), json_string(repo_path), json_string(branch)];
    assert(views(keys@) =~= seq!["action"@, "repository_path"@, "current_branch"@]);
    assert(views(values@) =~= seq![json_str("git.get_current_branch"@), json_str(repo_path@), json_str(branch@)]);
    json_object_text(&keys, &values)
}

/// The result of `git.diff_staged`: whether anything is staged, the
/// staged files and the diff.
pub open spec fn diff_staged_result_json(repo_path: Seq<char>, files: Seq<Seq<char>>, diff: Seq<char>) -> Seq<char> {
    json_object(
        seq!["action"@, "repository_path"@, "has_changes"@, "files"@, "diff_text"@],
        seq![
            json_str("git.diff_staged"@),
            json_str(repo_path),
            json_bool(files.len() > 0),
            json_str_array(files),
            json_str(diff),
        ],
    )
}

/// The result of `git.diff_staged`.
pub fn diff_staged_result(repo_path: &str, files: &Vec<String>, diff: &str) -> (out: String)
    ensures
        out@ == diff_staged_result_json(repo_path@, views(files@), diff@),
{
    let keys = vec![owned("action"), owned("repository_path"), owned("has_changes"), owned("files"), owned("diff_text")];
    let values = vec![
        json_string("git.diff_staged"),
        json_string(repo_path),
        json_boolean(files.len() > 0),
        json_string_array(files),
        json_string(diff),
    ];
    assert(views(keys@) =~= seq!["action"@, "repository_path"@, "has_changes"@, "files"@, "diff_text"@]);
    assert(views(values@) =~= seq![
        json_str("git.diff_staged"@),
        json_str(repo_path@),
        json_bool(views(files@).len() > 0),
        json_str_array(views(files@)),
        json_str(diff@),
    ]);
    json_object_text(&keys, &values)
}

/// The result of `git.list_branches`.
pub open spec fn branch_list_result_json(repo_path: Seq<char>, text: Seq<char>) -> Seq<char> {
    json_object(
        seq!["action"@, "repository_path"@, "branches_text"@],
        seq![json_str("git.list_branches"@), json_str(repo_path), json_str(text)],
    )
}

/// The result of `git.list_branches`, given the trimmed listing.
pub fn branch_list_result(repo_path: &str, text: &str) -> (out: String)
    ensures
        out@ == branch_list_result_json(repo_path@, text@),
{
    let keys = vec![owned("action"), owned("repository_path"), owned("branches_text")];
    let values = vec![json_string("git.list_branches"), json_string(repo_path), json_string(text)];
    assert(views(keys@) =~= seq!["action"@, "repository_path"@, "branches_text"@]);
    assert(views(values@) =~= seq![json_str("git.list_branches"@), json_str(repo_path@), json_str(text@)]);
    json_object_text(&keys, &values)
}

/// One branch as a JSON object; the upstream appears only when known.
pub open spec fn branch_json(b: BranchView) -> Seq<char> {
    match b.upstream {
        Some(u) => json_object(
            seq!["name"@, "scope"@, "commit"@, "current"@, "upstream"@],
            seq![json_str(b.name), json_str(b.scope), json_str(b.commit), json_bool(b.current), json_str(u)],
        ),
        None => json_object(
            seq!["name"@, "scope"@, "commit"@, "current"@],
            seq![json_str(b.name), json_str(b.scope), json_str(b.commit), json_bool(b.current)],
        ),
    }
}

fn branch_json_text(b: &BranchRecord) -> (out: String)
    ensures
        out@ == branch_json(b@),
{
    match &b.upstream {
        Some(u) => {
            let keys = vec![owned("name"), owned("scope"), owned("commit"), owned("current"), owned("upstream")];
            let values = vec![
                json_string(b.name.as_str()),
                json_string(b.scope),
                json_string(b.commit.as_str()),
                json_boolean(b.current),
                json_string(u.as_str()),
            ];
            assert(views(keys@) =~= seq!["name"@, "scope"@, "commit"@, "current"@, "upstream"@]);
            assert(views(values@) =~= seq![json_str(b@.name), json_str(b@.scope), json_str(b@.commit), json_bool(b@.current), json_str(u@)]);
            json_object_text(&keys, &values)
        },
        None => {
            let keys = vec![owned("name"), owned("scope"), owned("commit"), owned("current")];
            let values = vec![
                json_string(b.name.as_str()),
                json_string(b.scope),
                json_string(b.commit.as_str()),
                json_boolean(b.current),
            ];
            assert(views(keys@) =~= seq!["name"@, "scope"@, "commit"@, "current"@]);
            assert(views(values@) =~= seq![json_str(b@.name), json_str(b@.scope), json_str(b@.commit), json_bool(b@.current)]);
            json_object_text(&keys, &values)
        },
    }
}

/// The result of `git.list_branches_structured`.
pub open spec fn branches_result_json(repo_path: Seq<char>, branches: Seq<BranchView>) -> Seq<char> {
    json_object(
        seq!["action"@, "repository_path"@, "branches"@],
        seq![
            json_str("git.list_branches_structured"@),
            json_str(repo_path),
            json_array(branches.map_values(|b: BranchView| branch_json(b))),
        ],
    )
}

/// The result of `git.list_branches_structured`.
pub fn branches_result(repo_path: &str, branches: &Vec<BranchRecord>) -> (out: String)
    ensures
        out@ == branches_result_json(repo_path@, branch_views(branches@)),
{
    let mut items: Vec<String> = Vec::new();
    let mut i: usize = 0;
    while i < branches.len()
        invariant
            i <= branches.len(),
            views(items@) == branch_views(branches@).take(i as int).map_values(|b: BranchView| branch_json(b)),
        decreases branches.len() - i,
    {
        let ghost before = views(items@);
        items.push(branch_json_text(&branches[i]));
        assert(views(items@) =~= before.push(branch_json(branches@[i as int]@)));
        assert(branch_views(branches@).take(i + 1).map_values(|b: BranchView| branch_json(b))
            =~= branch_views(branches@).take(i as int).map_values(|b: BranchView| branch_json(b)).push(branch_json(branches@[i as int]@)));
        i = i + 1;
    }
    assert(branch_views(branches@).take(branches.len() as int) =~= branch_views(branches@));
    let keys = vec![owned("action"), owned("repository_path"), owned("branches")];
    let values = vec![json_string("git.list_branches_structured"), json_string(repo_path), json_array_text(&items)];
    assert(views(keys@) =~= seq!["action"@, "repository_path"@, "branches"@]);
    assert(views(values@) =~= seq![
        json_str("git.list_branches_structured"@),
        json_str(repo_path@),
        json_array(branch_views(branches@).map_values(|b: BranchView| branch_json(b))),
    ]);
    json_object_text(&keys, &values)
}

// ---------------------------------------------------------------------------
// Laws
// ---------------------------------------------------------------------------

/// 1 when `b` holds, otherwise 0.
pub open spec fn one_if(b: bool) -> int {
    if b {
        1
    } else {
        0
    }
}

/// The remote a command names: the one given, or `origin`.
pub open spec fn named_remote(remote: Option<String>) -> Seq<char> {
    match remote {
        Some(r) => r@,
        None => "origin"@,
    }
}

/// `git clone` ends with the remote URL and the target; the branch, the
/// depth (in decimal) and `--single-branch` come before them exactly when
/// they are asked for, in that order.
pub proof fn law_clone_command_line(p: CloneParams, destination: Seq<char>)
    ensures
        ({
            let a = clone_args_spec(p, destination);
            let b = one_if(p.branch is Some);
            let d = one_if(p.depth is Some);
            &&& a.len() == 3 + 2 * b + 2 * d + one_if(p.single_branch)
            &&& a[0] == "clone"@
            &&& a[a.len() - 2] == p.remote_url@
            &&& a.last() == destination
            &&& p.branch matches Some(x) ==> a[1] == "--branch"@ && a[2] == x@
            &&& p.depth matches Some(x) ==> a[1 + 2 * b] == "--depth"@ && a[2 + 2 * b] == decimal(x as nat)
            &&& p.single_branch ==> a[a.len() - 3] == "--single-branch"@
        }),
{
}

/// `git checkout` of an existing branch names only the branch (the start
/// point is ignored); with `create` it is `-b`, the branch and the start
/// point when one is given.
pub proof fn law_checkout_command_line(p: CheckoutBranchParams)
    ensures
        ({
            let a = checkout_args_spec(p);
            &&& a[0] == "checkout"@
            &&& !p.create ==> a.len() == 2 && a[1] == p.branch_name@
            &&& p.create ==> a.len() == 3 + one_if(p.start_point is Some) && a[1] == "-b"@ && a[2]
                == p.branch_name@
            &&& p.create && p.start_point is Some ==> a[3] == p.start_point->Some_0@
        }),
        ({
            let e = checkout_create_args_spec(p, true);
            e.len() == 2 && e[0] == "checkout"@ && e[1] == p.branch_name@
        }),
        checkout_create_args_spec(p, false) == checkout_args_spec(p),
{
}

/// The paths given to `git.add` (none when the list is absent).
pub open spec fn given_paths(p: AddParams) -> Seq<Seq<char>> {
    match p.paths {
        Some(ps) => views(ps@),
        None => Seq::<Seq<char>>::empty(),
    }
}

/// `git add` stages exactly the given paths, in order, when a non-empty
/// list is given (after `--all` when it is set); otherwise it stages
/// everything: `--all` when set, `.` when not.
pub proof fn law_add_command_line(p: AddParams)
    ensures
        ({
            let a = add_args_spec(p);
            &&& a[0] == "add"@
            &&& p.all ==> a[1] == "--all"@
            &&& given_paths(p).len() > 0 ==> {
                &&& a.len() == 1 + one_if(p.all) + given_paths(p).len()
                &&& a.subrange(a.len() - given_paths(p).len(), a.len() as int) == given_paths(p)
            }
            &&& given_paths(p).len() == 0 ==> {
                &&& a.len() == 2
                &&& !p.all ==> a[1] == "."@
            }
        }),
{
    let a = add_args_spec(p);
    if let Some(ps) = p.paths {
        if ps@.len() > 0 {
            let pre = seq!["add"@] + flag(p.all, "--all"@);
            assert(a == pre + views(ps@));
            assert(a.subrange(a.len() - ps@.len(), a.len() as int) =~= views(ps@));
        }
    }
}

/// `git commit` ends with `-m` and the message; before them stands
/// `--all` exactly when `all` is set, and nothing else.
pub proof fn law_commit_command_line(p: CommitParams)
    ensures
        ({
            let a = commit_args_spec(p);
            &&& a.len() == 3 + one_if(p.all)
            &&& a[0] == "commit"@
            &&& p.all ==> a[1] == "--all"@
            &&& a[a.len() - 2] == "-m"@
            &&& a.last() == p.message@
        }),
{
}

/// A merge first checks out the target branch; `git merge` then ends with
/// the source branch, after `--no-ff` exactly when `no_fast_forward` is
/// set, and after `-m` and the message exactly when one is given.
pub proof fn law_merge_command_line(p: MergeBranchParams)
    ensures
        merge_checkout_args_spec(p) == seq!["checkout"@, p.target_branch@],
        ({
            let a = merge_args_spec(p);
            &&& a.len() == 2 + one_if(p.no_fast_forward) + 2 * one_if(p.commit_message is Some)
            &&& a[0] == "merge"@
            &&& p.no_fast_forward ==> a[1] == "--no-ff"@
            &&& p.commit_message matches Some(m) ==> a[a.len() - 3] == "-m"@ && a[a.len() - 2] == m@
            &&& a.last() == p.source_branch@
        }),
{
}

/// `git fetch` names the given remote, or `origin` when none is given.
pub proof fn law_fetch_command_line(p: FetchParams)
    ensures
        fetch_args_spec(p) == seq!["fetch"@, named_remote(p.remote)],
{
}

/// `git pull` takes `--rebase` exactly when asked; a branch is pulled from
/// the given remote, or from `origin` when none is given; with no branch,
/// only the given remote, if any, is named.
pub proof fn law_pull_command_line(p: PullParams)
    ensures
        ({
            let a = pull_args_spec(p);
            &&& a[0] == "pull"@
            &&& p.rebase ==> a[1] == "--rebase"@
            &&& p.branch matches Some(b) ==> {
                &&& a.len() == 3 + one_if(p.rebase)
                &&& a[a.len() - 2] == named_remote(p.remote)
                &&& a.last() == b@
            }
            &&& p.branch is None ==> {
                &&& a.len() == 1 + one_if(p.rebase) + one_if(p.remote is Some)
                &&& p.remote matches Some(r) ==> a.last() == r@
            }
        }),
{
}

/// `git push` ends with the given remote (or `origin` when none is given)
/// and the branch; `--set-upstream` and `--force` come before them exactly
/// when asked for, in that order.
pub proof fn law_push_command_line(p: PushParams, branch: Seq<char>)
    ensures
        ({
            let a = push_args_spec(p, branch);
            &&& a.len() == 3 + one_if(p.set_upstream) + one_if(p.force)
            &&& a[0] == "push"@
            &&& p.set_upstream ==> a[1] == "--set-upstream"@
            &&& p.force ==> a[a.len() - 3] == "--force"@
            &&& a[a.len() - 2] == named_remote(p.remote)
            &&& a.last() == branch
        }),
{
}

/// A branch record from a listing line: its name and commit are the first
/// two tab-separated fields, trimmed and not blank; a local branch is
/// current exactly when its name is the current branch's name (a name
/// that only begins with it is not) and has the non-blank third field as
/// its upstream; a remote branch is never current and has no upstream.
pub proof fn law_branch_record(line: Seq<char>, current: Seq<char>)
    ensures
        local_branch(line, current) matches Some(b) ==> {
            &&& b.current <==> b.name == current
            &&& b.scope == "local"@
            &&& b.name == trim(split(line, '\t')[0]) && b.name.len() > 0
            &&& b.commit == trim(split(line, '\t')[1]) && b.commit.len() > 0
            &&& b.upstream is Some <==> split(line, '\t').len() >= 3 && trim(split(line, '\t')[2]).len() > 0
            &&& b.upstream matches Some(u) ==> u == trim(split(line, '\t')[2])
        },
        remote_branch(line) matches Some(b) ==> {
            &&& !b.current
            &&& b.upstream is None
            &&& b.scope == "remote"@
            &&& b.name == trim(split(line, '\t')[0]) && b.name.len() > 0
        },
        (local_branch(line, current) is Some) == (remote_branch(line) is Some),
{
}

/// In a structured listing, a local branch is current exactly when its name
/// is the current branch's name, no remote branch is current, and there
/// is at most one record per line.
pub proof fn law_branch_listing(ls: Seq<Seq<char>>, current: Seq<char>)
    ensures
        forall|i: int|
            0 <= i < local_branches(ls, current).len() ==> ((#[trigger] local_branches(ls, current)[i]).current
                <==> local_branches(ls, current)[i].name == current),
        forall|i: int|
            0 <= i < remote_branches(ls).len() ==> !(#[trigger] remote_branches(ls)[i]).current,
        local_branches(ls, current).len() <= ls.len(),
        remote_branches(ls).len() <= ls.len(),
    decreases ls.len(),
{
    if ls.len() > 0 {
        law_branch_listing(ls.drop_last(), current);
        law_branch_record(ls.last(), current);
        let pre = local_branches(ls.drop_last(), current);
        let rpre = remote_branches(ls.drop_last());
        assert forall|i: int|
            0 <= i < local_branches(ls, current).len() implies ((#[trigger] local_branches(ls, current)[i]).current
                <==> local_branches(ls, current)[i].name == current) by {
            if i < pre.len() {
                assert(local_branches(ls, current)[i] == pre[i]);
            }
        }
        assert forall|i: int| 0 <= i < remote_branches(ls).len() implies !(#[trigger] remote_branches(
            ls,
        )[i]).current by {
            if i < rpre.len() {
                assert(remote_branches(ls)[i] == rpre[i]);
            }
        }
    }
}

/// The staged file names are the non-blank lines, trimmed: none is blank
/// or has surrounding white space, and there are no more of them than
/// lines.
pub proof fn law_staged_files(ls: Seq<Seq<char>>)
    ensures
        forall|i: int|
            0 <= i < nonblank_lines(ls).len() ==> (#[trigger] nonblank_lines(ls)[i]).len() > 0,
        nonblank_lines(ls).len() <= ls.len(),
        (forall|i: int| 0 <= i < ls.len() ==> trim(#[trigger] ls[i]).len() == 0) ==> nonblank_lines(ls).len() == 0,
    decreases ls.len(),
{
    if ls.len() > 0 {
        law_staged_files(ls.drop_last());
        let pre = nonblank_lines(ls.drop_last());
        assert forall|i: int|
            0 <= i < nonblank_lines(ls).len() implies (#[trigger] nonblank_lines(ls)[i]).len() > 0 by {
            if i < pre.len() {
                assert(nonblank_lines(ls)[i] == pre[i]);
            }
        }
        if forall|i: int| 0 <= i < ls.len() ==> trim(#[trigger] ls[i]).len() == 0 {
            assert forall|i: int| 0 <= i < ls.drop_last().len() implies trim(#[trigger] ls.drop_last()[i]).len()
                == 0 by {
                assert(ls.drop_last()[i] == ls[i]);
            }
            assert(trim(ls[ls.len() - 1]).len() == 0);
        }
    }
}

/// The current branch is the trimmed output when that is not blank; blank
/// output is an error. A repository detail is the trimmed output, or
/// nothing when it is blank.
pub proof fn law_output_reading(stdout: Seq<char>)
    ensures
        (current_branch_result(stdout) is Ok) == (trim(stdout).len() > 0),
        current_branch_result(stdout) matches Ok(b) ==> b == trim(stdout),
        (captured(stdout) is Some) == (trim(stdout).len() > 0),
        captured(stdout) matches Some(v) ==> v == trim(stdout),
{
}

} // verus!
