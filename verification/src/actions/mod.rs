//! The actions the agent offers: their names, which names are supported,
//! and the catalog that describes each action and its parameters.
use vstd::prelude::*;

use crate::error::{validation_error, AppError};
use crate::text::{owned, str_equal};

pub mod command;
pub mod flow;
pub mod git;

verus! {

/// One of the supported actions.
#[derive(Debug, Clone, Copy, PartialEq, Eq, Structural)]
pub enum ActionKind {
    Clone,
    Add,
    CheckoutBranch,
    Commit,
    GetCurrentBranch,
    DiffStaged,
    MergeBranch,
    Pull,
    Push,
    Fetch,
    Status,
    ListBranches,
    ListBranchesStructured,
    CommandRun,
}

/// The name under which an action is requested.
pub open spec fn action_name(kind: ActionKind) -> Seq<char> {
    match kind {
        ActionKind::Clone => "git.clone"@,
        ActionKind::Add => "git.add"@,
        ActionKind::CheckoutBranch => "git.checkout_branch"@,
        ActionKind::Commit => "git.commit"@,
        ActionKind::GetCurrentBranch => "git.get_current_branch"@,
        ActionKind::DiffStaged => "git.diff_staged"@,
        ActionKind::MergeBranch => "git.merge_branch"@,
        ActionKind::Pull => "git.pull"@,
        ActionKind::Push => "git.push"@,
        ActionKind::Fetch => "git.fetch"@,
        ActionKind::Status => "git.status"@,
        ActionKind::ListBranches => "git.list_branches"@,
        ActionKind::ListBranchesStructured => "git.list_branches_structured"@,
        ActionKind::CommandRun => "command.run"@,
    }
}

/// The supported action names, in the order in which they are checked.
pub open spec fn supported_names() -> Seq<Seq<char>> {
    seq![
        "git.clone"@,
        "git.add"@,
        "git.checkout_branch"@,
        "git.commit"@,
        "git.get_current_branch"@,
        "git.diff_staged"@,
        "git.merge_branch"@,
        "git.pull"@,
        "git.push"@,
        "git.fetch"@,
        "git.status"@,
        "git.list_branches"@,
        "git.list_branches_structured"@,
        "command.run"@,
    ]
}

/// The actions in the order of the catalog.
pub open spec fn catalog_kinds() -> Seq<ActionKind> {
    seq![
        ActionKind::Clone,
        ActionKind::Add,
        ActionKind::CheckoutBranch,
        ActionKind::Commit,
        ActionKind::MergeBranch,
        ActionKind::Pull,
        ActionKind::Push,
        ActionKind::Fetch,
        ActionKind::Status,
        ActionKind::GetCurrentBranch,
        ActionKind::DiffStaged,
        ActionKind::ListBranches,
        ActionKind::ListBranchesStructured,
        ActionKind::CommandRun,
    ]
}

/// The name of an action, as text.
pub fn action_name_str(kind: ActionKind) -> (s: &'static str)
    ensures
        s@ == action_name(kind),
{
    match kind {
        ActionKind::Clone => "git.clone",
        ActionKind::Add => "git.add",
        ActionKind::CheckoutBranch => "git.checkout_branch",
        ActionKind::Commit => "git.commit",
        ActionKind::GetCurrentBranch => "git.get_current_branch",
        ActionKind::DiffStaged => "git.diff_staged",
        ActionKind::MergeBranch => "git.merge_branch",
        ActionKind::Pull => "git.pull",
        ActionKind::Push => "git.push",
        ActionKind::Fetch => "git.fetch",
        ActionKind::Status => "git.status",
        ActionKind::ListBranches => "git.list_branches",
        ActionKind::ListBranchesStructured => "git.list_branches_structured",
        ActionKind::CommandRun => "command.run",
    }
}

/// The action that `action` names, if it names one.
pub fn action_kind(action: &str) -> (r: Option<ActionKind>)
    ensures
        r matches Some(k) ==> action_name(k) == action@,
        r is None <==> !supported_names().contains(action@),
{
    if str_equal(action, "git.clone") {
        proof { assert(supported_names()[0] == action@); }
        return Some(ActionKind::Clone);
    }
    if str_equal(action, "git.add") {
        proof { assert(supported_names()[1] == action@); }
        return Some(ActionKind::Add);
    }
    if str_equal(action, "git.checkout_branch") {
        proof { assert(supported_names()[2] == action@); }
        return Some(ActionKind::CheckoutBranch);
    }
    if str_equal(action, "git.commit") {
        proof { assert(supported_names()[3] == action@); }
        return Some(ActionKind::Commit);
    }
    if str_equal(action, "git.get_current_branch") {
        proof { assert(supported_names()[4] == action@); }
        return Some(ActionKind::GetCurrentBranch);
    }
    if str_equal(action, "git.diff_staged") {
        proof { assert(supported_names()[5] == action@); }
        return Some(ActionKind::DiffStaged);
    }
    if str_equal(action, "git.merge_branch") {
        proof { assert(supported_names()[6] == action@); }
        return Some(ActionKind::MergeBranch);
    }
    if str_equal(action, "git.pull") {
        proof { assert(supported_names()[7] == action@); }
        return Some(ActionKind::Pull);
    }
    if str_equal(action, "git.push") {
        proof { assert(supported_names()[8] == action@); }
        return Some(ActionKind::Push);
    }
    if str_equal(action, "git.fetch") {
        proof { assert(supported_names()[9] == action@); }
        return Some(ActionKind::Fetch);
    }
    if str_equal(action, "git.status") {
        proof { assert(supported_names()[10] == action@); }
        return Some(ActionKind::Status);
    }
    if str_equal(action, "git.list_branches") {
        proof { assert(supported_names()[11] == action@); }
        return Some(ActionKind::ListBranches);
    }
    if str_equal(action, "git.list_branches_structured") {
        proof { assert(supported_names()[12] == action@); }
        return Some(ActionKind::ListBranchesStructured);
    }
    if str_equal(action, "command.run") {
        proof { assert(supported_names()[13] == action@); }
        return Some(ActionKind::CommandRun);
    }
    proof {
        assert forall|i: int| 0 <= i < supported_names().len() implies supported_names()[i] != action@ by {
            if i == 0 { assert(supported_names()[0] == "git.clone"@); }
            if i == 1 { assert(supported_names()[1] == "git.add"@); }
            if i == 2 { assert(supported_names()[2] == "git.checkout_branch"@); }
            if i == 3 { assert(supported_names()[3] == "git.commit"@); }
            if i == 4 { assert(supported_names()[4] == "git.get_current_branch"@); }
            if i == 5 { assert(supported_names()[5] == "git.diff_staged"@); }
            if i == 6 { assert(supported_names()[6] == "git.merge_branch"@); }
            if i == 7 { assert(supported_names()[7] == "git.pull"@); }
            if i == 8 { assert(supported_names()[8] == "git.push"@); }
            if i == 9 { assert(supported_names()[9] == "git.fetch"@); }
            if i == 10 { assert(supported_names()[10] == "git.status"@); }
            if i == 11 { assert(supported_names()[11] == "git.list_branches"@); }
            if i == 12 { assert(supported_names()[12] == "git.list_branches_structured"@); }
            if i == 13 { assert(supported_names()[13] == "command.run"@); }
        }
    }
    None
}

/// Whether `action` names a supported action.
pub fn supports(action: &str) -> (r: bool)
    ensures
        r == supported_names().contains(action@),
{
    action_kind(action).is_some()
}

/// The action that `action` names, or the error for an unsupported one.
pub fn resolve_action(action: &str) -> (r: Result<ActionKind, AppError>)
    ensures
        r matches Ok(k) ==> action_name(k) == action@,
        r is Err <==> !supported_names().contains(action@),
        r matches Err(e) ==> e@ == validation_error("Unsupported action: "@ + action@, None),
{
    match action_kind(action) {
        Some(k) => Ok(k),
        None => {
            let mut message = owned("Unsupported action: ");
            message.append(action);
            Err(AppError::validation(message))
        },
    }
}

/// The description of one parameter of an action.
#[derive(Debug, Clone)]
pub struct ActionParamDescriptor {
    pub name: &'static str,
    pub kind: &'static str,
    pub required: bool,
    pub description: &'static str,
}

/// The description of one action.
#[derive(Debug, Clone)]
pub struct ActionDescriptor {
    pub name: &'static str,
    pub description: &'static str,
    pub params: Vec<ActionParamDescriptor>,
}

/// The mathematical value of an [`ActionParamDescriptor`].
pub struct ParamView {
    pub name: Seq<char>,
    pub kind: Seq<char>,
    pub required: bool,
    pub description: Seq<char>,
}

/// The mathematical value of an [`ActionDescriptor`].
pub struct DescriptorView {
    pub name: Seq<char>,
    pub description: Seq<char>,
    pub params: Seq<ParamView>,
}

impl View for ActionParamDescriptor {
    type V = ParamView;

    open spec fn view(&self) -> ParamView {
        ParamView {
            name: self.name@,
            kind: self.kind@,
            required: self.required,
            description: self.description@,
        }
    }
}

impl View for ActionDescriptor {
    type V = DescriptorView;

    open spec fn view(&self) -> DescriptorView {
        DescriptorView {
            name: self.name@,
            description: self.description@,
            params: self.params@.map_values(|p: ActionParamDescriptor| p@),
        }
    }
}

/// A parameter description.
pub open spec fn param_view(
    name: Seq<char>,
    kind: Seq<char>,
    required: bool,
    description: Seq<char>,
) -> ParamView {
    ParamView { name, kind, required, description }
}

fn param(
    name: &'static str,
    kind: &'static str,
    required: bool,
    description: &'static str,
) -> (p: ActionParamDescriptor)
    ensures
        p@ == param_view(name@, kind@, required, description@),
{
    ActionParamDescriptor { name, kind, required, description }
}

/// The catalog entry of an action.
pub open spec fn descriptor(kind: ActionKind) -> DescriptorView {
    match kind {
        ActionKind::Clone => DescriptorView {
            name: "git.clone"@,
            description: "Clone a Git repository into an allowed local directory."@,
            params: seq![
                param_view("remote_url"@, "string"@, true, "Remote repository URL."@),
                param_view("destination_path"@, "string"@, true, "Local clone destination path."@),
                param_view("branch"@, "string"@, false, "Optional branch to clone."@),
                param_view("depth"@, "integer"@, false, "Optional shallow clone depth."@),
                param_view("single_branch"@, "boolean"@, false, "Whether to clone only the requested branch."@),
            ],
        },
        ActionKind::Add => DescriptorView {
            name: "git.add"@,
            description: "Stage files in a local repository."@,
            params: seq![
                param_view("repo_path"@, "string"@, true, "Local repository path."@),
                param_view("paths"@, "array<string>"@, false, "Relative paths to stage. If omitted, stages all changes."@),
                param_view("all"@, "boolean"@, false, "Stage all tracked and untracked changes."@),
            ],
        },
        ActionKind::CheckoutBranch => DescriptorView {
            name: "git.checkout_branch"@,
            description: "Checkout an existing branch or create a new one."@,
            params: seq![
                param_view("repo_path"@, "string"@, true, "Local repository path."@),
                param_view("branch_name"@, "string"@, true, "Target branch name."@),
                param_view("create"@, "boolean"@, false, "Create the branch if it does not already exist."@),
                param_view("start_point"@, "string"@, false, "Optional branch or commit used when creating the branch."@),
            ],
        },
        ActionKind::Commit => DescriptorView {
            name: "git.commit"@,
            description: "Create a commit in a local repository."@,
            params: seq![
                param_view("repo_path"@, "string"@, true, "Local repository path."@),
                param_view("message"@, "string"@, true, "Commit message."@),
                param_view("all"@, "boolean"@, false, "Commit all tracked changes without a separate add step."@),
            ],
        },
        ActionKind::MergeBranch => DescriptorView {
            name: "git.merge_branch"@,
            description: "Checkout the target branch and merge another branch into it."@,
            params: seq![
                param_view("repo_path"@, "string"@, true, "Local repository path."@),
                param_view("source_branch"@, "string"@, true, "Branch to merge from."@),
                param_view("target_branch"@, "string"@, true, "Branch to merge into."@),
                param_view("no_fast_forward"@, "boolean"@, false, "Create a merge commit instead of fast-forwarding."@),
                param_view("commit_message"@, "string"@, false, "Optional custom merge commit message."@),
            ],
        },
        ActionKind::Pull => DescriptorView {
            name: "git.pull"@,
            description: "Pull changes from a remote repository."@,
            params: seq![
                param_view("repo_path"@, "string"@, true, "Local repository path."@),
                param_view("remote"@, "string"@, false, "Remote name, default origin."@),
                param_view("branch"@, "string"@, false, "Branch to pull. If omitted, current upstream is used."@),
                param_view("rebase"@, "boolean"@, false, "Use rebase while pulling."@),
            ],
        },
        ActionKind::Push => DescriptorView {
            name: "git.push"@,
            description: "Push a local branch to a remote repository."@,
            params: seq![
                param_view("repo_path"@, "string"@, true, "Local repository path."@),
                param_view("remote"@, "string"@, false, "Remote name, default origin."@),
                param_view("branch"@, "string"@, false, "Branch to push. If omitted, current branch is used."@),
                param_view("set_upstream"@, "boolean"@, false, "Set upstream while pushing."@),
                param_view("force"@, "boolean"@, false, "Force push the branch."@),
            ],
        },
        ActionKind::Fetch => DescriptorView {
            name: "git.fetch"@,
            description: "Fetch updates from a remote repository."@,
            params: seq![
                param_view("repo_path"@, "string"@, true, "Local repository path."@),
                param_view("remote"@, "string"@, false, "Remote name, default origin."@),
            ],
        },
        ActionKind::Status => DescriptorView {
            name: "git.status"@,
            description: "Read current branch and repository status."@,
            params: seq![
                param_view("repo_path"@, "string"@, true, "Local repository path."@),
            ],
        },
        ActionKind::GetCurrentBranch => DescriptorView {
            name: "git.get_current_branch"@,
            description: "Read the current local branch name."@,
            params: seq![
                param_view("repo_path"@, "string"@, true, "Local repository path."@),
            ],
        },
        ActionKind::DiffStaged => DescriptorView {
            name: "git.diff_staged"@,
            description: "Read the currently staged diff and staged file list."@,
            params: seq![
                param_view("repo_path"@, "string"@, true, "Local repository path."@),
            ],
        },
        ActionKind::ListBranches => DescriptorView {
            name: "git.list_branches"@,
            description: "List local and remote branches."@,
            params: seq![
                param_view("repo_path"@, "string"@, true, "Local repository path."@),
            ],
        },
        ActionKind::ListBranchesStructured => DescriptorView {
            name: "git.list_branches_structured"@,
            description: "List local and remote branches as structured JSON."@,
            params: seq![
                param_view("repo_path"@, "string"@, true, "Local repository path."@),
            ],
        },
        ActionKind::CommandRun => DescriptorView {
            name: "command.run"@,
            description: "Run an allowlisted executable with structured arguments and no shell."@,
            params: seq![
                param_view("program"@, "string"@, true, "Executable name from the allowlist."@),
                param_view("args"@, "array<string>"@, false, "Structured argument list."@),
                param_view("cwd"@, "string"@, false, "Optional working directory within allowed roots."@),
            ],
        },
    }
}

/// The catalog entry of an action.
pub fn describe(kind: ActionKind) -> (d: ActionDescriptor)
    ensures
        d@ == descriptor(kind),
        d.name@ == action_name(kind),
{
    match kind {
        ActionKind::Clone => {
            let params = vec![
                param("remote_url", "string", true, "Remote repository URL."),
                param("destination_path", "string", true, "Local clone destination path."),
                param("branch", "string", false, "Optional branch to clone."),
                param("depth", "integer", false, "Optional shallow clone depth."),
                param("single_branch", "boolean", false, "Whether to clone only the requested branch."),
            ];
            let d = ActionDescriptor { name: "git.clone", description: "Clone a Git repository into an allowed local directory.", params };
            assert(d@.params =~= descriptor(kind).params);
            d
        },
        ActionKind::Add => {
            let params = vec![
                param("repo_path", "string", true, "Local repository path."),
                param("paths", "array<string>", false, "Relative paths to stage. If omitted, stages all changes."),
                param("all", "boolean", false, "Stage all tracked and untracked changes."),
            ];
            let d = ActionDescriptor { name: "git.add", description: "Stage files in a local repository.", params };
            assert(d@.params =~= descriptor(kind).params);
            d
        },
        ActionKind::CheckoutBranch => {
            let params = vec![
                param("repo_path", "string", true, "Local repository path."),
                param("branch_name", "string", true, "Target branch name."),
                param("create", "boolean", false, "Create the branch if it does not already exist."),
                param("start_point", "string", false, "Optional branch or commit used when creating the branch."),
            ];
            let d = ActionDescriptor { name: "git.checkout_branch", description: "Checkout an existing branch or create a new one.", params };
            assert(d@.params =~= descriptor(kind).params);
            d
        },
        ActionKind::Commit => {
            let params = vec![
                param("repo_path", "string", true, "Local repository path."),
                param("message", "string", true, "Commit message."),
                param("all", "boolean", false, "Commit all tracked changes without a separate add step."),
            ];
            let d = ActionDescriptor { name: "git.commit", description: "Create a commit in a local repository.", params };
            assert(d@.params =~= descriptor(kind).params);
            d
        },
        ActionKind::MergeBranch => {
            let params = vec![
                param("repo_path", "string", true, "Local repository path."),
                param("source_branch", "string", true, "Branch to merge from."),
                param("target_branch", "string", true, "Branch to merge into."),
                param("no_fast_forward", "boolean", false, "Create a merge commit instead of fast-forwarding."),
                param("commit_message", "string", false, "Optional custom merge commit message."),
            ];
            let d = ActionDescriptor { name: "git.merge_branch", description: "Checkout the target branch and merge another branch into it.", params };
            assert(d@.params =~= descriptor(kind).params);
            d
        },
        ActionKind::Pull => {
            let params = vec![
                param("repo_path", "string", true, "Local repository path."),
                param("remote", "string", false, "Remote name, default origin."),
                param("branch", "string", false, "Branch to pull. If omitted, current upstream is used."),
                param("rebase", "boolean", false, "Use rebase while pulling."),
            ];
            let d = ActionDescriptor { name: "git.pull", description: "Pull changes from a remote repository.", params };
            assert(d@.params =~= descriptor(kind).params);
            d
        },
        ActionKind::Push => {
            let params = vec![
                param("repo_path", "string", true, "Local repository path."),
                param("remote", "string", false, "Remote name, default origin."),
                param("branch", "string", false, "Branch to push. If omitted, current branch is used."),
                param("set_upstream", "boolean", false, "Set upstream while pushing."),
                param("force", "boolean", false, "Force push the branch."),
            ];
            let d = ActionDescriptor { name: "git.push", description: "Push a local branch to a remote repository.", params };
            assert(d@.params =~= descriptor(kind).params);
            d
        },
        ActionKind::Fetch => {
            let params = vec![
                param("repo_path", "string", true, "Local repository path."),
                param("remote", "string", false, "Remote name, default origin."),
            ];
            let d = ActionDescriptor { name: "git.fetch", description: "Fetch updates from a remote repository.", params };
            assert(d@.params =~= descriptor(kind).params);
            d
        },
        ActionKind::Status => {
            let params = vec![
                param("repo_path", "string", true, "Local repository path."),
            ];
            let d = ActionDescriptor { name: "git.status", description: "Read current branch and repository status.", params };
            assert(d@.params =~= descriptor(kind).params);
            d
        },
        ActionKind::GetCurrentBranch => {
            let params = vec![
                param("repo_path", "string", true, "Local repository path."),
            ];
            let d = ActionDescriptor { name: "git.get_current_branch", description: "Read the current local branch name.", params };
            assert(d@.params =~= descriptor(kind).params);
            d
        },
        ActionKind::DiffStaged => {
            let params = vec![
                param("repo_path", "string", true, "Local repository path."),
            ];
            let d = ActionDescriptor { name: "git.diff_staged", description: "Read the currently staged diff and staged file list.", params };
            assert(d@.params =~= descriptor(kind).params);
            d
        },
        ActionKind::ListBranches => {
            let params = vec![
                param("repo_path", "string", true, "Local repository path."),
            ];
            let d = ActionDescriptor { name: "git.list_branches", description: "List local and remote branches.", params };
            assert(d@.params =~= descriptor(kind).params);
            d
        },
        ActionKind::ListBranchesStructured => {
            let params = vec![
                param("repo_path", "string", true, "Local repository path."),
            ];
            let d = ActionDescriptor { name: "git.list_branches_structured", description: "List local and remote branches as structured JSON.", params };
            assert(d@.params =~= descriptor(kind).params);
            d
        },
        ActionKind::CommandRun => {
            let params = vec![
                param("program", "string", true, "Executable name from the allowlist."),
                param("args", "array<string>", false, "Structured argument list."),
                param("cwd", "string", false, "Optional working directory within allowed roots."),
            ];
            let d = ActionDescriptor { name: "command.run", description: "Run an allowlisted executable with structured arguments and no shell.", params };
            assert(d@.params =~= descriptor(kind).params);
            d
        },
    }
}

/// The catalog of every supported action with its parameters.
pub fn catalog() -> (out: Vec<ActionDescriptor>)
    ensures
        out@.len() == catalog_kinds().len(),
        forall|i: int| 0 <= i < out@.len() ==> (#[trigger] out@[i])@ == descriptor(catalog_kinds()[i]),
{
    let kinds = vec![
        ActionKind::Clone,
        ActionKind::Add,
        ActionKind::CheckoutBranch,
        ActionKind::Commit,
        ActionKind::MergeBranch,
        ActionKind::Pull,
        ActionKind::Push,
        ActionKind::Fetch,
        ActionKind::Status,
        ActionKind::GetCurrentBranch,
        ActionKind::DiffStaged,
        ActionKind::ListBranches,
        ActionKind::ListBranchesStructured,
        ActionKind::CommandRun,
    ];
    assert(kinds@ =~= catalog_kinds());
    let mut out: Vec<ActionDescriptor> = Vec::new();
    let mut i: usize = 0;
    while i < kinds.len()
        invariant
            i <= kinds.len(),
            kinds@ == catalog_kinds(),
            out@.len() == i,
            forall|j: int| 0 <= j < i ==> (#[trigger] out@[j])@ == descriptor(catalog_kinds()[j]),
        decreases kinds.len() - i,
    {
        out.push(describe(kinds[i]));
        i = i + 1;
    }
    out
}

/// Every action is named in its catalog entry, and the supported names are
/// exactly the names of the actions.
pub proof fn lemma_action_names(k: ActionKind)
    ensures
        descriptor(k).name == action_name(k),
        supported_names().contains(action_name(k)),
        catalog_kinds().contains(k),
{
    let i: int = match k {
        ActionKind::Clone => 0,
        ActionKind::Add => 1,
        ActionKind::CheckoutBranch => 2,
        ActionKind::Commit => 3,
        ActionKind::GetCurrentBranch => 4,
        ActionKind::DiffStaged => 5,
        ActionKind::MergeBranch => 6,
        ActionKind::Pull => 7,
        ActionKind::Push => 8,
        ActionKind::Fetch => 9,
        ActionKind::Status => 10,
        ActionKind::ListBranches => 11,
        ActionKind::ListBranchesStructured => 12,
        ActionKind::CommandRun => 13,
    };
    assert(supported_names()[i] == action_name(k));
    let j: int = match k {
        ActionKind::Clone => 0,
        ActionKind::Add => 1,
        ActionKind::CheckoutBranch => 2,
        ActionKind::Commit => 3,
        ActionKind::MergeBranch => 4,
        ActionKind::Pull => 5,
        ActionKind::Push => 6,
        ActionKind::Fetch => 7,
        ActionKind::Status => 8,
        ActionKind::GetCurrentBranch => 9,
        ActionKind::DiffStaged => 10,
        ActionKind::ListBranches => 11,
        ActionKind::ListBranchesStructured => 12,
        ActionKind::CommandRun => 13,
    };
    assert(catalog_kinds()[j] == k);
}

/// The catalog describes exactly the supported actions: every entry names
/// a supported action, and every supported action has an entry.
pub proof fn law_catalog_lists_supported_actions()
    ensures
        catalog_kinds().len() == supported_names().len(),
        forall|i: int|
            0 <= i < catalog_kinds().len() ==> supported_names().contains(
                #[trigger] descriptor(catalog_kinds()[i]).name,
            ),
        forall|n: Seq<char>|
            #[trigger] supported_names().contains(n) ==> exists|i: int|
                0 <= i < catalog_kinds().len() && descriptor(catalog_kinds()[i]).name == n,
{
    assert forall|i: int| 0 <= i < catalog_kinds().len() implies supported_names().contains(
        #[trigger] descriptor(catalog_kinds()[i]).name,
    ) by {
        lemma_action_names(catalog_kinds()[i]);
    }
    let kinds = seq![
        ActionKind::Clone,
        ActionKind::Add,
        ActionKind::CheckoutBranch,
        ActionKind::Commit,
        ActionKind::GetCurrentBranch,
        ActionKind::DiffStaged,
        ActionKind::MergeBranch,
        ActionKind::Pull,
        ActionKind::Push,
        ActionKind::Fetch,
        ActionKind::Status,
        ActionKind::ListBranches,
        ActionKind::ListBranchesStructured,
        ActionKind::CommandRun,
    ];
    assert forall|n: Seq<char>| #[trigger] supported_names().contains(n) implies exists|i: int|
        0 <= i < catalog_kinds().len() && descriptor(catalog_kinds()[i]).name == n by {
        let m = choose|m: int| 0 <= m < supported_names().len() && supported_names()[m] == n;
        let k = kinds[m];
        assert(action_name(k) == n);
        lemma_action_names(k);
        let i = choose|i: int| 0 <= i < catalog_kinds().len() && catalog_kinds()[i] == k;
        assert(descriptor(catalog_kinds()[i]).name == n);
    }
}


/// Different actions have different names.
proof fn lemma_action_name_injective(a: ActionKind, b: ActionKind)
    requires
        a != b,
    ensures
        action_name(a) != action_name(b),
{
    reveal_strlit("git.clone");
    reveal_strlit("git.add");
    reveal_strlit("git.checkout_branch");
    reveal_strlit("git.commit");
    reveal_strlit("git.get_current_branch");
    reveal_strlit("git.diff_staged");
    reveal_strlit("git.merge_branch");
    reveal_strlit("git.pull");
    reveal_strlit("git.push");
    reveal_strlit("git.fetch");
    reveal_strlit("git.status");
    reveal_strlit("git.list_branches");
    reveal_strlit("git.list_branches_structured");
    reveal_strlit("command.run");
    if action_name(a) == action_name(b) {
        let x = action_name(a);
        assert(x.len() == action_name(b).len());
        assert(x[4] == action_name(b)[4]);
        assert(x[5] == action_name(b)[5]);
        assert(x[6] == action_name(b)[6]);
        assert(x.last() == action_name(b).last());
    }
}

/// No two entries of the catalog describe the same action name.
pub proof fn law_catalog_names_distinct()
    ensures
        forall|i: int, j: int|
            0 <= i < j < catalog_kinds().len() ==> descriptor(catalog_kinds()[i]).name != descriptor(
                catalog_kinds()[j],
            ).name,
{
    assert forall|i: int, j: int|
        0 <= i < j < catalog_kinds().len() implies descriptor(catalog_kinds()[i]).name != descriptor(
            catalog_kinds()[j],
        ).name by {
        lemma_action_names(catalog_kinds()[i]);
        lemma_action_names(catalog_kinds()[j]);
        lemma_action_name_injective(catalog_kinds()[i], catalog_kinds()[j]);
    }
}

} // verus!
