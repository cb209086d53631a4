//! Confirmed operations: which Git command each runs, what is reported
//! after it, and the dialogs that ask for them.
use crate::git::GitError;
use crate::model::{AppState, Modal, Panel, PendingDiscard, PendingOperation, TerminalHandoff, TerminalHandoffAfter};
use crate::text::{copy_str, push_str, text_bytes};
use vstd::prelude::*;
use vstd::utf8::encode_utf8;

verus! {

/// A retry in the terminal: the handoff's label, the Git arguments and the
/// message shown on return.
#[derive(Debug, Clone, PartialEq, Eq)]
pub struct Retry {
    pub label: String,
    pub args: Vec<Vec<u8>>,
    pub message: String,
}

/// What a confirmed operation runs.
#[derive(Debug, Clone, PartialEq, Eq)]
pub enum OperationStep {
    /// One Git command with these arguments.
    Git(Vec<Vec<u8>>),
    /// Fetch the upstream, then fast-forward when it is ahead.
    UpdateCurrentBranch,
    /// Re-check the upstream, then push.
    PushCurrentBranch,
}

/// How a confirmed operation runs and what is reported after it.
#[derive(Debug, Clone, PartialEq, Eq)]
pub struct OperationPlan {
    pub step: OperationStep,
    /// The refresh message after success.
    pub success: String,
    /// The error dialog's title after failure.
    pub error_title: String,
    /// The terminal retry the error dialog offers.
    pub retry: Option<Retry>,
    /// Success reopens the Changes panel.
    pub open_changes: bool,
}

pub struct RetryView {
    pub label: Seq<char>,
    pub args: Seq<Seq<u8>>,
    pub message: Seq<char>,
}

pub enum StepView {
    Git(Seq<Seq<u8>>),
    UpdateCurrentBranch,
    PushCurrentBranch,
}

pub struct PlanView {
    pub step: StepView,
    pub success: Seq<char>,
    pub error_title: Seq<char>,
    pub retry: Option<RetryView>,
    pub open_changes: bool,
}

pub open spec fn args_view(v: Seq<Vec<u8>>) -> Seq<Seq<u8>> {
    v.map_values(|a: Vec<u8>| a@)
}

impl View for OperationPlan {
    type V = PlanView;

    open spec fn view(&self) -> PlanView {
        PlanView {
            step: match self.step {
                OperationStep::Git(a) => StepView::Git(args_view(a@)),
                OperationStep::UpdateCurrentBranch => StepView::UpdateCurrentBranch,
                OperationStep::PushCurrentBranch => StepView::PushCurrentBranch,
            },
            success: self.success@,
            error_title: self.error_title@,
            retry: match self.retry {
                Some(r) => Some(RetryView { label: r.label@, args: args_view(r.args@), message: r.message@ }),
                None => None,
            },
            open_changes: self.open_changes,
        }
    }
}

pub open spec fn apply_stash_plan(x: String) -> PlanView {
    PlanView {
        step: StepView::Git(seq![encode_utf8("stash"@), encode_utf8("apply"@), encode_utf8(x@)]),
        success: "Applied "@ + x@,
        error_title: "Could not apply stash"@,
        retry: None,
        open_changes: false,
    }
}

fn plan_apply_stash(x: &String) -> (p: OperationPlan)
    ensures
        p@ == apply_stash_plan(*x),
{
    let mut args: Vec<Vec<u8>> = Vec::new();
    args.push(text_bytes("stash"));
    args.push(text_bytes("apply"));
    args.push(text_bytes(x.as_str()));
    assert(args_view(args@) =~= match apply_stash_plan(*x).step { StepView::Git(a) => a, _ => Seq::empty() });
    let retry = None;
    let p = OperationPlan {
        step: OperationStep::Git(args),
        success: {
        let mut m = copy_str("Applied ");
        push_str(&mut m, x.as_str());
        m
    },
        error_title: copy_str("Could not apply stash"),
        retry,
        open_changes: false,
    };
    assert(p@.step == apply_stash_plan(*x).step);
    assert(p@.retry == apply_stash_plan(*x).retry);
    p
}

pub open spec fn drop_stash_plan(x: String) -> PlanView {
    PlanView {
        step: StepView::Git(seq![encode_utf8("stash"@), encode_utf8("drop"@), encode_utf8(x@)]),
        success: "Dropped "@ + x@,
        error_title: "Could not drop stash"@,
        retry: None,
        open_changes: false,
    }
}

fn plan_drop_stash(x: &String) -> (p: OperationPlan)
    ensures
        p@ == drop_stash_plan(*x),
{
    let mut args: Vec<Vec<u8>> = Vec::new();
    args.push(text_bytes("stash"));
    args.push(text_bytes("drop"));
    args.push(text_bytes(x.as_str()));
    assert(args_view(args@) =~= match drop_stash_plan(*x).step { StepView::Git(a) => a, _ => Seq::empty() });
    let retry = None;
    let p = OperationPlan {
        step: OperationStep::Git(args),
        success: {
        let mut m = copy_str("Dropped ");
        push_str(&mut m, x.as_str());
        m
    },
        error_title: copy_str("Could not drop stash"),
        retry,
        open_changes: false,
    };
    assert(p@.step == drop_stash_plan(*x).step);
    assert(p@.retry == drop_stash_plan(*x).retry);
    p
}

pub open spec fn switch_branch_plan(x: String) -> PlanView {
    PlanView {
        step: StepView::Git(seq![encode_utf8("switch"@), encode_utf8("--"@), encode_utf8(x@)]),
        success: "Switched to "@ + x@,
        error_title: "Could not switch branch"@,
        retry: None,
        open_changes: true,
    }
}

fn plan_switch_branch(x: &String) -> (p: OperationPlan)
    ensures
        p@ == switch_branch_plan(*x),
{
    let mut args: Vec<Vec<u8>> = Vec::new();
    args.push(text_bytes("switch"));
    args.push(text_bytes("--"));
    args.push(text_bytes(x.as_str()));
    assert(args_view(args@) =~= match switch_branch_plan(*x).step { StepView::Git(a) => a, _ => Seq::empty() });
    let retry = None;
    let p = OperationPlan {
        step: OperationStep::Git(args),
        success: {
        let mut m = copy_str("Switched to ");
        push_str(&mut m, x.as_str());
        m
    },
        error_title: copy_str("Could not switch branch"),
        retry,
        open_changes: true,
    };
    assert(p@.step == switch_branch_plan(*x).step);
    assert(p@.retry == switch_branch_plan(*x).retry);
    p
}

pub open spec fn fetch_remote_plan(x: String) -> PlanView {
    PlanView {
        step: StepView::Git(seq![encode_utf8("fetch"@), encode_utf8("--porcelain"@), encode_utf8("--prune"@), encode_utf8(x@)]),
        success: "Fetched "@ + x@,
        error_title: "Could not fetch remote"@,
        retry: Some(RetryView { label: "terminal fetch retry"@, args: seq![encode_utf8("fetch"@), encode_utf8("--prune"@), encode_utf8(x@)], message: "Returned from terminal fetch"@ }),
        open_changes: false,
    }
}

fn plan_fetch_remote(x: &String) -> (p: OperationPlan)
    ensures
        p@ == fetch_remote_plan(*x),
{
    let mut args: Vec<Vec<u8>> = Vec::new();
    args.push(text_bytes("fetch"));
    args.push(text_bytes("--porcelain"));
    args.push(text_bytes("--prune"));
    args.push(text_bytes(x.as_str()));
    assert(args_view(args@) =~= match fetch_remote_plan(*x).step { StepView::Git(a) => a, _ => Seq::empty() });
    let retry = {
        let mut retry_args: Vec<Vec<u8>> = Vec::new();
        retry_args.push(text_bytes("fetch"));
        retry_args.push(text_bytes("--prune"));
        retry_args.push(text_bytes(x.as_str()));
        assert(args_view(retry_args@) =~= match fetch_remote_plan(*x).retry { Some(r) => r.args, None => Seq::empty() });
        Some(Retry { label: copy_str("terminal fetch retry"), args: retry_args, message: copy_str("Returned from terminal fetch") })
    };
    let p = OperationPlan {
        step: OperationStep::Git(args),
        success: {
        let mut m = copy_str("Fetched ");
        push_str(&mut m, x.as_str());
        m
    },
        error_title: copy_str("Could not fetch remote"),
        retry,
        open_changes: false,
    };
    assert(p@.step == fetch_remote_plan(*x).step);
    assert(p@.retry == fetch_remote_plan(*x).retry);
    p
}

pub open spec fn remove_worktree_plan(x: Vec<u8>) -> PlanView {
    PlanView {
        step: StepView::Git(seq![encode_utf8("worktree"@), encode_utf8("remove"@), encode_utf8("--"@), x@]),
        success: "Removed worktree"@,
        error_title: "Could not remove worktree"@,
        retry: None,
        open_changes: false,
    }
}

fn plan_remove_worktree(x: &Vec<u8>) -> (p: OperationPlan)
    ensures
        p@ == remove_worktree_plan(*x),
{
    let mut args: Vec<Vec<u8>> = Vec::new();
    args.push(text_bytes("worktree"));
    args.push(text_bytes("remove"));
    args.push(text_bytes("--"));
    args.push(crate::git::copy_bytes(x));
    assert(args_view(args@) =~= match remove_worktree_plan(*x).step { StepView::Git(a) => a, _ => Seq::empty() });
    let retry = None;
    let p = OperationPlan {
        step: OperationStep::Git(args),
        success: copy_str("Removed worktree"),
        error_title: copy_str("Could not remove worktree"),
        retry,
        open_changes: false,
    };
    assert(p@.step == remove_worktree_plan(*x).step);
    assert(p@.retry == remove_worktree_plan(*x).retry);
    p
}

pub open spec fn sync_submodule_plan(x: Vec<u8>) -> PlanView {
    PlanView {
        step: StepView::Git(seq![encode_utf8("submodule"@), encode_utf8("sync"@), encode_utf8("--"@), x@]),
        success: "Synced submodule"@,
        error_title: "Could not sync submodule"@,
        retry: None,
        open_changes: false,
    }
}

fn plan_sync_submodule(x: &Vec<u8>) -> (p: OperationPlan)
    ensures
        p@ == sync_submodule_plan(*x),
{
    let mut args: Vec<Vec<u8>> = Vec::new();
    args.push(text_bytes("submodule"));
    args.push(text_bytes("sync"));
    args.push(text_bytes("--"));
    args.push(crate::git::copy_bytes(x));
    assert(args_view(args@) =~= match sync_submodule_plan(*x).step { StepView::Git(a) => a, _ => Seq::empty() });
    let retry = None;
    let p = OperationPlan {
        step: OperationStep::Git(args),
        success: copy_str("Synced submodule"),
        error_title: copy_str("Could not sync submodule"),
        retry,
        open_changes: false,
    };
    assert(p@.step == sync_submodule_plan(*x).step);
    assert(p@.retry == sync_submodule_plan(*x).retry);
    p
}

pub open spec fn update_submodule_plan(x: Vec<u8>) -> PlanView {
    PlanView {
        step: StepView::Git(seq![encode_utf8("submodule"@), encode_utf8("update"@), encode_utf8("--init"@), encode_utf8("--recursive"@), encode_utf8("--no-fetch"@), encode_utf8("--"@), x@]),
        success: "Updated submodule from local objects"@,
        error_title: "Could not update submodule"@,
        retry: None,
        open_changes: false,
    }
}

fn plan_update_submodule(x: &Vec<u8>) -> (p: OperationPlan)
    ensures
        p@ == update_submodule_plan(*x),
{
    let mut args: Vec<Vec<u8>> = Vec::new();
    args.push(text_bytes("submodule"));
    args.push(text_bytes("update"));
    args.push(text_bytes("--init"));
    args.push(text_bytes("--recursive"));
    args.push(text_bytes("--no-fetch"));
    args.push(text_bytes("--"));
    args.push(crate::git::copy_bytes(x));
    assert(args_view(args@) =~= match update_submodule_plan(*x).step { StepView::Git(a) => a, _ => Seq::empty() });
    let retry = None;
    let p = OperationPlan {
        step: OperationStep::Git(args),
        success: copy_str("Updated submodule from local objects"),
        error_title: copy_str("Could not update submodule"),
        retry,
        open_changes: false,
    };
    assert(p@.step == update_submodule_plan(*x).step);
    assert(p@.retry == update_submodule_plan(*x).retry);
    p
}

pub open spec fn stage_submodule_pointer_plan(x: Vec<u8>) -> PlanView {
    PlanView {
        step: StepView::Git(seq![encode_utf8("add"@), encode_utf8("--"@), x@]),
        success: "Staged submodule pointer"@,
        error_title: "Could not stage submodule pointer"@,
        retry: None,
        open_changes: false,
    }
}

fn plan_stage_submodule_pointer(x: &Vec<u8>) -> (p: OperationPlan)
    ensures
        p@ == stage_submodule_pointer_plan(*x),
{
    let mut args: Vec<Vec<u8>> = Vec::new();
    args.push(text_bytes("add"));
    args.push(text_bytes("--"));
    args.push(crate::git::copy_bytes(x));
    assert(args_view(args@) =~= match stage_submodule_pointer_plan(*x).step { StepView::Git(a) => a, _ => Seq::empty() });
    let retry = None;
    let p = OperationPlan {
        step: OperationStep::Git(args),
        success: copy_str("Staged submodule pointer"),
        error_title: copy_str("Could not stage submodule pointer"),
        retry,
        open_changes: false,
    };
    assert(p@.step == stage_submodule_pointer_plan(*x).step);
    assert(p@.retry == stage_submodule_pointer_plan(*x).retry);
    p
}

pub open spec fn rebase_abort_plan() -> PlanView {
    PlanView {
        step: StepView::Git(seq![encode_utf8("rebase"@), encode_utf8("--abort"@)]),
        success: "Aborted rebase"@,
        error_title: "Could not abort rebase"@,
        retry: None,
        open_changes: false,
    }
}

fn plan_rebase_abort() -> (p: OperationPlan)
    ensures
        p@ == rebase_abort_plan(),
{
    let mut args: Vec<Vec<u8>> = Vec::new();
    args.push(text_bytes("rebase"));
    args.push(text_bytes("--abort"));
    assert(args_view(args@) =~= match rebase_abort_plan().step { StepView::Git(a) => a, _ => Seq::empty() });
    let retry = None;
    let p = OperationPlan {
        step: OperationStep::Git(args),
        success: copy_str("Aborted rebase"),
        error_title: copy_str("Could not abort rebase"),
        retry,
        open_changes: false,
    };
    assert(p@.step == rebase_abort_plan().step);
    assert(p@.retry == rebase_abort_plan().retry);
    p
}

pub open spec fn rebase_skip_plan() -> PlanView {
    PlanView {
        step: StepView::Git(seq![encode_utf8("rebase"@), encode_utf8("--skip"@)]),
        success: "Skipped rebase commit"@,
        error_title: "Could not skip rebase commit"@,
        retry: None,
        open_changes: false,
    }
}

fn plan_rebase_skip() -> (p: OperationPlan)
    ensures
        p@ == rebase_skip_plan(),
{
    let mut args: Vec<Vec<u8>> = Vec::new();
    args.push(text_bytes("rebase"));
    args.push(text_bytes("--skip"));
    assert(args_view(args@) =~= match rebase_skip_plan().step { StepView::Git(a) => a, _ => Seq::empty() });
    let retry = None;
    let p = OperationPlan {
        step: OperationStep::Git(args),
        success: copy_str("Skipped rebase commit"),
        error_title: copy_str("Could not skip rebase commit"),
        retry,
        open_changes: false,
    };
    assert(p@.step == rebase_skip_plan().step);
    assert(p@.retry == rebase_skip_plan().retry);
    p
}

pub open spec fn checkout_ours_plan(x: Vec<u8>) -> PlanView {
    PlanView {
        step: StepView::Git(seq![encode_utf8("checkout"@), encode_utf8("--ours"@), encode_utf8("--"@), x@]),
        success: "Checked out ours"@,
        error_title: "Could not check out ours"@,
        retry: None,
        open_changes: false,
    }
}

fn plan_checkout_ours(x: &Vec<u8>) -> (p: OperationPlan)
    ensures
        p@ == checkout_ours_plan(*x),
{
    let mut args: Vec<Vec<u8>> = Vec::new();
    args.push(text_bytes("checkout"));
    args.push(text_bytes("--ours"));
    args.push(text_bytes("--"));
    args.push(crate::git::copy_bytes(x));
    assert(args_view(args@) =~= match checkout_ours_plan(*x).step { StepView::Git(a) => a, _ => Seq::empty() });
    let retry = None;
    let p = OperationPlan {
        step: OperationStep::Git(args),
        success: copy_str("Checked out ours"),
        error_title: copy_str("Could not check out ours"),
        retry,
        open_changes: false,
    };
    assert(p@.step == checkout_ours_plan(*x).step);
    assert(p@.retry == checkout_ours_plan(*x).retry);
    p
}

pub open spec fn checkout_theirs_plan(x: Vec<u8>) -> PlanView {
    PlanView {
        step: StepView::Git(seq![encode_utf8("checkout"@), encode_utf8("--theirs"@), encode_utf8("--"@), x@]),
        success: "Checked out theirs"@,
        error_title: "Could not check out theirs"@,
        retry: None,
        open_changes: false,
    }
}

fn plan_checkout_theirs(x: &Vec<u8>) -> (p: OperationPlan)
    ensures
        p@ == checkout_theirs_plan(*x),
{
    let mut args: Vec<Vec<u8>> = Vec::new();
    args.push(text_bytes("checkout"));
    args.push(text_bytes("--theirs"));
    args.push(text_bytes("--"));
    args.push(crate::git::copy_bytes(x));
    assert(args_view(args@) =~= match checkout_theirs_plan(*x).step { StepView::Git(a) => a, _ => Seq::empty() });
    let retry = None;
    let p = OperationPlan {
        step: OperationStep::Git(args),
        success: copy_str("Checked out theirs"),
        error_title: copy_str("Could not check out theirs"),
        retry,
        open_changes: false,
    };
    assert(p@.step == checkout_theirs_plan(*x).step);
    assert(p@.retry == checkout_theirs_plan(*x).retry);
    p
}

pub open spec fn mark_resolved_plan(x: Vec<u8>) -> PlanView {
    PlanView {
        step: StepView::Git(seq![encode_utf8("add"@), encode_utf8("--"@), x@]),
        success: "Marked conflict resolved"@,
        error_title: "Could not mark resolved"@,
        retry: None,
        open_changes: false,
    }
}

fn plan_mark_resolved(x: &Vec<u8>) -> (p: OperationPlan)
    ensures
        p@ == mark_resolved_plan(*x),
{
    let mut args: Vec<Vec<u8>> = Vec::new();
    args.push(text_bytes("add"));
    args.push(text_bytes("--"));
    args.push(crate::git::copy_bytes(x));
    assert(args_view(args@) =~= match mark_resolved_plan(*x).step { StepView::Git(a) => a, _ => Seq::empty() });
    let retry = None;
    let p = OperationPlan {
        step: OperationStep::Git(args),
        success: copy_str("Marked conflict resolved"),
        error_title: copy_str("Could not mark resolved"),
        retry,
        open_changes: false,
    };
    assert(p@.step == mark_resolved_plan(*x).step);
    assert(p@.retry == mark_resolved_plan(*x).retry);
    p
}

/// How each confirmed operation runs; discarding and the interactive rebase
/// have their own paths.
pub open spec fn plan_spec(op: PendingOperation) -> Option<PlanView> {
    match op {
        PendingOperation::ApplyStash(x) => Some(apply_stash_plan(x)),
        PendingOperation::DropStash(x) => Some(drop_stash_plan(x)),
        PendingOperation::SwitchBranch(x) => Some(switch_branch_plan(x)),
        PendingOperation::FetchRemote(x) => Some(fetch_remote_plan(x)),
        PendingOperation::RemoveWorktree(x) => Some(remove_worktree_plan(x)),
        PendingOperation::SyncSubmodule(x) => Some(sync_submodule_plan(x)),
        PendingOperation::UpdateSubmodule(x) => Some(update_submodule_plan(x)),
        PendingOperation::StageSubmodulePointer(x) => Some(stage_submodule_pointer_plan(x)),
        PendingOperation::RebaseAbort => Some(rebase_abort_plan()),
        PendingOperation::RebaseSkip => Some(rebase_skip_plan()),
        PendingOperation::CheckoutOurs(x) => Some(checkout_ours_plan(x)),
        PendingOperation::CheckoutTheirs(x) => Some(checkout_theirs_plan(x)),
        PendingOperation::MarkResolved(x) => Some(mark_resolved_plan(x)),
        PendingOperation::UpdateCurrentBranch => Some(update_plan()),
        PendingOperation::PushCurrentBranch => Some(push_plan()),
        _ => None,
    }
}

pub open spec fn update_plan() -> PlanView {
    PlanView {
        step: StepView::UpdateCurrentBranch,
        success: "Updated current branch"@,
        error_title: "Could not update current branch"@,
        retry: Some(
            RetryView {
                label: "terminal fast-forward update retry"@,
                args: seq![encode_utf8("pull"@), encode_utf8("--ff-only"@)],
                message: "Returned from terminal update"@,
            },
        ),
        open_changes: false,
    }
}

pub open spec fn push_plan() -> PlanView {
    PlanView {
        step: StepView::PushCurrentBranch,
        success: "Pushed current branch"@,
        error_title: "Could not push current branch"@,
        retry: Some(
            RetryView {
                label: "terminal push retry"@,
                args: seq![encode_utf8("push"@)],
                message: "Returned from terminal push"@,
            },
        ),
        open_changes: false,
    }
}

fn plan_update() -> (p: OperationPlan)
    ensures
        p@ == update_plan(),
{
    let mut retry_args: Vec<Vec<u8>> = Vec::new();
    retry_args.push(text_bytes("pull"));
    retry_args.push(text_bytes("--ff-only"));
    assert(args_view(retry_args@) =~= match update_plan().retry { Some(r) => r.args, None => Seq::empty() });
    let p = OperationPlan {
        step: OperationStep::UpdateCurrentBranch,
        success: copy_str("Updated current branch"),
        error_title: copy_str("Could not update current branch"),
        retry: Some(
            Retry {
                label: copy_str("terminal fast-forward update retry"),
                args: retry_args,
                message: copy_str("Returned from terminal update"),
            },
        ),
        open_changes: false,
    };
    assert(p@.retry == update_plan().retry);
    p
}

fn plan_push() -> (p: OperationPlan)
    ensures
        p@ == push_plan(),
{
    let mut retry_args: Vec<Vec<u8>> = Vec::new();
    retry_args.push(text_bytes("push"));
    assert(args_view(retry_args@) =~= match push_plan().retry { Some(r) => r.args, None => Seq::empty() });
    let p = OperationPlan {
        step: OperationStep::PushCurrentBranch,
        success: copy_str("Pushed current branch"),
        error_title: copy_str("Could not push current branch"),
        retry: Some(
            Retry {
                label: copy_str("terminal push retry"),
                args: retry_args,
                message: copy_str("Returned from terminal push"),
            },
        ),
        open_changes: false,
    };
    assert(p@.retry == push_plan().retry);
    p
}

/// How the confirmed operation `op` runs: `None` for a discard and for an
/// interactive rebase, which take other paths.
pub fn operation_plan(op: &PendingOperation) -> (r: Option<OperationPlan>)
    ensures
        match plan_spec(*op) {
            Some(v) => r matches Some(p) && p@ == v,
            None => r is None,
        },
{
    match op {
        PendingOperation::ApplyStash(x) => Some(plan_apply_stash(x)),
        PendingOperation::DropStash(x) => Some(plan_drop_stash(x)),
        PendingOperation::SwitchBranch(x) => Some(plan_switch_branch(x)),
        PendingOperation::FetchRemote(x) => Some(plan_fetch_remote(x)),
        PendingOperation::RemoveWorktree(x) => Some(plan_remove_worktree(x)),
        PendingOperation::SyncSubmodule(x) => Some(plan_sync_submodule(x)),
        PendingOperation::UpdateSubmodule(x) => Some(plan_update_submodule(x)),
        PendingOperation::StageSubmodulePointer(x) => Some(plan_stage_submodule_pointer(x)),
        PendingOperation::RebaseAbort => Some(plan_rebase_abort()),
        PendingOperation::RebaseSkip => Some(plan_rebase_skip()),
        PendingOperation::CheckoutOurs(x) => Some(plan_checkout_ours(x)),
        PendingOperation::CheckoutTheirs(x) => Some(plan_checkout_theirs(x)),
        PendingOperation::MarkResolved(x) => Some(plan_mark_resolved(x)),
        PendingOperation::UpdateCurrentBranch => Some(plan_update()),
        PendingOperation::PushCurrentBranch => Some(plan_push()),
        _ => None,
    }
}

// ---------------------------------------------------------------------------
// Handing the terminal to Git
// ---------------------------------------------------------------------------

/// The arguments `-C root` followed by `args`.
pub open spec fn in_repo_args(root: Seq<u8>, args: Seq<Seq<u8>>) -> Seq<Seq<u8>> {
    seq![encode_utf8("-C"@), root] + args
}

/// Runs `git -C root <args>` in the terminal, then refreshes with `message`.
pub fn git_handoff(root: &[u8], label: &str, args: &Vec<Vec<u8>>, message: &str) -> (h: TerminalHandoff)
    ensures
        h.cwd@ == root@,
        h.command@ == encode_utf8("git"@),
        args_view(h.args@) == in_repo_args(root@, args_view(args@)),
        h.label@ == label@,
        h.after matches TerminalHandoffAfter::Refresh(m) && m@ == message@,
{
    let mut all: Vec<Vec<u8>> = Vec::new();
    all.push(text_bytes("-C"));
    all.push(crate::text::bytes_range(root, 0, root.len()));
    let mut i: usize = 0;
    assert(root@.subrange(0, root@.len() as int) =~= root@);
    while i < args.len()
        invariant
            i <= args.len(),
            args_view(all@) == in_repo_args(root@, args_view(args@).take(i as int)),
        decreases args.len() - i,
    {
        let ghost before = args_view(all@);
        all.push(crate::git::copy_bytes(&args[i]));
        assert(args_view(all@) =~= before.push(args@[i as int]@));
        assert(args_view(args@).take(i + 1) =~= args_view(args@).take(i as int).push(args@[i as int]@));
        i += 1;
    }
    assert(args_view(args@).take(args.len() as int) =~= args_view(args@));
    TerminalHandoff {
        cwd: crate::text::bytes_range(root, 0, root.len()),
        command: text_bytes("git"),
        args: all,
        label: copy_str(label),
        after: TerminalHandoffAfter::Refresh(copy_str(message)),
    }
}

impl AppState {
    /// Records how a confirmed operation ended. On success the dialog
    /// closes (and the Changes panel opens when the plan says so) and the
    /// caller refreshes with the plan's message; on failure the error dialog
    /// shows, with the plan's terminal retry when it has one.
    pub fn finish_operation(&mut self, plan: &OperationPlan, root: &[u8], outcome: &Result<(), GitError>) -> (refresh: bool)
        ensures
            refresh == outcome is Ok,
            outcome is Ok && !plan.open_changes ==> *final(self) == (AppState {
                modal: Modal::Closed,
                pending_operation: None,
                ..*old(self)
            }),
            outcome is Ok && plan.open_changes ==> *final(self) == (AppState {
                modal: Modal::Closed,
                pending_operation: None,
                panel: Panel::Changes,
                focus: crate::model::Focus::Changes,
                diff_scroll: 0,
                inspector_scroll: 0,
                diff_hunk: 0,
                ..*old(self)
            }),
            outcome matches Err(e) ==> final(self).modal == Modal::Error && final(self).error_title@
                == plan.error_title@,
            outcome matches Err(e) ==> (plan.retry is None ==> final(self).error_body@ == e@
                && final(self).retry_handoff is None),
            outcome matches Err(e) ==> (plan.retry matches Some(r) ==> final(self).error_body@ == e@
                + "\n\nPress e to retry in the terminal if authentication or credentials are required."@),
            plan.retry matches Some(r) ==> (outcome is Err ==> (final(self).retry_handoff matches Some(h)
                && h.label@ == r.label@ && args_view(h.args@) == in_repo_args(root@, args_view(r.args@)))),
    {
        match outcome {
            Ok(()) => {
                self.modal = Modal::Closed;
                self.pending_operation = None;
                if plan.open_changes {
                    self.open_panel(Panel::Changes);
                }
                true
            },
            Err(e) => {
                match &plan.retry {
                    Some(r) => {
                        let h = git_handoff(root, r.label.as_str(), &r.args, r.message.as_str());
                        self.show_error_with_retry(plan.error_title.as_str(), e, h);
                    },
                    None => {
                        self.show_error(plan.error_title.as_str(), e);
                    },
                }
                false
            },
        }
    }

    /// Hands the terminal to `git rebase -i base`, as the confirmed
    /// interactive rebase asks.
    pub fn start_interactive_rebase(&mut self, root: &[u8], base: &String)
        ensures
            final(self).modal == Modal::Closed,
            final(self).pending_operation is None,
            final(self).status_message@ == "Starting terminal handoff"@,
            final(self).pending_handoff matches Some(h) && h.cwd@ == root@ && h.command@ == encode_utf8("git"@)
                && args_view(h.args@) == in_repo_args(root@, seq![encode_utf8("rebase"@), encode_utf8("-i"@), encode_utf8(base@)])
                && h.label@ == "interactive rebase"@ && (h.after matches TerminalHandoffAfter::Refresh(m)
                && m@ == "Returned from interactive rebase"@),
            *final(self) == (AppState {
                modal: Modal::Closed,
                pending_operation: None,
                pending_handoff: final(self).pending_handoff,
                status_message: final(self).status_message,
                ..*old(self)
            }),
    {
        let mut args: Vec<Vec<u8>> = Vec::new();
        args.push(text_bytes("rebase"));
        args.push(text_bytes("-i"));
        args.push(text_bytes(base.as_str()));
        assert(args_view(args@) =~= seq![encode_utf8("rebase"@), encode_utf8("-i"@), encode_utf8(base@)]);
        let h = git_handoff(root, "interactive rebase", &args, "Returned from interactive rebase");
        self.modal = Modal::Closed;
        self.pending_operation = None;
        self.pending_handoff = Some(h);
        self.status_message = copy_str("Starting terminal handoff");
    }

    /// Drops a discard whose changes moved since it was confirmed; the
    /// caller then refreshes with `stale_discard_message`.
    pub fn cancel_stale_discard(&mut self)
        ensures
            final(self).pending_discard.len() == 0,
            *final(self) == (AppState {
                pending_discard: final(self).pending_discard,
                pending_operation: None,
                modal: Modal::Closed,
                ..*old(self)
            }),
    {
        self.pending_discard = Vec::new();
        self.pending_operation = None;
        self.modal = Modal::Closed;
    }
}

/// The message after a discard was dropped because its changes moved.
pub fn stale_discard_message() -> (r: String)
    ensures
        r@ == "Discard canceled: selection changed after confirmation"@,
{
    copy_str("Discard canceled: selection changed after confirmation")
}

/// A discard may go ahead when every confirmed change still has the
/// fingerprint it had when the user confirmed (`current[i]` is the present
/// fingerprint of target `i`'s change, `None` when it is gone or cannot be
/// read).
pub open spec fn discard_still_valid(targets: Seq<PendingDiscard>, current: Seq<Option<u64>>) -> bool {
    forall|i: int| 0 <= i < targets.len() ==> #[trigger] current[i] == Some(targets[i].fingerprint)
}

pub fn discard_is_current(targets: &[PendingDiscard], current: &[Option<u64>]) -> (r: bool)
    requires
        current.len() == targets.len(),
    ensures
        r == discard_still_valid(targets@, current@),
{
    let mut i: usize = 0;
    while i < targets.len()
        invariant
            current.len() == targets.len(),
            i <= targets.len(),
            forall|k: int| 0 <= k < i ==> #[trigger] current@[k] == Some(targets@[k].fingerprint),
        decreases targets.len() - i,
    {
        match current[i] {
            Some(f) => {
                if f != targets[i].fingerprint {
                    return false;
                }
            },
            None => return false,
        }
        i += 1;
    }
    true
}

/// What becomes of a confirmed discard.
#[derive(Debug, Clone, Copy, PartialEq, Eq, Structural)]
pub enum DiscardVerdict {
    /// None of its changes is listed any more.
    Nothing,
    /// A change moved since the confirmation: drop the discard.
    Stale,
    /// Discard the changes.
    Proceed,
}

/// The verdict on a confirmed discard: `listed` is how many of its changes
/// are still listed, `current` their present fingerprints.
pub fn discard_verdict(targets: &[PendingDiscard], listed: usize, current: &[Option<u64>]) -> (r: DiscardVerdict)
    requires
        current.len() == targets.len(),
    ensures
        listed == 0 ==> r == DiscardVerdict::Nothing,
        listed > 0 && discard_still_valid(targets@, current@) ==> r == DiscardVerdict::Proceed,
        listed > 0 && !discard_still_valid(targets@, current@) ==> r == DiscardVerdict::Stale,
{
    if listed == 0 {
        DiscardVerdict::Nothing
    } else if discard_is_current(targets, current) {
        DiscardVerdict::Proceed
    } else {
        DiscardVerdict::Stale
    }
}

/// What the caller does after the verdict on a confirmed discard.
#[derive(Debug, Clone, PartialEq, Eq)]
pub enum DiscardNext {
    /// Nothing: the dialog is closed and the status says why.
    Done,
    /// Refresh with this status message; nothing is discarded.
    Refresh(String),
    /// Discard the changes, then call `finish_discard`.
    Discard,
}

impl AppState {
    /// Acts on the verdict on a confirmed discard (`listed` is how many of
    /// its changes are still listed, `current` their present fingerprints):
    /// when none is listed the dialog closes with "Nothing to discard"; when
    /// a change moved the discard is dropped and nothing is discarded; only
    /// when every fingerprint still matches are the changes discarded.
    pub fn settle_discard(&mut self, targets: &[PendingDiscard], listed: usize, current: &[Option<u64>]) -> (next: DiscardNext)
        requires
            current.len() == targets.len(),
        ensures
            listed == 0 ==> next is Done && final(self).pending_discard.len() == 0
                && final(self).status_message@ == "Nothing to discard"@ && *final(self) == (AppState {
                pending_discard: final(self).pending_discard,
                pending_operation: None,
                modal: Modal::Closed,
                status_message: final(self).status_message,
                ..*old(self)
            }),
            listed > 0 && !discard_still_valid(targets@, current@) ==> (next matches DiscardNext::Refresh(m)
                && m@ == "Discard canceled: selection changed after confirmation"@)
                && final(self).pending_discard.len() == 0 && *final(self) == (AppState {
                pending_discard: final(self).pending_discard,
                pending_operation: None,
                modal: Modal::Closed,
                ..*old(self)
            }),
            listed > 0 && discard_still_valid(targets@, current@) ==> next is Discard && *final(self)
                == *old(self),
    {
        match discard_verdict(targets, listed, current) {
            DiscardVerdict::Nothing => {
                self.nothing_to_discard();
                DiscardNext::Done
            },
            DiscardVerdict::Stale => {
                self.cancel_stale_discard();
                DiscardNext::Refresh(stale_discard_message())
            },
            DiscardVerdict::Proceed => DiscardNext::Discard,
        }
    }
}

impl AppState {
    /// Closes a confirmed discard whose changes are all gone.
    pub fn nothing_to_discard(&mut self)
        ensures
            final(self).pending_discard.len() == 0,
            final(self).status_message@ == "Nothing to discard"@,
            *final(self) == (AppState {
                pending_discard: final(self).pending_discard,
                pending_operation: None,
                modal: Modal::Closed,
                status_message: final(self).status_message,
                ..*old(self)
            }),
    {
        self.pending_discard = Vec::new();
        self.pending_operation = None;
        self.modal = Modal::Closed;
        self.status_message = copy_str("Nothing to discard");
    }

    /// Records how a discard ended: on success the dialog closes and the
    /// caller refreshes with `discarded_message`; on failure the error
    /// dialog shows.
    pub fn finish_discard(&mut self, outcome: &Result<(), GitError>) -> (refresh: bool)
        ensures
            refresh == outcome is Ok,
            outcome is Ok ==> final(self).pending_discard.len() == 0 && *final(self) == (AppState {
                pending_discard: final(self).pending_discard,
                pending_operation: None,
                modal: Modal::Closed,
                ..*old(self)
            }),
            outcome matches Err(e) ==> final(self).modal == Modal::Error && final(self).error_title@
                == "Could not discard changes"@ && final(self).error_body@ == e@,
    {
        match outcome {
            Ok(()) => {
                self.pending_discard = Vec::new();
                self.pending_operation = None;
                self.modal = Modal::Closed;
                true
            },
            Err(e) => {
                self.show_error("Could not discard changes", e);
                false
            },
        }
    }
}

/// The message after a discard.
pub fn discarded_message() -> (r: String)
    ensures
        r@ == "Discarded selected changes"@,
{
    copy_str("Discarded selected changes")
}

/// The lines of the discard dialog: a change's tag and path, for the first
/// eight changes.
pub open spec fn discard_lines(cs: Seq<crate::git::Change>) -> Seq<char>
    decreases cs.len(),
{
    if cs.len() == 0 {
        Seq::empty()
    } else {
        discard_lines(cs.drop_last()) + cs.last().kind.spec_tag() + " "@ + cs.last().spec_display_path() + "\n"@
    }
}

/// The body of the discard dialog.
pub open spec fn discard_body(cs: Seq<crate::git::Change>) -> Seq<char> {
    "This cannot be undone by gack.\n\n"@ + discard_lines(if cs.len() > 8 {
        cs.take(8)
    } else {
        cs
    }) + if cs.len() > 8 {
        "...\n"@
    } else {
        Seq::empty()
    }
}

impl AppState {
    /// Asks to discard `changes`, remembering each one's fingerprint so that
    /// a change that moves before the confirmation is not discarded.
    pub fn confirm_discard(&mut self, changes: &Vec<crate::git::Change>, fingerprints: &Vec<u64>)
        requires
            fingerprints.len() == changes.len(),
            changes.len() > 0,
            changes.len() < usize::MAX,
        ensures
            crate::model::keys_view(final(self).pending_discard@) == changes@.map_values(
                |c: crate::git::Change| c.key@,
            ),
            final(self).pending_operation matches Some(PendingOperation::Discard(ps)) && ps.len() == changes.len()
                && forall|i: int| 0 <= i < ps.len() ==> (#[trigger] ps@[i]).key@ == changes@[i].key@
                && ps@[i].fingerprint == fingerprints@[i],
            changes.len() == 1 ==> final(self).confirm_title@ == "Discard selected change?"@,
            changes.len() > 1 ==> final(self).confirm_title@ == "Discard "@ + crate::text::decimal(
                changes.len() as nat,
            ) + " selected changes?"@,
            final(self).confirm_body@ == discard_body(changes@),
            final(self).modal == Modal::Confirm,
            *final(self) == (AppState {
                pending_discard: final(self).pending_discard,
                pending_operation: final(self).pending_operation,
                confirm_title: final(self).confirm_title,
                confirm_body: final(self).confirm_body,
                modal: Modal::Confirm,
                ..*old(self)
            }),
    {
        let mut pending: Vec<PendingDiscard> = Vec::new();
        let mut keys: Vec<crate::git::ChangeKey> = Vec::new();
        let mut i: usize = 0;
        while i < changes.len()
            invariant
                fingerprints.len() == changes.len(),
                i <= changes.len(),
                pending.len() == i,
                crate::model::keys_view(keys@) == changes@.take(i as int).map_values(|c: crate::git::Change| c.key@),
                forall|k: int|
                    0 <= k < i ==> (#[trigger] pending@[k]).key@ == changes@[k].key@ && pending@[k].fingerprint
                        == fingerprints@[k],
            decreases changes.len() - i,
        {
            let ghost before = crate::model::keys_view(keys@);
            pending.push(PendingDiscard { key: changes[i].key.copy(), fingerprint: fingerprints[i] });
            keys.push(changes[i].key.copy());
            assert(crate::model::keys_view(keys@) =~= before.push(changes@[i as int].key@));
            assert(changes@.take(i + 1).map_values(|c: crate::git::Change| c.key@) =~= changes@.take(
                i as int,
            ).map_values(|c: crate::git::Change| c.key@).push(changes@[i as int].key@));
            i += 1;
        }
        assert(changes@.take(changes.len() as int) =~= changes@);
        let title = if changes.len() == 1 {
            copy_str("Discard selected change?")
        } else {
            let mut t = copy_str("Discard ");
            let n = crate::text::decimal_string(changes.len() as u64);
            push_str(&mut t, n.as_str());
            push_str(&mut t, " selected changes?");
            t
        };
        let mut body = copy_str("This cannot be undone by gack.\n\n");
        let shown = if changes.len() > 8 {
            8
        } else {
            changes.len()
        };
        let ghost head = body@;
        let ghost listed = if changes.len() > 8 {
            changes@.take(8)
        } else {
            changes@
        };
        let mut k: usize = 0;
        while k < shown
            invariant
                shown <= changes.len(),
                shown == listed.len(),
                listed == (if changes.len() > 8 {
                    changes@.take(8)
                } else {
                    changes@
                }),
                k <= shown,
                body@ == head + discard_lines(listed.take(k as int)),
            decreases shown - k,
        {
            let c = &changes[k];
            assert(listed[k as int] == changes@[k as int]);
            assert(listed.take(k + 1).drop_last() =~= listed.take(k as int));
            push_str(&mut body, c.kind.tag());
            push_str(&mut body, " ");
            let p = c.display_path();
            push_str(&mut body, p.as_str());
            push_str(&mut body, "\n");
            k += 1;
        }
        assert(listed.take(shown as int) =~= listed);
        if changes.len() > 8 {
            push_str(&mut body, "...\n");
        } else {
            assert(body@ + Seq::<char>::empty() =~= body@);
        }
        self.pending_discard = keys;
        self.open_confirmation(PendingOperation::Discard(pending), title, body);
    }
}

// ---------------------------------------------------------------------------
// Dialogs that need the upstream
// ---------------------------------------------------------------------------

pub open spec fn text_or(o: Option<String>, default: Seq<char>) -> Seq<char> {
    match o {
        Some(s) => s@,
        None => default,
    }
}

pub open spec fn count_or_zero(o: Option<u32>) -> nat {
    match o {
        Some(n) => n as nat,
        None => 0,
    }
}

fn text_or_default(o: &Option<String>, default: &str) -> (r: String)
    ensures
        r@ == text_or(*o, default@),
{
    match o {
        Some(s) => s.clone(),
        None => copy_str(default),
    }
}

impl AppState {
    /// Asks to fast-forward the current branch, given its upstream (`None`
    /// when it has none) and the abbreviated names of `HEAD` and of the
    /// upstream's head, where Git could give them.
    pub fn confirm_update_current_branch(
        &mut self,
        upstream: Option<crate::git::explore::UpstreamBranch>,
        head: Option<String>,
        upstream_head: Option<String>,
    )
        ensures
            old(self).changes.len() > 0 ==> crate::session::status_only(
                *old(self),
                *final(self),
                "Update requires a clean working tree and index"@,
            ),
            old(self).changes.len() == 0 && upstream is None ==> crate::session::status_only(
                *old(self),
                *final(self),
                "Current branch has no upstream"@,
            ),
            upstream matches Some(u) ==> old(self).changes.len() == 0 ==> {
                &&& crate::session::confirm_opened(*old(self), *final(self))
                &&& final(self).pending_operation matches Some(PendingOperation::UpdateCurrentBranch)
                &&& final(self).confirm_title@ == "Fast-forward "@ + old(self).repo.branch@ + " from "@ + u.display@
                    + "?"@
                &&& final(self).confirm_body@ == "Current HEAD: "@ + text_or(head, "HEAD"@) + "\nKnown upstream HEAD: "@
                    + text_or(upstream_head, u.display@) + "\nKnown behind: "@ + crate::text::decimal(
                    count_or_zero(old(self).repo.behind),
                ) + "\n\ngack will fetch "@ + u.remote@
                    + " and re-check upstream before merging. It will only run a fast-forward merge and will not create a merge commit."@
            },
    {
        if self.changes.len() > 0 {
            self.status_message = copy_str("Update requires a clean working tree and index");
            return;
        }
        let u = match upstream {
            None => {
                self.status_message = copy_str("Current branch has no upstream");
                return;
            },
            Some(u) => u,
        };
        let head_text = text_or_default(&head, "HEAD");
        let upstream_text = text_or_default(&upstream_head, u.display.as_str());
        let behind: u32 = match self.repo.behind {
            Some(b) => b,
            None => 0,
        };
        let mut title = copy_str("Fast-forward ");
        push_str(&mut title, self.repo.branch.as_str());
        push_str(&mut title, " from ");
        push_str(&mut title, u.display.as_str());
        push_str(&mut title, "?");
        let mut body = copy_str("Current HEAD: ");
        push_str(&mut body, head_text.as_str());
        push_str(&mut body, "\nKnown upstream HEAD: ");
        push_str(&mut body, upstream_text.as_str());
        push_str(&mut body, "\nKnown behind: ");
        let n = crate::text::decimal_string(behind as u64);
        push_str(&mut body, n.as_str());
        push_str(&mut body, "\n\ngack will fetch ");
        push_str(&mut body, u.remote.as_str());
        push_str(
            &mut body,
            " and re-check upstream before merging. It will only run a fast-forward merge and will not create a merge commit.",
        );
        self.open_confirmation(PendingOperation::UpdateCurrentBranch, title, body);
    }

    /// Asks to push the current branch, given its upstream and the
    /// abbreviated name of `HEAD`, where Git could give them.
    pub fn confirm_push_current_branch(
        &mut self,
        upstream: Option<crate::git::explore::UpstreamBranch>,
        head: Option<String>,
    )
        ensures
            count_or_zero(old(self).repo.behind) > 0 ==> crate::session::status_only(
                *old(self),
                *final(self),
                "Push disabled: branch is behind upstream"@,
            ),
            count_or_zero(old(self).repo.behind) == 0 && upstream is None ==> crate::session::status_only(
                *old(self),
                *final(self),
                "Current branch has no upstream"@,
            ),
            upstream matches Some(u) ==> count_or_zero(old(self).repo.behind) == 0 ==> {
                &&& crate::session::confirm_opened(*old(self), *final(self))
                &&& final(self).pending_operation matches Some(PendingOperation::PushCurrentBranch)
                &&& final(self).confirm_title@ == "Push "@ + old(self).repo.branch@ + " to "@ + u.display@ + "?"@
                &&& final(self).confirm_body@ == "Source: "@ + old(self).repo.branch@ + " at "@ + text_or(head, "HEAD"@)
                    + "\nDestination: refs/heads/"@ + u.branch@ + "\nKnown ahead: "@ + crate::text::decimal(
                    count_or_zero(old(self).repo.ahead),
                ) + "\nForce: no\n\ngack re-checks the upstream ref before pushing and refuses if the remote is ahead."@
            },
    {
        let behind: u32 = match self.repo.behind {
            Some(b) => b,
            None => 0,
        };
        if behind > 0 {
            self.status_message = copy_str("Push disabled: branch is behind upstream");
            return;
        }
        let u = match upstream {
            None => {
                self.status_message = copy_str("Current branch has no upstream");
                return;
            },
            Some(u) => u,
        };
        let head_text = text_or_default(&head, "HEAD");
        let ahead: u32 = match self.repo.ahead {
            Some(a) => a,
            None => 0,
        };
        let mut title = copy_str("Push ");
        push_str(&mut title, self.repo.branch.as_str());
        push_str(&mut title, " to ");
        push_str(&mut title, u.display.as_str());
        push_str(&mut title, "?");
        let mut body = copy_str("Source: ");
        push_str(&mut body, self.repo.branch.as_str());
        push_str(&mut body, " at ");
        push_str(&mut body, head_text.as_str());
        push_str(&mut body, "\nDestination: refs/heads/");
        push_str(&mut body, u.branch.as_str());
        push_str(&mut body, "\nKnown ahead: ");
        let n = crate::text::decimal_string(ahead as u64);
        push_str(&mut body, n.as_str());
        push_str(
            &mut body,
            "\nForce: no\n\ngack re-checks the upstream ref before pushing and refuses if the remote is ahead.",
        );
        self.open_confirmation(PendingOperation::PushCurrentBranch, title, body);
    }

    /// Asks to start an interactive rebase onto the upstream (`None` when
    /// the branch has none).
    pub fn confirm_start_interactive_rebase(&mut self, upstream: Option<crate::git::explore::UpstreamBranch>)
        ensures
            old(self).changes.len() > 0 ==> crate::session::status_only(
                *old(self),
                *final(self),
                "Interactive rebase requires a clean working tree and index"@,
            ),
            old(self).changes.len() == 0 && upstream is None ==> crate::session::status_only(
                *old(self),
                *final(self),
                "Current branch has no upstream rebase base"@,
            ),
            upstream matches Some(u) ==> old(self).changes.len() == 0 ==> {
                &&& crate::session::confirm_opened(*old(self), *final(self))
                &&& final(self).pending_operation matches Some(PendingOperation::StartInteractiveRebase(b)) && b@
                    == u.display@
                &&& final(self).confirm_title@ == "Start interactive rebase after "@ + u.display@ + "?"@
                &&& final(self).confirm_body@
                    == "gack will leave the TUI, run git rebase -i in your terminal, then restore and refresh."@
            },
    {
        if self.changes.len() > 0 {
            self.status_message = copy_str("Interactive rebase requires a clean working tree and index");
            return;
        }
        let u = match upstream {
            None => {
                self.status_message = copy_str("Current branch has no upstream rebase base");
                return;
            },
            Some(u) => u,
        };
        let mut title = copy_str("Start interactive rebase after ");
        push_str(&mut title, u.display.as_str());
        push_str(&mut title, "?");
        let body = copy_str("gack will leave the TUI, run git rebase -i in your terminal, then restore and refresh.");
        self.open_confirmation(PendingOperation::StartInteractiveRebase(u.display), title, body);
    }
}

// ---------------------------------------------------------------------------
// After the terminal comes back
// ---------------------------------------------------------------------------

/// The refresh message after a handoff: as given on success, else with the
/// failure's detail.
pub open spec fn handoff_message(message: Seq<char>, success: bool, detail: Seq<char>) -> Seq<char> {
    if success {
        message
    } else {
        message + ": "@ + detail
    }
}

pub fn refresh_after_handoff(message: &str, success: bool, detail: &str) -> (r: String)
    ensures
        r@ == handoff_message(message@, success, detail@),
{
    let mut m = copy_str(message);
    if !success {
        push_str(&mut m, ": ");
        push_str(&mut m, detail);
    }
    m
}

/// The refresh message after a commit.
pub fn committed_message(hash: &str) -> (r: String)
    ensures
        r@ == "Committed "@ + hash@,
{
    let mut m = copy_str("Committed ");
    push_str(&mut m, hash);
    m
}

impl AppState {
    /// Takes back the commit draft the external editor left: the text of
    /// the draft file (or why it could not be read) when the editor
    /// succeeded.
    pub fn load_commit_draft(&mut self, success: bool, detail: &str, text: Result<String, String>)
        ensures
            final(self).modal == Modal::Commit,
            !success ==> final(self).status_message@ == "Editor did not update commit draft: "@ + detail@
                && *final(self) == (AppState { status_message: final(self).status_message, modal: Modal::Commit, ..*old(self) }),
            success ==> (text matches Err(e) ==> final(self).status_message@ == "Could not read edited commit draft: "@
                + e@ && *final(self) == (AppState { status_message: final(self).status_message, modal: Modal::Commit, ..*old(self) })),
            success ==> (text matches Ok(t) ==> final(self).commit_summary@ == crate::editor::commit_message_parts(t@).0
                && final(self).commit_body@ == crate::editor::commit_message_parts(t@).1
                && final(self).status_message@ == "Loaded commit draft from external editor"@
                && *final(self) == (AppState {
                commit_summary: final(self).commit_summary,
                commit_body: final(self).commit_body,
                commit_body_focus: false,
                modal: Modal::Commit,
                status_message: final(self).status_message,
                ..*old(self)
            })),
    {
        if !success {
            let mut m = copy_str("Editor did not update commit draft: ");
            push_str(&mut m, detail);
            self.status_message = m;
            self.modal = Modal::Commit;
            return;
        }
        match text {
            Ok(t) => {
                let (summary, body) = crate::editor::split_commit_message(t.as_str());
                self.commit_summary = summary;
                self.commit_body = body;
                self.commit_body_focus = false;
                self.modal = Modal::Commit;
                self.status_message = copy_str("Loaded commit draft from external editor");
            },
            Err(e) => {
                let mut m = copy_str("Could not read edited commit draft: ");
                push_str(&mut m, e.as_str());
                self.status_message = m;
                self.modal = Modal::Commit;
            },
        }
    }

    /// Records how `git commit` ended; returns whether the caller refreshes
    /// (with `committed_message`).
    pub fn commit_finished(&mut self, success: bool, detail: &str) -> (refresh: bool)
        ensures
            refresh == success,
            success ==> *final(self) == (AppState { modal: Modal::Closed, ..*old(self) }),
            !success ==> final(self).status_message@ == "Could not commit: "@ + detail@ && *final(self) == (AppState {
                modal: Modal::Commit,
                status_message: final(self).status_message,
                ..*old(self)
            }),
    {
        if success {
            self.modal = Modal::Closed;
            true
        } else {
            self.modal = Modal::Commit;
            let mut m = copy_str("Could not commit: ");
            push_str(&mut m, detail);
            self.status_message = m;
            false
        }
    }

    /// Queues `git -C root commit --file <message file>` in the terminal.
    pub fn start_commit(&mut self, root: &[u8], message_file: &[u8])
        ensures
            final(self).status_message@ == "Starting git commit"@,
            final(self).pending_handoff matches Some(h) && h.cwd@ == root@ && h.command@ == encode_utf8("git"@)
                && args_view(h.args@) == in_repo_args(
                root@,
                seq![encode_utf8("commit"@), encode_utf8("--file"@), message_file@],
            ) && h.label@ == "git commit"@ && (h.after matches TerminalHandoffAfter::Commit(p) && p@ == message_file@),
            *final(self) == (AppState {
                pending_handoff: final(self).pending_handoff,
                status_message: final(self).status_message,
                ..*old(self)
            }),
    {
        let mut args: Vec<Vec<u8>> = Vec::new();
        args.push(text_bytes("commit"));
        args.push(text_bytes("--file"));
        args.push(crate::text::bytes_range(message_file, 0, message_file.len()));
        assert(message_file@.subrange(0, message_file@.len() as int) =~= message_file@);
        assert(args_view(args@) =~= seq![encode_utf8("commit"@), encode_utf8("--file"@), message_file@]);
        let h = git_handoff(root, "git commit", &args, "");
        let h = TerminalHandoff {
            cwd: h.cwd,
            command: h.command,
            args: h.args,
            label: h.label,
            after: TerminalHandoffAfter::Commit(crate::text::bytes_range(message_file, 0, message_file.len())),
        };
        self.pending_handoff = Some(h);
        self.status_message = copy_str("Starting git commit");
    }

    /// Queues the external editor (`editor`: the program and its arguments,
    /// `None` when none is configured) on `target`.
    pub fn queue_external_editor(
        &mut self,
        root: &[u8],
        label: &str,
        editor: Option<(Vec<u8>, Vec<Vec<u8>>)>,
        target: Vec<u8>,
        after: TerminalHandoffAfter,
    )
        ensures
            editor is None ==> crate::session::status_only(
                *old(self),
                *final(self),
                "Set GIT_EDITOR, VISUAL, or EDITOR to use an external editor"@,
            ),
            editor matches Some(e) ==> final(self).status_message@ == "Starting "@ + label@
                && (final(self).pending_handoff matches Some(h) && h.cwd@ == root@ && h.command@ == e.0@
                && args_view(h.args@) == args_view(e.1@).push(target@) && h.label@ == label@ && h.after == after)
                && *final(self) == (AppState {
                pending_handoff: final(self).pending_handoff,
                status_message: final(self).status_message,
                ..*old(self)
            }),
    {
        let (command, mut args) = match editor {
            None => {
                self.status_message = copy_str("Set GIT_EDITOR, VISUAL, or EDITOR to use an external editor");
                return;
            },
            Some(e) => e,
        };
        let ghost before = args_view(args@);
        let ghost t = target@;
        args.push(target);
        assert(args_view(args@) =~= before.push(t));
        assert(root@.subrange(0, root@.len() as int) =~= root@);
        self.pending_handoff = Some(
            TerminalHandoff {
                cwd: crate::text::bytes_range(root, 0, root.len()),
                command,
                args,
                label: copy_str(label),
                after,
            },
        );
        let mut m = copy_str("Starting ");
        push_str(&mut m, label);
        self.status_message = m;
    }
}

} // verus!
