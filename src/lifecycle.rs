//! The branch lifecycle: the decisions of the transient-branch protocol.
//!
//! The caller performs each step against the repository and the review
//! backend and reports whether it succeeded; the functions here say what comes
//! next and which record is to be written. A failed step ends the protocol;
//! completed steps are not undone, so running it again resumes from a known
//! state.

use vstd::prelude::*;
use vstd::string::*;

use crate::classify::CommitInfo;
use crate::metadata::{CommitMetadata, IncrementalCommitType};
use crate::text::{chars_of, string_from_chars};

verus! {

/// An error of the lifecycle, with the collaborator's message.
#[derive(Debug)]
pub enum LifecycleError {
    /// The version-control store refused an operation.
    Storage(String),
}

/// What creating a local branch came to.
#[derive(Debug)]
pub enum BranchCreation {
    Created,
    AlreadyExists,
    Failed(String),
}

/// Local-only mode: after trying to create the branch of a new commit, the
/// record to write, if any. A branch that already exists counts as created; a
/// record is written only when the commit has none yet; any other failure is
/// returned.
pub fn after_local_branch(outcome: BranchCreation, commit: &CommitInfo, has_record: bool) -> (r:
    Result<Option<CommitMetadata>, LifecycleError>)
    ensures
        match outcome {
            BranchCreation::Failed(m) => r matches Err(LifecycleError::Storage(e)) && e@ == m@,
            _ => match r {
                Ok(None) => has_record,
                Ok(Some(rec)) => {
                    &&& !has_record
                    &&& rec@.pr_branch_name == commit@.potential_branch_name
                    &&& rec@.original_commit_id == commit@.id
                    &&& rec@.github_pr_number is None
                    &&& rec@.status == crate::metadata::PRStatus::BranchCreated
                    &&& rec@.incremental_commits.len() == 0
                },
                Err(_) => false,
            },
        },
{
    match outcome {
        BranchCreation::Failed(m) => Err(LifecycleError::Storage(m)),
        _ => {
            if has_record {
                Ok(None)
            } else {
                Ok(
                    Some(
                        CommitMetadata::new_branch_created(
                            commit.potential_branch_name.clone(),
                            commit.id.clone(),
                        ),
                    ),
                )
            }
        },
    }
}

/// The steps of creating a pull request for a new commit, in order.
#[derive(Clone, Copy, Debug, PartialEq, Eq, Structural)]
pub enum CreateStep {
    CreateBranch,
    PushBranch,
    StoreRecord,
    ResolveBase,
    OpenPullRequest,
    StorePrNumber,
    DeleteLocalBranch,
    Done,
    Aborted,
}

pub open spec fn create_successor(s: CreateStep) -> CreateStep {
    match s {
        CreateStep::CreateBranch => CreateStep::PushBranch,
        CreateStep::PushBranch => CreateStep::StoreRecord,
        CreateStep::StoreRecord => CreateStep::ResolveBase,
        CreateStep::ResolveBase => CreateStep::OpenPullRequest,
        CreateStep::OpenPullRequest => CreateStep::StorePrNumber,
        CreateStep::StorePrNumber => CreateStep::DeleteLocalBranch,
        CreateStep::DeleteLocalBranch => CreateStep::Done,
        CreateStep::Done => CreateStep::Done,
        CreateStep::Aborted => CreateStep::Aborted,
    }
}

/// Position of a step in the protocol.
pub open spec fn create_rank(s: CreateStep) -> nat {
    match s {
        CreateStep::CreateBranch => 0,
        CreateStep::PushBranch => 1,
        CreateStep::StoreRecord => 2,
        CreateStep::ResolveBase => 3,
        CreateStep::OpenPullRequest => 4,
        CreateStep::StorePrNumber => 5,
        CreateStep::DeleteLocalBranch => 6,
        CreateStep::Done => 7,
        CreateStep::Aborted => 7,
    }
}

/// The step after `step`, given whether it succeeded: the next in order, or
/// `Aborted` when it failed. `Done` and `Aborted` are final.
pub fn next_create_step(step: CreateStep, succeeded: bool) -> (r: CreateStep)
    ensures
        step is Done ==> r is Done,
        step is Aborted ==> r is Aborted,
        !(step is Done || step is Aborted) ==> r == if succeeded {
            create_successor(step)
        } else {
            CreateStep::Aborted
        },
{
    match step {
        CreateStep::Done => CreateStep::Done,
        CreateStep::Aborted => CreateStep::Aborted,
        _ => if !succeeded {
            CreateStep::Aborted
        } else {
            match step {
                CreateStep::CreateBranch => CreateStep::PushBranch,
                CreateStep::PushBranch => CreateStep::StoreRecord,
                CreateStep::StoreRecord => CreateStep::ResolveBase,
                CreateStep::ResolveBase => CreateStep::OpenPullRequest,
                CreateStep::OpenPullRequest => CreateStep::StorePrNumber,
                CreateStep::StorePrNumber => CreateStep::DeleteLocalBranch,
                _ => CreateStep::Done,
            }
        },
    }
}

/// The record is stored before the pull request is opened, and the local
/// branch is deleted only after the pull request number is stored.
pub proof fn lemma_create_order()
    ensures
        create_rank(CreateStep::StoreRecord) < create_rank(CreateStep::OpenPullRequest),
        create_rank(CreateStep::StorePrNumber) < create_rank(CreateStep::DeleteLocalBranch),
        forall|s: CreateStep|
            !(s is Done || s is Aborted) ==> create_rank(#[trigger] create_successor(s))
                == create_rank(s) + 1,
{
}

/// The steps of bringing an incremental update to an open pull request.
#[derive(Clone, Copy, Debug, PartialEq, Eq, Structural)]
pub enum UpdateStep {
    CreateBranch,
    CommitUpdate,
    PushBranch,
    StoreRecord,
    UpdatePullRequest,
    DeleteLocalBranch,
    Done,
    Aborted,
    Skipped,
}

pub open spec fn update_successor(s: UpdateStep) -> UpdateStep {
    match s {
        UpdateStep::CreateBranch => UpdateStep::CommitUpdate,
        UpdateStep::CommitUpdate => UpdateStep::PushBranch,
        UpdateStep::PushBranch => UpdateStep::StoreRecord,
        UpdateStep::StoreRecord => UpdateStep::UpdatePullRequest,
        UpdateStep::UpdatePullRequest => UpdateStep::DeleteLocalBranch,
        UpdateStep::DeleteLocalBranch => UpdateStep::Done,
        other => other,
    }
}

/// The first step of a remote incremental update: `Skipped` when the record
/// has no pull request number (nothing to update), else creating the branch.
pub fn first_update_step(record: &CommitMetadata) -> (r: UpdateStep)
    ensures
        r == if record@.github_pr_number is None {
            UpdateStep::Skipped
        } else {
            UpdateStep::CreateBranch
        },
{
    if record.github_pr_number.is_none() {
        UpdateStep::Skipped
    } else {
        UpdateStep::CreateBranch
    }
}

/// The step after `step`, given whether it succeeded: the next in order, or
/// `Aborted` when it failed. `Done`, `Aborted` and `Skipped` are final.
pub fn next_update_step(step: UpdateStep, succeeded: bool) -> (r: UpdateStep)
    ensures
        (step is Done || step is Aborted || step is Skipped) ==> r == step,
        !(step is Done || step is Aborted || step is Skipped) ==> r == if succeeded {
            update_successor(step)
        } else {
            UpdateStep::Aborted
        },
{
    match step {
        UpdateStep::Done => UpdateStep::Done,
        UpdateStep::Aborted => UpdateStep::Aborted,
        UpdateStep::Skipped => UpdateStep::Skipped,
        _ => if !succeeded {
            UpdateStep::Aborted
        } else {
            match step {
                UpdateStep::CreateBranch => UpdateStep::CommitUpdate,
                UpdateStep::CommitUpdate => UpdateStep::PushBranch,
                UpdateStep::PushBranch => UpdateStep::StoreRecord,
                UpdateStep::StoreRecord => UpdateStep::UpdatePullRequest,
                UpdateStep::UpdatePullRequest => UpdateStep::DeleteLocalBranch,
                _ => UpdateStep::Done,
            }
        },
    }
}

/// The first line of a text as `str::lines` gives it: `None` for an empty
/// text, else the characters before the first line break, without the
/// carriage return of a `\r\n` break.
pub open spec fn first_text_line(m: Seq<char>) -> Option<Seq<char>> {
    if m.len() == 0 {
        None
    } else {
        let l = crate::branch_naming::first_line(m);
        Some(
            if l.len() < m.len() && l.len() > 0 && l.last() == '\r' {
                l.drop_last()
            } else {
                l
            },
        )
    }
}

/// The first line of `m` as `str::lines` gives it.
pub fn first_line_of(m: &str) -> (r: Option<Vec<char>>)
    ensures
        match r {
            Some(l) => first_text_line(m@) == Some(l@),
            None => first_text_line(m@) is None,
        },
{
    let n = m.unicode_len();
    if n == 0 {
        return None;
    }
    let all = chars_of(m);
    let mut line: Vec<char> = Vec::new();
    let mut i: usize = 0;
    while i < n && all[i] != '\n'
        invariant
            n == m@.len(),
            all@ == m@,
            i <= n,
            line@ == m@.subrange(0, i as int),
            forall|k: int| 0 <= k < i ==> m@[k] != '\n',
        decreases n - i,
    {
        line.push(all[i]);
        i = i + 1;
        assert(line@ =~= m@.subrange(0, i as int));
    }
    proof {
        crate::branch_naming::lemma_first_line_at(m@, i as int);
    }
    let len = line.len();
    if i < n && len > 0 && line[len - 1] == '\r' {
        line.pop();
        proof {
            assert(line@ =~= m@.subrange(0, i as int).drop_last());
        }
    }
    Some(line)
}

/// Title used for a pull request whose commit message is empty.
pub open spec fn untitled_commit() -> Seq<char> {
    seq!['U', 'n', 't', 'i', 't', 'l', 'e', 'd', ' ', 'c', 'o', 'm', 'm', 'i', 't']
}

/// The title of a new pull request: the first line of the commit message, or
/// `Untitled commit` for an empty message.
pub fn pr_title(message: &str) -> (r: String)
    ensures
        r@ == match first_text_line(message@) {
            Some(l) => l,
            None => untitled_commit(),
        },
{
    match first_line_of(message) {
        Some(l) => string_from_chars(&l),
        None => {
            let t = String::from_str("Untitled commit");
            proof {
                reveal_strlit("Untitled commit");
                assert(t@ =~= untitled_commit());
            }
            t
        },
    }
}

/// The message of the commit that carries an incremental update.
pub open spec fn incremental_message_of(updated_message: Seq<char>, original_id: Seq<char>) -> Seq<
    char,
> {
    "Incremental update to: "@ + match first_text_line(updated_message) {
        Some(l) => l,
        None => Seq::empty(),
    } + "\n\nUpdated from commit "@ + original_id.take(8)
}

/// The message of the commit that carries an incremental update: the first
/// line of the updated commit's message and the short (eight-character) form
/// of the identity the record is attached to.
pub fn incremental_commit_message(updated_message: &str, original_id: &str) -> (r: String)
    requires
        original_id@.len() >= 8,
    ensures
        r@ == incremental_message_of(updated_message@, original_id@),
{
    let mut r = String::from_str("Incremental update to: ");
    match first_line_of(updated_message) {
        Some(l) => {
            let line = string_from_chars(&l);
            r.append(line.as_str());
        },
        None => {},
    }
    r.append("\n\nUpdated from commit ");
    r.append(original_id.substring_char(0, 8));
    proof {
        reveal_strlit("Incremental update to: ");
        reveal_strlit("\n\nUpdated from commit ");
        assert(r@ =~= incremental_message_of(updated_message@, original_id@));
    }
    r
}

/// The record after an incremental update from `updated_id`: the update is
/// appended last, as an amendment.
pub fn record_after_update(record: CommitMetadata, updated_id: &str, updated_message: &str) -> (r:
    CommitMetadata)
    ensures
        r@.pr_branch_name == record@.pr_branch_name,
        r@.original_commit_id == record@.original_commit_id,
        r@.github_pr_number == record@.github_pr_number,
        r@.status == record@.status,
        r@.incremental_commits.drop_last() == record@.incremental_commits,
        r@.incremental_commits.last().commit_id == updated_id@,
        r@.incremental_commits.last().message == updated_message@,
        r@.incremental_commits.last().commit_type == IncrementalCommitType::AmendedCommit,
        r@.is_current_for(updated_id@),
{
    let r = record.add_incremental_commit(
        String::from_str(updated_id),
        String::from_str(updated_message),
        IncrementalCommitType::AmendedCommit,
    );
    assert(r@.incremental_commits.drop_last() =~= record@.incremental_commits);
    r
}

} // verus!
