//! The tracking record kept for each tracked commit, and its transitions.
//!
//! A record is an immutable value: every transition consumes the old record
//! and returns the new one, which the store then writes in place of the old.

use vstd::prelude::*;
use vstd::string::*;

use crate::text::same_text;

verus! {

/// A point in time: whole seconds since the Unix epoch (UTC) and the
/// nanoseconds within that second.
#[derive(Clone, Copy, Debug, PartialEq, Eq, Structural)]
pub struct Timestamp {
    pub seconds: i64,
    pub nanos: u32,
}

/// Relies on `chrono::Utc::now` and on `DateTime::timestamp` and
/// `DateTime::timestamp_subsec_nanos` to read the current time; nothing is
/// promised of the value.
#[verifier::external_body]
pub(crate) fn current_time() -> (r: Timestamp) {
    let now = chrono::Utc::now();
    Timestamp { seconds: now.timestamp(), nanos: now.timestamp_subsec_nanos() }
}

/// How an incremental update came about.
#[derive(Clone, Copy, Debug, PartialEq, Eq, Structural)]
pub enum IncrementalCommitType {
    /// The tracked commit was rewritten in place (amended).
    AmendedCommit,
    /// A further commit was added to the same change.
    AdditionalCommit,
}

/// Where a tracked commit stands in its lifecycle.
#[derive(Clone, Copy, Debug, PartialEq, Eq, Structural)]
pub enum PRStatus {
    BranchCreated,
    PRCreated,
    PRMerged,
    Cancelled,
}

impl PRStatus {
    /// `PRMerged` and `Cancelled` are final.
    pub open spec fn is_terminal(self) -> bool {
        self is PRMerged || self is Cancelled
    }

    /// Whether a record may move from `self` to `next`: forward along
    /// BranchCreated, PRCreated, PRMerged, or to Cancelled from a state that is
    /// not final.
    pub open spec fn may_advance_to(self, next: PRStatus) -> bool {
        match (self, next) {
            (PRStatus::BranchCreated, PRStatus::PRCreated) => true,
            (PRStatus::PRCreated, PRStatus::PRMerged) => true,
            (PRStatus::BranchCreated, PRStatus::Cancelled) => true,
            (PRStatus::PRCreated, PRStatus::Cancelled) => true,
            _ => false,
        }
    }
}

/// One follow-up change appended to a tracked pull request.
#[derive(Debug)]
pub struct IncrementalCommit {
    pub commit_id: String,
    pub message: String,
    pub commit_type: IncrementalCommitType,
    pub created_at: Timestamp,
}

pub ghost struct IncrementalCommitView {
    pub commit_id: Seq<char>,
    pub message: Seq<char>,
    pub commit_type: IncrementalCommitType,
    pub created_at: Timestamp,
}

impl View for IncrementalCommit {
    type V = IncrementalCommitView;

    open spec fn view(&self) -> IncrementalCommitView {
        IncrementalCommitView {
            commit_id: self.commit_id@,
            message: self.message@,
            commit_type: self.commit_type,
            created_at: self.created_at,
        }
    }
}

impl IncrementalCommit {
    /// A copy with the same contents.
    pub fn duplicate(&self) -> (r: IncrementalCommit)
        ensures
            r@ == self@,
    {
        IncrementalCommit {
            commit_id: self.commit_id.clone(),
            message: self.message.clone(),
            commit_type: self.commit_type,
            created_at: self.created_at,
        }
    }
}

/// The tracking record of one commit lineage.
#[derive(Debug)]
pub struct CommitMetadata {
    pub pr_branch_name: String,
    pub github_pr_number: Option<u64>,
    pub status: PRStatus,
    pub created_at: Timestamp,
    pub last_updated: Timestamp,
    pub original_commit_id: String,
    pub incremental_commits: Vec<IncrementalCommit>,
}

pub ghost struct CommitMetadataView {
    pub pr_branch_name: Seq<char>,
    pub github_pr_number: Option<u64>,
    pub status: PRStatus,
    pub created_at: Timestamp,
    pub last_updated: Timestamp,
    pub original_commit_id: Seq<char>,
    pub incremental_commits: Seq<IncrementalCommitView>,
}

impl View for CommitMetadata {
    type V = CommitMetadataView;

    open spec fn view(&self) -> CommitMetadataView {
        CommitMetadataView {
            pr_branch_name: self.pr_branch_name@,
            github_pr_number: self.github_pr_number,
            status: self.status,
            created_at: self.created_at,
            last_updated: self.last_updated,
            original_commit_id: self.original_commit_id@,
            incremental_commits: self.incremental_commits@.map_values(
                |c: IncrementalCommit| c@,
            ),
        }
    }
}

impl CommitMetadataView {
    /// The record is up to date with `commit_id`: it was created against it, or
    /// its latest incremental update recorded it.
    pub open spec fn is_current_for(self, commit_id: Seq<char>) -> bool {
        self.original_commit_id == commit_id || (self.incremental_commits.len() > 0
            && self.incremental_commits.last().commit_id == commit_id)
    }
}

/// Clones a vector of incremental updates entry by entry.
fn duplicate_updates(v: &Vec<IncrementalCommit>) -> (r: Vec<IncrementalCommit>)
    ensures
        r@.map_values(|c: IncrementalCommit| c@) == v@.map_values(|c: IncrementalCommit| c@),
{
    let mut out: Vec<IncrementalCommit> = Vec::new();
    let mut i: usize = 0;
    while i < v.len()
        invariant
            i <= v@.len(),
            out@.len() == i,
            forall|k: int| 0 <= k < i ==> (#[trigger] out@[k])@ == v@[k]@,
        decreases v@.len() - i,
    {
        out.push(v[i].duplicate());
        i = i + 1;
    }
    assert(out@.map_values(|c: IncrementalCommit| c@) =~= v@.map_values(|c: IncrementalCommit| c@));
    out
}

impl CommitMetadata {
    /// A copy with the same contents.
    pub fn duplicate(&self) -> (r: CommitMetadata)
        ensures
            r@ == self@,
    {
        CommitMetadata {
            pr_branch_name: self.pr_branch_name.clone(),
            github_pr_number: self.github_pr_number,
            status: self.status,
            created_at: self.created_at,
            last_updated: self.last_updated,
            original_commit_id: self.original_commit_id.clone(),
            incremental_commits: duplicate_updates(&self.incremental_commits),
        }
    }

    /// A fresh record for a branch just created at `original_commit_id`,
    /// stamped with the given time.
    pub fn branch_created_at(pr_branch_name: String, original_commit_id: String, now: Timestamp) -> (r:
        CommitMetadata)
        ensures
            r@.pr_branch_name == pr_branch_name@,
            r@.original_commit_id == original_commit_id@,
            r@.github_pr_number is None,
            r@.status == PRStatus::BranchCreated,
            r@.incremental_commits.len() == 0,
            r@.created_at == now,
            r@.last_updated == now,
    {
        let r = CommitMetadata {
            pr_branch_name,
            github_pr_number: None,
            status: PRStatus::BranchCreated,
            created_at: now,
            last_updated: now,
            original_commit_id,
            incremental_commits: Vec::new(),
        };
        assert(r@.incremental_commits =~= Seq::<IncrementalCommitView>::empty());
        r
    }

    /// A fresh record for a branch just created at `original_commit_id`,
    /// stamped with the current time.
    pub fn new_branch_created(pr_branch_name: String, original_commit_id: String) -> (r:
        CommitMetadata)
        ensures
            r@.pr_branch_name == pr_branch_name@,
            r@.original_commit_id == original_commit_id@,
            r@.github_pr_number is None,
            r@.status == PRStatus::BranchCreated,
            r@.incremental_commits.len() == 0,
            r@.created_at == r@.last_updated,
    {
        let now = current_time();
        Self::branch_created_at(pr_branch_name, original_commit_id, now)
    }

    /// The record once its pull request `pr_number` exists: the number is set
    /// and the status becomes `PRCreated`; all else but the update time stays.
    pub fn with_pr_number(self, pr_number: u64) -> (r: CommitMetadata)
        ensures
            r@ == (CommitMetadataView {
                github_pr_number: Some(pr_number),
                status: PRStatus::PRCreated,
                last_updated: r@.last_updated,
                ..self@
            }),
    {
        let now = current_time();
        CommitMetadata {
            github_pr_number: Some(pr_number),
            status: PRStatus::PRCreated,
            last_updated: now,
            ..self
        }
    }

    /// The record with one more incremental update appended last; the update
    /// and the record carry the same new time.
    pub fn add_incremental_commit(
        self,
        commit_id: String,
        message: String,
        commit_type: IncrementalCommitType,
    ) -> (r: CommitMetadata)
        ensures
            r@ == (CommitMetadataView {
                incremental_commits: self@.incremental_commits.push(
                    IncrementalCommitView {
                        commit_id: commit_id@,
                        message: message@,
                        commit_type,
                        created_at: r@.last_updated,
                    },
                ),
                last_updated: r@.last_updated,
                ..self@
            }),
    {
        let now = current_time();
        let update = IncrementalCommit { commit_id, message, commit_type, created_at: now };
        let mut updates = self.incremental_commits;
        let ghost before = updates@;
        updates.push(update);
        let r = CommitMetadata { incremental_commits: updates, last_updated: now, ..self };
        proof {
            assert(updates@ == before.push(update));
            assert(r@.incremental_commits =~= self@.incremental_commits.push(update@));
        }
        r
    }

    /// The record marked merged; all else but the update time stays.
    pub fn mark_merged(self) -> (r: CommitMetadata)
        ensures
            r@ == (CommitMetadataView {
                status: PRStatus::PRMerged,
                last_updated: r@.last_updated,
                ..self@
            }),
    {
        let now = current_time();
        CommitMetadata { status: PRStatus::PRMerged, last_updated: now, ..self }
    }

    /// Whether `current_commit_id` differs from the commit the record was
    /// created against.
    pub fn is_commit_changed(&self, current_commit_id: &str) -> (r: bool)
        ensures
            r == (self@.original_commit_id != current_commit_id@),
    {
        !same_text(self.original_commit_id.as_str(), current_commit_id)
    }

    /// Whether the record is up to date with `commit_id`: it was created
    /// against it, or its latest incremental update recorded it.
    pub fn is_current_for(&self, commit_id: &str) -> (r: bool)
        ensures
            r == self@.is_current_for(commit_id@),
    {
        if same_text(self.original_commit_id.as_str(), commit_id) {
            return true;
        }
        let n = self.incremental_commits.len();
        if n == 0 {
            return false;
        }
        same_text(self.incremental_commits[n - 1].commit_id.as_str(), commit_id)
    }
}

} // verus!
