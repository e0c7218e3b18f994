//! The land reconciler: finds tracked pull requests that were merged, decides
//! what to clean up, and counts how the cleanup went.
//!
//! The caller queries the backend, performs each cleanup and reports the
//! outcome; one pull request's failure does not stop the others.

use vstd::prelude::*;
use vstd::string::*;

use crate::classify::{stored_view, StoredRecord, StoredRecordView};
use crate::gateway::{GitHubPRStatus, PRStatusView};
use crate::text::same_text;

verus! {

/// Why landing cannot start.
#[derive(Debug, PartialEq, Eq, Structural)]
pub enum LandError {
    /// No credentials for the review backend: landing needs it.
    MissingCredentials,
}

/// Landing needs the review backend, so it fails without credentials.
pub fn require_credentials(token_present: bool) -> (r: Result<(), LandError>)
    ensures
        r is Ok <==> token_present,
        r matches Err(e) ==> e == LandError::MissingCredentials,
{
    if token_present {
        Ok(())
    } else {
        Err(LandError::MissingCredentials)
    }
}

/// The pull request numbers of the records that have one, in order.
pub open spec fn numbers_of(t: Seq<StoredRecordView>) -> Seq<u64>
    decreases t.len(),
{
    if t.len() == 0 {
        Seq::empty()
    } else {
        let p = numbers_of(t.drop_last());
        match t.last().metadata.github_pr_number {
            Some(n) => p.push(n),
            None => p,
        }
    }
}

/// The pull request numbers to ask the backend about.
pub fn prs_to_check(records: &Vec<StoredRecord>) -> (r: Vec<u64>)
    ensures
        r@ == numbers_of(stored_view(records@)),
{
    let ghost t = stored_view(records@);
    let mut out: Vec<u64> = Vec::new();
    let mut i: usize = 0;
    while i < records.len()
        invariant
            t == stored_view(records@),
            i <= records@.len(),
            out@ == numbers_of(t.take(i as int)),
        decreases records@.len() - i,
    {
        proof {
            assert(t.take(i as int + 1).drop_last() =~= t.take(i as int));
            assert(t.take(i as int + 1).last() == records@[i as int]@);
        }
        if let Some(n) = records[i].metadata.github_pr_number {
            out.push(n);
        }
        i = i + 1;
    }
    assert(t.take(records@.len() as int) =~= t);
    out
}

/// A merged pull request and the record that tracks it.
#[derive(Debug)]
pub struct MergedPr {
    pub commit_id: String,
    pub branch_name: String,
    pub pr_number: u64,
    pub title: String,
}

pub ghost struct MergedPrView {
    pub commit_id: Seq<char>,
    pub branch_name: Seq<char>,
    pub pr_number: u64,
    pub title: Seq<char>,
}

impl View for MergedPr {
    type V = MergedPrView;

    open spec fn view(&self) -> MergedPrView {
        MergedPrView {
            commit_id: self.commit_id@,
            branch_name: self.branch_name@,
            pr_number: self.pr_number,
            title: self.title@,
        }
    }
}

pub open spec fn merged_view(m: Seq<MergedPr>) -> Seq<MergedPrView> {
    m.map_values(|x: MergedPr| x@)
}

/// Index of the first record whose pull request is `n`.
pub open spec fn first_with_number(t: Seq<StoredRecordView>, n: u64) -> Option<int>
    decreases t.len(),
{
    if t.len() == 0 {
        None
    } else {
        match first_with_number(t.drop_last(), n) {
            Some(i) => Some(i),
            None => if t.last().metadata.github_pr_number == Some(n) {
                Some(t.len() - 1)
            } else {
                None
            },
        }
    }
}

pub open spec fn merged_state() -> Seq<char> {
    seq!['m', 'e', 'r', 'g', 'e', 'd']
}

/// The merged pull requests among the reported statuses, in the order
/// reported, each with the record that tracks it.
pub open spec fn merged_of(t: Seq<StoredRecordView>, s: Seq<PRStatusView>) -> Seq<MergedPrView>
    decreases s.len(),
{
    if s.len() == 0 {
        Seq::empty()
    } else {
        let p = merged_of(t, s.drop_last());
        let st = s.last();
        if st.state == merged_state() {
            match first_with_number(t, st.number) {
                Some(k) => p.push(
                    MergedPrView {
                        commit_id: t[k].commit_id,
                        branch_name: t[k].metadata.pr_branch_name,
                        pr_number: st.number,
                        title: st.title,
                    },
                ),
                None => p,
            }
        } else {
            p
        }
    }
}

proof fn lemma_first_with_number_bounds(t: Seq<StoredRecordView>, n: u64)
    ensures
        match first_with_number(t, n) {
            Some(k) => 0 <= k < t.len() && t[k].metadata.github_pr_number == Some(n),
            None => true,
        },
    decreases t.len(),
{
    if t.len() > 0 {
        lemma_first_with_number_bounds(t.drop_last(), n);
    }
}

proof fn lemma_first_with_number_prefix(t: Seq<StoredRecordView>, n: u64, i: int)
    requires
        0 <= i < t.len(),
        first_with_number(t.subrange(0, i), n) is None,
        first_with_number(t.subrange(0, i + 1), n) == Some(i),
    ensures
        first_with_number(t, n) == Some(i),
    decreases t.len(),
{
    if t.len() == i + 1 {
        assert(t.subrange(0, i + 1) =~= t);
    } else {
        assert(t.drop_last().subrange(0, i) =~= t.subrange(0, i));
        assert(t.drop_last().subrange(0, i + 1) =~= t.subrange(0, i + 1));
        lemma_first_with_number_prefix(t.drop_last(), n, i);
    }
}

fn find_by_number(records: &Vec<StoredRecord>, n: u64) -> (r: Option<usize>)
    ensures
        match r {
            Some(i) => first_with_number(stored_view(records@), n) == Some(i as int),
            None => first_with_number(stored_view(records@), n) is None,
        },
{
    let ghost t = stored_view(records@);
    let mut i: usize = 0;
    while i < records.len()
        invariant
            t == stored_view(records@),
            i <= records@.len(),
            first_with_number(t.subrange(0, i as int), n) is None,
        decreases records@.len() - i,
    {
        proof {
            assert(t.subrange(0, i as int + 1).drop_last() =~= t.subrange(0, i as int));
            assert(t.subrange(0, i as int + 1).last() == records@[i as int]@);
        }
        if records[i].metadata.github_pr_number == Some(n) {
            proof {
                lemma_first_with_number_prefix(t, n, i as int);
            }
            return Some(i);
        }
        i = i + 1;
    }
    assert(t.subrange(0, i as int) =~= t);
    None
}

/// The merged pull requests among `statuses` that a record tracks.
pub fn select_merged(records: &Vec<StoredRecord>, statuses: &Vec<GitHubPRStatus>) -> (r: Vec<
    MergedPr,
>)
    ensures
        merged_view(r@) == merged_of(
            stored_view(records@),
            statuses@.map_values(|s: GitHubPRStatus| s@),
        ),
{
    let ghost s = statuses@.map_values(|x: GitHubPRStatus| x@);
    let ghost t = stored_view(records@);
    let mut out: Vec<MergedPr> = Vec::new();
    let mut i: usize = 0;
    while i < statuses.len()
        invariant
            s == statuses@.map_values(|x: GitHubPRStatus| x@),
            t == stored_view(records@),
            i <= statuses@.len(),
            merged_view(out@) == merged_of(t, s.take(i as int)),
        decreases statuses@.len() - i,
    {
        proof {
            assert(s.take(i as int + 1).drop_last() =~= s.take(i as int));
            assert(s.take(i as int + 1).last() == statuses@[i as int]@);
            reveal_strlit("merged");
            assert("merged"@ =~= merged_state());
        }
        let st = &statuses[i];
        if same_text(st.state.as_str(), "merged") {
            if let Some(k) = find_by_number(records, st.number) {
                proof {
                    lemma_first_with_number_bounds(t, st.number);
                    assert(t[k as int] == records@[k as int]@);
                }
                let rec = &records[k];
                let m = MergedPr {
                    commit_id: rec.commit_id.clone(),
                    branch_name: rec.metadata.pr_branch_name.clone(),
                    pr_number: st.number,
                    title: st.title.clone(),
                };
                let ghost before = out@;
                out.push(m);
                proof {
                    assert(merged_view(out@) =~= merged_view(before).push(m@));
                }
            }
        }
        i = i + 1;
    }
    assert(s.take(statuses@.len() as int) =~= s);
    out
}

/// The pull requests to clean up: none in a dry run, else every merged one.
pub open spec fn targets_of(m: Seq<MergedPrView>, dry_run: bool) -> Seq<MergedPrView> {
    if dry_run {
        Seq::empty()
    } else {
        m
    }
}

/// The pull requests to clean up: in a dry run none (only reported), else
/// every merged one, in order.
pub fn cleanup_targets(merged: Vec<MergedPr>, dry_run: bool) -> (r: Vec<MergedPr>)
    ensures
        merged_view(r@) == targets_of(merged_view(merged@), dry_run),
{
    if dry_run {
        let r: Vec<MergedPr> = Vec::new();
        assert(merged_view(r@) =~= Seq::<MergedPrView>::empty());
        r
    } else {
        merged
    }
}

/// What deleting a merged pull request's local branch came to.
#[derive(Debug)]
pub enum LocalDelete {
    Deleted,
    /// There was no such branch: transient branches are normally gone.
    NotFound,
    Failed(String),
}

/// Whether the cleanup of a pull request goes on after its local branch:
/// a branch that was not there is no failure.
pub fn local_delete_ok(outcome: &LocalDelete) -> (r: bool)
    ensures
        r == !(outcome is Failed),
{
    match outcome {
        LocalDelete::Failed(_) => false,
        _ => true,
    }
}

/// Whether the cleanup of one merged pull request succeeded: its local
/// branch is gone (or was never there) and its record was marked merged.
/// Whether the remote branch could be deleted does not count: a failure
/// there is only a warning.
pub fn cleanup_succeeded(local: &LocalDelete, record_updated: bool) -> (r: bool)
    ensures
        r == (!(local is Failed) && record_updated),
{
    local_delete_ok(local) && record_updated
}

/// Counts of a landing run.
#[derive(Debug, PartialEq, Eq, Structural)]
pub struct LandSummary {
    pub merged_found: usize,
    pub cleaned: usize,
    pub failed: usize,
}

/// Number of `true` entries.
pub open spec fn count_true(s: Seq<bool>) -> nat
    decreases s.len(),
{
    if s.len() == 0 {
        0
    } else {
        count_true(s.drop_last()) + if s.last() { 1nat } else { 0nat }
    }
}

/// Number of `false` entries.
pub open spec fn count_false(s: Seq<bool>) -> nat
    decreases s.len(),
{
    if s.len() == 0 {
        0
    } else {
        count_false(s.drop_last()) + if s.last() { 0nat } else { 1nat }
    }
}

proof fn lemma_counts_add_up(s: Seq<bool>)
    ensures
        count_true(s) + count_false(s) == s.len(),
    decreases s.len(),
{
    if s.len() > 0 {
        lemma_counts_add_up(s.drop_last());
    }
}

/// The summary of a run that found `merged_found` merged pull requests and
/// cleaned up some of them with the given outcomes (`true`: cleaned): every
/// outcome is counted, each failure once.
pub fn tally(merged_found: usize, outcomes: &Vec<bool>) -> (r: LandSummary)
    ensures
        r.merged_found == merged_found,
        r.cleaned == count_true(outcomes@),
        r.failed == count_false(outcomes@),
        r.cleaned + r.failed == outcomes@.len(),
{
    let mut cleaned: usize = 0;
    let mut failed: usize = 0;
    let mut i: usize = 0;
    while i < outcomes.len()
        invariant
            i <= outcomes@.len(),
            cleaned == count_true(outcomes@.take(i as int)),
            failed == count_false(outcomes@.take(i as int)),
            cleaned + failed == i,
        decreases outcomes@.len() - i,
    {
        proof {
            assert(outcomes@.take(i as int + 1).drop_last() =~= outcomes@.take(i as int));
            lemma_counts_add_up(outcomes@.take(i as int));
        }
        if outcomes[i] {
            cleaned = cleaned + 1;
        } else {
            failed = failed + 1;
        }
        i = i + 1;
    }
    assert(outcomes@.take(outcomes@.len() as int) =~= outcomes@);
    LandSummary { merged_found, cleaned, failed }
}

/// Whether to sync the primary branch afterwards: only when something was
/// cleaned up.
pub fn should_sync(summary: &LandSummary) -> (r: bool)
    ensures
        r == (summary.cleaned > 0),
{
    summary.cleaned > 0
}

/// A dry run cleans up nothing and syncs nothing, however many merged pull
/// requests it finds: with one outcome per cleanup target there are no
/// outcomes, so nothing is counted as cleaned and no sync follows.
pub proof fn lemma_dry_run_mutates_nothing(merged: Seq<MergedPrView>, outcomes: Seq<bool>)
    requires
        outcomes.len() == targets_of(merged, true).len(),
    ensures
        targets_of(merged, true).len() == 0,
        count_true(outcomes) == 0,
        count_false(outcomes) == 0,
{
}

/// Failed cleanups are counted one by one and do not hide the others: with
/// `failures` induced failures among the outcomes, the summary reports exactly
/// that many failed and the rest cleaned.
pub proof fn lemma_failures_counted(outcomes: Seq<bool>, failures: nat)
    requires
        count_false(outcomes) == failures,
    ensures
        count_true(outcomes) == outcomes.len() - failures,
{
    lemma_counts_add_up(outcomes);
}

} // verus!
