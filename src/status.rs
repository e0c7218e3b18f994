//! What the status listing shows of each tracked pull request.

use vstd::prelude::*;
use vstd::string::*;

use crate::classify::{stored_view, CommitUpdateType, CommitUpdateView, CommitInfo, CommitInfoView, StoredRecord, StoredRecordView, updates_view};
use crate::gateway::{GitHubPRStatus, PRStatusView};
use crate::metadata::{current_time, CommitMetadata, IncrementalCommit, PRStatus, Timestamp};
use crate::text::{decimal_of, push_decimal, push_text, same_text, string_from_chars};

verus! {

/// A tracked pull request as the status listing shows it.
#[derive(Debug)]
pub struct PRStatusInfo {
    pub commit_id: String,
    pub commit_message: String,
    pub branch_name: String,
    pub pr_number: Option<u64>,
    pub status: PRStatus,
    pub created_at: Timestamp,
    pub last_updated: Timestamp,
    pub incremental_count: usize,
    pub latest_incremental: Option<IncrementalCommit>,
}

impl PRStatusInfo {
    /// The listing entry of a commit and its record: the record's branch,
    /// number, status and times, how many updates it has and the latest one.
    pub fn from_commit_and_metadata(commit_id: String, commit_message: String, metadata: &CommitMetadata) -> (r:
        PRStatusInfo)
        ensures
            r.commit_id@ == commit_id@,
            r.commit_message@ == commit_message@,
            r.branch_name@ == metadata@.pr_branch_name,
            r.pr_number == metadata@.github_pr_number,
            r.status == metadata@.status,
            r.created_at == metadata@.created_at,
            r.last_updated == metadata@.last_updated,
            r.incremental_count == metadata@.incremental_commits.len(),
            match r.latest_incremental {
                Some(l) => metadata@.incremental_commits.len() > 0 && l@
                    == metadata@.incremental_commits.last(),
                None => metadata@.incremental_commits.len() == 0,
            },
    {
        let n = metadata.incremental_commits.len();
        let latest = if n > 0 {
            Some(metadata.incremental_commits[n - 1].duplicate())
        } else {
            None
        };
        PRStatusInfo {
            commit_id,
            commit_message,
            branch_name: metadata.pr_branch_name.clone(),
            pr_number: metadata.github_pr_number,
            status: metadata.status,
            created_at: metadata.created_at,
            last_updated: metadata.last_updated,
            incremental_count: n,
            latest_incremental: latest,
        }
    }
}

/// Icon and colour for a pull request: from the backend's state when it is
/// known, else from the record's status.
pub open spec fn status_display_of(local: PRStatus, remote: Option<PRStatusView>) -> (Seq<char>, Seq<char>) {
    match remote {
        Some(s) => if s.state == "open"@ {
            if s.draft {
                ("🚧"@, "yellow"@)
            } else {
                ("🟢"@, "green"@)
            }
        } else if s.state == "closed"@ {
            ("🔴"@, "red"@)
        } else if s.state == "merged"@ {
            ("🟣"@, "purple"@)
        } else {
            ("❓"@, "gray"@)
        },
        None => match local {
            PRStatus::BranchCreated => ("🆕"@, "blue"@),
            PRStatus::PRCreated => ("🟢"@, "green"@),
            PRStatus::PRMerged => ("🟣"@, "purple"@),
            PRStatus::Cancelled => ("❌"@, "red"@),
        },
    }
}

/// Icon and colour for a pull request, given the backend's status of it if
/// known.
pub fn get_status_display(local_status: &PRStatus, remote: Option<&GitHubPRStatus>) -> (r: (
    &'static str,
    &'static str,
))
    ensures
        (r.0@, r.1@) == status_display_of(
            *local_status,
            match remote {
                Some(s) => Some(s@),
                None => None,
            },
        ),
{
    if let Some(s) = remote {
        let state = s.state.as_str();
        if same_text(state, "open") {
            if s.draft {
                return ("🚧", "yellow");
            } else {
                return ("🟢", "green");
            }
        } else if same_text(state, "closed") {
            return ("🔴", "red");
        } else if same_text(state, "merged") {
            return ("🟣", "purple");
        } else {
            return ("❓", "gray");
        }
    }
    match local_status {
        PRStatus::BranchCreated => ("🆕", "blue"),
        PRStatus::PRCreated => ("🟢", "green"),
        PRStatus::PRMerged => ("🟣", "purple"),
        PRStatus::Cancelled => ("❌", "red"),
    }
}

/// `n units ago`, with the unit singular for one.
pub open spec fn ago_text(n: nat, unit: Seq<char>) -> Seq<char> {
    decimal_of(n) + " "@ + unit + (if n == 1 {
        Seq::<char>::empty()
    } else {
        "s"@
    }) + " ago"@
}

/// How long ago something happened, given the seconds since: under a minute
/// is `just now`, then whole minutes, hours, days, 30-day months and 365-day
/// years.
pub open spec fn relative_text(elapsed: int) -> Seq<char> {
    if elapsed < 60 {
        "just now"@
    } else if elapsed / 60 < 60 {
        ago_text((elapsed / 60) as nat, "minute"@)
    } else if elapsed / 3600 < 24 {
        ago_text((elapsed / 3600) as nat, "hour"@)
    } else if elapsed / 86400 < 30 {
        ago_text((elapsed / 86400) as nat, "day"@)
    } else if elapsed / 86400 < 365 {
        ago_text((elapsed / 86400 / 30) as nat, "month"@)
    } else {
        ago_text((elapsed / 86400 / 365) as nat, "year"@)
    }
}

fn ago(n: u64, unit: &str) -> (r: String)
    ensures
        r@ == ago_text(n as nat, unit@),
{
    let mut v: Vec<char> = Vec::new();
    push_decimal(&mut v, n);
    push_text(&mut v, " ");
    push_text(&mut v, unit);
    if n != 1 {
        push_text(&mut v, "s");
    }
    push_text(&mut v, " ago");
    proof {
        assert(v@ =~= ago_text(n as nat, unit@));
    }
    string_from_chars(&v)
}

/// How long ago something happened, given the seconds since.
pub fn relative_time_text(elapsed: i64) -> (r: String)
    ensures
        r@ == relative_text(elapsed as int),
{
    if elapsed < 60 {
        return String::from_str("just now");
    }
    let e = elapsed as u64;
    if e / 60 < 60 {
        ago(e / 60, "minute")
    } else if e / 3600 < 24 {
        ago(e / 3600, "hour")
    } else if e / 86400 < 30 {
        ago(e / 86400, "day")
    } else if e / 86400 < 365 {
        ago(e / 86400 / 30, "month")
    } else {
        ago(e / 86400 / 365, "year")
    }
}

/// How long ago `timestamp` was, by the current clock. The clock is read
/// here, so the text is that of some elapsed time; a timestamp in the future
/// reads `just now`.
pub fn format_relative_time(timestamp: Timestamp) -> (r: String)
    ensures
        exists|elapsed: int| r@ == relative_text(elapsed),
{
    let now = current_time();
    let elapsed: i64 = if now.seconds >= 0 && timestamp.seconds < 0 && now.seconds > i64::MAX
        + timestamp.seconds {
        i64::MAX
    } else if now.seconds < 0 && timestamp.seconds > 0 && now.seconds < i64::MIN
        + timestamp.seconds {
        i64::MIN
    } else {
        now.seconds - timestamp.seconds
    };
    relative_time_text(elapsed)
}

/// The new commits among classified actions, in order.
pub open spec fn new_commits_of(u: Seq<CommitUpdateView>) -> Seq<CommitInfoView>
    decreases u.len(),
{
    if u.len() == 0 {
        Seq::empty()
    } else {
        let p = new_commits_of(u.drop_last());
        match u.last() {
            CommitUpdateView::NewCommit(c) => p.push(c),
            _ => p,
        }
    }
}

/// The new commits among classified actions, in order; incremental updates
/// are left out.
pub fn get_unpushed_commits(updates: &Vec<CommitUpdateType>) -> (r: Vec<CommitInfo>)
    ensures
        r@.map_values(|c: CommitInfo| c@) == new_commits_of(updates_view(updates@)),
{
    let ghost u = updates_view(updates@);
    let mut out: Vec<CommitInfo> = Vec::new();
    let mut i: usize = 0;
    while i < updates.len()
        invariant
            i <= updates@.len(),
            u == updates_view(updates@),
            out@.map_values(|c: CommitInfo| c@) == new_commits_of(u.take(i as int)),
        decreases updates@.len() - i,
    {
        proof {
            assert(u.take(i as int + 1).drop_last() =~= u.take(i as int));
            assert(u.take(i as int + 1).last() == updates@[i as int]@);
        }
        match &updates[i] {
            CommitUpdateType::NewCommit(c) => {
                let copy = CommitInfo {
                    id: c.id.clone(),
                    message: c.message.clone(),
                    potential_branch_name: c.potential_branch_name.clone(),
                };
                let ghost before = out@;
                out.push(copy);
                proof {
                    assert(out@.map_values(|c: CommitInfo| c@) =~= before.map_values(
                        |c: CommitInfo| c@,
                    ).push(copy@));
                }
            },
            _ => {},
        }
        i = i + 1;
    }
    assert(u.take(updates@.len() as int) =~= u);
    out
}

/// Whether a commit has a record, and whether that record was created
/// against another identity.
pub fn check_commit_for_updates(record: Option<&CommitMetadata>, current_commit_id: &str) -> (r: (
    bool,
    bool,
))
    ensures
        r == match record {
            Some(m) => (true, m@.original_commit_id != current_commit_id@),
            None => (false, false),
        },
{
    match record {
        Some(m) => (true, m.is_commit_changed(current_commit_id)),
        None => (false, false),
    }
}

/// The stored records attached to another identity than the one they were
/// created against, in order.
pub open spec fn changed_records(t: Seq<StoredRecordView>) -> Seq<StoredRecordView>
    decreases t.len(),
{
    if t.len() == 0 {
        Seq::empty()
    } else {
        let p = changed_records(t.drop_last());
        if t.last().metadata.original_commit_id != t.last().commit_id {
            p.push(t.last())
        } else {
            p
        }
    }
}

/// The stored records attached to another identity than the one they were
/// created against.
pub fn find_commits_needing_updates(records: &Vec<StoredRecord>) -> (r: Vec<StoredRecord>)
    ensures
        stored_view(r@) == changed_records(stored_view(records@)),
{
    let ghost t = stored_view(records@);
    let mut out: Vec<StoredRecord> = Vec::new();
    let mut i: usize = 0;
    while i < records.len()
        invariant
            i <= records@.len(),
            t == stored_view(records@),
            stored_view(out@) == changed_records(t.take(i as int)),
        decreases records@.len() - i,
    {
        proof {
            assert(t.take(i as int + 1).drop_last() =~= t.take(i as int));
            assert(t.take(i as int + 1).last() == records@[i as int]@);
        }
        let rec = &records[i];
        if rec.metadata.is_commit_changed(rec.commit_id.as_str()) {
            let copy = StoredRecord { commit_id: rec.commit_id.clone(), metadata: rec.metadata.duplicate() };
            let ghost before = out@;
            out.push(copy);
            proof {
                assert(stored_view(out@) =~= stored_view(before).push(copy@));
            }
        }
        i = i + 1;
    }
    assert(t.take(records@.len() as int) =~= t);
    out
}

/// Counts over the tracked pull requests for the status summary.
#[derive(Debug, PartialEq, Eq, Structural)]
pub struct StatusSummary {
    pub total: usize,
    pub with_pr: usize,
    pub local_only: usize,
    pub open: usize,
    pub draft: usize,
    pub merged: usize,
    pub closed: usize,
    /// Incremental updates over all of them (saturating at `usize::MAX`).
    pub total_incremental: usize,
}

/// The last of the fetched statuses that is about pull request `n`.
pub open spec fn latest_status(s: Seq<PRStatusView>, n: u64) -> Option<PRStatusView>
    decreases s.len(),
{
    if s.len() == 0 {
        None
    } else if s.last().number == n {
        Some(s.last())
    } else {
        latest_status(s.drop_last(), n)
    }
}

/// The backend's status of an entry, if it has a number and one was fetched.
pub open spec fn remote_of(i: PRStatusInfo, s: Seq<PRStatusView>) -> Option<PRStatusView> {
    match i.pr_number {
        Some(n) => latest_status(s, n),
        None => None,
    }
}

pub open spec fn count_where(infos: Seq<PRStatusInfo>, f: spec_fn(PRStatusInfo) -> bool) -> nat
    decreases infos.len(),
{
    if infos.len() == 0 {
        0
    } else {
        count_where(infos.drop_last(), f) + if f(infos.last()) { 1nat } else { 0nat }
    }
}

pub open spec fn incremental_sum(infos: Seq<PRStatusInfo>) -> nat
    decreases infos.len(),
{
    if infos.len() == 0 {
        0
    } else {
        incremental_sum(infos.drop_last()) + (infos.last().incremental_count as nat)
    }
}

pub open spec fn in_state(i: PRStatusInfo, s: Seq<PRStatusView>, state: Seq<char>) -> bool {
    remote_of(i, s) matches Some(r) && r.state == state
}

pub open spec fn is_open_draft(i: PRStatusInfo, s: Seq<PRStatusView>) -> bool {
    remote_of(i, s) matches Some(r) && r.state == "open"@ && r.draft
}

proof fn lemma_count_bound(infos: Seq<PRStatusInfo>, f: spec_fn(PRStatusInfo) -> bool)
    ensures
        count_where(infos, f) <= infos.len(),
    decreases infos.len(),
{
    if infos.len() > 0 {
        lemma_count_bound(infos.drop_last(), f);
    }
}

fn find_status(statuses: &Vec<GitHubPRStatus>, n: u64) -> (r: Option<usize>)
    ensures
        match r {
            Some(i) => i < statuses@.len() && latest_status(
                statuses@.map_values(|s: GitHubPRStatus| s@),
                n,
            ) == Some(statuses@[i as int]@),
            None => latest_status(statuses@.map_values(|s: GitHubPRStatus| s@), n) is None,
        },
{
    let ghost all = statuses@.map_values(|s: GitHubPRStatus| s@);
    let mut i: usize = statuses.len();
    assert(all.take(i as int) =~= all);
    while i > 0
        invariant
            i <= statuses@.len(),
            all == statuses@.map_values(|s: GitHubPRStatus| s@),
            latest_status(all, n) == latest_status(all.take(i as int), n),
        decreases i,
    {
        proof {
            assert(all.take(i as int).drop_last() =~= all.take(i as int - 1));
        }
        if statuses[i - 1].number == n {
            return Some(i - 1);
        }
        i = i - 1;
    }
    None
}

/// The summary counts: all entries, those with and without a pull request,
/// those the backend reports open (and of them drafts), merged and closed,
/// and the incremental updates of all.
pub fn summarize_statuses(infos: &Vec<PRStatusInfo>, statuses: &Vec<GitHubPRStatus>) -> (r:
    StatusSummary)
    ensures
        r.total == infos@.len(),
        r.with_pr == count_where(infos@, |i: PRStatusInfo| i.pr_number is Some),
        r.local_only == r.total - r.with_pr,
        r.open == count_where(
            infos@,
            |i: PRStatusInfo| in_state(i, statuses@.map_values(|s: GitHubPRStatus| s@), "open"@),
        ),
        r.draft == count_where(
            infos@,
            |i: PRStatusInfo| is_open_draft(i, statuses@.map_values(|s: GitHubPRStatus| s@)),
        ),
        r.merged == count_where(
            infos@,
            |i: PRStatusInfo| in_state(i, statuses@.map_values(|s: GitHubPRStatus| s@), "merged"@),
        ),
        r.closed == count_where(
            infos@,
            |i: PRStatusInfo| in_state(i, statuses@.map_values(|s: GitHubPRStatus| s@), "closed"@),
        ),
        r.total_incremental == if incremental_sum(infos@) > usize::MAX {
            usize::MAX as nat
        } else {
            incremental_sum(infos@)
        },
{
    let ghost sv = statuses@.map_values(|s: GitHubPRStatus| s@);
    let ghost f_pr = |i: PRStatusInfo| i.pr_number is Some;
    let ghost f_open = |i: PRStatusInfo| in_state(i, sv, "open"@);
    let ghost f_draft = |i: PRStatusInfo| is_open_draft(i, sv);
    let ghost f_merged = |i: PRStatusInfo| in_state(i, sv, "merged"@);
    let ghost f_closed = |i: PRStatusInfo| in_state(i, sv, "closed"@);
    let mut with_pr: usize = 0;
    let mut open: usize = 0;
    let mut draft: usize = 0;
    let mut merged: usize = 0;
    let mut closed: usize = 0;
    let mut total_incremental: usize = 0;
    let mut k: usize = 0;
    while k < infos.len()
        invariant
            k <= infos@.len(),
            sv == statuses@.map_values(|s: GitHubPRStatus| s@),
            f_pr == (|i: PRStatusInfo| i.pr_number is Some),
            f_open == (|i: PRStatusInfo| in_state(i, sv, "open"@)),
            f_draft == (|i: PRStatusInfo| is_open_draft(i, sv)),
            f_merged == (|i: PRStatusInfo| in_state(i, sv, "merged"@)),
            f_closed == (|i: PRStatusInfo| in_state(i, sv, "closed"@)),
            with_pr == count_where(infos@.take(k as int), f_pr),
            open == count_where(infos@.take(k as int), f_open),
            draft == count_where(infos@.take(k as int), f_draft),
            merged == count_where(infos@.take(k as int), f_merged),
            closed == count_where(infos@.take(k as int), f_closed),
            total_incremental == if incremental_sum(infos@.take(k as int)) > usize::MAX {
                usize::MAX as nat
            } else {
                incremental_sum(infos@.take(k as int))
            },
        decreases infos@.len() - k,
    {
        let ghost p = infos@.take(k as int);
        proof {
            reveal_strlit("open");
            reveal_strlit("merged");
            reveal_strlit("closed");
            assert("open"@.len() == 4 && "merged"@.len() == 6 && "closed"@.len() == 6);
            assert("merged"@[0] != "closed"@[0]);
            assert("open"@ != "merged"@ && "open"@ != "closed"@ && "merged"@ != "closed"@);
            assert(infos@.take(k as int + 1).drop_last() =~= p);
            assert(infos@.take(k as int + 1).last() == infos@[k as int]);
            lemma_count_bound(p, f_pr);
            lemma_count_bound(p, f_open);
            lemma_count_bound(p, f_draft);
            lemma_count_bound(p, f_merged);
            lemma_count_bound(p, f_closed);
        }
        let info = &infos[k];
        let c = info.incremental_count;
        total_incremental = if total_incremental > usize::MAX - c {
            usize::MAX
        } else {
            total_incremental + c
        };
        if let Some(n) = info.pr_number {
            with_pr = with_pr + 1;
            if let Some(j) = find_status(statuses, n) {
                let st = &statuses[j];
                proof {
                    assert(remote_of(*info, sv) == Some(st@));
                }
                if same_text(st.state.as_str(), "open") {
                    open = open + 1;
                    if st.draft {
                        draft = draft + 1;
                    }
                } else if same_text(st.state.as_str(), "merged") {
                    merged = merged + 1;
                } else if same_text(st.state.as_str(), "closed") {
                    closed = closed + 1;
                }
            } else {
                proof {
                    assert(remote_of(*info, sv) is None);
                }
            }
        }
        proof {
            let q = infos@.take(k as int + 1);
            assert(q.drop_last() =~= p);
            assert(q.last() == *info);
            assert(f_pr(*info) == (info.pr_number is Some));
            assert(f_open(*info) == in_state(*info, sv, "open"@));
            assert(f_draft(*info) == is_open_draft(*info, sv));
            assert(f_merged(*info) == in_state(*info, sv, "merged"@));
            assert(f_closed(*info) == in_state(*info, sv, "closed"@));
            assert(count_where(q, f_pr) == count_where(p, f_pr) + if f_pr(*info) { 1nat } else { 0nat });
            assert(count_where(q, f_open) == count_where(p, f_open) + if f_open(*info) { 1nat } else { 0nat });
            assert(count_where(q, f_draft) == count_where(p, f_draft) + if f_draft(*info) { 1nat } else { 0nat });
            assert(count_where(q, f_merged) == count_where(p, f_merged) + if f_merged(*info) { 1nat } else { 0nat });
            assert(count_where(q, f_closed) == count_where(p, f_closed) + if f_closed(*info) { 1nat } else { 0nat });
        }
        k = k + 1;
    }
    proof {
        assert(infos@.take(infos@.len() as int) =~= infos@);
        lemma_count_bound(infos@, f_pr);
    }
    StatusSummary {
        total: infos.len(),
        with_pr,
        local_only: infos.len() - with_pr,
        open,
        draft,
        merged,
        closed,
        total_incremental,
    }
}

} // verus!
