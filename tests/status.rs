use gitx::classify::{CommitInfo, CommitUpdateType, StoredRecord};
use gitx::gateway::GitHubPRStatus;
use gitx::metadata::{CommitMetadata, IncrementalCommitType, PRStatus};
use gitx::status::{
    check_commit_for_updates, find_commits_needing_updates, format_relative_time,
    get_status_display, get_unpushed_commits, relative_time_text, summarize_statuses, PRStatusInfo,
};

fn remote(state: &str, draft: bool) -> GitHubPRStatus {
    GitHubPRStatus {
        number: 1,
        state: state.to_string(),
        title: String::new(),
        url: String::new(),
        mergeable: None,
        draft,
    }
}

#[test]
fn status_display_prefers_backend_state() {
    assert_eq!(get_status_display(&PRStatus::BranchCreated, None), ("🆕", "blue"));
    assert_eq!(get_status_display(&PRStatus::Cancelled, None), ("❌", "red"));
    assert_eq!(get_status_display(&PRStatus::BranchCreated, Some(&remote("open", true))), ("🚧", "yellow"));
    assert_eq!(get_status_display(&PRStatus::BranchCreated, Some(&remote("open", false))), ("🟢", "green"));
    assert_eq!(get_status_display(&PRStatus::PRCreated, Some(&remote("merged", false))), ("🟣", "purple"));
    assert_eq!(get_status_display(&PRStatus::PRCreated, Some(&remote("closed", false))), ("🔴", "red"));
    assert_eq!(get_status_display(&PRStatus::PRCreated, Some(&remote("weird", false))), ("❓", "gray"));
}

#[test]
fn relative_times() {
    assert_eq!(relative_time_text(-5), "just now");
    assert_eq!(relative_time_text(59), "just now");
    assert_eq!(relative_time_text(60), "1 minute ago");
    assert_eq!(relative_time_text(7200), "2 hours ago");
    assert_eq!(relative_time_text(86_400), "1 day ago");
    assert_eq!(relative_time_text(86_400 * 45), "1 month ago");
    assert_eq!(relative_time_text(86_400 * 800), "2 years ago");
    let now = CommitMetadata::new_branch_created("b".into(), "c".into()).created_at;
    assert_eq!(format_relative_time(now), "just now");
}

#[test]
fn status_info_from_record() {
    let m = CommitMetadata::new_branch_created("gitx/u/x".into(), "c1".into())
        .with_pr_number(5)
        .add_incremental_commit("c2".into(), "Fix".into(), IncrementalCommitType::AmendedCommit);
    let info = PRStatusInfo::from_commit_and_metadata("c1".into(), "Add x".into(), &m);
    assert_eq!(info.branch_name, "gitx/u/x");
    assert_eq!(info.pr_number, Some(5));
    assert_eq!(info.incremental_count, 1);
    assert_eq!(info.latest_incremental.unwrap().commit_id, "c2");
}

#[test]
fn unpushed_commits_are_the_new_ones() {
    let updates = vec![
        CommitUpdateType::NewCommit(CommitInfo {
            id: "a".into(),
            message: "A".into(),
            potential_branch_name: "gitx/u/a".into(),
        }),
        CommitUpdateType::IncrementalUpdate {
            original_oid: "o".into(),
            updated_oid: "n".into(),
            metadata: CommitMetadata::new_branch_created("gitx/u/b".into(), "o".into()),
        },
    ];
    let new = get_unpushed_commits(&updates);
    assert_eq!(new.len(), 1);
    assert_eq!(new[0].id, "a");
}

#[test]
fn update_checks() {
    let m = CommitMetadata::new_branch_created("b".into(), "c1".into());
    assert_eq!(check_commit_for_updates(Some(&m), "c1"), (true, false));
    assert_eq!(check_commit_for_updates(Some(&m), "c9"), (true, true));
    assert_eq!(check_commit_for_updates(None, "c1"), (false, false));
    let records = vec![
        StoredRecord { commit_id: "c1".into(), metadata: m },
        StoredRecord {
            commit_id: "k2".into(),
            metadata: CommitMetadata::new_branch_created("b2".into(), "c2".into()),
        },
    ];
    let changed = find_commits_needing_updates(&records);
    assert_eq!(changed.len(), 1);
    assert_eq!(changed[0].commit_id, "k2");
}

#[test]
fn summary_counts() {
    let with = |n: Option<u64>, updates: usize| {
        let mut m = CommitMetadata::new_branch_created("b".into(), "c".into());
        if let Some(n) = n {
            m = m.with_pr_number(n);
        }
        for i in 0..updates {
            m = m.add_incremental_commit(format!("u{}", i), "x".into(), IncrementalCommitType::AmendedCommit);
        }
        PRStatusInfo::from_commit_and_metadata("c".into(), "m".into(), &m)
    };
    let infos = vec![with(Some(1), 2), with(Some(2), 0), with(Some(3), 1), with(None, 0), with(Some(4), 0)];
    let mut s1 = remote("open", true);
    s1.number = 1;
    let mut s2 = remote("merged", false);
    s2.number = 2;
    let mut s3 = remote("closed", false);
    s3.number = 3;
    let summary = summarize_statuses(&infos, &vec![s1, s2, s3]);
    assert_eq!(summary.total, 5);
    assert_eq!(summary.with_pr, 4);
    assert_eq!(summary.local_only, 1);
    assert_eq!((summary.open, summary.draft, summary.merged, summary.closed), (1, 1, 1, 1));
    assert_eq!(summary.total_incremental, 3);
}
