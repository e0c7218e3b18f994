use gitx::branch_naming::generate_branch_name;
use gitx::classify::{
    classify_commits, determine_base_branch_for_commit, get_commits_needing_processing,
    get_latest_commit_needing_processing, window_size, CommitInfo, CommitUpdateType,
    HistoryCommit, StoredRecord,
};
use gitx::config::{get_base_branch, is_github_enabled, is_initialized, pick_github_token};
use gitx::gateway::{get_github_repo_from_remote, GitHubClientTrait, GitHubPRStatus, MockGitHubClient};
use gitx::land::{
    cleanup_succeeded, cleanup_targets, local_delete_ok, prs_to_check, require_credentials, select_merged,
    should_sync, tally, LandError, LocalDelete,
};
use gitx::lifecycle::{
    after_local_branch, first_update_step, incremental_commit_message, next_create_step,
    next_update_step, pr_title, record_after_update, BranchCreation, CreateStep, UpdateStep,
};
use gitx::metadata::{CommitMetadata, IncrementalCommitType, PRStatus};

fn commit(id: &str, message: &str) -> HistoryCommit {
    HistoryCommit { id: id.to_string(), message: message.to_string() }
}

fn stored(id: &str, metadata: CommitMetadata) -> StoredRecord {
    StoredRecord { commit_id: id.to_string(), metadata }
}

fn status(number: u64, state: &str) -> GitHubPRStatus {
    GitHubPRStatus {
        number,
        state: state.to_string(),
        title: format!("PR {}", number),
        url: format!("https://example.invalid/pull/{}", number),
        mergeable: None,
        draft: false,
    }
}

#[test]
fn test_commit_info_creation() {
    let commit_info = CommitInfo {
        id: "1234567890abcdef1234567890abcdef12345678".to_string(),
        message: "Add user authentication".to_string(),
        potential_branch_name: "gitx/test/add-user-authentication".to_string(),
    };

    assert_eq!(commit_info.message, "Add user authentication");
    assert_eq!(commit_info.potential_branch_name, "gitx/test/add-user-authentication");
}

#[test]
fn single_new_commit_is_classified_new() {
    let history = vec![commit("aaaaaaaa11", "Add login flow")];
    let actions = classify_commits(&history, &Vec::new(), "dev", window_size(false));
    assert_eq!(actions.len(), 1);
    match &actions[0] {
        CommitUpdateType::NewCommit(c) => {
            assert_eq!(c.id, "aaaaaaaa11");
            assert_eq!(c.potential_branch_name, generate_branch_name("dev", "Add login flow"));
            assert_eq!(c.potential_branch_name, "gitx/dev/add-login-flow");
        }
        other => panic!("unexpected action {:?}", other),
    }
}

#[test]
fn empty_window_gives_no_action() {
    let actions = classify_commits(&Vec::new(), &Vec::new(), "dev", window_size(false));
    assert!(actions.is_empty());
}

#[test]
fn window_bound_is_respected() {
    let history: Vec<HistoryCommit> =
        (0..15).map(|i| commit(&format!("id{:08}", i), &format!("Change {}", i))).collect();
    assert_eq!(classify_commits(&history, &Vec::new(), "dev", window_size(false)).len(), 10);
    let latest = classify_commits(&history, &Vec::new(), "dev", window_size(true));
    assert_eq!(latest.len(), 1);
    match &latest[0] {
        CommitUpdateType::NewCommit(c) => assert_eq!(c.id, "id00000000"),
        other => panic!("unexpected action {:?}", other),
    }
}

#[test]
fn classifying_again_after_writes_is_quiet() {
    let history = vec![commit("c2c2c2c2c2", "Second"), commit("c1c1c1c1c1", "First")];
    let first = classify_commits(&history, &Vec::new(), "dev", 10);
    assert_eq!(first.len(), 2);
    let mut records = Vec::new();
    for action in &first {
        if let CommitUpdateType::NewCommit(c) = action {
            let rec = after_local_branch(BranchCreation::Created, c, false).unwrap().unwrap();
            records.push(stored(&c.id, rec));
        }
    }
    let second = classify_commits(&history, &records, "dev", 10);
    assert!(second.is_empty());
}

#[test]
fn amended_commit_becomes_incremental_update() {
    // End to end in local mode: a new commit is tracked, then amended.
    let history = vec![commit("0ld0ld0ld0", "Add login flow")];
    let actions = classify_commits(&history, &Vec::new(), "dev", 1);
    let info = match &actions[0] {
        CommitUpdateType::NewCommit(c) => c,
        other => panic!("unexpected action {:?}", other),
    };
    let rec = after_local_branch(BranchCreation::Created, info, false).unwrap().unwrap();
    let mut records = vec![stored("0ld0ld0ld0", rec)];

    let amended = vec![commit("n3wn3wn3wn", "Add login flow")];
    let actions = classify_commits(&amended, &records, "dev", 1);
    assert_eq!(actions.len(), 1);
    let (original, updated, metadata) = match &actions[0] {
        CommitUpdateType::IncrementalUpdate { original_oid, updated_oid, metadata } => {
            (original_oid.clone(), updated_oid.clone(), metadata.duplicate())
        }
        other => panic!("unexpected action {:?}", other),
    };
    assert_eq!(original, "0ld0ld0ld0");
    assert_eq!(updated, "n3wn3wn3wn");
    let after = record_after_update(metadata, &updated, "Add login flow");
    assert_eq!(after.incremental_commits.len(), 1);
    assert_eq!(after.incremental_commits[0].commit_type, IncrementalCommitType::AmendedCommit);
    assert_eq!(after.incremental_commits[0].commit_id, "n3wn3wn3wn");
    assert_eq!(
        incremental_commit_message("Add login flow\nbody", &original),
        "Incremental update to: Add login flow\n\nUpdated from commit 0ld0ld0l"
    );

    records[0] = stored("0ld0ld0ld0", after);
    assert!(classify_commits(&amended, &records, "dev", 1).is_empty());
}

#[test]
fn local_branch_creation_writes_one_record() {
    let info = CommitInfo {
        id: "abcdef0123".to_string(),
        message: "Add login flow".to_string(),
        potential_branch_name: generate_branch_name("user", "Add login flow"),
    };
    let rec = after_local_branch(BranchCreation::Created, &info, false).unwrap().unwrap();
    assert_eq!(rec.status, PRStatus::BranchCreated);
    assert_eq!(rec.pr_branch_name, "gitx/user/add-login-flow");
    assert_eq!(rec.original_commit_id, "abcdef0123");
    // A branch that exists already is fine; an existing record is kept.
    assert!(after_local_branch(BranchCreation::AlreadyExists, &info, true).unwrap().is_none());
    assert!(after_local_branch(BranchCreation::AlreadyExists, &info, false).unwrap().is_some());
    assert!(after_local_branch(BranchCreation::Failed("disk full".to_string()), &info, false)
        .is_err());
}

#[test]
fn remote_creation_runs_to_done_with_mock() {
    let info = CommitInfo {
        id: "abcdef0123".to_string(),
        message: "Add login flow".to_string(),
        potential_branch_name: "gitx/user/add-login-flow".to_string(),
    };
    let mut mock = MockGitHubClient::new();
    let mut step = CreateStep::CreateBranch;
    let mut record = None;
    let mut branch_exists = false;
    while step != CreateStep::Done && step != CreateStep::Aborted {
        match step {
            CreateStep::CreateBranch => branch_exists = true,
            CreateStep::StoreRecord => {
                record = after_local_branch(BranchCreation::Created, &info, false).unwrap()
            }
            CreateStep::OpenPullRequest => {
                let pr = mock
                    .create_pr(&info.potential_branch_name, &pr_title(&info.message), "", "main")
                    .unwrap();
                record = Some(record.take().unwrap().with_pr_number(pr.number));
            }
            CreateStep::DeleteLocalBranch => branch_exists = false,
            _ => {}
        }
        step = next_create_step(step, true);
    }
    let record = record.unwrap();
    assert_eq!(record.status, PRStatus::PRCreated);
    assert_eq!(record.github_pr_number, Some(1));
    assert!(!branch_exists);
}

#[test]
fn failed_step_aborts_protocol() {
    assert_eq!(next_create_step(CreateStep::PushBranch, false), CreateStep::Aborted);
    assert_eq!(next_create_step(CreateStep::PushBranch, true), CreateStep::StoreRecord);
    assert_eq!(next_create_step(CreateStep::Aborted, true), CreateStep::Aborted);
    assert_eq!(next_update_step(UpdateStep::PushBranch, true), UpdateStep::StoreRecord);
    assert_eq!(next_update_step(UpdateStep::UpdatePullRequest, false), UpdateStep::Aborted);
    let rec = CommitMetadata::new_branch_created("b".to_string(), "c".to_string());
    assert_eq!(first_update_step(&rec), UpdateStep::Skipped);
    assert_eq!(first_update_step(&rec.with_pr_number(3)), UpdateStep::CreateBranch);
}

#[test]
fn pr_title_falls_back_for_empty_message() {
    assert_eq!(pr_title("Add thing\n\nbody"), "Add thing");
    assert_eq!(pr_title(""), "Untitled commit");
}

#[test]
fn base_branch_follows_parent_record() {
    let parent = CommitMetadata::new_branch_created("gitx/u/one".to_string(), "p1".to_string());
    let no_pr = vec![stored("p1", parent.duplicate())];
    let with_pr = vec![stored("p1", parent.with_pr_number(1))];
    assert_eq!(determine_base_branch_for_commit(Some("p1"), &Vec::new(), Some("main")), "main");
    assert_eq!(determine_base_branch_for_commit(Some("p1"), &no_pr, Some("master")), "master");
    assert_eq!(determine_base_branch_for_commit(Some("p1"), &with_pr, Some("main")), "gitx/u/one");
    assert_eq!(determine_base_branch_for_commit(None, &with_pr, Some("main")), "main");
    assert_eq!(determine_base_branch_for_commit(Some("zz"), &with_pr, None), "main");
}

fn merged_fixture() -> (Vec<StoredRecord>, Vec<GitHubPRStatus>) {
    let records = vec![
        stored("c1", CommitMetadata::new_branch_created("gitx/u/a".into(), "c1".into()).with_pr_number(1)),
        stored("c2", CommitMetadata::new_branch_created("gitx/u/b".into(), "c2".into())),
        stored("c3", CommitMetadata::new_branch_created("gitx/u/c".into(), "c3".into()).with_pr_number(3)),
        stored("c4", CommitMetadata::new_branch_created("gitx/u/d".into(), "c4".into()).with_pr_number(4)),
    ];
    let statuses = vec![status(1, "merged"), status(3, "open"), status(4, "merged"), status(9, "merged")];
    (records, statuses)
}

#[test]
fn land_selects_merged_prs() {
    let (records, statuses) = merged_fixture();
    assert_eq!(prs_to_check(&records), vec![1, 3, 4]);
    let merged = select_merged(&records, &statuses);
    assert_eq!(merged.len(), 2);
    assert_eq!(merged[0].branch_name, "gitx/u/a");
    assert_eq!(merged[1].commit_id, "c4");
    assert_eq!(merged[1].pr_number, 4);
}

#[test]
fn land_dry_run_touches_nothing() {
    let (records, statuses) = merged_fixture();
    let merged = select_merged(&records, &statuses);
    assert_eq!(merged.len(), 2);
    let targets = cleanup_targets(merged, true);
    assert!(targets.is_empty());
    let summary = tally(2, &Vec::new());
    assert_eq!((summary.cleaned, summary.failed), (0, 0));
    assert!(!should_sync(&summary));
}

#[test]
fn land_counts_failures_and_goes_on() {
    let (records, statuses) = merged_fixture();
    let targets = cleanup_targets(select_merged(&records, &statuses), false);
    assert_eq!(targets.len(), 2);
    // The first cleanup fails on its local branch; the second goes on.
    let outcomes = vec![
        local_delete_ok(&LocalDelete::Failed("locked".to_string())),
        local_delete_ok(&LocalDelete::NotFound),
    ];
    let summary = tally(targets.len(), &outcomes);
    assert_eq!(summary.merged_found, 2);
    assert_eq!(summary.failed, 1);
    assert_eq!(summary.cleaned, 1);
    assert!(should_sync(&summary));
    assert!(local_delete_ok(&LocalDelete::Deleted));
}

#[test]
fn land_needs_credentials() {
    assert_eq!(require_credentials(false), Err(LandError::MissingCredentials));
    assert_eq!(require_credentials(true), Ok(()));
}

#[test]
fn config_values() {
    assert!(is_github_enabled(Some("true")));
    assert!(!is_github_enabled(Some("false")));
    assert!(!is_github_enabled(None));
    assert_eq!(get_base_branch(None), "main");
    assert_eq!(get_base_branch(Some("develop")), "develop");
    assert!(is_initialized(Some("tok")));
    assert!(!is_initialized(None));
    assert_eq!(
        pick_github_token(None, Some("g".to_string()), Some("e".to_string())),
        Some("g".to_string())
    );
    assert_eq!(pick_github_token(None, None, Some("e".to_string())), Some("e".to_string()));
}

#[test]
fn full_and_latest_windows() {
    let history: Vec<HistoryCommit> =
        (0..3).map(|i| commit(&format!("id{:08}", i), &format!("Change {}", i))).collect();
    assert_eq!(get_commits_needing_processing(&history, &Vec::new(), "dev").len(), 3);
    assert_eq!(get_latest_commit_needing_processing(&history, &Vec::new(), "dev").len(), 1);
}

#[test]
fn repository_from_remote_url() {
    let repo = get_github_repo_from_remote("git@github.com:acme/tool.git").unwrap();
    assert_eq!((repo.owner.as_str(), repo.name.as_str()), ("acme", "tool"));
    assert!(get_github_repo_from_remote("https://example.com/acme/tool").is_err());
}

#[test]
fn remote_branch_failure_is_only_a_warning() {
    assert!(cleanup_succeeded(&LocalDelete::NotFound, true));
    assert!(cleanup_succeeded(&LocalDelete::Deleted, true));
    assert!(!cleanup_succeeded(&LocalDelete::Deleted, false));
    assert!(!cleanup_succeeded(&LocalDelete::Failed("x".to_string()), true));
}
