use gitx::metadata::{CommitMetadata, IncrementalCommitType, PRStatus, Timestamp};
use gitx::pr_body::{format_commit_type, generate_pr_body, text_lines};

#[test]
fn test_commit_metadata_creation() {
    let metadata =
        CommitMetadata::new_branch_created("gitx/test/feature".to_string(), "abc123".to_string());

    assert_eq!(metadata.pr_branch_name, "gitx/test/feature");
    assert_eq!(metadata.original_commit_id, "abc123");
    assert_eq!(metadata.status, PRStatus::BranchCreated);
    assert!(metadata.incremental_commits.is_empty());
    assert_eq!(metadata.incremental_commits.len(), 0);
    assert!(metadata.github_pr_number.is_none());
}

#[test]
fn test_commit_metadata_with_pr_number() {
    let metadata =
        CommitMetadata::new_branch_created("gitx/test/feature".to_string(), "abc123".to_string())
            .with_pr_number(42);

    assert_eq!(metadata.github_pr_number, Some(42));
    assert_eq!(metadata.status, PRStatus::PRCreated);
}

#[test]
fn test_add_incremental_commit() {
    let metadata =
        CommitMetadata::new_branch_created("gitx/test/feature".to_string(), "abc123".to_string())
            .add_incremental_commit(
                "def456".to_string(),
                "Fix issue with tests".to_string(),
                IncrementalCommitType::AmendedCommit,
            );

    assert_eq!(metadata.incremental_commits.len(), 1);

    let inc_commit = &metadata.incremental_commits[0];
    assert_eq!(inc_commit.commit_id, "def456");
    assert_eq!(inc_commit.message, "Fix issue with tests");
    assert!(matches!(inc_commit.commit_type, IncrementalCommitType::AmendedCommit));

    let latest = &metadata.incremental_commits[0];
    assert_eq!(latest.commit_id, "def456");
}

#[test]
fn test_commit_changed_detection() {
    let metadata =
        CommitMetadata::new_branch_created("gitx/test/feature".to_string(), "abc123".to_string());

    assert!(!metadata.is_commit_changed("abc123"));
    assert!(metadata.is_commit_changed("def456"));
}

#[test]
fn test_pr_body_generation() {
    let metadata =
        CommitMetadata::new_branch_created("gitx/test/feature".to_string(), "abc123".to_string())
            .add_incremental_commit(
                "def456".to_string(),
                "Fix issue with tests".to_string(),
                IncrementalCommitType::AmendedCommit,
            );

    let commit_message =
        "Add new feature\n\nThis adds a really cool feature\nthat does amazing things.";

    let body = generate_pr_body(&metadata, commit_message);
    assert!(body.contains("## Description"));
    assert!(body.contains("## Updates"));
    assert!(body.contains("Generated by gitx"));
    assert!(!metadata.incremental_commits.is_empty());
}

#[test]
fn test_mock_generate_pr_body() {
    let metadata =
        CommitMetadata::new_branch_created("test-branch".to_string(), "abc123".to_string());

    let body = generate_pr_body(&metadata, "Add feature\n\nThis is a test feature");
    assert!(body.contains("## Description"));
    assert!(body.contains("Generated by gitx"));
}

fn at(seconds: i64) -> Timestamp {
    Timestamp { seconds, nanos: 0 }
}

#[test]
fn pr_body_exact_text() {
    let metadata = CommitMetadata::branch_created_at(
        "gitx/test/feature".to_string(),
        "abc123".to_string(),
        at(1_672_531_200),
    );
    let body = generate_pr_body(&metadata, "Title\n\nFirst line\nSecond line\n");
    assert_eq!(
        body,
        "## Description\n\n\nFirst line\nSecond line\n\n---\n*Generated by gitx - Branch: `gitx/test/feature`*\n*Created: 2023-01-01 00:00 UTC*\n"
    );
}

#[test]
fn pr_body_lists_updates_in_order() {
    let mut metadata = CommitMetadata::branch_created_at(
        "gitx/a/b".to_string(),
        "abc".to_string(),
        at(0),
    );
    metadata = metadata.add_incremental_commit(
        "d1".to_string(),
        "First fix\nmore".to_string(),
        IncrementalCommitType::AmendedCommit,
    );
    metadata = metadata.add_incremental_commit(
        "d2".to_string(),
        "Second fix".to_string(),
        IncrementalCommitType::AdditionalCommit,
    );
    let body = generate_pr_body(&metadata, "Only a title");
    assert!(!body.contains("## Description"));
    let first = body.find("1. **Amended** (").unwrap();
    let second = body.find("2. **Additional** (").unwrap();
    assert!(first < second);
    assert!(body.contains("   - First fix\n"));
    assert!(body.contains("*Created: 1970-01-01 00:00 UTC*\n"));
    assert!(body.contains("*Last updated: "));
}

#[test]
fn commit_type_labels() {
    assert_eq!(format_commit_type(&IncrementalCommitType::AmendedCommit), "Amended");
    assert_eq!(format_commit_type(&IncrementalCommitType::AdditionalCommit), "Additional");
}

#[test]
fn lines_follow_str_lines() {
    for text in ["", "a", "a\n", "a\n\nb", "a\r\nb\r", "\n", "x\r\n"] {
        let ours: Vec<String> = text_lines(text).iter().map(|l| l.iter().collect()).collect();
        let std: Vec<String> = text.lines().map(|l| l.to_string()).collect();
        assert_eq!(ours, std, "for {:?}", text);
    }
}

#[test]
fn record_transitions_keep_identity() {
    let r = CommitMetadata::branch_created_at("gitx/u/t".to_string(), "c1".to_string(), at(5));
    assert_eq!(r.created_at, at(5));
    assert_eq!(r.last_updated, at(5));
    assert!(r.is_current_for("c1"));
    assert!(!r.is_current_for("c2"));
    let r = r.with_pr_number(7).mark_merged();
    assert_eq!(r.status, PRStatus::PRMerged);
    assert_eq!(r.github_pr_number, Some(7));
    assert_eq!(r.pr_branch_name, "gitx/u/t");
    assert_eq!(r.original_commit_id, "c1");
    let copy = r.duplicate();
    assert_eq!(copy.pr_branch_name, r.pr_branch_name);
}
