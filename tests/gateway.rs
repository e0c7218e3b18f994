use gitx::gateway::{GitHubClientTrait, GitHubPRStatus, GitHubRepo, MockGitHubClient, PRInfo};

#[test]
fn test_github_repo_creation() {
    let repo = GitHubRepo { owner: "testowner".to_string(), name: "testrepo".to_string() };

    assert_eq!(repo.owner, "testowner");
    assert_eq!(repo.name, "testrepo");
}

#[test]
fn test_pr_info_creation() {
    let pr_info = PRInfo {
        number: 42,
        url: "https://github.com/owner/repo/pull/42".to_string(),
        title: "Add new feature".to_string(),
    };

    assert_eq!(pr_info.number, 42);
    assert_eq!(pr_info.url, "https://github.com/owner/repo/pull/42");
    assert_eq!(pr_info.title, "Add new feature");
}

#[test]
fn test_github_pr_status_creation() {
    let status = GitHubPRStatus {
        number: 123,
        state: "open".to_string(),
        title: "Fix bug".to_string(),
        url: "https://github.com/owner/repo/pull/123".to_string(),
        mergeable: Some(true),
        draft: false,
    };

    assert_eq!(status.number, 123);
    assert_eq!(status.state, "open");
    assert!(!status.draft);
    assert_eq!(status.mergeable, Some(true));
}

#[test]
fn test_mock_create_pr() {
    let mut mock = MockGitHubClient::new();

    let pr_info = mock
        .create_pr("feature-branch", "Add new feature", "This adds a cool feature", "main")
        .unwrap();

    assert_eq!(pr_info.number, 1);
    assert_eq!(pr_info.title, "Add new feature");
    assert!(pr_info.url.contains("/pull/1"));
    assert!(mock.was_pr_created_for_branch("feature-branch"));
}

#[test]
fn test_mock_update_pr() {
    let mut mock = MockGitHubClient::new();

    let pr_info = mock
        .create_pr("feature-branch", "Add new feature", "This adds a cool feature", "main")
        .unwrap();

    mock.update_pr(pr_info.number, Some("Updated title"), Some("Updated body")).unwrap();

    assert!(mock.was_pr_updated(pr_info.number));
    let updates = mock.get_pr_updates();
    let update = updates.iter().find(|u| u.pr_number == pr_info.number).unwrap();
    assert_eq!(update.title.as_ref().unwrap(), "Updated title");
    assert_eq!(update.body.as_ref().unwrap(), "Updated body");
}

#[test]
fn test_mock_get_pr_status() {
    let mut mock = MockGitHubClient::new();

    let pr_info = mock
        .create_pr("feature-branch", "Add new feature", "This adds a cool feature", "main")
        .unwrap();

    let status = mock.get_pr_status(pr_info.number).unwrap();
    assert_eq!(status.number, pr_info.number);
    assert_eq!(status.state, "open");
    assert_eq!(status.title, "Add new feature");
}

#[test]
fn test_mock_get_multiple_pr_statuses() {
    let mut mock = MockGitHubClient::new();

    let pr1 = mock.create_pr("branch1", "Feature 1", "Body 1", "main").unwrap();
    let pr2 = mock.create_pr("branch2", "Feature 2", "Body 2", "main").unwrap();

    let statuses = mock.get_multiple_pr_statuses(&vec![pr1.number, pr2.number]).unwrap();
    assert_eq!(statuses.len(), 2);
    assert_eq!(statuses[0].number, pr1.number);
    assert_eq!(statuses[1].number, pr2.number);
}

#[test]
fn test_mock_add_predefined_status() {
    let mut mock = MockGitHubClient::new();

    let status = GitHubPRStatus {
        number: 42,
        state: "merged".to_string(),
        title: "Test PR".to_string(),
        url: "https://github.com/test/repo/pull/42".to_string(),
        mergeable: None,
        draft: false,
    };

    mock.add_pr_status(42, status);

    let retrieved = mock.get_pr_status(42).unwrap();
    assert_eq!(retrieved.state, "merged");
    assert_eq!(retrieved.title, "Test PR");
}

#[test]
fn mock_numbers_pull_requests_in_order() {
    let mut mock = MockGitHubClient::new();
    let a = mock.create_pr("a", "A", "", "main").unwrap();
    let b = mock.create_pr("b", "B", "", "main").unwrap();
    assert_eq!((a.number, b.number), (1, 2));
    assert_eq!(b.url, "https://github.com/mock/repo/pull/2");
    let created = mock.get_created_prs();
    assert_eq!(created.len(), 2);
    assert_eq!(created[0].0, "a");
    assert_eq!(created[1].1.number, 2);
}

#[test]
fn mock_unknown_status_is_an_error_and_is_skipped_in_batches() {
    let mut mock = MockGitHubClient::new();
    let err = mock.get_pr_status(7).unwrap_err();
    assert_eq!(err.message, "PR #7 not found");
    let pr = mock.create_pr("x", "X", "", "main").unwrap();
    let statuses = mock.get_multiple_pr_statuses(&vec![7, pr.number, 9]).unwrap();
    assert_eq!(statuses.len(), 1);
    assert_eq!(statuses[0].number, pr.number);
}

#[test]
fn mock_update_title_reaches_status() {
    let mut mock = MockGitHubClient::new();
    let pr = mock.create_pr("x", "Old", "", "main").unwrap();
    mock.update_pr(pr.number, Some("New"), None).unwrap();
    assert_eq!(mock.get_pr_status(pr.number).unwrap().title, "New");
    assert!(!mock.was_pr_updated(99));
}

#[test]
fn mock_pr_body_only_for_created_branches() {
    let mut mock = MockGitHubClient::new();
    assert_eq!(mock.get_pr_body("x"), None);
    mock.create_pr("x", "X", "", "main").unwrap();
    assert_eq!(mock.get_pr_body("x"), Some("Mock PR body for branch: x".to_string()));
}

#[test]
fn mock_status_is_kept_under_the_given_number() {
    let mut mock = MockGitHubClient::new();
    let status = GitHubPRStatus {
        number: 9,
        state: "closed".to_string(),
        title: "Other".to_string(),
        url: String::new(),
        mergeable: Some(false),
        draft: true,
    };
    mock.add_pr_status(5, status);
    let found = mock.get_pr_status(5).unwrap();
    assert_eq!(found.number, 9);
    assert_eq!(found.state, "closed");
    assert!(mock.get_pr_status(9).is_err());
}
