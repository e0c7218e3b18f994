use gitx::branch_naming::{
    extract_feature_name, extract_username, generate_branch_name, is_transient_pr_branch,
    sanitize_commit_title,
};

#[test]
fn test_sanitize_commit_title() {
    assert_eq!(sanitize_commit_title("Add user authentication"), "add-user-authentication");
    assert_eq!(sanitize_commit_title("Fix bug with special chars!@#"), "fix-bug-with-special-chars");
    assert_eq!(sanitize_commit_title("Multiple    spaces"), "multiple-spaces");
    assert_eq!(sanitize_commit_title("UPPERCASE"), "uppercase");
    assert_eq!(sanitize_commit_title(""), "untitled");
    assert_eq!(sanitize_commit_title("---"), "untitled");

    let long_title = "a".repeat(60);
    let sanitized = sanitize_commit_title(&long_title);
    assert!(sanitized.len() <= 50);
}

#[test]
fn test_generate_branch_name() {
    assert_eq!(
        generate_branch_name("alice", "Add user authentication"),
        "gitx/alice/add-user-authentication"
    );
    assert_eq!(
        generate_branch_name("bob", "Fix login validation"),
        "gitx/bob/fix-login-validation"
    );
}

#[test]
fn test_is_transient_pr_branch() {
    assert!(is_transient_pr_branch("gitx/alice/add-user-auth"));
    assert!(is_transient_pr_branch("gitx/bob/fix-bug"));
    assert!(!is_transient_pr_branch("main"));
    assert!(!is_transient_pr_branch("feature/new-ui"));
    assert!(!is_transient_pr_branch("gitx/alice"));
    assert!(!is_transient_pr_branch("gitx/alice/feature/nested"));
}

#[test]
fn test_extract_username() {
    assert_eq!(extract_username("gitx/alice/add-user-auth"), Some("alice"));
    assert_eq!(extract_username("gitx/bob/fix-bug"), Some("bob"));
    assert_eq!(extract_username("main"), None);
    assert_eq!(extract_username("gitx/alice"), None);
}

#[test]
fn test_extract_feature_name() {
    assert_eq!(extract_feature_name("gitx/alice/add-user-auth"), Some("add-user-auth"));
    assert_eq!(extract_feature_name("gitx/bob/fix-bug"), Some("fix-bug"));
    assert_eq!(extract_feature_name("main"), None);
    assert_eq!(extract_feature_name("gitx/alice"), None);
}

#[test]
fn title_uses_first_line_only() {
    assert_eq!(sanitize_commit_title("Add login flow\n\nLonger description"), "add-login-flow");
    assert_eq!(sanitize_commit_title("Windows line\r\nsecond"), "windows-line");
}

#[test]
fn title_is_capped_at_fifty_and_retrimmed() {
    let title = format!("{} tail", "a".repeat(49));
    // 49 'a', then a hyphen at position 50 which the cut leaves at the end.
    assert_eq!(sanitize_commit_title(&title), "a".repeat(49));
    assert_eq!(sanitize_commit_title(&"b".repeat(60)), "b".repeat(50));
}

#[test]
fn title_lowercases_before_filtering() {
    assert_eq!(sanitize_commit_title("HELLO World 42"), "hello-world-42");
    assert_eq!(sanitize_commit_title("  !!  "), "untitled");
    assert_eq!(sanitize_commit_title("\nbody only"), "untitled");
}

#[test]
fn derived_names_have_the_namespace_shape() {
    let messages = [
        "Add OAuth2.0 authentication & validation!",
        "",
        "???",
        "--a--b--",
        "Ünïcödé title",
    ];
    for m in messages {
        let name = generate_branch_name("alice", m);
        assert!(is_transient_pr_branch(&name));
        assert_eq!(extract_username(&name), Some("alice"));
        let title = extract_feature_name(&name).unwrap();
        assert!(!title.is_empty() && title.len() <= 50);
        assert!(!title.starts_with('-') && !title.ends_with('-'));
        assert!(!title.contains("--"));
        assert!(title.chars().all(|c| c.is_ascii_lowercase() || c.is_ascii_digit() || c == '-'));
    }
    assert_eq!(
        generate_branch_name("alice", "Add OAuth2.0 authentication & validation!"),
        "gitx/alice/add-oauth2-0-authentication-validation"
    );
}

#[test]
fn deriving_twice_gives_the_same_name() {
    let a = generate_branch_name("carol", "Refactor the parser (again)");
    let b = generate_branch_name("carol", "Refactor the parser (again)");
    assert_eq!(a, b);
    assert_eq!(a, "gitx/carol/refactor-the-parser-again");
}
