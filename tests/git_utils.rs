use gitx::git_utils::{GitUtils, RemoteUrlError};

#[test]
fn test_is_github_url() {
    assert!(GitUtils::is_github_url("https://github.com/owner/repo.git"));
    assert!(GitUtils::is_github_url("git@github.com:owner/repo.git"));
    assert!(!GitUtils::is_github_url("https://gitlab.com/owner/repo.git"));
    assert!(!GitUtils::is_github_url("invalid-url"));
}

#[test]
fn test_parse_github_url_https() {
    let (owner, name) = GitUtils::parse_github_url("https://github.com/owner/repo.git").unwrap();
    assert_eq!(owner, "owner");
    assert_eq!(name, "repo");
}

#[test]
fn test_parse_github_url_ssh() {
    let (owner, name) = GitUtils::parse_github_url("git@github.com:owner/repo.git").unwrap();
    assert_eq!(owner, "owner");
    assert_eq!(name, "repo");
}

#[test]
fn test_parse_github_url_without_git_suffix() {
    let (owner, name) = GitUtils::parse_github_url("https://github.com/owner/repo").unwrap();
    assert_eq!(owner, "owner");
    assert_eq!(name, "repo");
}

#[test]
fn test_parse_non_github_url() {
    assert!(GitUtils::parse_github_url("https://gitlab.com/owner/repo.git").is_err());
}

#[test]
fn parse_errors_name_the_cause() {
    assert_eq!(
        GitUtils::parse_github_url("https://gitlab.com/owner/repo.git"),
        Err(RemoteUrlError::NotGithub)
    );
    assert_eq!(GitUtils::parse_github_url("not a url"), Err(RemoteUrlError::Unparsable));
    assert_eq!(
        GitUtils::parse_github_url("git@github.com:owner/team/repo.git"),
        Err(RemoteUrlError::InvalidSshFormat)
    );
    assert_eq!(
        GitUtils::parse_github_url("https://github.com/owner"),
        Err(RemoteUrlError::InvalidFormat)
    );
    let (owner, name) = GitUtils::parse_github_url("https://github.com//owner/repo").unwrap();
    assert_eq!((owner.as_str(), name.as_str()), ("owner", "repo"));
}
