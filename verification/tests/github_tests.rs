use gh_dir::github::{get_repository_info, RepoInfoError};
use gh_dir::tree::api_url_for;

#[test]
fn test_repository_info_with_reference() {
    let info = get_repository_info("https://github.com/owner/repo/tree/main/some/dir").unwrap();
    assert_eq!(info.user, "owner");
    assert_eq!(info.repository, "repo");
    assert_eq!(info.git_reference.as_deref(), Some("main"));
    assert_eq!(info.directory, "some/dir");
}

#[test]
fn test_repository_info_without_reference() {
    let info = get_repository_info("https://github.com/owner/repo/sub/dir").unwrap();
    assert_eq!(info.user, "owner");
    assert_eq!(info.repository, "repo");
    assert!(info.git_reference.is_none());
    assert_eq!(info.directory, "sub/dir");
}

#[test]
fn test_repository_info_repo_root() {
    let info = get_repository_info("https://github.com/owner/repo").unwrap();
    assert_eq!(info.user, "owner");
    assert_eq!(info.repository, "repo");
    assert!(info.git_reference.is_none());
    assert_eq!(info.directory, "");
}

#[test]
fn test_repository_info_rejects_other_host() {
    let err = get_repository_info("https://gitlab.com/a/b").unwrap_err();
    assert!(matches!(err, RepoInfoError::InvalidUrl(_)));
    assert_eq!(err.message(), "Invalid GitHub URL: Not a GitHub URL");
}

#[test]
fn test_repository_info_rejects_unparsable() {
    let err = get_repository_info("not a url").unwrap_err();
    assert!(matches!(err, RepoInfoError::InvalidUrl(_)));
}

#[test]
fn test_repository_info_rejects_short_path() {
    let err = get_repository_info("https://github.com/onlyuser").unwrap_err();
    assert!(matches!(err, RepoInfoError::NotARepository(_)));
    assert_eq!(
        err.message(),
        "URL does not point to a repository: URL path does not contain user and repository"
    );
}

#[test]
fn test_api_url() {
    let url = api_url_for("owner", "repo", "some/dir");
    assert_eq!(url, "https://api.github.com/repos/owner/repo/contents/some/dir");
}
