//! Tests of the repository-identifier canonicalizer.

use backend::entities::ProjectEntity;
use backend::error::Error;

fn canonical_of(input: &str) -> String {
    ProjectEntity::new_validated(input)
        .unwrap()
        .github_url()
        .clone()
}

fn assert_rejected(input: &str) {
    let result = ProjectEntity::new_validated(input);
    assert!(
        matches!(result.unwrap_err(), Error::InvalidGithubUrl(_)),
        "expected InvalidGithubUrl for {:?}",
        input
    );
}

#[test]
fn test_project_entity_canonicalization_success() {
    let cases = [
        // basic URL formats
        ("https://github.com/owner/repo", "https://github.com/owner/repo.git"),
        ("https://github.com/owner/repo.git", "https://github.com/owner/repo.git"),
        ("https://github.com/owner/repo/", "https://github.com/owner/repo.git"),
        ("https://github.com/owner/repo.git/", "https://github.com/owner/repo.git"),
        // case normalization
        ("https://github.com/OWNER/REPO", "https://github.com/owner/repo.git"),
        ("https://github.com/MyOwner/MyRepo.git", "https://github.com/myowner/myrepo.git"),
        // owner name variations
        ("https://github.com/my-org/repo", "https://github.com/my-org/repo.git"),
        ("https://github.com/user123/repo", "https://github.com/user123/repo.git"),
        ("https://github.com/a/repo", "https://github.com/a/repo.git"),
        (
            "https://github.com/thisownerisexactlythirtyninecharacters/repo",
            "https://github.com/thisownerisexactlythirtyninecharacters/repo.git",
        ),
        // repository name variations
        ("https://github.com/owner/my-repo", "https://github.com/owner/my-repo.git"),
        ("https://github.com/owner/my_repo", "https://github.com/owner/my_repo.git"),
        ("https://github.com/owner/repo.name", "https://github.com/owner/repo.name.git"),
        ("https://github.com/owner/repo123", "https://github.com/owner/repo123.git"),
        ("https://github.com/owner/a", "https://github.com/owner/a.git"),
        (
            "https://github.com/owner/my-repo_name.example",
            "https://github.com/owner/my-repo_name.example.git",
        ),
        // mixed valid characters
        (
            "https://github.com/test-user123/my_repo-name.example",
            "https://github.com/test-user123/my_repo-name.example.git",
        ),
    ];
    for (input, expected) in cases {
        assert_eq!(canonical_of(input), expected, "input {:?}", input);
    }
}

#[test]
fn test_project_entity_canonicalization_failure() {
    let cases = [
        // protocol and domain validation
        "http://github.com/owner/repo",
        "https://gitlab.com/owner/repo",
        "github.com/owner/repo",
        "ftp://github.com/owner/repo",
        // URL structure validation
        "",
        "not-a-url",
        "https://github.com",
        "https://github.com/",
        "https://github.com//repo",
        "https://github.com/owner/",
        "https://github.com/owner/repo/extra",
        "https://github.com/owner/repo/tree/main",
        // fragment and query validation
        "https://github.com/owner/repo#fragment",
        "https://github.com/owner/repo?query=param",
        "https://github.com/owner/repo?param=value#section",
        // owner name validation
        "https://github.com/-invalid/repo",
        "https://github.com/invalid-/repo",
        "https://github.com/my--org/repo",
        "https://github.com/.hidden/repo",
        "https://github.com/_private/repo",
        "https://github.com/my owner/repo",
        "https://github.com/user@domain/repo",
        "https://github.com/thisownernameiswaytoolongandexceedsthemaximumlengthof39characters/repo",
        // repository name validation
        "https://github.com/owner/.hidden",
        "https://github.com/owner/-invalid",
        "https://github.com/owner/_private",
        "https://github.com/owner/invalid.",
        "https://github.com/owner/invalid-",
        "https://github.com/owner/invalid_",
        "https://github.com/owner/repo@name",
        "https://github.com/owner/repo name",
        // encoding and character validation
        "https://github.com/owner/repo%20name",
        "https://github.com/owner/../repo",
        "https://github.com/owner/repo with spaces",
        // mixed invalid scenarios
        "https://github.com/.invalid/repo-?param=value",
    ];
    for input in cases {
        assert_rejected(input);
    }
}

#[test]
fn test_project_entity_boundary_conditions() {
    let repo_100 = "a".repeat(100);
    let input_ok = format!("https://github.com/owner/{}", repo_100);
    let project = ProjectEntity::new_validated(&input_ok).unwrap();
    assert_eq!(
        project.github_url().as_str(),
        format!("https://github.com/owner/{}.git", repo_100)
    );

    let repo_101 = "a".repeat(101);
    let input_long = format!("https://github.com/owner/{}", repo_101);
    assert!(matches!(
        ProjectEntity::new_validated(&input_long).unwrap_err(),
        Error::InvalidGithubUrl(_)
    ));
}

#[test]
fn test_owner_boundary_conditions() {
    let owner_39 = "o".repeat(39);
    assert_eq!(
        canonical_of(&format!("https://github.com/{}/repo", owner_39)),
        format!("https://github.com/{}/repo.git", owner_39)
    );
    let owner_40 = "o".repeat(40);
    assert_rejected(&format!("https://github.com/{}/repo", owner_40));
}

#[test]
fn test_canonicalization_idempotent() {
    let inputs = [
        "https://github.com/Owner/Repo",
        "https://github.com/owner/repo.git",
        "https://github.com/my-org/my_repo.name/",
    ];
    for input in inputs {
        let once = canonical_of(input);
        let twice = canonical_of(&once);
        assert_eq!(once, twice, "input {:?}", input);
    }
}

#[test]
fn test_case_suffix_slash_invariance() {
    let expected = "https://github.com/owner/repo.git";
    assert_eq!(canonical_of("https://github.com/Owner/Repo"), expected);
    assert_eq!(canonical_of("https://github.com/owner/repo.git"), expected);
    assert_eq!(canonical_of("https://github.com/OWNER/REPO/"), expected);
}

#[test]
fn test_host_port_handling() {
    // an explicit port leaves the host github.com
    assert_eq!(
        canonical_of("https://github.com:443/owner/repo"),
        "https://github.com/owner/repo.git"
    );
    // an out-of-range port is a malformed reference
    assert_rejected("https://github.com:99999/owner/repo");
    // upper-case scheme and host are normalized before the checks
    assert_eq!(
        canonical_of("HTTPS://GITHUB.COM/Owner/Repo"),
        "https://github.com/owner/repo.git"
    );
}

#[test]
fn test_whitespace_only_reference_is_rejected() {
    assert_rejected("   ");
    assert_rejected("\n\t");
}

#[test]
fn test_surrounding_whitespace_is_ignored() {
    assert_eq!(
        canonical_of("  https://github.com/Owner/Repo  "),
        "https://github.com/owner/repo.git"
    );
    assert_eq!(
        canonical_of("\thttps://github.com/owner/repo\n"),
        "https://github.com/owner/repo.git"
    );
}

#[test]
fn test_validate_owner_name() {
    assert!(ProjectEntity::validate_owner_name("valid-owner1").is_ok());
    assert!(matches!(
        ProjectEntity::validate_owner_name("-bad").unwrap_err(),
        Error::InvalidGithubUrl(_)
    ));
    assert!(matches!(
        ProjectEntity::validate_owner_name("a--b").unwrap_err(),
        Error::InvalidGithubUrl(_)
    ));
    assert!(matches!(
        ProjectEntity::validate_owner_name("").unwrap_err(),
        Error::InvalidGithubUrl(_)
    ));
}

#[test]
fn test_validate_repo_name() {
    assert!(ProjectEntity::validate_repo_name("repo_1.name").is_ok());
    assert!(matches!(
        ProjectEntity::validate_repo_name(".bad").unwrap_err(),
        Error::InvalidGithubUrl(_)
    ));
    assert!(matches!(
        ProjectEntity::validate_repo_name("bad.").unwrap_err(),
        Error::InvalidGithubUrl(_)
    ));
    assert!(matches!(
        ProjectEntity::validate_repo_name("").unwrap_err(),
        Error::InvalidGithubUrl(_)
    ));
}

#[test]
fn test_canonicalize_and_validate_direct() {
    assert_eq!(
        ProjectEntity::canonicalize_and_validate("https://github.com/A/B").unwrap(),
        "https://github.com/a/b.git"
    );
    assert!(ProjectEntity::canonicalize_and_validate("https://example.com/a/b").is_err());
}
