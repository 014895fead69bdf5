use feluda::sources::{
    crates_io_crate_url, crates_io_repository, github_contents_urls, github_download_url,
    github_repository_parts, go_module_repository, guessed_github_repositories,
    npm_package_repository, npm_release_url, pypi_project_repository,
};

#[test]
fn crates_io_repository_on_github() {
    assert_eq!(crates_io_crate_url("serde"), "https://crates.io/api/v1/crates/serde");
    assert_eq!(
        crates_io_repository(r#"{"crate": {"repository": "https://github.com/serde-rs/serde"}}"#),
        Some("https://github.com/serde-rs/serde".to_string())
    );
    assert_eq!(crates_io_repository(r#"{"crate": {"repository": "https://gitlab.com/x/y"}}"#), None);
    assert_eq!(crates_io_repository("{}"), None);
}

#[test]
fn npm_repository_web_address() {
    assert_eq!(npm_release_url("lodash", "4.17.21"), "https://registry.npmjs.org/lodash/4.17.21");
    assert_eq!(
        npm_package_repository(r#"{"repository": {"url": "git+https://github.com/lodash/lodash.git"}}"#),
        Some("https://github.com/lodash/lodash".to_string())
    );
    assert_eq!(
        npm_package_repository(r#"{"repository": {"url": "git://github.com/a/b.git.git"}}"#),
        Some("https://github.com/a/b".to_string())
    );
    assert_eq!(npm_package_repository(r#"{"repository": "github:a/b"}"#), None);
}

#[test]
fn pypi_homepage_on_github() {
    assert_eq!(
        pypi_project_repository(r#"{"info": {"project_urls": {"Homepage": "https://github.com/psf/requests"}}}"#),
        Some("https://github.com/psf/requests".to_string())
    );
    assert_eq!(pypi_project_repository(r#"{"info": {"project_urls": null}}"#), None);
}

#[test]
fn go_module_repositories() {
    assert_eq!(
        go_module_repository("github.com/user/repo/v2/sub"),
        Some("https://github.com/user/repo".to_string())
    );
    assert_eq!(go_module_repository("github.com/user"), Some("https://github.com/user".to_string()));
    assert_eq!(go_module_repository("golang.org/x/net"), None);
}

#[test]
fn guessed_repositories_of_a_name() {
    assert_eq!(
        guessed_github_repositories("foo"),
        vec![
            "https://github.com/foo/foo".to_string(),
            "https://github.com/foo/libfoo".to_string(),
            "https://github.com/foo/foo-rs".to_string(),
            "https://github.com/foo/foo.js".to_string(),
        ]
    );
}

#[test]
fn repository_owner_and_name() {
    assert_eq!(
        github_repository_parts("https://github.com/owner/repo/"),
        Some(("owner".to_string(), "repo".to_string()))
    );
    assert_eq!(github_repository_parts("repo"), None);
}

#[test]
fn license_file_documents() {
    let urls = github_contents_urls("o", "r");
    assert_eq!(urls.len(), 10);
    assert_eq!(urls[0], "https://api.github.com/repos/o/r/contents/LICENSE");
    assert_eq!(urls[9], "https://api.github.com/repos/o/r/contents/COPYRIGHT.txt");
    assert_eq!(
        github_download_url(r#"{"download_url": "https://raw.githubusercontent.com/o/r/main/LICENSE"}"#),
        Some("https://raw.githubusercontent.com/o/r/main/LICENSE".to_string())
    );
    assert_eq!(github_download_url(r#"{"download_url": null}"#), None);
}
