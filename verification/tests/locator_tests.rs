use git_analyse::locator::{
    accept_download, archive_url, begin_resolve, finish_resolve, parse_repo_url, ResolveStep,
    ResolvedTarget,
};
use git_analyse::{require_api_key, AnalyseError};

#[test]
fn test_parse_repo_url() {
    let repo_url = "https://github.com/ca333/git_analyse";
    let result = parse_repo_url(repo_url).unwrap();
    assert_eq!(
        (
            "ca333".to_string(),
            "git_analyse".to_string(),
            Some("github.com".to_string())
        ),
        (result.0, result.1, result.2)
    );
}

#[test]
fn parse_repo_url_rejects_short_references() {
    assert!(matches!(
        parse_repo_url("widget"),
        Err(AnalyseError::InvalidReference)
    ));
    assert!(matches!(
        parse_repo_url("acme/widget/"),
        Err(AnalyseError::InvalidReference)
    ));
    assert!(matches!(
        parse_repo_url("//widget"),
        Err(AnalyseError::InvalidReference)
    ));
}

#[test]
fn parse_repo_url_accepts_bare_owner_name() {
    let result = parse_repo_url("acme/widget").unwrap();
    assert_eq!(result.0, "acme");
    assert_eq!(result.1, "widget");
    assert_eq!(result.2, None);
}

#[test]
fn github_default_branch_resolution() {
    let step = begin_resolve("https://github.com/acme/widget", None).unwrap();
    match step {
        ResolveStep::NeedMetadata(p) => {
            assert_eq!(p.metadata_url, "https://api.github.com/repos/acme/widget");
            assert_eq!(p.owner, "acme");
            assert_eq!(p.name, "widget");
            let t = finish_resolve(p, 200, "{\"default_branch\": \"dev\"}").unwrap();
            assert_eq!(t.branch, "dev");
            let url = archive_url(&t).unwrap();
            assert_eq!(url, "https://github.com/acme/widget/archive/dev.zip");
        }
        ResolveStep::Resolved(_) => panic!("expected a metadata query"),
    }
}

#[test]
fn gitlab_explicit_branch_archive_url() {
    let step = begin_resolve("gitlab.com/acme/widget", Some("v2".to_string())).unwrap();
    match step {
        ResolveStep::Resolved(t) => {
            assert_eq!(t.branch, "v2");
            let url = archive_url(&t).unwrap();
            assert_eq!(
                url,
                "https://gitlab.com/acme/widget/-/archive/v2/widget-v2.zip"
            );
        }
        ResolveStep::NeedMetadata(_) => panic!("explicit branch needs no metadata"),
    }
}

#[test]
fn metadata_fetch_failure_carries_status_and_body() {
    let step = begin_resolve("https://github.com/acme/widget", None).unwrap();
    match step {
        ResolveStep::NeedMetadata(p) => match finish_resolve(p, 404, "Not Found") {
            Err(AnalyseError::MetadataFetchFailed { status, body }) => {
                assert_eq!(status, 404);
                assert_eq!(body, "Not Found");
            }
            _ => panic!("expected MetadataFetchFailed"),
        },
        ResolveStep::Resolved(_) => panic!("expected a metadata query"),
    }
}

#[test]
fn metadata_body_that_is_not_json_fails() {
    let step = begin_resolve("https://github.com/acme/widget", None).unwrap();
    match step {
        ResolveStep::NeedMetadata(p) => {
            assert!(matches!(
                finish_resolve(p, 200, "plainly not json"),
                Err(AnalyseError::MetadataFetchFailed { status: 200, .. })
            ));
        }
        ResolveStep::Resolved(_) => panic!("expected a metadata query"),
    }
}

#[test]
fn absent_default_branch_falls_back_to_main() {
    let step = begin_resolve("https://github.com/acme/widget", None).unwrap();
    match step {
        ResolveStep::NeedMetadata(p) => {
            let t = finish_resolve(p, 200, "{\"name\": \"widget\"}").unwrap();
            assert_eq!(t.branch, "main");
        }
        ResolveStep::Resolved(_) => panic!("expected a metadata query"),
    }
}

#[test]
fn metadata_for_other_providers_is_unsupported() {
    assert!(matches!(
        begin_resolve("https://gitlab.com/acme/widget", None),
        Err(AnalyseError::UnsupportedProvider)
    ));
}

#[test]
fn archive_url_for_unknown_host_is_unsupported() {
    let t = ResolvedTarget {
        reference: "https://example.com/acme/widget".to_string(),
        owner: "acme".to_string(),
        name: "widget".to_string(),
        branch: "main".to_string(),
    };
    assert!(matches!(
        archive_url(&t),
        Err(AnalyseError::UnsupportedProvider)
    ));
}

#[test]
fn download_status_decides_acceptance() {
    let bytes = vec![1u8, 2, 3];
    assert_eq!(accept_download(200, bytes.clone()).unwrap(), bytes);
    match accept_download(404, bytes) {
        Err(AnalyseError::DownloadFailed { status }) => assert_eq!(status, 404),
        _ => panic!("expected DownloadFailed"),
    }
}

#[test]
fn api_key_is_required() {
    assert!(matches!(
        require_api_key(None),
        Err(AnalyseError::MissingCredential)
    ));
    assert_eq!(require_api_key(Some("k".to_string())).unwrap(), "k");
}
