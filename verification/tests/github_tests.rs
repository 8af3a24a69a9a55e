use github_release_collector::github::{
    bearer_authorization, http_status_error, judge_response, rate_limited_error, releases_url,
    GithubRelease, ReleasePage, ReleasePager, ResponseVerdict, MAX_PAGES,
};
use github_release_collector::Error;

fn gh(id: i64) -> GithubRelease {
    GithubRelease {
        id,
        tag_name: None,
        name: None,
        draft: false,
        prerelease: false,
        created_at: None,
        published_at: None,
        updated_at: None,
        html_url: None,
        body: None,
    }
}

#[test]
fn request_texts() {
    assert_eq!(
        releases_url("owner/repo", 100, 1),
        "https://api.github.com/repos/owner/repo/releases?per_page=100&page=1"
    );
    assert_eq!(
        releases_url("a/b", 30, 12),
        "https://api.github.com/repos/a/b/releases?per_page=30&page=12"
    );
    assert_eq!(bearer_authorization("tok"), "Bearer tok");
}

#[test]
fn answers_are_judged_by_status() {
    assert_eq!(judge_response(304, true), ResponseVerdict::NotModified);
    assert_eq!(judge_response(304, false), ResponseVerdict::Failed);
    assert_eq!(judge_response(403, true), ResponseVerdict::RateLimited);
    assert_eq!(judge_response(404, false), ResponseVerdict::Failed);
    assert_eq!(judge_response(500, true), ResponseVerdict::Failed);
    assert_eq!(judge_response(200, true), ResponseVerdict::Accepted);
    assert_eq!(judge_response(299, false), ResponseVerdict::Accepted);
    assert_eq!(judge_response(199, false), ResponseVerdict::Failed);
}

#[test]
fn answer_errors() {
    match rate_limited_error(&Some("0".to_string())) {
        Error::GithubApi(m) => assert_eq!(m, "Rate limited. Remaining: 0"),
        _ => panic!("wrong kind"),
    }
    match rate_limited_error(&None) {
        Error::GithubApi(m) => assert_eq!(m, "Rate limited. Remaining: unknown"),
        _ => panic!("wrong kind"),
    }
    let e = http_status_error("404 Not Found", "missing");
    assert_eq!(e.message(), "GitHub API error: HTTP 404 Not Found: missing");
}

#[test]
fn unchanged_page() {
    let p = ReleasePage::not_modified(&Some("W/\"abc\"".to_string()));
    assert!(p.not_modified);
    assert!(p.releases.is_empty());
    assert_eq!(p.etag.as_deref(), Some("W/\"abc\""));
}

#[test]
fn pager_walks_pages_in_order_until_empty() {
    let mut p = ReleasePager::new(2);
    assert_eq!(
        p.next_url("o/r").unwrap(),
        "https://api.github.com/repos/o/r/releases?per_page=2&page=1"
    );
    p.receive(vec![gh(1), gh(2)]);
    assert_eq!(p.page(), 2);
    assert!(p.next_url("o/r").unwrap().ends_with("&page=2"));
    p.receive(vec![gh(3)]);
    p.receive(vec![]);
    assert!(p.is_finished());
    assert!(p.next_url("o/r").is_none());
    let ids: Vec<i64> = p.into_releases().iter().map(|g| g.id).collect();
    assert_eq!(ids, vec![1, 2, 3]);
}

#[test]
fn pager_stops_at_page_limit() {
    let mut p = ReleasePager::new(1);
    let mut asked = 0;
    while let Some(_url) = p.next_url("o/r") {
        asked += 1;
        p.receive(vec![gh(asked)]);
    }
    assert_eq!(asked as u64, MAX_PAGES);
    assert_eq!(p.into_releases().len(), 100);
}
