use github_release_collector::db::{
    calculate_hash, decide_upsert, normalize_repo, Release, ReleaseQuery, Repo, SearchQuery,
    SyncStatus, UpsertAction, UpsertResult, DEFAULT_LIMIT,
};

fn release() -> Release {
    Release {
        release_id: 42,
        repo: "owner/repo".to_string(),
        tag_name: Some("v1.0".to_string()),
        name: Some("First".to_string()),
        draft: false,
        prerelease: true,
        created_at: Some("2024-01-01".to_string()),
        published_at: Some("2024-01-02".to_string()),
        updated_at: None,
        html_url: Some("https://github.com/owner/repo/releases/v1.0".to_string()),
        body: Some("notes".to_string()),
        body_hash: None,
        is_deleted: false,
        deleted_at: None,
    }
}

#[test]
fn repo_urls_reduce_to_keys() {
    assert_eq!(normalize_repo("owner/repo"), "owner/repo");
    assert_eq!(normalize_repo("owner/repo/"), "owner/repo");
    assert_eq!(normalize_repo("https://github.com/owner/repo"), "owner/repo");
    assert_eq!(normalize_repo("https://github.com/owner/repo//"), "owner/repo");
    assert_eq!(normalize_repo("http://github.com/owner/repo/"), "owner/repo");
    assert_eq!(normalize_repo("github.com/owner/repo/"), "github.com/owner/repo");
    assert_eq!(normalize_repo("https://gitlab.com/a/b/"), "https://gitlab.com/a/b");
    assert_eq!(normalize_repo(""), "");
}

#[test]
fn repo_key_is_stable() {
    for r in ["owner/repo/", "https://github.com/a/b/", "http://github.com/c", "x//"] {
        let k = normalize_repo(r);
        assert_eq!(normalize_repo(&k), k);
        assert!(!k.ends_with('/'));
    }
    // a key that still begins with a URL prefix is reduced again
    let k = normalize_repo("https://github.com/https://github.com/x");
    assert_eq!(k, "https://github.com/x");
    assert_eq!(normalize_repo(&k), "x");
}

#[test]
fn url_forms_name_one_repository() {
    for p in ["owner/repo", "owner/repo/", "a/b//"] {
        let plain = normalize_repo(p);
        assert_eq!(normalize_repo(&format!("https://github.com/{}", p)), plain);
        assert_eq!(normalize_repo(&format!("http://github.com/{}", p)), plain);
    }
}

#[test]
fn body_digest_is_hex_sha256() {
    assert_eq!(
        calculate_hash(""),
        "e3b0c44298fc1c149afbf4c8996fb92427ae41e4649b934ca495991b7852b855"
    );
    assert_eq!(
        calculate_hash("abc"),
        "ba7816bf8f01cfea414140de5dae2223b00361a396177a9cb410ff61f20015ad"
    );
    assert_eq!(calculate_hash("notes").len(), 64);
}

#[test]
fn upsert_decisions() {
    let h = "abc".to_string();
    assert_eq!(decide_upsert(&None, &h), UpsertAction::Insert);
    assert_eq!(decide_upsert(&Some((h.clone(), 1)), &h), UpsertAction::Restore);
    assert_eq!(decide_upsert(&Some(("other".to_string(), 0)), &h), UpsertAction::Update);
    assert_eq!(decide_upsert(&Some((h.clone(), 0)), &h), UpsertAction::Skip);
}

#[test]
fn upsert_counts_one_release() {
    for a in [UpsertAction::Insert, UpsertAction::Restore, UpsertAction::Update, UpsertAction::Skip] {
        assert_eq!(UpsertResult::for_action(a).total(), 1);
    }
    let r = UpsertResult::for_action(UpsertAction::Restore);
    assert_eq!((r.inserted, r.updated, r.skipped), (0, 1, 0));
    let r = UpsertResult { inserted: 3, updated: 4, skipped: 5 };
    assert_eq!(r.total(), 12);
}

#[test]
fn sync_status_starts_clean() {
    let s = SyncStatus::started(true, "2024-01-01T00:00:00+00:00".to_string());
    assert!(s.is_full_sync);
    assert!(s.success_at.is_none() && s.error.is_none() && s.etag.is_none());
    assert_eq!(s.fail_count, 0);
    assert_eq!(s.started_at, "2024-01-01T00:00:00+00:00");
    let s = SyncStatus::started(false, "T".to_string());
    assert_eq!(s.started_at, "T");
    assert!(!s.is_full_sync);
}

#[test]
fn release_texts() {
    let r = release();
    assert_eq!(r.display_text(), "[42] owner/repo - First (2024-01-02)");
    assert_eq!(
        r.full(),
        "Release: First (42)\nTag: v1.0\nRepo: owner/repo\nDraft: false | Pre-release: true\nCreated: 2024-01-01\nPublished: 2024-01-02\nUpdated: N/A\nURL: https://github.com/owner/repo/releases/v1.0\n\nnotes"
    );
    let mut bare = release();
    bare.name = None;
    bare.tag_name = None;
    bare.published_at = None;
    bare.body = None;
    bare.release_id = -7;
    assert_eq!(bare.display_text(), "[-7] owner/repo - Unnamed (unknown)");
    assert!(bare.full().starts_with("Release: Unnamed (-7)\nTag: no tag\n"));
    assert!(bare.full().ends_with("\n\n"));
    let mut tagged = release();
    tagged.name = None;
    assert_eq!(tagged.display_text(), "[42] owner/repo - v1.0 (2024-01-02)");
}

#[test]
fn repo_texts() {
    let mut r = Repo {
        repo: "owner/repo".to_string(),
        enabled: true,
        last_polled_at: None,
        last_full_sync_at: None,
        last_success_at: None,
        last_error: None,
        fail_count: 0,
        etag_page1: None,
    };
    assert_eq!(r.display_text(), "owner/repo [enabled] | Last sync: never | Failures: 0");
    r.enabled = false;
    r.last_success_at = Some("2024-05-01".to_string());
    r.last_error = Some("boom".to_string());
    r.fail_count = 3;
    assert_eq!(
        r.display_text(),
        "owner/repo [disabled] | Last sync: 2024-05-01 | Failures: 3 | Error: boom"
    );
}

#[test]
fn queries_take_defaults() {
    let q = ReleaseQuery::new(Some("https://github.com/o/r/"), None, false, None);
    assert_eq!(q.repo.as_deref(), Some("o/r"));
    assert_eq!(q.limit, DEFAULT_LIMIT);
    assert_eq!(DEFAULT_LIMIT, 50);
    let q = ReleaseQuery::new(None, Some(5), true, None);
    assert!(q.repo.is_none() && q.limit == 5 && q.include_deleted);
    assert_eq!(q.filter_sql(), " ORDER BY published_at DESC LIMIT ?3");
    let s = SearchQuery::new("fix", None);
    assert_eq!(s.pattern, "%fix%");
    assert_eq!(s.limit, 50);
}

#[test]
fn saved_status_updates_repo_state() {
    let r = Repo {
        repo: "o/r".to_string(),
        enabled: false,
        last_polled_at: None,
        last_full_sync_at: Some("F0".to_string()),
        last_success_at: Some("S0".to_string()),
        last_error: None,
        fail_count: 2,
        etag_page1: Some("E0".to_string()),
    };
    let mut s = SyncStatus::started(false, "T1".to_string());
    s.error = Some("boom".to_string());
    s.fail_count = 3;
    s.etag = Some("E1".to_string());
    let u = r.record_sync(&s);
    assert_eq!(u.repo, "o/r");
    assert!(!u.enabled);
    assert_eq!(u.last_polled_at.as_deref(), Some("T1"));
    assert_eq!(u.last_full_sync_at.as_deref(), Some("F0"));
    assert!(u.last_success_at.is_none());
    assert_eq!(u.last_error.as_deref(), Some("boom"));
    assert_eq!(u.fail_count, 3);
    assert_eq!(u.etag_page1.as_deref(), Some("E1"));
    let mut full = SyncStatus::started(true, "T2".to_string());
    full.success_at = Some("T3".to_string());
    let u = r.record_sync(&full);
    assert_eq!(u.last_full_sync_at.as_deref(), Some("T2"));
    assert_eq!(u.last_success_at.as_deref(), Some("T3"));
    assert_eq!(u.fail_count, 0);
    assert!(u.etag_page1.is_none());
}

#[test]
fn listing_statements() {
    let q = ReleaseQuery::new(Some("o/r"), None, false, None);
    assert_eq!(q.filter_sql(), " WHERE repo = ?1 AND is_deleted = 0 ORDER BY published_at DESC LIMIT ?3");
    let q = ReleaseQuery::new(Some("o/r"), None, true, None);
    assert_eq!(q.filter_sql(), " WHERE repo = ?1 ORDER BY published_at DESC LIMIT ?3");
    let q = ReleaseQuery::new(None, None, false, None);
    assert_eq!(q.filter_sql(), " WHERE is_deleted = 0 ORDER BY published_at DESC LIMIT ?3");
    let q = ReleaseQuery::new(None, None, true, Some("2024-01-01T00:00:00Z".to_string()));
    assert_eq!(q.since.as_deref(), Some("2024-01-01T00:00:00Z"));
    assert_eq!(q.filter_sql(), " WHERE published_at >= ?2 ORDER BY published_at DESC LIMIT ?3");
    let q = ReleaseQuery::new(Some("o/r"), None, false, Some("t".to_string()));
    assert_eq!(
        q.filter_sql(),
        " WHERE repo = ?1 AND is_deleted = 0 AND published_at >= ?2 ORDER BY published_at DESC LIMIT ?3"
    );
}

#[test]
fn full_text_ignores_digest_and_deletion() {
    let a = release();
    let mut b = release();
    b.body_hash = Some("other".to_string());
    b.is_deleted = true;
    b.deleted_at = Some("2024-06-01".to_string());
    assert_eq!(a.full(), b.full());
    let head = format!(
        "Release: {} ({})\nTag: {}\nRepo: {}\n",
        a.name.as_deref().or(a.tag_name.as_deref()).unwrap_or("Unnamed"),
        a.release_id,
        a.tag_name.as_deref().unwrap_or("no tag"),
        a.repo
    );
    assert!(a.full().starts_with(&head));
    assert!(a.full().ends_with(&format!("\n\n{}", a.body.as_deref().unwrap_or(""))));
}
