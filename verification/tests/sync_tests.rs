use github_release_collector::db::{calculate_hash, Release, Repo};
use github_release_collector::github::{GithubRelease, ReleasePage};
use github_release_collector::sync::{
    collect_sync_results, convert_release, deleted_release_ids,
    plan_release_writes, ReleaseWrite, SyncAction, SyncEvent, SyncPhase, SyncTask,
};
use github_release_collector::Error;

fn gh(id: i64, body: Option<&str>) -> GithubRelease {
    GithubRelease {
        id,
        tag_name: Some(format!("v{}", id)),
        name: None,
        draft: false,
        prerelease: false,
        created_at: None,
        published_at: Some("2024-01-01".to_string()),
        updated_at: None,
        html_url: None,
        body: body.map(String::from),
    }
}

fn stored(id: i64, hash: Option<String>) -> Release {
    let mut r = convert_release("o/r", &gh(id, None), "x");
    r.body_hash = hash;
    r
}

fn repo_state(fail_count: i32, etag: Option<&str>) -> Repo {
    Repo {
        repo: "o/r".to_string(),
        enabled: true,
        last_polled_at: None,
        last_full_sync_at: None,
        last_success_at: None,
        last_error: None,
        fail_count,
        etag_page1: etag.map(String::from),
    }
}

#[test]
fn conversion_keeps_fields() {
    let r = convert_release("o/r", &gh(9, Some("text")), "h");
    assert_eq!(r.release_id, 9);
    assert_eq!(r.repo, "o/r");
    assert_eq!(r.tag_name.as_deref(), Some("v9"));
    assert_eq!(r.body.as_deref(), Some("text"));
    assert_eq!(r.body_hash.as_deref(), Some("h"));
    assert!(!r.is_deleted && r.deleted_at.is_none());
}

#[test]
fn planning_inserts_updates_and_skips() {
    let same = calculate_hash("same");
    let fetched = vec![gh(1, Some("same")), gh(2, Some("changed")), gh(3, None), gh(4, Some("x"))];
    let existing = vec![stored(1, Some(same)), stored(2, Some("old".to_string())), stored(4, None)];
    let (writes, inserted, updated) = plan_release_writes("o/r", &fetched, &existing);
    assert_eq!((inserted, updated), (1, 2));
    let kinds: Vec<(bool, i64)> = writes
        .iter()
        .map(|w| match w {
            ReleaseWrite::Insert(r) => (true, r.release_id),
            ReleaseWrite::Update(r) => (false, r.release_id),
        })
        .collect();
    assert_eq!(kinds, vec![(false, 2), (true, 3), (false, 4)]);
    match &writes[1] {
        ReleaseWrite::Insert(r) => assert_eq!(r.body_hash.as_deref(), Some(calculate_hash("").as_str())),
        _ => panic!("expected an insert"),
    }
}

#[test]
fn missing_ids_are_the_stored_ones_not_fetched() {
    let fetched = vec![gh(1, None), gh(3, None)];
    assert_eq!(deleted_release_ids(&vec![1, 2, 3, 4], &fetched), vec![2, 4]);
    assert_eq!(deleted_release_ids(&vec![1, 3], &fetched), Vec::<i64>::new());
}

#[test]
fn gathering_stops_at_first_error() {
    let ok = collect_sync_results(vec![Ok(("a".to_string(), 1, 0)), Ok(("b".to_string(), 0, 2))]).unwrap();
    assert_eq!(ok, vec![("a".to_string(), 1, 0), ("b".to_string(), 0, 2)]);
    let err = collect_sync_results(vec![
        Ok(("a".to_string(), 1, 0)),
        Err(Error::Sync("first".to_string())),
        Err(Error::Sync("second".to_string())),
    ]);
    match err {
        Err(Error::Sync(m)) => assert_eq!(m, "first"),
        _ => panic!("expected the first error"),
    }
}

#[test]
fn incremental_not_modified() {
    let (mut t, a) = SyncTask::new("o/r", true);
    assert!(matches!(a, SyncAction::LoadRepo { ref repo } if repo == "o/r"));
    let a = t.step(SyncEvent::RepoLoaded(Some(repo_state(2, Some("E1")))), "T0");
    match a {
        SyncAction::FetchPage { repo, etag } => {
            assert_eq!(repo, "o/r");
            assert_eq!(etag.as_deref(), Some("E1"));
        },
        other => panic!("unexpected {:?}", other),
    }
    let a = t.step(SyncEvent::PageFetched(ReleasePage::not_modified(&Some("E1".to_string()))), "T1");
    match a {
        SyncAction::SaveStatus { status, .. } => {
            assert_eq!(status.started_at, "T0");
            assert_eq!(status.success_at.as_deref(), Some("T1"));
            assert_eq!(status.etag.as_deref(), Some("E1"));
            assert_eq!(status.fail_count, 0);
            assert!(status.error.is_none());
            assert!(!status.is_full_sync);
        },
        other => panic!("unexpected {:?}", other),
    }
    let a = t.step(SyncEvent::StatusSaved, "T2");
    assert!(matches!(a, SyncAction::Finish { outcome: Ok((0, 0)) }));
    assert!(t.is_done());
}

#[test]
fn incremental_with_new_releases_keeps_old_etag() {
    let (mut t, _) = SyncTask::new("o/r", true);
    t.step(SyncEvent::RepoLoaded(Some(repo_state(0, Some("E1")))), "T0");
    let page = ReleasePage { releases: vec![gh(1, Some("a")), gh(2, Some("b"))], etag: None, not_modified: false };
    let a = t.step(SyncEvent::PageFetched(page), "T1");
    assert!(matches!(a, SyncAction::LoadExisting { .. }));
    let a = t.step(SyncEvent::ExistingLoaded(vec![stored(1, Some(calculate_hash("a")))]), "T2");
    match a {
        SyncAction::WriteReleases { writes } => {
            assert_eq!(writes.len(), 1);
            assert!(matches!(&writes[0], ReleaseWrite::Insert(r) if r.release_id == 2));
        },
        other => panic!("unexpected {:?}", other),
    }
    let a = t.step(SyncEvent::ReleasesWritten, "T3");
    match a {
        SyncAction::SaveStatus { status, .. } => {
            assert_eq!(status.etag.as_deref(), Some("E1"));
            assert_eq!(status.success_at.as_deref(), Some("T3"));
        },
        other => panic!("unexpected {:?}", other),
    }
    assert!(matches!(t.step(SyncEvent::StatusSaved, "T4"), SyncAction::Finish { outcome: Ok((1, 0)) }));
}

#[test]
fn full_run_marks_missing_releases() {
    let (mut t, _) = SyncTask::new("o/r", false);
    let a = t.step(SyncEvent::RepoLoaded(None), "T0");
    assert!(matches!(a, SyncAction::FetchAll { .. }));
    t.step(SyncEvent::AllFetched(vec![gh(1, None), gh(2, None)]), "T1");
    let a = t.step(SyncEvent::ExistingLoaded(vec![]), "T2");
    assert!(matches!(a, SyncAction::WriteReleases { ref writes } if writes.len() == 2));
    let a = t.step(SyncEvent::ReleasesWritten, "T3");
    assert!(matches!(a, SyncAction::LoadReleaseIds { .. }));
    let a = t.step(SyncEvent::ReleaseIdsLoaded(vec![1, 5, 2, 6]), "T4");
    match a {
        SyncAction::MarkDeleted { repo, ids } => {
            assert_eq!(repo, "o/r");
            assert_eq!(ids, vec![5, 6]);
        },
        other => panic!("unexpected {:?}", other),
    }
    let a = t.step(SyncEvent::DeletionsMarked, "T5");
    match a {
        SyncAction::SaveStatus { status, .. } => assert!(status.is_full_sync),
        other => panic!("unexpected {:?}", other),
    }
    assert!(matches!(t.step(SyncEvent::StatusSaved, "T6"), SyncAction::Finish { outcome: Ok((2, 0)) }));
}

#[test]
fn full_run_without_missing_releases_saves_at_once() {
    let (mut t, _) = SyncTask::new("o/r", false);
    t.step(SyncEvent::RepoLoaded(None), "T0");
    t.step(SyncEvent::AllFetched(vec![gh(1, None)]), "T1");
    t.step(SyncEvent::ExistingLoaded(vec![]), "T2");
    t.step(SyncEvent::ReleasesWritten, "T3");
    let a = t.step(SyncEvent::ReleaseIdsLoaded(vec![1]), "T4");
    assert!(matches!(a, SyncAction::SaveStatus { .. }));
    assert_eq!(t.phase(), SyncPhase::SavingSuccess);
}

#[test]
fn failure_is_counted_and_reported() {
    let (mut t, _) = SyncTask::new("o/r", true);
    t.step(SyncEvent::RepoLoaded(Some(repo_state(4, None))), "T0");
    let a = t.step(SyncEvent::Failed(Error::GithubApi("HTTP 500: oops".to_string())), "T1");
    match a {
        SyncAction::SaveStatus { status, .. } => {
            assert_eq!(status.fail_count, 5);
            assert_eq!(status.error.as_deref(), Some("GitHub API error: HTTP 500: oops"));
            assert!(status.success_at.is_none());
        },
        other => panic!("unexpected {:?}", other),
    }
    match t.step(SyncEvent::StatusSaved, "T2") {
        SyncAction::Finish { outcome: Err(Error::GithubApi(m)) } => assert_eq!(m, "HTTP 500: oops"),
        other => panic!("unexpected {:?}", other),
    }
}

#[test]
fn failure_before_the_run_is_not_recorded() {
    let (mut t, _) = SyncTask::new("o/r", false);
    match t.step(SyncEvent::Failed(Error::Database("locked".to_string())), "T0") {
        SyncAction::Finish { outcome: Err(Error::Database(m)) } => assert_eq!(m, "locked"),
        other => panic!("unexpected {:?}", other),
    }
}

#[test]
fn failure_to_save_status_is_reported() {
    let (mut t, _) = SyncTask::new("o/r", true);
    t.step(SyncEvent::RepoLoaded(None), "T0");
    t.step(SyncEvent::PageFetched(ReleasePage::not_modified(&None)), "T1");
    match t.step(SyncEvent::Failed(Error::Database("disk".to_string())), "T2") {
        SyncAction::Finish { outcome: Err(Error::Database(m)) } => assert_eq!(m, "disk"),
        other => panic!("unexpected {:?}", other),
    }
}

#[test]
fn run_accepts_only_awaited_outcomes() {
    let (mut t, _) = SyncTask::new("o/r", true);
    assert!(!t.accepts(&SyncEvent::StatusSaved));
    assert!(t.accepts(&SyncEvent::RepoLoaded(None)));
    t.step(SyncEvent::RepoLoaded(Some(repo_state(i32::MAX, None))), "T0");
    assert!(!t.accepts(&SyncEvent::AllFetched(vec![])));
    assert!(t.accepts(&SyncEvent::PageFetched(ReleasePage::not_modified(&None))));
    // one more failure could not be counted
    assert!(!t.accepts(&SyncEvent::Failed(Error::Sync("x".to_string()))));
}

#[test]
fn unchanged_stored_release_is_not_written() {
    let digest = calculate_hash("same body");
    assert_eq!(digest.len(), 64);
    let fetched = vec![gh(7, Some("same body")), gh(8, None)];
    let mut a = stored(7, Some(digest));
    a.body = Some("same body".to_string());
    let b = stored(8, Some(calculate_hash("")));
    let existing = vec![a, b];
    let (writes, inserted, updated) = plan_release_writes("o/r", &fetched, &existing);
    assert_eq!((writes.len(), inserted, updated), (0, 0, 0));
    let fetched = vec![gh(7, Some("new body"))];
    let (writes, inserted, updated) = plan_release_writes("o/r", &fetched, &existing);
    assert_eq!((writes.len(), inserted, updated), (1, 0, 1));
    match &writes[0] {
        ReleaseWrite::Update(r) => assert_eq!(r.body_hash.as_deref(), Some(calculate_hash("new body").as_str())),
        _ => panic!("expected an update"),
    }
}

#[test]
fn every_run_ends_within_eight_steps() {
    let (mut t, _) = SyncTask::new("o/r", false);
    let events = vec![
        SyncEvent::RepoLoaded(None),
        SyncEvent::AllFetched(vec![gh(1, None)]),
        SyncEvent::ExistingLoaded(vec![]),
        SyncEvent::ReleasesWritten,
        SyncEvent::ReleaseIdsLoaded(vec![1, 2]),
        SyncEvent::DeletionsMarked,
        SyncEvent::StatusSaved,
    ];
    let mut steps = 0;
    for e in events {
        assert!(t.accepts(&e));
        t.step(e, "T");
        steps += 1;
    }
    assert!(t.is_done());
    assert!(steps <= 8);
    assert!(!t.accepts(&SyncEvent::StatusSaved));
}
