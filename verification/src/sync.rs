//! Synchronisation of one repository: which fetched releases are written,
//! which stored ones are marked deleted, and what the run records about
//! itself. The run is a state machine; the program around it performs each
//! action (reading the store, asking GitHub, writing) and reports the outcome.
use std::collections::{HashMap, HashSet};

use vstd::prelude::*;
use vstd::string::*;
use vstd::utf8::*;

use crate::db::{Release, ReleaseView, Repo, RepoView, SyncStatus, SyncStatusView, body_digest, calculate_hash, repo_after_sync};
use crate::error::{Error, ErrorView, error_message};
use crate::github::{GithubRelease, GithubReleaseView, ReleasePage, ReleasePageView, github_views};
use crate::text::{copy_opt, opt_view};

verus! {

// ------------------------------------------------------------------
// Conversion of fetched releases
// ------------------------------------------------------------------

/// The text of a release body, empty where there is none.
pub open spec fn body_text(body: Option<Seq<char>>) -> Seq<char> {
    match body {
        Some(b) => b,
        None => Seq::empty(),
    }
}

/// The stored form of a fetched release of `repo` whose body digest is
/// `body_hash`: not deleted, every other field as GitHub gave it.
pub open spec fn converted_release(
    repo: Seq<char>,
    gr: GithubReleaseView,
    body_hash: Seq<char>,
) -> ReleaseView {
    ReleaseView {
        release_id: gr.id,
        repo: repo,
        tag_name: gr.tag_name,
        name: gr.name,
        draft: gr.draft,
        prerelease: gr.prerelease,
        created_at: gr.created_at,
        published_at: gr.published_at,
        updated_at: gr.updated_at,
        html_url: gr.html_url,
        body: gr.body,
        body_hash: Some(body_hash),
        is_deleted: false,
        deleted_at: None,
    }
}

/// Builds the stored form of a fetched release.
pub fn convert_release(repo: &str, gr: &GithubRelease, body_hash: &str) -> (r: Release)
    ensures
        r@ == converted_release(repo@, gr@, body_hash@),
{
    Release {
        release_id: gr.id,
        repo: repo.to_owned(),
        tag_name: copy_opt(&gr.tag_name),
        name: copy_opt(&gr.name),
        draft: gr.draft,
        prerelease: gr.prerelease,
        created_at: copy_opt(&gr.created_at),
        published_at: copy_opt(&gr.published_at),
        updated_at: copy_opt(&gr.updated_at),
        html_url: copy_opt(&gr.html_url),
        body: copy_opt(&gr.body),
        body_hash: Some(body_hash.to_owned()),
        is_deleted: false,
        deleted_at: None,
    }
}


// ------------------------------------------------------------------
// Which releases are written
// ------------------------------------------------------------------

/// A write of one release into the store.
#[derive(Debug)]
pub enum ReleaseWrite {
    /// A release that the store does not hold yet.
    Insert(Release),
    /// A stored release whose body digest differs.
    Update(Release),
}

pub enum ReleaseWriteView {
    Insert(ReleaseView),
    Update(ReleaseView),
}

impl View for ReleaseWrite {
    type V = ReleaseWriteView;

    open spec fn view(&self) -> ReleaseWriteView {
        match self {
            ReleaseWrite::Insert(r) => ReleaseWriteView::Insert(r@),
            ReleaseWrite::Update(r) => ReleaseWriteView::Update(r@),
        }
    }
}

pub open spec fn release_views(s: Seq<Release>) -> Seq<ReleaseView> {
    s.map_values(|r: Release| r@)
}

pub open spec fn write_views(s: Seq<ReleaseWrite>) -> Seq<ReleaseWriteView> {
    s.map_values(|w: ReleaseWrite| w@)
}

/// The body digest stored for release `id`, if the store holds it; when the
/// list names an id twice, the later entry counts.
pub open spec fn stored_hash(existing: Seq<ReleaseView>, id: i64) -> Option<Option<Seq<char>>>
    decreases existing.len(),
{
    if existing.len() == 0 {
        None
    } else if existing.last().release_id == id {
        Some(existing.last().body_hash)
    } else {
        stored_hash(existing.drop_last(), id)
    }
}

/// The write that a fetched release calls for: an insert when the store does
/// not hold its id, an update when the stored digest is not the digest of
/// the fetched body, none otherwise.
pub open spec fn write_for(
    repo: Seq<char>,
    gr: GithubReleaseView,
    existing: Seq<ReleaseView>,
) -> Option<ReleaseWriteView> {
    let h = body_digest(body_text(gr.body));
    match stored_hash(existing, gr.id) {
        Some(stored) => if stored != Some(h) {
            Some(ReleaseWriteView::Update(converted_release(repo, gr, h)))
        } else {
            None
        },
        None => Some(ReleaseWriteView::Insert(converted_release(repo, gr, h))),
    }
}

/// The writes for the fetched releases, in the order they were fetched.
pub open spec fn planned_writes(
    repo: Seq<char>,
    fetched: Seq<GithubReleaseView>,
    existing: Seq<ReleaseView>,
) -> Seq<ReleaseWriteView>
    decreases fetched.len(),
{
    if fetched.len() == 0 {
        Seq::empty()
    } else {
        let earlier = planned_writes(repo, fetched.drop_last(), existing);
        match write_for(repo, fetched.last(), existing) {
            Some(w) => earlier.push(w),
            None => earlier,
        }
    }
}

/// How many of the writes are inserts.
pub open spec fn count_inserts(writes: Seq<ReleaseWriteView>) -> nat
    decreases writes.len(),
{
    if writes.len() == 0 {
        0
    } else {
        count_inserts(writes.drop_last()) + if writes.last() is Insert { 1nat } else { 0 }
    }
}

/// How many of the writes are updates.
pub open spec fn count_updates(writes: Seq<ReleaseWriteView>) -> nat
    decreases writes.len(),
{
    if writes.len() == 0 {
        0
    } else {
        count_updates(writes.drop_last()) + if writes.last() is Update { 1nat } else { 0 }
    }
}

/// The stored body digests of the releases the store holds, by id.
fn stored_hashes_by_id(existing: &Vec<Release>) -> (m: HashMap<i64, Option<String>>)
    ensures
        forall|id: i64|
            match #[trigger] stored_hash(release_views(existing@), id) {
                Some(h) => m@.contains_key(id) && opt_view(m@[id]) == h,
                None => !m@.contains_key(id),
            },
{
    broadcast use vstd::std_specs::hash::group_hash_axioms;

    let mut m: HashMap<i64, Option<String>> = HashMap::new();
    let mut i: usize = 0;
    assert(release_views(existing@.subrange(0, 0)) =~= Seq::<ReleaseView>::empty());
    while i < existing.len()
        invariant
            i <= existing@.len(),
            forall|id: i64|
                match #[trigger] stored_hash(release_views(existing@.subrange(0, i as int)), id) {
                    Some(h) => m@.contains_key(id) && opt_view(m@[id]) == h,
                    None => !m@.contains_key(id),
                },
        decreases existing@.len() - i,
    {
        let ghost pre = release_views(existing@.subrange(0, i + 1));
        assert(pre.drop_last() =~= release_views(existing@.subrange(0, i as int)));
        assert(pre.last() == existing@[i as int]@);
        let r = &existing[i];
        let ghost before = m@;
        m.insert(r.release_id, copy_opt(&r.body_hash));
        assert forall|id: i64|
            match #[trigger] stored_hash(pre, id) {
                Some(h) => m@.contains_key(id) && opt_view(m@[id]) == h,
                None => !m@.contains_key(id),
            } by {
            if id != r.release_id {
                assert(stored_hash(pre, id) == stored_hash(
                    release_views(existing@.subrange(0, i as int)),
                    id,
                ));
            }
        }
        i = i + 1;
    }
    assert(existing@.subrange(0, existing@.len() as int) =~= existing@);
    m
}

fn opt_eq_str(a: &Option<String>, b: &String) -> (r: bool)
    ensures
        r == (opt_view(*a) == Some(b@)),
{
    match a {
        Some(s) => *s == *b,
        None => false,
    }
}

/// Decides the writes for the releases fetched for `repo`, given the
/// releases the store holds for it; also counts the inserts and updates.
pub fn plan_release_writes(
    repo: &str,
    fetched: &Vec<GithubRelease>,
    existing: &Vec<Release>,
) -> (r: (Vec<ReleaseWrite>, usize, usize))
    ensures
        write_views(r.0@) == planned_writes(repo@, github_views(fetched@), release_views(existing@)),
        r.1 == count_inserts(write_views(r.0@)),
        r.2 == count_updates(write_views(r.0@)),
{
    broadcast use vstd::std_specs::hash::group_hash_axioms;

    let ghost ex = release_views(existing@);
    let existing_by_id = stored_hashes_by_id(existing);
    let mut writes: Vec<ReleaseWrite> = Vec::new();
    let mut inserted: usize = 0;
    let mut updated: usize = 0;
    let mut i: usize = 0;
    while i < fetched.len()
        invariant
            i <= fetched@.len(),
            ex == release_views(existing@),
            forall|id: i64|
                match #[trigger] stored_hash(ex, id) {
                    Some(h) => existing_by_id@.contains_key(id) && opt_view(existing_by_id@[id]) == h,
                    None => !existing_by_id@.contains_key(id),
                },
            write_views(writes@) == planned_writes(
                repo@,
                github_views(fetched@.subrange(0, i as int)),
                ex,
            ),
            writes@.len() <= i,
            inserted == count_inserts(write_views(writes@)),
            updated == count_updates(write_views(writes@)),
            inserted <= writes@.len(),
            updated <= writes@.len(),
        decreases fetched@.len() - i,
    {
        let gr = &fetched[i];
        let ghost pre = github_views(fetched@.subrange(0, i + 1));
        assert(pre.drop_last() =~= github_views(fetched@.subrange(0, i as int)));
        assert(pre.last() == gr@);
        let ghost old_writes = writes@;
        let hash = match &gr.body {
            Some(b) => calculate_hash(b.as_str()),
            None => calculate_hash(""),
        };
        proof {
            reveal_strlit("");
        }
        match existing_by_id.get(&gr.id) {
            Some(stored) => {
                if !opt_eq_str(stored, &hash) {
                    let release = convert_release(repo, gr, hash.as_str());
                    writes.push(ReleaseWrite::Update(release));
                    updated = updated + 1;
                }
            },
            None => {
                let release = convert_release(repo, gr, hash.as_str());
                writes.push(ReleaseWrite::Insert(release));
                inserted = inserted + 1;
            },
        }
        proof {
            if writes@.len() > old_writes.len() {
                assert(write_views(writes@).drop_last() =~= write_views(old_writes));
            } else {
                assert(write_views(writes@) =~= write_views(old_writes));
            }
        }
        i = i + 1;
    }
    assert(fetched@.subrange(0, fetched@.len() as int) =~= fetched@);
    (writes, inserted, updated)
}


// ------------------------------------------------------------------
// Which stored releases are marked deleted
// ------------------------------------------------------------------

/// The ids of the fetched releases, in order.
pub open spec fn fetched_ids(fetched: Seq<GithubReleaseView>) -> Seq<i64> {
    fetched.map_values(|g: GithubReleaseView| g.id)
}

/// The stored ids that the fetch did not return, in stored order.
pub open spec fn ids_not_fetched(stored: Seq<i64>, fetched: Seq<i64>) -> Seq<i64>
    decreases stored.len(),
{
    if stored.len() == 0 {
        Seq::empty()
    } else {
        let earlier = ids_not_fetched(stored.drop_last(), fetched);
        if fetched.contains(stored.last()) {
            earlier
        } else {
            earlier.push(stored.last())
        }
    }
}

/// The ids of the fetched releases, as a set.
fn fetched_id_set(fetched: &Vec<GithubRelease>) -> (r: HashSet<i64>)
    ensures
        forall|id: i64| r@.contains(id) <==> #[trigger] fetched_ids(github_views(fetched@)).contains(id),
{
    broadcast use vstd::std_specs::hash::group_hash_axioms;

    let ghost ids = fetched_ids(github_views(fetched@));
    let mut r: HashSet<i64> = HashSet::with_capacity(fetched.len());
    let mut i: usize = 0;
    while i < fetched.len()
        invariant
            i <= fetched@.len(),
            ids == fetched_ids(github_views(fetched@)),
            ids.len() == fetched@.len(),
            forall|id: i64| r@.contains(id) <==> #[trigger] ids.subrange(0, i as int).contains(id),
        decreases fetched@.len() - i,
    {
        assert(ids[i as int] == fetched@[i as int].id);
        r.insert(fetched[i].id);
        assert forall|id: i64| r@.contains(id) <==> #[trigger] ids.subrange(0, i + 1).contains(id) by {
            let pre = ids.subrange(0, i as int);
            let next = ids.subrange(0, i + 1);
            assert(next =~= pre.push(ids[i as int]));
            if pre.contains(id) {
                let k = choose|k: int| 0 <= k < pre.len() && pre[k] == id;
                assert(next[k] == id);
            }
            if next.contains(id) && id != ids[i as int] {
                let k = choose|k: int| 0 <= k < next.len() && next[k] == id;
                assert(pre[k] == id);
            }
            assert(next[i as int] == ids[i as int]);
        }
        i = i + 1;
    }
    assert(ids.subrange(0, ids.len() as int) =~= ids);
    r
}

/// The stored ids of a repository that a full fetch did not return.
pub fn deleted_release_ids(stored: &Vec<i64>, fetched: &Vec<GithubRelease>) -> (r: Vec<i64>)
    ensures
        r@ == ids_not_fetched(stored@, fetched_ids(github_views(fetched@))),
{
    broadcast use vstd::std_specs::hash::group_hash_axioms;

    let ghost f = fetched_ids(github_views(fetched@));
    let fetched_set = fetched_id_set(fetched);
    let mut r: Vec<i64> = Vec::new();
    let mut i: usize = 0;
    while i < stored.len()
        invariant
            i <= stored@.len(),
            f == fetched_ids(github_views(fetched@)),
            forall|id: i64| fetched_set@.contains(id) <==> #[trigger] f.contains(id),
            r@ == ids_not_fetched(stored@.subrange(0, i as int), f),
        decreases stored@.len() - i,
    {
        let ghost pre = stored@.subrange(0, i + 1);
        assert(pre.drop_last() =~= stored@.subrange(0, i as int));
        if !fetched_set.contains(&stored[i]) {
            r.push(stored[i]);
        }
        i = i + 1;
    }
    assert(stored@.subrange(0, stored@.len() as int) =~= stored@);
    r
}


// ------------------------------------------------------------------
// The synchronisation of one repository
// ------------------------------------------------------------------

/// Where a synchronisation stands: which outcome it waits for.
#[derive(Debug, Clone, Copy, PartialEq, Eq, Structural)]
pub enum SyncPhase {
    /// Waiting for the stored state of the repository.
    LoadingRepo,
    /// Waiting for GitHub's releases.
    Fetching,
    /// Waiting for the releases the store holds for the repository.
    LoadingExisting,
    /// Waiting for the release writes to be done.
    Writing,
    /// Waiting for the ids of every stored release of the repository.
    LoadingIds,
    /// Waiting for the missing releases to be marked deleted.
    MarkingDeleted,
    /// Waiting for the status of a successful run to be saved.
    SavingSuccess,
    /// Waiting for the status of a failed run to be saved.
    SavingFailure,
    /// Finished.
    Done,
}

/// An outcome that the program reports to a synchronisation.
#[derive(Debug)]
pub enum SyncEvent {
    /// The stored state of the repository, if the store knows it.
    RepoLoaded(Option<Repo>),
    /// The first page of releases (incremental runs).
    PageFetched(ReleasePage),
    /// Every release of the repository (full runs).
    AllFetched(Vec<GithubRelease>),
    /// The releases that the store holds for the repository.
    ExistingLoaded(Vec<Release>),
    /// The release writes were done.
    ReleasesWritten,
    /// The ids of every stored release of the repository.
    ReleaseIdsLoaded(Vec<i64>),
    /// The missing releases were marked deleted.
    DeletionsMarked,
    /// The status was saved.
    StatusSaved,
    /// The last action failed.
    Failed(Error),
}

pub enum SyncEventView {
    RepoLoaded(Option<RepoView>),
    PageFetched(ReleasePageView),
    AllFetched(Seq<GithubReleaseView>),
    ExistingLoaded(Seq<ReleaseView>),
    ReleasesWritten,
    ReleaseIdsLoaded(Seq<i64>),
    DeletionsMarked,
    StatusSaved,
    Failed(ErrorView),
}

impl View for SyncEvent {
    type V = SyncEventView;

    open spec fn view(&self) -> SyncEventView {
        match self {
            SyncEvent::RepoLoaded(r) => SyncEventView::RepoLoaded(
                match r {
                    Some(r) => Some(r@),
                    None => None,
                },
            ),
            SyncEvent::PageFetched(p) => SyncEventView::PageFetched(p@),
            SyncEvent::AllFetched(v) => SyncEventView::AllFetched(github_views(v@)),
            SyncEvent::ExistingLoaded(v) => SyncEventView::ExistingLoaded(release_views(v@)),
            SyncEvent::ReleasesWritten => SyncEventView::ReleasesWritten,
            SyncEvent::ReleaseIdsLoaded(v) => SyncEventView::ReleaseIdsLoaded(v@),
            SyncEvent::DeletionsMarked => SyncEventView::DeletionsMarked,
            SyncEvent::StatusSaved => SyncEventView::StatusSaved,
            SyncEvent::Failed(e) => SyncEventView::Failed(e@),
        }
    }
}

/// What a synchronisation asks the program to do next.
#[derive(Debug)]
pub enum SyncAction {
    /// Read the stored state of the repository.
    LoadRepo { repo: String },
    /// Ask GitHub for the first page of releases, sending the ETag if any.
    FetchPage { repo: String, etag: Option<String> },
    /// Ask GitHub for every release of the repository.
    FetchAll { repo: String },
    /// Read the releases that the store holds for the repository.
    LoadExisting { repo: String },
    /// Perform these writes, in order, stopping at the first that fails.
    WriteReleases { writes: Vec<ReleaseWrite> },
    /// Read the ids of every stored release of the repository.
    LoadReleaseIds { repo: String },
    /// Mark these releases of the repository deleted.
    MarkDeleted { repo: String, ids: Vec<i64> },
    /// Save the status of the run for the repository.
    SaveStatus { repo: String, status: SyncStatus },
    /// The run is over: the numbers of new and updated releases, or the error.
    Finish { outcome: Result<(usize, usize), Error> },
}

pub enum SyncActionView {
    LoadRepo { repo: Seq<char> },
    FetchPage { repo: Seq<char>, etag: Option<Seq<char>> },
    FetchAll { repo: Seq<char> },
    LoadExisting { repo: Seq<char> },
    WriteReleases { writes: Seq<ReleaseWriteView> },
    LoadReleaseIds { repo: Seq<char> },
    MarkDeleted { repo: Seq<char>, ids: Seq<i64> },
    SaveStatus { repo: Seq<char>, status: SyncStatusView },
    Finish { outcome: Result<(nat, nat), ErrorView> },
}

impl View for SyncAction {
    type V = SyncActionView;

    open spec fn view(&self) -> SyncActionView {
        match self {
            SyncAction::LoadRepo { repo } => SyncActionView::LoadRepo { repo: repo@ },
            SyncAction::FetchPage { repo, etag } => SyncActionView::FetchPage {
                repo: repo@,
                etag: opt_view(*etag),
            },
            SyncAction::FetchAll { repo } => SyncActionView::FetchAll { repo: repo@ },
            SyncAction::LoadExisting { repo } => SyncActionView::LoadExisting { repo: repo@ },
            SyncAction::WriteReleases { writes } => SyncActionView::WriteReleases {
                writes: write_views(writes@),
            },
            SyncAction::LoadReleaseIds { repo } => SyncActionView::LoadReleaseIds { repo: repo@ },
            SyncAction::MarkDeleted { repo, ids } => SyncActionView::MarkDeleted {
                repo: repo@,
                ids: ids@,
            },
            SyncAction::SaveStatus { repo, status } => SyncActionView::SaveStatus {
                repo: repo@,
                status: status@,
            },
            SyncAction::Finish { outcome } => SyncActionView::Finish {
                outcome: match outcome {
                    Ok((n, u)) => Ok((*n as nat, *u as nat)),
                    Err(e) => Err(e@),
                },
            },
        }
    }
}

/// The synchronisation of one repository, incremental (first page only,
/// conditional on the stored ETag) or full (every page, with releases that
/// GitHub no longer lists marked deleted).
#[derive(Debug)]
pub struct SyncTask {
    repo: String,
    incremental: bool,
    phase: SyncPhase,
    status: SyncStatus,
    previous_fail_count: i32,
    previous_etag: Option<String>,
    fetched: Vec<GithubRelease>,
    new_count: usize,
    updated_count: usize,
    failure: Option<Error>,
}

pub struct SyncTaskView {
    pub repo: Seq<char>,
    pub incremental: bool,
    pub phase: SyncPhase,
    pub status: SyncStatusView,
    pub previous_fail_count: i32,
    pub previous_etag: Option<Seq<char>>,
    pub fetched: Seq<GithubReleaseView>,
    pub new_count: nat,
    pub updated_count: nat,
    pub failure: Option<ErrorView>,
}

impl View for SyncTask {
    type V = SyncTaskView;

    closed spec fn view(&self) -> SyncTaskView {
        SyncTaskView {
            repo: self.repo@,
            incremental: self.incremental,
            phase: self.phase,
            status: self.status@,
            previous_fail_count: self.previous_fail_count,
            previous_etag: opt_view(self.previous_etag),
            fetched: github_views(self.fetched@),
            new_count: self.new_count as nat,
            updated_count: self.updated_count as nat,
            failure: match self.failure {
                Some(e) => Some(e@),
                None => None,
            },
        }
    }
}

/// The state of a new synchronisation of `repo`.
pub open spec fn sync_initial(repo: Seq<char>, incremental: bool) -> SyncTaskView {
    SyncTaskView {
        repo,
        incremental,
        phase: SyncPhase::LoadingRepo,
        status: SyncStatusView {
            started_at: Seq::empty(),
            success_at: None,
            error: None,
            fail_count: 0,
            etag: None,
            is_full_sync: !incremental,
        },
        previous_fail_count: 0,
        previous_etag: None,
        fetched: Seq::empty(),
        new_count: 0,
        updated_count: 0,
        failure: None,
    }
}

/// The phases in the order a run passes through them.
pub open spec fn phase_rank(p: SyncPhase) -> nat {
    match p {
        SyncPhase::LoadingRepo => 0,
        SyncPhase::Fetching => 1,
        SyncPhase::LoadingExisting => 2,
        SyncPhase::Writing => 3,
        SyncPhase::LoadingIds => 4,
        SyncPhase::MarkingDeleted => 5,
        SyncPhase::SavingSuccess => 6,
        SyncPhase::SavingFailure => 7,
        SyncPhase::Done => 8,
    }
}

/// The phases in which an action of the run itself is under way, so that a
/// failure is recorded in the status.
pub open spec fn phase_records_failure(p: SyncPhase) -> bool {
    p == SyncPhase::Fetching || p == SyncPhase::LoadingExisting || p == SyncPhase::Writing
        || p == SyncPhase::LoadingIds || p == SyncPhase::MarkingDeleted
}

/// The outcomes that a run waits for in its present phase. A failure that is
/// recorded adds one to the stored failure count, which must not overflow.
pub open spec fn sync_accepts(t: SyncTaskView, e: SyncEventView) -> bool {
    match t.phase {
        SyncPhase::LoadingRepo => e is RepoLoaded || e is Failed,
        SyncPhase::Fetching => match e {
            SyncEventView::PageFetched(_) => t.incremental,
            SyncEventView::AllFetched(_) => !t.incremental,
            SyncEventView::Failed(_) => t.previous_fail_count < i32::MAX,
            _ => false,
        },
        SyncPhase::LoadingExisting => e is ExistingLoaded || (e is Failed
            && t.previous_fail_count < i32::MAX),
        SyncPhase::Writing => e is ReleasesWritten || (e is Failed && t.previous_fail_count
            < i32::MAX),
        SyncPhase::LoadingIds => e is ReleaseIdsLoaded || (e is Failed && t.previous_fail_count
            < i32::MAX),
        SyncPhase::MarkingDeleted => e is DeletionsMarked || (e is Failed
            && t.previous_fail_count < i32::MAX),
        SyncPhase::SavingSuccess => e is StatusSaved || e is Failed,
        SyncPhase::SavingFailure => e is StatusSaved || e is Failed,
        SyncPhase::Done => false,
    }
}

/// The run succeeded at `now`: its status is saved with the success time.
pub open spec fn sync_succeed(t: SyncTaskView, now: Seq<char>) -> (SyncTaskView, SyncActionView) {
    let status = SyncStatusView { success_at: Some(now), ..t.status };
    (
        SyncTaskView { phase: SyncPhase::SavingSuccess, status, ..t },
        SyncActionView::SaveStatus { repo: t.repo, status },
    )
}

/// An action of the run failed with `e`: the status records the error and one
/// more failure than before, and is saved.
pub open spec fn sync_fail(t: SyncTaskView, e: ErrorView) -> (SyncTaskView, SyncActionView) {
    let status = SyncStatusView {
        error: Some(error_message(e)),
        fail_count: (t.previous_fail_count + 1) as i32,
        ..t.status
    };
    (
        SyncTaskView { phase: SyncPhase::SavingFailure, status, failure: Some(e), ..t },
        SyncActionView::SaveStatus { repo: t.repo, status },
    )
}

/// The run is over with `outcome`.
pub open spec fn sync_finish(t: SyncTaskView, outcome: Result<(nat, nat), ErrorView>) -> (
    SyncTaskView,
    SyncActionView,
) {
    (SyncTaskView { phase: SyncPhase::Done, failure: None, ..t }, SyncActionView::Finish { outcome })
}

/// One step of a run: its next state and action, given the outcome `e` of
/// its last action, reported at time `now`.
pub open spec fn sync_next(t: SyncTaskView, e: SyncEventView, now: Seq<char>) -> (
    SyncTaskView,
    SyncActionView,
) {
    match t.phase {
        SyncPhase::LoadingRepo => match e {
            SyncEventView::RepoLoaded(r) => {
                let previous_fail_count = match r {
                    Some(r) => r.fail_count,
                    None => 0,
                };
                let previous_etag = match r {
                    Some(r) => r.etag_page1,
                    None => None,
                };
                let status = SyncStatusView {
                    started_at: now,
                    success_at: None,
                    error: None,
                    fail_count: 0,
                    etag: previous_etag,
                    is_full_sync: !t.incremental,
                };
                let t2 = SyncTaskView {
                    phase: SyncPhase::Fetching,
                    status,
                    previous_fail_count,
                    previous_etag,
                    ..t
                };
                if t.incremental {
                    (t2, SyncActionView::FetchPage { repo: t.repo, etag: previous_etag })
                } else {
                    (t2, SyncActionView::FetchAll { repo: t.repo })
                }
            },
            SyncEventView::Failed(err) => sync_finish(t, Err(err)),
            _ => (t, SyncActionView::Finish { outcome: Ok((0, 0)) }),
        },
        SyncPhase::Fetching => match e {
            SyncEventView::PageFetched(page) => {
                let etag = match page.etag {
                    Some(tag) => Some(tag),
                    None => t.previous_etag,
                };
                let t2 = SyncTaskView { status: SyncStatusView { etag, ..t.status }, ..t };
                if page.not_modified {
                    sync_succeed(t2, now)
                } else {
                    (
                        SyncTaskView {
                            phase: SyncPhase::LoadingExisting,
                            fetched: page.releases,
                            ..t2
                        },
                        SyncActionView::LoadExisting { repo: t.repo },
                    )
                }
            },
            SyncEventView::AllFetched(releases) => (
                SyncTaskView { phase: SyncPhase::LoadingExisting, fetched: releases, ..t },
                SyncActionView::LoadExisting { repo: t.repo },
            ),
            SyncEventView::Failed(err) => sync_fail(t, err),
            _ => (t, SyncActionView::Finish { outcome: Ok((0, 0)) }),
        },
        SyncPhase::LoadingExisting => match e {
            SyncEventView::ExistingLoaded(existing) => {
                let writes = planned_writes(t.repo, t.fetched, existing);
                (
                    SyncTaskView {
                        phase: SyncPhase::Writing,
                        new_count: count_inserts(writes),
                        updated_count: count_updates(writes),
                        ..t
                    },
                    SyncActionView::WriteReleases { writes },
                )
            },
            SyncEventView::Failed(err) => sync_fail(t, err),
            _ => (t, SyncActionView::Finish { outcome: Ok((0, 0)) }),
        },
        SyncPhase::Writing => match e {
            SyncEventView::ReleasesWritten => if t.incremental {
                sync_succeed(t, now)
            } else {
                (
                    SyncTaskView { phase: SyncPhase::LoadingIds, ..t },
                    SyncActionView::LoadReleaseIds { repo: t.repo },
                )
            },
            SyncEventView::Failed(err) => sync_fail(t, err),
            _ => (t, SyncActionView::Finish { outcome: Ok((0, 0)) }),
        },
        SyncPhase::LoadingIds => match e {
            SyncEventView::ReleaseIdsLoaded(ids) => {
                let missing = ids_not_fetched(ids, fetched_ids(t.fetched));
                if missing.len() == 0 {
                    sync_succeed(t, now)
                } else {
                    (
                        SyncTaskView { phase: SyncPhase::MarkingDeleted, ..t },
                        SyncActionView::MarkDeleted { repo: t.repo, ids: missing },
                    )
                }
            },
            SyncEventView::Failed(err) => sync_fail(t, err),
            _ => (t, SyncActionView::Finish { outcome: Ok((0, 0)) }),
        },
        SyncPhase::MarkingDeleted => match e {
            SyncEventView::DeletionsMarked => sync_succeed(t, now),
            SyncEventView::Failed(err) => sync_fail(t, err),
            _ => (t, SyncActionView::Finish { outcome: Ok((0, 0)) }),
        },
        SyncPhase::SavingSuccess => match e {
            SyncEventView::StatusSaved => sync_finish(t, Ok((t.new_count, t.updated_count))),
            SyncEventView::Failed(err) => sync_finish(t, Err(err)),
            _ => (t, SyncActionView::Finish { outcome: Ok((0, 0)) }),
        },
        SyncPhase::SavingFailure => match e {
            SyncEventView::StatusSaved => sync_finish(
                t,
                match t.failure {
                    Some(err) => Err(err),
                    None => Ok((t.new_count, t.updated_count)),
                },
            ),
            SyncEventView::Failed(err) => sync_finish(t, Err(err)),
            _ => (t, SyncActionView::Finish { outcome: Ok((0, 0)) }),
        },
        SyncPhase::Done => (t, SyncActionView::Finish { outcome: Ok((0, 0)) }),
    }
}


fn copy_status(s: &SyncStatus) -> (r: SyncStatus)
    ensures
        r@ == s@,
{
    SyncStatus {
        started_at: s.started_at.clone(),
        success_at: copy_opt(&s.success_at),
        error: copy_opt(&s.error),
        fail_count: s.fail_count,
        etag: copy_opt(&s.etag),
        is_full_sync: s.is_full_sync,
    }
}

impl SyncTask {
    /// Starts a synchronisation of `repo`; its first action reads the stored
    /// state of the repository.
    pub fn new(repo: &str, incremental: bool) -> (r: (SyncTask, SyncAction))
        ensures
            r.0@ == sync_initial(repo@, incremental),
            r.1@ == (SyncActionView::LoadRepo { repo: repo@ }),
    {
        let task = SyncTask {
            repo: repo.to_owned(),
            incremental,
            phase: SyncPhase::LoadingRepo,
            status: SyncStatus::started(!incremental, String::new()),
            previous_fail_count: 0,
            previous_etag: None,
            fetched: Vec::new(),
            new_count: 0,
            updated_count: 0,
            failure: None,
        };
        proof {
            assert(github_views(task.fetched@) =~= Seq::<GithubReleaseView>::empty());
        }
        (task, SyncAction::LoadRepo { repo: repo.to_owned() })
    }

    /// The phase the run is in.
    pub fn phase(&self) -> (p: SyncPhase)
        ensures
            p == self@.phase,
    {
        self.phase
    }

    /// Whether the run is over.
    pub fn is_done(&self) -> (r: bool)
        ensures
            r == (self@.phase == SyncPhase::Done),
    {
        self.phase == SyncPhase::Done
    }

    /// Whether the run waits for this outcome now.
    pub fn accepts(&self, event: &SyncEvent) -> (r: bool)
        ensures
            r == sync_accepts(self@, event@),
    {
        let can_fail = self.previous_fail_count < i32::MAX;
        match self.phase {
            SyncPhase::LoadingRepo => match event {
                SyncEvent::RepoLoaded(_) => true,
                SyncEvent::Failed(_) => true,
                _ => false,
            },
            SyncPhase::Fetching => match event {
                SyncEvent::PageFetched(_) => self.incremental,
                SyncEvent::AllFetched(_) => !self.incremental,
                SyncEvent::Failed(_) => can_fail,
                _ => false,
            },
            SyncPhase::LoadingExisting => match event {
                SyncEvent::ExistingLoaded(_) => true,
                SyncEvent::Failed(_) => can_fail,
                _ => false,
            },
            SyncPhase::Writing => match event {
                SyncEvent::ReleasesWritten => true,
                SyncEvent::Failed(_) => can_fail,
                _ => false,
            },
            SyncPhase::LoadingIds => match event {
                SyncEvent::ReleaseIdsLoaded(_) => true,
                SyncEvent::Failed(_) => can_fail,
                _ => false,
            },
            SyncPhase::MarkingDeleted => match event {
                SyncEvent::DeletionsMarked => true,
                SyncEvent::Failed(_) => can_fail,
                _ => false,
            },
            SyncPhase::SavingSuccess | SyncPhase::SavingFailure => match event {
                SyncEvent::StatusSaved => true,
                SyncEvent::Failed(_) => true,
                _ => false,
            },
            SyncPhase::Done => false,
        }
    }

    fn succeed(&mut self, now: &str) -> (a: SyncAction)
        ensures
            (final(self)@, a@) == sync_succeed(old(self)@, now@),
    {
        self.status.success_at = Some(now.to_owned());
        self.phase = SyncPhase::SavingSuccess;
        SyncAction::SaveStatus { repo: self.repo.clone(), status: copy_status(&self.status) }
    }

    fn fail(&mut self, e: Error) -> (a: SyncAction)
        requires
            old(self)@.previous_fail_count < i32::MAX,
        ensures
            (final(self)@, a@) == sync_fail(old(self)@, e@),
    {
        self.status.error = Some(e.message());
        self.status.fail_count = self.previous_fail_count + 1;
        self.phase = SyncPhase::SavingFailure;
        self.failure = Some(e);
        SyncAction::SaveStatus { repo: self.repo.clone(), status: copy_status(&self.status) }
    }

    fn finish(&mut self, outcome: Result<(usize, usize), Error>) -> (a: SyncAction)
        ensures
            (final(self)@, a@) == sync_finish(
                old(self)@,
                match outcome {
                    Ok((n, u)) => Ok((n as nat, u as nat)),
                    Err(e) => Err(e@),
                },
            ),
    {
        self.phase = SyncPhase::Done;
        self.failure = None;
        SyncAction::Finish { outcome }
    }

    /// Takes the outcome of the last action, reported at time `now`, and
    /// gives the next action.
    pub fn step(&mut self, event: SyncEvent, now: &str) -> (a: SyncAction)
        requires
            sync_accepts(old(self)@, event@),
        ensures
            (final(self)@, a@) == sync_next(old(self)@, event@, now@),
    {
        match event {
            SyncEvent::Failed(e) => {
                if self.phase == SyncPhase::LoadingRepo || self.phase == SyncPhase::SavingSuccess
                    || self.phase == SyncPhase::SavingFailure {
                    self.finish(Err(e))
                } else {
                    self.fail(e)
                }
            },
            SyncEvent::RepoLoaded(r) => {
                let (count, etag) = match r {
                    Some(r) => (r.fail_count, r.etag_page1),
                    None => (0, None),
                };
                self.previous_fail_count = count;
                self.previous_etag = copy_opt(&etag);
                let mut status = SyncStatus::started(!self.incremental, now.to_owned());
                status.etag = etag;
                self.status = status;
                self.phase = SyncPhase::Fetching;
                if self.incremental {
                    SyncAction::FetchPage { repo: self.repo.clone(), etag: copy_opt(&self.previous_etag) }
                } else {
                    SyncAction::FetchAll { repo: self.repo.clone() }
                }
            },
            SyncEvent::PageFetched(page) => {
                let etag = match page.etag {
                    Some(tag) => Some(tag),
                    None => copy_opt(&self.previous_etag),
                };
                self.status.etag = etag;
                if page.not_modified {
                    self.succeed(now)
                } else {
                    self.fetched = page.releases;
                    self.phase = SyncPhase::LoadingExisting;
                    SyncAction::LoadExisting { repo: self.repo.clone() }
                }
            },
            SyncEvent::AllFetched(releases) => {
                self.fetched = releases;
                self.phase = SyncPhase::LoadingExisting;
                SyncAction::LoadExisting { repo: self.repo.clone() }
            },
            SyncEvent::ExistingLoaded(existing) => {
                let (writes, inserted, updated) = plan_release_writes(
                    self.repo.as_str(),
                    &self.fetched,
                    &existing,
                );
                self.new_count = inserted;
                self.updated_count = updated;
                self.phase = SyncPhase::Writing;
                SyncAction::WriteReleases { writes }
            },
            SyncEvent::ReleasesWritten => {
                if self.incremental {
                    self.succeed(now)
                } else {
                    self.phase = SyncPhase::LoadingIds;
                    SyncAction::LoadReleaseIds { repo: self.repo.clone() }
                }
            },
            SyncEvent::ReleaseIdsLoaded(ids) => {
                let missing = deleted_release_ids(&ids, &self.fetched);
                if missing.len() == 0 {
                    self.succeed(now)
                } else {
                    self.phase = SyncPhase::MarkingDeleted;
                    SyncAction::MarkDeleted { repo: self.repo.clone(), ids: missing }
                }
            },
            SyncEvent::DeletionsMarked => self.succeed(now),
            SyncEvent::StatusSaved => {
                if self.phase == SyncPhase::SavingFailure {
                    let failure = self.failure.take();
                    match failure {
                        Some(e) => self.finish(Err(e)),
                        None => {
                            let counts = (self.new_count, self.updated_count);
                            self.finish(Ok(counts))
                        },
                    }
                } else {
                    let counts = (self.new_count, self.updated_count);
                    self.finish(Ok(counts))
                }
            },
        }
    }
}


// ------------------------------------------------------------------
// Laws of a synchronisation run
// ------------------------------------------------------------------

/// What holds of a run in every state it reaches from its start.
pub open spec fn sync_wf(t: SyncTaskView) -> bool {
    &&& t.status.is_full_sync == !t.incremental
    &&& t.phase != SyncPhase::SavingFailure && t.phase != SyncPhase::Done ==> {
        &&& t.status.error is None
        &&& t.status.fail_count == 0
        &&& t.failure is None
    }
    &&& t.phase == SyncPhase::SavingFailure ==> {
        &&& t.failure is Some
        &&& t.status.error == Some(error_message(t.failure->0))
        &&& t.status.fail_count == t.previous_fail_count + 1
    }
    &&& t.incremental ==> t.phase != SyncPhase::LoadingIds && t.phase != SyncPhase::MarkingDeleted
    &&& phase_rank(t.phase) <= phase_rank(SyncPhase::LoadingExisting) ==> {
        &&& t.new_count == 0
        &&& t.updated_count == 0
    }
}

/// Law: a new run is in a proper state.
pub proof fn law_sync_starts_well_formed(repo: Seq<char>, incremental: bool)
    ensures
        sync_wf(sync_initial(repo, incremental)),
{
}

/// Law: every step a run takes keeps it in a proper state.
pub proof fn law_sync_step_keeps_well_formed(t: SyncTaskView, e: SyncEventView, now: Seq<char>)
    requires
        sync_wf(t),
        sync_accepts(t, e),
    ensures
        sync_wf(sync_next(t, e, now).0),
{
}

/// Law: every step moves a run to a later phase, so a run ends after at most
/// eight steps.
pub proof fn law_sync_always_progresses(t: SyncTaskView, e: SyncEventView, now: Seq<char>)
    requires
        sync_accepts(t, e),
    ensures
        phase_rank(sync_next(t, e, now).0.phase) > phase_rank(t.phase),
        phase_rank(sync_next(t, e, now).0.phase) <= 8,
{
}

/// Law: when an action of a run fails, the saved status records that error
/// and exactly one failure more than the repository had before.
pub proof fn law_failure_counted_once(t: SyncTaskView, err: ErrorView, now: Seq<char>)
    requires
        sync_wf(t),
        phase_records_failure(t.phase),
        sync_accepts(t, SyncEventView::Failed(err)),
    ensures
        sync_next(t, SyncEventView::Failed(err), now).1 matches SyncActionView::SaveStatus {
            status,
            ..
        } && status.fail_count == t.previous_fail_count + 1 && status.error == Some(
            error_message(err),
        ) && status.started_at == t.status.started_at,
{
}

/// Law: a failed run, once its status is saved, ends with the error that
/// failed it.
pub proof fn law_failed_run_reports_its_error(t: SyncTaskView, now: Seq<char>)
    requires
        sync_wf(t),
        t.phase == SyncPhase::SavingFailure,
    ensures
        sync_next(t, SyncEventView::StatusSaved, now).1 == (SyncActionView::Finish {
            outcome: Err(t.failure->0),
        }),
{
}

/// Law: a run that succeeds saves a status with its success time, no error
/// and no failures, whatever failures the repository had before.
pub proof fn law_success_clears_failures(t: SyncTaskView, e: SyncEventView, now: Seq<char>)
    requires
        sync_wf(t),
        sync_accepts(t, e),
        !(e is Failed),
        sync_next(t, e, now).1 is SaveStatus,
    ensures
        sync_next(t, e, now).1 matches SyncActionView::SaveStatus { status, .. }
            && status.fail_count == 0 && status.error is None && status.success_at == Some(now),
{
}

/// Law: an incremental run never marks releases deleted, nor reads the ids
/// that a deletion would be decided from.
pub proof fn law_incremental_run_never_deletes(t: SyncTaskView, e: SyncEventView, now: Seq<char>)
    requires
        sync_wf(t),
        t.incremental,
        sync_accepts(t, e),
    ensures
        !(sync_next(t, e, now).1 is MarkDeleted),
        !(sync_next(t, e, now).1 is LoadReleaseIds),
{
}

/// Law: when GitHub answers that nothing changed, the run writes nothing,
/// keeps its ETag, and saves its success; it will report no new and no
/// updated releases.
pub proof fn law_not_modified_writes_nothing(t: SyncTaskView, page: ReleasePageView, now: Seq<char>)
    requires
        sync_wf(t),
        t.phase == SyncPhase::Fetching,
        t.incremental,
        page.not_modified,
    ensures
        ({
            let (t2, a) = sync_next(t, SyncEventView::PageFetched(page), now);
            &&& a matches SyncActionView::SaveStatus { status, .. } && status.etag == (match page.etag {
                Some(tag) => Some(tag),
                None => t.previous_etag,
            })
            &&& t2.phase == SyncPhase::SavingSuccess
            &&& t2.new_count == 0
            &&& t2.updated_count == 0
            &&& sync_next(t2, SyncEventView::StatusSaved, now).1 == (SyncActionView::Finish {
                outcome: Ok((0, 0)),
            })
        }),
{
}

/// Law: an incremental run that gets no new ETag keeps the one it had.
pub proof fn law_etag_kept_when_absent(t: SyncTaskView, page: ReleasePageView, now: Seq<char>)
    requires
        t.phase == SyncPhase::Fetching,
        t.incremental,
        page.etag is None,
    ensures
        sync_next(t, SyncEventView::PageFetched(page), now).0.status.etag == t.previous_etag,
{
}

/// Law: when the first action of a run after reading the repository's state
/// fails, the state saved for the repository holds that error, no success,
/// and one failure more than it had.
pub proof fn law_failed_run_stores_one_more_failure(
    repo: Seq<char>,
    incremental: bool,
    stored: RepoView,
    err: ErrorView,
    started: Seq<char>,
    failed_at: Seq<char>,
)
    requires
        stored.fail_count < i32::MAX,
    ensures
        ({
            let t1 = sync_next(
                sync_initial(repo, incremental),
                SyncEventView::RepoLoaded(Some(stored)),
                started,
            ).0;
            let a = sync_next(t1, SyncEventView::Failed(err), failed_at).1;
            a matches SyncActionView::SaveStatus { status, .. } && {
                let after = repo_after_sync(stored, status);
                &&& after.fail_count == stored.fail_count + 1
                &&& after.last_error == Some(error_message(err))
                &&& after.last_success_at is None
                &&& after.last_polled_at == Some(started)
                &&& after.enabled == stored.enabled
            }
        }),
{
}

/// Law: an incremental run that finds nothing changed saves the repository
/// as successful at that moment, with no error, no failures and its ETag
/// kept.
pub proof fn law_unchanged_run_stores_success(
    repo: Seq<char>,
    stored: RepoView,
    started: Seq<char>,
    answered_at: Seq<char>,
)
    ensures
        ({
            let t1 = sync_next(
                sync_initial(repo, true),
                SyncEventView::RepoLoaded(Some(stored)),
                started,
            ).0;
            let page = ReleasePageView {
                releases: Seq::empty(),
                etag: stored.etag_page1,
                not_modified: true,
            };
            let a = sync_next(t1, SyncEventView::PageFetched(page), answered_at).1;
            a matches SyncActionView::SaveStatus { status, .. } && {
                let after = repo_after_sync(stored, status);
                &&& after.fail_count == 0
                &&& after.last_error is None
                &&& after.last_success_at == Some(answered_at)
                &&& after.etag_page1 == stored.etag_page1
                &&& after.last_full_sync_at == stored.last_full_sync_at
            }
        }),
{
}

proof fn lemma_ids_not_fetched_members(stored: Seq<i64>, fetched: Seq<i64>, x: i64)
    ensures
        ids_not_fetched(stored, fetched).contains(x) <==> (stored.contains(x) && !fetched.contains(
            x,
        )),
    decreases stored.len(),
{
    if stored.len() > 0 {
        let pre = stored.drop_last();
        lemma_ids_not_fetched_members(pre, fetched, x);
        let earlier = ids_not_fetched(pre, fetched);
        assert(stored =~= pre.push(stored.last()));
        if stored.contains(x) && !pre.contains(x) {
            let k = choose|k: int| 0 <= k < stored.len() && stored[k] == x;
            if k < pre.len() {
                assert(pre[k] == x);
            }
        }
        if pre.contains(x) {
            let k = choose|k: int| 0 <= k < pre.len() && pre[k] == x;
            assert(stored[k] == x);
        }
        if !fetched.contains(stored.last()) {
            let m = earlier.push(stored.last());
            assert(m[m.len() - 1] == stored.last());
            if earlier.contains(x) {
                let k = choose|k: int| 0 <= k < earlier.len() && earlier[k] == x;
                assert(m[k] == x);
            }
            if m.contains(x) && !earlier.contains(x) {
                let k = choose|k: int| 0 <= k < m.len() && m[k] == x;
                if k < earlier.len() {
                    assert(earlier[k] == x);
                }
            }
        }
        assert(stored[stored.len() - 1] == stored.last());
    }
}

/// Law: a full run marks deleted exactly the stored releases of the
/// repository that GitHub no longer lists, and marks nothing when there are
/// none.
pub proof fn law_full_run_marks_exactly_missing(t: SyncTaskView, ids: Seq<i64>, now: Seq<char>)
    requires
        t.phase == SyncPhase::LoadingIds,
    ensures
        ({
            let a = sync_next(t, SyncEventView::ReleaseIdsLoaded(ids), now).1;
            &&& forall|x: i64|
                (ids.contains(x) && !fetched_ids(t.fetched).contains(x)) ==> (a matches SyncActionView::MarkDeleted {
                    ids: marked,
                    ..
                } && marked.contains(x))
            &&& a matches SyncActionView::MarkDeleted { ids: marked, .. } ==> forall|x: i64|
                #[trigger] marked.contains(x) ==> ids.contains(x) && !fetched_ids(
                    t.fetched,
                ).contains(x)
            &&& (forall|x: i64| ids.contains(x) ==> fetched_ids(t.fetched).contains(x))
                ==> a is SaveStatus
        }),
{
    let f = fetched_ids(t.fetched);
    let missing = ids_not_fetched(ids, f);
    let a = sync_next(t, SyncEventView::ReleaseIdsLoaded(ids), now).1;
    assert forall|x: i64| #[trigger] missing.contains(x) <==> (ids.contains(x) && !f.contains(x)) by {
        lemma_ids_not_fetched_members(ids, f, x);
    }
    if missing.len() == 0 {
        assert forall|x: i64| ids.contains(x) implies f.contains(x) by {
            if !f.contains(x) {
                assert(missing.contains(x));
            }
        }
    } else {
        assert(missing.contains(missing[0]));
        assert(a == (SyncActionView::MarkDeleted { repo: t.repo, ids: missing }));
    }
}

proof fn lemma_counts_match_writes(writes: Seq<ReleaseWriteView>)
    ensures
        count_inserts(writes) + count_updates(writes) == writes.len(),
    decreases writes.len(),
{
    if writes.len() > 0 {
        lemma_counts_match_writes(writes.drop_last());
    }
}

proof fn lemma_planned_writes_bounded(
    repo: Seq<char>,
    fetched: Seq<GithubReleaseView>,
    existing: Seq<ReleaseView>,
)
    ensures
        planned_writes(repo, fetched, existing).len() <= fetched.len(),
    decreases fetched.len(),
{
    if fetched.len() > 0 {
        lemma_planned_writes_bounded(repo, fetched.drop_last(), existing);
    }
}

/// Law: the new and updated releases that a run reports are exactly the
/// inserts and updates it wrote, and together no more than it fetched.
pub proof fn law_reported_counts_match_writes(
    repo: Seq<char>,
    fetched: Seq<GithubReleaseView>,
    existing: Seq<ReleaseView>,
)
    ensures
        ({
            let w = planned_writes(repo, fetched, existing);
            count_inserts(w) + count_updates(w) == w.len() && w.len() <= fetched.len()
        }),
{
    lemma_counts_match_writes(planned_writes(repo, fetched, existing));
    lemma_planned_writes_bounded(repo, fetched, existing);
}

/// Law: a fetched release whose id the store does not hold is always
/// inserted, and one whose stored digest equals the digest of its body is
/// never written.
pub proof fn law_write_for_release(
    repo: Seq<char>,
    gr: GithubReleaseView,
    existing: Seq<ReleaseView>,
)
    ensures
        stored_hash(existing, gr.id) is None ==> write_for(repo, gr, existing) matches Some(
            ReleaseWriteView::Insert(_),
        ),
        stored_hash(existing, gr.id) == Some(Some(body_digest(body_text(gr.body))))
            ==> write_for(repo, gr, existing) is None,
{
}

/// Law: every fetched release that the store does not hold is inserted by
/// the plan, in its stored form; with the deletions of a full run, which mark
/// exactly the stored ids that were not fetched, the releases left unmarked
/// are then those fetched.
pub proof fn law_plan_inserts_every_missing(
    repo: Seq<char>,
    fetched: Seq<GithubReleaseView>,
    existing: Seq<ReleaseView>,
    i: int,
)
    requires
        0 <= i < fetched.len(),
        stored_hash(existing, fetched[i].id) is None,
    ensures
        planned_writes(repo, fetched, existing).contains(
            ReleaseWriteView::Insert(
                converted_release(repo, fetched[i], body_digest(body_text(fetched[i].body))),
            ),
        ),
    decreases fetched.len(),
{
    let w = ReleaseWriteView::Insert(
        converted_release(repo, fetched[i], body_digest(body_text(fetched[i].body))),
    );
    let n = fetched.len();
    let earlier = planned_writes(repo, fetched.drop_last(), existing);
    if i == n - 1 {
        assert(fetched.last() == fetched[i]);
        let all = planned_writes(repo, fetched, existing);
        assert(all == earlier.push(w));
        assert(all[earlier.len() as int] == w);
    } else {
        assert(fetched.drop_last()[i] == fetched[i]);
        law_plan_inserts_every_missing(repo, fetched.drop_last(), existing, i);
        let k = choose|k: int| 0 <= k < earlier.len() && earlier[k] == w;
        let all = planned_writes(repo, fetched, existing);
        match write_for(repo, fetched.last(), existing) {
            Some(x) => {
                assert(all == earlier.push(x));
                assert(all[k] == w);
            },
            None => {},
        }
    }
}

/// The stored form of fetched release `g` of `repo`: every field as GitHub
/// gave it, the digest of its body, not marked deleted.
pub open spec fn is_stored_form(rel: ReleaseView, repo: Seq<char>, g: GithubReleaseView) -> bool {
    &&& rel.release_id == g.id
    &&& rel.repo == repo
    &&& rel.tag_name == g.tag_name
    &&& rel.name == g.name
    &&& rel.draft == g.draft
    &&& rel.prerelease == g.prerelease
    &&& rel.created_at == g.created_at
    &&& rel.published_at == g.published_at
    &&& rel.updated_at == g.updated_at
    &&& rel.html_url == g.html_url
    &&& rel.body == g.body
    &&& rel.body_hash == Some(body_digest(body_text(g.body)))
    &&& !rel.is_deleted
    &&& rel.deleted_at is None
}

/// `w` writes the stored form of fetched release `g` of `repo`: as an insert
/// where the store does not hold it, as an update where its stored digest is
/// not the digest of the fetched body.
pub open spec fn writes_fetched(w: ReleaseWriteView, repo: Seq<char>, g: GithubReleaseView, existing: Seq<ReleaseView>) -> bool {
    match w {
        ReleaseWriteView::Insert(rel) => is_stored_form(rel, repo, g) && stored_hash(existing, g.id) is None,
        ReleaseWriteView::Update(rel) => is_stored_form(rel, repo, g) && stored_hash(existing, g.id) is Some
            && stored_hash(existing, g.id) != Some(Some(body_digest(body_text(g.body)))),
    }
}

/// Law: every write that a plan holds, insert or update, writes the stored
/// form of one fetched release, with its body as fetched; an insert is for a
/// release that the store does not hold, and an update for one whose stored
/// digest is not the digest of the fetched body.
pub proof fn law_planned_writes_carry_fetched_releases(
    repo: Seq<char>,
    fetched: Seq<GithubReleaseView>,
    existing: Seq<ReleaseView>,
    k: int,
)
    requires
        0 <= k < planned_writes(repo, fetched, existing).len(),
    ensures
        exists|i: int|
            0 <= i < fetched.len() && writes_fetched(
                planned_writes(repo, fetched, existing)[k],
                repo,
                #[trigger] fetched[i],
                existing,
            ),
    decreases fetched.len(),
{
    let n = fetched.len();
    let all = planned_writes(repo, fetched, existing);
    let earlier = planned_writes(repo, fetched.drop_last(), existing);
    if k < earlier.len() {
        law_planned_writes_carry_fetched_releases(repo, fetched.drop_last(), existing, k);
        let i = choose|i: int|
            0 <= i < fetched.drop_last().len() && writes_fetched(
                earlier[k],
                repo,
                #[trigger] fetched.drop_last()[i],
                existing,
            );
        assert(fetched.drop_last()[i] == fetched[i]);
        match write_for(repo, fetched.last(), existing) {
            Some(w) => {
                assert(all == earlier.push(w));
                assert(all[k] == earlier[k]);
            },
            None => {},
        }
    } else {
        let w = write_for(repo, fetched.last(), existing)->0;
        assert(all == earlier.push(w));
        assert(all[k] == w);
        assert(fetched.last() == fetched[n - 1]);
        assert(writes_fetched(all[k], repo, fetched[n - 1], existing));
    }
}

/// The stored list holds release `id`, and each of its entries under that id
/// carries the digest that the store writes for its body, a body with the
/// same text as `body`.
pub open spec fn held_unchanged(existing: Seq<ReleaseView>, id: i64, body: Option<Seq<char>>) -> bool {
    &&& exists|k: int| 0 <= k < existing.len() && #[trigger] existing[k].release_id == id
    &&& forall|k: int|
        0 <= k < existing.len() && #[trigger] existing[k].release_id == id ==> {
            &&& existing[k].body_hash == Some(body_digest(body_text(existing[k].body)))
            &&& body_text(existing[k].body) == body_text(body)
        }
}

proof fn lemma_stored_hash_of_held(existing: Seq<ReleaseView>, id: i64, body: Option<Seq<char>>)
    requires
        held_unchanged(existing, id, body),
    ensures
        stored_hash(existing, id) == Some(Some(body_digest(body_text(body)))),
    decreases existing.len(),
{
    let n = existing.len();
    if existing.last().release_id != id {
        let k = choose|k: int| 0 <= k < n && #[trigger] existing[k].release_id == id;
        assert(k != n - 1);
        assert(existing.drop_last()[k].release_id == id);
        assert forall|j: int|
            0 <= j < n - 1 && #[trigger] existing.drop_last()[j].release_id == id implies {
                &&& existing.drop_last()[j].body_hash == Some(body_digest(body_text(existing.drop_last()[j].body)))
                &&& body_text(existing.drop_last()[j].body) == body_text(body)
            } by {
            assert(existing[j] == existing.drop_last()[j]);
        }
        lemma_stored_hash_of_held(existing.drop_last(), id, body);
    } else {
        assert(existing[n - 1] == existing.last());
    }
}

/// Law: a fetched release that the store lists among the releases it holds
/// (those not marked deleted), with the digest it wrote for an unchanged
/// body, gets no write, so it is counted neither as new nor as updated.
pub proof fn law_unchanged_release_not_written(
    repo: Seq<char>,
    gr: GithubReleaseView,
    existing: Seq<ReleaseView>,
)
    requires
        held_unchanged(existing, gr.id, gr.body),
    ensures
        write_for(repo, gr, existing) is None,
{
    lemma_stored_hash_of_held(existing, gr.id, gr.body);
}

/// Law: when the store holds every fetched release with an unchanged body,
/// a run writes nothing and reports no new and no updated release.
pub proof fn law_unchanged_releases_not_counted(
    repo: Seq<char>,
    fetched: Seq<GithubReleaseView>,
    existing: Seq<ReleaseView>,
)
    requires
        forall|i: int| 0 <= i < fetched.len() ==> held_unchanged(existing, #[trigger] fetched[i].id, fetched[i].body),
    ensures
        planned_writes(repo, fetched, existing) == Seq::<ReleaseWriteView>::empty(),
        count_inserts(planned_writes(repo, fetched, existing)) == 0,
        count_updates(planned_writes(repo, fetched, existing)) == 0,
    decreases fetched.len(),
{
    if fetched.len() > 0 {
        let n = fetched.len();
        assert forall|i: int| 0 <= i < n - 1 implies held_unchanged(existing, #[trigger] fetched.drop_last()[i].id, fetched.drop_last()[i].body) by {
            assert(fetched.drop_last()[i] == fetched[i]);
        }
        law_unchanged_releases_not_counted(repo, fetched.drop_last(), existing);
        assert(fetched.last() == fetched[n - 1]);
        law_unchanged_release_not_written(repo, fetched.last(), existing);
    }
}


// ------------------------------------------------------------------
// Gathering the runs of every repository
// ------------------------------------------------------------------

/// The view of the outcome of one repository's run: its key and counts, or
/// its error.
pub open spec fn outcome_view(o: Result<(String, usize, usize), Error>) -> Result<
    (Seq<char>, usize, usize),
    ErrorView,
> {
    match o {
        Ok((repo, n, u)) => Ok((repo@, n, u)),
        Err(e) => Err(e@),
    }
}

pub open spec fn outcome_views(s: Seq<Result<(String, usize, usize), Error>>) -> Seq<
    Result<(Seq<char>, usize, usize), ErrorView>,
> {
    s.map_values(|o: Result<(String, usize, usize), Error>| outcome_view(o))
}

/// The outcome of running every repository, given each run's outcome in
/// order: the first error, if any run failed; else every run's counts.
pub open spec fn gathered(s: Seq<Result<(Seq<char>, usize, usize), ErrorView>>) -> Result<
    Seq<(Seq<char>, usize, usize)>,
    ErrorView,
>
    decreases s.len(),
{
    if s.len() == 0 {
        Ok(Seq::empty())
    } else {
        match gathered(s.drop_last()) {
            Err(e) => Err(e),
            Ok(done) => match s.last() {
                Ok(x) => Ok(done.push(x)),
                Err(e) => Err(e),
            },
        }
    }
}

proof fn lemma_gathered_prefix_error(
    s: Seq<Result<(Seq<char>, usize, usize), ErrorView>>,
    k: int,
    e: ErrorView,
)
    requires
        0 <= k <= s.len(),
        gathered(s.subrange(0, k)) == Err::<Seq<(Seq<char>, usize, usize)>, ErrorView>(e),
    ensures
        gathered(s) == Err::<Seq<(Seq<char>, usize, usize)>, ErrorView>(e),
    decreases s.len() - k,
{
    if k < s.len() {
        assert(s.subrange(0, k + 1).drop_last() =~= s.subrange(0, k));
        lemma_gathered_prefix_error(s, k + 1, e);
    } else {
        assert(s.subrange(0, k) =~= s);
    }
}

/// Law: when every run before the `k`-th succeeded and the `k`-th failed,
/// the whole gathering fails with the `k`-th run's error, whatever came after.
pub proof fn law_first_failure_wins(
    s: Seq<Result<(Seq<char>, usize, usize), ErrorView>>,
    k: int,
    e: ErrorView,
)
    requires
        0 <= k < s.len(),
        forall|j: int| 0 <= j < k ==> s[j] is Ok,
        s[k] == Err::<(Seq<char>, usize, usize), ErrorView>(e),
    ensures
        gathered(s) == Err::<Seq<(Seq<char>, usize, usize)>, ErrorView>(e),
{
    lemma_gathered_all_ok(s.subrange(0, k));
    assert(s.subrange(0, k + 1).drop_last() =~= s.subrange(0, k));
    assert(s.subrange(0, k + 1).last() == s[k]);
    lemma_gathered_prefix_error(s, k + 1, e);
}

proof fn lemma_gathered_all_ok(s: Seq<Result<(Seq<char>, usize, usize), ErrorView>>)
    requires
        forall|j: int| 0 <= j < s.len() ==> s[j] is Ok,
    ensures
        gathered(s) is Ok,
        gathered(s)->Ok_0.len() == s.len(),
        forall|j: int| 0 <= j < s.len() ==> s[j] == Ok::<(Seq<char>, usize, usize), ErrorView>(
            gathered(s)->Ok_0[j],
        ),
    decreases s.len(),
{
    if s.len() > 0 {
        let pre = s.drop_last();
        assert forall|j: int| 0 <= j < pre.len() implies pre[j] is Ok by {
            assert(pre[j] == s[j]);
        }
        lemma_gathered_all_ok(pre);
        assert(s.last() == s[s.len() - 1]);
        let done = gathered(pre)->Ok_0;
        assert forall|j: int| 0 <= j < s.len() implies s[j] == Ok::<(Seq<char>, usize, usize), ErrorView>(
            gathered(s)->Ok_0[j],
        ) by {
            if j < pre.len() {
                assert(pre[j] == s[j]);
            }
        }
    }
}

/// Law: when every run succeeded, the gathering gives every run's key and
/// counts, in the order of the runs.
pub proof fn law_all_successes_are_kept(s: Seq<Result<(Seq<char>, usize, usize), ErrorView>>)
    requires
        forall|j: int| 0 <= j < s.len() ==> s[j] is Ok,
    ensures
        gathered(s) is Ok,
        gathered(s)->Ok_0.len() == s.len(),
        forall|j: int| 0 <= j < s.len() ==> s[j] == Ok::<(Seq<char>, usize, usize), ErrorView>(
            gathered(s)->Ok_0[j],
        ),
{
    lemma_gathered_all_ok(s);
}

/// Gathers the outcomes of the runs of every repository, in order.
pub fn collect_sync_results(outcomes: Vec<Result<(String, usize, usize), Error>>) -> (r: Result<
    Vec<(String, usize, usize)>,
    Error,
>)
    ensures
        match r {
            Ok(v) => gathered(outcome_views(outcomes@)) == Ok::<
                Seq<(Seq<char>, usize, usize)>,
                ErrorView,
            >(v@.map_values(|x: (String, usize, usize)| (x.0@, x.1, x.2))),
            Err(e) => gathered(outcome_views(outcomes@)) == Err::<
                Seq<(Seq<char>, usize, usize)>,
                ErrorView,
            >(e@),
        },
{
    let ghost all = outcome_views(outcomes@);
    let n = outcomes.len();
    let mut rest = outcomes;
    let mut done: Vec<(String, usize, usize)> = Vec::new();
    let mut i: usize = 0;
    assert(all.subrange(0, 0) =~= Seq::<Result<(Seq<char>, usize, usize), ErrorView>>::empty());
    assert(done@.map_values(|x: (String, usize, usize)| (x.0@, x.1, x.2)) =~= Seq::<(Seq<char>, usize, usize)>::empty());
    while rest.len() > 0
        invariant
            i <= n,
            all == outcome_views(outcomes@),
            all.len() == n,
            rest@.len() == n - i,
            forall|j: int| 0 <= j < rest@.len() ==> outcome_view(#[trigger] rest@[j]) == all[i + j],
            gathered(all.subrange(0, i as int)) == Ok::<Seq<(Seq<char>, usize, usize)>, ErrorView>(
                done@.map_values(|x: (String, usize, usize)| (x.0@, x.1, x.2)),
            ),
        decreases rest@.len(),
    {
        let ghost before = done@;
        let ghost rest_before = rest@;
        let first = rest.remove(0);
        assert(outcome_view(first) == all[i as int]);
        assert(all.subrange(0, i + 1).drop_last() =~= all.subrange(0, i as int));
        assert(all.subrange(0, i + 1).last() == all[i as int]);
        assert forall|j: int| 0 <= j < rest@.len() implies outcome_view(#[trigger] rest@[j]) == all[i + 1 + j] by {
            assert(rest@[j] == rest_before[j + 1]);
        }
        match first {
            Ok(x) => {
                done.push(x);
                assert(done@.map_values(|x: (String, usize, usize)| (x.0@, x.1, x.2)) =~= before.map_values(
                    |x: (String, usize, usize)| (x.0@, x.1, x.2),
                ).push((x.0@, x.1, x.2)));
            },
            Err(e) => {
                proof {
                    assert(all[i as int] == Err::<(Seq<char>, usize, usize), ErrorView>(e@));
                    assert(gathered(all.subrange(0, i + 1)) == Err::<
                        Seq<(Seq<char>, usize, usize)>,
                        ErrorView,
                    >(e@));
                    lemma_gathered_prefix_error(all, i + 1, e@);
                }
                return Err(e);
            },
        }
        i = i + 1;
    }
    assert(all.subrange(0, i as int) =~= all);
    Ok(done)
}


// ------------------------------------------------------------------
// Laws of whole runs
// ------------------------------------------------------------------

/// Law: the ETag that an incremental run records is the one of the page
/// GitHub just sent, whether or not the page was modified; only a page
/// without an ETag keeps the stored one. A page that was not modified ends
/// the fetching by saving that status.
pub proof fn law_page_etag_is_recorded(t: SyncTaskView, page: ReleasePageView, now: Seq<char>)
    requires
        t.phase == SyncPhase::Fetching,
        t.incremental,
    ensures
        ({
            let (t2, a) = sync_next(t, SyncEventView::PageFetched(page), now);
            &&& t2.status.etag == match page.etag {
                Some(e) => Some(e),
                None => t.previous_etag,
            }
            &&& page.not_modified ==> (a matches SyncActionView::SaveStatus { status, .. }
                && status.etag == t2.status.etag)
        }),
{
}

/// Law: once the releases are fetched, no step changes the ETag of the
/// status, and every status a run saves is the one it holds.
pub proof fn law_etag_kept_after_fetching(t: SyncTaskView, e: SyncEventView, now: Seq<char>)
    requires
        t.phase != SyncPhase::LoadingRepo,
        t.phase != SyncPhase::Fetching,
        sync_accepts(t, e),
    ensures
        ({
            let (t2, a) = sync_next(t, e, now);
            &&& t2.status.etag == t.status.etag
            &&& (a matches SyncActionView::SaveStatus { status, .. } ==> status == t2.status)
        }),
{
}

/// The actions of a run from state `t` on the outcomes `events`, each
/// reported at the matching time of `nows`.
pub open spec fn sync_trace(
    t: SyncTaskView,
    events: Seq<SyncEventView>,
    nows: Seq<Seq<char>>,
) -> Seq<SyncActionView>
    decreases events.len(),
{
    if events.len() == 0 || nows.len() == 0 {
        Seq::empty()
    } else {
        let (t2, a) = sync_next(t, events[0], nows[0]);
        seq![a] + sync_trace(t2, events.skip(1), nows.skip(1))
    }
}

/// Every outcome of `events` is one that the run waits for when it comes.
pub open spec fn sync_run_accepted(
    t: SyncTaskView,
    events: Seq<SyncEventView>,
    nows: Seq<Seq<char>>,
) -> bool
    decreases events.len(),
{
    events.len() == 0 || (nows.len() > 0 && sync_accepts(t, events[0]) && sync_run_accepted(
        sync_next(t, events[0], nows[0]).0,
        events.skip(1),
        nows.skip(1),
    ))
}

/// The writes that the actions issue: those of their first write action,
/// none if there is none.
pub open spec fn writes_issued(actions: Seq<SyncActionView>) -> Seq<ReleaseWriteView>
    decreases actions.len(),
{
    if actions.len() == 0 {
        Seq::empty()
    } else {
        match actions[0] {
            SyncActionView::WriteReleases { writes } => writes,
            _ => writes_issued(actions.skip(1)),
        }
    }
}

spec fn before_writing(p: SyncPhase) -> bool {
    p == SyncPhase::LoadingRepo || p == SyncPhase::Fetching || p == SyncPhase::LoadingExisting
}

proof fn lemma_reported_counts(t: SyncTaskView, events: Seq<SyncEventView>, nows: Seq<Seq<char>>)
    requires
        sync_run_accepted(t, events, nows),
        before_writing(t.phase) ==> t.new_count == 0 && t.updated_count == 0,
        sync_trace(t, events, nows).len() > 0,
        sync_trace(t, events, nows).last() is Finish,
        sync_trace(t, events, nows).last()->outcome is Ok,
    ensures
        ({
            let acts = sync_trace(t, events, nows);
            let (n, u) = acts.last()->outcome->Ok_0;
            &&& before_writing(t.phase) ==> n == count_inserts(writes_issued(acts)) && u
                == count_updates(writes_issued(acts))
            &&& !before_writing(t.phase) ==> n == t.new_count && u == t.updated_count
                && writes_issued(acts) == Seq::<ReleaseWriteView>::empty()
        }),
    decreases events.len(),
{
    let acts = sync_trace(t, events, nows);
    let (t2, a) = sync_next(t, events[0], nows[0]);
    let rest = sync_trace(t2, events.skip(1), nows.skip(1));
    assert(acts == seq![a] + rest);
    assert(acts[0] == a);
    assert(acts.skip(1) =~= rest);
    if !(a is WriteReleases) {
        assert(writes_issued(acts) == writes_issued(rest));
    }
    if rest.len() == 0 {
        assert(acts.last() == a);
        assert(writes_issued(rest) == Seq::<ReleaseWriteView>::empty());
    } else {
        assert(acts.last() == rest.last());
        lemma_reported_counts(t2, events.skip(1), nows.skip(1));
    }
}

/// Law: a run that ends in success reports as new and updated exactly the
/// inserts and updates of the writes it issued, and none when it issued no
/// writes (an unmodified page).
pub proof fn law_reported_counts_are_issued_writes(
    repo: Seq<char>,
    incremental: bool,
    events: Seq<SyncEventView>,
    nows: Seq<Seq<char>>,
    new_count: nat,
    updated_count: nat,
)
    requires
        sync_run_accepted(sync_initial(repo, incremental), events, nows),
        sync_trace(sync_initial(repo, incremental), events, nows).len() > 0,
        sync_trace(sync_initial(repo, incremental), events, nows).last() == (SyncActionView::Finish {
            outcome: Ok((new_count, updated_count)),
        }),
    ensures
        ({
            let writes = writes_issued(sync_trace(sync_initial(repo, incremental), events, nows));
            new_count == count_inserts(writes) && updated_count == count_updates(writes)
        }),
{
    lemma_reported_counts(sync_initial(repo, incremental), events, nows);
}

} // verus!
