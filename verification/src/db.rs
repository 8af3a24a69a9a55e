//! Records of the store: watched repositories, releases, the status of a
//! synchronisation and the outcome of writing a release; the repository key
//! and the body digest under which releases are kept.
use vstd::prelude::*;
use vstd::string::*;

use vstd::utf8::*;

use crate::text::{
    contains_seq, contains_str, has_prefix, hex_bytes, occurs_at, opt_view, starts_with,
    str_equal, trim_end_char, trim_end_matches_char, or_text, bool_text, signed_decimal,
    append_or, append_bool, i64_to_decimal, copy_opt,
};

verus! {

// ------------------------------------------------------------------
// Repository keys
// ------------------------------------------------------------------

/// The key under which a repository is stored: a GitHub URL
/// (`https://github.com/owner/repo` or `http://github.com/owner/repo`) is
/// reduced to its path, and trailing slashes are dropped.
pub open spec fn repo_key(repo: Seq<char>) -> Seq<char> {
    if has_prefix(repo, "https://github.com/"@) {
        trim_end_char(repo.skip("https://github.com/"@.len() as int), '/')
    } else if has_prefix(repo, "http://github.com/"@) {
        trim_end_char(repo.skip("http://github.com/"@.len() as int), '/')
    } else {
        trim_end_char(repo, '/')
    }
}

proof fn lemma_url_prefix_names_github(repo: Seq<char>)
    ensures
        has_prefix(repo, "https://github.com/"@) ==> contains_seq(repo, "github.com"@),
        has_prefix(repo, "http://github.com/"@) ==> contains_seq(repo, "github.com"@),
{
    reveal_strlit("https://github.com/");
    reveal_strlit("http://github.com/");
    reveal_strlit("github.com");
    if has_prefix(repo, "https://github.com/"@) {
        assert(repo.subrange(0, 19) == "https://github.com/"@);
        assert(repo.subrange(8, 18) =~= "github.com"@) by {
            assert forall|k: int| 0 <= k < 10 implies repo.subrange(8, 18)[k]
                == "github.com"@[k] by {
                assert(repo.subrange(8, 18)[k] == repo.subrange(0, 19)[8 + k]);
            }
        }
        assert(occurs_at(repo, "github.com"@, 8));
    }
    if has_prefix(repo, "http://github.com/"@) {
        assert(repo.subrange(0, 18) == "http://github.com/"@);
        assert(repo.subrange(7, 17) =~= "github.com"@) by {
            assert forall|k: int| 0 <= k < 10 implies repo.subrange(7, 17)[k]
                == "github.com"@[k] by {
                assert(repo.subrange(7, 17)[k] == repo.subrange(0, 18)[7 + k]);
            }
        }
        assert(occurs_at(repo, "github.com"@, 7));
    }
}

/// Reduces a repository name or GitHub URL to the key it is stored under.
pub fn normalize_repo(repo: &str) -> (r: String)
    ensures
        r@ == repo_key(repo@),
{
    proof {
        lemma_url_prefix_names_github(repo@);
    }
    if contains_str(repo, "github.com") {
        let https = "https://github.com/";
        let http = "http://github.com/";
        let n = repo.unicode_len();
        if starts_with(repo, https) {
            let path = repo.substring_char(https.unicode_len(), n);
            assert(path@ =~= repo@.skip("https://github.com/"@.len() as int));
            return trim_end_matches_char(path, '/');
        } else if starts_with(repo, http) {
            let path = repo.substring_char(http.unicode_len(), n);
            assert(path@ =~= repo@.skip("http://github.com/"@.len() as int));
            return trim_end_matches_char(path, '/');
        }
    }
    trim_end_matches_char(repo, '/')
}

proof fn lemma_trim_end_char_ends_clean(s: Seq<char>, c: char)
    ensures
        trim_end_char(s, c).len() == 0 || trim_end_char(s, c).last() != c,
        trim_end_char(trim_end_char(s, c), c) == trim_end_char(s, c),
    decreases s.len(),
{
    if s.len() > 0 && s.last() == c {
        lemma_trim_end_char_ends_clean(s.drop_last(), c);
    }
}

/// Law: a repository key never ends with `/`.
pub proof fn law_repo_key_has_no_trailing_slash(repo: Seq<char>)
    ensures
        repo_key(repo).len() == 0 || repo_key(repo).last() != '/',
{
    lemma_trim_end_char_ends_clean(repo, '/');
    lemma_trim_end_char_ends_clean(repo.skip("https://github.com/"@.len() as int), '/');
    lemma_trim_end_char_ends_clean(repo.skip("http://github.com/"@.len() as int), '/');
}

/// Law: reducing a key again leaves it as it is, unless the key itself still
/// begins with a GitHub URL prefix (as `https://github.com/https://github.com/x`
/// reduces to `https://github.com/x`, and that again to `x`).
pub proof fn law_repo_key_idempotent(repo: Seq<char>)
    requires
        !has_prefix(repo_key(repo), "https://github.com/"@),
        !has_prefix(repo_key(repo), "http://github.com/"@),
    ensures
        repo_key(repo_key(repo)) == repo_key(repo),
{
    lemma_trim_end_char_ends_clean(repo, '/');
    lemma_trim_end_char_ends_clean(repo.skip("https://github.com/"@.len() as int), '/');
    lemma_trim_end_char_ends_clean(repo.skip("http://github.com/"@.len() as int), '/');
}

/// Law: `owner/repo`, `https://github.com/owner/repo` and
/// `http://github.com/owner/repo` name the same stored repository, whatever
/// the path, as long as the path does not itself begin with a URL prefix.
pub proof fn law_url_forms_share_key(path: Seq<char>)
    requires
        !has_prefix(path, "https://github.com/"@),
        !has_prefix(path, "http://github.com/"@),
    ensures
        repo_key("https://github.com/"@ + path) == repo_key(path),
        repo_key("http://github.com/"@ + path) == repo_key(path),
{
    let a = "https://github.com/"@;
    let b = "http://github.com/"@;
    assert((a + path).subrange(0, a.len() as int) =~= a);
    assert((a + path).skip(a.len() as int) =~= path);
    assert((b + path).subrange(0, b.len() as int) =~= b);
    assert((b + path).skip(b.len() as int) =~= path);
    if has_prefix(b + path, a) {
        // a URL beginning with `http://` cannot also begin with `https://`
        reveal_strlit("https://github.com/");
        reveal_strlit("http://github.com/");
        assert((b + path)[4] == b[4]);
        assert((b + path).subrange(0, a.len() as int)[4] == a[4]);
    }
}

// ------------------------------------------------------------------
// Body digests
// ------------------------------------------------------------------

/// The SHA-256 digest of a byte string.
pub uninterp spec fn sha256(data: Seq<u8>) -> Seq<u8>;

/// Wraps `sha2::Sha256::digest`: its result is the SHA-256 digest of the
/// given bytes, 32 bytes long. What the digest is beyond that is named
/// (`sha256`), not stated.
#[verifier::external_body]
fn sha256_digest(data: &[u8]) -> (r: Vec<u8>)
    ensures
        r@ == sha256(data@),
        r@.len() == 32,
{
    <sha2::Sha256 as sha2::Digest>::digest(data).to_vec()
}

/// Wraps `hex::encode`, which encodes every byte as two lowercase hexadecimal
/// digits, high nibble first.
#[verifier::external_body]
fn hex_encode(data: &[u8]) -> (r: String)
    ensures
        r@ == hex_bytes(data@),
{
    hex::encode(data)
}

/// The digest under which a release body is stored: the lowercase hex form of
/// the SHA-256 digest of its UTF-8 bytes.
pub open spec fn body_digest(content: Seq<char>) -> Seq<char> {
    hex_bytes(sha256(encode_utf8(content)))
}

/// Computes the stored digest of a release body.
pub fn calculate_hash(content: &str) -> (r: String)
    ensures
        r@ == body_digest(content@),
        r@.len() == 64,
{
    let bytes = content.as_bytes();
    let digest = sha256_digest(bytes);
    let r = hex_encode(digest.as_slice());
    proof {
        crate::text::law_hex_bytes_len(digest@);
    }
    r
}


// ------------------------------------------------------------------
// Records
// ------------------------------------------------------------------

/// A watched repository and the state of its last synchronisation.
#[derive(Debug, Clone)]
pub struct Repo {
    pub repo: String,
    pub enabled: bool,
    pub last_polled_at: Option<String>,
    pub last_full_sync_at: Option<String>,
    pub last_success_at: Option<String>,
    pub last_error: Option<String>,
    pub fail_count: i32,
    pub etag_page1: Option<String>,
}

pub struct RepoView {
    pub repo: Seq<char>,
    pub enabled: bool,
    pub last_polled_at: Option<Seq<char>>,
    pub last_full_sync_at: Option<Seq<char>>,
    pub last_success_at: Option<Seq<char>>,
    pub last_error: Option<Seq<char>>,
    pub fail_count: i32,
    pub etag_page1: Option<Seq<char>>,
}

impl View for Repo {
    type V = RepoView;

    open spec fn view(&self) -> RepoView {
        RepoView {
            repo: self.repo@,
            enabled: self.enabled,
            last_polled_at: opt_view(self.last_polled_at),
            last_full_sync_at: opt_view(self.last_full_sync_at),
            last_success_at: opt_view(self.last_success_at),
            last_error: opt_view(self.last_error),
            fail_count: self.fail_count,
            etag_page1: opt_view(self.etag_page1),
        }
    }
}

/// A stored release of a repository.
#[derive(Debug, Clone)]
pub struct Release {
    pub release_id: i64,
    pub repo: String,
    pub tag_name: Option<String>,
    pub name: Option<String>,
    pub draft: bool,
    pub prerelease: bool,
    pub created_at: Option<String>,
    pub published_at: Option<String>,
    pub updated_at: Option<String>,
    pub html_url: Option<String>,
    pub body: Option<String>,
    pub body_hash: Option<String>,
    pub is_deleted: bool,
    pub deleted_at: Option<String>,
}

pub struct ReleaseView {
    pub release_id: i64,
    pub repo: Seq<char>,
    pub tag_name: Option<Seq<char>>,
    pub name: Option<Seq<char>>,
    pub draft: bool,
    pub prerelease: bool,
    pub created_at: Option<Seq<char>>,
    pub published_at: Option<Seq<char>>,
    pub updated_at: Option<Seq<char>>,
    pub html_url: Option<Seq<char>>,
    pub body: Option<Seq<char>>,
    pub body_hash: Option<Seq<char>>,
    pub is_deleted: bool,
    pub deleted_at: Option<Seq<char>>,
}

impl View for Release {
    type V = ReleaseView;

    open spec fn view(&self) -> ReleaseView {
        ReleaseView {
            release_id: self.release_id,
            repo: self.repo@,
            tag_name: opt_view(self.tag_name),
            name: opt_view(self.name),
            draft: self.draft,
            prerelease: self.prerelease,
            created_at: opt_view(self.created_at),
            published_at: opt_view(self.published_at),
            updated_at: opt_view(self.updated_at),
            html_url: opt_view(self.html_url),
            body: opt_view(self.body),
            body_hash: opt_view(self.body_hash),
            is_deleted: self.is_deleted,
            deleted_at: opt_view(self.deleted_at),
        }
    }
}

/// What a synchronisation of one repository records about itself.
#[derive(Debug)]
pub struct SyncStatus {
    pub started_at: String,
    pub success_at: Option<String>,
    pub error: Option<String>,
    pub fail_count: i32,
    pub etag: Option<String>,
    pub is_full_sync: bool,
}

pub struct SyncStatusView {
    pub started_at: Seq<char>,
    pub success_at: Option<Seq<char>>,
    pub error: Option<Seq<char>>,
    pub fail_count: i32,
    pub etag: Option<Seq<char>>,
    pub is_full_sync: bool,
}

impl View for SyncStatus {
    type V = SyncStatusView;

    open spec fn view(&self) -> SyncStatusView {
        SyncStatusView {
            started_at: self.started_at@,
            success_at: opt_view(self.success_at),
            error: opt_view(self.error),
            fail_count: self.fail_count,
            etag: opt_view(self.etag),
            is_full_sync: self.is_full_sync,
        }
    }
}

impl SyncStatus {
    /// The status of a synchronisation that started at `started_at`.
    pub fn started(is_full_sync: bool, started_at: String) -> (r: SyncStatus)
        ensures
            r@ == (SyncStatusView {
                started_at: started_at@,
                success_at: None,
                error: None,
                fail_count: 0,
                etag: None,
                is_full_sync,
            }),
    {
        SyncStatus { started_at, success_at: None, error: None, fail_count: 0, etag: None, is_full_sync }
    }
}

/// The stored state of a repository once the status of a run is saved: the
/// run's start is its last poll, its success, error, failure count and ETag
/// replace the stored ones, and a full run's start becomes the time of the
/// last full synchronisation.
pub open spec fn repo_after_sync(r: RepoView, s: SyncStatusView) -> RepoView {
    RepoView {
        last_polled_at: Some(s.started_at),
        last_success_at: s.success_at,
        last_error: s.error,
        fail_count: s.fail_count,
        etag_page1: s.etag,
        last_full_sync_at: if s.is_full_sync {
            Some(s.started_at)
        } else {
            r.last_full_sync_at
        },
        ..r
    }
}

impl Repo {
    /// The repository's stored state once the status of a run is saved.
    pub fn record_sync(&self, status: &SyncStatus) -> (r: Repo)
        ensures
            r@ == repo_after_sync(self@, status@),
    {
        Repo {
            repo: self.repo.clone(),
            enabled: self.enabled,
            last_polled_at: Some(status.started_at.clone()),
            last_full_sync_at: if status.is_full_sync {
                Some(status.started_at.clone())
            } else {
                copy_opt(&self.last_full_sync_at)
            },
            last_success_at: copy_opt(&status.success_at),
            last_error: copy_opt(&status.error),
            fail_count: status.fail_count,
            etag_page1: copy_opt(&status.etag),
        }
    }
}

/// Law: saving the status of a run never changes which repository it is nor
/// whether it is enabled, and only a full run moves the time of the last full
/// synchronisation.
pub proof fn law_sync_record_keeps_settings(r: RepoView, s: SyncStatusView)
    ensures
        repo_after_sync(r, s).repo == r.repo,
        repo_after_sync(r, s).enabled == r.enabled,
        !s.is_full_sync ==> repo_after_sync(r, s).last_full_sync_at == r.last_full_sync_at,
        repo_after_sync(r, s).fail_count == s.fail_count,
        repo_after_sync(r, s).last_error == s.error,
{
}

// ------------------------------------------------------------------
// Writing one release
// ------------------------------------------------------------------

/// What writing a release does to the stored row with the same id and repo.
#[derive(Debug, Clone, Copy, PartialEq, Eq, Structural)]
pub enum UpsertAction {
    /// No such row: insert it.
    Insert,
    /// The row was marked deleted: overwrite it and clear the mark.
    Restore,
    /// The body changed: overwrite the row.
    Update,
    /// The body is unchanged: leave the row as it is.
    Skip,
}

/// What writing a release does, given the stored row's body digest and
/// deletion flag (if a row exists) and the new body's digest.
pub open spec fn upsert_action(existing: Option<(Seq<char>, i32)>, body_hash: Seq<char>) -> UpsertAction {
    match existing {
        None => UpsertAction::Insert,
        Some((stored, is_deleted)) => if is_deleted == 1 {
            UpsertAction::Restore
        } else if stored != body_hash {
            UpsertAction::Update
        } else {
            UpsertAction::Skip
        },
    }
}

/// Decides how a release is written, given what is stored for it.
pub fn decide_upsert(existing: &Option<(String, i32)>, body_hash: &str) -> (r: UpsertAction)
    ensures
        r == upsert_action(
            match existing {
                Some(e) => Some((e.0@, e.1)),
                None => None,
            },
            body_hash@,
        ),
{
    match existing {
        None => UpsertAction::Insert,
        Some((stored, is_deleted)) => if *is_deleted == 1 {
            UpsertAction::Restore
        } else if !str_equal(stored.as_str(), body_hash) {
            UpsertAction::Update
        } else {
            UpsertAction::Skip
        },
    }
}

/// Law: once a release is written with a body digest and not marked deleted,
/// writing it again with the same digest leaves the row as it is, and a
/// release that was marked deleted is always restored.
pub proof fn law_unchanged_release_is_skipped(body_hash: Seq<char>, stored: Seq<char>)
    ensures
        upsert_action(Some((body_hash, 0)), body_hash) == UpsertAction::Skip,
        upsert_action(Some((stored, 1)), body_hash) == UpsertAction::Restore,
        upsert_action(None, body_hash) == UpsertAction::Insert,
{
}

/// Law: a stored release is updated exactly when it is not marked deleted
/// and its stored digest differs from the digest of the body now written,
/// whatever the two digests hold.
pub proof fn law_changed_body_is_updated(stored: Seq<char>, is_deleted: i32, body_hash: Seq<char>)
    ensures
        (upsert_action(Some((stored, is_deleted)), body_hash) == UpsertAction::Update) <==> (
        is_deleted != 1 && stored != body_hash),
{
}

/// How many releases a write inserted, updated and skipped.
#[derive(Debug, Clone, Copy)]
pub struct UpsertResult {
    pub inserted: i32,
    pub updated: i32,
    pub skipped: i32,
}

impl UpsertResult {
    /// The count of one write: a restore counts as an update.
    pub fn for_action(action: UpsertAction) -> (r: UpsertResult)
        ensures
            r.inserted == (if action == UpsertAction::Insert { 1int } else { 0 }),
            r.updated == (if action == UpsertAction::Update || action == UpsertAction::Restore {
                1int
            } else {
                0
            }),
            r.skipped == (if action == UpsertAction::Skip { 1int } else { 0 }),
            r.inserted + r.updated + r.skipped == 1,
    {
        match action {
            UpsertAction::Insert => UpsertResult { inserted: 1, updated: 0, skipped: 0 },
            UpsertAction::Restore => UpsertResult { inserted: 0, updated: 1, skipped: 0 },
            UpsertAction::Update => UpsertResult { inserted: 0, updated: 1, skipped: 0 },
            UpsertAction::Skip => UpsertResult { inserted: 0, updated: 0, skipped: 1 },
        }
    }

    /// The number of releases counted.
    pub fn total(&self) -> (r: i32)
        requires
            i32::MIN <= self.inserted + self.updated <= i32::MAX,
            i32::MIN <= self.inserted + self.updated + self.skipped <= i32::MAX,
        ensures
            r == self.inserted + self.updated + self.skipped,
    {
        self.inserted + self.updated + self.skipped
    }
}


// ------------------------------------------------------------------
// How records are shown
// ------------------------------------------------------------------

/// The title of a release: its name, else its tag, else `Unnamed`.
pub open spec fn release_title(r: ReleaseView) -> Seq<char> {
    or_text(r.name, or_text(r.tag_name, "Unnamed"@))
}

/// The one-line form of a release: id, repository, title, publication time.
pub open spec fn release_line(r: ReleaseView) -> Seq<char> {
    "["@ + signed_decimal(r.release_id as int) + "] "@ + r.repo + " - "@ + release_title(r) + " ("@
        + or_text(r.published_at, "unknown"@) + ")"@
}

/// The full form of a release: every field, then the body.
pub open spec fn release_full_text(r: ReleaseView) -> Seq<char> {
    "Release: "@ + release_title(r) + " ("@ + signed_decimal(r.release_id as int) + ")\nTag: "@
        + or_text(r.tag_name, "no tag"@) + "\nRepo: "@ + r.repo + "\nDraft: "@ + bool_text(r.draft)
        + " | Pre-release: "@ + bool_text(r.prerelease) + "\nCreated: "@ + or_text(
        r.created_at,
        "N/A"@,
    ) + "\nPublished: "@ + or_text(r.published_at, "N/A"@) + "\nUpdated: "@ + or_text(
        r.updated_at,
        "N/A"@,
    ) + "\nURL: "@ + or_text(r.html_url, "N/A"@) + "\n\n"@ + or_text(r.body, ""@)
}

/// The head of the full form of a release: its title and id, its tag and
/// its repository, each on a line.
pub open spec fn release_full_head(r: ReleaseView) -> Seq<char> {
    "Release: "@ + release_title(r) + " ("@ + signed_decimal(r.release_id as int) + ")\nTag: "@
        + or_text(r.tag_name, "no tag"@) + "\nRepo: "@ + r.repo + "\n"@
}

/// The end of the full form of a release: a blank line, then its body.
pub open spec fn release_full_tail(r: ReleaseView) -> Seq<char> {
    "\n\n"@ + or_text(r.body, ""@)
}

/// Law: the full form of a release begins with its title, id, tag and
/// repository and ends with a blank line and its body; and it does not
/// depend on the stored digest or on whether the release is marked deleted.
pub proof fn law_release_full_text_frame(r: ReleaseView, other: ReleaseView)
    requires
        other == (ReleaseView { body_hash: other.body_hash, is_deleted: other.is_deleted, deleted_at: other.deleted_at, ..r }),
    ensures
        has_prefix(release_full_text(r), release_full_head(r)),
        occurs_at(
            release_full_text(r),
            release_full_tail(r),
            release_full_text(r).len() - release_full_tail(r).len(),
        ),
        release_full_text(other) == release_full_text(r),
{
    let head = release_full_head(r);
    let tail = release_full_tail(r);
    let l0 = "Release: "@ + release_title(r) + " ("@ + signed_decimal(r.release_id as int)
        + ")\nTag: "@ + or_text(r.tag_name, "no tag"@) + "\nRepo: "@ + r.repo;
    let l1 = l0 + "\nDraft: "@;
    reveal_strlit("\nDraft: ");
    reveal_strlit("\n");
    assert(head == l0 + "\n"@);
    assert(l1.subrange(0, head.len() as int) =~= head);
    let l2 = l1 + bool_text(r.draft);
    lemma_prefix_kept(l1, bool_text(r.draft), head);
    let l3 = l2 + " | Pre-release: "@;
    lemma_prefix_kept(l2, " | Pre-release: "@, head);
    let l4 = l3 + bool_text(r.prerelease);
    lemma_prefix_kept(l3, bool_text(r.prerelease), head);
    let l5 = l4 + "\nCreated: "@;
    lemma_prefix_kept(l4, "\nCreated: "@, head);
    let l6 = l5 + or_text(r.created_at, "N/A"@);
    lemma_prefix_kept(l5, or_text(r.created_at, "N/A"@), head);
    let l7 = l6 + "\nPublished: "@;
    lemma_prefix_kept(l6, "\nPublished: "@, head);
    let l8 = l7 + or_text(r.published_at, "N/A"@);
    lemma_prefix_kept(l7, or_text(r.published_at, "N/A"@), head);
    let l9 = l8 + "\nUpdated: "@;
    lemma_prefix_kept(l8, "\nUpdated: "@, head);
    let l10 = l9 + or_text(r.updated_at, "N/A"@);
    lemma_prefix_kept(l9, or_text(r.updated_at, "N/A"@), head);
    let l11 = l10 + "\nURL: "@;
    lemma_prefix_kept(l10, "\nURL: "@, head);
    let l12 = l11 + or_text(r.html_url, "N/A"@);
    lemma_prefix_kept(l11, or_text(r.html_url, "N/A"@), head);
    let l13 = l12 + "\n\n"@;
    lemma_prefix_kept(l12, "\n\n"@, head);
    let t = l13 + or_text(r.body, ""@);
    lemma_prefix_kept(l13, or_text(r.body, ""@), head);
    assert(t == release_full_text(r));
    assert(t =~= l12 + tail);
    assert(t.subrange(t.len() - tail.len(), t.len() as int) =~= tail);
}

proof fn lemma_prefix_kept(x: Seq<char>, y: Seq<char>, p: Seq<char>)
    requires
        has_prefix(x, p),
    ensures
        has_prefix(x + y, p),
{
    assert((x + y).subrange(0, p.len() as int) =~= x.subrange(0, p.len() as int));
}

/// The one-line form of a watched repository: its key, whether it is
/// enabled, its last success, its failure count and its last error if any.
pub open spec fn repo_line(r: RepoView) -> Seq<char> {
    r.repo + " ["@ + (if r.enabled {
        "enabled"@
    } else {
        "disabled"@
    }) + "] | Last sync: "@ + or_text(r.last_success_at, "never"@) + " | Failures: "@
        + signed_decimal(r.fail_count as int) + match r.last_error {
        Some(e) => " | Error: "@ + e,
        None => ""@,
    }
}

fn append_title(out: &mut String, r: &Release)
    ensures
        final(out)@ == old(out)@ + release_title(r@),
{
    match &r.name {
        Some(n) => out.append(n.as_str()),
        None => append_or(out, &r.tag_name, "Unnamed"),
    }
}

impl Release {
    /// The one-line form of the release, as a listing shows it.
    pub fn display_text(&self) -> (r: String)
        ensures
            r@ == release_line(self@),
    {
        let mut r = "[".to_owned();
        r.append(i64_to_decimal(self.release_id).as_str());
        r.append("] ");
        r.append(self.repo.as_str());
        r.append(" - ");
        append_title(&mut r, self);
        r.append(" (");
        append_or(&mut r, &self.published_at, "unknown");
        r.append(")");
        r
    }

    /// The full form of the release, with its body.
    pub fn full(&self) -> (r: String)
        ensures
            r@ == release_full_text(self@),
    {
        let mut r = "Release: ".to_owned();
        append_title(&mut r, self);
        r.append(" (");
        r.append(i64_to_decimal(self.release_id).as_str());
        r.append(")\nTag: ");
        append_or(&mut r, &self.tag_name, "no tag");
        r.append("\nRepo: ");
        r.append(self.repo.as_str());
        r.append("\nDraft: ");
        append_bool(&mut r, self.draft);
        r.append(" | Pre-release: ");
        append_bool(&mut r, self.prerelease);
        r.append("\nCreated: ");
        append_or(&mut r, &self.created_at, "N/A");
        r.append("\nPublished: ");
        append_or(&mut r, &self.published_at, "N/A");
        r.append("\nUpdated: ");
        append_or(&mut r, &self.updated_at, "N/A");
        r.append("\nURL: ");
        append_or(&mut r, &self.html_url, "N/A");
        r.append("\n\n");
        append_or(&mut r, &self.body, "");
        r
    }
}

impl Repo {
    /// The one-line form of the repository, as a listing shows it.
    pub fn display_text(&self) -> (r: String)
        ensures
            r@ == repo_line(self@),
    {
        let mut r = self.repo.clone();
        r.append(" [");
        if self.enabled {
            r.append("enabled");
        } else {
            r.append("disabled");
        }
        r.append("] | Last sync: ");
        append_or(&mut r, &self.last_success_at, "never");
        r.append(" | Failures: ");
        r.append(i64_to_decimal(self.fail_count as i64).as_str());
        match &self.last_error {
            Some(e) => {
                r.append(" | Error: ");
                r.append(e.as_str());
            },
            None => {
                proof {
                    reveal_strlit("");
                    assert(r@ =~= r@ + ""@);
                }
            },
        }
        r
    }
}


// ------------------------------------------------------------------
// Queries
// ------------------------------------------------------------------

/// How many releases a listing or a search shows when no limit is given.
pub const DEFAULT_LIMIT: usize = 50;

/// A listing of releases: of one repository (by key) or of all, at most
/// `limit` of them, with or without the ones marked deleted, and, where
/// `since` is given, only those published at or after that time.
#[derive(Debug)]
pub struct ReleaseQuery {
    pub repo: Option<String>,
    pub limit: usize,
    pub include_deleted: bool,
    pub since: Option<String>,
}

/// The conditions that a listing puts on the releases, in order. The
/// statement's parameters are numbered alike whatever is asked: `?1` the
/// repository, `?2` the earliest publication time, `?3` the limit.
pub open spec fn listing_conditions(has_repo: bool, include_deleted: bool, has_since: bool) -> Seq<Seq<char>> {
    let a: Seq<Seq<char>> = if has_repo { seq!["repo = ?1"@] } else { Seq::empty() };
    let b = if include_deleted { a } else { a.push("is_deleted = 0"@) };
    if has_since { b.push("published_at >= ?2"@) } else { b }
}

/// A `WHERE` clause that joins the conditions with `AND`; none for no
/// condition.
pub open spec fn where_clause(conds: Seq<Seq<char>>) -> Seq<char>
    decreases conds.len(),
{
    if conds.len() == 0 {
        Seq::empty()
    } else if conds.len() == 1 {
        " WHERE "@ + conds[0]
    } else {
        where_clause(conds.drop_last()) + " AND "@ + conds.last()
    }
}

/// The part of a listing's statement after `FROM releases`: its conditions,
/// newest first, and the limit.
pub open spec fn listing_sql(has_repo: bool, include_deleted: bool, has_since: bool) -> Seq<char> {
    where_clause(listing_conditions(has_repo, include_deleted, has_since))
        + " ORDER BY published_at DESC LIMIT ?3"@
}

/// Law: a listing without the deleted releases asks exactly what the listing
/// with them asks, and one condition more: that the release is not marked
/// deleted.
pub proof fn law_listing_hides_only_deleted(has_repo: bool, has_since: bool)
    ensures
        ({
            let without = listing_conditions(has_repo, false, has_since);
            let with = listing_conditions(has_repo, true, has_since);
            &&& without.contains("is_deleted = 0"@)
            &&& !with.contains("is_deleted = 0"@)
            &&& without.len() == with.len() + 1
            &&& forall|c: Seq<char>| with.contains(c) ==> without.contains(c)
        }),
{
    reveal_strlit("is_deleted = 0");
    reveal_strlit("repo = ?1");
    reveal_strlit("published_at >= ?2");
    let without = listing_conditions(has_repo, false, has_since);
    let with = listing_conditions(has_repo, true, has_since);
    assert("repo = ?1"@.len() != "is_deleted = 0"@.len());
    assert("published_at >= ?2"@.len() != "is_deleted = 0"@.len());
    let k: int = if has_repo { 1 } else { 0 };
    assert(without[k] == "is_deleted = 0"@);
    assert forall|c: Seq<char>| with.contains(c) implies without.contains(c) by {
        let i = choose|i: int| 0 <= i < with.len() && with[i] == c;
        if has_repo && i == 0 {
            assert(without[0] == c);
        } else {
            assert(without[i + 1] == c);
        }
    }
}

fn add_condition(sql: &mut String, conds: Ghost<Seq<Seq<char>>>, cond: &str)
    requires
        old(sql)@ == where_clause(conds@),
    ensures
        final(sql)@ == where_clause(conds@.push(cond@)),
{
    let first = sql.unicode_len() == 0;
    proof {
        if conds@.len() > 0 {
            lemma_where_clause_nonempty(conds@);
        }
    }
    if first {
        sql.append(" WHERE ");
    } else {
        sql.append(" AND ");
    }
    sql.append(cond);
    proof {
        let c2 = conds@.push(cond@);
        assert(c2.drop_last() =~= conds@);
        if conds@.len() == 0 {
            assert(where_clause(conds@) =~= Seq::<char>::empty());
        }
    }
}

proof fn lemma_where_clause_nonempty(conds: Seq<Seq<char>>)
    requires
        conds.len() > 0,
    ensures
        where_clause(conds).len() > 0,
    decreases conds.len(),
{
    reveal_strlit(" WHERE ");
    reveal_strlit(" AND ");
    if conds.len() > 1 {
        lemma_where_clause_nonempty(conds.drop_last());
    }
}

impl ReleaseQuery {
    /// The listing asked for: the repository reduced to its key, the default
    /// limit when none is given, and the earliest publication time, if any.
    pub fn new(repo: Option<&str>, limit: Option<usize>, include_deleted: bool, since: Option<String>) -> (r: ReleaseQuery)
        ensures
            opt_view(r.repo) == match repo {
                Some(name) => Some(repo_key(name@)),
                None => None,
            },
            r.limit == match limit {
                Some(n) => n,
                None => DEFAULT_LIMIT,
            },
            r.include_deleted == include_deleted,
            opt_view(r.since) == opt_view(since),
    {
        ReleaseQuery {
            repo: match repo {
                Some(name) => Some(normalize_repo(name)),
                None => None,
            },
            limit: match limit {
                Some(n) => n,
                None => DEFAULT_LIMIT,
            },
            include_deleted,
            since,
        }
    }

    /// The statement's text after `FROM releases`.
    pub fn filter_sql(&self) -> (r: String)
        ensures
            r@ == listing_sql(self.repo is Some, self.include_deleted, self.since is Some),
    {
        let ghost mut conds: Seq<Seq<char>> = Seq::empty();
        let mut sql = String::new();
        proof {
            assert(sql@ =~= where_clause(conds));
        }
        if self.repo.is_some() {
            add_condition(&mut sql, Ghost(conds), "repo = ?1");
            proof { conds = conds.push("repo = ?1"@); }
        }
        if !self.include_deleted {
            add_condition(&mut sql, Ghost(conds), "is_deleted = 0");
            proof { conds = conds.push("is_deleted = 0"@); }
        }
        if self.since.is_some() {
            add_condition(&mut sql, Ghost(conds), "published_at >= ?2");
            proof { conds = conds.push("published_at >= ?2"@); }
        }
        proof {
            let want = listing_conditions(self.repo is Some, self.include_deleted, self.since is Some);
            assert(conds =~= want);
        }
        sql.append(" ORDER BY published_at DESC LIMIT ?3");
        sql
    }
}

/// A keyword search over the names and bodies of releases.
#[derive(Debug)]
pub struct SearchQuery {
    /// The `LIKE` pattern: the keyword anywhere in the text.
    pub pattern: String,
    pub limit: usize,
}

impl SearchQuery {
    /// The search asked for, with the default limit when none is given.
    pub fn new(keyword: &str, limit: Option<usize>) -> (r: SearchQuery)
        ensures
            r.pattern@ == "%"@ + keyword@ + "%"@,
            r.limit == match limit {
                Some(n) => n,
                None => DEFAULT_LIMIT,
            },
    {
        let mut pattern = "%".to_owned();
        pattern.append(keyword);
        pattern.append("%");
        SearchQuery {
            pattern,
            limit: match limit {
                Some(n) => n,
                None => DEFAULT_LIMIT,
            },
        }
    }
}

} // verus!
