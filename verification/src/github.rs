//! The GitHub releases API as the collector uses it: the releases it returns,
//! the URLs and headers it is asked with, how its answers are judged, and how
//! the pages of a full listing are walked.
use vstd::prelude::*;
use vstd::string::*;

use crate::error::{Error, ErrorView};
use crate::text::{copy_opt, decimal, opt_view, u64_to_decimal};

verus! {

/// A release as the GitHub API describes it.
#[derive(Debug)]
pub struct GithubRelease {
    pub id: i64,
    pub tag_name: Option<String>,
    pub name: Option<String>,
    pub draft: bool,
    pub prerelease: bool,
    pub created_at: Option<String>,
    pub published_at: Option<String>,
    pub updated_at: Option<String>,
    pub html_url: Option<String>,
    pub body: Option<String>,
}

pub struct GithubReleaseView {
    pub id: i64,
    pub tag_name: Option<Seq<char>>,
    pub name: Option<Seq<char>>,
    pub draft: bool,
    pub prerelease: bool,
    pub created_at: Option<Seq<char>>,
    pub published_at: Option<Seq<char>>,
    pub updated_at: Option<Seq<char>>,
    pub html_url: Option<Seq<char>>,
    pub body: Option<Seq<char>>,
}

impl View for GithubRelease {
    type V = GithubReleaseView;

    open spec fn view(&self) -> GithubReleaseView {
        GithubReleaseView {
            id: self.id,
            tag_name: opt_view(self.tag_name),
            name: opt_view(self.name),
            draft: self.draft,
            prerelease: self.prerelease,
            created_at: opt_view(self.created_at),
            published_at: opt_view(self.published_at),
            updated_at: opt_view(self.updated_at),
            html_url: opt_view(self.html_url),
            body: opt_view(self.body),
        }
    }
}

/// The views of a list of releases.
pub open spec fn github_views(s: Seq<GithubRelease>) -> Seq<GithubReleaseView> {
    s.map_values(|g: GithubRelease| g@)
}

/// The first page of a repository's releases, or the news that it has not
/// changed since the ETag that was sent.
#[derive(Debug)]
pub struct ReleasePage {
    pub releases: Vec<GithubRelease>,
    pub etag: Option<String>,
    pub not_modified: bool,
}

pub struct ReleasePageView {
    pub releases: Seq<GithubReleaseView>,
    pub etag: Option<Seq<char>>,
    pub not_modified: bool,
}

impl View for ReleasePage {
    type V = ReleasePageView;

    open spec fn view(&self) -> ReleasePageView {
        ReleasePageView {
            releases: github_views(self.releases@),
            etag: opt_view(self.etag),
            not_modified: self.not_modified,
        }
    }
}


impl ReleasePage {
    /// The answer to a conditional request that GitHub found unchanged: no
    /// releases, and the ETag that was sent.
    pub fn not_modified(etag: &Option<String>) -> (r: ReleasePage)
        ensures
            r@ == (ReleasePageView { releases: Seq::empty(), etag: opt_view(*etag), not_modified: true }),
    {
        let r = ReleasePage { releases: Vec::new(), etag: copy_opt(etag), not_modified: true };
        assert(github_views(r.releases@) =~= Seq::<GithubReleaseView>::empty());
        r
    }
}

// ------------------------------------------------------------------
// Requests
// ------------------------------------------------------------------

/// The URL of page `page` of a repository's releases, `per_page` at a time.
pub open spec fn releases_url_text(repo: Seq<char>, per_page: nat, page: nat) -> Seq<char> {
    "https://api.github.com/repos/"@ + repo + "/releases?per_page="@ + decimal(per_page)
        + "&page="@ + decimal(page)
}

/// Builds the URL of one page of a repository's releases.
pub fn releases_url(repo: &str, per_page: usize, page: u64) -> (r: String)
    ensures
        r@ == releases_url_text(repo@, per_page as nat, page as nat),
{
    let mut r = "https://api.github.com/repos/".to_owned();
    r.append(repo);
    r.append("/releases?per_page=");
    r.append(u64_to_decimal(per_page as u64).as_str());
    r.append("&page=");
    r.append(u64_to_decimal(page).as_str());
    r
}

/// The value of the `Authorization` header for a token.
pub fn bearer_authorization(token: &str) -> (r: String)
    ensures
        r@ == "Bearer "@ + token@,
{
    let mut r = "Bearer ".to_owned();
    r.append(token);
    r
}

// ------------------------------------------------------------------
// Answers
// ------------------------------------------------------------------

/// How an answer of the API is taken.
#[derive(Debug, Clone, Copy, PartialEq, Eq, Structural)]
pub enum ResponseVerdict {
    /// 304: nothing changed since the ETag that was sent.
    NotModified,
    /// 403: the rate limit is exhausted.
    RateLimited,
    /// Any other status outside 200..=299.
    Failed,
    /// A success: the body holds the releases.
    Accepted,
}

/// How an answer with HTTP status `status` is taken; a 304 counts as "not
/// modified" only for a conditional request.
pub open spec fn response_verdict(status: u16, conditional: bool) -> ResponseVerdict {
    if conditional && status == 304 {
        ResponseVerdict::NotModified
    } else if status == 403 {
        ResponseVerdict::RateLimited
    } else if !(200 <= status && status <= 299) {
        ResponseVerdict::Failed
    } else {
        ResponseVerdict::Accepted
    }
}

/// Judges an answer of the API by its status.
pub fn judge_response(status: u16, conditional: bool) -> (r: ResponseVerdict)
    ensures
        r == response_verdict(status, conditional),
{
    if conditional && status == 304 {
        ResponseVerdict::NotModified
    } else if status == 403 {
        ResponseVerdict::RateLimited
    } else if !(200 <= status && status <= 299) {
        ResponseVerdict::Failed
    } else {
        ResponseVerdict::Accepted
    }
}

/// The error for an exhausted rate limit, naming the remaining allowance that
/// the answer reported (`unknown` when it reported none).
pub fn rate_limited_error(remaining: &Option<String>) -> (r: Error)
    ensures
        r@ == ErrorView::GithubApi(
            "Rate limited. Remaining: "@ + match remaining {
                Some(n) => n@,
                None => "unknown"@,
            },
        ),
{
    let mut m = "Rate limited. Remaining: ".to_owned();
    match remaining {
        Some(n) => m.append(n.as_str()),
        None => m.append("unknown"),
    }
    Error::GithubApi(m)
}

/// The error for a failed answer: its status line and its body.
pub fn http_status_error(status_line: &str, body: &str) -> (r: Error)
    ensures
        r@ == ErrorView::GithubApi("HTTP "@ + status_line@ + ": "@ + body@),
{
    let mut m = "HTTP ".to_owned();
    m.append(status_line);
    m.append(": ");
    m.append(body);
    Error::GithubApi(m)
}

// ------------------------------------------------------------------
// Walking every page
// ------------------------------------------------------------------

/// The most pages that a full listing asks for.
pub const MAX_PAGES: u64 = 100;

/// The walk through the pages of a full listing: pages are asked for in
/// order from the first, until one comes back empty or the page limit is
/// reached.
pub struct ReleasePager {
    per_page: usize,
    page: u64,
    releases: Vec<GithubRelease>,
    finished: bool,
}

pub struct ReleasePagerView {
    pub per_page: nat,
    pub page: nat,
    pub releases: Seq<GithubReleaseView>,
    pub finished: bool,
}

impl View for ReleasePager {
    type V = ReleasePagerView;

    closed spec fn view(&self) -> ReleasePagerView {
        ReleasePagerView {
            per_page: self.per_page as nat,
            page: self.page as nat,
            releases: github_views(self.releases@),
            finished: self.finished,
        }
    }
}

/// What holds of a walk at every point: the next page to ask for is between
/// the first and the one past the limit, and an unfinished walk has a page
/// within the limit left to ask for.
pub open spec fn pager_wf(p: ReleasePagerView) -> bool {
    &&& 1 <= p.page <= MAX_PAGES + 1
    &&& !p.finished ==> p.page <= MAX_PAGES
}

/// The walk after page `p.page` came back with `batch`.
pub open spec fn pager_next(p: ReleasePagerView, batch: Seq<GithubReleaseView>) -> ReleasePagerView {
    if batch.len() == 0 {
        ReleasePagerView { finished: true, ..p }
    } else {
        ReleasePagerView {
            page: p.page + 1,
            releases: p.releases + batch,
            finished: p.page + 1 > MAX_PAGES,
            ..p
        }
    }
}

impl ReleasePager {
    /// A walk that asks for `per_page` releases at a time, from page 1.
    pub fn new(per_page: usize) -> (r: ReleasePager)
        ensures
            r@ == (ReleasePagerView {
                per_page: per_page as nat,
                page: 1,
                releases: Seq::empty(),
                finished: false,
            }),
            pager_wf(r@),
    {
        let r = ReleasePager { per_page, page: 1, releases: Vec::new(), finished: false };
        assert(github_views(r.releases@) =~= Seq::<GithubReleaseView>::empty());
        r
    }

    /// Whether the walk is over.
    pub fn is_finished(&self) -> (r: bool)
        ensures
            r == self@.finished,
    {
        self.finished
    }

    /// The page to ask for next.
    pub fn page(&self) -> (r: u64)
        ensures
            r == self@.page,
    {
        self.page
    }

    /// The URL of the next page of `repo` to ask for, unless the walk is over.
    pub fn next_url(&self, repo: &str) -> (r: Option<String>)
        ensures
            match r {
                Some(u) => !self@.finished && u@ == releases_url_text(repo@, self@.per_page, self@.page),
                None => self@.finished,
            },
    {
        if self.finished {
            None
        } else {
            Some(releases_url(repo, self.per_page, self.page))
        }
    }

    /// Takes the releases of the page that was asked for.
    pub fn receive(&mut self, batch: Vec<GithubRelease>)
        requires
            pager_wf(old(self)@),
            !old(self)@.finished,
        ensures
            final(self)@ == pager_next(old(self)@, github_views(batch@)),
            pager_wf(final(self)@),
    {
        if batch.len() == 0 {
            self.finished = true;
        } else {
            let ghost before = self.releases@;
            let mut batch = batch;
            let ghost added = batch@;
            self.releases.append(&mut batch);
            assert(github_views(self.releases@) =~= github_views(before) + github_views(added));
            self.page = self.page + 1;
            self.finished = self.page > MAX_PAGES;
        }
    }

    /// Every release gathered, in the order of the pages.
    pub fn into_releases(self) -> (r: Vec<GithubRelease>)
        ensures
            github_views(r@) == self@.releases,
    {
        self.releases
    }
}

/// Law: a walk never asks for more than the page limit: every page it asks
/// for lies between the first and the last allowed, and each answer moves it
/// to the following page or ends it.
pub proof fn law_pager_stays_within_limit(p: ReleasePagerView, batch: Seq<GithubReleaseView>)
    requires
        pager_wf(p),
        !p.finished,
    ensures
        1 <= p.page <= MAX_PAGES,
        pager_wf(pager_next(p, batch)),
        !pager_next(p, batch).finished ==> pager_next(p, batch).page == p.page + 1,
        batch.len() == 0 ==> pager_next(p, batch).finished,
        pager_next(p, batch).releases == p.releases + batch,
{
    if batch.len() == 0 {
        assert(p.releases + batch =~= p.releases);
    }
}

} // verus!
