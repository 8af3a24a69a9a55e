//! The commands of the command line, and the choices a command makes before
//! it reads or writes anything.
use vstd::prelude::*;

use crate::db::Release;
use crate::error::{Error, ErrorView};

verus! {

/// The command line: a command, and whether the process runs as the daemon.
#[derive(Debug)]
pub struct Cli {
    pub daemon_mode: bool,
    pub command: CliCommand,
}

/// A command of the command line.
#[derive(Debug)]
#[allow(inconsistent_fields)]
pub enum CliCommand {
    /// Initialize database
    Init,
    /// Add repository
    RepoAdd { repo: String },
    /// Remove repository
    RepoRemove { repo: String, keep_data: bool },
    /// Enable repository
    RepoEnable { repo: String },
    /// Disable repository
    RepoDisable { repo: String },
    /// List all repositories
    RepoList,
    /// Run synchronization
    SyncRun { full: bool },
    /// Start daemon
    DaemonStart,
    /// Stop daemon
    DaemonStop,
    /// Show daemon status
    DaemonStatus,
    /// Reload configuration
    DaemonReload,
    /// Show configuration
    ConfigShow,
    /// Set configuration
    ConfigSet { key: String, value: String },
    /// List releases
    QueryList { repo: Option<String>, limit: usize, days: Option<u32>, include_deleted: bool },
    /// Show single release
    QueryShow { id: Option<i64>, tag: Option<String>, full: bool },
    /// Keyword search
    QuerySearch { keyword: String, limit: usize },
    /// Show status
    Status,
}

/// Which release a `query-show` command looks up.
#[derive(Debug)]
pub enum ShowTarget {
    ById(i64),
    ByTag(String),
}

/// Picks the release to show: by id when one is given, else by tag; with
/// neither, the command is refused.
pub fn show_target(id: Option<i64>, tag: Option<String>) -> (r: Result<ShowTarget, Error>)
    ensures
        match id {
            Some(n) => r matches Ok(ShowTarget::ById(m)) && m == n,
            None => match tag {
                Some(t) => r matches Ok(ShowTarget::ByTag(u)) && u@ == t@,
                None => r matches Err(e) && e@ == ErrorView::NotFound(
                    "Either --id or --tag required"@,
                ),
            },
        },
{
    match id {
        Some(n) => Ok(ShowTarget::ById(n)),
        None => match tag {
            Some(t) => Ok(ShowTarget::ByTag(t)),
            None => Err(Error::NotFound("Either --id or --tag required".to_owned())),
        },
    }
}

/// The release that was looked up, or the error that it was not found.
pub fn found_release(release: Option<Release>) -> (r: Result<Release, Error>)
    ensures
        match release {
            Some(x) => r matches Ok(y) && y@ == x@,
            None => r matches Err(e) && e@ == ErrorView::NotFound("Release not found"@),
        },
{
    match release {
        Some(x) => Ok(x),
        None => Err(Error::NotFound("Release not found".to_owned())),
    }
}

} // verus!
