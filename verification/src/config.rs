//! The collector's settings: their defaults, how one setting is changed by
//! name, where its files live, and how the settings are shown.
use vstd::prelude::*;
use vstd::string::*;

use crate::error::{Error, ErrorView};
use crate::text::{contains_seq, copy_opt, decimal, is_path_separator, join_path, join_path_exec, main_separator, opt_view, parse_decimal, parse_unsigned, str_equal, u64_to_decimal};

verus! {

/// The settings of the collector.
#[derive(Debug, Clone)]
pub struct Config {
    /// How many repositories are synchronised at once.
    pub concurrency: usize,
    /// Seconds between incremental synchronisations.
    pub incremental_interval: u64,
    /// Seconds between full synchronisations.
    pub full_interval: u64,
    /// The GitHub token, if any.
    pub github_token: Option<String>,
    /// Seconds before a request is given up.
    pub timeout: u64,
    /// Releases asked for per page.
    pub per_page: usize,
    /// The most retries of a request.
    pub max_retries: usize,
    /// Where the daemon keeps its process id.
    pub pid_path: Option<String>,
}

pub struct ConfigView {
    pub concurrency: usize,
    pub incremental_interval: u64,
    pub full_interval: u64,
    pub github_token: Option<Seq<char>>,
    pub timeout: u64,
    pub per_page: usize,
    pub max_retries: usize,
    pub pid_path: Option<Seq<char>>,
}

impl View for Config {
    type V = ConfigView;

    open spec fn view(&self) -> ConfigView {
        ConfigView {
            concurrency: self.concurrency,
            incremental_interval: self.incremental_interval,
            full_interval: self.full_interval,
            github_token: opt_view(self.github_token),
            timeout: self.timeout,
            per_page: self.per_page,
            max_retries: self.max_retries,
            pid_path: opt_view(self.pid_path),
        }
    }
}

/// Default number of repositories synchronised at once.
pub fn default_concurrency() -> (r: usize)
    ensures
        r == 5,
{
    5
}

/// Default seconds between incremental synchronisations: one hour.
pub fn default_incremental_interval() -> (r: u64)
    ensures
        r == 3600,
{
    3600
}

/// Default seconds between full synchronisations: one day.
pub fn default_full_interval() -> (r: u64)
    ensures
        r == 86400,
{
    86400
}

/// Default request timeout in seconds.
pub fn default_timeout() -> (r: u64)
    ensures
        r == 30,
{
    30
}

/// Default number of releases per page.
pub fn default_per_page() -> (r: usize)
    ensures
        r == 100,
{
    100
}

/// Default number of retries.
pub fn default_max_retries() -> (r: usize)
    ensures
        r == 3,
{
    3
}

/// The view of the outcome of changing a setting.
pub open spec fn config_result_view(r: Result<Config, Error>) -> Result<ConfigView, ErrorView> {
    match r {
        Ok(c) => Ok(c@),
        Err(e) => Err(e@),
    }
}

/// The settings after setting `key` to the text `value`. Numeric settings
/// take the value as `str::parse` reads it for their type; the token is taken
/// as it is; other keys are refused. Every other setting is left as it was.
pub open spec fn config_after_set(c: ConfigView, key: Seq<char>, value: Seq<char>) -> Result<
    ConfigView,
    ErrorView,
> {
    if key == "concurrency"@ {
        match parse_unsigned(value, usize::MAX as nat) {
            Some(n) => Ok(ConfigView { concurrency: n as usize, ..c }),
            None => Err(ErrorView::Config("Invalid concurrency value"@)),
        }
    } else if key == "incremental_interval"@ {
        match parse_unsigned(value, u64::MAX as nat) {
            Some(n) => Ok(ConfigView { incremental_interval: n as u64, ..c }),
            None => Err(ErrorView::Config("Invalid incremental_interval value"@)),
        }
    } else if key == "full_interval"@ {
        match parse_unsigned(value, u64::MAX as nat) {
            Some(n) => Ok(ConfigView { full_interval: n as u64, ..c }),
            None => Err(ErrorView::Config("Invalid full_interval value"@)),
        }
    } else if key == "github_token"@ {
        Ok(ConfigView { github_token: Some(value), ..c })
    } else if key == "timeout"@ {
        match parse_unsigned(value, u64::MAX as nat) {
            Some(n) => Ok(ConfigView { timeout: n as u64, ..c }),
            None => Err(ErrorView::Config("Invalid timeout value"@)),
        }
    } else if key == "per_page"@ {
        match parse_unsigned(value, usize::MAX as nat) {
            Some(n) => Ok(ConfigView { per_page: n as usize, ..c }),
            None => Err(ErrorView::Config("Invalid per_page value"@)),
        }
    } else if key == "max_retries"@ {
        match parse_unsigned(value, usize::MAX as nat) {
            Some(n) => Ok(ConfigView { max_retries: n as usize, ..c }),
            None => Err(ErrorView::Config("Invalid max_retries value"@)),
        }
    } else {
        Err(ErrorView::Config("Unknown config key: "@ + key))
    }
}

fn parse_usize_setting(value: &str) -> (r: Option<usize>)
    ensures
        match r {
            Some(n) => parse_unsigned(value@, usize::MAX as nat) == Some(n as nat),
            None => parse_unsigned(value@, usize::MAX as nat) is None,
        },
{
    match parse_decimal(value, usize::MAX as u64) {
        Some(v) => Some(v as usize),
        None => None,
    }
}

/// Settings as they are loaded from what the settings file held: with the
/// process id path `pid_path`, and with the environment's token where the
/// file names none.
pub open spec fn loaded_view(saved: ConfigView, pid_path: Seq<char>, env_token: Option<Seq<char>>) -> ConfigView {
    ConfigView {
        pid_path: Some(pid_path),
        github_token: match saved.github_token {
            Some(t) => Some(t),
            None => env_token,
        },
        ..saved
    }
}

/// Law: loading gives back every saved setting but the process id path, and
/// a saved token over the environment's.
pub proof fn law_load_keeps_saved_settings(saved: ConfigView, pid_path: Seq<char>, env_token: Option<Seq<char>>)
    ensures
        ({
            let c = loaded_view(saved, pid_path, env_token);
            &&& c.concurrency == saved.concurrency
            &&& c.incremental_interval == saved.incremental_interval
            &&& c.full_interval == saved.full_interval
            &&& c.timeout == saved.timeout
            &&& c.per_page == saved.per_page
            &&& c.max_retries == saved.max_retries
            &&& saved.github_token is Some ==> c.github_token == saved.github_token
            &&& c.pid_path == Some(pid_path)
        }),
{
}

impl Config {
    /// A copy of the settings.
    pub fn copy(&self) -> (r: Config)
        ensures
            r@ == self@,
    {
        Config {
            concurrency: self.concurrency,
            incremental_interval: self.incremental_interval,
            full_interval: self.full_interval,
            github_token: copy_opt(&self.github_token),
            timeout: self.timeout,
            per_page: self.per_page,
            max_retries: self.max_retries,
            pid_path: copy_opt(&self.pid_path),
        }
    }

    /// The settings with every default, the given token and process id path.
    pub fn with_defaults(github_token: Option<String>, pid_path: Option<String>) -> (r: Config)
        ensures
            r@ == (ConfigView {
                concurrency: 5,
                incremental_interval: 3600,
                full_interval: 86400,
                github_token: opt_view(github_token),
                timeout: 30,
                per_page: 100,
                max_retries: 3,
                pid_path: opt_view(pid_path),
            }),
    {
        Config {
            concurrency: default_concurrency(),
            incremental_interval: default_incremental_interval(),
            full_interval: default_full_interval(),
            github_token,
            timeout: default_timeout(),
            per_page: default_per_page(),
            max_retries: default_max_retries(),
            pid_path,
        }
    }

    /// Settings read from the settings file, completed with the process id
    /// path and, when the file names no token, the token from the environment.
    pub fn complete_loaded(self, pid_path: String, env_token: Option<String>) -> (r: Config)
        ensures
            r@ == loaded_view(self@, pid_path@, opt_view(env_token)),
    {
        let mut c = self;
        c.pid_path = Some(pid_path);
        if c.github_token.is_none() {
            c.github_token = env_token;
        }
        c
    }

    /// The settings with `key` set to `value`; they are not saved here.
    pub fn set(&self, key: &str, value: &str) -> (r: Result<Config, Error>)
        ensures
            config_result_view(r) == config_after_set(self@, key@, value@),
    {
        let mut c = self.copy();
        if str_equal(key, "concurrency") {
            match parse_usize_setting(value) {
                Some(n) => c.concurrency = n,
                None => return Err(Error::Config("Invalid concurrency value".to_owned())),
            }
        } else if str_equal(key, "incremental_interval") {
            match parse_decimal(value, u64::MAX) {
                Some(n) => c.incremental_interval = n,
                None => return Err(Error::Config("Invalid incremental_interval value".to_owned())),
            }
        } else if str_equal(key, "full_interval") {
            match parse_decimal(value, u64::MAX) {
                Some(n) => c.full_interval = n,
                None => return Err(Error::Config("Invalid full_interval value".to_owned())),
            }
        } else if str_equal(key, "github_token") {
            c.github_token = Some(value.to_owned());
        } else if str_equal(key, "timeout") {
            match parse_decimal(value, u64::MAX) {
                Some(n) => c.timeout = n,
                None => return Err(Error::Config("Invalid timeout value".to_owned())),
            }
        } else if str_equal(key, "per_page") {
            match parse_usize_setting(value) {
                Some(n) => c.per_page = n,
                None => return Err(Error::Config("Invalid per_page value".to_owned())),
            }
        } else if str_equal(key, "max_retries") {
            match parse_usize_setting(value) {
                Some(n) => c.max_retries = n,
                None => return Err(Error::Config("Invalid max_retries value".to_owned())),
            }
        } else {
            let mut m = "Unknown config key: ".to_owned();
            m.append(key);
            return Err(Error::Config(m));
        }
        Ok(c)
    }

    /// The token, if one is set.
    pub fn github_token(&self) -> (r: Option<&str>)
        ensures
            match r {
                Some(t) => self@.github_token == Some(t@),
                None => self@.github_token is None,
            },
    {
        match &self.github_token {
            Some(t) => Some(t.as_str()),
            None => None,
        }
    }
}


proof fn lemma_setting_keys_distinct()
    ensures
        "concurrency"@ != "incremental_interval"@,
        "concurrency"@ != "full_interval"@,
        "concurrency"@ != "github_token"@,
        "concurrency"@ != "timeout"@,
        "concurrency"@ != "per_page"@,
        "concurrency"@ != "max_retries"@,
        "incremental_interval"@ != "full_interval"@,
        "incremental_interval"@ != "github_token"@,
        "incremental_interval"@ != "timeout"@,
        "incremental_interval"@ != "per_page"@,
        "incremental_interval"@ != "max_retries"@,
        "full_interval"@ != "github_token"@,
        "full_interval"@ != "timeout"@,
        "full_interval"@ != "per_page"@,
        "full_interval"@ != "max_retries"@,
        "github_token"@ != "timeout"@,
        "github_token"@ != "per_page"@,
        "github_token"@ != "max_retries"@,
        "timeout"@ != "per_page"@,
        "timeout"@ != "max_retries"@,
        "per_page"@ != "max_retries"@,
{
    reveal_strlit("concurrency");
    reveal_strlit("incremental_interval");
    reveal_strlit("full_interval");
    reveal_strlit("github_token");
    reveal_strlit("timeout");
    reveal_strlit("per_page");
    reveal_strlit("max_retries");
    assert("concurrency"@.len() == 11);
    assert("incremental_interval"@.len() == 20);
    assert("full_interval"@.len() == 13);
    assert("github_token"@.len() == 12);
    assert("timeout"@.len() == 7);
    assert("per_page"@.len() == 8);
    assert("max_retries"@.len() == 11);
    assert("concurrency"@[0] != "max_retries"@[0]);
}

/// Law: a numeric setting written as the decimal numeral of a value reads
/// back as exactly that value, and nothing else changes.
pub proof fn law_interval_setting_reads_back(c: ConfigView, n: u64)
    ensures
        config_after_set(c, "timeout"@, decimal(n as nat)) == Ok::<ConfigView, ErrorView>(ConfigView { timeout: n, ..c }),
        config_after_set(c, "incremental_interval"@, decimal(n as nat)) == Ok::<ConfigView, ErrorView>(
            ConfigView { incremental_interval: n, ..c },
        ),
        config_after_set(c, "full_interval"@, decimal(n as nat)) == Ok::<ConfigView, ErrorView>(
            ConfigView { full_interval: n, ..c },
        ),
{
    lemma_setting_keys_distinct();
    crate::text::law_decimal_round_trip(n as nat, u64::MAX as nat);
}

/// Law: a count setting written as the decimal numeral of a value reads back
/// as exactly that value, and nothing else changes.
pub proof fn law_count_setting_reads_back(c: ConfigView, n: usize)
    ensures
        config_after_set(c, "concurrency"@, decimal(n as nat)) == Ok::<ConfigView, ErrorView>(
            ConfigView { concurrency: n, ..c },
        ),
        config_after_set(c, "per_page"@, decimal(n as nat)) == Ok::<ConfigView, ErrorView>(ConfigView { per_page: n, ..c }),
        config_after_set(c, "max_retries"@, decimal(n as nat)) == Ok::<ConfigView, ErrorView>(
            ConfigView { max_retries: n, ..c },
        ),
{
    lemma_setting_keys_distinct();
    crate::text::law_decimal_round_trip(n as nat, usize::MAX as nat);
}

/// Law: the token setting takes any text as it is.
pub proof fn law_token_setting_reads_back(c: ConfigView, token: Seq<char>)
    ensures
        config_after_set(c, "github_token"@, token) == Ok::<ConfigView, ErrorView>(ConfigView { github_token: Some(token), ..c }),
{
    lemma_setting_keys_distinct();
}

// ------------------------------------------------------------------
// Where the files live
// ------------------------------------------------------------------

/// A name that the directory lookup keeps as it is on every platform: ASCII
/// lower-case letters, digits and `-`, none of which it lowercases, trims or
/// replaces.
pub open spec fn is_plain_name(s: Seq<char>) -> bool {
    forall|i: int|
        0 <= i < s.len() ==> ('a' <= #[trigger] s[i] && s[i] <= 'z') || ('0' <= s[i] && s[i] <= '9')
            || s[i] == '-'
}

/// The collector's application name, under which its directories are found.
pub open spec fn collector_name() -> Seq<char> {
    "github-release-collector"@
}

/// A path in which the collector's application name occurs.
pub open spec fn names_collector(path: Seq<char>) -> bool {
    contains_seq(path, collector_name())
}

/// The data directory of the application `application` of `organization`
/// (`qualifier` being its domain), rendered as text (lossily where the path
/// is not Unicode); none where no home directory is found.
///
/// Wraps `directories::ProjectDirs::from` and then `ProjectDirs::data_dir`.
/// On every platform the crate joins a base directory with a project path
/// that holds the application name (lower-cased and without white space on
/// Linux, with spaces replaced on macOS, as given on Windows), so a plain
/// name occurs in the result as it was given. The base directory depends on
/// the environment and is not stated.
#[verifier::external_body]
fn project_data_dir(qualifier: &str, organization: &str, application: &str) -> (r: Option<String>)
    requires
        is_plain_name(application@),
    ensures
        r matches Some(d) ==> contains_seq(d@, application@),
{
    match directories::ProjectDirs::from(qualifier, organization, application) {
        Some(dirs) => Some(dirs.data_dir().to_string_lossy().into_owned()),
        None => None,
    }
}

/// The config directory of the application, found as the data directory is.
///
/// Wraps `directories::ProjectDirs::from` and then `ProjectDirs::config_dir`,
/// which joins a base directory with the same project path; so a plain
/// application name occurs in the result as it was given. The base directory
/// is not stated.
#[verifier::external_body]
fn project_config_dir(qualifier: &str, organization: &str, application: &str) -> (r: Option<String>)
    requires
        is_plain_name(application@),
    ensures
        r matches Some(d) ==> contains_seq(d@, application@),
{
    match directories::ProjectDirs::from(qualifier, organization, application) {
        Some(dirs) => Some(dirs.config_dir().to_string_lossy().into_owned()),
        None => None,
    }
}

proof fn lemma_collector_name_is_plain()
    ensures
        is_plain_name(collector_name()),
{
    reveal_strlit("github-release-collector");
}

/// The data directory for what the directory lookup found: the found one,
/// else `~/.local/share/grc`.
pub open spec fn data_dir_for(found: Option<Seq<char>>) -> Seq<char> {
    match found {
        Some(d) => d,
        None => "~/.local/share/grc"@,
    }
}

/// The config directory for what the directory lookup found: the found one,
/// else `~/.config/grc`.
pub open spec fn config_dir_for(found: Option<Seq<char>>) -> Seq<char> {
    match found {
        Some(d) => d,
        None => "~/.config/grc"@,
    }
}

/// A directory that the data directory can be: the fallback, or one that the
/// lookup found, which names the collector.
pub open spec fn is_data_dir(d: Seq<char>) -> bool {
    d == data_dir_for(None) || names_collector(d)
}

/// A directory that the config directory can be: the fallback, or one that
/// the lookup found, which names the collector.
pub open spec fn is_config_dir(d: Seq<char>) -> bool {
    d == config_dir_for(None) || names_collector(d)
}

/// `path` is the file `name` in a directory that the data directory can be.
pub open spec fn in_data_dir(path: Seq<char>, name: Seq<char>) -> bool {
    exists|d: Seq<char>| is_data_dir(d) && path_in_dir(path, d, name)
}

/// `path` is the file `name` in a directory that the config directory can be.
pub open spec fn in_config_dir(path: Seq<char>, name: Seq<char>) -> bool {
    exists|d: Seq<char>| is_config_dir(d) && path_in_dir(path, d, name)
}

/// `path` is the file `name` in the directory `dir`, joined with this
/// platform's separator.
pub open spec fn path_in_dir(path: Seq<char>, dir: Seq<char>, name: Seq<char>) -> bool {
    exists|sep: char| is_path_separator(sep) && path == join_path(dir, name, sep)
}

impl Config {
    /// The data directory, given the one that the lookup of the collector's
    /// directories found, if it found any: else `~/.local/share/grc`.
    pub fn data_dir_from(found: Option<String>) -> (r: String)
        ensures
            r@ == data_dir_for(opt_view(found)),
    {
        match found {
            Some(d) => d,
            None => "~/.local/share/grc".to_owned(),
        }
    }

    /// The config directory, given the one that the lookup of the collector's
    /// directories found, if it found any: else `~/.config/grc`.
    pub fn config_dir_from(found: Option<String>) -> (r: String)
        ensures
            r@ == config_dir_for(opt_view(found)),
    {
        match found {
            Some(d) => d,
            None => "~/.config/grc".to_owned(),
        }
    }

    /// The collector's data directory, looked up for the application
    /// `github-release-collector` of `grc` (qualifier `com`), or
    /// `~/.local/share/grc` when there is no home directory to find it from.
    /// Where the found directory lies depends on the environment: only that
    /// it names the collector is stated.
    pub fn data_dir() -> (r: String)
        ensures
            is_data_dir(r@),
    {
        proof {
            lemma_collector_name_is_plain();
        }
        let found = project_data_dir("com", "grc", "github-release-collector");
        Self::data_dir_from(found)
    }

    /// The collector's config directory, looked up as the data directory is,
    /// or `~/.config/grc`.
    fn config_dir() -> (r: String)
        ensures
            is_config_dir(r@),
    {
        proof {
            lemma_collector_name_is_plain();
        }
        let found = project_config_dir("com", "grc", "github-release-collector");
        Self::config_dir_from(found)
    }

    /// The database path within the data directory `data_dir`.
    pub fn database_path_in(data_dir: &str) -> (r: String)
        ensures
            path_in_dir(r@, data_dir@, "releases.db"@),
    {
        join_path_exec(data_dir, "releases.db", main_separator())
    }

    /// The settings file within the config directory `config_dir`.
    pub fn config_path_in(config_dir: &str) -> (r: String)
        ensures
            path_in_dir(r@, config_dir@, "config.toml"@),
    {
        join_path_exec(config_dir, "config.toml", main_separator())
    }

    /// The process id file within the data directory `data_dir`.
    pub fn pid_path_in(data_dir: &str) -> (r: String)
        ensures
            path_in_dir(r@, data_dir@, "daemon.pid"@),
    {
        join_path_exec(data_dir, "daemon.pid", main_separator())
    }

    /// The path of the database: `releases.db` in the data directory.
    pub fn database_path(&self) -> (r: String)
        ensures
            in_data_dir(r@, "releases.db"@),
    {
        let dir = Self::data_dir();
        Self::database_path_in(dir.as_str())
    }

    /// The path of the settings file: `config.toml` in the config directory.
    /// It is always found.
    pub fn config_path() -> (r: Result<String, Error>)
        ensures
            r matches Ok(p) && in_config_dir(p@, "config.toml"@),
    {
        let dir = Self::config_dir();
        Ok(Self::config_path_in(dir.as_str()))
    }

    /// The default path of the daemon's process id file: `daemon.pid` in the
    /// data directory. It is always found.
    pub fn pid_path() -> (r: Result<String, Error>)
        ensures
            r matches Ok(p) && in_data_dir(p@, "daemon.pid"@),
    {
        let dir = Self::data_dir();
        Ok(Self::pid_path_in(dir.as_str()))
    }

    /// The daemon's process id file: the configured one, else the default.
    pub fn daemon_pid_path(&self) -> (r: String)
        ensures
            match self@.pid_path {
                Some(p) => r@ == p,
                None => in_data_dir(r@, "daemon.pid"@),
            },
    {
        match &self.pid_path {
            Some(p) => p.clone(),
            None => {
                let dir = Self::data_dir();
                Self::pid_path_in(dir.as_str())
            },
        }
    }
}


// ------------------------------------------------------------------
// How the settings are shown
// ------------------------------------------------------------------

/// Whether a token is set, as the settings summary says it.
pub open spec fn token_state(c: ConfigView) -> Seq<char> {
    if c.github_token is Some {
        "configured (from env/config)"@
    } else {
        "NOT SET"@
    }
}

/// The settings summary, given the paths of the database, the settings file
/// and the process id file.
pub open spec fn config_summary(
    c: ConfigView,
    database: Seq<char>,
    config_file: Seq<char>,
    pid_file: Seq<char>,
) -> Seq<char> {
    "Configuration:\n  Concurrency: "@ + decimal(c.concurrency as nat) + "\n  Incremental Interval: "@
        + decimal(c.incremental_interval as nat) + " seconds\n  Full Interval: "@ + decimal(
        c.full_interval as nat,
    ) + " seconds\n  Timeout: "@ + decimal(c.timeout as nat) + " seconds\n  Per Page: "@
        + decimal(c.per_page as nat) + "\n  Max Retries: "@ + decimal(c.max_retries as nat)
        + "\n  Database: "@ + database + "\n  Config File: "@ + config_file + "\n  PID File: "@
        + pid_file + "\n  GitHub Token: "@ + token_state(c) + "\n"@
}

/// Law: the settings summary tells only whether a token is set, never the
/// token: settings that differ only in which token they hold render alike,
/// and the summary says `NOT SET` exactly when no token is set.
pub proof fn law_summary_hides_token(
    c: ConfigView,
    a: Seq<char>,
    b: Seq<char>,
    database: Seq<char>,
    config_file: Seq<char>,
    pid_file: Seq<char>,
)
    ensures
        config_summary(ConfigView { github_token: Some(a), ..c }, database, config_file, pid_file)
            == config_summary(ConfigView { github_token: Some(b), ..c }, database, config_file, pid_file),
        (token_state(c) == "NOT SET"@) <==> c.github_token is None,
{
    reveal_strlit("NOT SET");
    reveal_strlit("configured (from env/config)");
    assert("configured (from env/config)"@.len() != "NOT SET"@.len());
}

impl Config {
    /// The settings summary with the given paths.
    pub fn render_summary(&self, database: &str, config_file: &str, pid_file: &str) -> (r: String)
        ensures
            r@ == config_summary(self@, database@, config_file@, pid_file@),
    {
        let mut r = "Configuration:\n  Concurrency: ".to_owned();
        r.append(u64_to_decimal(self.concurrency as u64).as_str());
        r.append("\n  Incremental Interval: ");
        r.append(u64_to_decimal(self.incremental_interval).as_str());
        r.append(" seconds\n  Full Interval: ");
        r.append(u64_to_decimal(self.full_interval).as_str());
        r.append(" seconds\n  Timeout: ");
        r.append(u64_to_decimal(self.timeout).as_str());
        r.append(" seconds\n  Per Page: ");
        r.append(u64_to_decimal(self.per_page as u64).as_str());
        r.append("\n  Max Retries: ");
        r.append(u64_to_decimal(self.max_retries as u64).as_str());
        r.append("\n  Database: ");
        r.append(database);
        r.append("\n  Config File: ");
        r.append(config_file);
        r.append("\n  PID File: ");
        r.append(pid_file);
        r.append("\n  GitHub Token: ");
        if self.github_token.is_some() {
            r.append("configured (from env/config)");
        } else {
            r.append("NOT SET");
        }
        r.append("\n");
        r
    }

    /// The settings summary, as the settings are shown to the user: with the
    /// database path, the settings file and the default process id file.
    pub fn display_text(&self) -> (r: String)
        ensures
            exists|database: Seq<char>, config_file: Seq<char>, pid_file: Seq<char>|
                {
                    &&& in_data_dir(database, "releases.db"@)
                    &&& in_config_dir(config_file, "config.toml"@)
                    &&& in_data_dir(pid_file, "daemon.pid"@)
                    &&& r@ == config_summary(self@, database, config_file, pid_file)
                },
    {
        let database = self.database_path();
        let config_file = match Self::config_path() {
            Ok(p) => p,
            Err(_) => String::new(),
        };
        let pid_file = match Self::pid_path() {
            Ok(p) => p,
            Err(_) => String::new(),
        };
        let r = self.render_summary(database.as_str(), config_file.as_str(), pid_file.as_str());
        assert(in_data_dir(database@, "releases.db"@) && in_config_dir(config_file@, "config.toml"@)
            && in_data_dir(pid_file@, "daemon.pid"@) && r@ == config_summary(
            self@,
            database@,
            config_file@,
            pid_file@,
        ));
        r
    }
}

} // verus!
