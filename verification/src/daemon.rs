//! The daemon's decisions: reading its process id file, starting and
//! stopping it, and knowing when each kind of synchronisation is due.
use vstd::prelude::*;
use vstd::string::*;

use crate::error::{Error, ErrorView};
use crate::text::{decimal, parse_decimal, parse_unsigned, trim, trim_white, u64_to_decimal};

verus! {

/// How often the daemon wakes up to see whether a synchronisation is due,
/// in seconds.
pub const POLL_SECONDS: u64 = 60;

/// How many times, a second apart, stopping the daemon checks whether it has
/// exited.
pub const STOP_WAIT_ATTEMPTS: u32 = 10;

/// The process id held in a process id file: its text without surrounding
/// white space, read as an unsigned 32-bit number.
pub open spec fn pid_in(content: Seq<char>) -> Option<nat> {
    parse_unsigned(trim_white(content), u32::MAX as nat)
}

/// Reads the process id from the text of a process id file.
pub fn parse_pid(content: &str) -> (r: Option<u32>)
    ensures
        match r {
            Some(pid) => pid_in(content@) == Some(pid as nat),
            None => pid_in(content@) is None,
        },
{
    let t = trim(content);
    match parse_decimal(t.as_str(), u32::MAX as u64) {
        Some(v) => Some(v as u32),
        None => None,
    }
}

/// Reads the process id from the text of a process id file, failing with
/// `Invalid PID file` where it holds none.
pub fn read_pid(content: &str) -> (r: Result<u32, Error>)
    ensures
        match r {
            Ok(pid) => pid_in(content@) == Some(pid as nat),
            Err(e) => pid_in(content@) is None && e@ == ErrorView::Daemon("Invalid PID file"@),
        },
{
    match parse_pid(content) {
        Some(pid) => Ok(pid),
        None => Err(Error::Daemon("Invalid PID file".to_owned())),
    }
}

/// `prefix` followed by `detail`, as one string.
fn joined(prefix: &str, detail: &str) -> (r: String)
    ensures
        r@ == prefix@ + detail@,
{
    let mut r = prefix.to_owned();
    r.append(detail);
    r
}

// ------------------------------------------------------------------
// Signals
// ------------------------------------------------------------------

/// What running `kill` to send a signal came to.
#[derive(Debug)]
pub enum KillOutcome {
    /// The signal was delivered.
    Sent,
    /// `kill` ran and failed, with this error output.
    Failed(String),
    /// `kill` could not be run, for this reason.
    NotRun(String),
}

pub enum KillOutcomeView {
    Sent,
    Failed(Seq<char>),
    NotRun(Seq<char>),
}

impl View for KillOutcome {
    type V = KillOutcomeView;

    open spec fn view(&self) -> KillOutcomeView {
        match self {
            KillOutcome::Sent => KillOutcomeView::Sent,
            KillOutcome::Failed(m) => KillOutcomeView::Failed(m@),
            KillOutcome::NotRun(m) => KillOutcomeView::NotRun(m@),
        }
    }
}

/// The error that an undelivered signal makes: `failed` and the error output
/// where `kill` failed, `Failed to execute kill: ` and the reason where it
/// did not run; none where the signal was delivered.
pub open spec fn kill_failure(o: KillOutcomeView, failed: Seq<char>) -> Option<ErrorView> {
    match o {
        KillOutcomeView::Sent => None,
        KillOutcomeView::Failed(m) => Some(ErrorView::Daemon(failed + m)),
        KillOutcomeView::NotRun(m) => Some(ErrorView::Daemon("Failed to execute kill: "@ + m)),
    }
}

fn kill_error(o: KillOutcome, failed: &str) -> (r: Option<Error>)
    ensures
        match r {
            Some(e) => kill_failure(o@, failed@) == Some(e@),
            None => kill_failure(o@, failed@) is None,
        },
{
    match o {
        KillOutcome::Sent => None,
        KillOutcome::Failed(m) => Some(Error::Daemon(joined(failed, m.as_str()))),
        KillOutcome::NotRun(m) => Some(Error::Daemon(joined("Failed to execute kill: ", m.as_str()))),
    }
}

/// The outcome of asking the daemon to reload, from what sending it the
/// hang-up signal came to.
pub fn reload_result(o: KillOutcome) -> (r: Result<(), Error>)
    ensures
        match r {
            Ok(_) => kill_failure(o@, "Failed to reload daemon: "@) is None,
            Err(e) => kill_failure(o@, "Failed to reload daemon: "@) == Some(e@),
        },
{
    match kill_error(o, "Failed to reload daemon: ") {
        Some(e) => Err(e),
        None => Ok(()),
    }
}

/// The line that the daemon's status shows for the process in its process id
/// file, running or not.
pub open spec fn status_line(pid: u32, running: bool) -> Seq<char> {
    if running {
        "Daemon is running (PID: "@ + decimal(pid as nat) + ")"@
    } else {
        "Daemon is not running (stale PID file)"@
    }
}

/// The status line for the process `pid`; a process id file whose process
/// is not running is stale, and is to be removed.
pub fn status_report(pid: u32, running: bool) -> (r: (String, bool))
    ensures
        r.0@ == status_line(pid, running),
        r.1 == !running,
{
    if running {
        let mut line = "Daemon is running (PID: ".to_owned();
        line.append(u64_to_decimal(pid as u64).as_str());
        line.append(")");
        (line, false)
    } else {
        ("Daemon is not running (stale PID file)".to_owned(), true)
    }
}

// ------------------------------------------------------------------
// Stopping the daemon
// ------------------------------------------------------------------

/// Where stopping the daemon stands.
#[derive(Debug, Clone, Copy, PartialEq, Eq, Structural)]
pub enum StopState {
    /// The process id file is to be read.
    ReadingPidFile,
    /// The terminate signal is being sent to `pid`.
    Signalling { pid: u32 },
    /// Whether `pid` still runs is being checked, after `attempts` waits.
    Probing { pid: u32, attempts: u32 },
    /// A second is being waited, after `attempts` earlier waits.
    Waiting { pid: u32, attempts: u32 },
    /// The process id file is being removed.
    RemovingPidFile,
    /// Stopping is over.
    Done,
}

/// What the program reports back to the stopping of the daemon.
#[derive(Debug)]
pub enum StopEvent {
    /// There is no process id file.
    PidFileMissing,
    /// The process id file holds this text.
    PidFileRead(String),
    /// What sending the terminate signal came to.
    Signalled(KillOutcome),
    /// Whether the process still runs.
    Probed(bool),
    /// A second has passed.
    Waited,
    /// The process id file was removed, or could not be.
    PidFileRemoved,
}

pub enum StopEventView {
    PidFileMissing,
    PidFileRead(Seq<char>),
    Signalled(KillOutcomeView),
    Probed(bool),
    Waited,
    PidFileRemoved,
}

impl View for StopEvent {
    type V = StopEventView;

    open spec fn view(&self) -> StopEventView {
        match self {
            StopEvent::PidFileMissing => StopEventView::PidFileMissing,
            StopEvent::PidFileRead(c) => StopEventView::PidFileRead(c@),
            StopEvent::Signalled(o) => StopEventView::Signalled(o@),
            StopEvent::Probed(b) => StopEventView::Probed(*b),
            StopEvent::Waited => StopEventView::Waited,
            StopEvent::PidFileRemoved => StopEventView::PidFileRemoved,
        }
    }
}

/// What the program is to do next to stop the daemon.
#[derive(Debug)]
pub enum StopAction {
    /// Send the terminate signal to this process.
    Signal(u32),
    /// Check whether this process still runs.
    Probe(u32),
    /// Wait a second.
    Wait,
    /// Remove the process id file, whatever comes of it.
    RemovePidFile,
    /// Stopping is over, with this outcome.
    Finish(Result<(), Error>),
}

pub enum StopActionView {
    Signal(u32),
    Probe(u32),
    Wait,
    RemovePidFile,
    Finish(Result<(), ErrorView>),
}

impl View for StopAction {
    type V = StopActionView;

    open spec fn view(&self) -> StopActionView {
        match self {
            StopAction::Signal(p) => StopActionView::Signal(*p),
            StopAction::Probe(p) => StopActionView::Probe(*p),
            StopAction::Wait => StopActionView::Wait,
            StopAction::RemovePidFile => StopActionView::RemovePidFile,
            StopAction::Finish(Ok(())) => StopActionView::Finish(Ok(())),
            StopAction::Finish(Err(e)) => StopActionView::Finish(Err(e@)),
        }
    }
}

/// The events that each state of stopping the daemon waits for.
pub open spec fn stop_accepts(s: StopState, e: StopEventView) -> bool {
    match s {
        StopState::ReadingPidFile => e is PidFileMissing || e is PidFileRead,
        StopState::Signalling { .. } => e is Signalled,
        StopState::Probing { .. } => e is Probed,
        StopState::Waiting { .. } => e is Waited,
        StopState::RemovingPidFile => e is PidFileRemoved,
        StopState::Done => false,
    }
}

/// The next state and action of stopping the daemon. Without a process id
/// file, or with one that holds no process id, it fails; else it signals the
/// process, fails if the signal is not delivered, and then checks up to
/// `STOP_WAIT_ATTEMPTS` times, a second apart, whether the process is gone,
/// before it removes the file and succeeds. An event that the state does not
/// wait for leaves it as it is.
pub open spec fn stop_next(s: StopState, e: StopEventView) -> (StopState, StopActionView) {
    let unchanged = (s, StopActionView::Wait);
    match s {
        StopState::ReadingPidFile => match e {
            StopEventView::PidFileMissing => (
                StopState::Done,
                StopActionView::Finish(Err(ErrorView::Daemon("PID file not found. Is daemon running?"@))),
            ),
            StopEventView::PidFileRead(c) => match pid_in(c) {
                Some(p) => (StopState::Signalling { pid: p as u32 }, StopActionView::Signal(p as u32)),
                None => (StopState::Done, StopActionView::Finish(Err(ErrorView::Daemon("Invalid PID file"@)))),
            },
            _ => unchanged,
        },
        StopState::Signalling { pid } => match e {
            StopEventView::Signalled(o) => match kill_failure(o, "Failed to stop daemon: "@) {
                None => (StopState::Probing { pid, attempts: 0 }, StopActionView::Probe(pid)),
                Some(err) => (StopState::Done, StopActionView::Finish(Err(err))),
            },
            _ => unchanged,
        },
        StopState::Probing { pid, attempts } => match e {
            StopEventView::Probed(running) => if running {
                (StopState::Waiting { pid, attempts }, StopActionView::Wait)
            } else {
                (StopState::RemovingPidFile, StopActionView::RemovePidFile)
            },
            _ => unchanged,
        },
        StopState::Waiting { pid, attempts } => match e {
            StopEventView::Waited => if attempts + 1 < STOP_WAIT_ATTEMPTS {
                (StopState::Probing { pid, attempts: (attempts + 1) as u32 }, StopActionView::Probe(pid))
            } else {
                (StopState::RemovingPidFile, StopActionView::RemovePidFile)
            },
            _ => unchanged,
        },
        StopState::RemovingPidFile => match e {
            StopEventView::PidFileRemoved => (StopState::Done, StopActionView::Finish(Ok(()))),
            _ => unchanged,
        },
        StopState::Done => unchanged,
    }
}

/// The stopping of the daemon, one step at a time: the program performs each
/// action and reports what came of it.
pub struct StopTask {
    state: StopState,
}

impl View for StopTask {
    type V = StopState;

    closed spec fn view(&self) -> StopState {
        self.state
    }
}

impl StopTask {
    /// Stopping that begins by reading the process id file.
    pub fn new() -> (r: StopTask)
        ensures
            r@ == StopState::ReadingPidFile,
    {
        StopTask { state: StopState::ReadingPidFile }
    }

    /// Whether the current state waits for `e`.
    pub fn accepts(&self, e: &StopEvent) -> (r: bool)
        ensures
            r == stop_accepts(self@, e@),
    {
        match self.state {
            StopState::ReadingPidFile => matches!(e, StopEvent::PidFileMissing | StopEvent::PidFileRead(_)),
            StopState::Signalling { .. } => matches!(e, StopEvent::Signalled(_)),
            StopState::Probing { .. } => matches!(e, StopEvent::Probed(_)),
            StopState::Waiting { .. } => matches!(e, StopEvent::Waited),
            StopState::RemovingPidFile => matches!(e, StopEvent::PidFileRemoved),
            StopState::Done => false,
        }
    }

    /// Whether stopping is over.
    pub fn is_done(&self) -> (r: bool)
        ensures
            r == (self@ == StopState::Done),
    {
        self.state == StopState::Done
    }

    /// Takes in what came of the last action and gives the next one.
    pub fn step(&mut self, event: StopEvent) -> (a: StopAction)
        requires
            stop_accepts(old(self)@, event@),
        ensures
            (final(self)@, a@) == stop_next(old(self)@, event@),
    {
        match self.state {
            StopState::ReadingPidFile => match event {
                StopEvent::PidFileMissing => {
                    self.state = StopState::Done;
                    StopAction::Finish(Err(Error::Daemon("PID file not found. Is daemon running?".to_owned())))
                },
                StopEvent::PidFileRead(c) => match parse_pid(c.as_str()) {
                    Some(pid) => {
                        self.state = StopState::Signalling { pid };
                        StopAction::Signal(pid)
                    },
                    None => {
                        self.state = StopState::Done;
                        StopAction::Finish(Err(Error::Daemon("Invalid PID file".to_owned())))
                    },
                },
                _ => StopAction::Wait,
            },
            StopState::Signalling { pid } => match event {
                StopEvent::Signalled(o) => match kill_error(o, "Failed to stop daemon: ") {
                    None => {
                        self.state = StopState::Probing { pid, attempts: 0 };
                        StopAction::Probe(pid)
                    },
                    Some(err) => {
                        self.state = StopState::Done;
                        StopAction::Finish(Err(err))
                    },
                },
                _ => StopAction::Wait,
            },
            StopState::Probing { pid, attempts } => match event {
                StopEvent::Probed(running) => if running {
                    self.state = StopState::Waiting { pid, attempts };
                    StopAction::Wait
                } else {
                    self.state = StopState::RemovingPidFile;
                    StopAction::RemovePidFile
                },
                _ => StopAction::Wait,
            },
            StopState::Waiting { pid, attempts } => match event {
                StopEvent::Waited => if attempts < STOP_WAIT_ATTEMPTS - 1 {
                    self.state = StopState::Probing { pid, attempts: attempts + 1 };
                    StopAction::Probe(pid)
                } else {
                    self.state = StopState::RemovingPidFile;
                    StopAction::RemovePidFile
                },
                _ => StopAction::Wait,
            },
            StopState::RemovingPidFile => {
                self.state = StopState::Done;
                StopAction::Finish(Ok(()))
            },
            StopState::Done => StopAction::Wait,
        }
    }
}

/// The actions that stopping takes from state `s` on the events `events`.
pub open spec fn stop_trace(s: StopState, events: Seq<StopEventView>) -> Seq<StopActionView>
    decreases events.len(),
{
    if events.len() == 0 {
        Seq::empty()
    } else {
        let (next, a) = stop_next(s, events[0]);
        seq![a] + stop_trace(next, events.skip(1))
    }
}

/// Every event of `events` is one that stopping waits for when it comes.
pub open spec fn stop_run_accepted(s: StopState, events: Seq<StopEventView>) -> bool
    decreases events.len(),
{
    events.len() == 0 || (stop_accepts(s, events[0]) && stop_run_accepted(
        stop_next(s, events[0]).0,
        events.skip(1),
    ))
}

/// How many of the actions check whether the process still runs.
pub open spec fn count_probes(actions: Seq<StopActionView>) -> nat
    decreases actions.len(),
{
    if actions.len() == 0 {
        0
    } else {
        (if actions[0] is Probe { 1nat } else { 0nat }) + count_probes(actions.skip(1))
    }
}

/// How many more checks state `s` may still ask for.
spec fn probes_left(s: StopState) -> int {
    match s {
        StopState::Probing { attempts, .. } => STOP_WAIT_ATTEMPTS - attempts - 1,
        StopState::Waiting { attempts, .. } => STOP_WAIT_ATTEMPTS - attempts - 1,
        StopState::RemovingPidFile => 0,
        StopState::Done => 0,
        _ => STOP_WAIT_ATTEMPTS as int,
    }
}

spec fn stop_state_ok(s: StopState) -> bool {
    match s {
        StopState::Probing { attempts, .. } => attempts < STOP_WAIT_ATTEMPTS,
        StopState::Waiting { attempts, .. } => attempts < STOP_WAIT_ATTEMPTS,
        _ => true,
    }
}

proof fn lemma_probes_within_budget(s: StopState, events: Seq<StopEventView>)
    requires
        stop_state_ok(s),
        stop_run_accepted(s, events),
    ensures
        count_probes(stop_trace(s, events)) <= probes_left(s),
    decreases events.len(),
{
    if events.len() > 0 {
        let (next, a) = stop_next(s, events[0]);
        lemma_probes_within_budget(next, events.skip(1));
        let t = stop_trace(s, events);
        assert(t[0] == a);
        assert(t.skip(1) =~= stop_trace(next, events.skip(1)));
    }
}

/// Law: once the terminate signal is sent, stopping checks at most
/// `STOP_WAIT_ATTEMPTS` times whether the daemon is gone.
pub proof fn law_stop_probes_bounded(events: Seq<StopEventView>)
    requires
        stop_run_accepted(StopState::ReadingPidFile, events),
    ensures
        count_probes(stop_trace(StopState::ReadingPidFile, events)) <= STOP_WAIT_ATTEMPTS,
{
    lemma_probes_within_budget(StopState::ReadingPidFile, events);
}

// ------------------------------------------------------------------
// Starting the daemon
// ------------------------------------------------------------------

/// Where starting the daemon stands.
#[derive(Debug, Clone, Copy, PartialEq, Eq, Structural)]
pub enum StartState {
    /// Whether there is a process id file, and what it holds, is to be found.
    CheckingPidFile,
    /// Whether the process `pid` named by the file runs is being checked.
    Probing { pid: u32 },
    /// A stale process id file is being removed.
    RemovingStale,
    /// The daemon process is being spawned.
    Spawning,
    /// Starting is over.
    Done,
}

/// What the program reports back to the starting of the daemon.
#[derive(Debug)]
pub enum StartEvent {
    /// There is no process id file.
    PidFileMissing,
    /// There is a process id file, but it could not be read.
    PidFileUnreadable,
    /// The process id file holds this text.
    PidFileRead(String),
    /// Whether the process named by the file runs.
    Probed(bool),
    /// The stale process id file was removed, or could not be.
    PidFileRemoved,
    /// The daemon process was spawned with this process id, or could not be
    /// spawned, for this reason.
    Spawned(Result<u32, String>),
}

pub enum StartEventView {
    PidFileMissing,
    PidFileUnreadable,
    PidFileRead(Seq<char>),
    Probed(bool),
    PidFileRemoved,
    Spawned(Result<u32, Seq<char>>),
}

impl View for StartEvent {
    type V = StartEventView;

    open spec fn view(&self) -> StartEventView {
        match self {
            StartEvent::PidFileMissing => StartEventView::PidFileMissing,
            StartEvent::PidFileUnreadable => StartEventView::PidFileUnreadable,
            StartEvent::PidFileRead(c) => StartEventView::PidFileRead(c@),
            StartEvent::Probed(b) => StartEventView::Probed(*b),
            StartEvent::PidFileRemoved => StartEventView::PidFileRemoved,
            StartEvent::Spawned(Ok(p)) => StartEventView::Spawned(Ok(*p)),
            StartEvent::Spawned(Err(m)) => StartEventView::Spawned(Err(m@)),
        }
    }
}

/// What the program is to do next to start the daemon.
#[derive(Debug)]
pub enum StartAction {
    /// Check whether this process runs.
    Probe(u32),
    /// Remove the stale process id file, whatever comes of it.
    RemovePidFile,
    /// Spawn the daemon process.
    Spawn,
    /// Write this process id of the spawned daemon into the process id file;
    /// starting is then over.
    WritePidFile(u32),
    /// Starting is over, with this failure.
    Fail(Error),
}

pub enum StartActionView {
    Probe(u32),
    RemovePidFile,
    Spawn,
    WritePidFile(u32),
    Fail(ErrorView),
}

impl View for StartAction {
    type V = StartActionView;

    open spec fn view(&self) -> StartActionView {
        match self {
            StartAction::Probe(p) => StartActionView::Probe(*p),
            StartAction::RemovePidFile => StartActionView::RemovePidFile,
            StartAction::Spawn => StartActionView::Spawn,
            StartAction::WritePidFile(p) => StartActionView::WritePidFile(*p),
            StartAction::Fail(e) => StartActionView::Fail(e@),
        }
    }
}

/// The refusal to start a daemon that already runs as `pid`.
pub open spec fn already_running(pid: u32) -> ErrorView {
    ErrorView::Daemon("Daemon is already running with PID "@ + decimal(pid as nat))
}

/// The events that each state of starting the daemon waits for.
pub open spec fn start_accepts(s: StartState, e: StartEventView) -> bool {
    match s {
        StartState::CheckingPidFile => e is PidFileMissing || e is PidFileUnreadable || e is PidFileRead,
        StartState::Probing { .. } => e is Probed,
        StartState::RemovingStale => e is PidFileRemoved,
        StartState::Spawning => e is Spawned,
        StartState::Done => false,
    }
}

/// The next state and action of starting the daemon. A process id file that
/// names a nonzero process id has that process checked: if it runs, starting
/// is refused. Any other process id file is stale and removed. Then the
/// daemon is spawned and its process id written. An event that the state
/// does not wait for leaves it as it is.
pub open spec fn start_next(s: StartState, e: StartEventView) -> (StartState, StartActionView) {
    let unchanged = (s, StartActionView::Spawn);
    let remove = (StartState::RemovingStale, StartActionView::RemovePidFile);
    match s {
        StartState::CheckingPidFile => match e {
            StartEventView::PidFileMissing => (StartState::Spawning, StartActionView::Spawn),
            StartEventView::PidFileUnreadable => remove,
            StartEventView::PidFileRead(c) => match pid_in(c) {
                Some(p) => if p > 0 {
                    (StartState::Probing { pid: p as u32 }, StartActionView::Probe(p as u32))
                } else {
                    remove
                },
                None => remove,
            },
            _ => unchanged,
        },
        StartState::Probing { pid } => match e {
            StartEventView::Probed(running) => if running {
                (StartState::Done, StartActionView::Fail(already_running(pid)))
            } else {
                remove
            },
            _ => unchanged,
        },
        StartState::RemovingStale => match e {
            StartEventView::PidFileRemoved => (StartState::Spawning, StartActionView::Spawn),
            _ => unchanged,
        },
        StartState::Spawning => match e {
            StartEventView::Spawned(Ok(child)) => (StartState::Done, StartActionView::WritePidFile(child)),
            StartEventView::Spawned(Err(m)) => (
                StartState::Done,
                StartActionView::Fail(ErrorView::Daemon("Failed to start daemon: "@ + m)),
            ),
            _ => unchanged,
        },
        StartState::Done => unchanged,
    }
}

/// The starting of the daemon, one step at a time: the program performs each
/// action and reports what came of it.
pub struct StartTask {
    state: StartState,
}

impl View for StartTask {
    type V = StartState;

    closed spec fn view(&self) -> StartState {
        self.state
    }
}

impl StartTask {
    /// Starting that begins by looking for the process id file.
    pub fn new() -> (r: StartTask)
        ensures
            r@ == StartState::CheckingPidFile,
    {
        StartTask { state: StartState::CheckingPidFile }
    }

    /// Whether the current state waits for `e`.
    pub fn accepts(&self, e: &StartEvent) -> (r: bool)
        ensures
            r == start_accepts(self@, e@),
    {
        match self.state {
            StartState::CheckingPidFile => matches!(
                e,
                StartEvent::PidFileMissing | StartEvent::PidFileUnreadable | StartEvent::PidFileRead(_)
            ),
            StartState::Probing { .. } => matches!(e, StartEvent::Probed(_)),
            StartState::RemovingStale => matches!(e, StartEvent::PidFileRemoved),
            StartState::Spawning => matches!(e, StartEvent::Spawned(_)),
            StartState::Done => false,
        }
    }

    /// Whether starting is over.
    pub fn is_done(&self) -> (r: bool)
        ensures
            r == (self@ == StartState::Done),
    {
        self.state == StartState::Done
    }

    /// Takes in what came of the last action and gives the next one.
    pub fn step(&mut self, event: StartEvent) -> (a: StartAction)
        requires
            start_accepts(old(self)@, event@),
        ensures
            (final(self)@, a@) == start_next(old(self)@, event@),
    {
        match self.state {
            StartState::CheckingPidFile => match event {
                StartEvent::PidFileMissing => {
                    self.state = StartState::Spawning;
                    StartAction::Spawn
                },
                StartEvent::PidFileRead(c) => match parse_pid(c.as_str()) {
                    Some(pid) => if pid > 0 {
                        self.state = StartState::Probing { pid };
                        StartAction::Probe(pid)
                    } else {
                        self.state = StartState::RemovingStale;
                        StartAction::RemovePidFile
                    },
                    None => {
                        self.state = StartState::RemovingStale;
                        StartAction::RemovePidFile
                    },
                },
                _ => {
                    self.state = StartState::RemovingStale;
                    StartAction::RemovePidFile
                },
            },
            StartState::Probing { pid } => match event {
                StartEvent::Probed(running) => if running {
                    self.state = StartState::Done;
                    let mut m = "Daemon is already running with PID ".to_owned();
                    m.append(u64_to_decimal(pid as u64).as_str());
                    StartAction::Fail(Error::Daemon(m))
                } else {
                    self.state = StartState::RemovingStale;
                    StartAction::RemovePidFile
                },
                _ => StartAction::Spawn,
            },
            StartState::RemovingStale => {
                self.state = StartState::Spawning;
                StartAction::Spawn
            },
            StartState::Spawning => match event {
                StartEvent::Spawned(Ok(child)) => {
                    self.state = StartState::Done;
                    StartAction::WritePidFile(child)
                },
                StartEvent::Spawned(Err(m)) => {
                    self.state = StartState::Done;
                    StartAction::Fail(Error::Daemon(joined("Failed to start daemon: ", m.as_str())))
                },
                _ => StartAction::Spawn,
            },
            StartState::Done => StartAction::Spawn,
        }
    }
}

/// Law: a process id file that names a running process stops the start:
/// the process is checked, and the start is refused, naming it, with no
/// spawn.
pub proof fn law_running_daemon_not_started_twice(content: Seq<char>, pid: u32)
    requires
        pid_in(content) == Some(pid as nat),
        pid > 0,
    ensures
        ({
            let (s1, a1) = start_next(StartState::CheckingPidFile, StartEventView::PidFileRead(content));
            &&& a1 == StartActionView::Probe(pid)
            &&& start_next(s1, StartEventView::Probed(true)) == (
                StartState::Done,
                StartActionView::Fail(already_running(pid)),
            )
        }),
{
}

/// Law: whatever the process id file holds, a daemon that is found not to
/// run, or is not checked, is spawned once the stale file is gone.
pub proof fn law_stale_pid_file_is_replaced(content: Seq<char>)
    ensures
        ({
            let (s1, a1) = start_next(StartState::CheckingPidFile, StartEventView::PidFileRead(content));
            let s2 = if a1 is Probe {
                start_next(s1, StartEventView::Probed(false)).0
            } else {
                s1
            };
            &&& s2 == StartState::RemovingStale
            &&& start_next(s2, StartEventView::PidFileRemoved) == (StartState::Spawning, StartActionView::Spawn)
        }),
{
}

/// When the daemon last ran each kind of synchronisation, and how far apart
/// they are to be. Times are seconds on a clock that does not go back.
pub struct SyncSchedule {
    incremental_interval: u64,
    full_interval: u64,
    last_incremental: u64,
    last_full: u64,
}

pub struct SyncScheduleView {
    pub incremental_interval: u64,
    pub full_interval: u64,
    pub last_incremental: u64,
    pub last_full: u64,
}

impl View for SyncSchedule {
    type V = SyncScheduleView;

    closed spec fn view(&self) -> SyncScheduleView {
        SyncScheduleView {
            incremental_interval: self.incremental_interval,
            full_interval: self.full_interval,
            last_incremental: self.last_incremental,
            last_full: self.last_full,
        }
    }
}

/// The kinds of synchronisation that are due.
#[derive(Debug, Clone, Copy, PartialEq, Eq, Structural)]
pub struct DueSyncs {
    pub incremental: bool,
    pub full: bool,
}

/// Seconds from `since` to `now`; none if `now` is earlier.
pub open spec fn elapsed(now: u64, since: u64) -> nat {
    if now >= since {
        (now - since) as nat
    } else {
        0
    }
}

/// Which synchronisations are due at `now`, and the schedule after running
/// them: each kind is due once its interval has passed since it last ran.
pub open spec fn schedule_at(s: SyncScheduleView, now: u64) -> (SyncScheduleView, DueSyncs) {
    let incremental = elapsed(now, s.last_incremental) >= s.incremental_interval;
    let full = elapsed(now, s.last_full) >= s.full_interval;
    (
        SyncScheduleView {
            last_incremental: if incremental {
                now
            } else {
                s.last_incremental
            },
            last_full: if full {
                now
            } else {
                s.last_full
            },
            ..s
        },
        DueSyncs { incremental, full },
    )
}

impl SyncSchedule {
    /// A schedule that starts at `start`, as if both kinds had just run.
    pub fn new(incremental_interval: u64, full_interval: u64, start: u64) -> (r: SyncSchedule)
        ensures
            r@ == (SyncScheduleView {
                incremental_interval,
                full_interval,
                last_incremental: start,
                last_full: start,
            }),
    {
        SyncSchedule { incremental_interval, full_interval, last_incremental: start, last_full: start }
    }

    /// Takes the intervals of reread settings; when each kind of
    /// synchronisation last ran is kept, so the daemon goes on where it was.
    pub fn reload(&mut self, incremental_interval: u64, full_interval: u64)
        ensures
            final(self)@ == (SyncScheduleView { incremental_interval, full_interval, ..old(self)@ }),
    {
        self.incremental_interval = incremental_interval;
        self.full_interval = full_interval;
    }

    /// The synchronisations due at `now`, which are taken to run now.
    pub fn poll(&mut self, now: u64) -> (r: DueSyncs)
        ensures
            (final(self)@, r) == schedule_at(old(self)@, now),
    {
        let incremental = if now >= self.last_incremental {
            now - self.last_incremental >= self.incremental_interval
        } else {
            0 >= self.incremental_interval
        };
        let full = if now >= self.last_full {
            now - self.last_full >= self.full_interval
        } else {
            0 >= self.full_interval
        };
        if incremental {
            self.last_incremental = now;
        }
        if full {
            self.last_full = now;
        }
        DueSyncs { incremental, full }
    }
}

/// Law: after a kind of synchronisation runs, it is not due again until its
/// whole interval has passed, and it is due as soon as it has.
pub proof fn law_schedule_spacing(s: SyncScheduleView, ran_at: u64, later: u64)
    requires
        ran_at <= later,
        schedule_at(s, ran_at).1.incremental,
    ensures
        schedule_at(schedule_at(s, ran_at).0, later).1.incremental <==> later - ran_at
            >= s.incremental_interval,
{
}

/// Law: after the settings are reread, each kind of synchronisation is due
/// once its new interval has passed since it last ran, neither sooner nor
/// later; a reload itself runs nothing.
pub proof fn law_reload_applies_new_intervals(
    s: SyncScheduleView,
    incremental_interval: u64,
    full_interval: u64,
    now: u64,
)
    ensures
        ({
            let r = SyncScheduleView { incremental_interval, full_interval, ..s };
            let due = schedule_at(r, now).1;
            &&& r.last_incremental == s.last_incremental && r.last_full == s.last_full
            &&& due.incremental <==> elapsed(now, s.last_incremental) >= incremental_interval
            &&& due.full <==> elapsed(now, s.last_full) >= full_interval
        }),
{
}

/// Law: the same spacing holds for full synchronisations.
pub proof fn law_full_schedule_spacing(s: SyncScheduleView, ran_at: u64, later: u64)
    requires
        ran_at <= later,
        schedule_at(s, ran_at).1.full,
    ensures
        schedule_at(schedule_at(s, ran_at).0, later).1.full <==> later - ran_at >= s.full_interval,
{
}

} // verus!
