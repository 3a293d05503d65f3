//! The provider daemon's lifecycle as the desktop agent tracks it: the state
//! it keeps between commands, the start and stop procedures as decision
//! machines the shell drives, the status it reports, and the helpers that
//! read the PID file and the tail of the daemon log.

use vstd::prelude::*;
use crate::json::{str_field, string_opt_view, JsonValue};
use crate::text::{
    or_empty,    chars_of, decimal, line_spans, lines, owned, parse_u32, parse_u32_spec, pieces, push_decimal,
    push_str, span_strings, string_of, text_of_bytes, lossy_text, trim, trim_span, views,
};
use crate::types::DaemonStatus;

verus! {

/// What the agent knows about the daemon process between commands.
/// Timestamps are milliseconds on the shell's monotonic clock.
#[derive(Clone, Debug)]
pub struct DaemonState {
    pub pid: Option<u32>,
    /// "running" | "stopped" | "crashed" | "starting"
    pub status: String,
    pub last_restart: Option<u64>,
    pub restart_count: u32,
    pub started_at: Option<u64>,
}

/// The fields of a daemon state, compared by value.
pub open spec fn same_state(
    s: DaemonState,
    pid: Option<u32>,
    status: Seq<char>,
    last_restart: Option<u64>,
    restart_count: u32,
    started_at: Option<u64>,
) -> bool {
    &&& s.pid == pid
    &&& s.status@ == status
    &&& s.last_restart == last_restart
    &&& s.restart_count == restart_count
    &&& s.started_at == started_at
}

/// How a start request proceeds.
#[derive(Clone, Copy, Debug, PartialEq, Eq)]
pub enum StartPlan {
    /// The daemon this state knows of is alive: nothing to do.
    AlreadyRunning(u32),
    /// The PID file names a live daemon started elsewhere: adopt it.
    AdoptRunning(u32),
    /// No live daemon: fetch it if needed and spawn it.
    Launch,
}

pub open spec fn start_plan_spec(
    pid: Option<u32>,
    pid_alive: bool,
    file_pid: Option<u32>,
    file_pid_alive: bool,
) -> StartPlan {
    match pid {
        Some(p) if pid_alive => StartPlan::AlreadyRunning(p),
        _ => match file_pid {
            Some(q) if file_pid_alive => StartPlan::AdoptRunning(q),
            _ => StartPlan::Launch,
        },
    }
}

/// `"Daemon already running with PID {pid}"`.
pub open spec fn already_running_text(pid: u32) -> Seq<char> {
    "Daemon already running with PID "@ + decimal(pid as nat)
}

/// How a start request settles without launching: with the answer naming
/// the daemon already alive (the state's own, or the PID file's, which is
/// adopted), or `None` when a daemon must be launched, in which case the
/// state is left as it was.
pub open spec fn settle_start_spec(
    pre: DaemonState,
    pid_alive: bool,
    file_pid: Option<u32>,
    file_pid_alive: bool,
    now: u64,
    post: DaemonState,
    r: Option<String>,
) -> bool {
    match start_plan_spec(pre.pid, pid_alive, file_pid, file_pid_alive) {
        StartPlan::AlreadyRunning(p) => r matches Some(m) && m@ == already_running_text(p)
            && same_state(post, pre.pid, pre.status@, pre.last_restart, pre.restart_count, pre.started_at),
        StartPlan::AdoptRunning(q) => r matches Some(m) && m@ == already_running_text(q)
            && same_state(post, Some(q), "running"@, pre.last_restart, pre.restart_count, Some(now)),
        StartPlan::Launch => r is None && same_state(
            post,
            pre.pid,
            pre.status@,
            pre.last_restart,
            pre.restart_count,
            pre.started_at,
        ),
    }
}

/// What the status command reports, and whether the PID file is stale.
#[derive(Clone, Debug)]
pub struct StatusReport {
    pub status: DaemonStatus,
    pub remove_pid_file: bool,
}

/// `(now - since) / 1000`, never below zero: whole seconds elapsed.
pub open spec fn elapsed_secs(since: u64, now: u64) -> u64 {
    if now >= since {
        ((now - since) / 1000) as u64
    } else {
        0
    }
}

/// What the status command reports and how it updates the state: `actual`
/// is the state's PID, else the PID file's; the process counts as running
/// when there is one and it is alive.
pub open spec fn observe_spec(
    pre: DaemonState,
    file_pid: Option<u32>,
    alive: bool,
    now: u64,
    lines: Seq<String>,
    post: DaemonState,
    r: StatusReport,
) -> bool {
    let actual = match pre.pid {
        Some(p) => Some(p),
        None => file_pid,
    };
    let live = actual is Some && alive;
    &&& r.status.status@ == (if actual is Some {
        if alive {
            "running"@
        } else {
            "crashed"@
        }
    } else {
        pre.status@
    })
    &&& r.status.pid == (if live {
        actual
    } else {
        None
    })
    &&& r.status.last_log_lines@ == lines
    &&& r.remove_pid_file == (actual is Some && !alive)
    &&& (live && pre.started_at is None) ==> same_state(
        post,
        actual,
        "running"@,
        pre.last_restart,
        pre.restart_count,
        Some(now),
    )
    &&& (live && pre.started_at is Some) ==> same_state(
        post,
        pre.pid,
        pre.status@,
        pre.last_restart,
        pre.restart_count,
        pre.started_at,
    )
    &&& (actual is Some && !alive) ==> same_state(
        post,
        None,
        "crashed"@,
        pre.last_restart,
        pre.restart_count,
        pre.started_at,
    )
    &&& actual is None ==> same_state(
        post,
        pre.pid,
        pre.status@,
        pre.last_restart,
        pre.restart_count,
        pre.started_at,
    )
    &&& r.status.uptime_seconds == (if live {
        match post.started_at {
            Some(s) => elapsed_secs(s, now),
            None => 0,
        }
    } else {
        0
    })
}

impl DaemonState {
    /// The state at launch: stopped, no process known.
    pub fn new() -> (s: Self)
        ensures
            same_state(s, None, "stopped"@, None, 0, None),
    {
        DaemonState {
            pid: None,
            status: owned("stopped"),
            last_restart: None,
            restart_count: 0,
            started_at: None,
        }
    }

    /// Decides a start request: `pid_alive` is the liveness of this state's
    /// PID, `file_pid` what the PID file holds and `file_pid_alive` its
    /// liveness.
    pub fn plan_start(&self, pid_alive: bool, file_pid: Option<u32>, file_pid_alive: bool) -> (r:
        StartPlan)
        ensures
            r == start_plan_spec(self.pid, pid_alive, file_pid, file_pid_alive),
    {
        match self.pid {
            Some(p) if pid_alive => StartPlan::AlreadyRunning(p),
            _ => match file_pid {
                Some(q) if file_pid_alive => StartPlan::AdoptRunning(q),
                _ => StartPlan::Launch,
            },
        }
    }

    /// Takes over a live daemon found through the PID file.
    pub fn adopt(&mut self, pid: u32, now: u64)
        ensures
            same_state(
                *final(self),
                Some(pid),
                "running"@,
                old(self).last_restart,
                old(self).restart_count,
                Some(now),
            ),
    {
        self.pid = Some(pid);
        self.status = owned("running");
        self.started_at = Some(now);
    }

    /// Settles a start request that needs no launch: answers that the
    /// daemon is already running, adopting the one the PID file names when
    /// this state's own is not alive; `None` when a daemon must be launched.
    pub fn settle_start(&mut self, pid_alive: bool, file_pid: Option<u32>, file_pid_alive: bool, now: u64) -> (r:
        Option<String>)
        ensures
            settle_start_spec(*old(self), pid_alive, file_pid, file_pid_alive, now, *final(self), r),
    {
        match self.plan_start(pid_alive, file_pid, file_pid_alive) {
            StartPlan::AlreadyRunning(p) => Some(already_running_message(p)),
            StartPlan::AdoptRunning(q) => {
                self.adopt(q, now);
                Some(already_running_message(q))
            },
            StartPlan::Launch => None,
        }
    }

    /// The spawn is under way.
    pub fn mark_starting(&mut self)
        ensures
            same_state(
                *final(self),
                old(self).pid,
                "starting"@,
                old(self).last_restart,
                old(self).restart_count,
                old(self).started_at,
            ),
    {
        self.status = owned("starting");
    }

    /// Records a daemon spawned by a start request or by the restart at
    /// launch: one more restart.
    pub fn record_spawn(&mut self, pid: u32, now: u64)
        requires
            old(self).restart_count < u32::MAX,
        ensures
            same_state(
                *final(self),
                Some(pid),
                "running"@,
                Some(now),
                (old(self).restart_count + 1) as u32,
                Some(now),
            ),
    {
        self.pid = Some(pid);
        self.status = owned("running");
        self.started_at = Some(now);
        self.last_restart = Some(now);
        self.restart_count = self.restart_count + 1;
    }

    /// Records the daemon spawned by the full provider start, which begins
    /// a fresh restart count.
    pub fn record_fresh_start(&mut self, pid: u32, now: u64)
        ensures
            same_state(*final(self), Some(pid), "running"@, old(self).last_restart, 0, Some(now)),
    {
        self.pid = Some(pid);
        self.status = owned("running");
        self.started_at = Some(now);
        self.restart_count = 0;
    }

    /// The process a stop request aims at: this state's, else the PID file's.
    pub fn stop_target(&self, file_pid: Option<u32>) -> (r: Option<u32>)
        ensures
            r == (match self.pid {
                Some(p) => Some(p),
                None => file_pid,
            }),
    {
        match self.pid {
            Some(p) => Some(p),
            None => file_pid,
        }
    }

    /// A stop request with no process to stop.
    pub fn mark_stopped(&mut self)
        ensures
            same_state(
                *final(self),
                old(self).pid,
                "stopped"@,
                old(self).last_restart,
                old(self).restart_count,
                old(self).started_at,
            ),
    {
        self.status = owned("stopped");
    }

    /// The process a stop request aimed at had already exited.
    pub fn clear_exited(&mut self)
        ensures
            same_state(
                *final(self),
                None,
                "stopped"@,
                old(self).last_restart,
                old(self).restart_count,
                old(self).started_at,
            ),
    {
        self.pid = None;
        self.status = owned("stopped");
    }

    /// The process a stop request aimed at has been stopped.
    pub fn clear_stopped(&mut self)
        ensures
            same_state(
                *final(self),
                None,
                "stopped"@,
                old(self).last_restart,
                old(self).restart_count,
                None,
            ),
    {
        self.pid = None;
        self.status = owned("stopped");
        self.started_at = None;
    }

    /// The status command: `file_pid` is what the PID file holds, `alive`
    /// the liveness of the process that this state or else the PID file
    /// names, `now` the clock and `last_log_lines` the tail of the log.
    pub fn observe(&mut self, file_pid: Option<u32>, alive: bool, now: u64, last_log_lines: Vec<
        String,
    >) -> (r: StatusReport)
        ensures
            observe_spec(*old(self), file_pid, alive, now, last_log_lines@, *final(self), r),
    {
        let actual = match self.pid {
            Some(p) => Some(p),
            None => file_pid,
        };
        let live = actual.is_some() && alive;
        let status = if actual.is_some() {
            if alive {
                owned("running")
            } else {
                owned("crashed")
            }
        } else {
            self.status.clone()
        };
        if live && self.started_at.is_none() {
            self.pid = actual;
            self.status = owned("running");
            self.started_at = Some(now);
        }
        let mut remove = false;
        if !alive && actual.is_some() {
            self.status = owned("crashed");
            self.pid = None;
            remove = true;
        }
        let uptime = if live {
            match self.started_at {
                Some(s) => if now >= s {
                    (now - s) / 1000
                } else {
                    0
                },
                None => 0,
            }
        } else {
            0
        };
        StatusReport {
            status: DaemonStatus {
                status,
                pid: if live {
                    actual
                } else {
                    None
                },
                uptime_seconds: uptime,
                last_log_lines,
            },
            remove_pid_file: remove,
        }
    }
}

/// After a stop (no process known and the PID file gone) the status reads
/// "stopped", with no process and no uptime, and the state is left as it
/// was.
pub proof fn lemma_stopped_reads_stopped(
    s: DaemonState,
    alive: bool,
    now: u64,
    lines: Seq<String>,
    post: DaemonState,
    r: StatusReport,
)
    requires
        s.pid is None,
        s.status@ == "stopped"@,
        observe_spec(s, None, alive, now, lines, post, r),
    ensures
        r.status.status@ == "stopped"@,
        r.status.pid is None,
        r.status.uptime_seconds == 0,
        !r.remove_pid_file,
        same_state(post, s.pid, s.status@, s.last_restart, s.restart_count, s.started_at),
{
}

/// After a spawn recorded at `t0`: while the process lives the status reads
/// "running" with its PID and the seconds since `t0`; once it has died it
/// reads "crashed", the PID is forgotten and the PID file is to be removed.
pub proof fn lemma_spawned_reads_running(
    s: DaemonState,
    pid: u32,
    t0: u64,
    file_pid: Option<u32>,
    alive: bool,
    now: u64,
    lines: Seq<String>,
    post: DaemonState,
    r: StatusReport,
)
    requires
        s.pid == Some(pid),
        s.status@ == "running"@,
        s.started_at == Some(t0),
        observe_spec(s, file_pid, alive, now, lines, post, r),
    ensures
        alive ==> r.status.status@ == "running"@ && r.status.pid == Some(pid)
            && r.status.uptime_seconds == elapsed_secs(t0, now) && !r.remove_pid_file && post.pid
            == Some(pid) && post.started_at == Some(t0),
        !alive ==> r.status.status@ == "crashed"@ && r.status.pid is None && r.remove_pid_file
            && post.pid is None && post.status@ == "crashed"@,
{
}

/// A start request never launches a second daemon while one is known to be
/// alive. When this state's daemon is alive the answer names it; otherwise,
/// when the PID file names a live daemon, that one is adopted and named.
/// Either way nothing is spawned and the restart count is left as it was;
/// a daemon is launched only when neither is alive.
pub proof fn lemma_start_while_running(
    pre: DaemonState,
    pid_alive: bool,
    file_pid: Option<u32>,
    file_pid_alive: bool,
    now: u64,
    post: DaemonState,
    r: Option<String>,
)
    requires
        settle_start_spec(pre, pid_alive, file_pid, file_pid_alive, now, post, r),
    ensures
        pre.pid is Some && pid_alive ==> (r matches Some(m) && m@ == already_running_text(
            pre.pid->0,
        )),
        !(pre.pid is Some && pid_alive) && file_pid is Some && file_pid_alive ==> (r matches Some(m)
            && m@ == already_running_text(file_pid->0) && post.pid == file_pid),
        post.restart_count == pre.restart_count,
        r is None <==> !(pre.pid is Some && pid_alive) && !(file_pid is Some && file_pid_alive),
{
}

/// Right after a start spawned daemon `pid`, another start while that
/// daemon lives answers that it is already running and spawns nothing.
pub proof fn lemma_second_start_spawns_nothing(
    spawned: DaemonState,
    pid: u32,
    now: u64,
    file_pid: Option<u32>,
    file_pid_alive: bool,
    later: u64,
    post: DaemonState,
    r: Option<String>,
)
    requires
        same_state(spawned, Some(pid), "running"@, Some(now), spawned.restart_count, Some(now)),
        settle_start_spec(spawned, true, file_pid, file_pid_alive, later, post, r),
    ensures
        r matches Some(m) && m@ == already_running_text(pid),
        post.pid == Some(pid),
        post.restart_count == spawned.restart_count,
{
}

/// Where a stop procedure stands.
#[derive(Clone, Copy, Debug, PartialEq, Eq)]
pub enum StopPhase {
    /// Nothing sent yet; the first probe decides whether the process runs.
    Probe,
    /// Termination requested; probing every half second.
    Polling,
    /// One more probe before deciding on a forced kill.
    Recheck,
    /// The process was killed outright.
    Forced,
    /// Done.
    Finished,
}

/// What the shell does next in a stop procedure.
#[derive(Clone, Copy, Debug, PartialEq, Eq)]
pub enum StopAction {
    /// The process had exited before anything was sent to it.
    FinishNotRunning,
    /// Ask the process to terminate, wait half a second, probe it.
    Terminate,
    /// Wait half a second, probe it.
    WaitAndProbe,
    /// Probe it at once.
    Probe,
    /// Kill it outright.
    ForceKill,
    /// The process is gone: clean up.
    FinishStopped,
}

/// A graceful-then-forced stop of one process: after the termination
/// request the process is probed every half second at most `max_polls`
/// times; if it still runs it is killed. With `recheck` one more probe
/// precedes the decision to kill (the update path); without, the kill
/// follows the last live probe (the stop command).
#[derive(Clone, Copy, Debug)]
pub struct StopMachine {
    pub pid: u32,
    pub max_polls: u32,
    pub recheck: bool,
    pub polls: u32,
    pub phase: StopPhase,
}

impl StopMachine {
    pub open spec fn wf(self) -> bool {
        &&& 1 <= self.max_polls
        &&& self.polls <= self.max_polls
        &&& self.phase == StopPhase::Probe ==> self.polls == 0
        &&& self.phase == StopPhase::Polling ==> self.polls >= 1
    }

    /// Steps left before the procedure is finished, at most.
    pub open spec fn budget(self) -> nat {
        match self.phase {
            StopPhase::Probe => (self.max_polls + 4) as nat,
            StopPhase::Polling => (self.max_polls - self.polls + 3) as nat,
            StopPhase::Recheck => 2,
            StopPhase::Forced => 1,
            StopPhase::Finished => 0,
        }
    }

    /// The transition taken on a probe result (`alive`; ignored where no
    /// probe preceded the step).
    pub open spec fn next(self, alive: bool) -> (StopMachine, StopAction) {
        match self.phase {
            StopPhase::Probe => if alive {
                (StopMachine { polls: 1, phase: StopPhase::Polling, ..self }, StopAction::Terminate)
            } else {
                (StopMachine { phase: StopPhase::Finished, ..self }, StopAction::FinishNotRunning)
            },
            StopPhase::Polling => if alive && self.polls < self.max_polls {
                (
                    StopMachine { polls: (self.polls + 1) as u32, ..self },
                    StopAction::WaitAndProbe,
                )
            } else if self.recheck {
                (StopMachine { phase: StopPhase::Recheck, ..self }, StopAction::Probe)
            } else if alive {
                (StopMachine { phase: StopPhase::Forced, ..self }, StopAction::ForceKill)
            } else {
                (StopMachine { phase: StopPhase::Finished, ..self }, StopAction::FinishStopped)
            },
            StopPhase::Recheck => if alive {
                (StopMachine { phase: StopPhase::Forced, ..self }, StopAction::ForceKill)
            } else {
                (StopMachine { phase: StopPhase::Finished, ..self }, StopAction::FinishStopped)
            },
            _ => (StopMachine { phase: StopPhase::Finished, ..self }, StopAction::FinishStopped),
        }
    }

    /// The stop command's procedure: up to twenty probes after the request.
    pub fn for_stop_command(pid: u32) -> (m: Self)
        ensures
            m.wf(),
            m.pid == pid,
            m.max_polls == 20,
            !m.recheck,
            m.polls == 0,
            m.phase == StopPhase::Probe,
    {
        StopMachine { pid, max_polls: 20, recheck: false, polls: 0, phase: StopPhase::Probe }
    }

    /// The procedure before an update or a rollback replaces the daemon:
    /// up to ten probes, then one more before a forced kill.
    pub fn for_replacement(pid: u32) -> (m: Self)
        ensures
            m.wf(),
            m.pid == pid,
            m.max_polls == 10,
            m.recheck,
            m.polls == 0,
            m.phase == StopPhase::Probe,
    {
        StopMachine { pid, max_polls: 10, recheck: true, polls: 0, phase: StopPhase::Probe }
    }

    /// Takes one step on the latest probe result.
    pub fn step(&mut self, alive: bool) -> (a: StopAction)
        requires
            old(self).wf(),
        ensures
            (*final(self), a) == old(self).next(alive),
            final(self).wf(),
    {
        match self.phase {
            StopPhase::Probe => {
                if alive {
                    self.polls = 1;
                    self.phase = StopPhase::Polling;
                    StopAction::Terminate
                } else {
                    self.phase = StopPhase::Finished;
                    StopAction::FinishNotRunning
                }
            },
            StopPhase::Polling => {
                if alive && self.polls < self.max_polls {
                    self.polls = self.polls + 1;
                    StopAction::WaitAndProbe
                } else if self.recheck {
                    self.phase = StopPhase::Recheck;
                    StopAction::Probe
                } else if alive {
                    self.phase = StopPhase::Forced;
                    StopAction::ForceKill
                } else {
                    self.phase = StopPhase::Finished;
                    StopAction::FinishStopped
                }
            },
            StopPhase::Recheck => {
                if alive {
                    self.phase = StopPhase::Forced;
                    StopAction::ForceKill
                } else {
                    self.phase = StopPhase::Finished;
                    StopAction::FinishStopped
                }
            },
            _ => {
                self.phase = StopPhase::Finished;
                StopAction::FinishStopped
            },
        }
    }
}

/// Every step of an unfinished stop procedure uses up budget: the procedure
/// ends within `max_polls + 4` steps whatever the probes report.
pub proof fn lemma_stop_progress(m: StopMachine, alive: bool)
    requires
        m.wf(),
        m.phase != StopPhase::Finished,
    ensures
        m.next(alive).0.wf(),
        m.next(alive).0.budget() < m.budget(),
{
}

/// A forced kill is only ever issued after `max_polls` probes, the last of
/// them (or the recheck after it) finding the process alive; and the
/// termination request is issued only on the first step.
pub proof fn lemma_stop_force_only_after_polls(m: StopMachine, alive: bool)
    requires
        m.wf(),
    ensures
        m.next(alive).1 == StopAction::ForceKill ==> alive && (m.polls == m.max_polls
            || m.phase == StopPhase::Recheck),
        m.next(alive).1 == StopAction::Terminate ==> m.phase == StopPhase::Probe,
        m.next(alive).0.polls <= m.max_polls,
{
}

/// `"Daemon already running with PID {pid}"`.
pub fn already_running_message(pid: u32) -> (r: String)
    ensures
        r@ == already_running_text(pid),
{
    let mut m: Vec<char> = Vec::new();
    push_str(&mut m, "Daemon already running with PID ");
    push_decimal(&mut m, pid as u64);
    string_of(m.as_slice())
}

/// `"started:{pid}"`, the answer to a start request that spawned a daemon.
pub fn started_message(pid: u32) -> (r: String)
    ensures
        r@ == "started:"@ + decimal(pid as nat),
{
    let mut m: Vec<char> = Vec::new();
    push_str(&mut m, "started:");
    push_decimal(&mut m, pid as u64);
    string_of(m.as_slice())
}

/// The URL the daemon script is downloaded from for `api_key`.
pub fn daemon_download_url(api_key: &str) -> (r: String)
    ensures
        r@ == "https://api.dcp.sa/api/providers/download/daemon?key="@ + api_key@,
{
    let mut m: Vec<char> = Vec::new();
    push_str(&mut m, "https://api.dcp.sa/api/providers/download/daemon?key=");
    push_str(&mut m, api_key);
    string_of(m.as_slice())
}

/// The arguments the daemon script is run with, after the interpreter.
pub fn daemon_args(daemon_path: &str, api_key: &str) -> (r: Vec<String>)
    ensures
        views(r@) == seq![
            daemon_path@,
            "--no-watchdog"@,
            "--key"@,
            api_key@,
            "--url"@,
            "https://api.dcp.sa"@,
        ],
{
    let mut r: Vec<String> = Vec::new();
    r.push(owned(daemon_path));
    r.push(owned("--no-watchdog"));
    r.push(owned("--key"));
    r.push(owned(api_key));
    r.push(owned("--url"));
    r.push(owned("https://api.dcp.sa"));
    assert(views(r@) =~= seq![
        daemon_path@,
        "--no-watchdog"@,
        "--key"@,
        api_key@,
        "--url"@,
        "https://api.dcp.sa"@,
    ]);
    r
}

/// The served model and the engine the daemon is told about
/// (`DCP_SERVED_MODEL`, `DCP_ENGINE`), read from the saved configuration
/// when it could be read and parsed; empty otherwise.
pub fn daemon_launch_env(config: Option<&JsonValue>) -> (r: (String, String))
    ensures
        config is None ==> r.0@ == Seq::<char>::empty() && r.1@ == Seq::<char>::empty(),
        config matches Some(c) ==> r.0@ == or_empty(str_field(*c, "served_model"@)) && r.1@
            == or_empty(str_field(*c, "engine"@)),
{
    match config {
        Some(c) => {
            let m = match c.str_field("served_model") {
                Some(s) => s,
                None => String::new(),
            };
            let e = match c.str_field("engine") {
                Some(s) => s,
                None => String::new(),
            };
            (m, e)
        },
        None => (String::new(), String::new()),
    }
}

/// The PID in the PID file's contents: trimmed, parsed as `u32`.
pub fn parse_pid(content: &str) -> (r: Option<u32>)
    ensures
        r == parse_u32_spec(trim(content@)),
{
    let cs = chars_of(content);
    let t = trim_span(cs.as_slice(), 0, cs.len());
    assert(cs@.subrange(0, cs@.len() as int) =~= content@);
    parse_u32(cs.as_slice(), t.start, t.end)
}

/// How much of the log is read for its tail: the last 64 KiB.
pub const TAIL_WINDOW: u64 = 65536;

/// Where the tail read of a log of `len` bytes starts.
pub fn tail_window_start(len: u64) -> (r: u64)
    ensures
        r == (if len > TAIL_WINDOW {
            len - TAIL_WINDOW
        } else {
            0
        }),
{
    len.saturating_sub(TAIL_WINDOW)
}

/// The lines of a tail read, the first dropped when the read began inside
/// the file (it may be partial).
pub open spec fn tail_candidates(text: Seq<char>, read_from: u64) -> Seq<Seq<char>> {
    let ls = lines(text);
    if read_from > 0 && ls.len() > 0 {
        ls.drop_first()
    } else {
        ls
    }
}

/// The last `n` of them (all of them when there are fewer).
pub open spec fn tail_spec(text: Seq<char>, read_from: u64, n: nat) -> Seq<Seq<char>> {
    let c = tail_candidates(text, read_from);
    if c.len() > n {
        c.subrange(c.len() - n, c.len() as int)
    } else {
        c
    }
}

/// The last `n` lines of the bytes read from byte `read_from` of the log,
/// decoded as `String::from_utf8_lossy` decodes them.
pub fn tail_lines(buf: &[u8], read_from: u64, n: usize) -> (r: Vec<String>)
    ensures
        views(r@) == tail_spec(lossy_text(buf@), read_from, n as nat),
{
    let decoded = text_of_bytes(buf);
    let text = decoded.as_str();
    let cs = chars_of(text);
    let ls = line_spans(cs.as_slice(), 0, cs.len());
    assert(cs@.subrange(0, cs@.len() as int) =~= text@);
    let ghost all = lines(text@);
    let first = if read_from > 0 && ls.len() > 0 {
        1
    } else {
        0
    };
    let count = ls.len() - first;
    let start = if count > n {
        ls.len() - n
    } else {
        first
    };
    let r = span_strings(cs.as_slice(), ls.as_slice(), start, ls.len());
    assert(pieces(cs@, ls@) == all);
    proof {
        let c = tail_candidates(text@, read_from);
        assert(c =~= all.subrange(first as int, all.len() as int));
        if count > n {
            assert(c.subrange(c.len() - n, c.len() as int) =~= all.subrange(
                start as int,
                all.len() as int,
            ));
        }
    }
    r
}

/// A tail read never yields more than `n` lines, and what it yields are
/// the last lines of the text read, in order.
pub proof fn lemma_tail_is_suffix(text: Seq<char>, read_from: u64, n: nat)
    ensures
        tail_spec(text, read_from, n).len() == (if tail_candidates(text, read_from).len() > n {
            n
        } else {
            tail_candidates(text, read_from).len()
        }),
        tail_candidates(text, read_from).subrange(
            tail_candidates(text, read_from).len() - tail_spec(text, read_from, n).len(),
            tail_candidates(text, read_from).len() as int,
        ) == tail_spec(text, read_from, n),
{
    let c = tail_candidates(text, read_from);
    if c.len() <= n {
        assert(c.subrange(0, c.len() as int) =~= c);
    }
}

/// The tray's status line: offline without a live daemon, paused when the
/// saved run mode says so, online otherwise.
pub fn tray_status_text(daemon_alive: bool, run_mode: Option<&str>) -> (r: String)
    ensures
        r@ == (if !daemon_alive {
            "Status: Offline"@
        } else if run_mode matches Some(m) && m@ == "paused"@ {
            "Status: Paused"@
        } else {
            "Status: Online"@
        }),
{
    if !daemon_alive {
        owned("Status: Offline")
    } else {
        let paused = match run_mode {
            Some(m) => {
                let cs = chars_of(m);
                crate::text::eq_str(cs.as_slice(), "paused")
            },
            None => false,
        };
        if paused {
            owned("Status: Paused")
        } else {
            owned("Status: Online")
        }
    }
}

/// The tray's earnings line from the saved `total_earnings`, if any.
pub fn tray_earnings_text(total_earnings: Option<&str>) -> (r: String)
    ensures
        total_earnings matches Some(t) ==> r@ == "Earnings: $"@ + t@,
        total_earnings is None ==> r@ == "Earnings: —"@,
{
    match total_earnings {
        Some(t) => {
            let mut m: Vec<char> = Vec::new();
            push_str(&mut m, "Earnings: $");
            push_str(&mut m, t);
            string_of(m.as_slice())
        },
        None => owned("Earnings: —"),
    }
}

/// At launch the daemon is restarted when a provider key is configured and
/// the PID file names no live process.
pub fn should_restart_at_launch(key_configured: bool, daemon_alive: bool) -> (r: bool)
    ensures
        r == (key_configured && !daemon_alive),
{
    key_configured && !daemon_alive
}

} // verus!
