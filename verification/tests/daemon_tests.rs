use dcp_provider::daemon::{
    already_running_message, daemon_args, daemon_download_url, daemon_launch_env, parse_pid,
    should_restart_at_launch, started_message, tail_lines, tail_window_start, tray_earnings_text,
    tray_status_text, DaemonState, StartPlan, StopAction, StopMachine, StopPhase,
};
use dcp_provider::json::{JsonMember, JsonValue};

fn obj(members: Vec<(&str, JsonValue)>) -> JsonValue {
    JsonValue::Object(
        members
            .into_iter()
            .map(|(k, v)| JsonMember { key: k.to_string(), value: v })
            .collect(),
    )
}

fn s(v: &str) -> JsonValue {
    JsonValue::Str(v.to_string())
}

#[test]
fn new_state_is_stopped() {
    let st = DaemonState::new();
    assert_eq!(st.pid, None);
    assert_eq!(st.status, "stopped");
    assert_eq!(st.restart_count, 0);
    assert_eq!(st.started_at, None);
    assert_eq!(st.last_restart, None);
}

#[test]
fn start_plan_prefers_known_live_pid() {
    let mut st = DaemonState::new();
    st.pid = Some(42);
    assert_eq!(st.plan_start(true, Some(7), true), StartPlan::AlreadyRunning(42));
    assert_eq!(st.plan_start(false, Some(7), true), StartPlan::AdoptRunning(7));
    assert_eq!(st.plan_start(false, Some(7), false), StartPlan::Launch);
    let fresh = DaemonState::new();
    assert_eq!(fresh.plan_start(false, None, false), StartPlan::Launch);
}

#[test]
fn spawn_counts_restarts() {
    let mut st = DaemonState::new();
    st.mark_starting();
    assert_eq!(st.status, "starting");
    st.record_spawn(1234, 5000);
    assert_eq!(st.pid, Some(1234));
    assert_eq!(st.status, "running");
    assert_eq!(st.restart_count, 1);
    assert_eq!(st.started_at, Some(5000));
    assert_eq!(st.last_restart, Some(5000));
    st.record_spawn(1235, 9000);
    assert_eq!(st.restart_count, 2);
    st.record_fresh_start(77, 10000);
    assert_eq!(st.restart_count, 0);
    assert_eq!(st.pid, Some(77));
    assert_eq!(st.last_restart, Some(9000));
}

#[test]
fn adopting_sets_running_without_restart() {
    let mut st = DaemonState::new();
    st.adopt(99, 300);
    assert_eq!(st.pid, Some(99));
    assert_eq!(st.status, "running");
    assert_eq!(st.started_at, Some(300));
    assert_eq!(st.restart_count, 0);
}

#[test]
fn messages_name_the_pid() {
    assert_eq!(already_running_message(4321), "Daemon already running with PID 4321");
    assert_eq!(started_message(17), "started:17");
    assert_eq!(
        daemon_download_url("dcp-provider-abc"),
        "https://api.dcp.sa/api/providers/download/daemon?key=dcp-provider-abc"
    );
}

#[test]
fn daemon_arguments_in_order() {
    let a = daemon_args("/home/u/.dcp/dcp_daemon.py", "k1");
    assert_eq!(
        a,
        vec![
            "/home/u/.dcp/dcp_daemon.py".to_string(),
            "--no-watchdog".to_string(),
            "--key".to_string(),
            "k1".to_string(),
            "--url".to_string(),
            "https://api.dcp.sa".to_string(),
        ]
    );
}

#[test]
fn launch_env_from_config() {
    let cfg = obj(vec![("served_model", s("qwen3:8b")), ("engine", s("ollama"))]);
    let (m, e) = daemon_launch_env(Some(&cfg));
    assert_eq!(m, "qwen3:8b");
    assert_eq!(e, "ollama");
    let partial = obj(vec![("engine", JsonValue::Bool(true))]);
    let (m2, e2) = daemon_launch_env(Some(&partial));
    assert_eq!(m2, "");
    assert_eq!(e2, "");
    let (m3, e3) = daemon_launch_env(None);
    assert_eq!((m3.as_str(), e3.as_str()), ("", ""));
}

#[test]
fn stop_command_gives_up_after_twenty_polls() {
    let mut m = StopMachine::for_stop_command(5);
    assert_eq!(m.step(true), StopAction::Terminate);
    for _ in 0..19 {
        assert_eq!(m.step(true), StopAction::WaitAndProbe);
    }
    assert_eq!(m.polls, 20);
    assert_eq!(m.step(true), StopAction::ForceKill);
    assert_eq!(m.step(true), StopAction::FinishStopped);
    assert_eq!(m.phase, StopPhase::Finished);
}

#[test]
fn stop_command_finishes_when_process_exits() {
    let mut m = StopMachine::for_stop_command(5);
    assert_eq!(m.step(true), StopAction::Terminate);
    assert_eq!(m.step(true), StopAction::WaitAndProbe);
    assert_eq!(m.step(false), StopAction::FinishStopped);
    let mut gone = StopMachine::for_stop_command(6);
    assert_eq!(gone.step(false), StopAction::FinishNotRunning);
}

#[test]
fn replacement_stop_rechecks_before_forcing() {
    let mut m = StopMachine::for_replacement(8);
    assert_eq!(m.step(true), StopAction::Terminate);
    for _ in 0..9 {
        assert_eq!(m.step(true), StopAction::WaitAndProbe);
    }
    assert_eq!(m.step(true), StopAction::Probe);
    assert_eq!(m.step(false), StopAction::FinishStopped);
    let mut n = StopMachine::for_replacement(8);
    n.step(true);
    assert_eq!(n.step(false), StopAction::Probe);
    assert_eq!(n.step(true), StopAction::ForceKill);
}

#[test]
fn stop_state_updates() {
    let mut st = DaemonState::new();
    st.record_spawn(10, 100);
    assert_eq!(st.stop_target(Some(11)), Some(10));
    st.clear_exited();
    assert_eq!(st.pid, None);
    assert_eq!(st.status, "stopped");
    assert_eq!(st.started_at, Some(100));
    assert_eq!(st.stop_target(Some(11)), Some(11));
    st.clear_stopped();
    assert_eq!(st.started_at, None);
    let mut idle = DaemonState::new();
    idle.mark_starting();
    idle.mark_stopped();
    assert_eq!(idle.status, "stopped");
}

#[test]
fn observe_running_daemon_reports_uptime() {
    let mut st = DaemonState::new();
    st.record_spawn(50, 1_000);
    let rep = st.observe(None, true, 61_500, vec!["a".to_string()]);
    assert_eq!(rep.status.status, "running");
    assert_eq!(rep.status.pid, Some(50));
    assert_eq!(rep.status.uptime_seconds, 60);
    assert_eq!(rep.status.last_log_lines, vec!["a".to_string()]);
    assert!(!rep.remove_pid_file);
}

#[test]
fn observe_discovers_daemon_from_pid_file() {
    let mut st = DaemonState::new();
    let rep = st.observe(Some(9), true, 2_000, Vec::new());
    assert_eq!(rep.status.status, "running");
    assert_eq!(rep.status.pid, Some(9));
    assert_eq!(rep.status.uptime_seconds, 0);
    assert_eq!(st.pid, Some(9));
    assert_eq!(st.started_at, Some(2_000));
}

#[test]
fn observe_crashed_daemon_clears_pid() {
    let mut st = DaemonState::new();
    st.record_spawn(50, 1_000);
    let rep = st.observe(None, false, 5_000, Vec::new());
    assert_eq!(rep.status.status, "crashed");
    assert_eq!(rep.status.pid, None);
    assert_eq!(rep.status.uptime_seconds, 0);
    assert!(rep.remove_pid_file);
    assert_eq!(st.pid, None);
    assert_eq!(st.status, "crashed");
}

#[test]
fn stopped_daemon_reads_stopped() {
    let mut st = DaemonState::new();
    st.record_spawn(77, 1_000);
    st.clear_stopped();
    let rep = st.observe(None, true, 9_000, Vec::new());
    assert_eq!(rep.status.status, "stopped");
    assert_eq!(rep.status.pid, None);
    assert_eq!(rep.status.uptime_seconds, 0);
    assert!(!rep.remove_pid_file);
    assert_eq!(st.status, "stopped");
    assert_eq!(st.restart_count, 1);
}

#[test]
fn observe_without_any_pid_keeps_status() {
    let mut st = DaemonState::new();
    st.mark_starting();
    let rep = st.observe(None, false, 5_000, Vec::new());
    assert_eq!(rep.status.status, "starting");
    assert!(!rep.remove_pid_file);
}

#[test]
fn pid_file_parsing() {
    assert_eq!(parse_pid(" 1234\n"), Some(1234));
    assert_eq!(parse_pid("+7"), Some(7));
    assert_eq!(parse_pid("abc"), None);
    assert_eq!(parse_pid(""), None);
    assert_eq!(parse_pid("4294967296"), None);
}

#[test]
fn tail_window() {
    assert_eq!(tail_window_start(10), 0);
    assert_eq!(tail_window_start(65536), 0);
    assert_eq!(tail_window_start(70000), 70000 - 65536);
}

#[test]
fn tail_takes_last_lines() {
    let text = b"one\ntwo\r\nthree\nfour\n";
    assert_eq!(tail_lines(text, 0, 2), vec!["three".to_string(), "four".to_string()]);
    assert_eq!(tail_lines(text, 0, 10).len(), 4);
    assert_eq!(tail_lines(text, 0, 10)[1], "two");
    // A read that began mid-file drops its first, possibly partial, line.
    assert_eq!(
        tail_lines(text, 100, 10),
        vec!["two".to_string(), "three".to_string(), "four".to_string()]
    );
    assert!(tail_lines(b"", 0, 5).is_empty());
}

#[test]
fn tray_texts() {
    assert_eq!(tray_status_text(false, Some("paused")), "Status: Offline");
    assert_eq!(tray_status_text(true, Some("paused")), "Status: Paused");
    assert_eq!(tray_status_text(true, Some("idle")), "Status: Online");
    assert_eq!(tray_status_text(true, None), "Status: Online");
    assert_eq!(tray_earnings_text(Some("12.50")), "Earnings: $12.50");
    assert_eq!(tray_earnings_text(None), "Earnings: —");
    assert!(should_restart_at_launch(true, false));
    assert!(!should_restart_at_launch(true, true));
    assert!(!should_restart_at_launch(false, false));
}

#[test]
fn second_start_spawns_nothing() {
    let mut st = DaemonState::new();
    assert_eq!(st.settle_start(false, None, false, 10), None);
    st.mark_starting();
    st.record_spawn(555, 1000);
    assert_eq!(st.restart_count, 1);
    assert_eq!(
        st.settle_start(true, None, false, 2000),
        Some("Daemon already running with PID 555".to_string())
    );
    assert_eq!(st.restart_count, 1);
    assert_eq!(st.pid, Some(555));
    assert_eq!(st.started_at, Some(1000));
}

#[test]
fn start_adopts_live_daemon_from_pid_file() {
    let mut st = DaemonState::new();
    st.pid = Some(42);
    assert_eq!(
        st.settle_start(false, Some(77), true, 3000),
        Some("Daemon already running with PID 77".to_string())
    );
    assert_eq!(st.pid, Some(77));
    assert_eq!(st.status, "running");
    assert_eq!(st.started_at, Some(3000));
    assert_eq!(st.restart_count, 0);
}
