use dcp_provider::health::{
    available_gb_linux, available_gb_macos, available_gb_windows, daemon_file_check,
    daemon_process_check, disk_space_check, engine_check, engine_check_macos, gpu_check_macos,
    gpu_check_nvidia, has_heartbeat, health_report, heartbeat_check, internet_check,
    local_server_check, make_check, model_check, python_check, daemon_health_report, EngineProbe,
    GpuProbe, HealthObservations, SpeedReading,
};
use dcp_provider::types::HealthCheck;

fn check(status: &str) -> HealthCheck {
    make_check("X", status, "m".to_string(), false, None)
}

#[test]
fn verdict_healthy() {
    let r = health_report(vec![check("ok"), check("warning"), check("ok")]);
    assert_eq!(r.overall, "healthy");
    assert_eq!(r.checks.len(), 3);
}

#[test]
fn verdict_degraded() {
    assert_eq!(health_report(vec![check("ok"), check("error")]).overall, "degraded");
    assert_eq!(health_report(vec![check("warning"), check("warning")]).overall, "degraded");
}

#[test]
fn verdict_critical() {
    assert_eq!(health_report(vec![check("error"), check("warning"), check("error")]).overall, "critical");
}

#[test]
fn verdict_empty() {
    assert_eq!(health_report(Vec::new()).overall, "healthy");
}

#[test]
fn gpu_checks() {
    let ok = gpu_check_macos(Some("arm64\n"));
    assert_eq!(ok.status, "ok");
    assert_eq!(ok.message, "Apple Silicon detected (Metal/MLX supported)");
    assert_eq!(gpu_check_macos(Some("x86_64")).status, "warning");
    assert_eq!(gpu_check_macos(None).status, "error");
    let nv = gpu_check_nvidia(Some("NVIDIA GeForce RTX 4090\n"));
    assert_eq!(nv.message, "NVIDIA GeForce RTX 4090 detected");
    let none = gpu_check_nvidia(None);
    assert_eq!(none.fix_action, Some("install_drivers".to_string()));
    assert!(none.can_auto_fix);
}

#[test]
fn software_checks() {
    assert_eq!(python_check(Some("Python 3.11.9\n")).message, "Python 3.11.9 installed");
    assert_eq!(python_check(None).message, "python3 not found in PATH");
    assert_eq!(daemon_file_check(true, "/h/.dcp/dcp_daemon.py").message, "/h/.dcp/dcp_daemon.py exists");
    let missing = daemon_file_check(false, "/h/.dcp/dcp_daemon.py");
    assert_eq!(missing.fix_action, Some("download_daemon".to_string()));
    assert_eq!(engine_check_macos(Some("0.19.1\n"), false).message, "mlx-lm 0.19.1 installed");
    assert_eq!(engine_check_macos(None, true).message, "Ollama installed (fallback)");
    assert_eq!(engine_check_macos(None, false).status, "error");
    assert_eq!(engine_check(true).status, "ok");
    assert_eq!(engine_check(false).fix_action, Some("install_engine".to_string()));
}

#[test]
fn model_checks() {
    let two = model_check(Some("NAME ID SIZE\nqwen3:8b a 5GB\nqwen3:4b b 2GB\n"), false);
    assert_eq!(two.message, "2 model(s) available");
    assert_eq!(model_check(Some("NAME ID SIZE\n"), false).status, "warning");
}

#[test]
fn daemon_checks() {
    assert_eq!(daemon_process_check(true, 321).message, "Running (PID 321)");
    assert_eq!(daemon_process_check(false, 0).fix_action, Some("start_daemon".to_string()));
    let logs = vec!["starting".to_string(), "Heartbeat sent".to_string()];
    assert!(has_heartbeat(&logs));
    assert_eq!(heartbeat_check(true, &logs).status, "ok");
    assert_eq!(heartbeat_check(true, &["x".to_string()]).status, "warning");
    assert_eq!(heartbeat_check(false, &logs).status, "error");
}

#[test]
fn server_and_network_checks() {
    assert_eq!(local_server_check(Some("200"), true).status, "ok");
    assert_eq!(internet_check(Some("204\n")).message, "api.dcp.sa reachable");
    assert_eq!(internet_check(Some("503")).message, "api.dcp.sa returned HTTP 503");
    assert_eq!(internet_check(Some("000")).status, "warning");
    assert_eq!(internet_check(None).status, "error");
}

#[test]
fn disk_checks() {
    assert_eq!(disk_space_check(120).message, "120GB available");
    assert_eq!(disk_space_check(7).message, "7GB available — may need more for models");
    assert_eq!(disk_space_check(3).message, "Only 3GB available — insufficient for models");
    assert_eq!(available_gb_macos("Filesystem 1G-blocks Used Available\n/dev/disk3s1 926 400 512 44%\n"), Some(512));
    assert_eq!(available_gb_linux(" Avail\n  217G\n"), Some(217));
    assert_eq!(available_gb_linux("Avail\n"), None);
    assert_eq!(available_gb_windows("\r\n\r\nFreeSpace=107374182400\r\n"), Some(100));
    assert_eq!(available_gb_windows("nothing"), None);
}

#[test]
fn fixes_only_on_failing_automatic_checks() {
    let checks = vec![
        gpu_check_nvidia(None),
        gpu_check_nvidia(Some("RTX 3060\n")),
        daemon_file_check(false, "/x/dcp_daemon.py"),
        engine_check(false),
        model_check(None, false),
        daemon_process_check(false, 0),
        daemon_process_check(true, 5),
    ];
    let known = ["install_drivers", "download_daemon", "install_engine", "download_model", "start_daemon"];
    for c in &checks {
        if let Some(f) = &c.fix_action {
            assert!(c.can_auto_fix);
            assert_ne!(c.status, "ok");
            assert!(known.contains(&f.as_str()));
        }
    }
    assert_eq!(checks[6].fix_action, None);
}

fn observations(speed: Option<SpeedReading>, disk: Option<u64>) -> HealthObservations {
    HealthObservations {
        gpu: GpuProbe::NvidiaName(None),
        python_version: Some("Python 3.11.4\n".to_string()),
        daemon_file_exists: false,
        daemon_path: "/home/p/.dcp/dcp_daemon.py".to_string(),
        engine: EngineProbe::Ollama { installed: true },
        model_list: Some("NAME ID SIZE\n".to_string()),
        hf_cache_exists: false,
        daemon_alive: false,
        daemon_pid: 0,
        log_lines: vec![],
        local_server: None,
        internet: Some("200".to_string()),
        speed,
        disk_available_gb: disk,
    }
}

#[test]
fn health_report_order_and_fixes() {
    let r = daemon_health_report(&observations(
        Some(SpeedReading { status: "ok".to_string(), message: "12.0 MB/s — excellent".to_string() }),
        Some(3),
    ));
    let names: Vec<&str> = r.checks.iter().map(|c| c.name.as_str()).collect();
    assert_eq!(
        names,
        vec![
            "GPU Driver", "Python", "Daemon File", "Inference Engine", "Model", "Daemon Process",
            "Daemon Heartbeat", "Local Server", "Internet", "Internet Speed", "Disk Space",
        ]
    );
    assert_eq!(r.checks[2].fix_action.as_deref(), Some("download_daemon"));
    assert_eq!(r.checks[4].fix_action.as_deref(), Some("download_model"));
    assert_eq!(r.checks[5].fix_action.as_deref(), Some("start_daemon"));
    assert_eq!(r.checks[9].status, "ok");
    assert_eq!(r.checks[10].message, "Only 3GB available — insufficient for models");
    for c in &r.checks {
        if c.fix_action.is_some() {
            assert!(c.can_auto_fix);
            assert_ne!(c.status, "ok");
        }
    }
    assert_eq!(r.overall, "critical");
}

#[test]
fn health_report_without_optional_checks() {
    let r = daemon_health_report(&observations(None, None));
    assert_eq!(r.checks.len(), 9);
    assert_eq!(r.checks[8].name, "Internet");
    assert_eq!(r.checks[8].status, "ok");
}
