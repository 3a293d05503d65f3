use dcp_provider::platform::{
    admin_applescript, engine_for, engine_install_result, keeper_install_applescript,
    linux_activation_result, log_excerpt, mac_admin_command, mac_admin_result, mlx_load_script,
    model_download_result, ollama_candidates, process_ids, python_choice, python_reports_version,
    require_model_name, resolve_ollama, tasklist_shows, tray_action, uploaded_log_files,
    where_first, windows_activation_result, EngineKind, LaunchOutcome, TrayAction,
};

#[test]
fn where_output_first_line_is_trimmed() {
    assert_eq!(
        where_first("  C:\\Ollama\\ollama.exe \r\nD:\\other\\ollama.exe\r\n"),
        Some("C:\\Ollama\\ollama.exe".to_string())
    );
    assert_eq!(where_first("   \nC:\\x.exe"), None);
    assert_eq!(where_first(""), None);
}

#[test]
fn ollama_candidates_follow_lookup_order() {
    let c = ollama_candidates(
        Some("C:\\found\\ollama.exe".to_string()),
        None,
        Some("C:\\Users\\a\\AppData\\Local"),
    );
    assert_eq!(
        c,
        vec![
            "C:\\found\\ollama.exe".to_string(),
            "C:\\Users\\a\\AppData\\Local\\Programs\\Ollama\\ollama.exe".to_string(),
            "C:\\Program Files\\Ollama\\ollama.exe".to_string(),
            "C:\\Program Files (x86)\\Ollama\\ollama.exe".to_string(),
        ]
    );
    assert_eq!(ollama_candidates(None, None, None).len(), 2);
}

#[test]
fn ollama_falls_back_to_bare_name() {
    let none = vec![("C:\\a\\ollama.exe".to_string(), false)];
    assert_eq!(resolve_ollama(true, true, &none), "ollama");
    assert_eq!(resolve_ollama(false, false, &none), "ollama");
    assert_eq!(resolve_ollama(false, true, &none), "ollama");
    let probed = vec![
        ("C:\\a\\ollama.exe".to_string(), false),
        ("C:\\b\\ollama.exe".to_string(), true),
        ("C:\\c\\ollama.exe".to_string(), true),
    ];
    assert_eq!(resolve_ollama(false, true, &probed), "C:\\b\\ollama.exe");
    assert_eq!(resolve_ollama(true, true, &probed), "ollama");
}

#[test]
fn python_version_check() {
    assert!(python_reports_version(true, "Python 3.11.4\n"));
    assert!(!python_reports_version(false, "Python 3.11.4\n"));
    assert!(!python_reports_version(true, ""));
}

#[test]
fn python_choice_prefers_embedded() {
    let emb = "C:\\Users\\a\\.dcp\\python\\python.exe";
    assert_eq!(python_choice(Some(emb), true, true, true), emb);
    assert_eq!(python_choice(Some(emb), false, true, true), "python");
    assert_eq!(python_choice(Some(emb), false, false, true), "python3");
    assert_eq!(python_choice(Some(emb), false, false, false), emb);
    assert_eq!(python_choice(None, false, false, false), "python");
}

#[test]
fn wmic_listing_pids() {
    let listing = "\r\n\r\nProcessId=1234\r\n\r\nProcessId= 77 \r\nProcessId=abc\r\nOther=5\r\n";
    assert_eq!(process_ids(listing), vec![1234, 77]);
    assert_eq!(process_ids(""), Vec::<u32>::new());
}

#[test]
fn tasklist_liveness() {
    let out = "python.exe                    4242 Console                    1     12,345 K\r\n";
    assert!(tasklist_shows(true, out, 4242));
    assert!(!tasklist_shows(true, out, 4243));
    assert!(!tasklist_shows(false, out, 4242));
}

#[test]
fn linux_activation_messages() {
    assert_eq!(linux_activation_result(&LaunchOutcome::Succeeded), Ok(()));
    assert_eq!(
        linux_activation_result(&LaunchOutcome::Failed("bad conf".to_string())),
        Err("wg-quick up failed: bad conf".to_string())
    );
    assert_eq!(
        linux_activation_result(&LaunchOutcome::NotFound("No such file or directory (os error 2)".to_string())),
        Err("wg-quick not found. Install: sudo apt install wireguard-tools".to_string())
    );
    assert_eq!(
        linux_activation_result(&LaunchOutcome::Error("denied".to_string())),
        Err("wg-quick failed: denied".to_string())
    );
}

#[test]
fn windows_activation_retries() {
    let failed = LaunchOutcome::Failed("oops".to_string());
    assert_eq!(windows_activation_result(&failed, Some(true)), Ok(()));
    assert_eq!(
        windows_activation_result(&failed, Some(false)),
        Err("wireguard /installtunnelservice failed: oops".to_string())
    );
    assert_eq!(
        windows_activation_result(&failed, None),
        Err("wireguard /installtunnelservice failed: oops".to_string())
    );
    assert_eq!(
        windows_activation_result(&LaunchOutcome::NotFound("missing".to_string()), None),
        Err("WireGuard not found. Install from https://www.wireguard.com/install/".to_string())
    );
    assert_eq!(
        windows_activation_result(&LaunchOutcome::Error("x".to_string()), None),
        Err("wireguard.exe failed: x".to_string())
    );
}

#[test]
fn mac_admin_command_escapes_quotes() {
    let cmd = mac_admin_command("/k\"s.sh", "/p.plist", "/opt/homebrew/bin/wg-quick", "/c/wg0.conf");
    assert!(cmd.starts_with("export PATH=/opt/homebrew/bin:/usr/local/bin:$PATH; cp /k\\\"s.sh /usr/local/bin/dcp-wg-keeper.sh;"));
    assert!(cmd.contains("/opt/homebrew/bin/wg-quick down wg0 2>/dev/null; sleep 0.5; /opt/homebrew/bin/wg-quick up /c/wg0.conf;"));
    assert!(cmd.ends_with("launchctl load /Library/LaunchDaemons/sa.dcp.wireguard.plist"));
    assert_eq!(
        admin_applescript("echo hi"),
        "do shell script \"echo hi\" with administrator privileges"
    );
    let k = keeper_install_applescript("/k.sh", "/p.plist");
    assert!(k.starts_with("do shell script \"cp /k.sh /usr/local/bin/dcp-wg-keeper.sh && chmod 755"));
    assert!(k.ends_with("\" with administrator privileges"));
}

#[test]
fn mac_admin_cancel_is_told_apart() {
    assert_eq!(mac_admin_result(&LaunchOutcome::Succeeded), Ok(()));
    assert_eq!(
        mac_admin_result(&LaunchOutcome::Failed("execution error: User canceled. (-128)".to_string())),
        Err("WireGuard setup cancelled — admin password required to activate the tunnel.".to_string())
    );
    assert_eq!(
        mac_admin_result(&LaunchOutcome::Failed("no such file".to_string())),
        Err("wg-quick up failed (admin): no such file".to_string())
    );
    assert_eq!(
        mac_admin_result(&LaunchOutcome::Error("spawn".to_string())),
        Err("osascript admin prompt failed: spawn".to_string())
    );
    assert_eq!(
        mac_admin_result(&LaunchOutcome::NotFound("No such file or directory (os error 2)".to_string())),
        Err("osascript admin prompt failed: No such file or directory (os error 2)".to_string())
    );
}

#[test]
fn engine_follows_architecture() {
    assert_eq!(engine_for(true, "arm64\n"), EngineKind::Mlx);
    assert_eq!(engine_for(true, "x86_64\n"), EngineKind::Ollama);
    assert_eq!(engine_for(false, "arm64"), EngineKind::Ollama);
}

#[test]
fn engine_install_messages() {
    assert_eq!(
        engine_install_result(EngineKind::Mlx, false, true, ""),
        Ok("mlx-lm installed successfully".to_string())
    );
    assert_eq!(
        engine_install_result(EngineKind::Ollama, true, true, ""),
        Ok("Ollama installed successfully".to_string())
    );
    assert_eq!(
        engine_install_result(EngineKind::Mlx, false, false, "no pip"),
        Err("pip install failed: no pip".to_string())
    );
    assert_eq!(
        engine_install_result(EngineKind::Ollama, false, false, "curl: 6"),
        Err("Ollama install failed: curl: 6".to_string())
    );
    assert_eq!(
        engine_install_result(EngineKind::Ollama, true, false, "ignored"),
        Err("Failed to install Ollama. Install manually from https://ollama.com/download/windows".to_string())
    );
}

#[test]
fn model_download_messages() {
    assert_eq!(require_model_name(""), Err("Model name is required".to_string()));
    assert_eq!(require_model_name("qwen3:8b"), Ok(()));
    assert_eq!(require_model_name("mlx-community/Qwen3-8B-4bit"), Ok(()));
    assert_eq!(require_model_name("two words"), Ok(()));
    assert_eq!(mlx_load_script("m/x"), Ok("from mlx_lm import load; load('m/x')".to_string()));
    let bad = Err("Invalid model name: only letters, digits, '.', '_', '/' and '-' are allowed".to_string());
    assert_eq!(mlx_load_script("x'); import os; ('"), bad);
    assert_eq!(mlx_load_script("qwen3:8b"), bad);
    assert_eq!(mlx_load_script(""), bad);
    assert_eq!(
        model_download_result(EngineKind::Ollama, "llama3.2:3b", true, ""),
        Ok("Model llama3.2:3b downloaded via Ollama".to_string())
    );
    assert_eq!(
        model_download_result(EngineKind::Mlx, "m/x", true, ""),
        Ok("Model m/x downloaded via MLX".to_string())
    );
    assert_eq!(
        model_download_result(EngineKind::Ollama, "a", false, "net"),
        Err("ollama pull failed: net".to_string())
    );
    assert_eq!(
        model_download_result(EngineKind::Mlx, "a", false, "net"),
        Err("MLX model download failed: net".to_string())
    );
}

#[test]
fn tray_menu_actions() {
    assert_eq!(tray_action("show"), TrayAction::ShowWindow);
    assert_eq!(tray_action("agent_chat"), TrayAction::ShowAgentChat);
    assert_eq!(tray_action("dashboard"), TrayAction::OpenDashboard);
    assert_eq!(tray_action("logs"), TrayAction::OpenLogs);
    assert_eq!(tray_action("pause"), TrayAction::Pause);
    assert_eq!(tray_action("resume"), TrayAction::Resume);
    assert_eq!(tray_action("quit"), TrayAction::Quit);
    assert_eq!(tray_action("status"), TrayAction::Ignore);
}

#[test]
fn log_upload_files_and_excerpt() {
    assert_eq!(
        uploaded_log_files(),
        vec!["startup.log", "gpu-detection.log", "daemon.log"]
    );
    assert_eq!(log_excerpt("short log"), "short log");
    let long: String = "a".repeat(50_010) + "END";
    let ex = log_excerpt(&long);
    assert_eq!(ex.len(), 50_000);
    assert!(ex.ends_with("END"));
}
