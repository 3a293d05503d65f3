use dcp_provider::json::{JsonMember, JsonValue};
use dcp_provider::network::{
    existing_tunnel_ip, gateway_from_conf, handshake_age, mesh_ip_assigned, mesh_ip_from_conf,
    ollama_repair_log, ollama_repair_unneeded, parse_registration, plan_wg_conf,
    registration_http_error, repair_wg_quick, rotated_conf, rotation_http_error, rotation_message,
    wg_bin, wg_conf_text, wg_gateway, wg_quick_bin, wg_status, wireguard_report, CommandOutcome,
    ConfPlan, RepairAction, RepairEvent, WgRepair, brew_bin, keypair_result, printed_key,
    tools_install_result, ToolsInstaller,
};

fn obj(members: Vec<(&str, JsonValue)>) -> JsonValue {
    JsonValue::Object(
        members
            .into_iter()
            .map(|(k, v)| JsonMember { key: k.to_string(), value: v })
            .collect(),
    )
}

fn s(v: &str) -> JsonValue {
    JsonValue::Str(v.to_string())
}

const CONF: &str = "[Interface]\nPrivateKey = abc\nAddress = 10.8.0.7/24\n\n[Peer]\nPublicKey = srv\nEndpoint = 76.13.179.86:51820\n";

#[test]
fn tool_paths_are_known_locations() {
    assert_eq!(wg_bin(true, true, true), "/opt/homebrew/bin/wg");
    assert_eq!(wg_bin(false, true, true), "/usr/local/bin/wg");
    assert_eq!(wg_bin(false, false, true), "/usr/bin/wg");
    assert_eq!(wg_bin(false, false, false), "wg");
    assert_eq!(wg_quick_bin(true, false, false), "/opt/homebrew/bin/wg-quick");
    assert_eq!(wg_quick_bin(false, true, false), "/usr/local/bin/wg-quick");
    assert_eq!(wg_quick_bin(false, false, true), "/usr/bin/wg-quick");
    assert_eq!(wg_quick_bin(false, false, false), "wg-quick");
}

#[test]
fn gateway_from_endpoint_line() {
    assert_eq!(gateway_from_conf(CONF), Some("76.13.179.86".to_string()));
    assert_eq!(gateway_from_conf("  Endpoint =  :51820\nEndpoint = 1.2.3.4:1\n"), Some("1.2.3.4".to_string()));
    assert_eq!(gateway_from_conf("[Peer]\n"), None);
}

#[test]
fn gateway_fallbacks() {
    let cfg = obj(vec![("wg_gateway", s("")), ("wg_server_ip", s("10.9.0.1"))]);
    assert_eq!(wg_gateway(Some("[Peer]\n"), Some(&cfg)), "10.9.0.1");
    assert_eq!(wg_gateway(Some(CONF), Some(&cfg)), "76.13.179.86");
    assert_eq!(wg_gateway(None, None), "10.8.0.1");
    let cfg2 = obj(vec![("wg_gateway", s("10.7.0.1"))]);
    assert_eq!(wg_gateway(None, Some(&cfg2)), "10.7.0.1");
}

#[test]
fn mesh_address() {
    assert_eq!(mesh_ip_from_conf(CONF), Some("10.8.0.7".to_string()));
    assert_eq!(mesh_ip_from_conf("Address\nAddress = 10.1.1.1/24\n"), None);
    assert_eq!(mesh_ip_from_conf("nothing"), None);
    assert_eq!(existing_tunnel_ip(true, Some(CONF), ""), Some("10.8.0.7".to_string()));
    assert_eq!(existing_tunnel_ip(true, None, "peer: x\n  endpoint: 1.2.3.4:51820"), Some("unknown".to_string()));
    assert_eq!(existing_tunnel_ip(false, None, "endpoint"), None);
}

#[test]
fn registration_answers() {
    let full = obj(vec![
        ("ip", s("10.8.0.12")),
        ("server_pubkey", s("PUB")),
        ("server_endpoint", s("76.13.179.86:51820")),
        ("psk", s("PSK")),
    ]);
    let reg = parse_registration(&full).unwrap();
    assert_eq!(reg.mesh_ip, "10.8.0.12");
    assert_eq!(reg.psk, Some("PSK".to_string()));
    assert!(!reg.already_registered);
    assert_eq!(
        parse_registration(&obj(vec![("server_pubkey", s("P"))])).err(),
        Some("WG registration response missing 'ip'".to_string())
    );
    assert_eq!(
        parse_registration(&obj(vec![("ip", s("1")), ("server_pubkey", s("P"))])).err(),
        Some("WG registration response missing 'server_endpoint'".to_string())
    );
    assert_eq!(
        parse_registration(&obj(vec![("ip", s("1"))])).err(),
        Some("WG registration response missing 'server_pubkey'".to_string())
    );
    assert_eq!(registration_http_error("409 Conflict", "dup"), "WG registration HTTP 409 Conflict: dup");
}

#[test]
fn tunnel_configuration_text() {
    assert_eq!(
        wg_conf_text("PRIV", "10.8.0.12", "PUB", "PSK", "1.2.3.4:51820", true),
        "[Interface]\nPrivateKey = PRIV\nAddress = 10.8.0.12/24\nDNS = 1.1.1.1\n\n[Peer]\nPublicKey = PUB\nPresharedKey = PSK\nEndpoint = 1.2.3.4:51820\nAllowedIPs = 10.8.0.0/24\nPersistentKeepalive = 25\n"
    );
    assert_eq!(
        wg_conf_text("PRIV", "10.8.0.12", "PUB", "PSK", "1.2.3.4:51820", false),
        "[Interface]\nPrivateKey = PRIV\nAddress = 10.8.0.12/24\n\n[Peer]\nPublicKey = PUB\nPresharedKey = PSK\nEndpoint = 1.2.3.4:51820\nAllowedIPs = 10.8.0.0/24\nPersistentKeepalive = 25\n"
    );
}

#[test]
fn configuration_plans() {
    let with_psk = parse_registration(&obj(vec![
        ("ip", s("10.8.0.12")),
        ("server_pubkey", s("PUB")),
        ("server_endpoint", s("E")),
        ("psk", s("K")),
        ("already_registered", JsonValue::Bool(true)),
    ]))
    .unwrap();
    assert!(matches!(plan_wg_conf(&with_psk, "P", true), ConfPlan::Keep));
    match plan_wg_conf(&with_psk, "P", false) {
        ConfPlan::Write(c) => assert!(c.contains("PresharedKey = K\n")),
        other => panic!("unexpected {:?}", other),
    }
    let no_psk = parse_registration(&obj(vec![
        ("ip", s("10.8.0.12")),
        ("server_pubkey", s("PUB")),
        ("server_endpoint", s("E")),
        ("already_registered", JsonValue::Bool(true)),
    ]))
    .unwrap();
    match plan_wg_conf(&no_psk, "P", false) {
        ConfPlan::Refuse(e) => {
            assert_eq!(e, "WG config missing and re-registration returned no PSK. Contact support.")
        },
        other => panic!("unexpected {:?}", other),
    }
    let fresh_no_psk = parse_registration(&obj(vec![
        ("ip", s("10.8.0.12")),
        ("server_pubkey", s("PUB")),
        ("server_endpoint", s("E")),
    ]))
    .unwrap();
    assert!(matches!(plan_wg_conf(&fresh_no_psk, "P", true), ConfPlan::Keep));
}

#[test]
fn rotation() {
    let (conf, ip) = rotated_conf("NEW", &obj(vec![]));
    assert_eq!(ip, "10.8.0.3");
    assert_eq!(
        conf,
        "[Interface]\nPrivateKey = NEW\nAddress = 10.8.0.3/24\n\n[Peer]\nPublicKey = \nPresharedKey = \nEndpoint = 76.13.179.86:51820\nAllowedIPs = 10.8.0.0/24\nPersistentKeepalive = 25\n"
    );
    assert_eq!(rotation_message("10.8.0.3"), "Key rotated. Mesh IP: 10.8.0.3");
    assert_eq!(rotation_http_error("403 Forbidden", "no"), "Backend rejected key rotation: HTTP 403 Forbidden — no");
}

#[test]
fn tunnel_reports() {
    assert_eq!(
        wireguard_report(true, "10.8.0.1", "latest handshake: 1 minute ago", " 10.8.0.7\n"),
        "WireGuard is UP. Mesh IP: 10.8.0.7. Gateway 10.8.0.1 reachable. Handshake: recent."
    );
    assert_eq!(
        wireguard_report(false, "10.8.0.1", "", ""),
        "WireGuard is DOWN. Interface exists (no IP), handshake: none, but can't reach gateway 10.8.0.1. Run 'fix it' and I'll reconnect."
    );
    assert_eq!(
        wireguard_report(false, "g", "latest handshake: 3 hours ago", "10.8.0.7"),
        "WireGuard is DOWN. Interface exists (10.8.0.7), handshake: yes but stale, but can't reach gateway g. Run 'fix it' and I'll reconnect."
    );
    let show = "peer: abc\n  endpoint: 1.2.3.4:51820\n  latest handshake: 1 minute, 32 seconds ago\n";
    assert_eq!(handshake_age(show), Some("1 minute, 32 seconds ago".to_string()));
    assert_eq!(handshake_age("peer: abc\n"), None);
    let st = wg_status(true, "10.8.0.1".to_string(), show, "");
    assert_eq!(st.mesh_ip, "none");
    assert!(st.handshake);
    assert!(st.up && st.gateway_reachable);
    assert!(mesh_ip_assigned("inet 10.8.0.7 --> 10.8.0.7", "10.8.0.7"));
    assert!(!mesh_ip_assigned("inet 192.168.1.2", "10.8.0.7"));
}

fn expect_run(a: RepairAction, cmd: &str) {
    match a {
        RepairAction::Run(c) => assert_eq!(c, cmd),
        other => panic!("unexpected {:?}", other),
    }
}

fn expect_finish(a: RepairAction, log: &str) {
    match a {
        RepairAction::Finish(l) => assert_eq!(l, log),
        other => panic!("unexpected {:?}", other),
    }
}

#[test]
fn repair_when_up_already() {
    let mut r = WgRepair::new(true, None, "wg-quick", "/h/.dcp/wg0.conf");
    expect_finish(r.step(RepairEvent::Ping(true)), "Tunnel is actually up. Pinged 10.8.0.1 successfully.");
}

#[test]
fn repair_fixed_on_first_attempt() {
    let mut r = WgRepair::new(true, Some("/opt/homebrew/bin/bash"), "/opt/homebrew/bin/wg-quick", "/h/.dcp/wg0.conf");
    expect_run(
        r.step(RepairEvent::Ping(false)),
        "sudo /opt/homebrew/bin/bash /opt/homebrew/bin/wg-quick down wg0 2>/dev/null; sleep 1; sudo /opt/homebrew/bin/bash /opt/homebrew/bin/wg-quick up /h/.dcp/wg0.conf",
    );
    assert!(matches!(r.step(RepairEvent::Command(CommandOutcome::Succeeded)), RepairAction::Ping));
    expect_finish(r.step(RepairEvent::Ping(true)), "Tunnel confirmed down. Ran wg-quick down/up. FIXED. Tunnel reconnected.");
}

#[test]
fn repair_second_attempt() {
    let mut r = WgRepair::new(true, None, "/usr/local/bin/wg-quick", "/h/.dcp/wg0.conf");
    expect_run(
        r.step(RepairEvent::Ping(false)),
        "sudo wg-quick down wg0 2>/dev/null; sleep 1; sudo wg-quick up /h/.dcp/wg0.conf",
    );
    assert!(matches!(
        r.step(RepairEvent::Command(CommandOutcome::Failed(" bad \n".to_string()))),
        RepairAction::Ping
    ));
    expect_run(
        r.step(RepairEvent::Ping(false)),
        "sudo /usr/local/bin/wg-quick down wg0 2>/dev/null; sleep 1; sudo /usr/local/bin/wg-quick up /h/.dcp/wg0.conf",
    );
    assert!(matches!(
        r.step(RepairEvent::Command(CommandOutcome::NotRun("denied".to_string()))),
        RepairAction::Ping
    ));
    expect_finish(
        r.step(RepairEvent::Ping(false)),
        "Tunnel confirmed down. wg-quick: bad. wg-quick error: denied. Still down after 2 attempts. May need manual intervention — check wg0.conf and VPS firewall.",
    );
}

#[test]
fn repair_without_configuration_goes_to_second_attempt() {
    let mut r = WgRepair::new(false, None, "wg-quick", "/h/.dcp/wg0.conf");
    expect_run(
        r.step(RepairEvent::Ping(false)),
        "sudo wg-quick down wg0 2>/dev/null; sleep 1; sudo wg-quick up /h/.dcp/wg0.conf",
    );
    assert!(matches!(r.step(RepairEvent::Command(CommandOutcome::Succeeded)), RepairAction::Ping));
    expect_finish(r.step(RepairEvent::Ping(true)), "Tunnel confirmed down. FIXED on second attempt.");
}

#[test]
fn repair_tool_choice_and_engine_repair() {
    assert_eq!(repair_wg_quick(true, true), "/opt/homebrew/bin/wg-quick");
    assert_eq!(repair_wg_quick(false, true), "/usr/local/bin/wg-quick");
    assert_eq!(repair_wg_quick(false, false), "wg-quick");
    assert_eq!(ollama_repair_unneeded(true), Some("Ollama is already running.".to_string()));
    assert_eq!(ollama_repair_unneeded(false), None);
    assert_eq!(ollama_repair_log(true), "Ollama confirmed down. FIXED. Ollama restarted and responding.");
    assert_eq!(ollama_repair_log(false), "Ollama confirmed down. Still down. May need manual check.");
}

#[test]
fn brew_location() {
    assert_eq!(brew_bin(true), "/opt/homebrew/bin/brew");
    assert_eq!(brew_bin(false), "brew");
}

#[test]
fn tools_install_answers() {
    assert_eq!(tools_install_result(ToolsInstaller::Brew, true, "ignored"), Ok(()));
    assert_eq!(
        tools_install_result(ToolsInstaller::Brew, false, "Error: no bottle"),
        Err("brew install wireguard-tools failed: Error: no bottle. Please install WireGuard manually from https://www.wireguard.com/install/".to_string())
    );
    assert_eq!(
        tools_install_result(ToolsInstaller::SilentInstaller, false, ""),
        Err("WireGuard silent install failed. Please install manually from https://www.wireguard.com/install/".to_string())
    );
    assert_eq!(
        tools_install_result(ToolsInstaller::Apt, false, "E: Unable to locate package"),
        Err("apt install wireguard-tools failed: E: Unable to locate package. Please install manually.".to_string())
    );
}

#[test]
fn keys_from_tool_output() {
    assert_eq!(printed_key(true, "  cPrivKey=\n"), Some("cPrivKey=".to_string()));
    assert_eq!(printed_key(true, " \n"), None);
    assert_eq!(printed_key(false, "cPrivKey=\n"), None);
    assert_eq!(
        keypair_result(Some("priv".to_string()), Some("pub".to_string())),
        Ok(("priv".to_string(), "pub".to_string()))
    );
    let missing = "WireGuard tools (wg) not found. Please install WireGuard:\n- macOS: brew install wireguard-tools\n- Linux: sudo apt install wireguard-tools\n- Windows: https://www.wireguard.com/install/".to_string();
    assert_eq!(keypair_result(Some("priv".to_string()), None), Err(missing.clone()));
    assert_eq!(keypair_result(None, None), Err(missing));
}
