use dcp_provider::update::{
    daemon_version_label, fresh_install_decision, no_backup_message, plan_update, rollback_outcome,
    script_version, update_outcome, verify_download, DaemonManifest, UpdatePlan, apply_update,
    rollback, ScriptFiles,
};

const HELLO_SHA256: &str = "2cf24dba5fb0a30e26e83b2ac5b9e29e1b161e5c1fa7425e73043362938b9824";

fn manifest(size: u64, sha: &str) -> DaemonManifest {
    DaemonManifest { version: "3.4.1".to_string(), size, sha256: sha.to_string() }
}

#[test]
fn verified_download_passes() {
    assert_eq!(verify_download(&manifest(5, HELLO_SHA256), b"hello"), Ok(()));
}

#[test]
fn digest_comparison_ignores_ascii_case() {
    let upper = HELLO_SHA256.to_ascii_uppercase();
    assert_eq!(verify_download(&manifest(5, &upper), b"hello"), Ok(()));
}

#[test]
fn size_mismatch_is_refused() {
    let r = verify_download(&manifest(6, HELLO_SHA256), b"hello");
    assert_eq!(
        r,
        Err("Daemon size mismatch: manifest=6 downloaded=5 — refusing to install".to_string())
    );
}

#[test]
fn digest_mismatch_is_refused_with_both_digests() {
    let wrong = "00".repeat(32);
    let r = verify_download(&manifest(5, &wrong), b"hello");
    assert_eq!(
        r,
        Err(format!(
            "Daemon sha256 mismatch: manifest={} downloaded={} — refusing to install",
            wrong, HELLO_SHA256
        ))
    );
}

#[test]
fn digest_is_of_the_bytes_not_the_bytes_themselves() {
    // A manifest quoting the hex of the raw bytes must not pass.
    let raw_hex = "68656c6c6f";
    assert!(verify_download(&manifest(5, raw_hex), b"hello").is_err());
}

#[test]
fn update_plans() {
    let m = manifest(5, HELLO_SHA256);
    assert_eq!(plan_update(&m, b"hello", b"hello"), Ok(UpdatePlan::AlreadyLatest));
    assert_eq!(plan_update(&m, b"hello", b"old script"), Ok(UpdatePlan::Install { back_up: true }));
    assert_eq!(plan_update(&m, b"hello", b""), Ok(UpdatePlan::Install { back_up: false }));
    assert!(plan_update(&m, b"hellO", b"").is_err());
}

#[test]
fn update_answers() {
    assert_eq!(update_outcome("3.4.1", Some(true)), "updated:3.4.1:backed_up");
    assert_eq!(update_outcome("3.4.1", Some(false)), "updated:3.4.1:backup_failed");
    assert_eq!(update_outcome("3.4.1", None), "updated:3.4.1:no_prior");
    assert_eq!(rollback_outcome("3.3.0"), "rolled_back:3.3.0");
    assert_eq!(
        no_backup_message("/home/u/.dcp/dcp_daemon.py.bak"),
        "No backup to roll back to at /home/u/.dcp/dcp_daemon.py.bak"
    );
}

#[test]
fn version_of_restored_script() {
    let script = b"#!/usr/bin/env python3\nimport os\nDAEMON_VERSION = \"3.3.0\"\nOTHER = 1\n";
    assert_eq!(script_version(script), "3.3.0");
    assert_eq!(script_version(b"DAEMON_VERSION='2.0'\n"), "2.0");
    assert_eq!(script_version(b"x = 1\n"), "unknown");
    assert_eq!(script_version(b"# DAEMON_VERSION\n"), "# DAEMON_VERSION");
}

#[test]
fn fresh_install_decisions() {
    let m = manifest(5, HELLO_SHA256);
    assert_eq!(fresh_install_decision(Some(&m), b"hello", true), Ok(true));
    assert!(fresh_install_decision(Some(&m), b"hell", false).is_err());
    assert_eq!(fresh_install_decision(None, b"hello", false), Ok(true));
    assert_eq!(fresh_install_decision(None, b"hello", true), Ok(false));
    assert_eq!(daemon_version_label(Some(&m)), "3.4.1");
    assert_eq!(daemon_version_label(None), "latest");
}

#[test]
fn update_then_rollback_restores_previous_script() {
    let old_script = b"DAEMON_VERSION = \"3.3.0\"\nprint('hi')\n".to_vec();
    let m = manifest(5, HELLO_SHA256);
    let plan = plan_update(&m, b"hello", &old_script).unwrap();
    assert_eq!(plan, UpdatePlan::Install { back_up: true });
    let files = apply_update(plan, ScriptFiles { installed: old_script.clone(), backup: None }, b"hello");
    assert_eq!(files.installed, b"hello".to_vec());
    assert_eq!(files.backup, Some(old_script.clone()));
    let (restored, answer) = rollback(files, "/p/dcp_daemon.py.bak").unwrap();
    assert_eq!(restored.installed, old_script);
    assert_eq!(restored.backup, None);
    assert_eq!(answer, "rolled_back:3.3.0");
    match rollback(restored, "/p/dcp_daemon.py.bak") {
        Err(e) => assert_eq!(e, "No backup to roll back to at /p/dcp_daemon.py.bak"),
        Ok(_) => panic!("a second rollback must be refused"),
    }
}

#[test]
fn first_install_keeps_existing_backup_and_latest_changes_nothing() {
    let files = apply_update(
        UpdatePlan::Install { back_up: false },
        ScriptFiles { installed: vec![], backup: Some(b"old".to_vec()) },
        b"hello",
    );
    assert_eq!(files.installed, b"hello".to_vec());
    assert_eq!(files.backup, Some(b"old".to_vec()));
    let same = apply_update(UpdatePlan::AlreadyLatest, ScriptFiles { installed: b"x".to_vec(), backup: None }, b"x");
    assert_eq!(same.installed, b"x".to_vec());
    assert_eq!(same.backup, None);
    let (_, answer) = rollback(ScriptFiles { installed: vec![], backup: Some(b"no version".to_vec()) }, "b").unwrap();
    assert_eq!(answer, "rolled_back:unknown");
}
