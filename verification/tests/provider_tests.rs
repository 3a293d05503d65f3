use dcp_provider::json::{JsonMember, JsonNumber, JsonValue};
use dcp_provider::provider::{
    api_key_format_ok, api_key_from_config, api_status_error, config_field, config_saved_message,
    dashboard_data, dashboard_fields, is_http_success, job_entry, metrics_counts, metrics_data,
    recent_jobs, require_api_key, saved_config, toggle_notice, validation_verdict,
    window_resizable, ProviderToggle,
};

fn obj(members: Vec<(&str, JsonValue)>) -> JsonValue {
    JsonValue::Object(
        members
            .into_iter()
            .map(|(k, v)| JsonMember { key: k.to_string(), value: v })
            .collect(),
    )
}

fn s(v: &str) -> JsonValue {
    JsonValue::Str(v.to_string())
}

fn num(v: i64) -> JsonValue {
    JsonValue::Number(JsonNumber {
        as_i64: Some(v),
        as_u64: if v >= 0 { Some(v as u64) } else { None },
    })
}

fn big(v: u64) -> JsonValue {
    JsonValue::Number(JsonNumber { as_i64: None, as_u64: Some(v) })
}

#[test]
fn key_format() {
    assert!(api_key_format_ok("dcp-provider-abcdefgh"));
    assert!(!api_key_format_ok("dcp-provider-abcdefg"));
    assert!(!api_key_format_ok("dcp-consumer-abcdefghijk"));
    assert!(!api_key_format_ok(""));
    // The length counts bytes: two-byte characters make a short key long enough.
    assert!(api_key_format_ok("dcp-provider-éééé"));
}

#[test]
fn validation_answers() {
    assert_eq!(validation_verdict(Some(200), "200 OK"), Ok(true));
    assert_eq!(validation_verdict(None, ""), Ok(true));
    assert_eq!(
        validation_verdict(Some(401), "401 Unauthorized"),
        Err("API key rejected by server: HTTP 401 Unauthorized".to_string())
    );
    assert!(is_http_success(204));
    assert!(!is_http_success(300));
    assert!(!is_http_success(199));
}

#[test]
fn saving_needs_a_key() {
    assert_eq!(require_api_key(""), Err("API key is required".to_string()));
    assert_eq!(require_api_key("k"), Ok(()));
    assert_eq!(
        config_saved_message("/home/u/.dcp/config.json"),
        "Configuration saved to /home/u/.dcp/config.json. Daemon ready to start."
    );
    assert_eq!(api_status_error("500 Internal Server Error"), "API returned status 500 Internal Server Error");
}

#[test]
fn saved_config_defaults() {
    let c = saved_config(&obj(vec![]));
    assert_eq!(c.api_key, "");
    assert_eq!(c.run_mode, "idle");
    assert_eq!(c.gpu_usage_cap, 80);
    assert_eq!(c.temp_limit, 85);
    assert!(c.start_on_boot);
    assert_eq!(c.served_model, "");
}

#[test]
fn saved_config_values_and_truncation() {
    let c = saved_config(&obj(vec![
        ("api_key", s("dcp-provider-xyz")),
        ("run_mode", s("always")),
        ("gpu_usage_cap", num(95)),
        ("temp_limit", big(4_294_967_296 + 70)),
        ("start_on_boot", JsonValue::Bool(false)),
        ("served_model", s("qwen3:8b")),
    ]));
    assert_eq!(c.api_key, "dcp-provider-xyz");
    assert_eq!(c.run_mode, "always");
    assert_eq!(c.gpu_usage_cap, 95);
    assert_eq!(c.temp_limit, 70);
    assert!(!c.start_on_boot);
    assert_eq!(c.served_model, "qwen3:8b");
}

#[test]
fn key_from_config() {
    assert_eq!(api_key_from_config(&obj(vec![("api_key", s("k9"))])), Ok("k9".to_string()));
    assert_eq!(
        api_key_from_config(&obj(vec![("api_key", s(""))])),
        Err("api_key missing from config.json".to_string())
    );
    assert_eq!(
        api_key_from_config(&obj(vec![("api_key", num(3))])),
        Err("api_key missing from config.json".to_string())
    );
    assert_eq!(config_field(&obj(vec![("run_mode", s("paused"))]), "run_mode"), Some("paused".to_string()));
    assert_eq!(config_field(&obj(vec![]), "run_mode"), None);
}

#[test]
fn dashboard_section_choice() {
    let nested = obj(vec![("provider", obj(vec![("id", num(7)), ("name", s("rig"))])), ("data", obj(vec![]))]);
    let d = dashboard_fields(dashboard_data(&nested));
    assert_eq!(d.provider_id, 7);
    assert_eq!(d.name, "rig");
    assert_eq!(d.status, "unknown");
    let data = obj(vec![("data", obj(vec![("provider_id", num(8)), ("total_earnings_halala", num(1500))]))]);
    let d2 = dashboard_fields(dashboard_data(&data));
    assert_eq!(d2.provider_id, 8);
    assert_eq!(d2.claimable_earnings_halala, 1500);
    let root = obj(vec![("status", s("online")), ("claimable_earnings_halala", num(20)), ("total_earnings_halala", num(99))]);
    let d3 = dashboard_fields(dashboard_data(&root));
    assert_eq!(d3.status, "online");
    assert_eq!(d3.claimable_earnings_halala, 20);
    assert_eq!(d3.provider_id, 0);
}

#[test]
fn metrics_section_choice() {
    let body = obj(vec![("data", obj(vec![("jobs_completed", num(12)), ("jobs_failed", num(1))]))]);
    let m = metrics_counts(metrics_data(&body));
    assert_eq!(m.jobs_completed, 12);
    assert_eq!(m.jobs_failed, 1);
    assert_eq!(m.earnings_halala, 0);
}

#[test]
fn job_fallbacks() {
    let j = obj(vec![
        ("id", s("job-1")),
        ("submitted_at", s("2025-01-01T00:00:00Z")),
        ("earned_halala", num(42)),
        ("prompt_tokens", num(10)),
    ]);
    let e = job_entry(&j);
    assert_eq!(e.job_id, "job-1");
    assert_eq!(e.model, "unknown");
    assert_eq!(e.status, "unknown");
    assert_eq!(e.created_at, "2025-01-01T00:00:00Z");
    assert_eq!(e.completed_at, "");
    assert_eq!(e.provider_earned_halala, 42);
    assert_eq!(e.prompt_tokens, 10);
    assert_eq!(e.completion_tokens, 0);
    assert_eq!(e.duration_seconds, 0);
}

#[test]
fn job_lists_in_order() {
    let body = obj(vec![
        ("recent_jobs", s("not a list")),
        ("data", JsonValue::Array(vec![obj(vec![("job_id", s("a"))]), obj(vec![("job_id", s("b"))])])),
        ("jobs", JsonValue::Array(vec![obj(vec![("job_id", s("c"))])])),
    ]);
    let jobs = recent_jobs(&body);
    assert_eq!(jobs.len(), 2);
    assert_eq!(jobs[0].job_id, "a");
    assert_eq!(jobs[1].job_id, "b");
    let bare = JsonValue::Array(vec![obj(vec![("job_id", s("z")), ("provider_earned_halala", num(5)), ("earnings_halala", num(6))])]);
    let jobs2 = recent_jobs(&bare);
    assert_eq!(jobs2[0].job_id, "z");
    assert_eq!(jobs2[0].provider_earned_halala, 5);
    assert!(recent_jobs(&obj(vec![])).is_empty());
}

#[test]
fn tray_notices() {
    let (t, b) = toggle_notice(ProviderToggle::Pause, None, None);
    assert_eq!(t, "DCP Provider paused");
    assert_eq!(b, "You will not receive new jobs until you resume.");
    let (t, b) = toggle_notice(ProviderToggle::Resume, None, Some("Network error: x"));
    assert_eq!(t, "DCP resume failed");
    assert_eq!(b, "Could not resume: Network error: x");
    let (t, b) = toggle_notice(ProviderToggle::Pause, Some("no file"), Some("ignored"));
    assert_eq!(t, "DCP pause failed");
    assert_eq!(b, "Config unreadable: no file");
    let (t, b) = toggle_notice(ProviderToggle::Resume, None, None);
    assert_eq!(t, "DCP Provider resumed");
    assert_eq!(b, "Now accepting jobs again.");
}

#[test]
fn panel_resizing() {
    assert!(window_resizable(600));
    assert!(!window_resizable(100));
    assert!(!window_resizable(48));
}

#[test]
fn saved_configuration_reads_back() {
    let cfg = dcp_provider::types::DaemonConfig {
        run_mode: "always".to_string(),
        gpu_usage_cap: 90,
        temp_limit: 75,
        start_on_boot: false,
    };
    let doc = dcp_provider::provider::config_document("dcp-provider-abcdefghijk", &cfg);
    let c = saved_config(&doc);
    assert_eq!(c.api_key, "dcp-provider-abcdefghijk");
    assert_eq!(c.run_mode, "always");
    assert_eq!(c.gpu_usage_cap, 90);
    assert_eq!(c.temp_limit, 75);
    assert!(!c.start_on_boot);
    assert_eq!(c.served_model, "");
}
