//! The provider account as the agent sees it: the API-key format and the
//! answer to its validation, the saved configuration, and what the backend's
//! dashboard, metrics and job listings are read as.

use vstd::prelude::*;
use crate::json::{
    bool_field, i64_field, json_array, json_get, json_index, member_lookup, str_field,
    string_opt_view, u64_field, JsonMember, JsonNumber, JsonValue,
};
use crate::text::{
    chars_of, err_is, or_empty, or_text, owned, push_str, starts_with, starts_with_in, string_of,
    views,
};
use crate::types::{DaemonConfig, JobEntry, SavedConfig};

verus! {

// ---------------------------------------------------------------------------
// API keys
// ---------------------------------------------------------------------------

/// A provider key starts `dcp-provider-` and is longer than 20 bytes.
pub open spec fn key_format_ok(key: Seq<char>) -> bool {
    &&& starts_with(key, "dcp-provider-"@)
    &&& vstd::utf8::encode_utf8(key).len() as usize > 20
}

/// The format check made before any request.
pub fn api_key_format_ok(key: &str) -> (r: bool)
    ensures
        r == key_format_ok(key@),
{
    let cs = chars_of(key);
    let p = chars_of("dcp-provider-");
    assert(cs@.subrange(0, cs@.len() as int) =~= key@);
    starts_with_in(cs.as_slice(), 0, cs.len(), p.as_slice()) && key.len() > 20
}

/// `StatusCode::is_success`: 200 to 299.
pub open spec fn http_success(code: u16) -> bool {
    200 <= code <= 299
}

pub fn is_http_success(code: u16) -> (r: bool)
    ensures
        r == http_success(code),
{
    200 <= code && code <= 299
}

/// The validation of a well-formed key by the backend: accepted on success,
/// rejected with the status on another answer, and accepted when the
/// backend cannot be reached (`reply` is `None`; the agent then works
/// offline). `status_text` is the status as the HTTP client displays it.
pub fn validation_verdict(reply: Option<u16>, status_text: &str) -> (r: Result<bool, String>)
    ensures
        reply is None ==> r == Ok::<bool, String>(true),
        reply matches Some(c) ==> (http_success(c) ==> r == Ok::<bool, String>(true)),
        reply matches Some(c) ==> (!http_success(c) ==> err_is(
            r,
            "API key rejected by server: HTTP "@ + status_text@,
        )),
{
    match reply {
        Some(c) => if is_http_success(c) {
            Ok(true)
        } else {
            let mut e: Vec<char> = Vec::new();
            push_str(&mut e, "API key rejected by server: HTTP ");
            push_str(&mut e, status_text);
            Err(string_of(e.as_slice()))
        },
        None => Ok(true),
    }
}

/// Saving the wizard's configuration needs a key.
pub fn require_api_key(api_key: &str) -> (r: Result<(), String>)
    ensures
        api_key@.len() == 0 ==> err_is(r, "API key is required"@),
        api_key@.len() > 0 ==> r is Ok,
{
    if api_key.is_empty() {
        Err(owned("API key is required"))
    } else {
        Ok(())
    }
}

/// The answer once the configuration is written to `config_path`.
pub fn config_saved_message(config_path: &str) -> (r: String)
    ensures
        r@ == "Configuration saved to "@ + config_path@ + ". Daemon ready to start."@,
{
    let mut e: Vec<char> = Vec::new();
    push_str(&mut e, "Configuration saved to ");
    push_str(&mut e, config_path);
    push_str(&mut e, ". Daemon ready to start.");
    string_of(e.as_slice())
}

/// The error of a backend call answered with an unsuccessful status.
pub fn api_status_error(status_text: &str) -> (r: String)
    ensures
        r@ == "API returned status "@ + status_text@,
{
    let mut e: Vec<char> = Vec::new();
    push_str(&mut e, "API returned status ");
    push_str(&mut e, status_text);
    string_of(e.as_slice())
}

// ---------------------------------------------------------------------------
// Saved configuration
// ---------------------------------------------------------------------------

pub open spec fn u64_or(o: Option<u64>, d: u64) -> u64 {
    match o {
        Some(v) => v,
        None => d,
    }
}

/// The saved configuration with its defaults: run mode `idle`, usage cap
/// 80, temperature limit 85, start on boot. The two numbers are truncated
/// to 32 bits as `as u32` does.
pub open spec fn saved_config_of(json: JsonValue, c: SavedConfig) -> bool {
    &&& c.api_key@ == or_empty(str_field(json, "api_key"@))
    &&& c.run_mode@ == or_text(str_field(json, "run_mode"@), "idle"@)
    &&& c.gpu_usage_cap == u64_or(u64_field(json, "gpu_usage_cap"@), 80) as u32
    &&& c.temp_limit == u64_or(u64_field(json, "temp_limit"@), 85) as u32
    &&& c.start_on_boot == match bool_field(json, "start_on_boot"@) {
        Some(b) => b,
        None => true,
    }
    &&& c.served_model@ == or_empty(str_field(json, "served_model"@))
}

fn field_or(json: &JsonValue, key: &str, d: &str) -> (r: String)
    ensures
        r@ == or_text(str_field(*json, key@), d@),
{
    match json.str_field(key) {
        Some(s) => s,
        None => owned(d),
    }
}

fn field_or_empty(json: &JsonValue, key: &str) -> (r: String)
    ensures
        r@ == or_empty(str_field(*json, key@)),
{
    match json.str_field(key) {
        Some(s) => s,
        None => String::new(),
    }
}

/// Reads the saved configuration file's document.
pub fn saved_config(json: &JsonValue) -> (c: SavedConfig)
    ensures
        saved_config_of(*json, c),
{
    let cap = match json.u64_field("gpu_usage_cap") {
        Some(v) => v,
        None => 80,
    };
    let temp = match json.u64_field("temp_limit") {
        Some(v) => v,
        None => 85,
    };
    SavedConfig {
        api_key: field_or_empty(json, "api_key"),
        run_mode: field_or(json, "run_mode", "idle"),
        gpu_usage_cap: cap as u32,
        temp_limit: temp as u32,
        start_on_boot: match json.bool_field("start_on_boot") {
            Some(b) => b,
            None => true,
        },
        served_model: field_or_empty(json, "served_model"),
    }
}

/// `doc` holds the provider key and the wizard's settings under the keys
/// the configuration file uses, and no served model yet.
pub open spec fn is_config_document(doc: JsonValue, api_key: Seq<char>, cfg: DaemonConfig) -> bool {
    &&& str_field(doc, "api_key"@) == Some(api_key)
    &&& str_field(doc, "run_mode"@) == Some(cfg.run_mode@)
    &&& u64_field(doc, "gpu_usage_cap"@) == Some(cfg.gpu_usage_cap as u64)
    &&& u64_field(doc, "temp_limit"@) == Some(cfg.temp_limit as u64)
    &&& bool_field(doc, "start_on_boot"@) == Some(cfg.start_on_boot)
    &&& str_field(doc, "served_model"@) is None
}

fn member(key: &str, value: JsonValue) -> (m: JsonMember)
    ensures
        m.key@ == key@,
        m.value == value,
{
    JsonMember { key: owned(key), value }
}

fn number(v: u32) -> (r: JsonValue)
    ensures
        r == JsonValue::Number(JsonNumber { as_i64: Some(v as i64), as_u64: Some(v as u64) }),
{
    JsonValue::Number(JsonNumber { as_i64: Some(v as i64), as_u64: Some(v as u64) })
}

/// The configuration document the wizard saves for `api_key` and its
/// settings.
pub fn config_document(api_key: &str, cfg: &DaemonConfig) -> (doc: JsonValue)
    ensures
        is_config_document(doc, api_key@, *cfg),
{
    let mut ms: Vec<JsonMember> = Vec::new();
    ms.push(member("api_key", JsonValue::Str(owned(api_key))));
    ms.push(member("run_mode", JsonValue::Str(cfg.run_mode.clone())));
    ms.push(member("gpu_usage_cap", number(cfg.gpu_usage_cap)));
    ms.push(member("temp_limit", number(cfg.temp_limit)));
    ms.push(member("start_on_boot", JsonValue::Bool(cfg.start_on_boot)));
    proof {
        reveal_strlit("api_key");
        reveal_strlit("run_mode");
        reveal_strlit("gpu_usage_cap");
        reveal_strlit("temp_limit");
        reveal_strlit("start_on_boot");
        reveal_strlit("served_model");
        reveal_with_fuel(member_lookup, 6);
        let m = ms@;
        assert(m.drop_first() =~= seq![m[1], m[2], m[3], m[4]]);
        assert(m.drop_first().drop_first() =~= seq![m[2], m[3], m[4]]);
        assert(m.drop_first().drop_first().drop_first() =~= seq![m[3], m[4]]);
        assert(m.drop_first().drop_first().drop_first().drop_first() =~= seq![m[4]]);
        assert(m.drop_first().drop_first().drop_first().drop_first().drop_first() =~= Seq::<JsonMember>::empty());
        assert("run_mode"@ != "api_key"@ && "served_model"@ != "api_key"@ && "served_model"@ != "run_mode"@) by {
            assert("run_mode"@[0] != "api_key"@[0]);
            assert("served_model"@[0] != "api_key"@[0]);
            assert("served_model"@[0] != "run_mode"@[0]);
        }
        assert("gpu_usage_cap"@[0] != "api_key"@[0] && "gpu_usage_cap"@[0] != "run_mode"@[0]);
        assert("temp_limit"@[0] != "api_key"@[0] && "temp_limit"@[0] != "run_mode"@[0]
            && "temp_limit"@[0] != "gpu_usage_cap"@[0]);
        assert("start_on_boot"@[0] != "api_key"@[0] && "start_on_boot"@[0] != "run_mode"@[0]
            && "start_on_boot"@[0] != "gpu_usage_cap"@[0] && "start_on_boot"@[0] != "temp_limit"@[0]);
        assert("served_model"@[0] != "gpu_usage_cap"@[0] && "served_model"@[0] != "temp_limit"@[0]
            && "served_model"@[1] != "start_on_boot"@[1]);
    }
    JsonValue::Object(ms)
}

/// A saved configuration reads back unchanged: the configuration read from
/// the document the wizard saves has the key and settings it was saved with,
/// and no served model.
pub proof fn lemma_saved_config_reads_back(
    api_key: Seq<char>,
    cfg: DaemonConfig,
    doc: JsonValue,
    c: SavedConfig,
)
    requires
        is_config_document(doc, api_key, cfg),
        saved_config_of(doc, c),
    ensures
        c.api_key@ == api_key,
        c.run_mode@ == cfg.run_mode@,
        c.gpu_usage_cap == cfg.gpu_usage_cap,
        c.temp_limit == cfg.temp_limit,
        c.start_on_boot == cfg.start_on_boot,
        c.served_model@ == Seq::<char>::empty(),
{
}

/// The provider key in the saved configuration; an absent or empty key is
/// an error.
pub fn api_key_from_config(json: &JsonValue) -> (r: Result<String, String>)
    ensures
        or_empty(str_field(*json, "api_key"@)).len() == 0 ==> err_is(
            r,
            "api_key missing from config.json"@,
        ),
        or_empty(str_field(*json, "api_key"@)).len() > 0 ==> (r matches Ok(k) && k@ == or_empty(
            str_field(*json, "api_key"@),
        )),
{
    let key = field_or_empty(json, "api_key");
    if key.as_str().is_empty() {
        Err(owned("api_key missing from config.json"))
    } else {
        Ok(key)
    }
}

/// One string field of the saved configuration.
pub fn config_field(json: &JsonValue, field: &str) -> (r: Option<String>)
    ensures
        string_opt_view(r) == str_field(*json, field@),
{
    json.str_field(field)
}

// ---------------------------------------------------------------------------
// Dashboard, metrics, jobs
// ---------------------------------------------------------------------------

/// The part of the `/me` answer that describes the provider: its
/// `provider` member, else its `data` member, else the whole answer.
pub open spec fn dashboard_section(body: JsonValue) -> JsonValue {
    if json_get(body, "provider"@) is Some {
        json_index(body, "provider"@)
    } else if json_get(body, "data"@) is Some {
        json_index(body, "data"@)
    } else {
        body
    }
}

pub fn dashboard_data(body: &JsonValue) -> (r: &JsonValue)
    ensures
        *r == dashboard_section(*body),
{
    match body.get("provider") {
        Some(p) => p,
        None => match body.get("data") {
            Some(d) => d,
            None => body,
        },
    }
}

/// The dashboard figures that are counts and labels (the amounts in SAR
/// and the memory size are computed by the shell).
#[derive(Clone, Debug, PartialEq, Eq)]
pub struct DashboardFields {
    pub provider_id: i64,
    pub name: String,
    pub status: String,
    pub gpu_model: String,
    pub total_jobs: i64,
    pub claimable_earnings_halala: i64,
    pub today_earnings_halala: i64,
    pub week_earnings_halala: i64,
    pub daemon_version: String,
    pub last_heartbeat: String,
    pub approval_status: String,
}

pub open spec fn i64_or(o: Option<i64>, d: i64) -> i64 {
    match o {
        Some(v) => v,
        None => d,
    }
}

/// The first of two integer fields present, else 0.
pub open spec fn i64_first(data: JsonValue, a: Seq<char>, b: Seq<char>) -> i64 {
    match i64_field(data, a) {
        Some(v) => v,
        None => i64_or(i64_field(data, b), 0),
    }
}

pub open spec fn dashboard_fields_of(data: JsonValue, f: DashboardFields) -> bool {
    &&& f.provider_id == i64_first(data, "id"@, "provider_id"@)
    &&& f.name@ == or_empty(str_field(data, "name"@))
    &&& f.status@ == or_text(str_field(data, "status"@), "unknown"@)
    &&& f.gpu_model@ == or_empty(str_field(data, "gpu_model"@))
    &&& f.total_jobs == i64_or(i64_field(data, "total_jobs"@), 0)
    &&& f.claimable_earnings_halala == i64_first(
        data,
        "claimable_earnings_halala"@,
        "total_earnings_halala"@,
    )
    &&& f.today_earnings_halala == i64_or(i64_field(data, "today_earnings_halala"@), 0)
    &&& f.week_earnings_halala == i64_or(i64_field(data, "week_earnings_halala"@), 0)
    &&& f.daemon_version@ == or_empty(str_field(data, "daemon_version"@))
    &&& f.last_heartbeat@ == or_empty(str_field(data, "last_heartbeat"@))
    &&& f.approval_status@ == or_empty(str_field(data, "approval_status"@))
}

fn int_or_zero(data: &JsonValue, key: &str) -> (r: i64)
    ensures
        r == i64_or(i64_field(*data, key@), 0),
{
    match data.i64_field(key) {
        Some(v) => v,
        None => 0,
    }
}

fn int_first(data: &JsonValue, a: &str, b: &str) -> (r: i64)
    ensures
        r == i64_first(*data, a@, b@),
{
    match data.i64_field(a) {
        Some(v) => v,
        None => int_or_zero(data, b),
    }
}

/// Reads the dashboard figures from the provider section.
pub fn dashboard_fields(data: &JsonValue) -> (f: DashboardFields)
    ensures
        dashboard_fields_of(*data, f),
{
    DashboardFields {
        provider_id: int_first(data, "id", "provider_id"),
        name: field_or_empty(data, "name"),
        status: field_or(data, "status", "unknown"),
        gpu_model: field_or_empty(data, "gpu_model"),
        total_jobs: int_or_zero(data, "total_jobs"),
        claimable_earnings_halala: int_first(
            data,
            "claimable_earnings_halala",
            "total_earnings_halala",
        ),
        today_earnings_halala: int_or_zero(data, "today_earnings_halala"),
        week_earnings_halala: int_or_zero(data, "week_earnings_halala"),
        daemon_version: field_or_empty(data, "daemon_version"),
        last_heartbeat: field_or_empty(data, "last_heartbeat"),
        approval_status: field_or_empty(data, "approval_status"),
    }
}

/// The part of the metrics answer with the figures: `data`, else the whole.
pub open spec fn metrics_section(body: JsonValue) -> JsonValue {
    if json_get(body, "data"@) is Some {
        json_index(body, "data"@)
    } else {
        body
    }
}

pub fn metrics_data(body: &JsonValue) -> (r: &JsonValue)
    ensures
        *r == metrics_section(*body),
{
    match body.get("data") {
        Some(d) => d,
        None => body,
    }
}

/// The metrics that are counts (compute minutes and SAR amounts are
/// computed by the shell).
#[derive(Clone, Copy, Debug, PartialEq, Eq)]
pub struct MetricsCounts {
    pub jobs_completed: i64,
    pub jobs_failed: i64,
    pub earnings_halala: i64,
}

pub fn metrics_counts(data: &JsonValue) -> (m: MetricsCounts)
    ensures
        m.jobs_completed == i64_or(i64_field(*data, "jobs_completed"@), 0),
        m.jobs_failed == i64_or(i64_field(*data, "jobs_failed"@), 0),
        m.earnings_halala == i64_or(i64_field(*data, "earnings_halala"@), 0),
{
    MetricsCounts {
        jobs_completed: int_or_zero(data, "jobs_completed"),
        jobs_failed: int_or_zero(data, "jobs_failed"),
        earnings_halala: int_or_zero(data, "earnings_halala"),
    }
}

/// The job records in the `/me` answer: its `recent_jobs` array, else its
/// `data` array, else its `jobs` array, else the answer itself when it is
/// an array, else none.
pub open spec fn job_records(body: JsonValue) -> Seq<JsonValue> {
    let pick = |k: Seq<char>|
        match json_get(body, k) {
            Some(v) => json_array(v),
            None => None,
        };
    match pick("recent_jobs"@) {
        Some(a) => a,
        None => match pick("data"@) {
            Some(a) => a,
            None => match pick("jobs"@) {
                Some(a) => a,
                None => match json_array(body) {
                    Some(a) => a,
                    None => Seq::empty(),
                },
            },
        },
    }
}

/// The first of two text fields present, else `d`.
pub open spec fn str_first(j: JsonValue, a: Seq<char>, b: Seq<char>, d: Seq<char>) -> Seq<char> {
    match str_field(j, a) {
        Some(v) => v,
        None => or_text(str_field(j, b), d),
    }
}

/// A job record as the dashboard lists it.
pub open spec fn job_entry_of(j: JsonValue, e: JobEntry) -> bool {
    &&& e.job_id@ == str_first(j, "job_id"@, "id"@, Seq::empty())
    &&& e.model@ == or_text(str_field(j, "model"@), "unknown"@)
    &&& e.status@ == or_text(str_field(j, "status"@), "unknown"@)
    &&& e.created_at@ == str_first(j, "created_at"@, "submitted_at"@, Seq::empty())
    &&& e.completed_at@ == or_empty(str_field(j, "completed_at"@))
    &&& e.provider_earned_halala == match i64_field(j, "provider_earned_halala"@) {
        Some(v) => v,
        None => i64_first(j, "earnings_halala"@, "earned_halala"@),
    }
    &&& e.prompt_tokens == i64_or(i64_field(j, "prompt_tokens"@), 0)
    &&& e.completion_tokens == i64_or(i64_field(j, "completion_tokens"@), 0)
    &&& e.duration_seconds == i64_or(i64_field(j, "duration_seconds"@), 0)
}

fn text_first(j: &JsonValue, a: &str, b: &str, d: &str) -> (r: String)
    ensures
        r@ == str_first(*j, a@, b@, d@),
{
    match j.str_field(a) {
        Some(v) => v,
        None => field_or(j, b, d),
    }
}

/// Reads one job record.
pub fn job_entry(j: &JsonValue) -> (e: JobEntry)
    ensures
        job_entry_of(*j, e),
{
    let empty = "";
    proof {
        reveal_strlit("");
    }
    assert(empty@ =~= Seq::<char>::empty());
    JobEntry {
        job_id: text_first(j, "job_id", "id", empty),
        model: field_or(j, "model", "unknown"),
        status: field_or(j, "status", "unknown"),
        created_at: text_first(j, "created_at", "submitted_at", empty),
        completed_at: field_or_empty(j, "completed_at"),
        provider_earned_halala: match j.i64_field("provider_earned_halala") {
            Some(v) => v,
            None => int_first(j, "earnings_halala", "earned_halala"),
        },
        prompt_tokens: int_or_zero(j, "prompt_tokens"),
        completion_tokens: int_or_zero(j, "completion_tokens"),
        duration_seconds: int_or_zero(j, "duration_seconds"),
    }
}

fn array_member<'a>(body: &'a JsonValue, key: &str) -> (r: Option<&'a Vec<JsonValue>>)
    ensures
        r matches Some(a) ==> (match json_get(*body, key@) {
            Some(v) => json_array(v),
            None => None,
        }) == Some(a@),
        r is None ==> (match json_get(*body, key@) {
            Some(v) => json_array(v),
            None => None,
        }) is None,
{
    match body.get(key) {
        Some(JsonValue::Array(a)) => Some(a),
        _ => None,
    }
}

fn entries_of(records: &Vec<JsonValue>) -> (r: Vec<JobEntry>)
    ensures
        r@.len() == records@.len(),
        forall|i: int| 0 <= i < r@.len() ==> job_entry_of(records@[i], #[trigger] r@[i]),
{
    let mut r: Vec<JobEntry> = Vec::new();
    let mut i: usize = 0;
    while i < records.len()
        invariant
            i <= records@.len(),
            r@.len() == i,
            forall|k: int| 0 <= k < i ==> job_entry_of(records@[k], #[trigger] r@[k]),
        decreases records@.len() - i,
    {
        let e = job_entry(&records[i]);
        r.push(e);
        i += 1;
    }
    r
}

/// The recent jobs of the `/me` answer, in the order it lists them.
pub fn recent_jobs(body: &JsonValue) -> (r: Vec<JobEntry>)
    ensures
        r@.len() == job_records(*body).len(),
        forall|i: int| 0 <= i < r@.len() ==> job_entry_of(job_records(*body)[i], #[trigger] r@[i]),
{
    match array_member(body, "recent_jobs") {
        Some(a) => entries_of(a),
        None => match array_member(body, "data") {
            Some(a) => entries_of(a),
            None => match array_member(body, "jobs") {
                Some(a) => entries_of(a),
                None => match body {
                    JsonValue::Array(a) => entries_of(a),
                    _ => Vec::new(),
                },
            },
        },
    }
}

// ---------------------------------------------------------------------------
// Tray commands and window
// ---------------------------------------------------------------------------

/// The two provider toggles of the tray menu.
#[derive(Clone, Copy, Debug, PartialEq, Eq)]
pub enum ProviderToggle {
    Pause,
    Resume,
}

/// The notification shown after a toggle from the tray: the configuration
/// could not be read (`config_error`), the backend refused or could not be
/// reached (`request_error`), or it worked.
pub fn toggle_notice(toggle: ProviderToggle, config_error: Option<&str>, request_error: Option<
    &str,
>) -> (r: (String, String))
    ensures
        ({
            let failed = if toggle == ProviderToggle::Pause {
                "DCP pause failed"@
            } else {
                "DCP resume failed"@
            };
            &&& config_error matches Some(e) ==> r.0@ == failed && r.1@ == "Config unreadable: "@
                + e@
            &&& config_error is None ==> (request_error matches Some(e) ==> r.0@ == failed && r.1@
                == (if toggle == ProviderToggle::Pause {
                "Could not pause: "@
            } else {
                "Could not resume: "@
            }) + e@)
            &&& (config_error is None && request_error is None) ==> (if toggle
                == ProviderToggle::Pause {
                r.0@ == "DCP Provider paused"@ && r.1@
                    == "You will not receive new jobs until you resume."@
            } else {
                r.0@ == "DCP Provider resumed"@ && r.1@ == "Now accepting jobs again."@
            })
        }),
{
    let pause = match toggle {
        ProviderToggle::Pause => true,
        ProviderToggle::Resume => false,
    };
    let failed = if pause {
        "DCP pause failed"
    } else {
        "DCP resume failed"
    };
    match config_error {
        Some(e) => {
            let mut b: Vec<char> = Vec::new();
            push_str(&mut b, "Config unreadable: ");
            push_str(&mut b, e);
            (owned(failed), string_of(b.as_slice()))
        },
        None => match request_error {
            Some(e) => {
                let mut b: Vec<char> = Vec::new();
                if pause {
                    push_str(&mut b, "Could not pause: ");
                } else {
                    push_str(&mut b, "Could not resume: ");
                }
                push_str(&mut b, e);
                (owned(failed), string_of(b.as_slice()))
            },
            None => if pause {
                (
                    owned("DCP Provider paused"),
                    owned("You will not receive new jobs until you resume."),
                )
            } else {
                (owned("DCP Provider resumed"), owned("Now accepting jobs again."))
            },
        },
    }
}

/// The agent panel can be resized once it is expanded past 100 pixels.
pub fn window_resizable(height: u32) -> (r: bool)
    ensures
        r == (height > 100),
{
    height > 100
}

/// Each dashboard figure is read from the backend field of the same name:
/// the provider id from `id` (else `provider_id`), the claimable earnings
/// from `claimable_earnings_halala` (else `total_earnings_halala`), the
/// other counts from their own keys, each 0 when absent.
pub proof fn lemma_dashboard_figures_by_key(data: JsonValue, f: DashboardFields)
    requires
        dashboard_fields_of(data, f),
    ensures
        f.today_earnings_halala == i64_or(i64_field(data, "today_earnings_halala"@), 0),
        f.week_earnings_halala == i64_or(i64_field(data, "week_earnings_halala"@), 0),
        f.total_jobs == i64_or(i64_field(data, "total_jobs"@), 0),
        i64_field(data, "claimable_earnings_halala"@) matches Some(v) ==> f.claimable_earnings_halala
            == v,
        i64_field(data, "claimable_earnings_halala"@) is None ==> f.claimable_earnings_halala
            == i64_or(i64_field(data, "total_earnings_halala"@), 0),
        i64_field(data, "id"@) matches Some(v) ==> f.provider_id == v,
        i64_field(data, "id"@) is None ==> f.provider_id == i64_or(i64_field(data, "provider_id"@), 0),
        f.name@ == or_empty(str_field(data, "name"@)),
        f.gpu_model@ == or_empty(str_field(data, "gpu_model"@)),
        f.daemon_version@ == or_empty(str_field(data, "daemon_version"@)),
        f.last_heartbeat@ == or_empty(str_field(data, "last_heartbeat"@)),
        f.approval_status@ == or_empty(str_field(data, "approval_status"@)),
        f.status@ == or_text(str_field(data, "status"@), "unknown"@),
{
}

} // verus!
