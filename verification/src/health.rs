//! The provider health report: one check per prerequisite of a working
//! provider, each decided from what the shell observed on the machine, and
//! the overall verdict drawn from them.

use vstd::prelude::*;
use crate::text::{
    chars_of, contains, contains_in, decimal, eq_str, first_span_starting_with, first_where, starts_pred,
    line_spans, lines, opt_ref_view, opt_str_view, owned, parse_u64, parse_u64_spec, piece,
    pieces, push_decimal, push_range, push_str, starts_with, string_of, trim, trim_end_char,
    trim_end_char_at, trim_span, trimmed, word_spans, words,
};
use crate::types::{HealthCheck, HealthReport};

verus! {

/// `h` is the check named `name` with the given status, message and fix.
pub open spec fn is_check(
    h: HealthCheck,
    name: Seq<char>,
    status: Seq<char>,
    message: Seq<char>,
    can_auto_fix: bool,
    fix_action: Option<Seq<char>>,
) -> bool {
    &&& h.name@ == name
    &&& h.status@ == status
    &&& h.message@ == message
    &&& h.can_auto_fix == can_auto_fix
    &&& opt_str_view(h.fix_action) == fix_action
}

pub fn make_check(
    name: &str,
    status: &str,
    message: String,
    can_auto_fix: bool,
    fix_action: Option<&str>,
) -> (h: HealthCheck)
    ensures
        is_check(h, name@, status@, message@, can_auto_fix, opt_ref_view(fix_action)),
{
    HealthCheck {
        name: owned(name),
        status: owned(status),
        message,
        can_auto_fix,
        fix_action: match fix_action {
            Some(f) => Some(owned(f)),
            None => None,
        },
    }
}

/// The fixes the agent can apply by itself.
pub open spec fn known_fix(f: Seq<char>) -> bool {
    ||| f == "install_drivers"@
    ||| f == "download_daemon"@
    ||| f == "install_engine"@
    ||| f == "download_model"@
    ||| f == "start_daemon"@
}

/// A check names a fix only when it is one the agent knows, the check can
/// be fixed automatically, and its status is not `ok`.
pub open spec fn fix_consistent(h: HealthCheck) -> bool {
    match opt_str_view(h.fix_action) {
        Some(f) => h.can_auto_fix && h.status@ != "ok"@ && known_fix(f),
        None => true,
    }
}

proof fn lemma_status_words()
    ensures
        "error"@ != "ok"@,
        "warning"@ != "ok"@,
{
    reveal_strlit("error");
    reveal_strlit("warning");
    reveal_strlit("ok");
    assert("error"@[0] != "ok"@[0]);
    assert("warning"@[0] != "ok"@[0]);
}

/// The report keeps each check's fix consistent: every check offering a
/// fix in the report offers a known one, can be fixed automatically and is
/// not `ok`, when every check it was assembled from was so.
pub proof fn lemma_report_fixes_consistent(checks: Seq<HealthCheck>, r: HealthReport)
    requires
        r.checks@ == checks,
        forall|i: int| 0 <= i < checks.len() ==> fix_consistent(#[trigger] checks[i]),
    ensures
        forall|i: int| 0 <= i < r.checks@.len() ==> fix_consistent(#[trigger] r.checks@[i]),
{
}

fn lit(s: &str) -> (r: String)
    ensures
        r@ == s@,
{
    owned(s)
}

/// What `gpu_check_macos` gives on these observations.
pub open spec fn gpu_macos_gives(arch_output: Option<Seq<char>>, h: HealthCheck) -> bool {
    &&& arch_output matches Some(o) ==> (trim(o) == "arm64"@ ==> is_check(
            h,
            "GPU Driver"@,
            "ok"@,
            "Apple Silicon detected (Metal/MLX supported)"@,
            false,
            None,
        ))
    &&& arch_output matches Some(o) ==> (trim(o) != "arm64"@ ==> is_check(
            h,
            "GPU Driver"@,
            "warning"@,
            "Intel Mac detected — limited GPU acceleration"@,
            false,
            None,
        ))
    &&& arch_output is None ==> is_check(
            h,
            "GPU Driver"@,
            "error"@,
            "Could not detect GPU architecture"@,
            false,
            None,
        )
}

/// GPU check on macOS, from the output of `uname -m` (`None` when it could not run).
pub fn gpu_check_macos(arch_output: Option<&str>) -> (h: HealthCheck)
    ensures
        fix_consistent(h),
        gpu_macos_gives(opt_ref_view(arch_output), h),
{
    proof {
        lemma_status_words();
    }
    match arch_output {
        Some(o) => {
            let arch = trimmed(o);
            if eq_str(arch.as_slice(), "arm64") {
                make_check(
                    "GPU Driver",
                    "ok",
                    lit("Apple Silicon detected (Metal/MLX supported)"),
                    false,
                    None,
                )
            } else {
                make_check(
                    "GPU Driver",
                    "warning",
                    lit("Intel Mac detected — limited GPU acceleration"),
                    false,
                    None,
                )
            }
        },
        None => make_check(
            "GPU Driver",
            "error",
            lit("Could not detect GPU architecture"),
            false,
            None,
        ),
    }
}

/// What `gpu_check_nvidia` gives on these observations.
pub open spec fn gpu_nvidia_gives(smi_output: Option<Seq<char>>, h: HealthCheck) -> bool {
    &&& smi_output matches Some(o) ==> is_check(
            h,
            "GPU Driver"@,
            "ok"@,
            trim(o) + " detected"@,
            false,
            None,
        )
    &&& smi_output is None ==> is_check(
            h,
            "GPU Driver"@,
            "error"@,
            "nvidia-smi not found — no NVIDIA GPU or drivers missing"@,
            true,
            Some("install_drivers"@),
        )
}

/// GPU check elsewhere, from the output of a successful `nvidia-smi --query-gpu=name`
/// (`None` when nvidia-smi was not found or failed).
pub fn gpu_check_nvidia(smi_output: Option<&str>) -> (h: HealthCheck)
    ensures
        fix_consistent(h),
        gpu_nvidia_gives(opt_ref_view(smi_output), h),
{
    proof {
        lemma_status_words();
    }
    match smi_output {
        Some(o) => {
            let mut m = trimmed(o);
            push_str(&mut m, " detected");
            make_check("GPU Driver", "ok", string_of(m.as_slice()), false, None)
        },
        None => make_check(
            "GPU Driver",
            "error",
            lit("nvidia-smi not found — no NVIDIA GPU or drivers missing"),
            true,
            Some("install_drivers"),
        ),
    }
}

/// What `python_check` gives on these observations.
pub open spec fn python_gives(version_output: Option<Seq<char>>, h: HealthCheck) -> bool {
    &&& version_output matches Some(o) ==> is_check(
            h,
            "Python"@,
            "ok"@,
            trim(o) + " installed"@,
            false,
            None,
        )
    &&& version_output is None ==> is_check(
            h,
            "Python"@,
            "error"@,
            "python3 not found in PATH"@,
            false,
            None,
        )
}

/// Python check, from the output of a successful `python --version`.
pub fn python_check(version_output: Option<&str>) -> (h: HealthCheck)
    ensures
        fix_consistent(h),
        python_gives(opt_ref_view(version_output), h),
{
    proof {
        lemma_status_words();
    }
    match version_output {
        Some(o) => {
            let mut m = trimmed(o);
            push_str(&mut m, " installed");
            make_check("Python", "ok", string_of(m.as_slice()), false, None)
        },
        None => make_check("Python", "error", lit("python3 not found in PATH"), false, None),
    }
}

/// What `daemon_file_check` gives on these observations.
pub open spec fn daemon_file_gives(exists: bool, path: Seq<char>, h: HealthCheck) -> bool {
    &&& exists ==> is_check(h, "Daemon File"@, "ok"@, path + " exists"@, false, None)
    &&& !exists ==> is_check(
            h,
            "Daemon File"@,
            "error"@,
            "dcp_daemon.py not found — will be downloaded on start"@,
            true,
            Some("download_daemon"@),
        )
}

/// Daemon file check: whether the daemon script is present at `path`.
pub fn daemon_file_check(exists: bool, path: &str) -> (h: HealthCheck)
    ensures
        fix_consistent(h),
        daemon_file_gives(exists, path@, h),
{
    proof {
        lemma_status_words();
    }
    if exists {
        let mut m: Vec<char> = Vec::new();
        push_str(&mut m, path);
        push_str(&mut m, " exists");
        make_check("Daemon File", "ok", string_of(m.as_slice()), false, None)
    } else {
        make_check(
            "Daemon File",
            "error",
            lit("dcp_daemon.py not found — will be downloaded on start"),
            true,
            Some("download_daemon"),
        )
    }
}

/// What `engine_check_macos` gives on these observations.
pub open spec fn engine_macos_gives(mlx_version_output: Option<Seq<char>>, ollama_installed: bool, h: HealthCheck) -> bool {
    &&& mlx_version_output matches Some(o) ==> is_check(
            h,
            "Inference Engine"@,
            "ok"@,
            "mlx-lm "@ + trim(o) + " installed"@,
            false,
            None,
        )
    &&& mlx_version_output is None && ollama_installed ==> is_check(
            h,
            "Inference Engine"@,
            "ok"@,
            "Ollama installed (fallback)"@,
            false,
            None,
        )
    &&& mlx_version_output is None && !ollama_installed ==> is_check(
            h,
            "Inference Engine"@,
            "error"@,
            "No inference engine found (need mlx-lm or ollama)"@,
            true,
            Some("install_engine"@),
        )
}

/// Inference-engine check on macOS: the mlx-lm version printed (when the
/// import succeeded), else whether Ollama is installed.
pub fn engine_check_macos(mlx_version_output: Option<&str>, ollama_installed: bool) -> (h:
    HealthCheck)
    ensures
        fix_consistent(h),
        engine_macos_gives(opt_ref_view(mlx_version_output), ollama_installed, h),
{
    proof {
        lemma_status_words();
    }
    match mlx_version_output {
        Some(o) => {
            let mut m: Vec<char> = Vec::new();
            push_str(&mut m, "mlx-lm ");
            let v = trimmed(o);
            push_range(&mut m, v.as_slice(), 0, v.len());
            assert(v@.subrange(0, v@.len() as int) =~= v@);
            push_str(&mut m, " installed");
            make_check("Inference Engine", "ok", string_of(m.as_slice()), false, None)
        },
        None => if ollama_installed {
            make_check("Inference Engine", "ok", lit("Ollama installed (fallback)"), false, None)
        } else {
            make_check(
                "Inference Engine",
                "error",
                lit("No inference engine found (need mlx-lm or ollama)"),
                true,
                Some("install_engine"),
            )
        },
    }
}

/// What `engine_check` gives on these observations.
pub open spec fn engine_gives(ollama_installed: bool, h: HealthCheck) -> bool {
    &&& ollama_installed ==> is_check(
            h,
            "Inference Engine"@,
            "ok"@,
            "Ollama installed"@,
            false,
            None,
        )
    &&& !ollama_installed ==> is_check(
            h,
            "Inference Engine"@,
            "error"@,
            "Ollama not found in PATH"@,
            true,
            Some("install_engine"@),
        )
}

/// Inference-engine check on Windows and Linux: whether Ollama is installed.
pub fn engine_check(ollama_installed: bool) -> (h: HealthCheck)
    ensures
        fix_consistent(h),
        engine_gives(ollama_installed, h),
{
    proof {
        lemma_status_words();
    }
    if ollama_installed {
        make_check("Inference Engine", "ok", lit("Ollama installed"), false, None)
    } else {
        make_check(
            "Inference Engine",
            "error",
            lit("Ollama not found in PATH"),
            true,
            Some("install_engine"),
        )
    }
}

/// The number of models `ollama list` printed: its lines less the header.
pub open spec fn listed_model_count(list_output: Seq<char>) -> nat {
    if lines(list_output).len() > 0 {
        (lines(list_output).len() - 1) as nat
    } else {
        0
    }
}

/// What `model_check` gives on these observations.
pub open spec fn model_gives(list_output: Option<Seq<char>>, hf_cache_exists: bool, h: HealthCheck) -> bool {
    &&& list_output matches Some(o) ==> (listed_model_count(o) > 0 ==> is_check(
            h,
            "Model"@,
            "ok"@,
            decimal(listed_model_count(o)) + " model(s) available"@,
            false,
            None,
        ))
    &&& list_output matches Some(o) ==> (listed_model_count(o) == 0 ==> is_check(
            h,
            "Model"@,
            "warning"@,
            "No models downloaded yet"@,
            true,
            Some("download_model"@),
        ))
    &&& list_output is None && hf_cache_exists ==> is_check(
            h,
            "Model"@,
            "ok"@,
            "HuggingFace model cache found"@,
            false,
            None,
        )
    &&& list_output is None && !hf_cache_exists ==> is_check(
            h,
            "Model"@,
            "warning"@,
            "No models found — will be downloaded on first run"@,
            true,
            Some("download_model"@),
        )
}

/// Model check, from the output of a successful `ollama list`, else whether a
/// HuggingFace model cache exists.
pub fn model_check(list_output: Option<&str>, hf_cache_exists: bool) -> (h: HealthCheck)
    ensures
        fix_consistent(h),
        model_gives(opt_ref_view(list_output), hf_cache_exists, h),
{
    proof {
        lemma_status_words();
    }
    match list_output {
        Some(o) => {
            let cs = chars_of(o);
            let ls = line_spans(cs.as_slice(), 0, cs.len());
            assert(cs@.subrange(0, cs@.len() as int) =~= o@);
            let count = if ls.len() > 0 {
                ls.len() - 1
            } else {
                0
            };
            if count > 0 {
                let mut m: Vec<char> = Vec::new();
                push_decimal(&mut m, count as u64);
                push_str(&mut m, " model(s) available");
                make_check("Model", "ok", string_of(m.as_slice()), false, None)
            } else {
                make_check(
                    "Model",
                    "warning",
                    lit("No models downloaded yet"),
                    true,
                    Some("download_model"),
                )
            }
        },
        None => if hf_cache_exists {
            make_check("Model", "ok", lit("HuggingFace model cache found"), false, None)
        } else {
            make_check(
                "Model",
                "warning",
                lit("No models found — will be downloaded on first run"),
                true,
                Some("download_model"),
            )
        },
    }
}

/// What `daemon_process_check` gives on these observations.
pub open spec fn daemon_process_gives(alive: bool, pid: u32, h: HealthCheck) -> bool {
    &&& alive ==> is_check(
            h,
            "Daemon Process"@,
            "ok"@,
            "Running (PID "@ + decimal(pid as nat) + ")"@,
            true,
            None,
        )
    &&& !alive ==> is_check(
            h,
            "Daemon Process"@,
            "error"@,
            "Not running"@,
            true,
            Some("start_daemon"@),
        )
}

/// Daemon-process check; `pid` is the PID shown when the daemon is alive.
pub fn daemon_process_check(alive: bool, pid: u32) -> (h: HealthCheck)
    ensures
        fix_consistent(h),
        daemon_process_gives(alive, pid, h),
{
    proof {
        lemma_status_words();
    }
    if alive {
        let mut m: Vec<char> = Vec::new();
        push_str(&mut m, "Running (PID ");
        push_decimal(&mut m, pid as u64);
        push_str(&mut m, ")");
        make_check("Daemon Process", "ok", string_of(m.as_slice()), true, None)
    } else {
        make_check("Daemon Process", "error", lit("Not running"), true, Some("start_daemon"))
    }
}

/// Whether any of the log lines mentions a heartbeat.
pub open spec fn mentions_heartbeat(lines: Seq<String>) -> bool {
    exists|i: int|
        0 <= i < lines.len() && (contains(lines[i]@, "Heartbeat"@) || contains(
            lines[i]@,
            "heartbeat"@,
        ))
}

pub fn has_heartbeat(log_lines: &[String]) -> (r: bool)
    ensures
        r == mentions_heartbeat(log_lines@),
{
    let upper = chars_of("Heartbeat");
    let lower = chars_of("heartbeat");
    let mut i: usize = 0;
    while i < log_lines.len()
        invariant
            i <= log_lines@.len(),
            upper@ == "Heartbeat"@,
            lower@ == "heartbeat"@,
            forall|j: int|
                0 <= j < i ==> !(contains(log_lines@[j]@, "Heartbeat"@) || contains(
                    log_lines@[j]@,
                    "heartbeat"@,
                )),
        decreases log_lines@.len() - i,
    {
        let cs = chars_of(log_lines[i].as_str());
        assert(cs@.subrange(0, cs@.len() as int) =~= cs@);
        if contains_in(cs.as_slice(), 0, cs.len(), upper.as_slice()) || contains_in(
            cs.as_slice(),
            0,
            cs.len(),
            lower.as_slice(),
        ) {
            return true;
        }
        i += 1;
    }
    false
}

/// What `heartbeat_check` gives on these observations.
pub open spec fn heartbeat_gives(alive: bool, log_lines: Seq<String>, h: HealthCheck) -> bool {
    &&& alive && mentions_heartbeat(log_lines) ==> is_check(
            h,
            "Daemon Heartbeat"@,
            "ok"@,
            "Heartbeat OK"@,
            false,
            None,
        )
    &&& alive && !mentions_heartbeat(log_lines) ==> is_check(
            h,
            "Daemon Heartbeat"@,
            "warning"@,
            "Running but no heartbeat detected in recent logs"@,
            false,
            None,
        )
    &&& !alive ==> is_check(
            h,
            "Daemon Heartbeat"@,
            "error"@,
            "Daemon not running"@,
            false,
            None,
        )
}

/// Heartbeat check, from whether the daemon is alive and its recent log lines.
pub fn heartbeat_check(alive: bool, log_lines: &[String]) -> (h: HealthCheck)
    ensures
        fix_consistent(h),
        heartbeat_gives(alive, log_lines@, h),
{
    proof {
        lemma_status_words();
    }
    let hb = has_heartbeat(log_lines);
    if alive && hb {
        make_check("Daemon Heartbeat", "ok", lit("Heartbeat OK"), false, None)
    } else if alive {
        make_check(
            "Daemon Heartbeat",
            "warning",
            lit("Running but no heartbeat detected in recent logs"),
            false,
            None,
        )
    } else {
        make_check("Daemon Heartbeat", "error", lit("Daemon not running"), false, None)
    }
}

/// What `local_server_check` gives on these observations.
pub open spec fn local_server_gives(curl_output: Option<Seq<char>>, daemon_alive: bool, h: HealthCheck) -> bool {
    &&& curl_output matches Some(o) ==> (trim(o) == "200"@ ==> is_check(
            h,
            "Local Server"@,
            "ok"@,
            "Port 8000 responding (HTTP 200)"@,
            false,
            None,
        ))
    &&& curl_output matches Some(o) ==> (trim(o) != "200"@ ==> is_check(
            h,
            "Local Server"@,
            "warning"@,
            "Port 8000 returned HTTP "@ + trim(o),
            false,
            None,
        ))
    &&& curl_output is None ==> is_check(
            h,
            "Local Server"@,
            if daemon_alive {
                "warning"@
            } else {
                "error"@
            },
            "Port 8000 not responding"@,
            false,
            None,
        )
}

/// Local-server check, from the HTTP code a successful `curl` of
/// `localhost:8000/health` printed.
pub fn local_server_check(curl_output: Option<&str>, daemon_alive: bool) -> (h: HealthCheck)
    ensures
        fix_consistent(h),
        local_server_gives(opt_ref_view(curl_output), daemon_alive, h),
{
    proof {
        lemma_status_words();
    }
    match curl_output {
        Some(o) => {
            let code = trimmed(o);
            if eq_str(code.as_slice(), "200") {
                make_check(
                    "Local Server",
                    "ok",
                    lit("Port 8000 responding (HTTP 200)"),
                    false,
                    None,
                )
            } else {
                let mut m: Vec<char> = Vec::new();
                push_str(&mut m, "Port 8000 returned HTTP ");
                push_range(&mut m, code.as_slice(), 0, code.len());
                assert(code@.subrange(0, code@.len() as int) =~= code@);
                make_check("Local Server", "warning", string_of(m.as_slice()), false, None)
            }
        },
        None => make_check(
            "Local Server",
            if daemon_alive {
                "warning"
            } else {
                "error"
            },
            lit("Port 8000 not responding"),
            false,
            None,
        ),
    }
}

/// The HTTP code as a number: `parse::<u16>()`, or 0 when that fails.
pub open spec fn http_code_value(code: Seq<char>) -> int {
    match parse_u64_spec(code) {
        Some(v) => if v <= 65535 {
            v as int
        } else {
            0
        },
        None => 0,
    }
}

/// What `internet_check` gives on these observations.
pub open spec fn internet_gives(curl_output: Option<Seq<char>>, h: HealthCheck) -> bool {
    &&& curl_output matches Some(o) ==> (200 <= http_code_value(trim(o)) < 400 ==> is_check(
            h,
            "Internet"@,
            "ok"@,
            "api.dcp.sa reachable"@,
            false,
            None,
        ))
    &&& curl_output matches Some(o) ==> (!(200 <= http_code_value(trim(o)) < 400) ==> is_check(
            h,
            "Internet"@,
            "warning"@,
            "api.dcp.sa returned HTTP "@ + trim(o),
            false,
            None,
        ))
    &&& curl_output is None ==> is_check(
            h,
            "Internet"@,
            "error"@,
            "Cannot reach api.dcp.sa — check internet connection"@,
            false,
            None,
        )
}

/// Internet check, from the HTTP code a successful `curl` of the backend health
/// endpoint printed.
pub fn internet_check(curl_output: Option<&str>) -> (h: HealthCheck)
    ensures
        fix_consistent(h),
        internet_gives(opt_ref_view(curl_output), h),
{
    proof {
        lemma_status_words();
    }
    match curl_output {
        Some(o) => {
            let code = trimmed(o);
            let n: u64 = match parse_u64(code.as_slice(), 0, code.len()) {
                Some(v) => if v <= 65535 {
                    v
                } else {
                    0
                },
                None => 0,
            };
            assert(code@.subrange(0, code@.len() as int) =~= code@);
            if n >= 200 && n < 400 {
                make_check("Internet", "ok", lit("api.dcp.sa reachable"), false, None)
            } else {
                let mut m: Vec<char> = Vec::new();
                push_str(&mut m, "api.dcp.sa returned HTTP ");
                push_range(&mut m, code.as_slice(), 0, code.len());
                make_check("Internet", "warning", string_of(m.as_slice()), false, None)
            }
        },
        None => make_check(
            "Internet",
            "error",
            lit("Cannot reach api.dcp.sa — check internet connection"),
            false,
            None,
        ),
    }
}

/// What `disk_space_check` gives on these observations.
pub open spec fn disk_space_gives(available_gb: u64, h: HealthCheck) -> bool {
    &&& available_gb >= 10 ==> is_check(
            h,
            "Disk Space"@,
            "ok"@,
            decimal(available_gb as nat) + "GB available"@,
            false,
            None,
        )
    &&& 5 <= available_gb < 10 ==> is_check(
            h,
            "Disk Space"@,
            "warning"@,
            decimal(available_gb as nat) + "GB available — may need more for models"@,
            false,
            None,
        )
    &&& available_gb < 5 ==> is_check(
            h,
            "Disk Space"@,
            "error"@,
            "Only "@ + decimal(available_gb as nat) + "GB available — insufficient for models"@,
            false,
            None,
        )
}

/// Disk-space check from the free space in whole gigabytes.
pub fn disk_space_check(available_gb: u64) -> (h: HealthCheck)
    ensures
        fix_consistent(h),
        disk_space_gives(available_gb, h),
{
    proof {
        lemma_status_words();
    }
    let mut m: Vec<char> = Vec::new();
    if available_gb >= 10 {
        push_decimal(&mut m, available_gb);
        push_str(&mut m, "GB available");
        make_check("Disk Space", "ok", string_of(m.as_slice()), false, None)
    } else if available_gb >= 5 {
        push_decimal(&mut m, available_gb);
        push_str(&mut m, "GB available — may need more for models");
        make_check("Disk Space", "warning", string_of(m.as_slice()), false, None)
    } else {
        push_str(&mut m, "Only ");
        push_decimal(&mut m, available_gb);
        push_str(&mut m, "GB available — insufficient for models");
        make_check("Disk Space", "error", string_of(m.as_slice()), false, None)
    }
}

/// `parse::<u64>().unwrap_or(0)`.
pub open spec fn u64_or_zero(s: Seq<char>) -> u64 {
    match parse_u64_spec(s) {
        Some(v) => v,
        None => 0,
    }
}

/// Free gigabytes from `df -g /` output (macOS): the fourth column of the
/// second line, when that line has at least four columns.
pub open spec fn df_available_gb_macos(out: Seq<char>) -> Option<u64> {
    let ls = lines(out);
    if ls.len() > 1 && words(ls[1]).len() >= 4 {
        Some(u64_or_zero(words(ls[1])[3]))
    } else {
        None
    }
}

pub fn available_gb_macos(df_output: &str) -> (r: Option<u64>)
    ensures
        r == df_available_gb_macos(df_output@),
{
    let cs = chars_of(df_output);
    let ls = line_spans(cs.as_slice(), 0, cs.len());
    assert(cs@.subrange(0, cs@.len() as int) =~= df_output@);
    if ls.len() > 1 {
        let l = ls[1];
        assert(piece(cs@, l) == lines(df_output@)[1]);
        let ws = word_spans(cs.as_slice(), l.start, l.end);
        if ws.len() >= 4 {
            let w = ws[3];
            let v = match parse_u64(cs.as_slice(), w.start, w.end) {
                Some(v) => v,
                None => 0,
            };
            return Some(v);
        }
    }
    None
}

/// Free gigabytes from `df --output=avail -BG /` output (Linux): the second
/// line, trimmed and stripped of trailing `G`s.
pub open spec fn df_available_gb_linux(out: Seq<char>) -> Option<u64> {
    let ls = lines(out);
    if ls.len() > 1 {
        Some(u64_or_zero(trim_end_char(trim(ls[1]), 'G')))
    } else {
        None
    }
}

pub fn available_gb_linux(df_output: &str) -> (r: Option<u64>)
    ensures
        r == df_available_gb_linux(df_output@),
{
    let cs = chars_of(df_output);
    let ls = line_spans(cs.as_slice(), 0, cs.len());
    assert(cs@.subrange(0, cs@.len() as int) =~= df_output@);
    if ls.len() > 1 {
        let l = ls[1];
        assert(piece(cs@, l) == lines(df_output@)[1]);
        let t = trim_span(cs.as_slice(), l.start, l.end);
        let e = trim_end_char_at(cs.as_slice(), t.start, t.end, 'G');
        let v = match parse_u64(cs.as_slice(), t.start, e) {
            Some(v) => v,
            None => 0,
        };
        return Some(v);
    }
    None
}

/// Free gigabytes from `wmic logicaldisk ... get FreeSpace /value` output
/// (Windows): the first line starting `FreeSpace=`, its value in bytes
/// divided by 2^30.
pub open spec fn wmic_available_gb(out: Seq<char>) -> Option<u64> {
    let ls = lines(out);
    match first_where(ls, starts_pred("FreeSpace="@)) {
        Some(k) => Some(
            (u64_or_zero(trim(ls[k].subrange("FreeSpace="@.len() as int, ls[k].len() as int)))
                / 1073741824) as u64,
        ),
        None => None,
    }
}

/// The number that `s[from..to]` spells once trimmed, or 0.
fn trimmed_u64_or_zero(s: &[char], from: usize, to: usize) -> (r: u64)
    requires
        from <= to <= s@.len(),
    ensures
        r == u64_or_zero(trim(s@.subrange(from as int, to as int))),
{
    let t = trim_span(s, from, to);
    match parse_u64(s, t.start, t.end) {
        Some(v) => v,
        None => 0,
    }
}

pub fn available_gb_windows(wmic_output: &str) -> (r: Option<u64>)
    ensures
        r == wmic_available_gb(wmic_output@),
{
    let cs = chars_of(wmic_output);
    let ls = line_spans(cs.as_slice(), 0, cs.len());
    assert(cs@.subrange(0, cs@.len() as int) =~= wmic_output@);
    let prefix = chars_of("FreeSpace=");
    let ghost lines_v = lines(wmic_output@);
    assert(pieces(cs@, ls@) == lines_v);
    let found = first_span_starting_with(cs.as_slice(), ls.as_slice(), prefix.as_slice());
    match found {
        Some(k) => {
            let l = ls[k];
            let ghost line = piece(cs@, l);
            assert(line == lines_v[k as int]);
            assert(prefix@.len() <= line.len());
            let start = l.start + prefix.len();
            assert(cs@.subrange(start as int, l.end as int) =~= line.subrange(
                prefix@.len() as int,
                line.len() as int,
            ));
            let v = trimmed_u64_or_zero(cs.as_slice(), start, l.end);
            Some(v / 1073741824)
        },
        None => None,
    }
}

/// The number of checks whose status is `status`.
pub open spec fn count_status(checks: Seq<HealthCheck>, status: Seq<char>) -> nat
    decreases checks.len(),
{
    if checks.len() == 0 {
        0
    } else {
        count_status(checks.drop_last(), status) + if checks.last().status@ == status {
            1nat
        } else {
            0nat
        }
    }
}

/// How the report sums up its checks: critical with two errors or more,
/// degraded with one error or with two warnings or more, healthy otherwise.
pub open spec fn overall_verdict(checks: Seq<HealthCheck>) -> Seq<char> {
    let errors = count_status(checks, "error"@);
    let warnings = count_status(checks, "warning"@);
    if errors >= 2 {
        "critical"@
    } else if errors >= 1 || warnings >= 2 {
        "degraded"@
    } else {
        "healthy"@
    }
}

pub proof fn lemma_count_status_bound(checks: Seq<HealthCheck>, status: Seq<char>)
    ensures
        count_status(checks, status) <= checks.len(),
    decreases checks.len(),
{
    if checks.len() > 0 {
        lemma_count_status_bound(checks.drop_last(), status);
    }
}

/// Assembles the report from the checks in the order they were made.
pub fn health_report(checks: Vec<HealthCheck>) -> (r: HealthReport)
    ensures
        r.checks@ == checks@,
        r.overall@ == overall_verdict(checks@),
{
    let mut errors: usize = 0;
    let mut warnings: usize = 0;
    let mut i: usize = 0;
    while i < checks.len()
        invariant
            i <= checks@.len(),
            errors == count_status(checks@.take(i as int), "error"@),
            warnings == count_status(checks@.take(i as int), "warning"@),
        decreases checks@.len() - i,
    {
        proof {
            lemma_count_status_bound(checks@.take(i as int), "error"@);
            lemma_count_status_bound(checks@.take(i as int), "warning"@);
        }
        proof {
            reveal_strlit("error");
            reveal_strlit("warning");
            assert("error"@ != "warning"@) by {
                assert("error"@[0] != "warning"@[0]);
            }
        }
        assert(checks@.take(i + 1).drop_last() =~= checks@.take(i as int));
        assert(checks@.take(i + 1).last() == checks@[i as int]);
        let st = chars_of(checks[i].status.as_str());
        if eq_str(st.as_slice(), "error") {
            errors += 1;
        } else if eq_str(st.as_slice(), "warning") {
            warnings += 1;
        }
        i += 1;
    }
    assert(checks@.take(checks@.len() as int) =~= checks@);
    let overall = if errors >= 2 {
        lit("critical")
    } else if errors >= 1 || warnings >= 2 {
        lit("degraded")
    } else {
        lit("healthy")
    };
    HealthReport { overall, checks }
}

/// How the GPU was probed: `uname -m` on macOS, `nvidia-smi` elsewhere.
pub enum GpuProbe {
    AppleArch(Option<String>),
    NvidiaName(Option<String>),
}

/// How the inference engine was probed: the mlx-lm import (and, when it
/// failed, whether Ollama is installed) on macOS, Ollama elsewhere.
pub enum EngineProbe {
    Mlx { version: Option<String>, ollama_installed: bool },
    Ollama { installed: bool },
}

/// The download-speed verdict, already classified by the shell.
pub struct SpeedReading {
    pub status: String,
    pub message: String,
}

/// Everything the shell observed on the machine for the health report.
pub struct HealthObservations {
    pub gpu: GpuProbe,
    pub python_version: Option<String>,
    pub daemon_file_exists: bool,
    pub daemon_path: String,
    pub engine: EngineProbe,
    pub model_list: Option<String>,
    pub hf_cache_exists: bool,
    pub daemon_alive: bool,
    pub daemon_pid: u32,
    pub log_lines: Vec<String>,
    pub local_server: Option<String>,
    pub internet: Option<String>,
    /// `None` when the probe finished too fast to measure.
    pub speed: Option<SpeedReading>,
    /// `None` when the free space could not be read.
    pub disk_available_gb: Option<u64>,
}

pub open spec fn gpu_probe_gives(g: GpuProbe, h: HealthCheck) -> bool {
    match g {
        GpuProbe::AppleArch(a) => gpu_macos_gives(opt_str_view(a), h),
        GpuProbe::NvidiaName(n) => gpu_nvidia_gives(opt_str_view(n), h),
    }
}

pub open spec fn engine_probe_gives(e: EngineProbe, h: HealthCheck) -> bool {
    match e {
        EngineProbe::Mlx { version, ollama_installed } => engine_macos_gives(
            opt_str_view(version),
            ollama_installed,
            h,
        ),
        EngineProbe::Ollama { installed } => engine_gives(installed, h),
    }
}

pub open spec fn speed_gives(s: SpeedReading, h: HealthCheck) -> bool {
    is_check(h, "Internet Speed"@, s.status@, s.message@, false, None)
}

/// The number of checks in the report: nine always, then the speed and
/// disk-space checks when they could be made.
pub open spec fn report_len(o: HealthObservations) -> nat {
    9 + (if o.speed is Some { 1nat } else { 0nat }) + (if o.disk_available_gb is Some {
        1nat
    } else {
        0nat
    })
}

/// The checks of the health report, in order: GPU, Python, daemon file,
/// engine, model, daemon process, heartbeat, local server, internet, then
/// the speed check and the disk-space check when there is one.
pub open spec fn report_gives(o: HealthObservations, c: Seq<HealthCheck>) -> bool {
    &&& c.len() == report_len(o)
    &&& gpu_probe_gives(o.gpu, c[0])
    &&& python_gives(opt_str_view(o.python_version), c[1])
    &&& daemon_file_gives(o.daemon_file_exists, o.daemon_path@, c[2])
    &&& engine_probe_gives(o.engine, c[3])
    &&& model_gives(opt_str_view(o.model_list), o.hf_cache_exists, c[4])
    &&& daemon_process_gives(o.daemon_alive, o.daemon_pid, c[5])
    &&& heartbeat_gives(o.daemon_alive, o.log_lines@, c[6])
    &&& local_server_gives(opt_str_view(o.local_server), o.daemon_alive, c[7])
    &&& internet_gives(opt_str_view(o.internet), c[8])
    &&& o.speed matches Some(s) ==> speed_gives(s, c[9])
    &&& o.disk_available_gb matches Some(gb) ==> disk_space_gives(gb, c[c.len() - 1])
}

fn opt_str(o: &Option<String>) -> (r: Option<&str>)
    ensures
        opt_ref_view(r) == opt_str_view(*o),
{
    match o {
        Some(s) => Some(s.as_str()),
        None => None,
    }
}

/// The health command's report: each check made from what the shell
/// observed, in the command's order, and the overall verdict over them.
pub fn daemon_health_report(o: &HealthObservations) -> (r: HealthReport)
    ensures
        report_gives(*o, r.checks@),
        r.overall@ == overall_verdict(r.checks@),
        forall|i: int| 0 <= i < r.checks@.len() ==> fix_consistent(#[trigger] r.checks@[i]),
{
    let mut checks: Vec<HealthCheck> = Vec::new();
    let gpu = match &o.gpu {
        GpuProbe::AppleArch(a) => gpu_check_macos(opt_str(a)),
        GpuProbe::NvidiaName(n) => gpu_check_nvidia(opt_str(n)),
    };
    checks.push(gpu);
    checks.push(python_check(opt_str(&o.python_version)));
    checks.push(daemon_file_check(o.daemon_file_exists, o.daemon_path.as_str()));
    let engine = match &o.engine {
        EngineProbe::Mlx { version, ollama_installed } => engine_check_macos(
            opt_str(version),
            *ollama_installed,
        ),
        EngineProbe::Ollama { installed } => engine_check(*installed),
    };
    checks.push(engine);
    checks.push(model_check(opt_str(&o.model_list), o.hf_cache_exists));
    checks.push(daemon_process_check(o.daemon_alive, o.daemon_pid));
    checks.push(heartbeat_check(o.daemon_alive, o.log_lines.as_slice()));
    checks.push(local_server_check(opt_str(&o.local_server), o.daemon_alive));
    checks.push(internet_check(opt_str(&o.internet)));
    proof {
        lemma_status_words();
    }
    match &o.speed {
        Some(s) => {
            checks.push(make_check("Internet Speed", s.status.as_str(), s.message.clone(), false, None));
        },
        None => {},
    }
    match o.disk_available_gb {
        Some(gb) => {
            checks.push(disk_space_check(gb));
        },
        None => {},
    }
    health_report(checks)
}

/// Every check in a health report the command assembles offers a fix only
/// when it is a known one, the check can be fixed automatically and its
/// status is not `ok`.
pub proof fn lemma_health_report_fixes_consistent(o: HealthObservations, c: Seq<HealthCheck>)
    requires
        report_gives(o, c),
    ensures
        forall|i: int| 0 <= i < c.len() ==> fix_consistent(#[trigger] c[i]),
{
    lemma_status_words();
    reveal_strlit("download_daemon");
    reveal_strlit("install_engine");
    reveal_strlit("download_model");
    reveal_strlit("start_daemon");
    reveal_strlit("install_drivers");
}

/// The verdict's thresholds: a report is critical exactly when two checks
/// or more failed; degraded exactly when one failed, or none failed and two
/// or more warned; healthy exactly when none failed and at most one warned.
pub proof fn lemma_verdict_thresholds(checks: Seq<HealthCheck>)
    ensures
        overall_verdict(checks) == "critical"@ <==> count_status(checks, "error"@) >= 2,
        overall_verdict(checks) == "degraded"@ <==> (count_status(checks, "error"@) == 1 || (
        count_status(checks, "error"@) == 0 && count_status(checks, "warning"@) >= 2)),
        overall_verdict(checks) == "healthy"@ <==> (count_status(checks, "error"@) == 0
            && count_status(checks, "warning"@) <= 1),
{
    reveal_strlit("critical");
    reveal_strlit("degraded");
    reveal_strlit("healthy");
    assert("critical"@[0] != "degraded"@[0]);
    assert("critical"@[0] != "healthy"@[0]);
    assert("degraded"@[0] != "healthy"@[0]);
}

/// The disk-space check passes from 10 GB free, warns from 5 GB and fails
/// below; it never offers a fix.
pub proof fn lemma_disk_space_thresholds(available_gb: u64, h: HealthCheck)
    requires
        disk_space_gives(available_gb, h),
    ensures
        h.name@ == "Disk Space"@,
        h.status@ == "ok"@ <==> available_gb >= 10,
        h.status@ == "warning"@ <==> 5 <= available_gb < 10,
        h.status@ == "error"@ <==> available_gb < 5,
        !h.can_auto_fix && h.fix_action is None,
{
    lemma_status_words();
    reveal_strlit("error");
    reveal_strlit("warning");
    assert("error"@[0] != "warning"@[0]);
}

} // verus!
