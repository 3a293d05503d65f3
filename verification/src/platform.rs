//! The agent's dealings with the operating system that involve a decision:
//! which Ollama and Python executables to run, which processes a listing
//! names, how a tunnel activation or an engine installation went, which
//! tray entry was chosen, and which part of a log is uploaded.

use vstd::prelude::*;
use crate::hardware::{first_existing, first_present, opt_string};
use crate::text::{
    chars_of, contains, contains_in, decimal, err_is, line_spans, lines, opt_ref_view, owned,
    parse_u32, parse_u32_spec, piece, pieces, push_decimal, push_range, push_str, replace_all,
    replaced, span_in, starts_with, starts_with_in, string_of, trim, trim_span, trimmed, views,
};
use vstd::string::StringSliceAdditionalSpecFns;

verus! {

// ---------------------------------------------------------------------------
// Executables
// ---------------------------------------------------------------------------

/// The first line of `where.exe ollama`'s output, trimmed, when not empty.
pub open spec fn where_first_spec(out: Seq<char>) -> Option<Seq<char>> {
    if lines(out).len() > 0 && trim(lines(out)[0]).len() > 0 {
        Some(trim(lines(out)[0]))
    } else {
        None
    }
}

pub fn where_first(out: &str) -> (r: Option<String>)
    ensures
        opt_string(r) == where_first_spec(out@),
{
    let cs = chars_of(out);
    let ls = line_spans(cs.as_slice(), 0, cs.len());
    assert(cs@.subrange(0, cs@.len() as int) =~= out@);
    assert(pieces(cs@, ls@) == lines(out@));
    if ls.len() > 0 {
        let l = ls[0];
        assert(piece(cs@, l) == lines(out@)[0]);
        let t = trim_span(cs.as_slice(), l.start, l.end);
        if t.start < t.end {
            let mut v: Vec<char> = Vec::new();
            push_range(&mut v, cs.as_slice(), t.start, t.end);
            return Some(string_of(v.as_slice()));
        }
    }
    None
}

/// The places probed for `ollama.exe` on Windows, in order: what `where.exe`
/// found, the registered install location's executable, the default user
/// install under `%LOCALAPPDATA%`, and the two Program Files locations.
pub open spec fn ollama_candidates_spec(
    where_found: Option<Seq<char>>,
    install_candidate: Option<Seq<char>>,
    local_app_data: Option<Seq<char>>,
) -> Seq<Seq<char>> {
    let opt = |o: Option<Seq<char>>|
        match o {
            Some(x) => seq![x],
            None => Seq::<Seq<char>>::empty(),
        };
    opt(where_found) + opt(install_candidate) + opt(
        match local_app_data {
            Some(l) => Some(l + "\\Programs\\Ollama\\ollama.exe"@),
            None => None,
        },
    ) + seq!["C:\\Program Files\\Ollama\\ollama.exe"@, "C:\\Program Files (x86)\\Ollama\\ollama.exe"@]
}

pub fn ollama_candidates(
    where_found: Option<String>,
    install_candidate: Option<String>,
    local_app_data: Option<&str>,
) -> (r: Vec<String>)
    ensures
        views(r@) == ollama_candidates_spec(
            opt_string(where_found),
            opt_string(install_candidate),
            opt_ref_view(local_app_data),
        ),
{
    let mut r: Vec<String> = Vec::new();
    let ghost w = opt_string(where_found);
    let ghost ic = opt_string(install_candidate);
    match where_found {
        Some(x) => r.push(x),
        None => {},
    }
    match install_candidate {
        Some(x) => r.push(x),
        None => {},
    }
    match local_app_data {
        Some(l) => {
            let mut p: Vec<char> = Vec::new();
            push_str(&mut p, l);
            push_str(&mut p, "\\Programs\\Ollama\\ollama.exe");
            r.push(string_of(p.as_slice()));
        },
        None => {},
    }
    r.push(owned("C:\\Program Files\\Ollama\\ollama.exe"));
    r.push(owned("C:\\Program Files (x86)\\Ollama\\ollama.exe"));
    assert(views(r@) =~= ollama_candidates_spec(w, ic, opt_ref_view(local_app_data)));
    r
}

/// The Ollama executable: `ollama` when it is on the PATH; on Windows the
/// first candidate (each paired with whether it exists) that exists; else
/// `ollama`, so that running it fails with a clear message.
pub fn resolve_ollama(on_path: bool, windows: bool, probed: &[(String, bool)]) -> (r: String)
    ensures
        r@ == (if on_path || !windows {
            "ollama"@
        } else {
            match first_present(probed@) {
                Some(k) => probed@[k].0@,
                None => "ollama"@,
            }
        }),
{
    if on_path || !windows {
        return owned("ollama");
    }
    match first_existing(probed) {
        Some(p) => p,
        None => owned("ollama"),
    }
}

/// A Python executable works when `--version` succeeds and mentions
/// `Python` (the Store stub does not).
pub fn python_reports_version(success: bool, stdout: &str) -> (r: bool)
    ensures
        r == (success && contains(stdout@, "Python"@)),
{
    let cs = chars_of(stdout);
    let p = chars_of("Python");
    assert(cs@.subrange(0, cs@.len() as int) =~= stdout@);
    success && contains_in(cs.as_slice(), 0, cs.len(), p.as_slice())
}

/// The Python interpreter on Windows: the embedded one under the agent's
/// directory when it exists and works, else `python`, else `python3` when
/// they work, else the embedded one's path (installed later), else
/// `python`.
pub fn python_choice(embedded_path: Option<&str>, embedded_works: bool, python_works: bool, python3_works: bool) -> (r: String)
    ensures
        r@ == (match embedded_path {
            Some(p) if embedded_works => p@,
            _ => if python_works {
                "python"@
            } else if python3_works {
                "python3"@
            } else {
                match embedded_path {
                    Some(p) => p@,
                    None => "python"@,
                }
            },
        }),
{
    match embedded_path {
        Some(p) if embedded_works => owned(p),
        _ => if python_works {
            owned("python")
        } else if python3_works {
            owned("python3")
        } else {
            match embedded_path {
                Some(p) => owned(p),
                None => owned("python"),
            }
        },
    }
}

// ---------------------------------------------------------------------------
// Processes
// ---------------------------------------------------------------------------

/// The PIDs a `wmic process ... get ProcessId /value` listing names: each
/// line starting `ProcessId=` whose rest, trimmed, is a number.
pub open spec fn process_ids_spec(ls: Seq<Seq<char>>) -> Seq<u32>
    decreases ls.len(),
{
    if ls.len() == 0 {
        Seq::empty()
    } else {
        let l = ls.last();
        process_ids_spec(ls.drop_last()) + if starts_with(l, "ProcessId="@) {
            match parse_u32_spec(trim(l.subrange(10, l.len() as int))) {
                Some(p) => seq![p],
                None => Seq::empty(),
            }
        } else {
            Seq::empty()
        }
    }
}

pub fn process_ids(listing: &str) -> (r: Vec<u32>)
    ensures
        r@ == process_ids_spec(lines(listing@)),
{
    let cs = chars_of(listing);
    let ls = line_spans(cs.as_slice(), 0, cs.len());
    assert(cs@.subrange(0, cs@.len() as int) =~= listing@);
    let ghost all = lines(listing@);
    assert(pieces(cs@, ls@) == all);
    let key = chars_of("ProcessId=");
    proof {
        reveal_strlit("ProcessId=");
    }
    let mut r: Vec<u32> = Vec::new();
    let mut i: usize = 0;
    while i < ls.len()
        invariant
            i <= ls@.len(),
            all == pieces(cs@, ls@),
            key@ == "ProcessId="@,
            key@.len() == 10,
            forall|k: int| 0 <= k < ls@.len() ==> span_in(#[trigger] ls@[k], 0, cs@.len() as int),
            r@ == process_ids_spec(all.take(i as int)),
        decreases ls@.len() - i,
    {
        let l = ls[i];
        assert(span_in(ls@[i as int], 0, cs@.len() as int));
        assert(all.take(i + 1).drop_last() =~= all.take(i as int));
        assert(all.take(i + 1).last() == piece(cs@, l));
        if starts_with_in(cs.as_slice(), l.start, l.end, key.as_slice()) {
            let rest = l.start + 10;
            assert(piece(cs@, l).subrange(10, piece(cs@, l).len() as int) =~= cs@.subrange(
                rest as int,
                l.end as int,
            ));
            let t = trim_span(cs.as_slice(), rest, l.end);
            match parse_u32(cs.as_slice(), t.start, t.end) {
                Some(p) => {
                    r.push(p);
                },
                None => {},
            }
        }
        assert(r@ =~= process_ids_spec(all.take(i + 1)));
        i += 1;
    }
    assert(all.take(ls@.len() as int) =~= all);
    r
}

/// On Windows a process lives when `tasklist` succeeds and lists its PID.
pub fn tasklist_shows(success: bool, listing: &str, pid: u32) -> (r: bool)
    ensures
        r == (success && contains(listing@, decimal(pid as nat))),
{
    let cs = chars_of(listing);
    let mut p: Vec<char> = Vec::new();
    push_decimal(&mut p, pid as u64);
    assert(cs@.subrange(0, cs@.len() as int) =~= listing@);
    success && contains_in(cs.as_slice(), 0, cs.len(), p.as_slice())
}

// ---------------------------------------------------------------------------
// Tunnel activation
// ---------------------------------------------------------------------------

/// How running an activation tool went.
#[derive(Clone, Debug)]
pub enum LaunchOutcome {
    Succeeded,
    /// It ran and failed; what it printed on stderr.
    Failed(String),
    /// The tool was not found; the error as text.
    NotFound(String),
    /// It could not be run for another reason; the error as text.
    Error(String),
}

/// `wg-quick up` on Linux.
pub fn linux_activation_result(o: &LaunchOutcome) -> (r: Result<(), String>)
    ensures
        o is Succeeded ==> r is Ok,
        o matches LaunchOutcome::Failed(s) ==> err_is(r, "wg-quick up failed: "@ + s@),
        o is NotFound ==> err_is(r, "wg-quick not found. Install: sudo apt install wireguard-tools"@),
        o matches LaunchOutcome::Error(e) ==> err_is(r, "wg-quick failed: "@ + e@),
{
    match o {
        LaunchOutcome::Succeeded => Ok(()),
        LaunchOutcome::Failed(s) => Err(joined("wg-quick up failed: ", s.as_str())),
        LaunchOutcome::NotFound(_) => Err(owned("wg-quick not found. Install: sudo apt install wireguard-tools")),
        LaunchOutcome::Error(e) => Err(joined("wg-quick failed: ", e.as_str())),
    }
}

fn joined(a: &str, b: &str) -> (r: String)
    ensures
        r@ == a@ + b@,
{
    let mut e: Vec<char> = Vec::new();
    push_str(&mut e, a);
    push_str(&mut e, b);
    string_of(e.as_slice())
}

/// `wireguard /installtunnelservice` on Windows; after a failure the
/// standard install location is retried (`retry_succeeded`, `None` when it
/// does not exist).
pub fn windows_activation_result(first: &LaunchOutcome, retry_succeeded: Option<bool>) -> (r: Result<(), String>)
    ensures
        first is Succeeded ==> r is Ok,
        first matches LaunchOutcome::Failed(s) ==> (if retry_succeeded == Some(true) {
            r is Ok
        } else {
            err_is(r, "wireguard /installtunnelservice failed: "@ + s@)
        }),
        first is NotFound ==> err_is(r, "WireGuard not found. Install from https://www.wireguard.com/install/"@),
        first matches LaunchOutcome::Error(e) ==> err_is(r, "wireguard.exe failed: "@ + e@),
{
    match first {
        LaunchOutcome::Succeeded => Ok(()),
        LaunchOutcome::Failed(s) => {
            if retry_succeeded == Some(true) {
                Ok(())
            } else {
                Err(joined("wireguard /installtunnelservice failed: ", s.as_str()))
            }
        },
        LaunchOutcome::NotFound(_) => Err(owned("WireGuard not found. Install from https://www.wireguard.com/install/")),
        LaunchOutcome::Error(e) => Err(joined("wireguard.exe failed: ", e.as_str())),
    }
}

/// The administrator command on macOS that installs the tunnel keeper,
/// brings the tunnel down and up, and loads the keeper, with its double
/// quotes escaped for AppleScript.
pub open spec fn mac_admin_command_spec(keeper: Seq<char>, plist: Seq<char>, wq: Seq<char>, conf: Seq<char>) -> Seq<char> {
    replace_all(
        "export PATH=/opt/homebrew/bin:/usr/local/bin:$PATH; cp "@ + keeper
            + " /usr/local/bin/dcp-wg-keeper.sh; chmod 755 /usr/local/bin/dcp-wg-keeper.sh; cp "@
            + plist
            + " /Library/LaunchDaemons/sa.dcp.wireguard.plist; chmod 644 /Library/LaunchDaemons/sa.dcp.wireguard.plist; chown root:wheel /Library/LaunchDaemons/sa.dcp.wireguard.plist; launchctl unload /Library/LaunchDaemons/sa.dcp.wireguard.plist 2>/dev/null; "@
            + wq + " down wg0 2>/dev/null; sleep 0.5; "@ + wq + " up "@ + conf
            + "; launchctl load /Library/LaunchDaemons/sa.dcp.wireguard.plist"@,
        "\""@,
        "\\\""@,
    )
}

pub fn mac_admin_command(keeper: &str, plist: &str, wq: &str, conf: &str) -> (r: String)
    ensures
        r@ == mac_admin_command_spec(keeper@, plist@, wq@, conf@),
{
    let mut e: Vec<char> = Vec::new();
    push_str(&mut e, "export PATH=/opt/homebrew/bin:/usr/local/bin:$PATH; cp ");
    push_str(&mut e, keeper);
    push_str(&mut e, " /usr/local/bin/dcp-wg-keeper.sh; chmod 755 /usr/local/bin/dcp-wg-keeper.sh; cp ");
    push_str(&mut e, plist);
    push_str(
        &mut e,
        " /Library/LaunchDaemons/sa.dcp.wireguard.plist; chmod 644 /Library/LaunchDaemons/sa.dcp.wireguard.plist; chown root:wheel /Library/LaunchDaemons/sa.dcp.wireguard.plist; launchctl unload /Library/LaunchDaemons/sa.dcp.wireguard.plist 2>/dev/null; ",
    );
    push_str(&mut e, wq);
    push_str(&mut e, " down wg0 2>/dev/null; sleep 0.5; ");
    push_str(&mut e, wq);
    push_str(&mut e, " up ");
    push_str(&mut e, conf);
    push_str(&mut e, "; launchctl load /Library/LaunchDaemons/sa.dcp.wireguard.plist");
    let quote = chars_of("\"");
    proof {
        reveal_strlit("\"");
    }
    let r = replaced(e.as_slice(), 0, e.len(), quote.as_slice(), "\\\"");
    assert(e@.subrange(0, e@.len() as int) =~= e@);
    string_of(r.as_slice())
}

/// The AppleScript that runs `script` with administrator privileges.
pub fn admin_applescript(script: &str) -> (r: String)
    ensures
        r@ == "do shell script \""@ + script@ + "\" with administrator privileges"@,
{
    let mut e: Vec<char> = Vec::new();
    push_str(&mut e, "do shell script \"");
    push_str(&mut e, script);
    push_str(&mut e, "\" with administrator privileges");
    string_of(e.as_slice())
}

/// The best-effort keeper installation after an activation that needed no
/// administrator rights.
pub fn keeper_install_applescript(keeper: &str, plist: &str) -> (r: String)
    ensures
        r@ == "do shell script \"cp "@ + keeper@
            + " /usr/local/bin/dcp-wg-keeper.sh && chmod 755 /usr/local/bin/dcp-wg-keeper.sh && cp "@
            + plist@
            + " /Library/LaunchDaemons/sa.dcp.wireguard.plist && chmod 644 /Library/LaunchDaemons/sa.dcp.wireguard.plist && launchctl load /Library/LaunchDaemons/sa.dcp.wireguard.plist\" with administrator privileges"@,
{
    let mut e: Vec<char> = Vec::new();
    push_str(&mut e, "do shell script \"cp ");
    push_str(&mut e, keeper);
    push_str(&mut e, " /usr/local/bin/dcp-wg-keeper.sh && chmod 755 /usr/local/bin/dcp-wg-keeper.sh && cp ");
    push_str(&mut e, plist);
    push_str(
        &mut e,
        " /Library/LaunchDaemons/sa.dcp.wireguard.plist && chmod 644 /Library/LaunchDaemons/sa.dcp.wireguard.plist && launchctl load /Library/LaunchDaemons/sa.dcp.wireguard.plist\" with administrator privileges",
    );
    string_of(e.as_slice())
}

/// The administrator prompt's outcome on macOS: a cancelled prompt is told
/// apart from a failed activation.
pub fn mac_admin_result(o: &LaunchOutcome) -> (r: Result<(), String>)
    ensures
        o is Succeeded ==> r is Ok,
        o matches LaunchOutcome::Failed(s) ==> (if contains(s@, "User canceled"@) || contains(s@, "canceled"@) {
            err_is(r, "WireGuard setup cancelled — admin password required to activate the tunnel."@)
        } else {
            err_is(r, "wg-quick up failed (admin): "@ + s@)
        }),
        o matches LaunchOutcome::NotFound(e) ==> err_is(r, "osascript admin prompt failed: "@ + e@),
        o matches LaunchOutcome::Error(e) ==> err_is(r, "osascript admin prompt failed: "@ + e@),
{
    match o {
        LaunchOutcome::Succeeded => Ok(()),
        LaunchOutcome::Failed(s) => {
            let cs = chars_of(s.as_str());
            let a = chars_of("User canceled");
            let b = chars_of("canceled");
            assert(cs@.subrange(0, cs@.len() as int) =~= s@);
            if contains_in(cs.as_slice(), 0, cs.len(), a.as_slice()) || contains_in(cs.as_slice(), 0, cs.len(), b.as_slice()) {
                Err(owned("WireGuard setup cancelled — admin password required to activate the tunnel."))
            } else {
                Err(joined("wg-quick up failed (admin): ", s.as_str()))
            }
        },
        LaunchOutcome::NotFound(e) => Err(joined("osascript admin prompt failed: ", e.as_str())),
        LaunchOutcome::Error(e) => Err(joined("osascript admin prompt failed: ", e.as_str())),
    }
}

// ---------------------------------------------------------------------------
// Engine installation and model downloads
// ---------------------------------------------------------------------------

/// Which engine a standalone installation sets up.
#[derive(Clone, Copy, Debug, PartialEq, Eq)]
pub enum EngineKind {
    /// `mlx` and `mlx-lm` through pip (Apple Silicon).
    Mlx,
    /// Ollama through its install script or installer.
    Ollama,
}

/// On a Mac the engine follows the architecture; elsewhere it is Ollama.
pub fn engine_for(is_mac: bool, arch_output: &str) -> (r: EngineKind)
    ensures
        r == (if is_mac && trim(arch_output@) == "arm64"@ {
            EngineKind::Mlx
        } else {
            EngineKind::Ollama
        }),
{
    let a = trimmed(arch_output);
    if is_mac && crate::text::eq_str(a.as_slice(), "arm64") {
        EngineKind::Mlx
    } else {
        EngineKind::Ollama
    }
}

/// The answer to an engine installation (`stderr` of a failed run; on
/// Windows a failure has a fixed message).
pub fn engine_install_result(kind: EngineKind, windows: bool, success: bool, stderr: &str) -> (r: Result<String, String>)
    ensures
        success ==> (r matches Ok(m) && m@ == (if kind == EngineKind::Mlx {
            "mlx-lm installed successfully"@
        } else {
            "Ollama installed successfully"@
        })),
        !success ==> err_is(
            r,
            if kind == EngineKind::Mlx {
                "pip install failed: "@ + stderr@
            } else if windows {
                "Failed to install Ollama. Install manually from https://ollama.com/download/windows"@
            } else {
                "Ollama install failed: "@ + stderr@
            },
        ),
{
    if success {
        match kind {
            EngineKind::Mlx => Ok(owned("mlx-lm installed successfully")),
            EngineKind::Ollama => Ok(owned("Ollama installed successfully")),
        }
    } else {
        match kind {
            EngineKind::Mlx => Err(joined("pip install failed: ", stderr)),
            EngineKind::Ollama => if windows {
                Err(owned("Failed to install Ollama. Install manually from https://ollama.com/download/windows"))
            } else {
                Err(joined("Ollama install failed: ", stderr))
            },
        }
    }
}

/// A character that may stand in a name spliced into Python source: an
/// ASCII letter or digit, `.`, `_`, `/` or `-`.
pub open spec fn model_name_char(c: char) -> bool {
    ||| 'A' <= c <= 'Z'
    ||| 'a' <= c <= 'z'
    ||| '0' <= c <= '9'
    ||| c == '.'
    ||| c == '_'
    ||| c == '/'
    ||| c == '-'
}

/// A name that can be spliced into a Python string literal: not empty,
/// and made only of `model_name_char`s.
pub open spec fn valid_model_name(s: Seq<char>) -> bool {
    s.len() > 0 && forall|i: int| 0 <= i < s.len() ==> model_name_char(#[trigger] s[i])
}

fn is_model_name_char(c: char) -> (r: bool)
    ensures
        r == model_name_char(c),
{
    ('A' <= c && c <= 'Z') || ('a' <= c && c <= 'z') || ('0' <= c && c <= '9') || c == '.' || c
        == '_' || c == '/' || c == '-'
}

/// Whether every character of `cs` satisfies `model_name_char`.
fn all_name_chars(cs: &[char]) -> (r: bool)
    ensures
        r == (forall|i: int| 0 <= i < cs@.len() ==> model_name_char(#[trigger] cs@[i])),
{
    let mut i: usize = 0;
    while i < cs.len()
        invariant
            i <= cs@.len(),
            forall|j: int| 0 <= j < i ==> model_name_char(#[trigger] cs@[j]),
        decreases cs@.len() - i,
    {
        if !is_model_name_char(cs[i]) {
            return false;
        }
        i += 1;
    }
    true
}

/// A model download needs a name.
pub fn require_model_name(model: &str) -> (r: Result<(), String>)
    ensures
        model@.len() == 0 ==> err_is(r, "Model name is required"@),
        model@.len() > 0 ==> r is Ok,
{
    if model.is_empty() {
        Err(owned("Model name is required"))
    } else {
        Ok(())
    }
}

/// The Python that loads (and so downloads) an MLX model; only a name that
/// is safe inside the Python string literal is spliced in.
pub fn mlx_load_script(model: &str) -> (r: Result<String, String>)
    ensures
        valid_model_name(model@) ==> (r matches Ok(p) && p@ == "from mlx_lm import load; load('"@
            + model@ + "')"@),
        !valid_model_name(model@) ==> err_is(
            r,
            "Invalid model name: only letters, digits, '.', '_', '/' and '-' are allowed"@,
        ),
{
    let cs = chars_of(model);
    if cs.len() == 0 || !all_name_chars(cs.as_slice()) {
        return Err(owned("Invalid model name: only letters, digits, '.', '_', '/' and '-' are allowed"));
    }
    let mut e: Vec<char> = Vec::new();
    push_str(&mut e, "from mlx_lm import load; load('");
    push_str(&mut e, model);
    push_str(&mut e, "')");
    Ok(string_of(e.as_slice()))
}

/// The answer to a model download through `engine`, from whether it
/// succeeded and its stderr.
pub fn model_download_result(kind: EngineKind, model: &str, success: bool, stderr: &str) -> (r: Result<String, String>)
    ensures
        success ==> (r matches Ok(m) && m@ == "Model "@ + model@ + (if kind == EngineKind::Ollama {
            " downloaded via Ollama"@
        } else {
            " downloaded via MLX"@
        })),
        !success ==> err_is(
            r,
            (if kind == EngineKind::Ollama {
                "ollama pull failed: "@
            } else {
                "MLX model download failed: "@
            }) + stderr@,
        ),
{
    if success {
        let mut e: Vec<char> = Vec::new();
        push_str(&mut e, "Model ");
        push_str(&mut e, model);
        match kind {
            EngineKind::Ollama => push_str(&mut e, " downloaded via Ollama"),
            EngineKind::Mlx => push_str(&mut e, " downloaded via MLX"),
        }
        Ok(string_of(e.as_slice()))
    } else {
        match kind {
            EngineKind::Ollama => Err(joined("ollama pull failed: ", stderr)),
            EngineKind::Mlx => Err(joined("MLX model download failed: ", stderr)),
        }
    }
}

// ---------------------------------------------------------------------------
// Tray menu and log upload
// ---------------------------------------------------------------------------

/// What a tray menu entry does.
#[derive(Clone, Copy, Debug, PartialEq, Eq)]
pub enum TrayAction {
    ShowWindow,
    ShowAgentChat,
    OpenDashboard,
    OpenLogs,
    Pause,
    Resume,
    Quit,
    Ignore,
}

pub fn tray_action(menu_id: &str) -> (r: TrayAction)
    ensures
        r == (if menu_id@ == "show"@ {
            TrayAction::ShowWindow
        } else if menu_id@ == "agent_chat"@ {
            TrayAction::ShowAgentChat
        } else if menu_id@ == "dashboard"@ {
            TrayAction::OpenDashboard
        } else if menu_id@ == "logs"@ {
            TrayAction::OpenLogs
        } else if menu_id@ == "pause"@ {
            TrayAction::Pause
        } else if menu_id@ == "resume"@ {
            TrayAction::Resume
        } else if menu_id@ == "quit"@ {
            TrayAction::Quit
        } else {
            TrayAction::Ignore
        }),
{
    let cs = chars_of(menu_id);
    let s = cs.as_slice();
    if crate::text::eq_str(s, "show") {
        TrayAction::ShowWindow
    } else if crate::text::eq_str(s, "agent_chat") {
        TrayAction::ShowAgentChat
    } else if crate::text::eq_str(s, "dashboard") {
        TrayAction::OpenDashboard
    } else if crate::text::eq_str(s, "logs") {
        TrayAction::OpenLogs
    } else if crate::text::eq_str(s, "pause") {
        TrayAction::Pause
    } else if crate::text::eq_str(s, "resume") {
        TrayAction::Resume
    } else if crate::text::eq_str(s, "quit") {
        TrayAction::Quit
    } else {
        TrayAction::Ignore
    }
}

/// The logs uploaded for the provider, in order: the start log, the GPU
/// detection log and the daemon's log. Nothing else from the agent's
/// directory is sent (the tunnel configuration holds a private key).
pub fn uploaded_log_files() -> (r: Vec<&'static str>)
    ensures
        r@.len() == 3,
        r@[0]@ == "startup.log"@,
        r@[1]@ == "gpu-detection.log"@,
        r@[2]@ == "daemon.log"@,
{
    let mut r: Vec<&'static str> = Vec::new();
    r.push("startup.log");
    r.push("gpu-detection.log");
    r.push("daemon.log");
    r
}

/// The last 50 000 bytes of a log (all of a shorter one); the cut must fall
/// on a character boundary.
pub fn log_excerpt(content: &str) -> (r: String)
    requires
        vstd::utf8::encode_utf8(content@).len() as usize > 50000 ==> vstd::utf8::is_char_boundary(
            vstd::utf8::encode_utf8(content@),
            vstd::utf8::encode_utf8(content@).len() as usize - 50000,
        ),
    ensures
        ({
            let b = vstd::utf8::encode_utf8(content@);
            if (b.len() as usize) > 50000 {
                vstd::utf8::encode_utf8(r@) == b.subrange((b.len() as usize) - 50000, b.len() as int)
            } else {
                r@ == content@
            }
        }),
{
    let n = content.len();
    assert(content.spec_bytes() == vstd::utf8::encode_utf8(content@));
    if n > 50000 {
        let (_, tail) = content.split_at(n - 50000);
        assert(tail.spec_bytes() == vstd::utf8::encode_utf8(tail@));
        owned(tail)
    } else {
        owned(content)
    }
}

} // verus!
