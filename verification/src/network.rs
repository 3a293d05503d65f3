//! The WireGuard mesh: locating the tools, reading the gateway and the mesh
//! address from the tunnel configuration, the registration answer and the
//! configuration written from it, the status reports, and the repair
//! procedure the agent runs when the tunnel is down.

use vstd::prelude::*;
use crate::hardware::opt_string;
use crate::json::{bool_field, str_field, string_opt_view, JsonValue};
use crate::text::{
    chars_of, contains, contains_in, err_is, first_span_containing, first_where, last_after,
    last_after_span, line_spans, lines, or_empty, or_text, owned, piece, pieces, push_range,
    push_str, span_in, split, split_spans, starts_with, starts_with_in, string_of, string_range,
    trim, trim_span, trimmed, Span,
};

verus! {

// ---------------------------------------------------------------------------
// The tools
// ---------------------------------------------------------------------------

/// The `wg` tool: the first of the Homebrew, `/usr/local` and `/usr`
/// locations that exists (each flag says whether it does), else the bare
/// command for a PATH lookup.
pub fn wg_bin(homebrew: bool, usr_local: bool, usr: bool) -> (r: &'static str)
    ensures
        r@ == (if homebrew {
            "/opt/homebrew/bin/wg"@
        } else if usr_local {
            "/usr/local/bin/wg"@
        } else if usr {
            "/usr/bin/wg"@
        } else {
            "wg"@
        }),
{
    if homebrew {
        "/opt/homebrew/bin/wg"
    } else if usr_local {
        "/usr/local/bin/wg"
    } else if usr {
        "/usr/bin/wg"
    } else {
        "wg"
    }
}

/// The `wg-quick` tool, chosen from the same locations as `wg`.
pub fn wg_quick_bin(homebrew: bool, usr_local: bool, usr: bool) -> (r: &'static str)
    ensures
        r@ == (if homebrew {
            "/opt/homebrew/bin/wg-quick"@
        } else if usr_local {
            "/usr/local/bin/wg-quick"@
        } else if usr {
            "/usr/bin/wg-quick"@
        } else {
            "wg-quick"@
        }),
{
    if homebrew {
        "/opt/homebrew/bin/wg-quick"
    } else if usr_local {
        "/usr/local/bin/wg-quick"
    } else if usr {
        "/usr/bin/wg-quick"
    } else {
        "wg-quick"
    }
}

// ---------------------------------------------------------------------------
// The gateway and the mesh address
// ---------------------------------------------------------------------------

/// The host of an `Endpoint = host:port` line (leading whitespace allowed),
/// when it is not empty.
pub open spec fn endpoint_host(line: Seq<char>) -> Option<Seq<char>> {
    let t = trim(line);
    let parts = split(t, '=');
    if starts_with(t, "Endpoint"@) && parts.len() > 1 {
        let host = trim(split(trim(parts[1]), ':')[0]);
        if host.len() > 0 {
            Some(host)
        } else {
            None
        }
    } else {
        None
    }
}

pub open spec fn endpoint_pred() -> spec_fn(Seq<char>) -> bool {
    |l: Seq<char>| endpoint_host(l) is Some
}

/// The gateway host of the tunnel configuration: that of its first
/// `Endpoint` line with a host.
pub open spec fn conf_gateway(conf: Seq<char>) -> Option<Seq<char>> {
    match first_where(lines(conf), endpoint_pred()) {
        Some(k) => endpoint_host(lines(conf)[k]),
        None => None,
    }
}

fn endpoint_host_span(s: &[char], from: usize, to: usize) -> (r: Option<Span>)
    requires
        from <= to <= s@.len(),
    ensures
        r matches Some(sp) ==> span_in(sp, from as int, to as int) && endpoint_host(
            s@.subrange(from as int, to as int),
        ) == Some(piece(s@, sp)),
        r is None ==> endpoint_host(s@.subrange(from as int, to as int)) is None,
{
    let t = trim_span(s, from, to);
    let key = chars_of("Endpoint");
    if !starts_with_in(s, t.start, t.end, key.as_slice()) {
        return None;
    }
    let parts = split_spans(s, t.start, t.end, '=');
    if parts.len() <= 1 {
        return None;
    }
    let p1 = parts[1];
    let v = trim_span(s, p1.start, p1.end);
    let hp = split_spans(s, v.start, v.end, ':');
    proof {
        crate::text::lemma_split_nonempty(s@.subrange(v.start as int, v.end as int), ':');
    }
    let h0 = hp[0];
    let h = trim_span(s, h0.start, h0.end);
    if h.start < h.end {
        Some(h)
    } else {
        None
    }
}

/// The gateway host named by the tunnel configuration `conf`.
pub fn gateway_from_conf(conf: &str) -> (r: Option<String>)
    ensures
        string_opt_view(r) == conf_gateway(conf@),
{
    let cs = chars_of(conf);
    let ls = line_spans(cs.as_slice(), 0, cs.len());
    assert(cs@.subrange(0, cs@.len() as int) =~= conf@);
    let ghost all = lines(conf@);
    assert(pieces(cs@, ls@) == all);
    let ghost f = endpoint_pred();
    let mut i: usize = 0;
    while i < ls.len()
        invariant
            i <= ls@.len(),
            all == pieces(cs@, ls@),
            all == lines(conf@),
            f == endpoint_pred(),
            forall|k: int| 0 <= k < ls@.len() ==> span_in(#[trigger] ls@[k], 0, cs@.len() as int),
            forall|j: int| 0 <= j < i ==> !f(all[j]),
        decreases ls@.len() - i,
    {
        let l = ls[i];
        assert(span_in(ls@[i as int], 0, cs@.len() as int));
        assert(piece(cs@, l) == all[i as int]);
        match endpoint_host_span(cs.as_slice(), l.start, l.end) {
            Some(h) => {
                proof {
                    crate::text::lemma_first_where_found(all, f, i as int);
                }
                return Some(string_range(cs.as_slice(), h.start, h.end));
            },
            None => {},
        }
        i += 1;
    }
    proof {
        crate::text::lemma_first_where_none(all, f);
    }
    None
}

/// The gateway named by the saved configuration: a non-empty `wg_gateway`,
/// else a non-empty `wg_server_ip`.
pub open spec fn config_gateway(cfg: JsonValue) -> Option<Seq<char>> {
    match str_field(cfg, "wg_gateway"@) {
        Some(g) if g.len() > 0 => Some(g),
        _ => match str_field(cfg, "wg_server_ip"@) {
            Some(g) if g.len() > 0 => Some(g),
            _ => None,
        },
    }
}

/// The mesh gateway the agent pings: from the tunnel configuration, else
/// from the saved configuration, else `10.8.0.1` (`None` where a file could
/// not be read or parsed).
pub open spec fn gateway_spec(conf: Option<Seq<char>>, cfg: Option<JsonValue>) -> Seq<char> {
    let from_conf = match conf {
        Some(c) => conf_gateway(c),
        None => None,
    };
    let from_cfg = match cfg {
        Some(j) => config_gateway(j),
        None => None,
    };
    match from_conf {
        Some(g) => g,
        None => match from_cfg {
            Some(g) => g,
            None => "10.8.0.1"@,
        },
    }
}

fn config_gateway_exec(cfg: &JsonValue) -> (r: Option<String>)
    ensures
        string_opt_view(r) == config_gateway(*cfg),
{
    match cfg.str_field("wg_gateway") {
        Some(g) if !g.as_str().is_empty() => Some(g),
        _ => match cfg.str_field("wg_server_ip") {
            Some(g) if !g.as_str().is_empty() => Some(g),
            _ => None,
        },
    }
}

pub fn wg_gateway(conf: Option<&str>, cfg: Option<&JsonValue>) -> (r: String)
    ensures
        r@ == gateway_spec(crate::text::opt_ref_view(conf), match cfg {
            Some(j) => Some(*j),
            None => None,
        }),
{
    let from_conf = match conf {
        Some(c) => gateway_from_conf(c),
        None => None,
    };
    match from_conf {
        Some(g) => g,
        None => {
            let from_cfg = match cfg {
                Some(j) => config_gateway_exec(j),
                None => None,
            };
            match from_cfg {
                Some(g) => g,
                None => owned("10.8.0.1"),
            }
        },
    }
}

/// The predicate "starts with `Address` once trimmed".
pub open spec fn address_pred() -> spec_fn(Seq<char>) -> bool {
    |l: Seq<char>| starts_with(trim(l), "Address"@)
}

/// The mesh address on an `Address = ip/prefix` line, when not empty.
pub open spec fn address_of(line: Seq<char>) -> Option<Seq<char>> {
    let parts = split(line, '=');
    if parts.len() > 1 {
        let ip = split(trim(parts[1]), '/')[0];
        if ip.len() > 0 {
            Some(ip)
        } else {
            None
        }
    } else {
        None
    }
}

/// The mesh address the tunnel configuration assigns: from its first
/// `Address` line.
pub open spec fn conf_mesh_ip(conf: Seq<char>) -> Option<Seq<char>> {
    match first_where(lines(conf), address_pred()) {
        Some(k) => address_of(lines(conf)[k]),
        None => None,
    }
}

pub fn mesh_ip_from_conf(conf: &str) -> (r: Option<String>)
    ensures
        string_opt_view(r) == conf_mesh_ip(conf@),
{
    let cs = chars_of(conf);
    let ls = line_spans(cs.as_slice(), 0, cs.len());
    assert(cs@.subrange(0, cs@.len() as int) =~= conf@);
    let ghost all = lines(conf@);
    assert(pieces(cs@, ls@) == all);
    let ghost f = address_pred();
    let key = chars_of("Address");
    let mut i: usize = 0;
    while i < ls.len()
        invariant
            i <= ls@.len(),
            all == pieces(cs@, ls@),
            all == lines(conf@),
            f == address_pred(),
            key@ == "Address"@,
            forall|k: int| 0 <= k < ls@.len() ==> span_in(#[trigger] ls@[k], 0, cs@.len() as int),
            forall|j: int| 0 <= j < i ==> !f(all[j]),
        decreases ls@.len() - i,
    {
        let l = ls[i];
        assert(span_in(ls@[i as int], 0, cs@.len() as int));
        assert(piece(cs@, l) == all[i as int]);
        let t = trim_span(cs.as_slice(), l.start, l.end);
        if starts_with_in(cs.as_slice(), t.start, t.end, key.as_slice()) {
            proof {
                crate::text::lemma_first_where_found(all, f, i as int);
            }
            let parts = split_spans(cs.as_slice(), l.start, l.end, '=');
            if parts.len() <= 1 {
                return None;
            }
            let p1 = parts[1];
            let v = trim_span(cs.as_slice(), p1.start, p1.end);
            let ip = split_spans(cs.as_slice(), v.start, v.end, '/');
            proof {
                crate::text::lemma_split_nonempty(cs@.subrange(v.start as int, v.end as int), '/');
            }
            let first = ip[0];
            if first.start < first.end {
                return Some(string_range(cs.as_slice(), first.start, first.end));
            } else {
                return None;
            }
        }
        i += 1;
    }
    proof {
        crate::text::lemma_first_where_none(all, f);
    }
    None
}

/// When `wg show` reports a running tunnel: its address from the
/// configuration, else (on Unix, when the report names an endpoint)
/// `"unknown"`, else nothing and the setup continues.
pub fn existing_tunnel_ip(unix: bool, conf: Option<&str>, wg_show_output: &str) -> (r: Option<String>)
    ensures
        (match conf {
            Some(c) => conf_mesh_ip(c@),
            None => None,
        }) matches Some(ip) ==> string_opt_view(r) == Some(ip),
        (match conf {
            Some(c) => conf_mesh_ip(c@),
            None => None,
        }) is None ==> string_opt_view(r) == (if unix && contains(wg_show_output@, "endpoint"@) {
            Some("unknown"@)
        } else {
            None
        }),
{
    let from_conf = match conf {
        Some(c) => mesh_ip_from_conf(c),
        None => None,
    };
    match from_conf {
        Some(ip) => Some(ip),
        None => {
            let cs = chars_of(wg_show_output);
            let pat = chars_of("endpoint");
            assert(cs@.subrange(0, cs@.len() as int) =~= wg_show_output@);
            if unix && contains_in(cs.as_slice(), 0, cs.len(), pat.as_slice()) {
                Some(owned("unknown"))
            } else {
                None
            }
        },
    }
}

// ---------------------------------------------------------------------------
// Registration and the tunnel configuration
// ---------------------------------------------------------------------------

/// What the backend answers a registration with.
#[derive(Clone, Debug)]
pub struct WgRegistration {
    pub mesh_ip: String,
    pub server_pubkey: String,
    pub server_endpoint: String,
    /// Only returned on the first registration.
    pub psk: Option<String>,
    pub already_registered: bool,
}

/// Reads the registration answer; `ip`, `server_pubkey` and
/// `server_endpoint` are required, in that order.
pub fn parse_registration(v: &JsonValue) -> (r: Result<WgRegistration, String>)
    ensures
        str_field(*v, "ip"@) is None ==> err_is(r, "WG registration response missing 'ip'"@),
        str_field(*v, "ip"@) is Some && str_field(*v, "server_pubkey"@) is None ==> err_is(
            r,
            "WG registration response missing 'server_pubkey'"@,
        ),
        str_field(*v, "ip"@) is Some && str_field(*v, "server_pubkey"@) is Some && str_field(
            *v,
            "server_endpoint"@,
        ) is None ==> err_is(r, "WG registration response missing 'server_endpoint'"@),
        r matches Ok(g) ==> Some(g.mesh_ip@) == str_field(*v, "ip"@) && Some(g.server_pubkey@)
            == str_field(*v, "server_pubkey"@) && Some(g.server_endpoint@) == str_field(
            *v,
            "server_endpoint"@,
        ) && string_opt_view(g.psk) == str_field(*v, "psk"@) && g.already_registered == (
        match bool_field(*v, "already_registered"@) {
            Some(b) => b,
            None => false,
        }),
        (str_field(*v, "ip"@) is Some && str_field(*v, "server_pubkey"@) is Some && str_field(
            *v,
            "server_endpoint"@,
        ) is Some) ==> r is Ok,
{
    let ip = match v.str_field("ip") {
        Some(s) => s,
        None => {
            return Err(owned("WG registration response missing 'ip'"));
        },
    };
    let pubkey = match v.str_field("server_pubkey") {
        Some(s) => s,
        None => {
            return Err(owned("WG registration response missing 'server_pubkey'"));
        },
    };
    let endpoint = match v.str_field("server_endpoint") {
        Some(s) => s,
        None => {
            return Err(owned("WG registration response missing 'server_endpoint'"));
        },
    };
    Ok(
        WgRegistration {
            mesh_ip: ip,
            server_pubkey: pubkey,
            server_endpoint: endpoint,
            psk: v.str_field("psk"),
            already_registered: match v.bool_field("already_registered") {
                Some(b) => b,
                None => false,
            },
        },
    )
}

/// The error when the registration is answered with an unsuccessful status.
pub fn registration_http_error(status_text: &str, body: &str) -> (r: String)
    ensures
        r@ == "WG registration HTTP "@ + status_text@ + ": "@ + body@,
{
    let mut e: Vec<char> = Vec::new();
    push_str(&mut e, "WG registration HTTP ");
    push_str(&mut e, status_text);
    push_str(&mut e, ": ");
    push_str(&mut e, body);
    string_of(e.as_slice())
}

/// The tunnel configuration written after a registration.
pub open spec fn wg_conf_spec(
    private_key: Seq<char>,
    mesh_ip: Seq<char>,
    server_pubkey: Seq<char>,
    psk: Seq<char>,
    endpoint: Seq<char>,
    with_dns: bool,
) -> Seq<char> {
    "[Interface]\nPrivateKey = "@ + private_key + "\nAddress = "@ + mesh_ip + "/24\n"@ + (if with_dns {
        "DNS = 1.1.1.1\n"@
    } else {
        Seq::empty()
    }) + "\n[Peer]\nPublicKey = "@ + server_pubkey + "\nPresharedKey = "@ + psk + "\nEndpoint = "@
        + endpoint + "\nAllowedIPs = 10.8.0.0/24\nPersistentKeepalive = 25\n"@
}

pub fn wg_conf_text(
    private_key: &str,
    mesh_ip: &str,
    server_pubkey: &str,
    psk: &str,
    endpoint: &str,
    with_dns: bool,
) -> (r: String)
    ensures
        r@ == wg_conf_spec(private_key@, mesh_ip@, server_pubkey@, psk@, endpoint@, with_dns),
{
    let mut e: Vec<char> = Vec::new();
    push_str(&mut e, "[Interface]\nPrivateKey = ");
    push_str(&mut e, private_key);
    push_str(&mut e, "\nAddress = ");
    push_str(&mut e, mesh_ip);
    push_str(&mut e, "/24\n");
    let ghost before = e@;
    if with_dns {
        push_str(&mut e, "DNS = 1.1.1.1\n");
    } else {
        assert(e@ =~= before + Seq::<char>::empty());
    }
    push_str(&mut e, "\n[Peer]\nPublicKey = ");
    push_str(&mut e, server_pubkey);
    push_str(&mut e, "\nPresharedKey = ");
    push_str(&mut e, psk);
    push_str(&mut e, "\nEndpoint = ");
    push_str(&mut e, endpoint);
    push_str(&mut e, "\nAllowedIPs = 10.8.0.0/24\nPersistentKeepalive = 25\n");
    string_of(e.as_slice())
}

/// What the setup does with the tunnel configuration file.
#[derive(Debug)]
pub enum ConfPlan {
    /// Write this configuration.
    Write(String),
    /// Keep the file as it is.
    Keep,
    /// Stop the setup with this error.
    Refuse(String),
}

/// Decides the configuration file after a registration: a fresh
/// registration, or a missing file, is written when the answer carries a
/// pre-shared key; a re-registration without a key and without a file
/// cannot be set up.
pub fn plan_wg_conf(reg: &WgRegistration, private_key: &str, conf_exists: bool) -> (r: ConfPlan)
    ensures
        (!reg.already_registered || !conf_exists) ==> (match reg.psk {
            Some(p) => r matches ConfPlan::Write(c) && c@ == wg_conf_spec(
                private_key@,
                reg.mesh_ip@,
                reg.server_pubkey@,
                p@,
                reg.server_endpoint@,
                true,
            ),
            None => if reg.already_registered && !conf_exists {
                r matches ConfPlan::Refuse(e) && e@
                    == "WG config missing and re-registration returned no PSK. Contact support."@
            } else {
                r is Keep
            },
        }),
        (reg.already_registered && conf_exists) ==> r is Keep,
{
    if !reg.already_registered || !conf_exists {
        match &reg.psk {
            Some(p) => ConfPlan::Write(
                wg_conf_text(
                    private_key,
                    reg.mesh_ip.as_str(),
                    reg.server_pubkey.as_str(),
                    p.as_str(),
                    reg.server_endpoint.as_str(),
                    true,
                ),
            ),
            None => if reg.already_registered && !conf_exists {
                ConfPlan::Refuse(
                    owned("WG config missing and re-registration returned no PSK. Contact support."),
                )
            } else {
                ConfPlan::Keep
            },
        }
    } else {
        ConfPlan::Keep
    }
}

/// After a key rotation: the new configuration (no DNS line; the backend's
/// answer filled in with defaults) and the assigned address.
pub fn rotated_conf(private_key: &str, reply: &JsonValue) -> (r: (String, String))
    ensures
        r.1@ == or_text(str_field(*reply, "ip"@), "10.8.0.3"@),
        r.0@ == wg_conf_spec(
            private_key@,
            r.1@,
            or_empty(str_field(*reply, "server_pubkey"@)),
            or_empty(str_field(*reply, "psk"@)),
            or_text(str_field(*reply, "server_endpoint"@), "76.13.179.86:51820"@),
            false,
        ),
{
    let ip = match reply.str_field("ip") {
        Some(s) => s,
        None => owned("10.8.0.3"),
    };
    let pubkey = match reply.str_field("server_pubkey") {
        Some(s) => s,
        None => String::new(),
    };
    let psk = match reply.str_field("psk") {
        Some(s) => s,
        None => String::new(),
    };
    let endpoint = match reply.str_field("server_endpoint") {
        Some(s) => s,
        None => owned("76.13.179.86:51820"),
    };
    let conf = wg_conf_text(
        private_key,
        ip.as_str(),
        pubkey.as_str(),
        psk.as_str(),
        endpoint.as_str(),
        false,
    );
    (conf, ip)
}

/// The answer to a completed key rotation.
pub fn rotation_message(ip: &str) -> (r: String)
    ensures
        r@ == "Key rotated. Mesh IP: "@ + ip@,
{
    let mut e: Vec<char> = Vec::new();
    push_str(&mut e, "Key rotated. Mesh IP: ");
    push_str(&mut e, ip);
    string_of(e.as_slice())
}

/// The error when the backend refuses a key rotation.
pub fn rotation_http_error(status_text: &str, body: &str) -> (r: String)
    ensures
        r@ == "Backend rejected key rotation: HTTP "@ + status_text@ + " — "@ + body@,
{
    let mut e: Vec<char> = Vec::new();
    push_str(&mut e, "Backend rejected key rotation: HTTP ");
    push_str(&mut e, status_text);
    push_str(&mut e, " — ");
    push_str(&mut e, body);
    string_of(e.as_slice())
}

// ---------------------------------------------------------------------------
// Status reports
// ---------------------------------------------------------------------------

/// `wg show` reports a handshake.
pub open spec fn has_handshake(wg_show: Seq<char>) -> bool {
    contains(wg_show, "latest handshake"@)
}

/// The agent's sentence about the tunnel: `up` is whether the gateway
/// answered a ping, `wg_show` what `wg show` printed and `ip_output` the
/// interface address the shell found.
pub open spec fn wireguard_report_spec(
    up: bool,
    gateway: Seq<char>,
    wg_show: Seq<char>,
    ip_output: Seq<char>,
) -> Seq<char> {
    let ip = trim(ip_output);
    if up {
        "WireGuard is UP. Mesh IP: "@ + (if ip.len() == 0 {
            "unknown"@
        } else {
            ip
        }) + ". Gateway "@ + gateway + " reachable. Handshake: "@ + (if has_handshake(wg_show) {
            "recent"@
        } else {
            "none"@
        }) + "."@
    } else {
        "WireGuard is DOWN. Interface exists ("@ + (if ip.len() == 0 {
            "no IP"@
        } else {
            ip
        }) + "), handshake: "@ + (if has_handshake(wg_show) {
            "yes but stale"@
        } else {
            "none"@
        }) + ", but can't reach gateway "@ + gateway + ". Run 'fix it' and I'll reconnect."@
    }
}

fn handshake_seen(wg_show: &str) -> (r: bool)
    ensures
        r == has_handshake(wg_show@),
{
    let cs = chars_of(wg_show);
    let pat = chars_of("latest handshake");
    assert(cs@.subrange(0, cs@.len() as int) =~= wg_show@);
    contains_in(cs.as_slice(), 0, cs.len(), pat.as_slice())
}

pub fn wireguard_report(up: bool, gateway: &str, wg_show: &str, ip_output: &str) -> (r: String)
    ensures
        r@ == wireguard_report_spec(up, gateway@, wg_show@, ip_output@),
{
    let ip = trimmed(ip_output);
    let hs = handshake_seen(wg_show);
    let mut e: Vec<char> = Vec::new();
    assert(ip@.subrange(0, ip@.len() as int) =~= ip@);
    if up {
        push_str(&mut e, "WireGuard is UP. Mesh IP: ");
        if ip.len() == 0 {
            push_str(&mut e, "unknown");
        } else {
            push_range(&mut e, ip.as_slice(), 0, ip.len());
        }
        push_str(&mut e, ". Gateway ");
        push_str(&mut e, gateway);
        push_str(&mut e, " reachable. Handshake: ");
        if hs {
            push_str(&mut e, "recent");
        } else {
            push_str(&mut e, "none");
        }
        push_str(&mut e, ".");
    } else {
        push_str(&mut e, "WireGuard is DOWN. Interface exists (");
        if ip.len() == 0 {
            push_str(&mut e, "no IP");
        } else {
            push_range(&mut e, ip.as_slice(), 0, ip.len());
        }
        push_str(&mut e, "), handshake: ");
        if hs {
            push_str(&mut e, "yes but stale");
        } else {
            push_str(&mut e, "none");
        }
        push_str(&mut e, ", but can't reach gateway ");
        push_str(&mut e, gateway);
        push_str(&mut e, ". Run 'fix it' and I'll reconnect.");
    }
    string_of(e.as_slice())
}

/// The age of the latest handshake in `wg show` output: on its first line
/// mentioning `latest handshake`, what follows the last colon.
pub open spec fn handshake_age_spec(wg_show: Seq<char>) -> Option<Seq<char>> {
    let ls = lines(wg_show);
    match first_where(ls, crate::text::contains_pred("latest handshake"@)) {
        Some(k) => Some(last_after(ls[k], ':')),
        None => None,
    }
}

pub fn handshake_age(wg_show: &str) -> (r: Option<String>)
    ensures
        string_opt_view(r) == handshake_age_spec(wg_show@),
{
    let cs = chars_of(wg_show);
    let ls = line_spans(cs.as_slice(), 0, cs.len());
    assert(cs@.subrange(0, cs@.len() as int) =~= wg_show@);
    assert(pieces(cs@, ls@) == lines(wg_show@));
    let pat = chars_of("latest handshake");
    match first_span_containing(cs.as_slice(), ls.as_slice(), pat.as_slice()) {
        Some(k) => {
            let l = ls[k];
            assert(piece(cs@, l) == lines(wg_show@)[k as int]);
            let v = last_after_span(cs.as_slice(), l.start, l.end, ':');
            Some(string_range(cs.as_slice(), v.start, v.end))
        },
        None => None,
    }
}

/// The tunnel facts of the system check.
#[derive(Clone, Debug, PartialEq, Eq)]
pub struct WgStatus {
    pub up: bool,
    pub mesh_ip: String,
    pub gateway: String,
    pub gateway_reachable: bool,
    pub handshake: bool,
    pub handshake_age: Option<String>,
}

pub fn wg_status(reachable: bool, gateway: String, wg_show: &str, ip_output: &str) -> (r: WgStatus)
    ensures
        r.up == reachable,
        r.gateway_reachable == reachable,
        r.gateway@ == gateway@,
        r.mesh_ip@ == (if trim(ip_output@).len() == 0 {
            "none"@
        } else {
            trim(ip_output@)
        }),
        r.handshake == has_handshake(wg_show@),
        string_opt_view(r.handshake_age) == handshake_age_spec(wg_show@),
{
    let ip = trimmed(ip_output);
    let mesh_ip = if ip.len() == 0 {
        owned("none")
    } else {
        string_of(ip.as_slice())
    };
    WgStatus {
        up: reachable,
        mesh_ip,
        gateway,
        gateway_reachable: reachable,
        handshake: handshake_seen(wg_show),
        handshake_age: handshake_age(wg_show),
    }
}

/// The mesh address is assigned to an interface when the interface listing
/// mentions it.
pub fn mesh_ip_assigned(interfaces_output: &str, mesh_ip: &str) -> (r: bool)
    ensures
        r == contains(interfaces_output@, mesh_ip@),
{
    let cs = chars_of(interfaces_output);
    let pat = chars_of(mesh_ip);
    assert(cs@.subrange(0, cs@.len() as int) =~= interfaces_output@);
    contains_in(cs.as_slice(), 0, cs.len(), pat.as_slice())
}

// ---------------------------------------------------------------------------
// Repair
// ---------------------------------------------------------------------------

/// How a shell command run by the repair went.
#[derive(Clone, Debug)]
pub enum CommandOutcome {
    Succeeded,
    /// It ran and failed; what it printed on stderr.
    Failed(String),
    /// It could not be run; the error as text.
    NotRun(String),
}

/// What the repair observed last.
#[derive(Clone, Debug)]
pub enum RepairEvent {
    /// Whether a ping of the gateway answered.
    Ping(bool),
    Command(CommandOutcome),
}

/// What the shell does next in the repair.
#[derive(Clone, Debug)]
pub enum RepairAction {
    /// Ping the gateway (after a three-second pause, except the first time).
    Ping,
    /// Run this command with `sh -c`.
    Run(String),
    /// Answer with this account of the repair.
    Finish(String),
}

#[derive(Clone, Copy, Debug, PartialEq, Eq)]
pub enum RepairPhase {
    CheckInitial,
    FirstAttempt,
    CheckFirst,
    SecondAttempt,
    CheckSecond,
    Done,
}

/// The tunnel repair: ping; if down, restart the tunnel with `wg-quick`
/// (only when the configuration exists), ping; if still down, restart it
/// again, ping; the account of what happened is the answer.
#[derive(Clone, Debug)]
pub struct WgRepair {
    pub phase: RepairPhase,
    pub log: String,
    pub conf_exists: bool,
    pub first_command: String,
    pub second_command: String,
}

/// `wg-quick` for the repair: Homebrew's, else `/usr/local`'s, else the
/// bare command.
pub fn repair_wg_quick(homebrew_exists: bool, usr_local_exists: bool) -> (r: &'static str)
    ensures
        r@ == (if homebrew_exists {
            "/opt/homebrew/bin/wg-quick"@
        } else if usr_local_exists {
            "/usr/local/bin/wg-quick"@
        } else {
            "wg-quick"@
        }),
{
    if homebrew_exists {
        "/opt/homebrew/bin/wg-quick"
    } else if usr_local_exists {
        "/usr/local/bin/wg-quick"
    } else {
        "wg-quick"
    }
}

/// `sudo B W down wg0 2>/dev/null; sleep 1; sudo B W up CONF`, with the
/// interpreter prefix `B ` only when one is given.
pub open spec fn restart_command(bash: Option<Seq<char>>, wq: Seq<char>, conf: Seq<char>) -> Seq<char> {
    let pre = match bash {
        Some(b) => b + " "@,
        None => Seq::empty(),
    };
    "sudo "@ + pre + wq + " down wg0 2>/dev/null; sleep 1; sudo "@ + pre + wq + " up "@ + conf
}

fn restart_command_exec(bash: Option<&str>, wq: &str, conf: &str) -> (r: String)
    ensures
        r@ == restart_command(crate::text::opt_ref_view(bash), wq@, conf@),
{
    let mut e: Vec<char> = Vec::new();
    let mut pre: Vec<char> = Vec::new();
    match bash {
        Some(b) => {
            push_str(&mut pre, b);
            push_str(&mut pre, " ");
        },
        None => {},
    }
    push_str(&mut e, "sudo ");
    push_range(&mut e, pre.as_slice(), 0, pre.len());
    push_str(&mut e, wq);
    push_str(&mut e, " down wg0 2>/dev/null; sleep 1; sudo ");
    push_range(&mut e, pre.as_slice(), 0, pre.len());
    push_str(&mut e, wq);
    push_str(&mut e, " up ");
    push_str(&mut e, conf);
    assert(pre@.subrange(0, pre@.len() as int) =~= pre@);
    string_of(e.as_slice())
}

pub open spec fn is_finish(a: RepairAction, msg: Seq<char>) -> bool {
    a matches RepairAction::Finish(m) && m@ == msg
}

pub open spec fn repair_step(pre: WgRepair, ev: RepairEvent, post: WgRepair, a: RepairAction) -> bool {
    let keep = post.conf_exists == pre.conf_exists && post.first_command@ == pre.first_command@
        && post.second_command@ == pre.second_command@;
    let run_first = a matches RepairAction::Run(c) && c@ == pre.first_command@;
    let run_second = a matches RepairAction::Run(c) && c@ == pre.second_command@;
    keep && match pre.phase {
        RepairPhase::CheckInitial => match ev {
            RepairEvent::Ping(true) => post.phase == RepairPhase::Done && is_finish(
                a,
                "Tunnel is actually up. Pinged 10.8.0.1 successfully."@,
            ),
            _ => post.log@ == pre.log@ + "Tunnel confirmed down. "@ && if pre.conf_exists {
                post.phase == RepairPhase::FirstAttempt && run_first
            } else {
                post.phase == RepairPhase::SecondAttempt && run_second
            },
        },
        RepairPhase::FirstAttempt => post.phase == RepairPhase::CheckFirst && a is Ping
            && post.log@ == pre.log@ + match ev {
            RepairEvent::Command(CommandOutcome::Succeeded) => "Ran wg-quick down/up. "@,
            RepairEvent::Command(CommandOutcome::Failed(s)) => "wg-quick: "@ + trim(s@) + ". "@,
            RepairEvent::Command(CommandOutcome::NotRun(e)) => "wg-quick failed: "@ + e@ + ". "@,
            _ => Seq::empty(),
        },
        RepairPhase::CheckFirst => match ev {
            RepairEvent::Ping(true) => post.phase == RepairPhase::Done && is_finish(
                a,
                pre.log@ + "FIXED. Tunnel reconnected."@,
            ),
            _ => post.phase == RepairPhase::SecondAttempt && post.log@ == pre.log@ && run_second,
        },
        RepairPhase::SecondAttempt => post.phase == RepairPhase::CheckSecond && a is Ping
            && post.log@ == pre.log@ + match ev {
            RepairEvent::Command(CommandOutcome::Failed(s)) => "wg-quick failed: "@ + trim(s@)
                + ". "@,
            RepairEvent::Command(CommandOutcome::NotRun(e)) => "wg-quick error: "@ + e@ + ". "@,
            _ => Seq::empty(),
        },
        RepairPhase::CheckSecond => post.phase == RepairPhase::Done && is_finish(
            a,
            pre.log@ + match ev {
                RepairEvent::Ping(true) => "FIXED on second attempt."@,
                _ => "Still down after 2 attempts. May need manual intervention — check wg0.conf and VPS firewall."@,
            },
        ),
        RepairPhase::Done => post.phase == RepairPhase::Done && a is Ping,
    }
}

fn appended(log: &String, part: &str) -> (r: String)
    ensures
        r@ == log@ + part@,
{
    let mut e: Vec<char> = Vec::new();
    push_str(&mut e, log.as_str());
    push_str(&mut e, part);
    string_of(e.as_slice())
}

fn appended3(log: &String, a: &str, b: &str, c: &str) -> (r: String)
    ensures
        r@ == log@ + (a@ + b@ + c@),
{
    let mut e: Vec<char> = Vec::new();
    push_str(&mut e, log.as_str());
    push_str(&mut e, a);
    push_str(&mut e, b);
    push_str(&mut e, c);
    assert(e@ =~= log@ + (a@ + b@ + c@));
    string_of(e.as_slice())
}

impl WgRepair {
    /// The repair for the configuration at `conf_path`; `brew_bash` is the
    /// Homebrew `bash` when installed (the system one is too old for
    /// `wg-quick`), `wg_quick` the tool as `repair_wg_quick` chose it.
    pub fn new(conf_exists: bool, brew_bash: Option<&str>, wg_quick: &str, conf_path: &str) -> (r: Self)
        ensures
            r.phase == RepairPhase::CheckInitial,
            r.log@ == Seq::<char>::empty(),
            r.conf_exists == conf_exists,
            r.first_command@ == (match brew_bash {
                Some(b) => restart_command(Some(b@), wg_quick@, conf_path@),
                None => restart_command(None, "wg-quick"@, conf_path@),
            }),
            r.second_command@ == restart_command(crate::text::opt_ref_view(brew_bash), wg_quick@, conf_path@),
    {
        let first = match brew_bash {
            Some(b) => restart_command_exec(Some(b), wg_quick, conf_path),
            None => restart_command_exec(None, "wg-quick", conf_path),
        };
        let second = restart_command_exec(brew_bash, wg_quick, conf_path);
        WgRepair {
            phase: RepairPhase::CheckInitial,
            log: String::new(),
            conf_exists,
            first_command: first,
            second_command: second,
        }
    }

    /// Takes one step on what was observed last.
    pub fn step(&mut self, ev: RepairEvent) -> (a: RepairAction)
        ensures
            repair_step(*old(self), ev, *final(self), a),
    {
        match self.phase {
            RepairPhase::CheckInitial => match ev {
                RepairEvent::Ping(true) => {
                    self.phase = RepairPhase::Done;
                    RepairAction::Finish(owned("Tunnel is actually up. Pinged 10.8.0.1 successfully."))
                },
                _ => {
                    self.log = appended(&self.log, "Tunnel confirmed down. ");
                    if self.conf_exists {
                        self.phase = RepairPhase::FirstAttempt;
                        RepairAction::Run(self.first_command.clone())
                    } else {
                        self.phase = RepairPhase::SecondAttempt;
                        RepairAction::Run(self.second_command.clone())
                    }
                },
            },
            RepairPhase::FirstAttempt => {
                match ev {
                    RepairEvent::Command(CommandOutcome::Succeeded) => {
                        self.log = appended(&self.log, "Ran wg-quick down/up. ");
                    },
                    RepairEvent::Command(CommandOutcome::Failed(s)) => {
                        let t = trimmed(s.as_str());
                        let ts = string_of(t.as_slice());
                        self.log = appended3(&self.log, "wg-quick: ", ts.as_str(), ". ");
                    },
                    RepairEvent::Command(CommandOutcome::NotRun(e)) => {
                        self.log = appended3(&self.log, "wg-quick failed: ", e.as_str(), ". ");
                    },
                    _ => {
                        proof {
                            assert(self.log@ + Seq::<char>::empty() =~= self.log@);
                        }
                    },
                }
                self.phase = RepairPhase::CheckFirst;
                RepairAction::Ping
            },
            RepairPhase::CheckFirst => match ev {
                RepairEvent::Ping(true) => {
                    self.phase = RepairPhase::Done;
                    RepairAction::Finish(appended(&self.log, "FIXED. Tunnel reconnected."))
                },
                _ => {
                    self.phase = RepairPhase::SecondAttempt;
                    RepairAction::Run(self.second_command.clone())
                },
            },
            RepairPhase::SecondAttempt => {
                match ev {
                    RepairEvent::Command(CommandOutcome::Failed(s)) => {
                        let t = trimmed(s.as_str());
                        let ts = string_of(t.as_slice());
                        self.log = appended3(&self.log, "wg-quick failed: ", ts.as_str(), ". ");
                    },
                    RepairEvent::Command(CommandOutcome::NotRun(e)) => {
                        self.log = appended3(&self.log, "wg-quick error: ", e.as_str(), ". ");
                    },
                    _ => {
                        proof {
                            assert(self.log@ + Seq::<char>::empty() =~= self.log@);
                        }
                    },
                }
                self.phase = RepairPhase::CheckSecond;
                RepairAction::Ping
            },
            RepairPhase::CheckSecond => {
                self.phase = RepairPhase::Done;
                match ev {
                    RepairEvent::Ping(true) => RepairAction::Finish(
                        appended(&self.log, "FIXED on second attempt."),
                    ),
                    _ => RepairAction::Finish(
                        appended(
                            &self.log,
                            "Still down after 2 attempts. May need manual intervention — check wg0.conf and VPS firewall.",
                        ),
                    ),
                }
            },
            RepairPhase::Done => RepairAction::Ping,
        }
    }
}

/// The repair finishes: from any phase it reaches its answer within five
/// steps, whatever is observed.
pub proof fn lemma_repair_progress(pre: WgRepair, ev: RepairEvent, post: WgRepair, a: RepairAction)
    requires
        repair_step(pre, ev, post, a),
        pre.phase != RepairPhase::Done,
    ensures
        repair_rank(post.phase) < repair_rank(pre.phase),
        a is Finish <==> post.phase == RepairPhase::Done,
{
}

pub open spec fn repair_rank(p: RepairPhase) -> nat {
    match p {
        RepairPhase::CheckInitial => 5,
        RepairPhase::FirstAttempt => 4,
        RepairPhase::CheckFirst => 3,
        RepairPhase::SecondAttempt => 2,
        RepairPhase::CheckSecond => 1,
        RepairPhase::Done => 0,
    }
}

/// The engine repair's answer when Ollama already answers.
pub fn ollama_repair_unneeded(running: bool) -> (r: Option<String>)
    ensures
        running ==> (r matches Some(m) && m@ == "Ollama is already running."@),
        !running ==> r is None,
{
    if running {
        Some(owned("Ollama is already running."))
    } else {
        None
    }
}

/// The engine repair's account after restarting Ollama.
pub fn ollama_repair_log(running_after: bool) -> (r: String)
    ensures
        r@ == "Ollama confirmed down. "@ + (if running_after {
            "FIXED. Ollama restarted and responding."@
        } else {
            "Still down. May need manual check."@
        }),
{
    let mut e: Vec<char> = Vec::new();
    push_str(&mut e, "Ollama confirmed down. ");
    if running_after {
        push_str(&mut e, "FIXED. Ollama restarted and responding.");
    } else {
        push_str(&mut e, "Still down. May need manual check.");
    }
    string_of(e.as_slice())
}

// ---------------------------------------------------------------------------
// Installing the tools and making keys
// ---------------------------------------------------------------------------

/// `brew`: Homebrew's Apple Silicon location when it exists
/// (`homebrew`), else a PATH lookup.
pub fn brew_bin(homebrew: bool) -> (r: &'static str)
    ensures
        r@ == (if homebrew {
            "/opt/homebrew/bin/brew"@
        } else {
            "brew"@
        }),
{
    if homebrew {
        "/opt/homebrew/bin/brew"
    } else {
        "brew"
    }
}

/// How the WireGuard tools are installed when they are missing.
#[derive(Clone, Copy, Debug, PartialEq, Eq)]
pub enum ToolsInstaller {
    /// `brew install wireguard-tools` (macOS).
    Brew,
    /// The silent WireGuard installer (Windows).
    SilentInstaller,
    /// `sudo apt-get install -y wireguard-tools` (Linux).
    Apt,
}

/// The answer to an installation of the tools that ran; `stderr` is what a
/// failed run printed.
pub fn tools_install_result(installer: ToolsInstaller, success: bool, stderr: &str) -> (r: Result<(), String>)
    ensures
        success ==> r is Ok,
        !success ==> err_is(
            r,
            match installer {
                ToolsInstaller::Brew => "brew install wireguard-tools failed: "@ + stderr@
                    + ". Please install WireGuard manually from https://www.wireguard.com/install/"@,
                ToolsInstaller::SilentInstaller =>
                    "WireGuard silent install failed. Please install manually from https://www.wireguard.com/install/"@,
                ToolsInstaller::Apt => "apt install wireguard-tools failed: "@ + stderr@
                    + ". Please install manually."@,
            },
        ),
{
    if success {
        return Ok(());
    }
    let mut e: Vec<char> = Vec::new();
    match installer {
        ToolsInstaller::Brew => {
            push_str(&mut e, "brew install wireguard-tools failed: ");
            push_str(&mut e, stderr);
            push_str(&mut e, ". Please install WireGuard manually from https://www.wireguard.com/install/");
        },
        ToolsInstaller::SilentInstaller => {
            push_str(
                &mut e,
                "WireGuard silent install failed. Please install manually from https://www.wireguard.com/install/",
            );
        },
        ToolsInstaller::Apt => {
            push_str(&mut e, "apt install wireguard-tools failed: ");
            push_str(&mut e, stderr);
            push_str(&mut e, ". Please install manually.");
        },
    }
    Err(string_of(e.as_slice()))
}

/// The key `wg genkey` or `wg pubkey` printed: its output trimmed, when
/// the run succeeded and printed something.
pub fn printed_key(success: bool, stdout: &str) -> (r: Option<String>)
    ensures
        opt_string(r) == (if success && trim(stdout@).len() > 0 {
            Some(trim(stdout@))
        } else {
            None
        }),
{
    if !success {
        return None;
    }
    let t = trimmed(stdout);
    if t.len() == 0 {
        None
    } else {
        Some(string_of(t.as_slice()))
    }
}

pub open spec fn missing_tools_message() -> Seq<char> {
    "WireGuard tools (wg) not found. Please install WireGuard:\n- macOS: brew install wireguard-tools\n- Linux: sudo apt install wireguard-tools\n- Windows: https://www.wireguard.com/install/"@
}

/// A keypair needs both keys from the tools; without them the user is told
/// to install WireGuard.
pub fn keypair_result(private_key: Option<String>, public_key: Option<String>) -> (r: Result<(String, String), String>)
    ensures
        (private_key is Some && public_key is Some) ==> (r matches Ok((a, b)) && a@
            == private_key->0@ && b@ == public_key->0@),
        !(private_key is Some && public_key is Some) ==> err_is(r, missing_tools_message()),
{
    match (private_key, public_key) {
        (Some(a), Some(b)) => Ok((a, b)),
        _ => Err(owned(
            "WireGuard tools (wg) not found. Please install WireGuard:\n- macOS: brew install wireguard-tools\n- Linux: sudo apt install wireguard-tools\n- Windows: https://www.wireguard.com/install/",
        )),
    }
}

/// The tunnel sentence opens with whether the gateway answered; when it
/// did, it ends by naming a recent handshake exactly when `wg show`
/// reported one, and none otherwise.
pub proof fn lemma_report_handshake(up: bool, gateway: Seq<char>, wg_show: Seq<char>, ip_output: Seq<char>)
    ensures
        ({
            let r = wireguard_report_spec(up, gateway, wg_show, ip_output);
            &&& up ==> r.len() >= 16 && r.take(16) == "WireGuard is UP."@
            &&& !up ==> r.len() >= 18 && r.take(18) == "WireGuard is DOWN."@
            &&& up && has_handshake(wg_show) ==> r.len() >= 18 && r.skip(r.len() - 18)
                == "Handshake: recent."@
            &&& up && !has_handshake(wg_show) ==> r.len() >= 16 && r.skip(r.len() - 16)
                == "Handshake: none."@
        }),
{
    reveal_strlit("WireGuard is UP. Mesh IP: ");
    reveal_strlit("WireGuard is UP.");
    reveal_strlit("WireGuard is DOWN. Interface exists (");
    reveal_strlit("WireGuard is DOWN.");
    reveal_strlit(" reachable. Handshake: ");
    reveal_strlit("recent");
    reveal_strlit("none");
    reveal_strlit(".");
    reveal_strlit("Handshake: recent.");
    reveal_strlit("Handshake: none.");
    let r = wireguard_report_spec(up, gateway, wg_show, ip_output);
    let ip = trim(ip_output);
    let shown = if ip.len() == 0 {
        "unknown"@
    } else {
        ip
    };
    if up {
        let head = "WireGuard is UP. Mesh IP: "@ + shown + ". Gateway "@ + gateway;
        let word = if has_handshake(wg_show) {
            "recent"@
        } else {
            "none"@
        };
        assert(r == head + " reachable. Handshake: "@ + word + "."@);
        assert(r.take(16) =~= "WireGuard is UP."@);
        if has_handshake(wg_show) {
            assert(r.skip(r.len() - 18) =~= "Handshake: recent."@);
        } else {
            assert(r.skip(r.len() - 16) =~= "Handshake: none."@);
        }
    } else {
        assert(r.take(18) =~= "WireGuard is DOWN."@);
    }
}

} // verus!
