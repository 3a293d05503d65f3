//! The agent's quick system checks: disk and memory from the tools' output,
//! the inference engine's state, how long the gateway has been up, and the
//! counts of the live metrics; each answered as the sentence or the record
//! the front end shows.

use vstd::prelude::*;
use crate::hardware::smi_fields;
use crate::health::u64_or_zero;
use vstd::string::StringSliceAdditionalSpecFns;
use crate::json::{json_array, json_get, json_index, str_field, u64_field, JsonValue};
use crate::text::{
    chars_of, contains, contains_in, contains_pred, decimal, first_span_containing,
    first_span_starting_with, first_where,
    last_after, last_after_span, line_spans, lines, or_text, owned, parse_u32, parse_u32_spec,
    parse_u64, parse_u64_spec, piece, pieces, push_decimal, push_range, push_str, replace_all,
    replaced, split_spans, starts_pred, string_of, string_range, trim, trim_end_char,
    trim_end_char_at, trim_span, trimmed, views, word_spans, words, Span,
};

verus! {

// ---------------------------------------------------------------------------
// Disk
// ---------------------------------------------------------------------------

/// The fields of the second line of `df -h /` when it has at least five.
pub open spec fn df_fields(out: Seq<char>) -> Option<Seq<Seq<char>>> {
    let ls = lines(out);
    if ls.len() >= 2 && words(ls[1]).len() >= 5 {
        Some(words(ls[1]))
    } else {
        None
    }
}

/// The use percentage field read as a number, without its `%`; 0 when it
/// is not one.
pub open spec fn percent_of(field: Seq<char>) -> u32 {
    match parse_u32_spec(trim_end_char(field, '%')) {
        Some(v) => v,
        None => 0,
    }
}

fn df_field_spans(cs: &[char]) -> (r: Option<Vec<Span>>)
    ensures
        r matches Some(ws) ==> df_fields(cs@) == Some(pieces(cs@, ws@)) && forall|k: int|
            0 <= k < ws@.len() ==> crate::text::span_in(#[trigger] ws@[k], 0, cs@.len() as int),
        r is None ==> df_fields(cs@) is None,
{
    let ls = line_spans(cs, 0, cs.len());
    assert(cs@.subrange(0, cs@.len() as int) =~= cs@);
    assert(pieces(cs@, ls@) == lines(cs@));
    if ls.len() >= 2 {
        let l = ls[1];
        assert(piece(cs@, l) == lines(cs@)[1]);
        let ws = word_spans(cs, l.start, l.end);
        if ws.len() >= 5 {
            proof {
                assert forall|k: int| 0 <= k < ws@.len() implies crate::text::span_in(
                    #[trigger] ws@[k],
                    0,
                    cs@.len() as int,
                ) by {
                    assert(crate::text::span_in(ws@[k], l.start as int, l.end as int));
                }
            }
            return Some(ws);
        }
    }
    None
}

fn percent_at(cs: &[char], sp: Span) -> (r: u32)
    requires
        crate::text::span_in(sp, 0, cs@.len() as int),
    ensures
        r == percent_of(piece(cs@, sp)),
{
    let e = trim_end_char_at(cs, sp.start, sp.end, '%');
    match parse_u32(cs, sp.start, e) {
        Some(v) => v,
        None => 0,
    }
}

/// The agent's sentence about the root disk.
pub open spec fn disk_report_spec(df_output: Seq<char>) -> Seq<char> {
    match df_fields(df_output) {
        Some(w) => {
            let pct = percent_of(w[4]);
            let free = w[3];
            if pct > 90 {
                "Disk is CRITICAL — "@ + decimal(pct as nat) + "% used, only "@ + free
                    + " free. I should clean old logs and Ollama cache."@
            } else if pct > 75 {
                "Disk at "@ + decimal(pct as nat) + "% used, "@ + free
                    + " free. Getting full. Will clean up old logs tonight."@
            } else {
                "Disk is fine. "@ + decimal(pct as nat) + "% used, "@ + free
                    + " free. Plenty of room."@
            }
        },
        None => "Couldn't read disk info."@,
    }
}

pub fn disk_report(df_output: &str) -> (r: String)
    ensures
        r@ == disk_report_spec(df_output@),
{
    let cs = chars_of(df_output);
    match df_field_spans(cs.as_slice()) {
        Some(ws) => {
            let pct = percent_at(cs.as_slice(), ws[4]);
            let free = ws[3];
            assert(crate::text::span_in(ws@[3], 0, cs@.len() as int));
            let mut e: Vec<char> = Vec::new();
            if pct > 90 {
                push_str(&mut e, "Disk is CRITICAL — ");
                push_decimal(&mut e, pct as u64);
                push_str(&mut e, "% used, only ");
                push_range(&mut e, cs.as_slice(), free.start, free.end);
                push_str(&mut e, " free. I should clean old logs and Ollama cache.");
            } else if pct > 75 {
                push_str(&mut e, "Disk at ");
                push_decimal(&mut e, pct as u64);
                push_str(&mut e, "% used, ");
                push_range(&mut e, cs.as_slice(), free.start, free.end);
                push_str(&mut e, " free. Getting full. Will clean up old logs tonight.");
            } else {
                push_str(&mut e, "Disk is fine. ");
                push_decimal(&mut e, pct as u64);
                push_str(&mut e, "% used, ");
                push_range(&mut e, cs.as_slice(), free.start, free.end);
                push_str(&mut e, " free. Plenty of room.");
            }
            string_of(e.as_slice())
        },
        None => owned("Couldn't read disk info."),
    }
}

/// The root disk's sizes as `df -h /` prints them.
#[derive(Clone, Debug, PartialEq, Eq)]
pub struct DiskUsage {
    pub total: String,
    pub used: String,
    pub free: String,
    pub percent: u32,
}

pub fn disk_usage(df_output: &str) -> (r: DiskUsage)
    ensures
        df_fields(df_output@) matches Some(w) ==> r.total@ == w[1] && r.used@ == w[2] && r.free@
            == w[3] && r.percent == percent_of(w[4]),
        df_fields(df_output@) is None ==> r.total@ == "?"@ && r.used@ == "?"@ && r.free@ == "?"@
            && r.percent == 0,
{
    let cs = chars_of(df_output);
    match df_field_spans(cs.as_slice()) {
        Some(ws) => {
            let t = ws[1];
            let u = ws[2];
            let f = ws[3];
            assert(crate::text::span_in(ws@[1], 0, cs@.len() as int));
            assert(crate::text::span_in(ws@[2], 0, cs@.len() as int));
            assert(crate::text::span_in(ws@[3], 0, cs@.len() as int));
            DiskUsage {
                total: string_range(cs.as_slice(), t.start, t.end),
                used: string_range(cs.as_slice(), u.start, u.end),
                free: string_range(cs.as_slice(), f.start, f.end),
                percent: percent_at(cs.as_slice(), ws[4]),
            }
        },
        None => DiskUsage { total: owned("?"), used: owned("?"), free: owned("?"), percent: 0 },
    }
}

// ---------------------------------------------------------------------------
// Memory
// ---------------------------------------------------------------------------

/// Memory in MB: total, used, free.
#[derive(Clone, Copy, Debug, PartialEq, Eq)]
pub struct RamUsage {
    pub total_mb: u64,
    pub used_mb: u64,
    pub free_mb: u64,
}

/// The `Mem:` line of `free -m` (empty when there is none).
pub open spec fn mem_line(out: Seq<char>) -> Seq<char> {
    let ls = lines(out);
    match first_where(ls, starts_pred("Mem:"@)) {
        Some(k) => ls[k],
        None => Seq::empty(),
    }
}

/// Memory from `free -m` (Linux): the second to fourth fields of the `Mem:`
/// line, each 0 when not a number; all 0 without four fields.
pub fn linux_ram(free_output: &str) -> (r: RamUsage)
    ensures
        ({
            let w = words(mem_line(free_output@));
            if w.len() >= 4 {
                r.total_mb == u64_or_zero(w[1]) && r.used_mb == u64_or_zero(w[2]) && r.free_mb
                    == u64_or_zero(w[3])
            } else {
                r.total_mb == 0 && r.used_mb == 0 && r.free_mb == 0
            }
        }),
{
    let cs = chars_of(free_output);
    let ls = line_spans(cs.as_slice(), 0, cs.len());
    assert(cs@.subrange(0, cs@.len() as int) =~= free_output@);
    assert(pieces(cs@, ls@) == lines(free_output@));
    let key = chars_of("Mem:");
    let line = match first_span_starting_with(cs.as_slice(), ls.as_slice(), key.as_slice()) {
        Some(k) => {
            assert(piece(cs@, ls@[k as int]) == lines(free_output@)[k as int]);
            ls[k]
        },
        None => {
            assert(cs@.subrange(0, 0) =~= Seq::<char>::empty());
            Span { start: 0, end: 0 }
        },
    };
    let ws = word_spans(cs.as_slice(), line.start, line.end);
    if ws.len() >= 4 {
        let a = ws[1];
        let b = ws[2];
        let c = ws[3];
        RamUsage {
            total_mb: match parse_u64(cs.as_slice(), a.start, a.end) {
                Some(v) => v,
                None => 0,
            },
            used_mb: match parse_u64(cs.as_slice(), b.start, b.end) {
                Some(v) => v,
                None => 0,
            },
            free_mb: match parse_u64(cs.as_slice(), c.start, c.end) {
                Some(v) => v,
                None => 0,
            },
        }
    } else {
        RamUsage { total_mb: 0, used_mb: 0, free_mb: 0 }
    }
}

/// Memory from the Windows `Win32_OperatingSystem` figures in KiB
/// (`None` when the answer did not parse); the subtraction wraps around as
/// the release build's arithmetic does.
pub fn windows_ram(figures: Option<&JsonValue>) -> (r: RamUsage)
    ensures
        figures is None ==> r == (RamUsage { total_mb: 0, used_mb: 0, free_mb: 0 }),
        figures matches Some(v) ==> ({
            let total = match u64_field(*v, "TotalVisibleMemorySize"@) {
                Some(t) => t,
                None => 0,
            };
            let free = match u64_field(*v, "FreePhysicalMemory"@) {
                Some(f) => f,
                None => 0,
            };
            r == (RamUsage {
                total_mb: total / 1024,
                used_mb: vstd::wrapping::u64_specs::wrapping_sub(total, free) / 1024,
                free_mb: free / 1024,
            })
        }),
{
    match figures {
        Some(v) => {
            let total = match v.u64_field("TotalVisibleMemorySize") {
                Some(t) => t,
                None => 0,
            };
            let free = match v.u64_field("FreePhysicalMemory") {
                Some(f) => f,
                None => 0,
            };
            RamUsage {
                total_mb: total / 1024,
                used_mb: total.wrapping_sub(free) / 1024,
                free_mb: free / 1024,
            }
        },
        None => RamUsage { total_mb: 0, used_mb: 0, free_mb: 0 },
    }
}

/// The page count on a `vm_stat` line: after its last colon, trimmed,
/// without the final periods; 0 when not a number.
pub open spec fn page_count(line: Seq<char>) -> u64 {
    u64_or_zero(trim_end_char(last_after(line, ':'), '.'))
}

/// The free, inactive and speculative page counts of `vm_stat`: for each,
/// the last line mentioning it (a line counts for the first of the three
/// it mentions).
pub open spec fn vm_pages(ls: Seq<Seq<char>>) -> (u64, u64, u64)
    decreases ls.len(),
{
    if ls.len() == 0 {
        (0, 0, 0)
    } else {
        let p = vm_pages(ls.drop_last());
        let l = ls.last();
        if contains(l, "Pages free:"@) {
            (page_count(l), p.1, p.2)
        } else if contains(l, "Pages inactive:"@) {
            (p.0, page_count(l), p.2)
        } else if contains(l, "Pages speculative:"@) {
            (p.0, p.1, page_count(l))
        } else {
            p
        }
    }
}

/// Memory on a Mac from `sysctl -n hw.memsize` and `vm_stat`, with 16 KiB
/// pages; the page arithmetic wraps around as the release build's does.
pub open spec fn mac_ram_spec(memsize: Seq<char>, vm_stat: Seq<char>) -> RamUsage {
    let total_mb = (u64_or_zero(trim(memsize)) / 1048576) as u64;
    let p = vm_pages(lines(vm_stat));
    let pages = vstd::wrapping::u64_specs::wrapping_add(
        vstd::wrapping::u64_specs::wrapping_add(p.0, p.1),
        p.2,
    );
    let free_mb = (vstd::wrapping::u64_specs::wrapping_mul(pages, 16384) / 1048576) as u64;
    RamUsage {
        total_mb,
        used_mb: if total_mb > free_mb {
            (total_mb - free_mb) as u64
        } else {
            0
        },
        free_mb,
    }
}

fn page_count_at(cs: &[char], sp: Span) -> (r: u64)
    requires
        crate::text::span_in(sp, 0, cs@.len() as int),
    ensures
        r == page_count(piece(cs@, sp)),
{
    let v = last_after_span(cs, sp.start, sp.end, ':');
    let e = trim_end_char_at(cs, v.start, v.end, '.');
    match parse_u64(cs, v.start, e) {
        Some(n) => n,
        None => 0,
    }
}

pub fn mac_ram(memsize_output: &str, vm_stat_output: &str) -> (r: RamUsage)
    ensures
        r == mac_ram_spec(memsize_output@, vm_stat_output@),
{
    let total_mb = crate::hardware::number_or_zero(memsize_output) / 1048576;
    let cs = chars_of(vm_stat_output);
    let ls = line_spans(cs.as_slice(), 0, cs.len());
    assert(cs@.subrange(0, cs@.len() as int) =~= vm_stat_output@);
    let ghost all = lines(vm_stat_output@);
    assert(pieces(cs@, ls@) == all);
    let p_free = chars_of("Pages free:");
    let p_inactive = chars_of("Pages inactive:");
    let p_spec = chars_of("Pages speculative:");
    let mut free: u64 = 0;
    let mut inactive: u64 = 0;
    let mut speculative: u64 = 0;
    let mut i: usize = 0;
    while i < ls.len()
        invariant
            i <= ls@.len(),
            all == pieces(cs@, ls@),
            p_free@ == "Pages free:"@,
            p_inactive@ == "Pages inactive:"@,
            p_spec@ == "Pages speculative:"@,
            forall|k: int| 0 <= k < ls@.len() ==> crate::text::span_in(#[trigger] ls@[k], 0, cs@.len() as int),
            vm_pages(all.take(i as int)) == (free, inactive, speculative),
        decreases ls@.len() - i,
    {
        let l = ls[i];
        assert(crate::text::span_in(ls@[i as int], 0, cs@.len() as int));
        assert(all.take(i + 1).drop_last() =~= all.take(i as int));
        assert(all.take(i + 1).last() == piece(cs@, l));
        if contains_in(cs.as_slice(), l.start, l.end, p_free.as_slice()) {
            free = page_count_at(cs.as_slice(), l);
        } else if contains_in(cs.as_slice(), l.start, l.end, p_inactive.as_slice()) {
            inactive = page_count_at(cs.as_slice(), l);
        } else if contains_in(cs.as_slice(), l.start, l.end, p_spec.as_slice()) {
            speculative = page_count_at(cs.as_slice(), l);
        }
        i += 1;
    }
    assert(all.take(ls@.len() as int) =~= all);
    let pages = free.wrapping_add(inactive).wrapping_add(speculative);
    let free_mb = pages.wrapping_mul(16384) / 1048576;
    RamUsage { total_mb, used_mb: total_mb.saturating_sub(free_mb), free_mb }
}

// ---------------------------------------------------------------------------
// The inference engine
// ---------------------------------------------------------------------------

/// The first `n` bytes of the UTF-8 text `s`, as text.
pub open spec fn byte_prefix_is(s: Seq<char>, n: int, p: Seq<char>) -> bool {
    vstd::utf8::encode_utf8(p) == vstd::utf8::encode_utf8(s).take(n)
}

pub open spec fn excerpt_len(s: Seq<char>) -> int {
    let len = (vstd::utf8::encode_utf8(s).len() as usize) as int;
    if len < 100 {
        len
    } else {
        100
    }
}

/// The agent's sentence about Ollama, from whether it answered and what
/// its tags and process listings returned. A listing that names models is
/// quoted up to its first 100 bytes, which must end on a character
/// boundary (where the text is cut inside a character it cannot be quoted).
pub fn ollama_report(up: bool, tags: &str, processes: &str) -> (r: String)
    requires
        up && contains(tags@, "name"@) ==> vstd::utf8::is_char_boundary(
            vstd::utf8::encode_utf8(tags@),
            excerpt_len(tags@),
        ),
    ensures
        !up ==> r@
            == "Ollama is DOWN. Not responding on localhost:11434. Say 'fix ollama' and I'll restart it."@,
        up && contains(tags@, "name"@) ==> exists|p: Seq<char>|
            #![trigger byte_prefix_is(tags@, excerpt_len(tags@), p)]
            byte_prefix_is(tags@, excerpt_len(tags@), p) && r@ == ollama_up_report(p, processes@),
        up && !contains(tags@, "name"@) ==> r@ == ollama_up_report("checking..."@, processes@),
{
    if !up {
        return owned(
            "Ollama is DOWN. Not responding on localhost:11434. Say 'fix ollama' and I'll restart it.",
        );
    }
    let tcs = chars_of(tags);
    let pcs = chars_of(processes);
    let name = chars_of("name");
    let model = chars_of("model");
    assert(tcs@.subrange(0, tcs@.len() as int) =~= tags@);
    assert(pcs@.subrange(0, pcs@.len() as int) =~= processes@);
    let mut e: Vec<char> = Vec::new();
    push_str(&mut e, "Ollama is UP and responding. Models installed: ");
    if contains_in(tcs.as_slice(), 0, tcs.len(), name.as_slice()) {
        let n = if tags.len() < 100 {
            tags.len()
        } else {
            100
        };
        assert(tags.spec_bytes() == vstd::utf8::encode_utf8(tags@));
        let (head, _) = tags.split_at(n);
        assert(byte_prefix_is(tags@, excerpt_len(tags@), head@));
        push_str(&mut e, head);
    } else {
        push_str(&mut e, "checking...");
    }
    push_str(&mut e, ". Running processes: ");
    if contains_in(pcs.as_slice(), 0, pcs.len(), model.as_slice()) {
        push_str(&mut e, "active inference");
    } else {
        push_str(&mut e, "idle, ready for jobs");
    }
    push_str(&mut e, ".");
    string_of(e.as_slice())
}

/// The sentence for an engine that answers, quoting `models`.
pub open spec fn ollama_up_report(models: Seq<char>, processes: Seq<char>) -> Seq<char> {
    "Ollama is UP and responding. Models installed: "@ + models + ". Running processes: "@ + (
    if contains(processes, "model"@) {
        "active inference"@
    } else {
        "idle, ready for jobs"@
    }) + "."@
}

/// The models array of an Ollama listing (none when absent).
pub open spec fn listed_models(v: JsonValue) -> Seq<JsonValue> {
    match json_array(json_index(v, "models"@)) {
        Some(a) => a,
        None => Seq::empty(),
    }
}

/// The names of the installed models, in listing order, skipping entries
/// without a textual name.
pub open spec fn model_names(ms: Seq<JsonValue>) -> Seq<Seq<char>>
    decreases ms.len(),
{
    if ms.len() == 0 {
        Seq::empty()
    } else {
        model_names(ms.drop_last()) + match str_field(ms.last(), "name"@) {
            Some(n) => seq![n],
            None => Seq::empty(),
        }
    }
}

fn models_of(v: &JsonValue) -> (r: &[JsonValue])
    ensures
        r@ == listed_models(*v),
{
    match v.get("models") {
        Some(JsonValue::Array(a)) => a.as_slice(),
        _ => {
            let empty: &[JsonValue] = &[];
            assert(empty@ =~= Seq::<JsonValue>::empty());
            empty
        },
    }
}

/// The installed model names from `/api/tags` (`None` when it did not
/// answer or parse).
pub fn installed_models(tags: Option<&JsonValue>) -> (r: Vec<String>)
    ensures
        views(r@) == (match tags {
            Some(v) => model_names(listed_models(*v)),
            None => Seq::empty(),
        }),
{
    let mut r: Vec<String> = Vec::new();
    match tags {
        Some(v) => {
            let ms = models_of(v);
            let mut i: usize = 0;
            while i < ms.len()
                invariant
                    i <= ms@.len(),
                    views(r@) == model_names(ms@.take(i as int)),
                decreases ms@.len() - i,
            {
                assert(ms@.take(i + 1).drop_last() =~= ms@.take(i as int));
                assert(ms@.take(i + 1).last() == ms@[i as int]);
                let ghost before = r@;
                match ms[i].str_field("name") {
                    Some(n) => {
                        r.push(n);
                        proof {
                            crate::text::lemma_views_push(before, r@[r@.len() - 1]);
                            assert(before.push(r@[r@.len() - 1]) =~= r@);
                        }
                        assert(views(r@) =~= model_names(ms@.take(i + 1)));
                    },
                    None => {
                        assert(views(r@) =~= model_names(ms@.take(i + 1)));
                    },
                }
                i += 1;
            }
            assert(ms@.take(ms@.len() as int) =~= ms@);
            r
        },
        None => {
            assert(views(r@) =~= Seq::<Seq<char>>::empty());
            r
        },
    }
}

/// A model loaded in the engine.
#[derive(Clone, Debug, PartialEq, Eq)]
pub struct RunningModel {
    pub name: String,
    pub size_mb: u64,
    pub vram_mb: u64,
}

pub open spec fn running_model_of(m: JsonValue, r: RunningModel) -> bool {
    &&& r.name@ == or_text(str_field(m, "name"@), "?"@)
    &&& r.size_mb == (match u64_field(m, "size"@) {
        Some(v) => v,
        None => 0,
    }) / 1048576
    &&& r.vram_mb == (match u64_field(m, "size_vram"@) {
        Some(v) => v,
        None => 0,
    }) / 1048576
}

/// The loaded models from `/api/ps` (`None` when it did not answer or parse).
pub fn running_models(ps: Option<&JsonValue>) -> (r: Vec<RunningModel>)
    ensures
        ({
            let ms = match ps {
                Some(v) => listed_models(*v),
                None => Seq::empty(),
            };
            r@.len() == ms.len() && forall|i: int|
                0 <= i < ms.len() ==> running_model_of(ms[i], #[trigger] r@[i])
        }),
{
    let mut r: Vec<RunningModel> = Vec::new();
    match ps {
        Some(v) => {
            let ms = models_of(v);
            let mut i: usize = 0;
            while i < ms.len()
                invariant
                    i <= ms@.len(),
                    r@.len() == i,
                    forall|k: int| 0 <= k < i ==> running_model_of(ms@[k], #[trigger] r@[k]),
                decreases ms@.len() - i,
            {
                let m = &ms[i];
                let name = match m.str_field("name") {
                    Some(n) => n,
                    None => owned("?"),
                };
                let size = match m.u64_field("size") {
                    Some(s) => s,
                    None => 0,
                };
                let vram = match m.u64_field("size_vram") {
                    Some(s) => s,
                    None => 0,
                };
                r.push(RunningModel { name, size_mb: size / 1048576, vram_mb: vram / 1048576 });
                i += 1;
            }
            r
        },
        None => r,
    }
}

// ---------------------------------------------------------------------------
// Uptime
// ---------------------------------------------------------------------------

/// The gateway's PID as `pgrep` printed it: the first line of the trimmed
/// output, when not empty.
pub open spec fn first_pid_text(out: Seq<char>) -> Option<Seq<char>> {
    let ls = lines(trim(out));
    if ls.len() > 0 && ls[0].len() > 0 {
        Some(ls[0])
    } else {
        None
    }
}

pub fn gateway_pid(pgrep_output: &str) -> (r: Option<String>)
    ensures
        crate::hardware::opt_string(r) == first_pid_text(pgrep_output@),
{
    let t = trimmed(pgrep_output);
    let ls = line_spans(t.as_slice(), 0, t.len());
    assert(t@.subrange(0, t@.len() as int) =~= t@);
    assert(pieces(t@, ls@) == lines(t@));
    if ls.len() > 0 {
        let l = ls[0];
        assert(piece(t@, l) == lines(t@)[0]);
        if l.start < l.end {
            return Some(string_range(t.as_slice(), l.start, l.end));
        }
    }
    None
}

/// The elapsed time `ps -o etime=` printed, when not empty.
pub fn elapsed_time(ps_output: &str) -> (r: Option<String>)
    ensures
        crate::hardware::opt_string(r) == (if trim(ps_output@).len() > 0 {
            Some(trim(ps_output@))
        } else {
            None
        }),
{
    let t = trimmed(ps_output);
    if t.len() > 0 {
        Some(string_of(t.as_slice()))
    } else {
        None
    }
}

/// `"since "` and the first 16 bytes of the recorded start time (date, hour
/// and minute) with the `T` separator turned into a space. The cut must
/// fall on a character boundary.
pub fn uptime_since(since: &str) -> (r: String)
    requires
        vstd::utf8::is_char_boundary(vstd::utf8::encode_utf8(since@), 16),
    ensures
        exists|p: Seq<char>|
            #![trigger byte_prefix_is(since@, 16, p)]
            byte_prefix_is(since@, 16, p) && r@ == "since "@ + replace_all(p, "T"@, " "@),
{
    assert(since.spec_bytes() == vstd::utf8::encode_utf8(since@));
    let (head, _) = since.split_at(16);
    assert(byte_prefix_is(since@, 16, head@));
    let hcs = chars_of(head);
    let t = chars_of("T");
    proof {
        reveal_strlit("T");
    }
    assert(hcs@.subrange(0, hcs@.len() as int) =~= head@);
    let rep = replaced(hcs.as_slice(), 0, hcs.len(), t.as_slice(), " ");
    let mut e: Vec<char> = Vec::new();
    push_str(&mut e, "since ");
    push_range(&mut e, rep.as_slice(), 0, rep.len());
    assert(rep@.subrange(0, rep@.len() as int) =~= rep@);
    string_of(e.as_slice())
}

/// The chip the system check names on a Mac: on the first line of
/// `system_profiler SPHardwareDataType` that mentions `Chip:`, what follows
/// the last colon; `"Apple Silicon"` when no line does.
pub open spec fn system_chip_spec(overview: Seq<char>) -> Seq<char> {
    match first_where(lines(overview), contains_pred("Chip:"@)) {
        Some(k) => last_after(lines(overview)[k], ':'),
        None => "Apple Silicon"@,
    }
}

pub fn system_chip(overview: &str) -> (r: String)
    ensures
        r@ == system_chip_spec(overview@),
{
    let cs = chars_of(overview);
    let ls = line_spans(cs.as_slice(), 0, cs.len());
    assert(cs@.subrange(0, cs@.len() as int) =~= overview@);
    assert(pieces(cs@, ls@) == lines(overview@));
    let pat = chars_of("Chip:");
    match first_span_containing(cs.as_slice(), ls.as_slice(), pat.as_slice()) {
        Some(k) => {
            let l = ls[k];
            assert(piece(cs@, l) == lines(overview@)[k as int]);
            let v = last_after_span(cs.as_slice(), l.start, l.end, ':');
            string_range(cs.as_slice(), v.start, v.end)
        },
        None => owned("Apple Silicon"),
    }
}

// ---------------------------------------------------------------------------
// Live metrics
// ---------------------------------------------------------------------------

/// The MLX server's PID from `pgrep -f mlx_lm.server`: the first line of
/// the trimmed output, as a number.
pub fn mlx_server_pid(pgrep_output: &str) -> (r: Option<u32>)
    ensures
        r == (match first_line(trim(pgrep_output@)) {
            Some(l) => parse_u32_spec(l),
            None => None,
        }),
{
    let t = trimmed(pgrep_output);
    let ls = line_spans(t.as_slice(), 0, t.len());
    assert(t@.subrange(0, t@.len() as int) =~= t@);
    assert(pieces(t@, ls@) == lines(t@));
    if ls.len() > 0 {
        let l = ls[0];
        assert(piece(t@, l) == lines(t@)[0]);
        parse_u32(t.as_slice(), l.start, l.end)
    } else {
        None
    }
}

/// The first line of `s`, if it has one.
pub open spec fn first_line(s: Seq<char>) -> Option<Seq<char>> {
    if lines(s).len() > 0 {
        Some(lines(s)[0])
    } else {
        None
    }
}

/// A process's resident memory in MB from `ps -o rss=` (KiB), when the
/// output is a number.
pub fn resident_mb(ps_output: &str) -> (r: Option<u64>)
    ensures
        r == (match parse_u64_spec(trim(ps_output@)) {
            Some(kb) => Some((kb / 1024) as u64),
            None => None,
        }),
{
    let cs = chars_of(ps_output);
    let t = trim_span(cs.as_slice(), 0, cs.len());
    assert(cs@.subrange(0, cs@.len() as int) =~= ps_output@);
    match parse_u64(cs.as_slice(), t.start, t.end) {
        Some(kb) => Some(kb / 1024),
        None => None,
    }
}

/// The daemon facts of the live metrics: the PID is reported only while
/// the process lives.
pub fn live_daemon(actual_pid: Option<u32>, alive: bool) -> (r: (Option<u32>, bool))
    ensures
        r.1 == (actual_pid is Some && alive),
        r.0 == (if actual_pid is Some && alive {
            actual_pid
        } else {
            None
        }),
{
    let live = actual_pid.is_some() && alive;
    (
        if live {
            actual_pid
        } else {
            None
        },
        live,
    )
}

/// The GPU memory in use, in MB, from the line `nvidia-smi
/// --query-gpu=temperature.gpu,utilization.gpu,memory.used
/// --format=csv,noheader,nounits` printed: its third field, when the line
/// has three fields or more and that one is a number.
pub fn smi_memory_used_mb(smi_output: &str) -> (r: Option<u64>)
    ensures
        r == (if smi_fields(smi_output@).len() >= 3 {
            parse_u64_spec(smi_fields(smi_output@)[2])
        } else {
            None
        }),
{
    let cs = chars_of(smi_output);
    assert(cs@.subrange(0, cs@.len() as int) =~= smi_output@);
    let line = trim_span(cs.as_slice(), 0, cs.len());
    let parts = split_spans(cs.as_slice(), line.start, line.end, ',');
    let ghost f = smi_fields(smi_output@);
    assert(piece(cs@, line) == trim(smi_output@));
    assert(parts@.len() == f.len());
    if parts.len() < 3 {
        return None;
    }
    let p2 = parts[2];
    let t2 = trim_span(cs.as_slice(), p2.start, p2.end);
    assert(f[2] == trim(piece(cs@, p2)));
    parse_u64(cs.as_slice(), t2.start, t2.end)
}

/// The integer readings of the line `nvidia-smi
/// --query-gpu=name,temperature.gpu,memory.used,memory.total,utilization.gpu
/// --format=csv,noheader,nounits` printed.
pub struct SmiGpuStatus {
    pub model: String,
    pub vram_used_mb: Option<u64>,
    pub vram_total_mb: Option<u64>,
}

/// The GPU model and its memory in use and in all, in MB, from that line:
/// `None` when it has fewer than five fields; a reading that is not a
/// number is `None`.
pub fn smi_gpu_status(smi_output: &str) -> (r: Option<SmiGpuStatus>)
    ensures
        smi_fields(smi_output@).len() < 5 ==> r is None,
        smi_fields(smi_output@).len() >= 5 ==> (r matches Some(g) && {
            let f = smi_fields(smi_output@);
            &&& g.model@ == f[0]
            &&& g.vram_used_mb == parse_u64_spec(f[2])
            &&& g.vram_total_mb == parse_u64_spec(f[3])
        }),
{
    let cs = chars_of(smi_output);
    assert(cs@.subrange(0, cs@.len() as int) =~= smi_output@);
    let line = trim_span(cs.as_slice(), 0, cs.len());
    let parts = split_spans(cs.as_slice(), line.start, line.end, ',');
    let ghost f = smi_fields(smi_output@);
    assert(piece(cs@, line) == trim(smi_output@));
    assert(parts@.len() == f.len());
    if parts.len() < 5 {
        return None;
    }
    let p0 = parts[0];
    let p2 = parts[2];
    let p3 = parts[3];
    let t0 = trim_span(cs.as_slice(), p0.start, p0.end);
    let t2 = trim_span(cs.as_slice(), p2.start, p2.end);
    let t3 = trim_span(cs.as_slice(), p3.start, p3.end);
    assert(f[0] == trim(piece(cs@, p0)));
    assert(f[2] == trim(piece(cs@, p2)));
    assert(f[3] == trim(piece(cs@, p3)));
    Some(
        SmiGpuStatus {
            model: string_range(cs.as_slice(), t0.start, t0.end),
            vram_used_mb: parse_u64(cs.as_slice(), t2.start, t2.end),
            vram_total_mb: parse_u64(cs.as_slice(), t3.start, t3.end),
        },
    )
}

} // verus!
