//! The decisions of the full provider start: which engine and model the
//! machine gets, the model catalogue, what the download progress lines
//! say about the time left, when a slow download is worth a warning, the
//! patch of the embedded Python's path file, the reuse of a downloaded
//! Ollama installer, and the answers the start gives.

use vstd::prelude::*;
use crate::health::u64_or_zero;
use crate::text::{
    ascii_lower_seq, ascii_lowered, chars_eq, chars_of, contains, contains_in, decimal, digit_char,
    ends_with, eq_str, first_index, first_occurrence, find_in, is_digit, is_ws, is_ws_char,
    lemma_first_index_found, lemma_first_index_none, line_spans, lines, occurs_at_exec, or_text,
    owned, parse_u64, parse_u64_spec, piece, pieces, push_decimal, push_range, push_str,
    replace_all, replaced, split, split_spans, string_of, trim, trim_end, trimmed,
};

verus! {

// ---------------------------------------------------------------------------
// Engine and model
// ---------------------------------------------------------------------------

/// The Ollama model for a GPU's memory: the 30B mixture-of-experts model
/// from 20000 MB, the dense 8B model from 10000 MB, else the 4B model.
pub open spec fn model_for_vram_spec(vram_mb: u64) -> Seq<char> {
    if vram_mb >= 20000 {
        "qwen3:30b-a3b"@
    } else if vram_mb >= 10000 {
        "qwen3:8b"@
    } else {
        "qwen3:4b"@
    }
}

pub fn model_for_vram(vram_mb: u64) -> (r: String)
    ensures
        r@ == model_for_vram_spec(vram_mb),
{
    if vram_mb >= 20000 {
        owned("qwen3:30b-a3b")
    } else if vram_mb >= 10000 {
        owned("qwen3:8b")
    } else {
        owned("qwen3:4b")
    }
}

/// The GPU memory the model choice uses: what `nvidia-smi` reported, else
/// what the GPU detection found (`detected`, consulted only then), else
/// 8192 MB, a common consumer card.
pub fn resolve_vram(smi_mb: u64, detected: Option<u64>) -> (r: u64)
    ensures
        r == (if smi_mb != 0 {
            smi_mb
        } else {
            match detected {
                Some(d) if d != 0 => d,
                _ => 8192,
            }
        }),
        r != 0,
{
    let d = if smi_mb != 0 {
        smi_mb
    } else {
        match detected {
            Some(v) => v,
            None => 0,
        }
    };
    if d == 0 {
        8192
    } else {
        d
    }
}

/// The text of `nvidia-smi --query-gpu=memory.total` that is read as a
/// number: its first line (the first GPU), without commas or spaces.
pub open spec fn smi_memory_text_spec(raw: Seq<char>) -> Seq<char> {
    let t = trim(raw);
    let first = if lines(t).len() > 0 {
        lines(t)[0]
    } else {
        t
    };
    replace_all(replace_all(first, ","@, Seq::empty()), " "@, Seq::empty())
}

pub fn smi_memory_text(raw: &str) -> (r: String)
    ensures
        r@ == smi_memory_text_spec(raw@),
{
    let t = trimmed(raw);
    let ls = line_spans(t.as_slice(), 0, t.len());
    assert(t@.subrange(0, t@.len() as int) =~= t@);
    assert(pieces(t@, ls@) == lines(t@));
    let comma = chars_of(",");
    let space = chars_of(" ");
    proof {
        reveal_strlit(",");
        reveal_strlit(" ");
        reveal_strlit("");
        assert(""@ =~= Seq::<char>::empty());
    }
    let first = if ls.len() > 0 {
        let l = ls[0];
        assert(piece(t@, l) == lines(t@)[0]);
        replaced(t.as_slice(), l.start, l.end, comma.as_slice(), "")
    } else {
        replaced(t.as_slice(), 0, t.len(), comma.as_slice(), "")
    };
    let second = replaced(first.as_slice(), 0, first.len(), space.as_slice(), "");
    assert(first@.subrange(0, first@.len() as int) =~= first@);
    string_of(second.as_slice())
}

/// The MLX model for a Mac's unified memory in GiB.
pub open spec fn mlx_model_for_memory_spec(mem_gb: u64) -> Seq<char> {
    if mem_gb >= 32 {
        "mlx-community/Qwen3-30B-A3B-4bit"@
    } else if mem_gb >= 16 {
        "mlx-community/Qwen3-8B-4bit"@
    } else {
        "mlx-community/Qwen3-4B-4bit"@
    }
}

/// A Mac's memory in whole GiB from `sysctl -n hw.memsize`.
pub fn memory_gb(memsize_output: &str) -> (r: u64)
    ensures
        r == u64_or_zero(trim(memsize_output@)) / 1073741824,
{
    crate::hardware::number_or_zero(memsize_output) / 1073741824
}

/// On a Mac: MLX with the model its memory allows on Apple Silicon,
/// Ollama with the 8B model otherwise.
pub fn mac_engine_and_model(is_apple_silicon: bool, mem_gb: u64) -> (r: (String, String))
    ensures
        is_apple_silicon ==> r.0@ == "mlx"@ && r.1@ == mlx_model_for_memory_spec(mem_gb),
        !is_apple_silicon ==> r.0@ == "ollama"@ && r.1@ == "qwen3:8b"@,
{
    if is_apple_silicon {
        let m = if mem_gb >= 32 {
            owned("mlx-community/Qwen3-30B-A3B-4bit")
        } else if mem_gb >= 16 {
            owned("mlx-community/Qwen3-8B-4bit")
        } else {
            owned("mlx-community/Qwen3-4B-4bit")
        };
        (owned("mlx"), m)
    } else {
        (owned("ollama"), owned("qwen3:8b"))
    }
}

/// More GPU memory never selects a smaller model.
pub proof fn lemma_model_choice_monotone(a: u64, b: u64)
    requires
        a <= b,
    ensures
        model_rank(model_for_vram_spec(a)) <= model_rank(model_for_vram_spec(b)),
{
    reveal_strlit("qwen3:30b-a3b");
    reveal_strlit("qwen3:8b");
    reveal_strlit("qwen3:4b");
    assert("qwen3:8b"@.len() != "qwen3:30b-a3b"@.len());
    assert("qwen3:4b"@.len() != "qwen3:30b-a3b"@.len());
    assert("qwen3:4b"@[6] != "qwen3:8b"@[6]);
}

/// The models' order by size.
pub open spec fn model_rank(m: Seq<char>) -> int {
    if m == "qwen3:30b-a3b"@ {
        2
    } else if m == "qwen3:8b"@ {
        1
    } else {
        0
    }
}

// ---------------------------------------------------------------------------
// The model catalogue
// ---------------------------------------------------------------------------

/// The display name and download size, in tenths of a GB, of the models
/// the wizard knows.
pub open spec fn model_info(id: Seq<char>) -> Option<(Seq<char>, nat)> {
    if id == "qwen3:30b-a3b"@ {
        Some(("Qwen3 30B-A3B"@, 177nat))
    } else if id == "qwen3:8b"@ {
        Some(("Qwen3 8B"@, 52nat))
    } else if id == "qwen3:4b"@ {
        Some(("Qwen3 4B"@, 25nat))
    } else if id == "mistral:7b"@ {
        Some(("Mistral 7B"@, 41nat))
    } else if id == "mlx-community/Qwen3-30B-A3B-4bit"@ {
        Some(("Qwen3 30B-A3B (MLX)"@, 164nat))
    } else if id == "mlx-community/Qwen3-8B-4bit"@ {
        Some(("Qwen3 8B (MLX)"@, 45nat))
    } else if id == "mlx-community/Qwen3-4B-4bit"@ {
        Some(("Qwen3 4B (MLX)"@, 23nat))
    } else {
        None
    }
}

/// A model's display name and size in tenths of a GB, when catalogued.
pub fn model_metadata(id: &str) -> (r: (String, Option<u32>))
    ensures
        model_info(id@) matches Some(info) ==> r.0@ == info.0 && r.1 == Some(info.1 as u32),
        model_info(id@) is None ==> r.0@ == id@ && r.1 is None,
{
    let cs = chars_of(id);
    let s = cs.as_slice();
    if eq_str(s, "qwen3:30b-a3b") {
        (owned("Qwen3 30B-A3B"), Some(177))
    } else if eq_str(s, "qwen3:8b") {
        (owned("Qwen3 8B"), Some(52))
    } else if eq_str(s, "qwen3:4b") {
        (owned("Qwen3 4B"), Some(25))
    } else if eq_str(s, "mistral:7b") {
        (owned("Mistral 7B"), Some(41))
    } else if eq_str(s, "mlx-community/Qwen3-30B-A3B-4bit") {
        (owned("Qwen3 30B-A3B (MLX)"), Some(164))
    } else if eq_str(s, "mlx-community/Qwen3-8B-4bit") {
        (owned("Qwen3 8B (MLX)"), Some(45))
    } else if eq_str(s, "mlx-community/Qwen3-4B-4bit") {
        (owned("Qwen3 4B (MLX)"), Some(23))
    } else {
        (owned(id), None)
    }
}

/// `format!("{:.1} GB", tenths / 10)`.
pub open spec fn gb_label(tenths: nat) -> Seq<char> {
    decimal(tenths / 10) + seq!['.', digit_char((tenths % 10) as int)] + " GB"@
}

fn push_gb(out: &mut Vec<char>, tenths: u32)
    ensures
        final(out)@ == old(out)@ + gb_label(tenths as nat),
{
    let ghost start = out@;
    push_decimal(out, (tenths / 10) as u64);
    out.push('.');
    let d = (tenths % 10) as u8;
    out.push((48u8 + d) as char);
    push_str(out, " GB");
    assert(out@ =~= start + gb_label(tenths as nat));
}

/// The wizard's line for a model found in the cache:
/// `"{name} ({size}) — cached"`.
pub fn cached_model_detail(id: &str) -> (r: String)
    ensures
        r@ == (match model_info(id@) {
            Some(info) => info.0 + " ("@ + gb_label(info.1) + ") — cached"@,
            None => id@ + " (size unknown) — cached"@,
        }),
{
    let (name, size) = model_metadata(id);
    let mut e: Vec<char> = Vec::new();
    push_str(&mut e, name.as_str());
    match size {
        Some(t) => {
            push_str(&mut e, " (");
            push_gb(&mut e, t);
            push_str(&mut e, ") — cached");
        },
        None => {
            push_str(&mut e, " (size unknown) — cached");
        },
    }
    proof {
        if model_info(id@) is Some {
            let info = model_info(id@).unwrap();
            let size_tenths = info.1;
            assert(e@ =~= name@ + " ("@ + gb_label(size_tenths) + ") — cached"@);
        }
    }
    string_of(e.as_slice())
}

/// The wizard's line when a pull starts: the catalogue size, 4.0 GB for an
/// unknown model.
pub fn pull_start_detail(model: &str) -> (r: String)
    ensures
        r@ == "Pulling "@ + model@ + " ("@ + gb_label(
            match model_info(model@) {
                Some(info) => info.1,
                None => 40,
            },
        ) + ") from registry.ollama.ai"@,
{
    let (_, size) = model_metadata(model);
    let t: u32 = match size {
        Some(v) => v,
        None => 40,
    };
    let mut e: Vec<char> = Vec::new();
    push_str(&mut e, "Pulling ");
    push_str(&mut e, model);
    push_str(&mut e, " (");
    push_gb(&mut e, t);
    push_str(&mut e, ") from registry.ollama.ai");
    string_of(e.as_slice())
}

// ---------------------------------------------------------------------------
// Time left in a download
// ---------------------------------------------------------------------------

/// What follows the last whitespace of `t` (all of `t` without any).
pub open spec fn after_last_ws(t: Seq<char>) -> Seq<char>
    decreases t.len(),
{
    if t.len() == 0 {
        t
    } else if is_ws(t.last()) {
        Seq::empty()
    } else {
        after_last_ws(t.drop_last()).push(t.last())
    }
}

pub open spec fn unit_seconds(c: char) -> u64 {
    if c == 'h' {
        3600
    } else if c == 'm' {
        60
    } else {
        1
    }
}

/// Reading `2m53s`-style text: digits accumulate; `h`, `m` or `s` adds the
/// number read so far in that unit (when there is one) and starts a new
/// number; anything else is skipped. The sum wraps around at 2^64. The
/// result: seconds, pending digits, whether a unit was read.
pub open spec fn eta_scan(cs: Seq<char>) -> (u64, Seq<char>, bool)
    decreases cs.len(),
{
    if cs.len() == 0 {
        (0, Seq::empty(), false)
    } else {
        let prev = eta_scan(cs.drop_last());
        let ch = cs.last();
        if is_digit(ch) {
            (prev.0, prev.1.push(ch), prev.2)
        } else if ch == 'h' || ch == 'm' || ch == 's' {
            match parse_u64_spec(prev.1) {
                Some(n) => (
                    vstd::wrapping::u64_specs::wrapping_add(
                        prev.0,
                        vstd::wrapping::u64_specs::wrapping_mul(n, unit_seconds(ch)),
                    ),
                    Seq::empty(),
                    true,
                ),
                None => (prev.0, Seq::empty(), prev.2),
            }
        } else {
            prev
        }
    }
}

/// The time left an `ollama pull` progress line ends with (`2m53s`,
/// `53s`, `1h2m`), read from its last whitespace-separated token.
pub open spec fn ollama_eta_spec(line: Seq<char>) -> Option<u64> {
    let r = eta_scan(after_last_ws(trim_end(line)));
    if r.2 {
        Some(r.0)
    } else {
        None
    }
}

pub fn ollama_eta(line: &str) -> (r: Option<u64>)
    ensures
        r == ollama_eta_spec(line@),
{
    let cs = chars_of(line);
    let mut e = cs.len();
    assert(cs@.take(e as int) =~= line@);
    while e > 0 && is_ws_char(cs[e - 1])
        invariant
            e <= cs@.len(),
            cs@ == line@,
            trim_end(line@) == trim_end(cs@.take(e as int)),
        decreases e,
    {
        assert(cs@.take(e as int).drop_last() =~= cs@.take(e - 1));
        e -= 1;
    }
    let mut j = e;
    while j > 0 && !is_ws_char(cs[j - 1])
        invariant
            j <= e <= cs@.len(),
            after_last_ws(cs@.take(e as int)) == after_last_ws(cs@.take(j as int)) + cs@.subrange(
                j as int,
                e as int,
            ),
        decreases j,
    {
        let ghost t = cs@.take(j as int);
        assert(t.drop_last() =~= cs@.take(j - 1));
        assert(after_last_ws(t) == after_last_ws(cs@.take(j - 1)).push(cs@[j - 1]));
        assert(after_last_ws(cs@.take(j - 1)).push(cs@[j - 1]) + cs@.subrange(j as int, e as int)
            =~= after_last_ws(cs@.take(j - 1)) + cs@.subrange(j - 1, e as int));
        j -= 1;
    }
    proof {
        if j > 0 {
            assert(cs@.take(j as int).last() == cs@[j - 1]);
        }
        assert(after_last_ws(cs@.take(j as int)) =~= Seq::<char>::empty());
        assert(Seq::<char>::empty() + cs@.subrange(j as int, e as int) =~= cs@.subrange(
            j as int,
            e as int,
        ));
        assert(trim_end(cs@.take(e as int)) == cs@.take(e as int)) by {
            if e > 0 {
                assert(cs@.take(e as int).last() == cs@[e - 1]);
            }
        }
    }
    let ghost token = cs@.subrange(j as int, e as int);
    let mut secs: u64 = 0;
    let mut buf: Vec<char> = Vec::new();
    let mut found = false;
    let mut i = j;
    while i < e
        invariant
            j <= i <= e <= cs@.len(),
            token == cs@.subrange(j as int, e as int),
            eta_scan(token.take(i - j)) == (secs, buf@, found),
        decreases e - i,
    {
        let ch = cs[i];
        assert(token.take(i + 1 - j).drop_last() =~= token.take(i - j));
        assert(token.take(i + 1 - j).last() == ch);
        if '0' <= ch && ch <= '9' {
            buf.push(ch);
        } else if ch == 'h' || ch == 'm' || ch == 's' {
            let unit: u64 = if ch == 'h' {
                3600
            } else if ch == 'm' {
                60
            } else {
                1
            };
            assert(buf@.subrange(0, buf@.len() as int) =~= buf@);
            match parse_u64(buf.as_slice(), 0, buf.len()) {
                Some(n) => {
                    secs = secs.wrapping_add(n.wrapping_mul(unit));
                    found = true;
                },
                None => {},
            }
            buf = Vec::new();
        }
        i += 1;
    }
    assert(token.take(e - j) =~= token);
    if found {
        Some(secs)
    } else {
        None
    }
}

/// The time left in a Hugging Face progress bar: after the first `<`, up
/// to the next `,`, `]` or space, `mm:ss` or `h:mm:ss` (each part a
/// number, 0 when it is not one; the sum wraps around at 2^64).
pub open spec fn hf_eta_spec(line: Seq<char>) -> Option<u64> {
    match first_occurrence(line, "<"@) {
        Some(lt) => clock_seconds_spec(time_text(line.subrange(lt + 1, line.len() as int))),
        None => None,
    }
}

/// The text up to the first character that ends the time text.
pub open spec fn time_text(after: Seq<char>) -> Seq<char> {
    after.take(
        match first_index(after, time_end_pred()) {
            Some(k) => k,
            None => after.len() as int,
        },
    )
}

/// The characters that end the time text.
pub open spec fn time_end_pred() -> spec_fn(char) -> bool {
    |c: char| c == ',' || c == ']' || c == ' '
}

/// The seconds `mm:ss` or `h:mm:ss` stand for (each part a number, 0 when
/// it is not one; the sum wraps around at 2^64); other shapes give none.
#[verifier::opaque]
pub open spec fn clock_seconds_spec(t: Seq<char>) -> Option<u64> {
    let parts = split(t, ':');
    if parts.len() == 2 {
        Some(
            vstd::wrapping::u64_specs::wrapping_add(
                vstd::wrapping::u64_specs::wrapping_mul(u64_or_zero(parts[0]), 60),
                u64_or_zero(parts[1]),
            ),
        )
    } else if parts.len() == 3 {
        Some(
            vstd::wrapping::u64_specs::wrapping_add(
                vstd::wrapping::u64_specs::wrapping_add(
                    vstd::wrapping::u64_specs::wrapping_mul(u64_or_zero(parts[0]), 3600),
                    vstd::wrapping::u64_specs::wrapping_mul(u64_or_zero(parts[1]), 60),
                ),
                u64_or_zero(parts[2]),
            ),
        )
    } else {
        None
    }
}

fn u64_or_zero_at(s: &[char], from: usize, to: usize) -> (r: u64)
    requires
        from <= to <= s@.len(),
    ensures
        r == u64_or_zero(s@.subrange(from as int, to as int)),
{
    match parse_u64(s, from, to) {
        Some(v) => v,
        None => 0,
    }
}

/// Where the time text after `<` ends: at the first `,`, `]` or space.
fn time_text_end(s: &[char], start: usize) -> (end: usize)
    requires
        start <= s@.len(),
    ensures
        start <= end <= s@.len(),
        end - start == (match first_index(
            s@.subrange(start as int, s@.len() as int),
            time_end_pred(),
        ) {
            Some(k) => k,
            None => s@.len() - start,
        }),
{
    let ghost after = s@.subrange(start as int, s@.len() as int);
    let ghost f = time_end_pred();
    let mut end = start;
    while end < s.len() && s[end] != ',' && s[end] != ']' && s[end] != ' '
        invariant
            start <= end <= s@.len(),
            after == s@.subrange(start as int, s@.len() as int),
            f == time_end_pred(),
            forall|q: int| 0 <= q < end - start ==> !f(after[q]),
        decreases s@.len() - end,
    {
        end += 1;
    }
    proof {
        if end < s@.len() {
            assert(f(after[end - start]));
            lemma_first_index_found(after, f, end - start);
        } else {
            lemma_first_index_none(after, f);
        }
    }
    end
}

/// The seconds that `mm:ss` or `h:mm:ss` in `s[from..to]` stand for.
fn clock_seconds(s: &[char], from: usize, to: usize) -> (r: Option<u64>)
    requires
        from <= to <= s@.len(),
    ensures
        r == clock_seconds_spec(s@.subrange(from as int, to as int)),
{
    reveal(clock_seconds_spec);
    let parts = split_spans(s, from, to, ':');
    if parts.len() == 2 {
        let a = parts[0];
        let b = parts[1];
        let m = u64_or_zero_at(s, a.start, a.end);
        let sec = u64_or_zero_at(s, b.start, b.end);
        Some(m.wrapping_mul(60).wrapping_add(sec))
    } else if parts.len() == 3 {
        let a = parts[0];
        let b = parts[1];
        let c = parts[2];
        let h = u64_or_zero_at(s, a.start, a.end);
        let m = u64_or_zero_at(s, b.start, b.end);
        let sec = u64_or_zero_at(s, c.start, c.end);
        Some(h.wrapping_mul(3600).wrapping_add(m.wrapping_mul(60)).wrapping_add(sec))
    } else {
        None
    }
}

pub fn hf_eta(line: &str) -> (r: Option<u64>)
    ensures
        r == hf_eta_spec(line@),
{
    let cs = chars_of(line);
    let lt_pat = chars_of("<");
    hf_eta_chars(cs.as_slice(), lt_pat.as_slice())
}

fn hf_eta_chars(cs: &[char], lt_pat: &[char]) -> (r: Option<u64>)
    requires
        lt_pat@ == "<"@,
    ensures
        r == hf_eta_spec(cs@),
{
    let found = find_in(cs, 0, cs.len(), lt_pat);
    assert(cs@.subrange(0, cs@.len() as int) =~= cs@);
    match found {
        Some(lt) => {
            proof {
                reveal_strlit("<");
            }
            assert(lt < cs@.len());
            let start = lt + 1;
            let end = time_text_end(cs, start);
            let ghost after = cs@.subrange(lt + 1, cs@.len() as int);
            assert(time_text(after) =~= cs@.subrange(start as int, end as int));
            clock_seconds(cs, start, end)
        },
        None => None,
    }
}

/// `{:02}` for a number below 100.
pub open spec fn two_digits(n: nat) -> Seq<char> {
    if n < 10 {
        "0"@ + decimal(n)
    } else {
        decimal(n)
    }
}

/// The time-left part of a progress line.
pub open spec fn eta_suffix_spec(s: u64) -> Seq<char> {
    if s >= 3600 {
        " -- ETA "@ + decimal((s / 3600) as nat) + "h"@ + two_digits(((s % 3600) / 60) as nat)
            + "m"@
    } else if s >= 60 {
        " -- ETA "@ + decimal((s / 60) as nat) + "m"@ + two_digits((s % 60) as nat) + "s"@
    } else {
        " -- ETA "@ + decimal(s as nat) + "s"@
    }
}

fn push_two_digits(out: &mut Vec<char>, n: u64)
    requires
        n < 100,
    ensures
        final(out)@ == old(out)@ + two_digits(n as nat),
{
    let ghost start = out@;
    if n < 10 {
        push_str(out, "0");
    }
    push_decimal(out, n);
    assert(out@ =~= start + two_digits(n as nat));
}

pub fn eta_suffix(eta: Option<u64>) -> (r: String)
    ensures
        eta matches Some(s) ==> r@ == eta_suffix_spec(s),
        eta is None ==> r@ == Seq::<char>::empty(),
{
    let mut e: Vec<char> = Vec::new();
    match eta {
        Some(s) => {
            let ghost start = e@;
            push_str(&mut e, " -- ETA ");
            if s >= 3600 {
                push_decimal(&mut e, s / 3600);
                push_str(&mut e, "h");
                push_two_digits(&mut e, (s % 3600) / 60);
                push_str(&mut e, "m");
            } else if s >= 60 {
                push_decimal(&mut e, s / 60);
                push_str(&mut e, "m");
                push_two_digits(&mut e, s % 60);
                push_str(&mut e, "s");
            } else {
                push_decimal(&mut e, s);
                push_str(&mut e, "s");
            }
            assert(e@ =~= eta_suffix_spec(s));
        },
        None => {},
    }
    string_of(e.as_slice())
}

// ---------------------------------------------------------------------------
// Slow downloads
// ---------------------------------------------------------------------------

/// Watches the download speed: a warning once the speed has stayed below
/// 2 MB/s for 30 seconds, at most once per download. Times are
/// milliseconds on the shell's monotonic clock.
#[derive(Clone, Copy, Debug, PartialEq, Eq)]
pub struct SlowWatch {
    pub since: Option<u64>,
    pub warned: bool,
}

/// One observation of the speed watch.
pub open spec fn observe_spec(pre: SlowWatch, slow: Option<bool>, now: u64, post: SlowWatch, warn: bool) -> bool {
    match slow {
        None => post == pre && !warn,
        Some(false) => post.since is None && post.warned == pre.warned && !warn,
        Some(true) => match pre.since {
            None => post.since == Some(now) && post.warned == pre.warned && !warn,
            Some(t) => post.since == Some(t) && warn == (now >= t && now - t >= 30000 && !pre.warned)
                && post.warned == (pre.warned || warn),
        },
    }
}

impl SlowWatch {
    pub fn new() -> (w: Self)
        ensures
            w.since is None,
            !w.warned,
    {
        SlowWatch { since: None, warned: false }
    }

    /// Records a progress line: `slow` is `None` when it gave no speed,
    /// else whether the speed was below 2 MB/s. Answers whether to warn now.
    pub fn observe(&mut self, slow: Option<bool>, now: u64) -> (warn: bool)
        ensures
            observe_spec(*old(self), slow, now, *final(self), warn),
    {
        match slow {
            None => false,
            Some(false) => {
                self.since = None;
                false
            },
            Some(true) => match self.since {
                None => {
                    self.since = Some(now);
                    false
                },
                Some(t) => {
                    if now >= t && now - t >= 30000 && !self.warned {
                        self.warned = true;
                        true
                    } else {
                        false
                    }
                },
            },
        }
    }
}

/// A download is warned about at most once: a warning needs a watch that
/// has not warned, and leaves it warned.
pub proof fn lemma_warn_once(pre: SlowWatch, post: SlowWatch, slow: Option<bool>, now: u64, warn: bool)
    requires
        observe_spec(pre, slow, now, post, warn),
    ensures
        warn ==> !pre.warned && post.warned,
        pre.warned ==> post.warned && !warn,
{
}

// ---------------------------------------------------------------------------
// Embedded Python (Windows)
// ---------------------------------------------------------------------------

/// The patch of `python311._pth` that enables `import site`: needed when
/// the line is missing or commented out; the comment is removed, and the
/// line added when still missing. `None` when nothing needs changing.
pub open spec fn pth_patch(c: Seq<char>) -> Option<Seq<char>> {
    if !contains(c, "import site"@) || contains(c, "#import site"@) {
        let r = replace_all(c, "#import site"@, "import site"@);
        Some(
            if contains(r, "import site"@) {
                r
            } else {
                r + "\nimport site\n"@
            },
        )
    } else {
        None
    }
}

pub fn patch_pth(content: &str) -> (r: Option<String>)
    ensures
        crate::hardware::opt_string(r) == pth_patch(content@),
{
    let cs = chars_of(content);
    assert(cs@.subrange(0, cs@.len() as int) =~= content@);
    let site = chars_of("import site");
    let hashed = chars_of("#import site");
    let has_site = contains_in(cs.as_slice(), 0, cs.len(), site.as_slice());
    let has_hashed = contains_in(cs.as_slice(), 0, cs.len(), hashed.as_slice());
    if !has_site || has_hashed {
        proof {
            reveal_strlit("#import site");
        }
        let mut r = replaced(cs.as_slice(), 0, cs.len(), hashed.as_slice(), "import site");
        assert(r@.subrange(0, r@.len() as int) =~= r@);
        if !contains_in(r.as_slice(), 0, r.len(), site.as_slice()) {
            push_str(&mut r, "\nimport site\n");
        }
        Some(string_of(r.as_slice()))
    } else {
        None
    }
}

// ---------------------------------------------------------------------------
// The Ollama installer (Windows)
// ---------------------------------------------------------------------------

/// The size from which a file is taken to be the whole installer.
pub const MIN_INSTALLER_BYTES: u64 = 1_000_000_000;

/// An entry of the agent's directory: its name and, when its metadata
/// could be read, its length.
#[derive(Clone, Debug)]
pub struct DirEntryInfo {
    pub file_name: String,
    pub len: Option<u64>,
}

/// An entry that can serve as the installer: an `.exe` whose name
/// mentions `setup` (ignoring ASCII case) and that is big enough.
pub open spec fn installer_like(e: DirEntryInfo) -> bool {
    let n = ascii_lower_seq(e.file_name@);
    &&& ends_with(n, ".exe"@)
    &&& contains(n, "setup"@)
    &&& e.len matches Some(l) && l >= MIN_INSTALLER_BYTES
}

/// Which installer the start runs.
#[derive(Clone, Copy, Debug, PartialEq, Eq)]
pub enum InstallerChoice {
    /// The `OllamaSetup.exe` already downloaded.
    Canonical,
    /// This directory entry.
    Entry(usize),
    /// None fits: download it.
    Download,
}

fn ends_with_exec(s: &[char], pat: &[char]) -> (r: bool)
    ensures
        r == ends_with(s@, pat@),
{
    if pat.len() > s.len() {
        return false;
    }
    let i = s.len() - pat.len();
    let r = occurs_at_exec(s, 0, s.len(), pat, i);
    assert(s@.subrange(0, s@.len() as int) =~= s@);
    r
}

/// Reuses a complete download (`canonical_len` is the length of
/// `OllamaSetup.exe` when it exists), else the first entry that looks like
/// the installer, else downloads.
pub fn choose_installer(canonical_len: Option<u64>, entries: &[DirEntryInfo]) -> (r: InstallerChoice)
    ensures
        (canonical_len matches Some(l) && l >= MIN_INSTALLER_BYTES) ==> r == InstallerChoice::Canonical,
        !(canonical_len matches Some(l) && l >= MIN_INSTALLER_BYTES) ==> r == (match first_index(
            entries@,
            |e: DirEntryInfo| installer_like(e),
        ) {
            Some(k) => InstallerChoice::Entry(k as usize),
            None => InstallerChoice::Download,
        }),
{
    match canonical_len {
        Some(l) if l >= MIN_INSTALLER_BYTES => {
            return InstallerChoice::Canonical;
        },
        _ => {},
    }
    let ghost f = |e: DirEntryInfo| installer_like(e);
    let exe = chars_of(".exe");
    let setup = chars_of("setup");
    let mut i: usize = 0;
    while i < entries.len()
        invariant
            i <= entries@.len(),
            f == (|e: DirEntryInfo| installer_like(e)),
            !(canonical_len matches Some(l) && l >= MIN_INSTALLER_BYTES),
            exe@ == ".exe"@,
            setup@ == "setup"@,
            forall|j: int| 0 <= j < i ==> !f(entries@[j]),
        decreases entries@.len() - i,
    {
        let e = &entries[i];
        let name = chars_of(e.file_name.as_str());
        let lower = ascii_lowered(name.as_slice());
        let big = match e.len {
            Some(l) => l >= MIN_INSTALLER_BYTES,
            None => false,
        };
        assert(lower@.subrange(0, lower@.len() as int) =~= lower@);
        if ends_with_exec(lower.as_slice(), exe.as_slice()) && contains_in(
            lower.as_slice(),
            0,
            lower.len(),
            setup.as_slice(),
        ) && big {
            proof {
                lemma_first_index_found(entries@, f, i as int);
            }
            return InstallerChoice::Entry(i);
        }
        i += 1;
    }
    proof {
        lemma_first_index_none(entries@, f);
    }
    InstallerChoice::Download
}

// ---------------------------------------------------------------------------
// MLX model cache
// ---------------------------------------------------------------------------

/// The Hugging Face cache directory of a model:
/// `models--{org}--{name}`.
pub fn hf_cache_dir_name(model: &str) -> (r: String)
    ensures
        r@ == "models--"@ + replace_all(model@, "/"@, "--"@),
{
    let cs = chars_of(model);
    let slash = chars_of("/");
    proof {
        reveal_strlit("/");
    }
    assert(cs@.subrange(0, cs@.len() as int) =~= model@);
    let rep = replaced(cs.as_slice(), 0, cs.len(), slash.as_slice(), "--");
    let mut e: Vec<char> = Vec::new();
    push_str(&mut e, "models--");
    push_range(&mut e, rep.as_slice(), 0, rep.len());
    assert(rep@.subrange(0, rep@.len() as int) =~= rep@);
    string_of(e.as_slice())
}

/// When the configuration served another model before: the repository
/// pattern whose cached revisions are deleted.
pub fn stale_model_pattern(previous: Option<&str>, model: &str) -> (r: Option<String>)
    ensures
        (previous matches Some(p) && p@ != model@ && p@.len() > 0) ==> crate::hardware::opt_string(
            r,
        ) == Some(replace_all(previous->0@, "mlx-community/"@, Seq::empty())),
        !(previous matches Some(p) && p@ != model@ && p@.len() > 0) ==> r is None,
{
    match previous {
        Some(p) => {
            let pc = chars_of(p);
            let mc = chars_of(model);
            if !chars_eq(pc.as_slice(), mc.as_slice()) && pc.len() > 0 {
                let pat = chars_of("mlx-community/");
                proof {
                    reveal_strlit("mlx-community/");
                    reveal_strlit("");
                    assert(""@ =~= Seq::<char>::empty());
                }
                assert(pc@.subrange(0, pc@.len() as int) =~= p@);
                let r = replaced(pc.as_slice(), 0, pc.len(), pat.as_slice(), "");
                Some(string_of(r.as_slice()))
            } else {
                None
            }
        },
        None => None,
    }
}

/// The Python that deletes the cached revisions of repositories matching
/// `pattern`.
pub fn cache_cleanup_script(pattern: &str) -> (r: String)
    ensures
        r@ == "from huggingface_hub import scan_cache_dir; cache = scan_cache_dir(); [cache.delete_revisions(r.commit_hash) for repo in cache.repos for r in repo.revisions if '"@
            + pattern@ + "' in repo.repo_id]"@,
{
    let mut e: Vec<char> = Vec::new();
    push_str(
        &mut e,
        "from huggingface_hub import scan_cache_dir; cache = scan_cache_dir(); [cache.delete_revisions(r.commit_hash) for repo in cache.repos for r in repo.revisions if '",
    );
    push_str(&mut e, pattern);
    push_str(&mut e, "' in repo.repo_id]");
    string_of(e.as_slice())
}

/// The Python that downloads an MLX model ahead of the server.
pub fn snapshot_download_script(model: &str) -> (r: String)
    ensures
        r@ == "import sys; from huggingface_hub import snapshot_download; snapshot_download('"@
            + model@ + "', local_files_only=False)"@,
{
    let mut e: Vec<char> = Vec::new();
    push_str(&mut e, "import sys; from huggingface_hub import snapshot_download; snapshot_download('");
    push_str(&mut e, model);
    push_str(&mut e, "', local_files_only=False)");
    string_of(e.as_slice())
}

// ---------------------------------------------------------------------------
// Answers
// ---------------------------------------------------------------------------

/// Whether `ollama list` (or the tags listing) names the model.
pub fn model_listed(listing: &str, model: &str) -> (r: bool)
    ensures
        r == contains(listing@, model@),
{
    let cs = chars_of(listing);
    let m = chars_of(model);
    assert(cs@.subrange(0, cs@.len() as int) =~= listing@);
    contains_in(cs.as_slice(), 0, cs.len(), m.as_slice())
}

/// The error when the pull did not complete.
pub fn pull_failed_message(model: &str) -> (r: (String, String))
    ensures
        r.0@ == "ollama pull "@ + model@ + " exited non-zero"@,
        r.1@ == "ollama pull "@ + model@ + " failed"@,
{
    let mut a: Vec<char> = Vec::new();
    push_str(&mut a, "ollama pull ");
    push_str(&mut a, model);
    push_str(&mut a, " exited non-zero");
    let mut b: Vec<char> = Vec::new();
    push_str(&mut b, "ollama pull ");
    push_str(&mut b, model);
    push_str(&mut b, " failed");
    (string_of(a.as_slice()), string_of(b.as_slice()))
}

/// The error when the model is missing after the pull.
pub fn missing_model_message(model: &str) -> (r: String)
    ensures
        r@ == "Final verification failed: model="@ + model@ + " not found in Ollama after pull"@,
{
    let mut e: Vec<char> = Vec::new();
    push_str(&mut e, "Final verification failed: model=");
    push_str(&mut e, model);
    push_str(&mut e, " not found in Ollama after pull");
    string_of(e.as_slice())
}

/// The final check of an Ollama start: the model must be in the tags
/// listing or, failing that, in `ollama list` (`list_output`, consulted
/// only then).
pub fn verify_model_registered(tags_body: &str, list_output: Option<&str>, model: &str) -> (r:
    Result<(), String>)
    ensures
        contains(tags_body@, model@) ==> r is Ok,
        !contains(tags_body@, model@) ==> (r is Ok <==> (list_output matches Some(l) && contains(
            l@,
            model@,
        ))),
        r matches Err(e) ==> e@ == "Final verification failed: model="@ + model@
            + " not found in Ollama after pull"@,
{
    if model_listed(tags_body, model) {
        return Ok(());
    }
    let listed = match list_output {
        Some(l) => model_listed(l, model),
        None => false,
    };
    if listed {
        Ok(())
    } else {
        Err(missing_model_message(model))
    }
}

/// The answer of a completed start:
/// `"started:{engine}:{model}:{pid}:{cached|downloaded}"`.
pub fn start_outcome(engine: &str, model: &str, pid: u32, cached: bool) -> (r: String)
    ensures
        r@ == "started:"@ + engine@ + ":"@ + model@ + ":"@ + decimal(pid as nat) + ":"@ + (if cached {
            "cached"@
        } else {
            "downloaded"@
        }),
{
    let mut e: Vec<char> = Vec::new();
    push_str(&mut e, "started:");
    push_str(&mut e, engine);
    push_str(&mut e, ":");
    push_str(&mut e, model);
    push_str(&mut e, ":");
    push_decimal(&mut e, pid as u64);
    push_str(&mut e, ":");
    if cached {
        push_str(&mut e, "cached");
    } else {
        push_str(&mut e, "downloaded");
    }
    string_of(e.as_slice())
}

/// The wizard's line once the daemon runs.
pub fn daemon_running_detail(version: &str, pid: u32) -> (r: String)
    ensures
        r@ == "Daemon v"@ + version@ + " running (PID "@ + decimal(pid as nat) + ")"@,
{
    let mut e: Vec<char> = Vec::new();
    push_str(&mut e, "Daemon v");
    push_str(&mut e, version);
    push_str(&mut e, " running (PID ");
    push_decimal(&mut e, pid as u64);
    push_str(&mut e, ")");
    string_of(e.as_slice())
}

/// How the start reports its mesh-tunnel step. The step is marked done
/// either way: a failed tunnel leaves the provider online on its public
/// endpoint and does not stop the start, and only then does the progress
/// event carry an error.
pub struct TunnelProgress {
    /// The wizard's line for the step.
    pub detail: String,
    /// The error the progress event carries.
    pub error: Option<String>,
    /// The startup log's line for the step.
    pub log_line: String,
    /// The mesh address to save in the configuration.
    pub mesh_ip: Option<String>,
}

pub open spec fn tunnel_progress_spec(setup: Result<String, String>, r: TunnelProgress) -> bool {
    match setup {
        Ok(ip) => {
            &&& r.detail@ == "Connected at "@ + ip@
            &&& r.error is None
            &&& r.log_line@ == "Step 5: WireGuard active — mesh IP "@ + ip@
            &&& r.mesh_ip matches Some(m) && m@ == ip@
        },
        Err(e) => {
            &&& r.detail@ == "Connected via public endpoint (WireGuard unavailable)"@
            &&& r.error matches Some(x) && x@ == e@
            &&& r.log_line@ == "Step 5: WireGuard setup failed: "@ + e@
                + ". Provider online but not routable for inference."@
            &&& r.mesh_ip is None
        },
    }
}

/// The report of the mesh-tunnel step from what setting it up gave: the
/// mesh address, or the error.
pub fn tunnel_progress(setup: Result<String, String>) -> (r: TunnelProgress)
    ensures
        tunnel_progress_spec(setup, r),
{
    match setup {
        Ok(ip) => {
            let mut d: Vec<char> = Vec::new();
            push_str(&mut d, "Connected at ");
            push_str(&mut d, ip.as_str());
            let mut l: Vec<char> = Vec::new();
            push_str(&mut l, "Step 5: WireGuard active — mesh IP ");
            push_str(&mut l, ip.as_str());
            TunnelProgress {
                detail: string_of(d.as_slice()),
                error: None,
                log_line: string_of(l.as_slice()),
                mesh_ip: Some(ip),
            }
        },
        Err(e) => {
            let mut l: Vec<char> = Vec::new();
            push_str(&mut l, "Step 5: WireGuard setup failed: ");
            push_str(&mut l, e.as_str());
            push_str(&mut l, ". Provider online but not routable for inference.");
            TunnelProgress {
                detail: owned("Connected via public endpoint (WireGuard unavailable)"),
                error: Some(e),
                log_line: string_of(l.as_slice()),
                mesh_ip: None,
            }
        },
    }
}

/// Whether the start ends by checking that the model is registered with
/// the engine: only Ollama registers models.
pub fn needs_model_verification(engine: &str) -> (r: bool)
    ensures
        r == (engine@ == "ollama"@),
{
    let cs = chars_of(engine);
    eq_str(cs.as_slice(), "ollama")
}

/// The MLX model grows with the Mac's memory: the 30B mixture-of-experts
/// model from 32 GiB, the 8B model from 16 GiB, the 4B model below; and a
/// Mac without Apple Silicon gets Ollama with the 8B model.
pub proof fn lemma_mac_model_thresholds(mem_gb: u64)
    ensures
        mem_gb >= 32 ==> mlx_model_for_memory_spec(mem_gb) == "mlx-community/Qwen3-30B-A3B-4bit"@,
        16 <= mem_gb < 32 ==> mlx_model_for_memory_spec(mem_gb) == "mlx-community/Qwen3-8B-4bit"@,
        mem_gb < 16 ==> mlx_model_for_memory_spec(mem_gb) == "mlx-community/Qwen3-4B-4bit"@,
{
}

/// The Ollama model grows with the GPU's memory: the 30B mixture-of-experts
/// model from 20000 MB, the 8B model from 10000 MB, the 4B model below.
pub proof fn lemma_ollama_model_thresholds(vram_mb: u64)
    ensures
        vram_mb >= 20000 ==> model_for_vram_spec(vram_mb) == "qwen3:30b-a3b"@,
        10000 <= vram_mb < 20000 ==> model_for_vram_spec(vram_mb) == "qwen3:8b"@,
        vram_mb < 10000 ==> model_for_vram_spec(vram_mb) == "qwen3:4b"@,
{
}

} // verus!
