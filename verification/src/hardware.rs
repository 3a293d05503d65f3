//! Hardware detection: what the agent makes of the outputs of the system
//! tools it runs (`sysctl`, `uname`, `system_profiler`, `nvidia-smi`,
//! `/etc/os-release`, `wmic`), of the display adapters DXGI enumerates and
//! of the display-class registry keys, and the earnings tier of a GPU.

use vstd::prelude::*;
use crate::health::u64_or_zero;
use crate::text::{
    chars_of, contains, contains_in, either_pred, eq_str, err_is, first_index, first_span_containing_either,
    first_span_starting_with, first_where, last_after, last_after_span, lemma_first_index_found,
    lemma_first_index_none, line_spans, lines, opt_ref_view, or_empty, or_text, owned, parse_u32,
    parse_u32_spec, parse_u64, piece, pieces, push_range, push_str, split, split_spans, starts_pred,
    starts_with, string_of, string_range, trim, trim_char, trim_char_span, trim_span, trim_start_str,
    trim_start_str_at, trimmed, views, word_spans, words, Span,
};
use crate::types::{GpuInfo, SystemInfo};

verus! {

// ---------------------------------------------------------------------------
// Numbers in tool output
// ---------------------------------------------------------------------------

/// `text.trim().parse::<u64>().unwrap_or(0)`.
pub fn number_or_zero(text: &str) -> (r: u64)
    ensures
        r == u64_or_zero(trim(text@)),
{
    let cs = chars_of(text);
    let t = trim_span(cs.as_slice(), 0, cs.len());
    assert(cs@.subrange(0, cs@.len() as int) =~= text@);
    match parse_u64(cs.as_slice(), t.start, t.end) {
        Some(v) => v,
        None => 0,
    }
}

/// `text.trim().parse::<u32>().unwrap_or(0)`.
pub fn count_or_zero(text: &str) -> (r: u32)
    ensures
        r == (match parse_u32_spec(trim(text@)) {
            Some(v) => v,
            None => 0,
        }),
{
    let cs = chars_of(text);
    let t = trim_span(cs.as_slice(), 0, cs.len());
    assert(cs@.subrange(0, cs@.len() as int) =~= text@);
    match parse_u32(cs.as_slice(), t.start, t.end) {
        Some(v) => v,
        None => 0,
    }
}

pub open spec fn mib(bytes: u64) -> u64 {
    (bytes / 1048576) as u64
}

// ---------------------------------------------------------------------------
// macOS
// ---------------------------------------------------------------------------

/// The chip name `system_profiler SPHardwareDataType` reports: on its first
/// line mentioning `Chip:` or `Model Name:`, what follows the last colon;
/// the CPU brand when there is no such line or no report.
pub open spec fn macos_chip_name(brand: Seq<char>, overview: Option<Seq<char>>) -> Seq<char> {
    match overview {
        Some(t) => match first_where(lines(t), either_pred("Chip:"@, "Model Name:"@)) {
            Some(k) => last_after(lines(t)[k], ':'),
            None => brand,
        },
        None => brand,
    }
}

/// The chip name from the hardware overview, or `brand`.
fn macos_chip(brand: &[char], hardware_overview: Option<&str>) -> (r: Vec<char>)
    ensures
        r@ == macos_chip_name(brand@, opt_ref_view(hardware_overview)),
{
    let mut chip: Vec<char> = Vec::new();
    match hardware_overview {
        Some(t) => {
            let cs = chars_of(t);
            let ls = line_spans(cs.as_slice(), 0, cs.len());
            assert(cs@.subrange(0, cs@.len() as int) =~= t@);
            assert(pieces(cs@, ls@) == lines(t@));
            let p1 = chars_of("Chip:");
            let p2 = chars_of("Model Name:");
            match first_span_containing_either(cs.as_slice(), ls.as_slice(), p1.as_slice(), p2.as_slice()) {
                Some(k) => {
                    let l = ls[k];
                    assert(piece(cs@, l) == lines(t@)[k as int]);
                    let v = last_after_span(cs.as_slice(), l.start, l.end, ':');
                    push_range(&mut chip, cs.as_slice(), v.start, v.end);
                },
                None => {
                    push_range(&mut chip, brand, 0, brand.len());
                    assert(brand@.subrange(0, brand@.len() as int) =~= brand@);
                },
            }
        },
        None => {
            push_range(&mut chip, brand, 0, brand.len());
            assert(brand@.subrange(0, brand@.len() as int) =~= brand@);
        },
    }
    chip
}

/// The GPU of a Mac, from the outputs of `sysctl -n machdep.cpu.brand_string`,
/// `uname -m`, `sysctl -n hw.memsize` and (when it ran) `system_profiler
/// SPHardwareDataType`. Apple Silicon reports its unified memory as VRAM.
pub fn gpu_info_macos(
    cpu_brand_output: &str,
    arch_output: &str,
    memsize_output: &str,
    hardware_overview: Option<&str>,
) -> (g: GpuInfo)
    ensures
        ({
            let brand = trim(cpu_brand_output@);
            let apple = trim(arch_output@) == "arm64"@;
            let chip = if apple {
                macos_chip_name(brand, opt_ref_view(hardware_overview))
            } else {
                brand
            };
            &&& g.is_apple_silicon == apple
            &&& g.name@ == (if apple {
                "Apple Silicon "@ + chip
            } else {
                chip
            })
            &&& g.vram_mb == (if apple {
                mib(u64_or_zero(trim(memsize_output@)))
            } else {
                0
            })
            &&& g.driver_version@ == "macOS Metal"@
            &&& g.compute_capability@ == (if apple {
                "Apple Neural Engine"@
            } else {
                "N/A"@
            })
        }),
{
    let brand = trimmed(cpu_brand_output);
    let arch = trimmed(arch_output);
    let apple = eq_str(arch.as_slice(), "arm64");
    let mem_mb = number_or_zero(memsize_output) / 1048576;
    let chip = if apple {
        macos_chip(brand.as_slice(), hardware_overview)
    } else {
        brand.clone()
    };
    assert(brand@.subrange(0, brand@.len() as int) =~= brand@);
    let mut name: Vec<char> = Vec::new();
    if apple {
        push_str(&mut name, "Apple Silicon ");
    }
    push_range(&mut name, chip.as_slice(), 0, chip.len());
    assert(chip@.subrange(0, chip@.len() as int) =~= chip@);
    GpuInfo {
        name: string_of(name.as_slice()),
        vram_mb: if apple {
            mem_mb
        } else {
            0
        },
        driver_version: owned("macOS Metal"),
        compute_capability: if apple {
            owned("Apple Neural Engine")
        } else {
            owned("N/A")
        },
        is_apple_silicon: apple,
    }
}

// ---------------------------------------------------------------------------
// nvidia-smi
// ---------------------------------------------------------------------------

/// The comma-separated fields of `nvidia-smi`'s CSV line, each trimmed.
pub open spec fn smi_fields(output: Seq<char>) -> Seq<Seq<char>> {
    split(trim(output), ',').map_values(|p: Seq<char>| trim(p))
}

/// The GPU from `nvidia-smi --query-gpu=name,memory.total,driver_version,
/// compute_cap --format=csv,noheader,nounits`.
pub fn gpu_from_smi(smi_output: &str) -> (r: Result<GpuInfo, String>)
    ensures
        smi_fields(smi_output@).len() < 4 ==> err_is(
            r,
            "nvidia-smi parse error: '"@ + trim(smi_output@) + "'"@,
        ),
        smi_fields(smi_output@).len() >= 4 ==> (r matches Ok(g) && {
            let f = smi_fields(smi_output@);
            &&& g.name@ == f[0]
            &&& g.vram_mb == u64_or_zero(f[1])
            &&& g.driver_version@ == f[2]
            &&& g.compute_capability@ == f[3]
            &&& !g.is_apple_silicon
        }),
{
    let cs = chars_of(smi_output);
    assert(cs@.subrange(0, cs@.len() as int) =~= smi_output@);
    let line = trim_span(cs.as_slice(), 0, cs.len());
    let parts = split_spans(cs.as_slice(), line.start, line.end, ',');
    let ghost f = smi_fields(smi_output@);
    assert(piece(cs@, line) == trim(smi_output@));
    assert(parts@.len() == f.len());
    if parts.len() < 4 {
        let mut e: Vec<char> = Vec::new();
        push_str(&mut e, "nvidia-smi parse error: '");
        push_range(&mut e, cs.as_slice(), line.start, line.end);
        push_str(&mut e, "'");
        return Err(string_of(e.as_slice()));
    }
    let p0 = parts[0];
    let p1 = parts[1];
    let p2 = parts[2];
    let p3 = parts[3];
    let t0 = trim_span(cs.as_slice(), p0.start, p0.end);
    let t1 = trim_span(cs.as_slice(), p1.start, p1.end);
    let t2 = trim_span(cs.as_slice(), p2.start, p2.end);
    let t3 = trim_span(cs.as_slice(), p3.start, p3.end);
    let vram = match parse_u64(cs.as_slice(), t1.start, t1.end) {
        Some(v) => v,
        None => 0,
    };
    assert(f[1] == trim(piece(cs@, p1)));
    Ok(
        GpuInfo {
            name: string_range(cs.as_slice(), t0.start, t0.end),
            vram_mb: vram,
            driver_version: string_range(cs.as_slice(), t2.start, t2.end),
            compute_capability: string_range(cs.as_slice(), t3.start, t3.end),
            is_apple_silicon: false,
        },
    )
}

/// The error for an `nvidia-smi` run that exited unsuccessfully.
pub fn smi_failure_message(stderr: &str) -> (r: String)
    ensures
        r@ == "nvidia-smi error: "@ + trim(stderr@),
{
    let t = trimmed(stderr);
    let mut e: Vec<char> = Vec::new();
    push_str(&mut e, "nvidia-smi error: ");
    push_range(&mut e, t.as_slice(), 0, t.len());
    assert(t@.subrange(0, t@.len() as int) =~= t@);
    string_of(e.as_slice())
}

pub open spec fn driver_store_dir() -> Seq<char> {
    "C:\\Windows\\System32\\DriverStore\\FileRepository"@
}

/// The `nvidia-smi.exe` inside each DriverStore entry whose name starts
/// with `nv`, in the order the entries are listed.
pub open spec fn driver_store_candidates(entries: Seq<Seq<char>>) -> Seq<Seq<char>>
    decreases entries.len(),
{
    if entries.len() == 0 {
        Seq::empty()
    } else {
        driver_store_candidates(entries.drop_last()) + if starts_with(entries.last(), "nv"@) {
            seq![driver_store_dir() + "\\"@ + entries.last() + "\\nvidia-smi.exe"@]
        } else {
            Seq::empty()
        }
    }
}

/// The files probed for `nvidia-smi` once it is not on the PATH: on
/// Windows the two standard locations, then the DriverStore candidates.
pub open spec fn smi_file_candidates(windows: bool, entries: Seq<Seq<char>>) -> Seq<Seq<char>> {
    if windows {
        seq![
            "C:\\Windows\\System32\\nvidia-smi.exe"@,
            "C:\\Program Files\\NVIDIA Corporation\\NVSMI\\nvidia-smi.exe"@,
        ] + driver_store_candidates(entries)
    } else {
        Seq::empty()
    }
}

/// The file candidates for `nvidia-smi`, in probing order.
pub fn smi_file_candidate_list(windows: bool, driver_store_entries: &[String]) -> (r: Vec<String>)
    ensures
        views(r@) == smi_file_candidates(windows, views(driver_store_entries@)),
{
    let mut r: Vec<String> = Vec::new();
    if !windows {
        assert(views(r@) =~= smi_file_candidates(windows, views(driver_store_entries@)));
        return r;
    }
    r.push(owned("C:\\Windows\\System32\\nvidia-smi.exe"));
    r.push(owned("C:\\Program Files\\NVIDIA Corporation\\NVSMI\\nvidia-smi.exe"));
    let ghost base = views(r@);
    let mut i: usize = 0;
    let ghost es = views(driver_store_entries@);
    while i < driver_store_entries.len()
        invariant
            i <= driver_store_entries@.len(),
            es == views(driver_store_entries@),
            base == seq![
                "C:\\Windows\\System32\\nvidia-smi.exe"@,
                "C:\\Program Files\\NVIDIA Corporation\\NVSMI\\nvidia-smi.exe"@,
            ],
            views(r@) == base + driver_store_candidates(es.take(i as int)),
        decreases driver_store_entries@.len() - i,
    {
        let name = driver_store_entries[i].as_str();
        let ncs = chars_of(name);
        let prefix = chars_of("nv");
        assert(ncs@.subrange(0, ncs@.len() as int) =~= ncs@);
        assert(es.take(i + 1).drop_last() =~= es.take(i as int));
        assert(es.take(i + 1).last() == name@);
        let ghost before = r@;
        if crate::text::starts_with_in(ncs.as_slice(), 0, ncs.len(), prefix.as_slice()) {
            let mut p: Vec<char> = Vec::new();
            push_str(&mut p, "C:\\Windows\\System32\\DriverStore\\FileRepository");
            push_str(&mut p, "\\");
            push_str(&mut p, name);
            push_str(&mut p, "\\nvidia-smi.exe");
            let ps = string_of(p.as_slice());
            r.push(ps);
            proof {
                crate::text::lemma_views_push(before, r@[r@.len() - 1]);
                assert(before.push(r@[r@.len() - 1]) =~= r@);
            }
            assert(views(r@) =~= base + driver_store_candidates(es.take(i + 1)));
        } else {
            assert(views(r@) =~= base + driver_store_candidates(es.take(i + 1)));
        }
        i += 1;
    }
    assert(es.take(driver_store_entries@.len() as int) =~= es);
    r
}

/// Among paths paired with whether each exists, the index of the first that
/// exists.
pub open spec fn first_present(probed: Seq<(String, bool)>) -> Option<int> {
    first_index(probed, |p: (String, bool)| p.1)
}

/// The first path of `probed` that exists, when one does.
pub fn first_existing(probed: &[(String, bool)]) -> (r: Option<String>)
    ensures
        first_present(probed@) matches Some(k) ==> (r matches Some(p) && p@ == probed@[k].0@),
        first_present(probed@) is None ==> r is None,
{
    let ghost f = |p: (String, bool)| p.1;
    let mut i: usize = 0;
    while i < probed.len()
        invariant
            i <= probed@.len(),
            f == (|p: (String, bool)| p.1),
            forall|j: int| 0 <= j < i ==> !f(#[trigger] probed@[j]),
        decreases probed@.len() - i,
    {
        if probed[i].1 {
            proof {
                lemma_first_index_found(probed@, f, i as int);
            }
            return Some(probed[i].0.clone());
        }
        i += 1;
    }
    proof {
        lemma_first_index_none(probed@, f);
    }
    None
}

/// Locates `nvidia-smi`: the bare command when it is on the PATH
/// (`on_path`), else the first file candidate (as `smi_file_candidate_list`
/// lists them, each paired with whether it exists) that exists, else
/// nothing.
pub fn find_nvidia_smi(on_path: bool, probed: &[(String, bool)]) -> (r: Option<String>)
    ensures
        on_path ==> (r matches Some(p) && p@ == "nvidia-smi"@),
        !on_path ==> (match first_present(probed@) {
            Some(k) => r matches Some(p) && p@ == probed@[k].0@,
            None => r is None,
        }),
{
    if on_path {
        return Some(owned("nvidia-smi"));
    }
    first_existing(probed)
}

// ---------------------------------------------------------------------------
// DXGI adapters (Windows)
// ---------------------------------------------------------------------------

/// What the adapter scan reads of one `DXGI_ADAPTER_DESC1`.
#[derive(Clone, Debug)]
pub struct DxgiAdapter {
    /// The UTF-16 description, NUL-terminated within the buffer or filling it.
    pub description: Vec<u16>,
    pub dedicated_video_memory: u64,
    pub vendor_id: u32,
    pub flags: u32,
}

/// `DXGI_ADAPTER_FLAG_SOFTWARE`.
pub const DXGI_ADAPTER_FLAG_SOFTWARE: u32 = 2;

/// The PCI vendor id of NVIDIA.
pub const NVIDIA_VENDOR_ID: u32 = 0x10DE;

pub open spec fn is_lead_surrogate(u: u16) -> bool {
    0xD800 <= u <= 0xDBFF
}

pub open spec fn is_trail_surrogate(u: u16) -> bool {
    0xDC00 <= u <= 0xDFFF
}

/// UTF-16 decoded as `String::from_utf16_lossy` decodes it: a lead
/// surrogate followed by a trail surrogate is one character; any other
/// surrogate becomes U+FFFD; every other unit is its own character.
pub open spec fn utf16_text(units: Seq<u16>) -> Seq<char>
    decreases units.len(),
{
    if units.len() == 0 {
        Seq::empty()
    } else if units.len() >= 2 && is_lead_surrogate(units[0]) && is_trail_surrogate(units[1]) {
        seq![
            (0x10000 + (units[0] - 0xD800) * 0x400 + (units[1] - 0xDC00)) as char
        ] + utf16_text(units.subrange(2, units.len() as int))
    } else if is_lead_surrogate(units[0]) || is_trail_surrogate(units[0]) {
        seq!['\u{FFFD}'] + utf16_text(units.drop_first())
    } else {
        seq![units[0] as char] + utf16_text(units.drop_first())
    }
}

/// `String::from_utf16_lossy`: the units decoded as UTF-16, each unpaired
/// surrogate replaced by U+FFFD (`utf16_text`).
#[verifier::external_body]
fn text_of_utf16(units: &[u16]) -> (r: String)
    ensures
        r@ == utf16_text(units@),
{
    String::from_utf16_lossy(units)
}

/// Where the description ends: at its first NUL, else at the buffer's end.
pub open spec fn nul_position(units: Seq<u16>) -> int {
    match first_index(units, |u: u16| u == 0) {
        Some(k) => k,
        None => units.len() as int,
    }
}

pub open spec fn adapter_name(a: DxgiAdapter) -> Seq<char> {
    utf16_text(a.description@.take(nul_position(a.description@)))
}

pub open spec fn adapter_vram_mb(a: DxgiAdapter) -> u64 {
    mib(a.dedicated_video_memory)
}

/// Software adapters and those with under 1 GiB of dedicated memory are
/// passed over.
pub open spec fn adapter_skipped(a: DxgiAdapter) -> bool {
    (a.flags & DXGI_ADAPTER_FLAG_SOFTWARE) != 0 || adapter_vram_mb(a) < 1024
}

/// The scan over the adapters in enumeration order: the chosen adapter so
/// far, its memory, and whether it is NVIDIA's. NVIDIA is preferred, then
/// the most dedicated memory: an NVIDIA adapter replaces a choice of
/// another vendor, or an NVIDIA choice with less memory; another vendor's
/// adapter replaces only another vendor's choice with less memory (or no
/// choice). Among equals the first stays.
pub open spec fn dxgi_scan(ads: Seq<DxgiAdapter>) -> (Option<int>, u64, bool)
    decreases ads.len(),
{
    if ads.len() == 0 {
        (None, 0, false)
    } else {
        let prev = dxgi_scan(ads.drop_last());
        let a = ads.last();
        let mb = adapter_vram_mb(a);
        if adapter_skipped(a) {
            prev
        } else if a.vendor_id == NVIDIA_VENDOR_ID {
            if !prev.2 || mb > prev.1 {
                (Some(ads.len() - 1), mb, true)
            } else {
                prev
            }
        } else if !prev.2 && mb > prev.1 {
            (Some(ads.len() - 1), mb, false)
        } else {
            prev
        }
    }
}

/// The uppercase hexadecimal digit for `n` in `0..16`.
pub open spec fn hex_upper_digit(n: int) -> char {
    if n < 10 {
        (48 + n) as char
    } else {
        (55 + n) as char
    }
}

/// The uppercase hexadecimal digits of `n`, without leading zeros.
pub open spec fn hex_upper(n: nat) -> Seq<char>
    decreases n,
{
    if n < 16 {
        seq![hex_upper_digit(n as int)]
    } else {
        hex_upper(n / 16).push(hex_upper_digit((n % 16) as int))
    }
}

/// `format!("{:#06X}", v)`: `0x`, then the uppercase digits zero-padded to
/// at least four.
pub open spec fn vendor_hex(v: u32) -> Seq<char> {
    let d = hex_upper(v as nat);
    "0x"@ + if d.len() >= 4 {
        d
    } else {
        Seq::new((4 - d.len()) as nat, |i: int| '0') + d
    }
}

fn push_hex_upper(out: &mut Vec<char>, n: u32)
    ensures
        final(out)@ == old(out)@ + hex_upper(n as nat),
    decreases n,
{
    if n >= 16 {
        push_hex_upper(out, n / 16);
    }
    let d = (n % 16) as u8;
    let c = if d < 10 {
        (48u8 + d) as char
    } else {
        (55u8 + d) as char
    };
    assert(c == hex_upper_digit((n % 16) as int));
    out.push(c);
    proof {
        if n >= 16 {
            assert(hex_upper(n as nat) == hex_upper((n / 16) as nat).push(
                hex_upper_digit((n % 16) as int),
            ));
        }
    }
    assert(final(out)@ =~= old(out)@ + hex_upper(n as nat));
}

/// `"DXGI-VendorId:"` and the vendor id as `{:#06X}` renders it.
pub fn dxgi_driver_label(vendor_id: u32) -> (r: String)
    ensures
        r@ == "DXGI-VendorId:"@ + vendor_hex(vendor_id),
{
    let mut digits: Vec<char> = Vec::new();
    push_hex_upper(&mut digits, vendor_id);
    assert(digits@ =~= hex_upper(vendor_id as nat));
    let mut out: Vec<char> = Vec::new();
    push_str(&mut out, "DXGI-VendorId:0x");
    let mut pad = digits.len();
    let ghost start = out@;
    while pad < 4
        invariant
            digits@.len() <= pad <= 4 || (digits@.len() >= 4 && pad == digits@.len()),
            out@ == start + Seq::new((pad - digits@.len()) as nat, |i: int| '0'),
        decreases 4 - pad,
    {
        out.push('0');
        assert(out@ =~= start + Seq::new((pad + 1 - digits@.len()) as nat, |i: int| '0'));
        pad += 1;
    }
    let ghost zeros = out@;
    push_range(&mut out, digits.as_slice(), 0, digits.len());
    assert(digits@.subrange(0, digits@.len() as int) =~= digits@);
    proof {
        reveal_strlit("DXGI-VendorId:0x");
        reveal_strlit("DXGI-VendorId:");
        reveal_strlit("0x");
        assert(start =~= "DXGI-VendorId:"@ + "0x"@);
        if digits@.len() >= 4 {
            assert(zeros =~= start);
        }
    }
    assert(out@ =~= "DXGI-VendorId:"@ + vendor_hex(vendor_id));
    string_of(out.as_slice())
}

/// The name of an adapter: its description up to the first NUL.
fn adapter_name_of(a: &DxgiAdapter) -> (r: String)
    ensures
        r@ == adapter_name(*a),
{
    let d = a.description.as_slice();
    let mut end: usize = 0;
    while end < d.len() && d[end] != 0
        invariant
            end <= d@.len(),
            forall|j: int| 0 <= j < end ==> d@[j] != 0,
        decreases d@.len() - end,
    {
        end += 1;
    }
    proof {
        let f = |u: u16| u == 0;
        if end < d@.len() {
            lemma_first_index_found(d@, f, end as int);
        } else {
            lemma_first_index_none(d@, f);
        }
    }
    let slice = crate::hardware::prefix_u16(d, end);
    text_of_utf16(slice.as_slice())
}

fn prefix_u16(d: &[u16], end: usize) -> (r: Vec<u16>)
    requires
        end <= d@.len(),
    ensures
        r@ == d@.take(end as int),
{
    let mut r: Vec<u16> = Vec::new();
    let mut i: usize = 0;
    while i < end
        invariant
            i <= end <= d@.len(),
            r@ == d@.take(i as int),
        decreases end - i,
    {
        r.push(d[i]);
        assert(r@ =~= d@.take(i + 1));
        i += 1;
    }
    r
}

/// The GPU DXGI reports for an adapter.
pub open spec fn dxgi_gpu(a: DxgiAdapter, g: GpuInfo) -> bool {
    &&& g.name@ == adapter_name(a)
    &&& g.vram_mb == adapter_vram_mb(a)
    &&& g.driver_version@ == "DXGI-VendorId:"@ + vendor_hex(a.vendor_id)
    &&& g.compute_capability@ == "DXGI"@
    &&& !g.is_apple_silicon
}

pub open spec fn is_nvidia(a: DxgiAdapter) -> bool {
    a.vendor_id == NVIDIA_VENDOR_ID
}

/// Adapter `k` is at least as preferred as adapter `i`: NVIDIA's over
/// another vendor's, then more dedicated memory.
pub open spec fn preferred_over(ads: Seq<DxgiAdapter>, k: int, i: int) -> bool {
    &&& is_nvidia(ads[i]) ==> is_nvidia(ads[k])
    &&& is_nvidia(ads[i]) == is_nvidia(ads[k]) ==> adapter_vram_mb(ads[i]) <= adapter_vram_mb(
        ads[k],
    )
}

/// NVIDIA preferred, then the most dedicated memory: the scan chooses an
/// adapter exactly when one is not passed over; the chosen one is not
/// passed over and is at least as preferred as every adapter that is not.
pub proof fn lemma_dxgi_choice(ads: Seq<DxgiAdapter>)
    ensures
        dxgi_scan(ads).0 is None <==> forall|i: int| 0 <= i < ads.len() ==> adapter_skipped(#[trigger] ads[i]),
        dxgi_scan(ads).0 matches Some(k) ==> 0 <= k < ads.len() && !adapter_skipped(ads[k])
            && dxgi_scan(ads).1 == adapter_vram_mb(ads[k]) && dxgi_scan(ads).2 == is_nvidia(ads[k])
            && forall|i: int|
            0 <= i < ads.len() && !adapter_skipped(#[trigger] ads[i]) ==> preferred_over(ads, k, i),
        dxgi_scan(ads).0 is None ==> dxgi_scan(ads).1 == 0 && !dxgi_scan(ads).2,
    decreases ads.len(),
{
    if ads.len() > 0 {
        let init = ads.drop_last();
        lemma_dxgi_choice(init);
        assert forall|i: int| 0 <= i < init.len() implies init[i] == ads[i] by {}
        let last = ads.len() - 1;
        if !adapter_skipped(ads[last]) {
            assert(adapter_vram_mb(ads[last]) >= 1024);
        }
        if dxgi_scan(ads).0 is Some {
            let k = dxgi_scan(ads).0->0;
            assert forall|i: int| 0 <= i < ads.len() && !adapter_skipped(#[trigger] ads[i]) implies preferred_over(
                ads,
                k,
                i,
            ) by {
                if i < last {
                    assert(init[i] == ads[i]);
                    assert(!adapter_skipped(init[i]));
                }
            }
        }
    }
}

/// Chooses the GPU among the enumerated adapters: NVIDIA preferred, then
/// the largest dedicated memory, as the scan decides.
pub fn select_dxgi_adapter(adapters: &[DxgiAdapter]) -> (r: Result<GpuInfo, String>)
    ensures
        dxgi_scan(adapters@).0 is None ==> err_is(r, "DXGI: No discrete GPU found"@),
        dxgi_scan(adapters@).0 matches Some(k) ==> (0 <= k < adapters@.len() && (r matches Ok(g)
            && dxgi_gpu(adapters@[k], g))),
{
    let mut best: Option<usize> = None;
    let mut best_vram: u64 = 0;
    let mut best_nvidia = false;
    let mut i: usize = 0;
    while i < adapters.len()
        invariant
            i <= adapters@.len(),
            dxgi_scan(adapters@.take(i as int)) == (
                match best {
                    Some(b) => Some(b as int),
                    None => None::<int>,
                },
                best_vram,
                best_nvidia,
            ),
            best matches Some(b) ==> b < i,
        decreases adapters@.len() - i,
    {
        let a = &adapters[i];
        assert(adapters@.take(i + 1).drop_last() =~= adapters@.take(i as int));
        assert(adapters@.take(i + 1).last() == adapters@[i as int]);
        let mb = a.dedicated_video_memory / 1048576;
        let skipped = (a.flags & DXGI_ADAPTER_FLAG_SOFTWARE) != 0 || mb < 1024;
        if skipped {
        } else if a.vendor_id == NVIDIA_VENDOR_ID {
            if !best_nvidia || mb > best_vram {
                best = Some(i);
                best_vram = mb;
                best_nvidia = true;
            }
        } else if !best_nvidia && mb > best_vram {
            best = Some(i);
            best_vram = mb;
        }
        i += 1;
    }
    assert(adapters@.take(adapters@.len() as int) =~= adapters@);
    match best {
        Some(b) => {
            let a = &adapters[b];
            Ok(
                GpuInfo {
                    name: adapter_name_of(a),
                    vram_mb: a.dedicated_video_memory / 1048576,
                    driver_version: dxgi_driver_label(a.vendor_id),
                    compute_capability: owned("DXGI"),
                    is_apple_silicon: false,
                },
            )
        },
        None => Err(owned("DXGI: No discrete GPU found")),
    }
}

// ---------------------------------------------------------------------------
// Display-class registry keys (Windows)
// ---------------------------------------------------------------------------

/// What the registry scan reads of one display-class subkey; a value that
/// is absent or of the wrong type is `None`.
#[derive(Clone, Debug)]
pub struct RegistryDisplayKey {
    pub provider_name: Option<String>,
    pub driver_desc: Option<String>,
    pub adapter_string: Option<String>,
    pub memory_size: Option<u64>,
    pub driver_version: Option<String>,
}

/// The text `str::to_lowercase` makes of `s`.
pub uninterp spec fn lowercase_of(s: Seq<char>) -> Seq<char>;

/// `str::to_lowercase`: the Unicode lowercase mapping of each character.
#[verifier::external_body]
fn to_lowercase(s: &str) -> (r: String)
    ensures
        r@ == lowercase_of(s@),
{
    s.to_lowercase()
}

pub open spec fn opt_string(o: Option<String>) -> Option<Seq<char>> {
    match o {
        Some(s) => Some(s@),
        None => None,
    }
}

pub open spec fn registry_vram_mb(k: RegistryDisplayKey) -> u64 {
    mib(
        match k.memory_size {
            Some(v) => v,
            None => 0,
        },
    )
}

/// An NVIDIA key (by its provider name, lowercased) with some memory.
pub open spec fn registry_match(k: RegistryDisplayKey) -> bool {
    &&& contains(lowercase_of(or_empty(opt_string(k.provider_name))), "nvidia"@)
    &&& registry_vram_mb(k) > 0
}

/// The GPU a matching key describes.
pub open spec fn registry_gpu(k: RegistryDisplayKey, g: GpuInfo) -> bool {
    &&& g.name@ == (match k.driver_desc {
        Some(d) => d@,
        None => or_text(opt_string(k.adapter_string), "NVIDIA GPU"@),
    })
    &&& g.vram_mb == registry_vram_mb(k)
    &&& g.driver_version@ == or_text(opt_string(k.driver_version), "Registry"@)
    &&& g.compute_capability@ == "Registry"@
    &&& !g.is_apple_silicon
}

fn text_or(o: &Option<String>, d: &str) -> (r: String)
    ensures
        r@ == or_text(opt_string(*o), d@),
{
    match o {
        Some(s) => s.clone(),
        None => owned(d),
    }
}

/// The GPU of the first NVIDIA display-class key, in enumeration order,
/// that reports video memory.
pub fn select_registry_gpu(keys: &[RegistryDisplayKey]) -> (r: Result<GpuInfo, String>)
    ensures
        first_index(keys@, |k: RegistryDisplayKey| registry_match(k)) is None ==> err_is(
            r,
            "Registry: No NVIDIA GPU with VRAM found"@,
        ),
        first_index(keys@, |k: RegistryDisplayKey| registry_match(k)) matches Some(i) ==> (0 <= i
            < keys@.len() && (r matches Ok(g) && registry_gpu(keys@[i], g))),
{
    let ghost f = |k: RegistryDisplayKey| registry_match(k);
    let mut i: usize = 0;
    while i < keys.len()
        invariant
            i <= keys@.len(),
            f == (|k: RegistryDisplayKey| registry_match(k)),
            forall|j: int| 0 <= j < i ==> !f(keys@[j]),
        decreases keys@.len() - i,
    {
        let k = &keys[i];
        let provider = match &k.provider_name {
            Some(p) => p.clone(),
            None => String::new(),
        };
        assert(provider@ == or_empty(opt_string(k.provider_name)));
        let lower = to_lowercase(provider.as_str());
        let lcs = chars_of(lower.as_str());
        let pat = chars_of("nvidia");
        assert(lcs@.subrange(0, lcs@.len() as int) =~= lcs@);
        if contains_in(lcs.as_slice(), 0, lcs.len(), pat.as_slice()) {
            let mem = match k.memory_size {
                Some(v) => v,
                None => 0,
            };
            let vram = mem / 1048576;
            if vram > 0 {
                proof {
                    lemma_first_index_found(keys@, f, i as int);
                }
                let name = match &k.driver_desc {
                    Some(d) => d.clone(),
                    None => text_or(&k.adapter_string, "NVIDIA GPU"),
                };
                return Ok(
                    GpuInfo {
                        name,
                        vram_mb: vram,
                        driver_version: text_or(&k.driver_version, "Registry"),
                        compute_capability: owned("Registry"),
                        is_apple_silicon: false,
                    },
                );
            }
        }
        i += 1;
    }
    proof {
        lemma_first_index_none(keys@, f);
    }
    Err(owned("Registry: No NVIDIA GPU with VRAM found"))
}

// ---------------------------------------------------------------------------
// Earnings tiers
// ---------------------------------------------------------------------------

/// The monthly earnings estimate in US dollars for a GPU: fixed tiers by
/// memory, separate for Apple Silicon (unified memory) and discrete GPUs.
pub open spec fn earnings_tier(vram_mb: u64, is_apple_silicon: bool) -> u32 {
    if is_apple_silicon {
        if vram_mb <= 16383 {
            15
        } else if vram_mb <= 32767 {
            35
        } else if vram_mb <= 65535 {
            60
        } else {
            90
        }
    } else {
        if vram_mb <= 8191 {
            10
        } else if vram_mb <= 16383 {
            25
        } else if vram_mb <= 24575 {
            50
        } else {
            80
        }
    }
}

/// The estimate, in whole dollars per month.
pub fn estimated_earnings_usd(vram_mb: u64, is_apple_silicon: bool) -> (r: u32)
    ensures
        r == earnings_tier(vram_mb, is_apple_silicon),
{
    if is_apple_silicon {
        if vram_mb <= 16383 {
            15
        } else if vram_mb <= 32767 {
            35
        } else if vram_mb <= 65535 {
            60
        } else {
            90
        }
    } else {
        if vram_mb <= 8191 {
            10
        } else if vram_mb <= 16383 {
            25
        } else if vram_mb <= 24575 {
            50
        } else {
            80
        }
    }
}

/// More memory never lowers the estimate.
pub proof fn lemma_earnings_monotone(a: u64, b: u64, is_apple_silicon: bool)
    requires
        a <= b,
    ensures
        earnings_tier(a, is_apple_silicon) <= earnings_tier(b, is_apple_silicon),
{
}

// ---------------------------------------------------------------------------
// System facts
// ---------------------------------------------------------------------------

/// `num_cpus::get`: the number of CPUs available to this process, at least
/// one (per the crate's documentation); what else it answers depends on the
/// machine.
#[verifier::external_body]
fn available_cpus() -> (r: usize)
    ensures
        r >= 1,
{
    num_cpus::get()
}

/// `hostname::get`, converted lossily to text; `None` when it fails.
/// What it answers depends on the machine.
#[verifier::external_body]
fn host_name() -> (r: Option<String>) {
    match hostname::get() {
        Ok(h) => Some(h.to_string_lossy().to_string()),
        Err(_) => None,
    }
}

/// The host name to report: the one read, or `"unknown"` when none could be
/// read.
pub fn hostname_or_unknown(read: Option<String>) -> (r: String)
    ensures
        read matches Some(h) ==> r@ == h@,
        read is None ==> r@ == "unknown"@,
{
    match read {
        Some(h) => h,
        None => owned("unknown"),
    }
}

/// The machine's host name, or `"unknown"` when it cannot be read. What it
/// answers depends on the machine; `hostname_or_unknown` states what is
/// made of the reading.
pub fn system_hostname() -> (r: String) {
    hostname_or_unknown(host_name())
}

/// The trimmed output of a command that ran, or `fallback`.
pub open spec fn trimmed_or(out: Option<Seq<char>>, fallback: Seq<char>) -> Seq<char> {
    match out {
        Some(o) => trim(o),
        None => fallback,
    }
}

fn trimmed_or_exec(out: Option<&str>, fallback: &str) -> (r: String)
    ensures
        r@ == trimmed_or(opt_ref_view(out), fallback@),
{
    match out {
        Some(o) => {
            let t = trimmed(o);
            string_of(t.as_slice())
        },
        None => owned(fallback),
    }
}

/// The system facts of a Mac, from `sw_vers -productVersion`,
/// `sysctl -n hw.memsize`, `sysctl -n hw.ncpu`,
/// `sysctl -n machdep.cpu.brand_string` and `uname -m` (`None` where a
/// command could not be run).
pub fn macos_system_info(
    os_version_output: Option<&str>,
    memsize_output: &str,
    ncpu_output: &str,
    cpu_brand_output: Option<&str>,
    arch_output: Option<&str>,
    hostname: String,
) -> (r: SystemInfo)
    ensures
        r.os@ == "macOS"@,
        r.os_version@ == trimmed_or(opt_ref_view(os_version_output), "unknown"@),
        r.hostname@ == hostname@,
        r.total_ram_mb == mib(u64_or_zero(trim(memsize_output@))),
        r.cpu_cores == (match parse_u32_spec(trim(ncpu_output@)) {
            Some(v) => v,
            None => 0,
        }),
        r.cpu_name@ == trimmed_or(opt_ref_view(cpu_brand_output), "unknown"@),
        r.arch@ == trimmed_or(opt_ref_view(arch_output), "unknown"@),
{
    SystemInfo {
        os: owned("macOS"),
        os_version: trimmed_or_exec(os_version_output, "unknown"),
        hostname,
        total_ram_mb: number_or_zero(memsize_output) / 1048576,
        cpu_cores: count_or_zero(ncpu_output),
        cpu_name: trimmed_or_exec(cpu_brand_output, "unknown"),
        arch: trimmed_or_exec(arch_output, "unknown"),
    }
}

/// The distribution name in `/etc/os-release`: on the first line starting
/// `PRETTY_NAME=`, the rest with the key and the quotes removed.
pub open spec fn pretty_name(os_release: Seq<char>) -> Option<Seq<char>> {
    let ls = lines(os_release);
    match first_where(ls, starts_pred("PRETTY_NAME="@)) {
        Some(k) => Some(trim_char(trim_start_str(ls[k], "PRETTY_NAME="@), '"')),
        None => None,
    }
}

fn pretty_name_exec(os_release: &str) -> (r: Option<String>)
    ensures
        opt_string(r) == pretty_name(os_release@),
{
    let cs = chars_of(os_release);
    let ls = line_spans(cs.as_slice(), 0, cs.len());
    assert(cs@.subrange(0, cs@.len() as int) =~= os_release@);
    assert(pieces(cs@, ls@) == lines(os_release@));
    let key = chars_of("PRETTY_NAME=");
    match first_span_starting_with(cs.as_slice(), ls.as_slice(), key.as_slice()) {
        Some(k) => {
            let l = ls[k];
            assert(piece(cs@, l) == lines(os_release@)[k as int]);
            let b = trim_start_str_at(cs.as_slice(), l.start, l.end, key.as_slice());
            let q = trim_char_span(cs.as_slice(), b, l.end, '"');
            Some(string_range(cs.as_slice(), q.start, q.end))
        },
        None => None,
    }
}

/// The second whitespace-separated field of `grep MemTotal /proc/meminfo`
/// as a number of kibibytes, or 0.
pub open spec fn meminfo_kb(out: Seq<char>) -> u64 {
    let w = words(out);
    if w.len() > 1 {
        match crate::text::parse_u64_spec(w[1]) {
            Some(v) => v,
            None => 0,
        }
    } else {
        0
    }
}

fn meminfo_kb_exec(out: &str) -> (r: u64)
    ensures
        r == meminfo_kb(out@),
{
    let cs = chars_of(out);
    let ws = word_spans(cs.as_slice(), 0, cs.len());
    assert(cs@.subrange(0, cs@.len() as int) =~= out@);
    assert(pieces(cs@, ws@) == words(out@));
    if ws.len() > 1 {
        let w = ws[1];
        assert(piece(cs@, w) == words(out@)[1]);
        match parse_u64(cs.as_slice(), w.start, w.end) {
            Some(v) => v,
            None => 0,
        }
    } else {
        0
    }
}

/// The system facts of a Linux machine with `cpus` available CPUs, from
/// `/etc/os-release`, `grep MemTotal /proc/meminfo`,
/// `grep -m1 'model name' /proc/cpuinfo` and `uname -m` (`None` where a
/// file or command could not be read).
pub fn linux_system_info_with(
    os_release: Option<&str>,
    meminfo_output: &str,
    cpus: usize,
    cpuinfo_output: Option<&str>,
    arch_output: Option<&str>,
    hostname: String,
) -> (r: SystemInfo)
    ensures
        r.os@ == "Linux"@,
        r.os_version@ == (match os_release {
            Some(c) => or_text(pretty_name(c@), "Linux"@),
            None => "Linux"@,
        }),
        r.hostname@ == hostname@,
        r.total_ram_mb == meminfo_kb(meminfo_output@) / 1024,
        r.cpu_cores == cpus as u32,
        r.cpu_name@ == (match cpuinfo_output {
            Some(o) => last_after(o@, ':'),
            None => "unknown"@,
        }),
        r.arch@ == trimmed_or(opt_ref_view(arch_output), "unknown"@),
{
    let os_version = match os_release {
        Some(c) => match pretty_name_exec(c) {
            Some(p) => p,
            None => owned("Linux"),
        },
        None => owned("Linux"),
    };
    let cpu_name = match cpuinfo_output {
        Some(o) => {
            let cs = chars_of(o);
            assert(cs@.subrange(0, cs@.len() as int) =~= o@);
            let v = last_after_span(cs.as_slice(), 0, cs.len(), ':');
            string_range(cs.as_slice(), v.start, v.end)
        },
        None => owned("unknown"),
    };
    SystemInfo {
        os: owned("Linux"),
        os_version,
        hostname,
        total_ram_mb: meminfo_kb_exec(meminfo_output) / 1024,
        cpu_cores: cpus as u32,
        cpu_name,
        arch: trimmed_or_exec(arch_output, "unknown"),
    }
}

/// The Linux system facts with the CPU count taken from the machine.
pub fn linux_system_info(
    os_release: Option<&str>,
    meminfo_output: &str,
    cpuinfo_output: Option<&str>,
    arch_output: Option<&str>,
    hostname: String,
) -> (r: SystemInfo)
    ensures
        r.os@ == "Linux"@,
        r.os_version@ == (match os_release {
            Some(c) => or_text(pretty_name(c@), "Linux"@),
            None => "Linux"@,
        }),
        r.hostname@ == hostname@,
        r.total_ram_mb == meminfo_kb(meminfo_output@) / 1024,
        r.cpu_name@ == (match cpuinfo_output {
            Some(o) => last_after(o@, ':'),
            None => "unknown"@,
        }),
        r.arch@ == trimmed_or(opt_ref_view(arch_output), "unknown"@),
        exists|n: usize| n >= 1 && r.cpu_cores == #[trigger] (n as u32),
{
    let cpus = available_cpus();
    let r = linux_system_info_with(os_release, meminfo_output, cpus, cpuinfo_output, arch_output, hostname);
    assert(cpus >= 1 && r.cpu_cores == (cpus as u32));
    r
}

/// In `wmic ... /value` output, what follows the last `=` on the first line
/// starting with `key`.
pub open spec fn wmic_value(out: Seq<char>, key: Seq<char>) -> Option<Seq<char>> {
    let ls = lines(out);
    match first_where(ls, starts_pred(key)) {
        Some(k) => Some(split(ls[k], '=').last()),
        None => None,
    }
}

fn wmic_value_span(cs: &[char], key: &str) -> (r: Option<Span>)
    ensures
        r matches Some(sp) ==> crate::text::span_in(sp, 0, cs@.len() as int) && wmic_value(cs@, key@)
            == Some(piece(cs@, sp)),
        r is None ==> wmic_value(cs@, key@) is None,
{
    let ls = line_spans(cs, 0, cs.len());
    assert(cs@.subrange(0, cs@.len() as int) =~= cs@);
    assert(pieces(cs@, ls@) == lines(cs@));
    let k_cs = chars_of(key);
    match first_span_starting_with(cs, ls.as_slice(), k_cs.as_slice()) {
        Some(k) => {
            let l = ls[k];
            assert(piece(cs@, l) == lines(cs@)[k as int]);
            let parts = split_spans(cs, l.start, l.end, '=');
            proof {
                crate::text::lemma_split_nonempty(cs@.subrange(l.start as int, l.end as int), '=');
            }
            let last = parts[parts.len() - 1];
            assert(piece(cs@, parts@[parts@.len() - 1]) == split(piece(cs@, l), '=').last());
            Some(last)
        },
        None => None,
    }
}

/// The system facts of a Windows machine with `cpus` available CPUs, from
/// `cmd /C ver`, `wmic computersystem get TotalPhysicalMemory /value`,
/// `wmic cpu get Name /value` (`None` where a command could not be run)
/// and the build's architecture name.
pub fn windows_system_info_with(
    ver_output: Option<&str>,
    memory_output: &str,
    cpus: usize,
    cpu_output: Option<&str>,
    arch: &str,
    hostname: String,
) -> (r: SystemInfo)
    ensures
        r.os@ == "Windows"@,
        r.os_version@ == trimmed_or(opt_ref_view(ver_output), "Windows"@),
        r.hostname@ == hostname@,
        r.total_ram_mb == mib(
            match wmic_value(memory_output@, "TotalPhysicalMemory"@) {
                Some(v) => u64_or_zero(trim(v)),
                None => 0,
            },
        ),
        r.cpu_cores == cpus as u32,
        r.cpu_name@ == (match cpu_output {
            Some(o) => trim(or_text(wmic_value(o@, "Name"@), "unknown"@)),
            None => "unknown"@,
        }),
        r.arch@ == arch@,
{
    let mcs = chars_of(memory_output);
    let mem_bytes = match wmic_value_span(mcs.as_slice(), "TotalPhysicalMemory") {
        Some(sp) => {
            let t = trim_span(mcs.as_slice(), sp.start, sp.end);
            match parse_u64(mcs.as_slice(), t.start, t.end) {
                Some(v) => v,
                None => 0,
            }
        },
        None => 0,
    };
    let cpu_name = match cpu_output {
        Some(o) => {
            let ccs = chars_of(o);
            match wmic_value_span(ccs.as_slice(), "Name") {
                Some(sp) => {
                    let t = trim_span(ccs.as_slice(), sp.start, sp.end);
                    string_range(ccs.as_slice(), t.start, t.end)
                },
                None => {
                    proof {
                        reveal_strlit("unknown");
                    }
                    let u = chars_of("unknown");
                    let t = trim_span(u.as_slice(), 0, u.len());
                    assert(u@.subrange(0, u@.len() as int) =~= u@);
                    string_range(u.as_slice(), t.start, t.end)
                },
            }
        },
        None => owned("unknown"),
    };
    SystemInfo {
        os: owned("Windows"),
        os_version: trimmed_or_exec(ver_output, "Windows"),
        hostname,
        total_ram_mb: mem_bytes / 1048576,
        cpu_cores: cpus as u32,
        cpu_name,
        arch: owned(arch),
    }
}

/// The Windows system facts with the CPU count taken from the machine.
pub fn windows_system_info(
    ver_output: Option<&str>,
    memory_output: &str,
    cpu_output: Option<&str>,
    arch: &str,
    hostname: String,
) -> (r: SystemInfo)
    ensures
        r.os@ == "Windows"@,
        r.os_version@ == trimmed_or(opt_ref_view(ver_output), "Windows"@),
        r.hostname@ == hostname@,
        r.total_ram_mb == mib(
            match wmic_value(memory_output@, "TotalPhysicalMemory"@) {
                Some(v) => u64_or_zero(trim(v)),
                None => 0,
            },
        ),
        r.cpu_name@ == (match cpu_output {
            Some(o) => trim(or_text(wmic_value(o@, "Name"@), "unknown"@)),
            None => "unknown"@,
        }),
        r.arch@ == arch@,
        exists|n: usize| n >= 1 && r.cpu_cores == #[trigger] (n as u32),
{
    let cpus = available_cpus();
    let r = windows_system_info_with(ver_output, memory_output, cpus, cpu_output, arch, hostname);
    assert(cpus >= 1 && r.cpu_cores == (cpus as u32));
    r
}

/// The monthly estimate's tiers, by their boundaries. Apple Silicon: $15
/// up to 16 GiB less one MiB, $35 from 16 GiB, $60 from 32 GiB, $90 from
/// 64 GiB. A discrete GPU: $10 below 8 GiB, $25 from 8 GiB, $50 from
/// 16 GiB, $80 from 24 GiB. The estimate never falls as memory grows.
pub proof fn lemma_earnings_tiers(vram_mb: u64, more_mb: u64, is_apple_silicon: bool)
    ensures
        is_apple_silicon && vram_mb < 16384 ==> earnings_tier(vram_mb, true) == 15,
        is_apple_silicon && 16384 <= vram_mb < 32768 ==> earnings_tier(vram_mb, true) == 35,
        is_apple_silicon && 32768 <= vram_mb < 65536 ==> earnings_tier(vram_mb, true) == 60,
        is_apple_silicon && 65536 <= vram_mb ==> earnings_tier(vram_mb, true) == 90,
        !is_apple_silicon && vram_mb < 8192 ==> earnings_tier(vram_mb, false) == 10,
        !is_apple_silicon && 8192 <= vram_mb < 16384 ==> earnings_tier(vram_mb, false) == 25,
        !is_apple_silicon && 16384 <= vram_mb < 24576 ==> earnings_tier(vram_mb, false) == 50,
        !is_apple_silicon && 24576 <= vram_mb ==> earnings_tier(vram_mb, false) == 80,
        vram_mb <= more_mb ==> earnings_tier(vram_mb, is_apple_silicon) <= earnings_tier(
            more_mb,
            is_apple_silicon,
        ),
{
}

} // verus!
