//! Replacing the daemon script: the downloaded bytes are installed only when
//! their size and SHA-256 digest match the manifest the backend computed
//! over them; the previous script is kept for a single rollback.

use vstd::prelude::*;
use crate::text::{
    ascii_eq_ignore_case, err_is, chars_of, contains, contains_pred, decimal, eq_ignore_ascii_case,
    first_span_containing, first_where, line_spans, lines, lossy_text, owned, piece, pieces,
    push_decimal, push_range, push_str, split, split_spans, string_of, text_of_bytes, trim,
    trim_char, trim_char_span, trim_span,
};

verus! {

/// The manifest the backend publishes for the daemon script it serves.
#[derive(Clone, Debug)]
pub struct DaemonManifest {
    pub version: String,
    pub size: u64,
    pub sha256: String,
}

/// The SHA-256 digest of `data`.
pub uninterp spec fn sha256_of(data: Seq<u8>) -> Seq<u8>;

/// `sha2::Sha256::digest`: the SHA-256 digest of `data`, 32 bytes long.
#[verifier::external_body]
fn sha256_digest(data: &[u8]) -> (r: Vec<u8>)
    ensures
        r@ == sha256_of(data@),
        r@.len() == 32,
{
    <sha2::Sha256 as sha2::Digest>::digest(data).to_vec()
}

/// The lowercase hexadecimal digit for `n` in `0..16`.
pub open spec fn hex_digit(n: int) -> char {
    if n < 10 {
        (48 + n) as char
    } else {
        (87 + n) as char
    }
}

/// Each byte as two lowercase hex digits, high nibble first.
pub open spec fn hex_lower(b: Seq<u8>) -> Seq<char>
    decreases b.len(),
{
    if b.len() == 0 {
        Seq::empty()
    } else {
        seq![hex_digit(b[0] as int / 16), hex_digit(b[0] as int % 16)] + hex_lower(b.drop_first())
    }
}

/// `hex::encode`: each byte as two lowercase hexadecimal digits, high
/// nibble first, in order (the crate's `BytesToHexChars` over the table
/// `0123456789abcdef`).
#[verifier::external_body]
fn hex_encode(data: &[u8]) -> (r: String)
    ensures
        r@ == hex_lower(data@),
{
    hex::encode(data)
}

/// The digest of `bytes` as `hex::encode` renders it.
pub open spec fn digest_hex(bytes: Seq<u8>) -> Seq<char> {
    hex_lower(sha256_of(bytes))
}

/// The downloaded bytes are what the manifest describes: same length and,
/// ignoring ASCII case, the same hex digest.
pub open spec fn download_verified(m: DaemonManifest, bytes: Seq<u8>) -> bool {
    &&& bytes.len() == m.size
    &&& ascii_eq_ignore_case(digest_hex(bytes), m.sha256@)
}

pub open spec fn size_mismatch_message(m: DaemonManifest, bytes: Seq<u8>) -> Seq<char> {
    "Daemon size mismatch: manifest="@ + decimal(m.size as nat) + " downloaded="@ + decimal(
        bytes.len(),
    ) + " — refusing to install"@
}

pub open spec fn digest_mismatch_message(m: DaemonManifest, bytes: Seq<u8>) -> Seq<char> {
    "Daemon sha256 mismatch: manifest="@ + m.sha256@ + " downloaded="@ + digest_hex(bytes)
        + " — refusing to install"@
}

/// The refusal for a download that does not match the manifest.
pub open spec fn refusal_message(m: DaemonManifest, bytes: Seq<u8>) -> Seq<char> {
    if bytes.len() != m.size {
        size_mismatch_message(m, bytes)
    } else {
        digest_mismatch_message(m, bytes)
    }
}

/// Checks downloaded daemon bytes against the manifest, the size first.
pub fn verify_download(m: &DaemonManifest, bytes: &[u8]) -> (r: Result<(), String>)
    ensures
        r is Ok <==> download_verified(*m, bytes@),
        bytes@.len() != m.size ==> err_is(r, size_mismatch_message(*m, bytes@)),
        (bytes@.len() == m.size && !download_verified(*m, bytes@)) ==> err_is(
            r,
            digest_mismatch_message(*m, bytes@),
        ),
{
    let n = bytes.len();
    if n as u64 != m.size {
        let mut e: Vec<char> = Vec::new();
        push_str(&mut e, "Daemon size mismatch: manifest=");
        push_decimal(&mut e, m.size);
        push_str(&mut e, " downloaded=");
        push_decimal(&mut e, n as u64);
        push_str(&mut e, " — refusing to install");
        assert(e@ =~= size_mismatch_message(*m, bytes@));
        return Err(string_of(e.as_slice()));
    }
    let digest = sha256_digest(bytes);
    let got = hex_encode(digest.as_slice());
    let got_cs = chars_of(got.as_str());
    let want_cs = chars_of(m.sha256.as_str());
    if !eq_ignore_ascii_case(got_cs.as_slice(), want_cs.as_slice()) {
        let mut e: Vec<char> = Vec::new();
        push_str(&mut e, "Daemon sha256 mismatch: manifest=");
        push_str(&mut e, m.sha256.as_str());
        push_str(&mut e, " downloaded=");
        push_str(&mut e, got.as_str());
        push_str(&mut e, " — refusing to install");
        assert(e@ =~= digest_mismatch_message(*m, bytes@));
        return Err(string_of(e.as_slice()));
    }
    Ok(())
}

/// Byte sequences equal.
fn bytes_eq(a: &[u8], b: &[u8]) -> (r: bool)
    ensures
        r == (a@ == b@),
{
    if a.len() != b.len() {
        return false;
    }
    let mut i: usize = 0;
    while i < a.len()
        invariant
            i <= a@.len() == b@.len(),
            forall|j: int| 0 <= j < i ==> a@[j] == b@[j],
        decreases a@.len() - i,
    {
        if a[i] != b[i] {
            return false;
        }
        i += 1;
    }
    assert(a@ =~= b@);
    true
}

/// What an update does once the download is in hand.
#[derive(Clone, Copy, Debug, PartialEq, Eq)]
pub enum UpdatePlan {
    /// The installed script is byte-for-byte the download.
    AlreadyLatest,
    /// Stop the daemon, keep the installed script as the backup when there
    /// is one, install the download.
    Install { back_up: bool },
}

/// Decides an update from the manifest, the downloaded bytes and the
/// installed script (empty when there is none). Nothing is installed
/// unless the download matches the manifest.
pub fn plan_update(m: &DaemonManifest, new_bytes: &[u8], current: &[u8]) -> (r: Result<
    UpdatePlan,
    String,
>)
    ensures
        !download_verified(*m, new_bytes@) ==> err_is(r, refusal_message(*m, new_bytes@)),
        download_verified(*m, new_bytes@) && current@ == new_bytes@ ==> r == Ok::<
            UpdatePlan,
            String,
        >(UpdatePlan::AlreadyLatest),
        download_verified(*m, new_bytes@) && current@ != new_bytes@ ==> r == Ok::<
            UpdatePlan,
            String,
        >(UpdatePlan::Install { back_up: current@.len() > 0 }),
{
    match verify_download(m, new_bytes) {
        Err(e) => Err(e),
        Ok(()) => {
            if bytes_eq(current, new_bytes) {
                Ok(UpdatePlan::AlreadyLatest)
            } else {
                Ok(UpdatePlan::Install { back_up: current.len() > 0 })
            }
        },
    }
}

/// An update installs a script only when it matches the manifest.
pub proof fn lemma_install_only_verified(
    m: DaemonManifest,
    new_bytes: Seq<u8>,
    r: Result<UpdatePlan, String>,
    current: Seq<u8>,
)
    requires
        !download_verified(m, new_bytes) ==> r is Err,
        download_verified(m, new_bytes) && current == new_bytes ==> r == Ok::<
            UpdatePlan,
            String,
        >(UpdatePlan::AlreadyLatest),
        download_verified(m, new_bytes) && current != new_bytes ==> r == Ok::<
            UpdatePlan,
            String,
        >(UpdatePlan::Install { back_up: current.len() > 0 }),
    ensures
        r matches Ok(UpdatePlan::Install { .. }) ==> download_verified(m, new_bytes)
            && current != new_bytes,
        r matches Ok(UpdatePlan::AlreadyLatest) ==> current == new_bytes,
{
}

/// `"backed_up"`, `"backup_failed"` or `"no_prior"`: what became of the
/// previous script (`backup_written` is `None` when there was none).
pub open spec fn backup_label(backup_written: Option<bool>) -> Seq<char> {
    match backup_written {
        Some(true) => "backed_up"@,
        Some(false) => "backup_failed"@,
        None => "no_prior"@,
    }
}

/// `"updated:{version}:{backup}"`, the answer to a completed update.
pub fn update_outcome(version: &str, backup_written: Option<bool>) -> (r: String)
    ensures
        r@ == "updated:"@ + version@ + ":"@ + backup_label(backup_written),
{
    let mut e: Vec<char> = Vec::new();
    push_str(&mut e, "updated:");
    push_str(&mut e, version);
    push_str(&mut e, ":");
    match backup_written {
        Some(true) => push_str(&mut e, "backed_up"),
        Some(false) => push_str(&mut e, "backup_failed"),
        None => push_str(&mut e, "no_prior"),
    }
    string_of(e.as_slice())
}

/// The version a daemon script declares: on the first line mentioning
/// `DAEMON_VERSION`, what follows the last `=`, trimmed of whitespace, then
/// of double quotes, then of single quotes.
pub open spec fn declared_version(text: Seq<char>) -> Option<Seq<char>> {
    let ls = lines(text);
    match first_where(ls, contains_pred("DAEMON_VERSION"@)) {
        Some(k) => Some(trim_char(trim_char(trim(split(ls[k], '=').last()), '"'), '\'')),
        None => None,
    }
}

/// The version label of a restored script: its declared version, or
/// `"unknown"`.
pub open spec fn restored_version(text: Seq<char>) -> Seq<char> {
    match declared_version(text) {
        Some(v) => v,
        None => "unknown"@,
    }
}

/// The version a script's bytes declare, for the rollback's answer.
pub fn script_version(script: &[u8]) -> (r: String)
    ensures
        r@ == restored_version(lossy_text(script@)),
{
    let text = text_of_bytes(script);
    let cs = chars_of(text.as_str());
    let ls = line_spans(cs.as_slice(), 0, cs.len());
    assert(cs@.subrange(0, cs@.len() as int) =~= cs@);
    let ghost all = lines(cs@);
    assert(pieces(cs@, ls@) == all);
    let pat = chars_of("DAEMON_VERSION");
    match first_span_containing(cs.as_slice(), ls.as_slice(), pat.as_slice()) {
        Some(k) => {
            let l = ls[k];
            assert(piece(cs@, l) == all[k as int]);
            let parts = split_spans(cs.as_slice(), l.start, l.end, '=');
            proof {
                crate::text::lemma_split_nonempty(cs@.subrange(l.start as int, l.end as int), '=');
                assert(cs@.subrange(l.start as int, l.end as int) == piece(cs@, l));
            }
            let last = parts[parts.len() - 1];
            let t = trim_span(cs.as_slice(), last.start, last.end);
            let q1 = trim_char_span(cs.as_slice(), t.start, t.end, '"');
            let q2 = trim_char_span(cs.as_slice(), q1.start, q1.end, '\'');
            let mut v: Vec<char> = Vec::new();
            push_range(&mut v, cs.as_slice(), q2.start, q2.end);
            string_of(v.as_slice())
        },
        None => owned("unknown"),
    }
}

/// `"rolled_back:{version}"`, the answer to a completed rollback.
pub fn rollback_outcome(version: &str) -> (r: String)
    ensures
        r@ == "rolled_back:"@ + version@,
{
    let mut e: Vec<char> = Vec::new();
    push_str(&mut e, "rolled_back:");
    push_str(&mut e, version);
    string_of(e.as_slice())
}

/// The refusal when there is no backup at `backup_path`.
pub fn no_backup_message(backup_path: &str) -> (r: String)
    ensures
        r@ == "No backup to roll back to at "@ + backup_path@,
{
    let mut e: Vec<char> = Vec::new();
    push_str(&mut e, "No backup to roll back to at ");
    push_str(&mut e, backup_path);
    string_of(e.as_slice())
}

/// What the full provider start does with the daemon it downloaded:
/// with a manifest, install only a verified download (the error is the
/// refusal to log); without one, install only when no script is cached.
pub fn fresh_install_decision(m: Option<&DaemonManifest>, bytes: &[u8], cached: bool) -> (r:
    Result<bool, String>)
    ensures
        m matches Some(mm) ==> (download_verified(*mm, bytes@) ==> r == Ok::<bool, String>(true)),
        m matches Some(mm) ==> (!download_verified(*mm, bytes@) ==> err_is(
            r,
            refusal_message(*mm, bytes@),
        )),
        m is None ==> r == Ok::<bool, String>(!cached),
{
    match m {
        Some(mm) => match verify_download(mm, bytes) {
            Ok(()) => Ok(true),
            Err(e) => Err(e),
        },
        None => Ok(!cached),
    }
}

/// The daemon version the wizard shows: the manifest's, or `"latest"`.
pub fn daemon_version_label(m: Option<&DaemonManifest>) -> (r: String)
    ensures
        m matches Some(mm) ==> r@ == mm.version@,
        m is None ==> r@ == "latest"@,
{
    match m {
        Some(mm) => mm.version.clone(),
        None => owned("latest"),
    }
}

/// The installed daemon script (empty when there is none) and the backup
/// kept beside it, if any.
pub struct ScriptFiles {
    pub installed: Vec<u8>,
    pub backup: Option<Vec<u8>>,
}

pub open spec fn opt_bytes(o: Option<Vec<u8>>) -> Option<Seq<u8>> {
    match o {
        Some(b) => Some(b@),
        None => None,
    }
}

impl View for ScriptFiles {
    type V = (Seq<u8>, Option<Seq<u8>>);

    open spec fn view(&self) -> (Seq<u8>, Option<Seq<u8>>) {
        (self.installed@, opt_bytes(self.backup))
    }
}

/// The script files once an update planned as `plan` has written them: an
/// install puts the download in place and, when it backs up, keeps the
/// script it replaces as the backup.
pub open spec fn updated_files(plan: UpdatePlan, f: (Seq<u8>, Option<Seq<u8>>), new_bytes: Seq<u8>) -> (
    Seq<u8>,
    Option<Seq<u8>>,
) {
    match plan {
        UpdatePlan::AlreadyLatest => f,
        UpdatePlan::Install { back_up } => (new_bytes, if back_up {
            Some(f.0)
        } else {
            f.1
        }),
    }
}

/// The script files once a rollback restored the backup (which it then
/// removes); `None` when there is no backup to roll back to.
pub open spec fn rolled_back_files(f: (Seq<u8>, Option<Seq<u8>>)) -> Option<(Seq<u8>, Option<Seq<u8>>)> {
    match f.1 {
        Some(b) => Some((b, None)),
        None => None,
    }
}

/// The answer to a rollback of `f` that succeeds.
pub open spec fn rollback_answer(f: (Seq<u8>, Option<Seq<u8>>)) -> Seq<char> {
    match f.1 {
        Some(b) => "rolled_back:"@ + restored_version(lossy_text(b)),
        None => Seq::empty(),
    }
}

/// Writes the update planned as `plan` into the script files.
pub fn apply_update(plan: UpdatePlan, files: ScriptFiles, new_bytes: &[u8]) -> (r: ScriptFiles)
    ensures
        r@ == updated_files(plan, files@, new_bytes@),
{
    match plan {
        UpdatePlan::AlreadyLatest => files,
        UpdatePlan::Install { back_up } => {
            let mut installed: Vec<u8> = Vec::new();
            let mut i: usize = 0;
            while i < new_bytes.len()
                invariant
                    i <= new_bytes@.len(),
                    installed@ == new_bytes@.take(i as int),
                decreases new_bytes@.len() - i,
            {
                installed.push(new_bytes[i]);
                i += 1;
            }
            assert(new_bytes@.take(new_bytes@.len() as int) =~= new_bytes@);
            let backup = if back_up {
                Some(files.installed)
            } else {
                files.backup
            };
            ScriptFiles { installed, backup }
        },
    }
}

/// Rolls the script files back to the backup, answering with the restored
/// script's version; refused when there is no backup at `backup_path`.
pub fn rollback(files: ScriptFiles, backup_path: &str) -> (r: Result<(ScriptFiles, String), String>)
    ensures
        files.backup is None ==> err_is(r, "No backup to roll back to at "@ + backup_path@),
        files.backup is Some ==> (r matches Ok((f, answer)) && Some(f@) == rolled_back_files(files@)
            && answer@ == rollback_answer(files@)),
{
    match files.backup {
        None => Err(no_backup_message(backup_path)),
        Some(b) => {
            let version = script_version(b.as_slice());
            let answer = rollback_outcome(version.as_str());
            Ok((ScriptFiles { installed: b, backup: None }, answer))
        },
    }
}

/// Rolling back right after an update that installed a verified download
/// over an existing script restores that script, answers with the version
/// it declares, and removes the backup, so that a second rollback is
/// refused.
pub proof fn lemma_update_then_rollback(
    m: DaemonManifest,
    current: Seq<u8>,
    backup: Option<Seq<u8>>,
    new_bytes: Seq<u8>,
)
    requires
        download_verified(m, new_bytes),
        current != new_bytes,
        current.len() > 0,
    ensures
        ({
            let updated = updated_files(
                UpdatePlan::Install { back_up: current.len() > 0 },
                (current, backup),
                new_bytes,
            );
            &&& updated.0 == new_bytes
            &&& rolled_back_files(updated) == Some((current, None::<Seq<u8>>))
            &&& rollback_answer(updated) == "rolled_back:"@ + restored_version(lossy_text(current))
            &&& rolled_back_files((current, None::<Seq<u8>>)) is None
        }),
{
}

} // verus!
