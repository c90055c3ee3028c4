//! Self-update rules: which release to install, which URLs may be fetched,
//! how checksum manifests and signature status are read, and which archive
//! entries may be extracted.
use vstd::prelude::*;
use crate::paths::{
    components, is_absolute, join, part_views, path_components, path_has_prefix, path_is_absolute, path_join,
    starts_with as path_starts_with, PathPart, PathPartView,
};
use crate::text::{
    decimal, decimal_string,
    ascii_lower, char_views, chars_of, eq_ignore_ascii_case, has_prefix, lines, lines_of, push_char, push_str,
    starts_with, str_eq, string_from_chars, trim_chars, trimmed, words, words_of,
};

verus! {

broadcast use vstd::string::group_string_axioms;

/// Largest accepted release metadata document.
pub const MAX_RELEASE_JSON_BYTES: usize = 2097152;
/// Largest accepted checksum manifest.
pub const MAX_CHECKSUM_BYTES: usize = 4194304;
/// Largest accepted detached signature.
pub const MAX_SIGNATURE_BYTES: usize = 1048576;
/// Largest accepted release archive.
pub const MAX_ASSET_BYTES: usize = 268435456;
/// Largest total size an archive may extract to.
pub const MAX_EXTRACTED_BYTES: u64 = 536870912;
/// Most redirects followed for one download.
pub const MAX_REDIRECT_HOPS: usize = 3;

/// URL prefixes the updater may download from.
pub open spec fn allowed_url(url: Seq<char>) -> bool {
    ||| has_prefix(url, "https://api.github.com/repos/BurntToasters/deoxidizer/"@)
    ||| has_prefix(url, "https://github.com/BurntToasters/deoxidizer/releases/download/"@)
    ||| has_prefix(url, "https://objects.githubusercontent.com/"@)
}

/// Allowlist for updater download URLs: the repository's API and release
/// download paths, and GitHub's object storage host, over HTTPS only.
///
/// The `objects.githubusercontent.com/` prefix is intentionally open:
/// release asset bytes are served from per-file hashed object URLs under
/// that host, so the prefix alone cannot authenticate content. Authenticity
/// comes from the detached signature plus SHA256 verification.
pub fn is_allowed_download_url(url: &str) -> (r: bool)
    ensures
        r == allowed_url(url@),
{
    let u = chars_of(url);
    starts_with(u.as_slice(), "https://api.github.com/repos/BurntToasters/deoxidizer/")
        || starts_with(u.as_slice(), "https://github.com/BurntToasters/deoxidizer/releases/download/")
        || starts_with(u.as_slice(), "https://objects.githubusercontent.com/")
}

/// The other command name installed beside `current_name`.
pub open spec fn sibling_of(current_name: Seq<char>) -> Option<Seq<char>> {
    if current_name == "deoxidizer"@ {
        Some("deox"@)
    } else if current_name == "deox"@ {
        Some("deoxidizer"@)
    } else if current_name == "deoxidizer.exe"@ {
        Some("deox.exe"@)
    } else if current_name == "deox.exe"@ {
        Some("deoxidizer.exe"@)
    } else {
        None
    }
}

/// The sibling binary kept in sync with the running one: `deoxidizer` and
/// `deox` pair up, with or without `.exe`.
pub fn sibling_binary_name(current_name: &str) -> (r: Option<&'static str>)
    ensures
        match r {
            Some(s) => sibling_of(current_name@) == Some(s@),
            None => sibling_of(current_name@) is None,
        },
{
    if str_eq(current_name, "deoxidizer") {
        Some("deox")
    } else if str_eq(current_name, "deox") {
        Some("deoxidizer")
    } else if str_eq(current_name, "deoxidizer.exe") {
        Some("deox.exe")
    } else if str_eq(current_name, "deox.exe") {
        Some("deoxidizer.exe")
    } else {
        None
    }
}

/// The release tokens for an operating system and architecture named as
/// `std::env::consts::OS` and `ARCH` name them.
pub open spec fn tokens_of(os: Seq<char>, arch: Seq<char>) -> (Seq<char>, Seq<char>) {
    let o = if os == "macos"@ {
        "darwin"@
    } else if os == "linux"@ {
        "linux"@
    } else if os == "windows"@ {
        "windows"@
    } else {
        "unknown"@
    };
    let a = if arch == "x86_64"@ {
        "x86_64"@
    } else if arch == "aarch64"@ {
        "aarch64"@
    } else {
        "unknown"@
    };
    (o, a)
}

/// The release asset tokens (`darwin`/`linux`/`windows`, `x86_64`/`aarch64`,
/// or `unknown`) for the platform the binary was built for.
pub fn platform_tokens(os: &str, arch: &str) -> (r: (&'static str, &'static str))
    ensures
        (r.0@, r.1@) == tokens_of(os@, arch@),
{
    let o = if str_eq(os, "macos") {
        "darwin"
    } else if str_eq(os, "linux") {
        "linux"
    } else if str_eq(os, "windows") {
        "windows"
    } else {
        "unknown"
    };
    let a = if str_eq(arch, "x86_64") {
        "x86_64"
    } else if str_eq(arch, "aarch64") {
        "aarch64"
    } else {
        "unknown"
    };
    (o, a)
}

/// `deoxidizer-v<version>-<os>-<arch>.<ext>`, with `zip` on Windows and `tar.gz` elsewhere.
pub open spec fn asset_name_of(version: Seq<char>, os: Seq<char>, arch: Seq<char>) -> Seq<char> {
    let (o, a) = tokens_of(os, arch);
    "deoxidizer-v"@ + version + "-"@ + o + "-"@ + a + "."@ + if os == "windows"@ {
        "zip"@
    } else {
        "tar.gz"@
    }
}

/// Determine the expected release asset name for a platform.
pub fn platform_asset_name(version: &str, os: &str, arch: &str) -> (r: String)
    ensures
        r@ == asset_name_of(version@, os@, arch@),
{
    let (o, a) = platform_tokens(os, arch);
    let ext = if str_eq(os, "windows") { "zip" } else { "tar.gz" };
    let mut s = String::new();
    push_str(&mut s, "deoxidizer-v");
    push_str(&mut s, version);
    push_str(&mut s, "-");
    push_str(&mut s, o);
    push_str(&mut s, "-");
    push_str(&mut s, a);
    push_str(&mut s, ".");
    push_str(&mut s, ext);
    s
}

#[verifier::external_type_specification]
#[verifier::external_body]
pub struct ExSemverVersion(semver::Version);

/// Whether `semver::Version::parse` accepts the text.
pub uninterp spec fn semver_valid(text: Seq<char>) -> bool;

/// Whether the version parsed from `a` orders after the one parsed from `b`
/// (`semver::Version`'s `>`).
pub uninterp spec fn semver_greater(a: Seq<char>, b: Seq<char>) -> bool;

/// A version string together with its parse.
pub struct ParsedVersion {
    text: String,
    version: semver::Version,
}

impl ParsedVersion {
    pub closed spec fn text(&self) -> Seq<char> {
        self.text@
    }
}

/// `semver::Version::parse`.
#[verifier::external_body]
fn parse_version(text: &str) -> (r: Option<ParsedVersion>)
    ensures
        r is Some <==> semver_valid(text@),
        r matches Some(v) ==> v.text() == text@,
{
    semver::Version::parse(text).ok().map(|version| ParsedVersion { text: text.to_string(), version })
}

/// `semver::Version`'s `>` on two parsed versions.
#[verifier::external_body]
fn version_greater(a: &ParsedVersion, b: &ParsedVersion) -> (r: bool)
    ensures
        r == semver_greater(a.text(), b.text()),
{
    a.version > b.version
}

/// Compare semver strings: true exactly when both parse and `latest` orders
/// after `current` (so a pre-release orders before its release).
pub fn is_newer(latest: &str, current: &str) -> (r: bool)
    ensures
        r == (semver_valid(latest@) && semver_valid(current@) && semver_greater(latest@, current@)),
{
    match (parse_version(latest), parse_version(current)) {
        (Some(l), Some(c)) => version_greater(&l, &c),
        _ => false,
    }
}


/// The SHA-256 digest of the bytes (`sha2::Sha256::digest`).
pub uninterp spec fn sha256(data: Seq<u8>) -> Seq<u8>;

/// `sha2::Sha256::digest`: 32 bytes.
#[verifier::external_body]
fn sha256_digest(data: &[u8]) -> (r: Vec<u8>)
    ensures
        r@ == sha256(data@),
        r@.len() == 32,
{
    <sha2::Sha256 as sha2::Digest>::digest(data).to_vec()
}

/// The lower-case hex digit for `d < 16`.
pub open spec fn hex_digit(d: int) -> char {
    if d < 10 {
        ((d + 48) as u32) as char
    } else {
        ((d + 87) as u32) as char
    }
}

/// Two lower-case hex digits per byte, high nibble first.
pub open spec fn hex_lower(bytes: Seq<u8>) -> Seq<char>
    decreases bytes.len(),
{
    if bytes.len() == 0 {
        Seq::empty()
    } else {
        hex_lower(bytes.drop_last()).push(hex_digit((bytes.last() / 16) as int)).push(hex_digit((bytes.last() % 16) as int))
    }
}

/// `hex::encode`: lower-case hexadecimal, two digits per byte.
#[verifier::external_body]
fn hex_encode(bytes: &[u8]) -> (r: String)
    ensures
        r@ == hex_lower(bytes@),
{
    hex::encode(bytes)
}

/// `w` without its leading `*` characters (`trim_start_matches('*')`).
pub open spec fn strip_stars(w: Seq<char>) -> Seq<char>
    decreases w.len(),
{
    if w.len() > 0 && w[0] == '*' {
        strip_stars(w.drop_first())
    } else {
        w
    }
}

pub open spec fn is_hex_char(c: char) -> bool {
    ('0' <= c && c <= '9') || ('a' <= c && c <= 'f') || ('A' <= c && c <= 'F')
}

/// A digest field: 64 ASCII hex digits.
pub open spec fn valid_digest(w: Seq<char>) -> bool {
    w.len() == 64 && forall|i: int| 0 <= i < w.len() ==> is_hex_char(#[trigger] w[i])
}

/// Whether a manifest line is the entry for `asset`: two fields, the second
/// naming the asset (a leading `*` binary marker is ignored).
pub open spec fn is_entry_for(words: Seq<Seq<char>>, asset: Seq<char>) -> bool {
    words.len() == 2 && strip_stars(words[1]) == asset
}

/// What reading the first lines of a manifest found for one asset.
pub enum ManifestScan {
    NoEntry,
    Entry(Seq<char>),
    /// A second entry, or an entry whose digest field is malformed.
    Rejected,
}

/// Reads manifest lines in order, looking for the asset's entry.
pub open spec fn scan_manifest(lines: Seq<Seq<char>>, asset: Seq<char>) -> ManifestScan
    decreases lines.len(),
{
    if lines.len() == 0 {
        ManifestScan::NoEntry
    } else {
        let before = scan_manifest(lines.drop_last(), asset);
        let ws = words_of(lines.last());
        if before is Rejected {
            ManifestScan::Rejected
        } else if is_entry_for(ws, asset) {
            if before is Entry || !valid_digest(ws[0]) {
                ManifestScan::Rejected
            } else {
                ManifestScan::Entry(ws[0])
            }
        } else {
            before
        }
    }
}

/// Whether the manifest holds exactly one well-formed entry for the asset and
/// its digest equals `computed`, ignoring ASCII case.
pub open spec fn checksum_ok(computed: Seq<char>, asset: Seq<char>, manifest: Seq<char>) -> bool {
    match scan_manifest(lines_of(manifest), asset) {
        ManifestScan::Entry(d) => ascii_lower(d) == ascii_lower(computed),
        _ => false,
    }
}

proof fn lemma_scan_rejected_sticks(ls: Seq<Seq<char>>, asset: Seq<char>, i: int)
    requires
        0 <= i <= ls.len(),
        scan_manifest(ls.take(i), asset) is Rejected,
    ensures
        scan_manifest(ls, asset) is Rejected,
    decreases ls.len() - i,
{
    if i < ls.len() {
        assert(ls.take(i + 1).drop_last() =~= ls.take(i));
        lemma_scan_rejected_sticks(ls, asset, i + 1);
    } else {
        assert(ls.take(i) =~= ls);
    }
}

fn is_valid_digest(w: &Vec<char>) -> (r: bool)
    ensures
        r == valid_digest(w@),
{
    if w.len() != 64 {
        return false;
    }
    let mut i: usize = 0;
    while i < w.len()
        invariant
            i <= w@.len(),
            forall|k: int| 0 <= k < i ==> is_hex_char(#[trigger] w@[k]),
        decreases w@.len() - i,
    {
        let c = w[i];
        if !(('0' <= c && c <= '9') || ('a' <= c && c <= 'f') || ('A' <= c && c <= 'F')) {
            return false;
        }
        i = i + 1;
    }
    true
}

fn strip_leading_stars(w: &Vec<char>) -> (r: Vec<char>)
    ensures
        r@ == strip_stars(w@),
{
    let mut i: usize = 0;
    assert(w@.subrange(0, w@.len() as int) =~= w@);
    while i < w.len() && w[i] == '*'
        invariant
            i <= w@.len(),
            strip_stars(w@) == strip_stars(w@.subrange(i as int, w@.len() as int)),
        decreases w@.len() - i,
    {
        assert(w@.subrange(i as int, w@.len() as int).drop_first() =~= w@.subrange(i + 1, w@.len() as int));
        i = i + 1;
    }
    assert(i == w@.len() || w@.subrange(i as int, w@.len() as int)[0] != '*');
    let mut out: Vec<char> = Vec::new();
    let mut k: usize = i;
    while k < w.len()
        invariant
            i <= k <= w@.len(),
            out@ == w@.subrange(i as int, k as int),
        decreases w@.len() - k,
    {
        out.push(w[k]);
        k = k + 1;
        assert(out@ =~= w@.subrange(i as int, k as int));
    }
    out
}

fn chars_eq(a: &Vec<char>, b: &str) -> (r: bool)
    ensures
        r == (a@ == b@),
{
    let bc = chars_of(b);
    if a.len() != bc.len() {
        return false;
    }
    let mut i: usize = 0;
    while i < a.len()
        invariant
            i <= a@.len(),
            a@.len() == bc@.len(),
            bc@ == b@,
            forall|k: int| 0 <= k < i ==> a@[k] == bc@[k],
        decreases a@.len() - i,
    {
        if a[i] != bc[i] {
            assert(a@[i as int] != bc@[i as int]);
            return false;
        }
        i = i + 1;
    }
    assert(a@ =~= bc@);
    true
}

/// Checks a downloaded asset's hex SHA-256 digest against a checksums
/// manifest: the manifest must hold exactly one entry for the asset, with a
/// 64-digit hex digest equal to `computed` (ASCII case ignored).
pub fn checksum_matches(computed: &str, asset_name: &str, checksums: &str) -> (r: bool)
    ensures
        r == checksum_ok(computed@, asset_name@, checksums@),
{
    let text = chars_of(checksums);
    let ls = lines(text.as_slice());
    let ghost lv = char_views(ls@);
    let mut expected: Option<Vec<char>> = None;
    let mut i: usize = 0;
    while i < ls.len()
        invariant
            i <= ls@.len(),
            lv == char_views(ls@),
            lv == lines_of(checksums@),
            match scan_manifest(lv.take(i as int), asset_name@) {
                ManifestScan::NoEntry => expected is None,
                ManifestScan::Entry(d) => expected matches Some(e) && e@ == d,
                ManifestScan::Rejected => false,
            },
        decreases ls@.len() - i,
    {
        assert(lv.take(i + 1).drop_last() =~= lv.take(i as int));
        assert(lv.take(i + 1).last() == ls@[i as int]@);
        let parts = words(ls[i].as_slice());
        if parts.len() == 2 {
            let name = strip_leading_stars(&parts[1]);
            if chars_eq(&name, asset_name) {
                if expected.is_some() || !is_valid_digest(&parts[0]) {
                    proof {
                        lemma_scan_rejected_sticks(lv, asset_name@, i + 1);
                    }
                    return false;
                }
                expected = Some(parts[0].clone());
            }
        }
        i = i + 1;
    }
    assert(lv.take(ls@.len() as int) =~= lv);
    match expected {
        Some(e) => {
            let c = chars_of(computed);
            eq_ignore_ascii_case(e.as_slice(), c.as_slice())
        },
        None => false,
    }
}

/// Verify the SHA-256 checksum of downloaded bytes against a checksums manifest.
pub fn verify_sha256(data: &[u8], asset_name: &str, checksums: &str) -> (r: bool)
    ensures
        r == checksum_ok(hex_lower(sha256(data@)), asset_name@, checksums@),
{
    let digest = sha256_digest(data);
    let computed = hex_encode(digest.as_slice());
    checksum_matches(computed.as_str(), asset_name, checksums)
}


/// The fingerprint of the pinned release signing key.
pub open spec fn expected_fpr() -> Seq<char> {
    "CAEB45D4747E73FA11A9CBF7619A06F3F2FBC20F"@
}

/// A gpg status line without its `[GNUPG:] ` marker and surrounding white space.
pub open spec fn status_payload(line: Seq<char>) -> Seq<char> {
    trimmed(if has_prefix(line, "[GNUPG:] "@) { line.skip(9) } else { line })
}

/// A status that rejects the signature: bad, erroneous, expired, or made by
/// an expired or revoked key.
pub open spec fn is_bad_status(p: Seq<char>) -> bool {
    ||| has_prefix(p, "BADSIG "@)
    ||| has_prefix(p, "ERRSIG "@)
    ||| has_prefix(p, "EXPSIG "@)
    ||| has_prefix(p, "EXPKEYSIG "@)
    ||| has_prefix(p, "REVKEYSIG "@)
}

/// The first white-space separated word, or nothing.
pub open spec fn first_word(s: Seq<char>) -> Seq<char> {
    if words_of(s).len() > 0 {
        words_of(s)[0]
    } else {
        Seq::empty()
    }
}

/// A `VALIDSIG` status whose fingerprint is the pinned key's.
pub open spec fn is_pinned_validsig(p: Seq<char>) -> bool {
    has_prefix(p, "VALIDSIG "@) && ascii_lower(first_word(p.skip(9))) == ascii_lower(expected_fpr())
}

/// `base`, followed by `: ` and the trimmed detail when there is one.
pub open spec fn with_detail(base: Seq<char>, detail: Seq<char>) -> Seq<char> {
    if trimmed(detail).len() == 0 {
        base
    } else {
        base + ": "@ + trimmed(detail)
    }
}

/// What gpg's machine-readable status says of a detached signature.
pub open spec fn signature_verdict(status: Seq<char>, stderr: Seq<char>) -> Result<(), Seq<char>> {
    let ls = lines_of(status);
    if exists|i: int| 0 <= i < ls.len() && is_bad_status(status_payload(#[trigger] ls[i])) {
        Err("signature shows a bad/expired/revoked key"@)
    } else if exists|i: int| 0 <= i < ls.len() && is_pinned_validsig(status_payload(#[trigger] ls[i])) {
        Ok(())
    } else {
        Err(with_detail("signature is not from the pinned release key"@, stderr))
    }
}

pub open spec fn unit_text_result(r: Result<(), String>) -> Result<(), Seq<char>> {
    match r {
        Ok(_) => Ok(()),
        Err(e) => Err(e@),
    }
}

/// `base`, followed by `: ` and the trimmed `detail` when it is not blank.
pub fn message_with_detail(base: &str, detail: &str) -> (r: String)
    ensures
        r@ == with_detail(base@, detail@),
{
    let d = chars_of(detail);
    let t = trim_chars(d.as_slice());
    let mut m = String::new();
    push_str(&mut m, base);
    if t.len() > 0 {
        push_str(&mut m, ": ");
        let ts = string_from_chars(t.as_slice());
        push_str(&mut m, ts.as_str());
    }
    m
}

fn drop_chars(s: &Vec<char>, n: usize) -> (r: Vec<char>)
    requires
        n <= s@.len(),
    ensures
        r@ == s@.skip(n as int),
{
    let mut out: Vec<char> = Vec::new();
    let mut k: usize = n;
    while k < s.len()
        invariant
            n <= k <= s@.len(),
            out@ == s@.subrange(n as int, k as int),
        decreases s@.len() - k,
    {
        out.push(s[k]);
        k = k + 1;
        assert(out@ =~= s@.subrange(n as int, k as int));
    }
    out
}

fn payload_of(line: &Vec<char>) -> (r: Vec<char>)
    ensures
        r@ == status_payload(line@),
{
    if starts_with(line.as_slice(), "[GNUPG:] ") {
        proof {
            reveal_strlit("[GNUPG:] ");
        }
        let rest = drop_chars(line, 9);
        trim_chars(rest.as_slice())
    } else {
        trim_chars(line.as_slice())
    }
}

fn pinned_validsig(p: &Vec<char>) -> (r: bool)
    ensures
        r == is_pinned_validsig(p@),
{
    if !starts_with(p.as_slice(), "VALIDSIG ") {
        return false;
    }
    proof {
        reveal_strlit("VALIDSIG ");
    }
    let rest = drop_chars(p, 9);
    let ws = words(rest.as_slice());
    let fpr = chars_of("CAEB45D4747E73FA11A9CBF7619A06F3F2FBC20F");
    if ws.len() > 0 {
        eq_ignore_ascii_case(ws[0].as_slice(), fpr.as_slice())
    } else {
        let empty: Vec<char> = Vec::new();
        assert(empty@ =~= Seq::<char>::empty());
        eq_ignore_ascii_case(empty.as_slice(), fpr.as_slice())
    }
}

/// Reads gpg's `--status-fd` output for a detached signature. Any bad,
/// erroneous, expired or revoked status rejects, even beside a valid one;
/// otherwise a `VALIDSIG` whose fingerprint is the pinned key's accepts.
pub fn check_signature_status(status: &str, stderr: &str) -> (r: Result<(), String>)
    ensures
        unit_text_result(r) == signature_verdict(status@, stderr@),
{
    let text = chars_of(status);
    let ls = lines(text.as_slice());
    let ghost lv = char_views(ls@);
    let mut valid = false;
    let mut i: usize = 0;
    while i < ls.len()
        invariant
            i <= ls@.len(),
            lv == char_views(ls@),
            lv == lines_of(status@),
            forall|k: int| 0 <= k < i ==> !is_bad_status(status_payload(#[trigger] lv[k])),
            valid == exists|k: int| 0 <= k < i && is_pinned_validsig(status_payload(#[trigger] lv[k])),
        decreases ls@.len() - i,
    {
        let p = payload_of(&ls[i]);
        assert(lv[i as int] == ls@[i as int]@);
        if starts_with(p.as_slice(), "BADSIG ") || starts_with(p.as_slice(), "ERRSIG ")
            || starts_with(p.as_slice(), "EXPSIG ") || starts_with(p.as_slice(), "EXPKEYSIG ")
            || starts_with(p.as_slice(), "REVKEYSIG ") {
            assert(is_bad_status(status_payload(lv[i as int])));
            let mut m = String::new();
            push_str(&mut m, "signature shows a bad/expired/revoked key");
            return Err(m);
        }
        if pinned_validsig(&p) {
            valid = true;
        }
        proof {
            if valid {
                if is_pinned_validsig(status_payload(lv[i as int])) {
                    assert(exists|k: int| 0 <= k < i + 1 && is_pinned_validsig(status_payload(#[trigger] lv[k])));
                } else {
                    let k = choose|k: int| 0 <= k < i && is_pinned_validsig(status_payload(#[trigger] lv[k]));
                    assert(0 <= k < i + 1);
                }
            }
        }
        i = i + 1;
    }
    if !valid {
        return Err(message_with_detail("signature is not from the pinned release key", stderr));
    }
    Ok(())
}


/// The safe relative path an archive entry may be extracted to: the normal
/// components of `parts`, joined; `.` components are skipped.
pub open spec fn safe_join(parts: Seq<PathPartView>) -> Seq<char>
    decreases parts.len(),
{
    if parts.len() == 0 {
        Seq::empty()
    } else {
        let base = safe_join(parts.drop_last());
        match parts.last() {
            PathPartView::Normal(n) => path_join(base, n),
            _ => base,
        }
    }
}

pub open spec fn has_normal(parts: Seq<PathPartView>) -> bool {
    exists|i: int| 0 <= i < parts.len() && (#[trigger] parts[i]) is Normal
}

pub open spec fn is_escape(p: PathPartView) -> bool {
    p is ParentDir || p is RootDir || p is Prefix
}

/// What an archive entry path is accepted as: absolute paths, parent
/// traversal, roots and prefixes are refused, as is a path with no normal
/// component.
pub open spec fn archive_path_verdict(path: Seq<char>) -> Result<Seq<char>, Seq<char>> {
    let parts = path_components(path);
    if path_is_absolute(path) {
        Err("archive contains absolute path "@ + path)
    } else if exists|i: int| 0 <= i < parts.len() && is_escape(#[trigger] parts[i]) {
        Err("archive contains unsafe path "@ + path)
    } else if !has_normal(parts) {
        Err("archive contains an empty path"@)
    } else {
        Ok(safe_join(parts))
    }
}

pub open spec fn text_result(r: Result<String, String>) -> Result<Seq<char>, Seq<char>> {
    match r {
        Ok(s) => Ok(s@),
        Err(e) => Err(e@),
    }
}

fn prefixed(prefix: &str, rest: &str) -> (r: String)
    ensures
        r@ == prefix@ + rest@,
{
    let mut m = String::new();
    push_str(&mut m, prefix);
    push_str(&mut m, rest);
    m
}

/// Checks an archive entry path before extraction and returns the relative
/// path it is extracted to.
pub fn validate_archive_path(path: &str) -> (r: Result<String, String>)
    ensures
        text_result(r) == archive_path_verdict(path@),
{
    if is_absolute(path) {
        return Err(prefixed("archive contains absolute path ", path));
    }
    let parts = components(path);
    let ghost pv = part_views(parts@);
    let mut safe = String::new();
    let mut any_normal = false;
    let mut i: usize = 0;
    while i < parts.len()
        invariant
            i <= parts@.len(),
            pv == part_views(parts@),
            pv == path_components(path@),
            !path_is_absolute(path@),
            forall|k: int| 0 <= k < i ==> !is_escape(#[trigger] pv[k]),
            safe@ == safe_join(pv.take(i as int)),
            any_normal == has_normal(pv.take(i as int)),
        decreases parts@.len() - i,
    {
        assert(pv.take(i + 1).drop_last() =~= pv.take(i as int));
        assert(pv.take(i + 1).last() == pv[i as int]);
        match &parts[i] {
            PathPart::CurDir => {
                assert(has_normal(pv.take(i + 1)) == has_normal(pv.take(i as int))) by {
                    if has_normal(pv.take(i + 1)) {
                        let k = choose|k: int| 0 <= k < i + 1 && (#[trigger] pv.take(i + 1)[k]) is Normal;
                        assert(pv.take(i as int)[k] is Normal);
                    }
                    if has_normal(pv.take(i as int)) {
                        let k = choose|k: int| 0 <= k < i && (#[trigger] pv.take(i as int)[k]) is Normal;
                        assert(pv.take(i + 1)[k] is Normal);
                    }
                }
            },
            PathPart::Normal(name) => {
                safe = join(safe.as_str(), name.as_str());
                any_normal = true;
                assert(pv.take(i + 1)[i as int] is Normal);
            },
            _ => {
                assert(is_escape(pv[i as int]));
                return Err(prefixed("archive contains unsafe path ", path));
            },
        }
        i = i + 1;
    }
    assert(pv.take(parts@.len() as int) =~= pv);
    if !any_normal {
        return Err(owned_message("archive contains an empty path"));
    }
    Ok(safe)
}

fn owned_message(s: &str) -> (r: String)
    ensures
        r@ == s@,
{
    let mut m = String::new();
    push_str(&mut m, s);
    assert(m@ =~= s@);
    m
}

/// Where an archive entry is written: its safe path under the extraction
/// directory, refused when the joined path does not stay under it.
pub fn extraction_output(destination: &str, safe_path: &str, shown: &str) -> (r: Result<String, String>)
    ensures
        text_result(r) == if path_has_prefix(path_join(destination@, safe_path@), destination@) {
            Ok::<Seq<char>, Seq<char>>(path_join(destination@, safe_path@))
        } else {
            Err("archive path escaped extraction directory: "@ + shown@)
        },
{
    let output = join(destination, safe_path);
    if !path_starts_with(output.as_str(), destination) {
        return Err(prefixed("archive path escaped extraction directory: ", shown));
    }
    Ok(output)
}

/// The running total of bytes extracted from an archive.
pub struct ExtractionBudget {
    pub extracted: u64,
}

impl ExtractionBudget {
    /// Nothing extracted yet.
    pub fn new() -> (r: ExtractionBudget)
        ensures
            r.extracted == 0,
    {
        ExtractionBudget { extracted: 0 }
    }

    /// Refuses an entry whose declared size would take the total over the
    /// limit, before any of its bytes are written.
    pub fn precheck(&self, declared: u64) -> (r: Result<(), String>)
        ensures
            r is Ok <==> self.extracted + declared <= MAX_EXTRACTED_BYTES,
            r matches Err(e) ==> e@ == "archive exceeds extracted size limit"@,
    {
        let exceeds = match self.extracted.checked_add(declared) {
            None => true,
            Some(total) => total > MAX_EXTRACTED_BYTES,
        };
        if exceeds {
            return Err(owned_message("archive exceeds extracted size limit"));
        }
        Ok(())
    }

    /// Counts the bytes actually written for an entry; the total may never
    /// exceed the limit.
    pub fn record(&mut self, actual: u64) -> (r: Result<(), String>)
        ensures
            old(self).extracted + actual > u64::MAX ==> (r matches Err(e)
                && e@ == "archive extracted size overflow"@ && final(self).extracted == old(self).extracted),
            old(self).extracted + actual <= u64::MAX ==> final(self).extracted == old(self).extracted + actual,
            old(self).extracted + actual <= u64::MAX ==> (r is Ok <==> final(self).extracted <= MAX_EXTRACTED_BYTES),
            old(self).extracted + actual <= u64::MAX ==> (r matches Err(e) ==> e@ == "archive exceeds extracted size limit"@),
    {
        match self.extracted.checked_add(actual) {
            None => Err(owned_message("archive extracted size overflow")),
            Some(total) => {
                self.extracted = total;
                if total > MAX_EXTRACTED_BYTES {
                    Err(owned_message("archive exceeds extracted size limit"))
                } else {
                    Ok(())
                }
            },
        }
    }
}

/// Whether a zip entry's unix mode marks a symbolic link.
pub fn is_symlink_mode(mode: u32) -> (r: bool)
    ensures
        r == (mode & 0o170000u32 == 0o120000u32),
{
    mode & 0o170000u32 == 0o120000u32
}

/// Whether a tar entry's mode has the setuid or setgid bit.
pub fn has_setid_bits(mode: u32) -> (r: bool)
    ensures
        r == (mode & 0o6000u32 != 0),
{
    mode & 0o6000u32 != 0
}

/// The permission bits applied to an extracted zip file: none when the
/// archive carries no permission bits.
pub fn zip_permissions(mode: u32) -> (r: Option<u32>)
    ensures
        r == if mode & 0o777u32 != 0 { Some(mode & 0o777u32) } else { None::<u32> },
{
    let perm = mode & 0o777u32;
    if perm != 0 {
        Some(perm)
    } else {
        None
    }
}

/// Refuses a zip entry name with a backslash, which could be read as a
/// separator on Windows.
pub fn check_zip_entry_name(raw_name: &str) -> (r: Result<(), String>)
    ensures
        r is Ok <==> !raw_name@.contains('\\'),
        r matches Err(e) ==> e@ == "archive contains unsafe path "@ + raw_name@,
{
    let cs = chars_of(raw_name);
    let mut i: usize = 0;
    while i < cs.len()
        invariant
            i <= cs@.len(),
            cs@ == raw_name@,
            forall|k: int| 0 <= k < i ==> cs@[k] != '\\',
        decreases cs@.len() - i,
    {
        if cs[i] == '\\' {
            assert(raw_name@[i as int] == '\\');
            return Err(prefixed("archive contains unsafe path ", raw_name));
        }
        i = i + 1;
    }
    Ok(())
}


/// Checks of the `releases/latest` answer: it must not be a draft or a
/// pre-release, must carry a version tag, and must offer assets.
pub open spec fn release_verdict(tag: Seq<char>, draft: bool, prerelease: bool, asset_count: nat) -> Result<(), Seq<char>> {
    if draft {
        Err("latest release is a draft; refusing to update"@)
    } else if prerelease {
        Err("latest release is a prerelease; refusing to update"@)
    } else if trimmed(tag).len() == 0 {
        Err("latest release is missing its version tag; refusing to update"@)
    } else if asset_count == 0 {
        Err("latest release contains no downloadable assets; refusing to update"@)
    } else {
        Ok(())
    }
}

/// Refuses a latest-release answer that should never be installed.
pub fn check_release(tag: &str, draft: bool, prerelease: bool, asset_count: usize) -> (r: Result<(), String>)
    ensures
        unit_text_result(r) == release_verdict(tag@, draft, prerelease, asset_count as nat),
{
    if draft {
        return Err(owned_message("latest release is a draft; refusing to update"));
    }
    if prerelease {
        return Err(owned_message("latest release is a prerelease; refusing to update"));
    }
    let t = chars_of(tag);
    let tt = trim_chars(t.as_slice());
    if tt.len() == 0 {
        return Err(owned_message("latest release is missing its version tag; refusing to update"));
    }
    if asset_count == 0 {
        return Err(owned_message("latest release contains no downloadable assets; refusing to update"));
    }
    Ok(())
}

/// A downloadable file of a release.
#[derive(Debug)]
pub struct ReleaseAsset {
    pub name: String,
    pub browser_download_url: String,
}

/// The URL of the first asset named `name`.
pub open spec fn find_asset(assets: Seq<ReleaseAsset>, name: Seq<char>) -> Option<Seq<char>>
    decreases assets.len(),
{
    if assets.len() == 0 {
        None
    } else if assets[0].name@ == name {
        Some(assets[0].browser_download_url@)
    } else {
        find_asset(assets.drop_first(), name)
    }
}

proof fn lemma_find_asset_skip(assets: Seq<ReleaseAsset>, name: Seq<char>, i: int)
    requires
        0 <= i <= assets.len(),
        forall|k: int| 0 <= k < i ==> (#[trigger] assets[k]).name@ != name,
    ensures
        find_asset(assets, name) == find_asset(assets.subrange(i, assets.len() as int), name),
    decreases i,
{
    if i > 0 {
        assert(assets.drop_first() =~= assets.subrange(1, assets.len() as int));
        lemma_find_asset_skip(assets.drop_first(), name, i - 1);
        assert(assets.drop_first().subrange(i - 1, assets.drop_first().len() as int) =~= assets.subrange(i, assets.len() as int));
    } else {
        assert(assets.subrange(0, assets.len() as int) =~= assets);
    }
}

/// The download URL of the first asset named `name`.
pub fn find_asset_url(assets: &Vec<ReleaseAsset>, name: &str) -> (r: Option<String>)
    ensures
        match r {
            Some(u) => find_asset(assets@, name@) == Some(u@),
            None => find_asset(assets@, name@) is None,
        },
{
    let mut i: usize = 0;
    while i < assets.len()
        invariant
            i <= assets@.len(),
            forall|k: int| 0 <= k < i ==> (#[trigger] assets@[k]).name@ != name@,
        decreases assets@.len() - i,
    {
        if str_eq(assets[i].name.as_str(), name) {
            proof {
                lemma_find_asset_skip(assets@, name@, i as int);
            }
            return Some(assets[i].browser_download_url.clone());
        }
        i = i + 1;
    }
    proof {
        lemma_find_asset_skip(assets@, name@, i as int);
    }
    None
}

/// The text after the last `/` (all of it when there is none), as
/// `rsplit('/').next()` gives it.
pub open spec fn last_segment(url: Seq<char>) -> Seq<char>
    decreases url.len(),
{
    if url.len() == 0 {
        url
    } else if url.last() == '/' {
        Seq::empty()
    } else {
        last_segment(url.drop_last()).push(url.last())
    }
}

fn last_url_segment(url: &str) -> (r: String)
    ensures
        r@ == last_segment(url@),
{
    let cs = chars_of(url);
    let mut start: usize = 0;
    let mut i: usize = 0;
    while i < cs.len()
        invariant
            i <= cs@.len(),
            start <= i,
            cs@ == url@,
            last_segment(cs@.take(i as int)) == cs@.subrange(start as int, i as int),
        decreases cs@.len() - i,
    {
        assert(cs@.take(i + 1).drop_last() =~= cs@.take(i as int));
        if cs[i] == '/' {
            start = i + 1;
            assert(cs@.subrange(start as int, i + 1) =~= Seq::<char>::empty());
        } else {
            assert(cs@.subrange(start as int, i + 1) =~= cs@.subrange(start as int, i as int).push(cs@[i as int]));
        }
        i = i + 1;
    }
    assert(cs@.take(cs@.len() as int) =~= cs@);
    let mut out: Vec<char> = Vec::new();
    let mut k: usize = start;
    while k < cs.len()
        invariant
            start <= k <= cs@.len(),
            out@ == cs@.subrange(start as int, k as int),
        decreases cs@.len() - k,
    {
        out.push(cs[k]);
        k = k + 1;
        assert(out@ =~= cs@.subrange(start as int, k as int));
    }
    string_from_chars(out.as_slice())
}

/// The version a release tag names: trimmed, without a leading `v`.
pub open spec fn tag_version(tag: Seq<char>) -> Seq<char> {
    let t = trimmed(tag);
    if t.len() > 0 && t[0] == 'v' {
        t.skip(1)
    } else {
        t
    }
}

/// The version a release tag names.
pub fn release_version(tag: &str) -> (r: String)
    ensures
        r@ == tag_version(tag@),
{
    let t = chars_of(tag);
    let tt = trim_chars(t.as_slice());
    if tt.len() > 0 && tt[0] == 'v' {
        let rest = drop_chars(&tt, 1);
        string_from_chars(rest.as_slice())
    } else {
        string_from_chars(tt.as_slice())
    }
}

/// What the updater does with a published release.
#[derive(Debug)]
pub enum UpdatePlan {
    /// The release is not newer than the running version.
    UpToDate,
    /// No asset for this platform.
    MissingAsset { asset_name: String },
    /// Neither a platform nor a global checksum manifest.
    MissingChecksums { asset_name: String },
    /// No detached signature for the checksum manifest.
    MissingSignature { asset_name: String },
    /// One of the URLs is outside the allowlist.
    UntrustedUrl { asset_name: String },
    /// Download the signed manifest, then the asset, and install it.
    Download {
        latest: String,
        asset_name: String,
        asset_url: String,
        checksums_url: String,
        signature_url: String,
    },
}

/// The platform checksum manifest's name, `SHA256SUMS-<os>-<arch>.txt`.
pub open spec fn platform_checksums_name(os: Seq<char>, arch: Seq<char>) -> Seq<char> {
    "SHA256SUMS-"@ + tokens_of(os, arch).0 + "-"@ + tokens_of(os, arch).1 + ".txt"@
}

/// The manifest URL: the platform manifest, else the global `SHA256SUMS.txt`.
pub open spec fn checksums_url_of(assets: Seq<ReleaseAsset>, os: Seq<char>, arch: Seq<char>) -> Option<Seq<char>> {
    match find_asset(assets, platform_checksums_name(os, arch)) {
        Some(u) => Some(u),
        None => find_asset(assets, "SHA256SUMS.txt"@),
    }
}

/// The release plan: nothing to do unless the tag's version is newer; then
/// the platform asset, a checksum manifest and its `.asc` signature must all
/// be present, in that order, and all three URLs must be allowed.
pub open spec fn plan_holds(r: UpdatePlan, tag: Seq<char>, assets: Seq<ReleaseAsset>, current: Seq<char>, os: Seq<char>, arch: Seq<char>) -> bool {
    let latest = tag_version(tag);
    let name = asset_name_of(latest, os, arch);
    let asset_url = find_asset(assets, name);
    let sums = checksums_url_of(assets, os, arch);
    let sig = match sums {
        Some(u) => find_asset(assets, last_segment(u) + ".asc"@),
        None => None,
    };
    if !(semver_valid(latest) && semver_valid(current) && semver_greater(latest, current)) {
        r is UpToDate
    } else if asset_url is None {
        r matches UpdatePlan::MissingAsset { asset_name } && asset_name@ == name
    } else if sums is None {
        r matches UpdatePlan::MissingChecksums { asset_name } && asset_name@ == name
    } else if sig is None {
        r matches UpdatePlan::MissingSignature { asset_name } && asset_name@ == name
    } else if !(allowed_url(asset_url->0) && allowed_url(sums->0) && allowed_url(sig->0)) {
        r matches UpdatePlan::UntrustedUrl { asset_name } && asset_name@ == name
    } else {
        r matches UpdatePlan::Download { latest: l, asset_name, asset_url: a, checksums_url: c, signature_url: g }
            && l@ == latest && asset_name@ == name && a@ == asset_url->0 && c@ == sums->0 && g@ == sig->0
    }
}

/// Decides what to do with the latest published release.
pub fn plan_update(tag: &str, assets: &Vec<ReleaseAsset>, current: &str, os: &str, arch: &str) -> (r: UpdatePlan)
    ensures
        plan_holds(r, tag@, assets@, current@, os@, arch@),
{
    let latest = release_version(tag);
    if !is_newer(latest.as_str(), current) {
        return UpdatePlan::UpToDate;
    }
    let asset_name = platform_asset_name(latest.as_str(), os, arch);
    let (o, a) = platform_tokens(os, arch);
    let mut sums_name = String::new();
    push_str(&mut sums_name, "SHA256SUMS-");
    push_str(&mut sums_name, o);
    push_str(&mut sums_name, "-");
    push_str(&mut sums_name, a);
    push_str(&mut sums_name, ".txt");
    let asset_url = find_asset_url(assets, asset_name.as_str());
    let checksums_url = match find_asset_url(assets, sums_name.as_str()) {
        Some(u) => Some(u),
        None => find_asset_url(assets, "SHA256SUMS.txt"),
    };
    let signature_url = match &checksums_url {
        Some(u) => {
            let mut sig_name = last_url_segment(u.as_str());
            push_str(&mut sig_name, ".asc");
            find_asset_url(assets, sig_name.as_str())
        },
        None => None,
    };
    let asset_url = match asset_url {
        Some(u) => u,
        None => return UpdatePlan::MissingAsset { asset_name },
    };
    let checksums_url = match checksums_url {
        Some(u) => u,
        None => return UpdatePlan::MissingChecksums { asset_name },
    };
    let signature_url = match signature_url {
        Some(u) => u,
        None => return UpdatePlan::MissingSignature { asset_name },
    };
    if !is_allowed_download_url(asset_url.as_str()) || !is_allowed_download_url(checksums_url.as_str())
        || !is_allowed_download_url(signature_url.as_str()) {
        return UpdatePlan::UntrustedUrl { asset_name };
    }
    UpdatePlan::Download {
        latest,
        asset_name,
        asset_url,
        checksums_url,
        signature_url,
    }
}

/// The value `str::parse::<u64>` reads from decimal digits.
pub open spec fn digits_value(s: Seq<char>) -> int
    decreases s.len(),
{
    if s.len() == 0 {
        0
    } else {
        digits_value(s.drop_last()) * 10 + ((s.last() as u32) - 48)
    }
}

pub open spec fn all_digits(s: Seq<char>) -> bool {
    forall|i: int| 0 <= i < s.len() ==> '0' <= #[trigger] s[i] && s[i] <= '9'
}

/// `str::parse::<u64>`: an optional `+`, then one or more decimal digits,
/// whose value fits in `u64`.
pub open spec fn parse_u64_spec(s: Seq<char>) -> Option<u64> {
    let d = if s.len() > 0 && s[0] == '+' { s.skip(1) } else { s };
    if d.len() > 0 && all_digits(d) && digits_value(d) <= u64::MAX {
        Some(digits_value(d) as u64)
    } else {
        None
    }
}

proof fn lemma_digits_value_grows(s: Seq<char>, i: int)
    requires
        0 <= i <= s.len(),
        all_digits(s),
    ensures
        digits_value(s.take(i)) <= digits_value(s),
        digits_value(s.take(i)) >= 0,
    decreases s.len() - i,
{
    if i < s.len() {
        lemma_digits_value_grows(s, i + 1);
        assert(s.take(i + 1).drop_last() =~= s.take(i));
        lemma_digits_value_nonneg(s.take(i));
    } else {
        assert(s.take(i) =~= s);
        lemma_digits_value_nonneg(s);
    }
}

proof fn lemma_digits_value_nonneg(s: Seq<char>)
    requires
        all_digits(s),
    ensures
        digits_value(s) >= 0,
    decreases s.len(),
{
    if s.len() > 0 {
        lemma_digits_value_nonneg(s.drop_last());
    }
}

/// `str::parse::<u64>`.
pub fn parse_u64(s: &[char]) -> (r: Option<u64>)
    ensures
        r == parse_u64_spec(s@),
{
    let mut start: usize = 0;
    if s.len() > 0 && s[0] == '+' {
        start = 1;
    }
    let ghost d = s@.subrange(start as int, s@.len() as int);
    assert(d =~= if s@.len() > 0 && s@[0] == '+' { s@.skip(1) } else { s@ });
    if start >= s.len() {
        return None;
    }
    let mut value: u64 = 0;
    let mut i: usize = start;
    while i < s.len()
        invariant
            start <= i <= s@.len(),
            d == s@.subrange(start as int, s@.len() as int),
            d == if s@.len() > 0 && s@[0] == '+' { s@.skip(1) } else { s@ },
            d.len() > 0,
            all_digits(d.take(i - start)),
            value as int == digits_value(d.take(i - start)),
        decreases s@.len() - i,
    {
        let c = s[i];
        let ghost k: int = i - start;
        assert(d.take(k + 1).drop_last() =~= d.take(k));
        assert(d.take(k + 1).last() == c);
        if !('0' <= c && c <= '9') {
            assert(!all_digits(d));
            return None;
        }
        let digit = (c as u32 - 48) as u64;
        assert(digits_value(d.take(k + 1)) == value * 10 + digit);
        if value > 1844674407370955161u64 || (value == 1844674407370955161u64 && digit > 5) {
            proof {
                assert(value * 10 + digit > u64::MAX) by (nonlinear_arith)
                    requires
                        value > 1844674407370955161u64 || (value == 1844674407370955161u64 && digit > 5);
                lemma_digits_value_grows(d.take(k + 1), k + 1);
                assert(d.take(k + 1).take(k + 1) =~= d.take(k + 1));
                if all_digits(d) {
                    lemma_digits_value_grows(d, k + 1);
                }
            }
            return None;
        }
        value = value * 10 + digit;
        i = i + 1;
    }
    assert(d.take(s@.len() - start) =~= d);
    Some(value)
}

/// Refuses a response whose declared `Content-Length` exceeds `max_bytes`,
/// before any body bytes are read; an absent or unreadable header passes.
pub fn check_content_length(header: Option<&str>, max_bytes: usize) -> (r: Result<(), String>)
    ensures
        match header {
            Some(v) => match parse_u64_spec(trimmed(v@)) {
                Some(declared) => if declared > max_bytes {
                    r matches Err(e) && e@ == "response declares "@ + decimal(declared as nat) + " bytes which exceeds "@
                        + decimal(max_bytes as nat) + " byte limit"@
                } else {
                    r is Ok
                },
                None => r is Ok,
            },
            None => r is Ok,
        },
{
    if let Some(value) = header {
        let cs = chars_of(value);
        let t = trim_chars(cs.as_slice());
        if let Some(declared) = parse_u64(t.as_slice()) {
            if declared > max_bytes as u64 {
                let mut m = String::new();
                push_str(&mut m, "response declares ");
                let d = decimal_string(declared);
                push_str(&mut m, d.as_str());
                push_str(&mut m, " bytes which exceeds ");
                let l = decimal_string(max_bytes as u64);
                push_str(&mut m, l.as_str());
                push_str(&mut m, " byte limit");
                return Err(m);
            }
        }
    }
    Ok(())
}

/// Accepts a chunk of `n` bytes read after `current` bytes only when the total
/// stays within `max_bytes`.
pub fn accept_chunk(current: usize, n: usize, max_bytes: usize) -> (r: Result<(), String>)
    ensures
        r is Ok <==> (if current + n > usize::MAX { usize::MAX as int } else { current + n }) <= max_bytes,
        r matches Err(e) ==> e@ == "response exceeds "@ + decimal(max_bytes as nat) + " byte limit"@,
{
    if current.saturating_add(n) > max_bytes {
        let mut m = String::new();
        push_str(&mut m, "response exceeds ");
        let l = decimal_string(max_bytes as u64);
        push_str(&mut m, l.as_str());
        push_str(&mut m, " byte limit");
        return Err(m);
    }
    Ok(())
}


/// `s` with every occurrence of `pat` replaced by `rep`, scanning left to
/// right without overlaps; an empty pattern matches before every character
/// and at the end, as `str::replace` does.
pub open spec fn replace_all(s: Seq<char>, pat: Seq<char>, rep: Seq<char>) -> Seq<char>
    decreases s.len(),
{
    if pat.len() == 0 {
        if s.len() == 0 {
            rep
        } else {
            rep + seq![s[0]] + replace_all(s.drop_first(), pat, rep)
        }
    } else if s.len() >= pat.len() && s.take(pat.len() as int) == pat {
        rep + replace_all(s.skip(pat.len() as int), pat, rep)
    } else if s.len() == 0 {
        s
    } else {
        seq![s[0]] + replace_all(s.drop_first(), pat, rep)
    }
}

fn matches_at(s: &Vec<char>, i: usize, pat: &Vec<char>) -> (r: bool)
    requires
        i <= s@.len(),
    ensures
        r == (i + pat@.len() <= s@.len() && s@.subrange(i as int, i + pat@.len()) == pat@),
{
    if pat.len() > s.len() - i {
        return false;
    }
    let mut k: usize = 0;
    while k < pat.len()
        invariant
            i + pat@.len() <= s@.len(),
            k <= pat@.len(),
            forall|j: int| 0 <= j < k ==> s@[i + j] == pat@[j],
        decreases pat@.len() - k,
    {
        assert(i + k < s.len());
        if s[i + k] != pat[k] {
            assert(s@.subrange(i as int, i + pat@.len())[k as int] != pat@[k as int]);
            return false;
        }
        k = k + 1;
    }
    assert(s@.subrange(i as int, i + pat@.len()) =~= pat@);
    true
}

/// The placeholder that stands for the update's temporary directory.
pub open spec fn temp_placeholder() -> Seq<char> {
    "<update-tmp>"@
}

/// Strip the temporary directory's path from a user-facing error so the
/// absolute path of the update's scratch directory never reaches the
/// terminal: every occurrence of `temp_dir` becomes `<update-tmp>`.
pub fn scrub_temp_dir(message: &str, temp_dir: &str) -> (r: String)
    ensures
        r@ == replace_all(message@, temp_dir@, temp_placeholder()),
{
    let s = chars_of(message);
    let pat = chars_of(temp_dir);
    let ghost rep = temp_placeholder();
    let mut out = String::new();
    let mut i: usize = 0;
    assert(s@.skip(0) =~= s@);
    if pat.len() == 0 {
        while i < s.len()
            invariant
                s@ == message@,
                pat@.len() == 0,
                rep == temp_placeholder(),
                i <= s@.len(),
                out@ + replace_all(s@.skip(i as int), pat@, rep) == replace_all(s@, pat@, rep),
            decreases s@.len() - i,
        {
            let ghost before = out@;
            assert(s@.skip(i as int).drop_first() =~= s@.skip(i + 1));
            assert(s@.skip(i as int)[0] == s@[i as int]);
            push_str(&mut out, "<update-tmp>");
            push_char(&mut out, s[i]);
            assert(out@ == before + rep + seq![s@[i as int]]);
            assert(out@ + replace_all(s@.skip(i + 1), pat@, rep) =~= before + replace_all(s@.skip(i as int), pat@, rep));
            i = i + 1;
        }
        let ghost before = out@;
        assert(s@.skip(i as int) =~= Seq::<char>::empty());
        push_str(&mut out, "<update-tmp>");
        assert(out@ =~= before + replace_all(s@.skip(i as int), pat@, rep));
        assert(s@.skip(0) =~= s@);
        return out;
    }
    assert(s@.skip(0) =~= s@);
    while i < s.len()
        invariant
            s@ == message@,
            pat@ == temp_dir@,
            pat@.len() > 0,
            rep == temp_placeholder(),
            i <= s@.len(),
            out@ + replace_all(s@.skip(i as int), pat@, rep) == replace_all(s@, pat@, rep),
        decreases s@.len() - i,
    {
        let ghost before = out@;
        let ghost rest = s@.skip(i as int);
        if matches_at(&s, i, &pat) {
            assert(rest.take(pat@.len() as int) =~= s@.subrange(i as int, i + pat@.len()));
            assert(rest.skip(pat@.len() as int) =~= s@.skip(i + pat@.len()));
            push_str(&mut out, "<update-tmp>");
            assert(out@ + replace_all(s@.skip(i + pat@.len()), pat@, rep) =~= before + replace_all(rest, pat@, rep));
            i = i + pat.len();
        } else {
            assert(rest.len() >= pat@.len() ==> rest.take(pat@.len() as int) =~= s@.subrange(i as int, i + pat@.len()));
            assert(rest.drop_first() =~= s@.skip(i + 1));
            assert(rest[0] == s@[i as int]);
            push_char(&mut out, s[i]);
            assert(out@ + replace_all(s@.skip(i + 1), pat@, rep) =~= before + replace_all(rest, pat@, rep));
            i = i + 1;
        }
    }
    assert(s@.skip(i as int) =~= Seq::<char>::empty());
    assert(out@ + replace_all(s@.skip(i as int), pat@, rep) =~= out@);
    out
}


/// The outcome of `gpg --verify`: a failing exit refuses with gpg's
/// message; otherwise the status lines decide.
pub open spec fn verify_outcome(succeeded: bool, status: Seq<char>, stderr: Seq<char>) -> Result<(), Seq<char>> {
    if !succeeded {
        Err(with_detail("signature does not match pinned release key"@, stderr))
    } else {
        signature_verdict(status, stderr)
    }
}

/// Reads the result of verifying the checksum manifest's detached
/// signature against the pinned key.
pub fn check_gpg_verify(succeeded: bool, status: &str, stderr: &str) -> (r: Result<(), String>)
    ensures
        unit_text_result(r) == verify_outcome(succeeded, status@, stderr@),
{
    if !succeeded {
        return Err(message_with_detail("signature does not match pinned release key", stderr));
    }
    check_signature_status(status, stderr)
}

/// How a release archive is unpacked.
#[derive(Debug, Clone, Copy, PartialEq, Eq, Structural)]
pub enum ArchiveKind {
    TarGz,
    Zip,
}

/// Whether `s` ends with `suffix`.
pub open spec fn has_suffix(s: Seq<char>, suffix: Seq<char>) -> bool {
    suffix.len() <= s.len() && s.skip(s.len() - suffix.len()) == suffix
}

fn ends_with(s: &str, suffix: &str) -> (r: bool)
    ensures
        r == has_suffix(s@, suffix@),
{
    let cs = chars_of(s);
    let xs = chars_of(suffix);
    if xs.len() > cs.len() {
        return false;
    }
    let start = cs.len() - xs.len();
    let mut k: usize = 0;
    while k < xs.len()
        invariant
            start + xs@.len() == cs@.len(),
            cs@ == s@,
            xs@ == suffix@,
            k <= xs@.len(),
            forall|j: int| 0 <= j < k ==> cs@[start + j] == xs@[j],
        decreases xs@.len() - k,
    {
        assert(start + k < cs.len());
        if cs[start + k] != xs[k] {
            assert(s@.skip(start as int)[k as int] != suffix@[k as int]);
            return false;
        }
        k = k + 1;
    }
    assert(s@.skip(start as int) =~= suffix@);
    true
}

/// The archive format an asset name announces: `.tar.gz`, else `.zip`.
pub open spec fn archive_kind_of(asset_name: Seq<char>) -> Option<ArchiveKind> {
    if has_suffix(asset_name, ".tar.gz"@) {
        Some(ArchiveKind::TarGz)
    } else if has_suffix(asset_name, ".zip"@) {
        Some(ArchiveKind::Zip)
    } else {
        None
    }
}

/// The archive format of an asset; an unknown format is refused.
pub fn archive_kind(asset_name: &str) -> (r: Result<ArchiveKind, String>)
    ensures
        match archive_kind_of(asset_name@) {
            Some(k) => r == Ok::<ArchiveKind, String>(k),
            None => r matches Err(e) && e@ == "Unknown archive format: "@ + asset_name@,
        },
{
    if ends_with(asset_name, ".tar.gz") {
        Ok(ArchiveKind::TarGz)
    } else if ends_with(asset_name, ".zip") {
        Ok(ArchiveKind::Zip)
    } else {
        Err(prefixed("Unknown archive format: ", asset_name))
    }
}

/// The binary to look for in the archive: the running binary's file name
/// when it is one of the project's command names, else the platform's
/// default name.
pub open spec fn installed_binary_name(current: Option<Seq<char>>, windows: bool) -> Seq<char> {
    let default = if windows { "deoxidizer.exe"@ } else { "deoxidizer"@ };
    match current {
        Some(n) => if n == default || n == "deox.exe"@ || n == "deox"@ {
            n
        } else {
            default
        },
        None => default,
    }
}

/// Picks the binary name to install from the running executable's name.
pub fn binary_name_for(current: Option<&str>, windows: bool) -> (r: String)
    ensures
        r@ == installed_binary_name(
            match current {
                Some(n) => Some(n@),
                None => None,
            },
            windows,
        ),
{
    let default = if windows { "deoxidizer.exe" } else { "deoxidizer" };
    match current {
        Some(n) => {
            if str_eq(n, default) || str_eq(n, "deox.exe") || str_eq(n, "deox") {
                owned_message(n)
            } else {
                owned_message(default)
            }
        },
        None => owned_message(default),
    }
}

/// The sibling of a command's sibling is the command itself: `deoxidizer`
/// and `deox` (with or without `.exe`) name each other.
pub proof fn law_sibling_is_involution(name: Seq<char>)
    ensures
        sibling_of(name) matches Some(other) ==> sibling_of(other) == Some(name),
{
    reveal_strlit("deoxidizer");
    reveal_strlit("deox");
    reveal_strlit("deoxidizer.exe");
    reveal_strlit("deox.exe");
    assert("deoxidizer"@.len() == 10 && "deox"@.len() == 4 && "deoxidizer.exe"@.len() == 14 && "deox.exe"@.len() == 8);
}

/// Every URL of a download plan is on the allowlist: the asset, its
/// checksum manifest and the manifest's signature.
pub proof fn law_planned_downloads_are_allowlisted(
    r: UpdatePlan,
    tag: Seq<char>,
    assets: Seq<ReleaseAsset>,
    current: Seq<char>,
    os: Seq<char>,
    arch: Seq<char>,
)
    requires
        plan_holds(r, tag, assets, current, os, arch),
    ensures
        r matches UpdatePlan::Download { asset_url, checksums_url, signature_url, .. } ==> allowed_url(asset_url@)
            && allowed_url(checksums_url@) && allowed_url(signature_url@),
{
}

/// An archive entry accepted for extraction is a relative path with at
/// least one normal component and no `..`, root or prefix component.
pub proof fn law_accepted_archive_paths_stay_relative(path: Seq<char>)
    ensures
        archive_path_verdict(path) is Ok ==> !path_is_absolute(path) && has_normal(path_components(path))
            && forall|i: int| 0 <= i < path_components(path).len() ==> !is_escape(#[trigger] path_components(path)[i]),
{
}

proof fn lemma_scan_found_sticks(ls: Seq<Seq<char>>, asset: Seq<char>, i: int, k: int)
    requires
        0 <= i <= k <= ls.len(),
        !(scan_manifest(ls.take(i), asset) is NoEntry),
    ensures
        !(scan_manifest(ls.take(k), asset) is NoEntry),
    decreases k - i,
{
    if i < k {
        assert(ls.take(i + 1).drop_last() =~= ls.take(i));
        lemma_scan_found_sticks(ls, asset, i + 1, k);
    }
}

/// A manifest that lists the asset on two lines is refused, whatever the
/// digests say: the checksum check never picks one of two entries.
pub proof fn law_duplicate_entries_are_refused(lines: Seq<Seq<char>>, asset: Seq<char>, i: int, j: int)
    requires
        0 <= i < j < lines.len(),
        is_entry_for(words_of(lines[i]), asset),
        is_entry_for(words_of(lines[j]), asset),
    ensures
        scan_manifest(lines, asset) is Rejected,
{
    assert(lines.take(i + 1).drop_last() =~= lines.take(i));
    assert(lines.take(i + 1).last() == lines[i]);
    lemma_scan_found_sticks(lines, asset, i + 1, j);
    assert(lines.take(j + 1).drop_last() =~= lines.take(j));
    assert(lines.take(j + 1).last() == lines[j]);
    assert(scan_manifest(lines.take(j + 1), asset) is Rejected);
    lemma_scan_rejected_sticks(lines, asset, j + 1);
}

/// A bad, erroneous, expired or revoked status line refuses the signature
/// even when a valid signature from the pinned key is also reported.
pub proof fn law_bad_status_refuses(status: Seq<char>, stderr: Seq<char>, i: int)
    requires
        0 <= i < lines_of(status).len(),
        is_bad_status(status_payload(lines_of(status)[i])),
    ensures
        signature_verdict(status, stderr) == Err::<(), Seq<char>>("signature shows a bad/expired/revoked key"@),
{
}
} // verus!
