use deoxidizer_lib::http::{
    check_download_url, download_failure_message, fetch_failure_message, http_error_message, parse_header_hint,
    redirect_step, RedirectStep,
};
use deoxidizer_lib::updater::{
    accept_chunk, check_content_length, check_release, check_signature_status, check_zip_entry_name,
    extraction_output, find_asset_url, has_setid_bits, is_allowed_download_url, is_newer, is_symlink_mode,
    message_with_detail, parse_u64, plan_update, platform_asset_name, platform_tokens, release_version,
    scrub_temp_dir, sibling_binary_name, validate_archive_path, verify_sha256, zip_permissions, ExtractionBudget,
    ReleaseAsset, UpdatePlan, MAX_EXTRACTED_BYTES,
};
use deoxidizer_lib::updater::{archive_kind, binary_name_for, check_gpg_verify, ArchiveKind};
use sha2::{Digest, Sha256};

fn digest_of(data: &[u8]) -> String {
    let mut hasher = Sha256::new();
    hasher.update(data);
    hex::encode(hasher.finalize())
}

#[test]
fn checksum_requires_exact_asset_entry() {
    let data = b"release";
    let digest = digest_of(data);
    let manifest = format!("{digest}  deoxidizer-v1-linux-x86_64.tar.gz\n");

    assert!(verify_sha256(data, "deoxidizer-v1-linux-x86_64.tar.gz", &manifest));
    assert!(!verify_sha256(data, "other.tar.gz", &manifest));
    assert!(!verify_sha256(data, "deoxidizer-v1-linux-x86_64.tar.gz", "not-a-checksum\n"));
    assert!(!verify_sha256(
        data,
        "deoxidizer-v1-linux-x86_64.tar.gz",
        &format!("{manifest}{manifest}")
    ));
}

#[test]
fn download_urls_require_github_https() {
    assert!(is_allowed_download_url(
        "https://api.github.com/repos/BurntToasters/deoxidizer/releases/latest"
    ));
    assert!(is_allowed_download_url(
        "https://github.com/BurntToasters/deoxidizer/releases/download/v1/a.tar.gz"
    ));
    assert!(!is_allowed_download_url(
        "https://github.com/another-owner/deoxidizer/releases/download/v1/a.tar.gz"
    ));
    assert!(!is_allowed_download_url(
        "http://github.com/BurntToasters/deoxidizer/releases/latest"
    ));
    assert!(!is_allowed_download_url("https://evil.example/a.tar.gz"));
}

#[test]
fn archive_paths_reject_escape_components() {
    assert!(validate_archive_path("deoxidizer").is_ok());
    assert!(validate_archive_path("../outside").is_err());
    assert!(validate_archive_path("/absolute").is_err());
}

#[test]
fn semver_prerelease_orders_before_stable() {
    assert!(is_newer("0.2.0", "0.2.0-beta.1"));
    assert!(!is_newer("0.2.0-beta.1", "0.2.0"));
    assert!(is_newer("0.2.0-beta.2", "0.2.0-beta.1"));
    assert!(!is_newer("garbage", "0.1.0"));
}

#[test]
fn sibling_binary_names_match_each_platform() {
    assert_eq!(sibling_binary_name("deoxidizer"), Some("deox"));
    assert_eq!(sibling_binary_name("deox"), Some("deoxidizer"));
    assert_eq!(sibling_binary_name("deoxidizer.exe"), Some("deox.exe"));
    assert_eq!(sibling_binary_name("deox.exe"), Some("deoxidizer.exe"));
    assert_eq!(sibling_binary_name("unexpected"), None);
}

#[test]
fn checksum_accepts_star_prefix_and_uppercase_digest() {
    let data = b"payload";
    let digest = digest_of(data).to_uppercase();
    let manifest = format!("{digest} *asset.zip\n");
    assert!(verify_sha256(data, "asset.zip", &manifest));
    assert!(!verify_sha256(b"other payload", "asset.zip", &manifest));
}

#[test]
fn newer_version_comparisons() {
    assert!(is_newer("1.0.0", "0.9.9"));
    assert!(!is_newer("1.0.0", "1.0.0"));
    assert!(!is_newer("0.1.0", "garbage"));
}

#[test]
fn asset_names_per_platform() {
    assert_eq!(platform_tokens("macos", "aarch64"), ("darwin", "aarch64"));
    assert_eq!(platform_tokens("freebsd", "riscv64"), ("unknown", "unknown"));
    assert_eq!(
        platform_asset_name("1.2.3", "linux", "x86_64"),
        "deoxidizer-v1.2.3-linux-x86_64.tar.gz"
    );
    assert_eq!(
        platform_asset_name("1.2.3", "windows", "x86_64"),
        "deoxidizer-v1.2.3-windows-x86_64.zip"
    );
}

#[test]
fn release_tag_loses_leading_v_and_spaces() {
    assert_eq!(release_version(" v1.4.0 "), "1.4.0");
    assert_eq!(release_version("1.4.0"), "1.4.0");
}

#[test]
fn signature_status_requires_pinned_validsig() {
    let good = "[GNUPG:] GOODSIG 619A06F3F2FBC20F someone\n[GNUPG:] VALIDSIG CAEB45D4747E73FA11A9CBF7619A06F3F2FBC20F 2024-01-01\n";
    assert!(check_signature_status(good, "").is_ok());
    let lower = "[GNUPG:] VALIDSIG caeb45d4747e73fa11a9cbf7619a06f3f2fbc20f x\n";
    assert!(check_signature_status(lower, "").is_ok());
    let other_key = "[GNUPG:] VALIDSIG 0000000000000000000000000000000000000000 x\n";
    assert_eq!(
        check_signature_status(other_key, "  gpg: some detail \n").unwrap_err(),
        "signature is not from the pinned release key: gpg: some detail"
    );
    let revoked = format!("{good}[GNUPG:] REVKEYSIG 619A06F3F2FBC20F someone\n");
    assert_eq!(
        check_signature_status(&revoked, "").unwrap_err(),
        "signature shows a bad/expired/revoked key"
    );
    assert_eq!(
        check_signature_status("", "   ").unwrap_err(),
        "signature is not from the pinned release key"
    );
}

#[test]
fn message_detail_is_trimmed_and_optional() {
    assert_eq!(message_with_detail("base", "  why \n"), "base: why");
    assert_eq!(message_with_detail("base", " \t "), "base");
}

#[test]
fn archive_path_errors_name_the_entry() {
    assert_eq!(validate_archive_path("a/./b").unwrap(), "a/b");
    assert_eq!(
        validate_archive_path("/etc/passwd").unwrap_err(),
        "archive contains absolute path /etc/passwd"
    );
    assert_eq!(validate_archive_path("a/../b").unwrap_err(), "archive contains unsafe path a/../b");
    assert_eq!(validate_archive_path(".").unwrap_err(), "archive contains an empty path");
}

#[test]
fn extraction_output_stays_under_destination() {
    assert_eq!(extraction_output("/tmp/x", "bin/deox", "bin/deox").unwrap(), "/tmp/x/bin/deox");
    assert_eq!(
        extraction_output("/tmp/x", "/etc/passwd", "evil").unwrap_err(),
        "archive path escaped extraction directory: evil"
    );
}

#[test]
fn extraction_budget_never_exceeds_limit() {
    let mut budget = ExtractionBudget::new();
    assert!(budget.precheck(MAX_EXTRACTED_BYTES).is_ok());
    assert_eq!(
        budget.precheck(MAX_EXTRACTED_BYTES + 1).unwrap_err(),
        "archive exceeds extracted size limit"
    );
    assert!(budget.record(MAX_EXTRACTED_BYTES - 10).is_ok());
    assert!(budget.precheck(10).is_ok());
    assert!(budget.precheck(11).is_err());
    assert!(budget.record(11).is_err());
    assert_eq!(budget.extracted, MAX_EXTRACTED_BYTES + 1);
    assert_eq!(budget.record(u64::MAX).unwrap_err(), "archive extracted size overflow");
    assert_eq!(budget.extracted, MAX_EXTRACTED_BYTES + 1);
    assert!(budget.precheck(u64::MAX).is_err());
}

#[test]
fn zip_and_tar_mode_bits() {
    assert!(is_symlink_mode(0o120777));
    assert!(!is_symlink_mode(0o100644));
    assert!(has_setid_bits(0o4755));
    assert!(has_setid_bits(0o2755));
    assert!(!has_setid_bits(0o0755));
    assert_eq!(zip_permissions(0o100755), Some(0o755));
    assert_eq!(zip_permissions(0o100000), None);
    assert_eq!(
        check_zip_entry_name("dir\\evil").unwrap_err(),
        "archive contains unsafe path dir\\evil"
    );
    assert!(check_zip_entry_name("dir/ok").is_ok());
}

#[test]
fn release_checks_in_order() {
    assert!(check_release("v1.0.0", false, false, 3).is_ok());
    assert_eq!(
        check_release("v1.0.0", true, true, 3).unwrap_err(),
        "latest release is a draft; refusing to update"
    );
    assert_eq!(
        check_release("v1.0.0", false, true, 3).unwrap_err(),
        "latest release is a prerelease; refusing to update"
    );
    assert_eq!(
        check_release("   ", false, false, 3).unwrap_err(),
        "latest release is missing its version tag; refusing to update"
    );
    assert_eq!(
        check_release("v1.0.0", false, false, 0).unwrap_err(),
        "latest release contains no downloadable assets; refusing to update"
    );
}

fn asset(name: &str, url: &str) -> ReleaseAsset {
    ReleaseAsset {
        name: name.to_string(),
        browser_download_url: url.to_string(),
    }
}

const BASE: &str = "https://github.com/BurntToasters/deoxidizer/releases/download/v9.0.0/";

#[test]
fn update_plan_downloads_signed_assets() {
    let assets = vec![
        asset("deoxidizer-v9.0.0-linux-x86_64.tar.gz", &format!("{BASE}deoxidizer-v9.0.0-linux-x86_64.tar.gz")),
        asset("SHA256SUMS-linux-x86_64.txt", &format!("{BASE}SHA256SUMS-linux-x86_64.txt")),
        asset("SHA256SUMS-linux-x86_64.txt.asc", &format!("{BASE}SHA256SUMS-linux-x86_64.txt.asc")),
    ];
    match plan_update("v9.0.0", &assets, "0.1.0", "linux", "x86_64") {
        UpdatePlan::Download { latest, asset_name, asset_url, checksums_url, signature_url } => {
            assert_eq!(latest, "9.0.0");
            assert_eq!(asset_name, "deoxidizer-v9.0.0-linux-x86_64.tar.gz");
            assert!(asset_url.ends_with(".tar.gz"));
            assert!(checksums_url.ends_with("SHA256SUMS-linux-x86_64.txt"));
            assert!(signature_url.ends_with(".txt.asc"));
        }
        other => panic!("expected Download, got {other:?}"),
    }
    assert!(matches!(
        plan_update("v0.1.0", &assets, "0.1.0", "linux", "x86_64"),
        UpdatePlan::UpToDate
    ));
}

#[test]
fn update_plan_falls_back_to_global_manifest_and_refuses_gaps() {
    let global = vec![
        asset("deoxidizer-v9.0.0-linux-x86_64.tar.gz", &format!("{BASE}a.tar.gz")),
        asset("SHA256SUMS.txt", &format!("{BASE}SHA256SUMS.txt")),
        asset("SHA256SUMS.txt.asc", &format!("{BASE}SHA256SUMS.txt.asc")),
    ];
    assert!(matches!(
        plan_update("v9.0.0", &global, "0.1.0", "linux", "x86_64"),
        UpdatePlan::Download { .. }
    ));
    assert!(matches!(
        plan_update("v9.0.0", &global, "0.1.0", "macos", "aarch64"),
        UpdatePlan::MissingAsset { .. }
    ));
    let unsigned = vec![
        asset("deoxidizer-v9.0.0-linux-x86_64.tar.gz", &format!("{BASE}a.tar.gz")),
        asset("SHA256SUMS.txt", &format!("{BASE}SHA256SUMS.txt")),
    ];
    assert!(matches!(
        plan_update("v9.0.0", &unsigned, "0.1.0", "linux", "x86_64"),
        UpdatePlan::MissingSignature { .. }
    ));
    let no_sums = vec![asset("deoxidizer-v9.0.0-linux-x86_64.tar.gz", &format!("{BASE}a.tar.gz"))];
    assert!(matches!(
        plan_update("v9.0.0", &no_sums, "0.1.0", "linux", "x86_64"),
        UpdatePlan::MissingChecksums { .. }
    ));
    let untrusted = vec![
        asset("deoxidizer-v9.0.0-linux-x86_64.tar.gz", "https://evil.example/a.tar.gz"),
        asset("SHA256SUMS.txt", &format!("{BASE}SHA256SUMS.txt")),
        asset("SHA256SUMS.txt.asc", &format!("{BASE}SHA256SUMS.txt.asc")),
    ];
    assert!(matches!(
        plan_update("v9.0.0", &untrusted, "0.1.0", "linux", "x86_64"),
        UpdatePlan::UntrustedUrl { .. }
    ));
}

#[test]
fn find_asset_url_takes_first_exact_name() {
    let assets = vec![asset("a", "u1"), asset("b", "u2"), asset("a", "u3")];
    assert_eq!(find_asset_url(&assets, "a"), Some("u1".to_string()));
    assert_eq!(find_asset_url(&assets, "c"), None);
}

#[test]
fn content_length_limit() {
    assert!(check_content_length(None, 10).is_ok());
    assert!(check_content_length(Some(" 10 "), 10).is_ok());
    assert!(check_content_length(Some("not a number"), 10).is_ok());
    assert_eq!(
        check_content_length(Some("11"), 10).unwrap_err(),
        "response declares 11 bytes which exceeds 10 byte limit"
    );
    assert!(accept_chunk(5, 5, 10).is_ok());
    assert_eq!(accept_chunk(5, 6, 10).unwrap_err(), "response exceeds 10 byte limit");
    assert!(accept_chunk(usize::MAX, 1, usize::MAX).is_ok());
}

#[test]
fn parse_u64_follows_std() {
    let digits: Vec<char> = "+42".chars().collect();
    assert_eq!(parse_u64(&digits), Some(42));
    let max: Vec<char> = "18446744073709551615".chars().collect();
    assert_eq!(parse_u64(&max), Some(u64::MAX));
    let over: Vec<char> = "18446744073709551616".chars().collect();
    assert_eq!(parse_u64(&over), None);
    let empty: Vec<char> = Vec::new();
    assert_eq!(parse_u64(&empty), None);
    let sign_only: Vec<char> = "+".chars().collect();
    assert_eq!(parse_u64(&sign_only), None);
}

#[test]
fn temp_dir_is_scrubbed_from_messages() {
    assert_eq!(
        scrub_temp_dir("cannot open /tmp/upd-1/a and /tmp/upd-1/b", "/tmp/upd-1"),
        "cannot open <update-tmp>/a and <update-tmp>/b"
    );
    assert_eq!(scrub_temp_dir("nothing here", "/tmp/upd-1"), "nothing here");
    assert_eq!(scrub_temp_dir("ab", ""), "<update-tmp>a<update-tmp>b<update-tmp>");
    assert_eq!(scrub_temp_dir("aaa", "aa"), "<update-tmp>a");
}

#[test]
fn header_hints_are_read_from_error_text() {
    assert_eq!(
        parse_header_hint("status 429: Retry-After: 60, other", "retry-after"),
        Some("60".to_string())
    );
    assert_eq!(
        parse_header_hint("x-ratelimit-reset:  1700000000;", "x-ratelimit-reset"),
        Some("1700000000".to_string())
    );
    assert_eq!(parse_header_hint("retry-after: ,", "retry-after"), None);
    assert_eq!(parse_header_hint("no headers", "retry-after"), None);
}

#[test]
fn rate_limit_messages() {
    assert_eq!(
        http_error_message("http status: 403", Some(403), Some("30"), None),
        "HTTP request failed: http status: 403 [rate limited; retry later (Retry-After: 30)]"
    );
    assert_eq!(
        http_error_message("http status: 429", Some(429), None, Some("99")),
        "HTTP request failed: http status: 429 [rate limited; retry later (X-RateLimit-Reset: 99)]"
    );
    assert_eq!(
        http_error_message("http status: 429", Some(429), None, None),
        "HTTP request failed: http status: 429 [rate limited; retry later (no Retry-After header; back off before retrying)]"
    );
    assert_eq!(
        http_error_message("timeout", None, None, None),
        "HTTP request failed: timeout"
    );
    assert_eq!(
        fetch_failure_message("http status: 404", Some(404), None, None),
        "No releases found on GitHub for BurntToasters/deoxidizer (no releases published yet)"
    );
    assert_eq!(
        download_failure_message("http status: 500", Some(500), None, None),
        "Download failed: http status: 500"
    );
    assert!(download_failure_message("x", Some(429), None, None).starts_with("HTTP request failed: x ["));
}

#[test]
fn redirects_are_validated_hop_by_hop() {
    let allowed = "https://objects.githubusercontent.com/file";
    assert!(matches!(redirect_step(0, 302, Some(allowed), "ignored"), RedirectStep::Follow(u) if u == allowed));
    assert!(matches!(
        redirect_step(0, 302, None, "x"),
        RedirectStep::Blocked(m) if m == "redirect without location header"
    ));
    assert!(matches!(
        redirect_step(1, 301, Some("https://evil.example/x"), "x"),
        RedirectStep::Blocked(m) if m == "redirect target is not HTTPS GitHub-hosted content"
    ));
    assert!(matches!(
        redirect_step(3, 302, Some(allowed), "x"),
        RedirectStep::Blocked(m) if m == "too many redirects"
    ));
    assert!(matches!(redirect_step(2, 200, None, allowed), RedirectStep::Done));
    assert!(matches!(
        redirect_step(0, 200, None, "https://evil.example/"),
        RedirectStep::Blocked(m) if m == "final download URL is not HTTPS GitHub-hosted content"
    ));
    assert!(matches!(redirect_step(0, 399, None, allowed), RedirectStep::Done));
    assert!(check_download_url(allowed).is_ok());
    assert_eq!(
        check_download_url("ftp://x").unwrap_err(),
        "download URL is not HTTPS GitHub-hosted content"
    );
}

#[test]
fn sibling_of_sibling_is_the_command_itself() {
    for name in ["deoxidizer", "deox", "deoxidizer.exe", "deox.exe"] {
        let sibling = sibling_binary_name(name).unwrap();
        assert_eq!(sibling_binary_name(sibling), Some(name));
    }
}

#[test]
fn planned_download_urls_are_allowlisted() {
    let assets = vec![
        asset("deoxidizer-v9.0.0-windows-aarch64.zip", &format!("{BASE}w.zip")),
        asset("SHA256SUMS-windows-aarch64.txt", &format!("{BASE}SHA256SUMS-windows-aarch64.txt")),
        asset("SHA256SUMS-windows-aarch64.txt.asc", "https://objects.githubusercontent.com/sig"),
    ];
    match plan_update("v9.0.0", &assets, "1.0.0", "windows", "aarch64") {
        UpdatePlan::Download { asset_url, checksums_url, signature_url, .. } => {
            assert!(is_allowed_download_url(&asset_url));
            assert!(is_allowed_download_url(&checksums_url));
            assert!(is_allowed_download_url(&signature_url));
        }
        other => panic!("expected Download, got {other:?}"),
    }
}

#[test]
fn gpg_exit_status_and_archive_kinds() {
    assert_eq!(
        check_gpg_verify(false, "", "gpg: BAD signature\n").unwrap_err(),
        "signature does not match pinned release key: gpg: BAD signature"
    );
    assert_eq!(check_gpg_verify(false, "", "").unwrap_err(), "signature does not match pinned release key");
    assert!(check_gpg_verify(
        true,
        "[GNUPG:] VALIDSIG CAEB45D4747E73FA11A9CBF7619A06F3F2FBC20F 2024\n",
        ""
    )
    .is_ok());
    assert_eq!(archive_kind("a-linux.tar.gz").unwrap(), ArchiveKind::TarGz);
    assert_eq!(archive_kind("a-windows.zip").unwrap(), ArchiveKind::Zip);
    assert_eq!(archive_kind("a.7z").unwrap_err(), "Unknown archive format: a.7z");
    assert_eq!(binary_name_for(Some("deox"), false), "deox");
    assert_eq!(binary_name_for(Some("cargo-deox"), false), "deoxidizer");
    assert_eq!(binary_name_for(None, true), "deoxidizer.exe");
}
