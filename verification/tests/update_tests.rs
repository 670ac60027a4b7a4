use scli::error::ScliError;
use scli::json::{Json, JsonNumber};
use scli::update::{
    asset_name, asset_url, checksum_verdict, expected_checksum, latest_tag, notice_enabled, notice_line, notice_plan, notice_record,
    release_tag, update_step, update_urls, verify_checksum, NoticePlan, UpdateStep,
    NOTICE_INTERVAL_SECS,
};

fn s(x: &str) -> Json {
    Json::Str(x.to_string())
}

fn obj(items: Vec<(&str, Json)>) -> Json {
    Json::Object(items.into_iter().map(|(k, v)| (k.to_string(), v)).collect())
}

fn release() -> Json {
    obj(vec![
        ("tag_name", s("v1.4.0")),
        (
            "assets",
            Json::Array(vec![
                obj(vec![("name", s("scli-linux-amd64")), ("browser_download_url", s("https://d/lin"))]),
                obj(vec![("name", s("scli-darwin-arm64"))]),
                obj(vec![("name", s("SHA256SUMS")), ("browser_download_url", s("https://d/sums"))]),
                obj(vec![("name", s("scli-linux-amd64")), ("browser_download_url", s("https://d/second"))]),
            ]),
        ),
    ])
}

#[test]
fn asset_names_for_supported_hosts() {
    assert_eq!(asset_name("linux", "x86_64"), Ok("scli-linux-amd64".to_string()));
    assert_eq!(asset_name("linux", "aarch64"), Ok("scli-linux-arm64".to_string()));
    assert_eq!(asset_name("macos", "aarch64"), Ok("scli-darwin-arm64".to_string()));
}

#[test]
fn unsupported_hosts_are_refused() {
    assert_eq!(asset_name("macos", "x86_64"), Err(ScliError::NoMacIntel));
    assert_eq!(asset_name("windows", "x86_64"), Err(ScliError::UnsupportedOs("windows".to_string())));
    assert_eq!(asset_name("linux", "riscv64"), Err(ScliError::UnsupportedArch("riscv64".to_string())));
    assert_eq!(asset_name("freebsd", "riscv64"), Err(ScliError::UnsupportedOs("freebsd".to_string())));
}

#[test]
fn release_tag_and_assets() {
    let rel = release();
    assert_eq!(release_tag(&rel), Ok("v1.4.0".to_string()));
    assert_eq!(release_tag(&obj(vec![])), Err(ScliError::NoTagName));
    assert_eq!(asset_url(&rel, "scli-linux-amd64"), Some("https://d/lin".to_string()));
    assert_eq!(asset_url(&rel, "scli-darwin-arm64"), None);
    assert_eq!(asset_url(&rel, "scli-linux-arm64"), None);
    assert_eq!(asset_url(&Json::Null, "SHA256SUMS"), None);
}

#[test]
fn update_urls_need_asset_and_sums() {
    let rel = release();
    assert_eq!(
        update_urls(&rel, "v1.4.0", "scli-linux-amd64"),
        Ok(("https://d/lin".to_string(), "https://d/sums".to_string()))
    );
    assert_eq!(
        update_urls(&rel, "v1.4.0", "scli-linux-arm64"),
        Err(ScliError::NoAsset { tag: "v1.4.0".to_string(), want: "scli-linux-arm64".to_string() })
    );
    let no_sums = obj(vec![(
        "assets",
        Json::Array(vec![obj(vec![("name", s("a")), ("browser_download_url", s("https://d/a"))])]),
    )]);
    assert_eq!(update_urls(&no_sums, "v2", "a"), Err(ScliError::NoChecksums("v2".to_string())));
}

const SUMS: &str = "0123abcd  scli-linux-arm64\nDEADBEEF  scli-linux-amd64\r\n FFFF  spaced \n";

#[test]
fn checksum_is_found_and_lowercased() {
    assert_eq!(
        expected_checksum(SUMS.as_bytes().to_vec(), "scli-linux-amd64"),
        Ok("deadbeef".to_string())
    );
    assert_eq!(
        expected_checksum(SUMS.as_bytes().to_vec(), "scli-linux-arm64"),
        Ok("0123abcd".to_string())
    );
}

#[test]
fn checksum_with_single_space_and_trimmed_fields() {
    assert_eq!(expected_checksum(b"abc12 file".to_vec(), "file"), Ok("abc12".to_string()));
    assert_eq!(expected_checksum(SUMS.as_bytes().to_vec(), "spaced"), Ok("ffff".to_string()));
    // the split is at the first two spaces, so a leading pair leaves no sum
    assert_eq!(
        expected_checksum(b"  abcd  name".to_vec(), "name"),
        Err(ScliError::NoChecksum("name".to_string()))
    );
}

#[test]
fn checksum_missing_or_not_text() {
    assert_eq!(
        expected_checksum(SUMS.as_bytes().to_vec(), "scli-darwin-arm64"),
        Err(ScliError::NoChecksum("scli-darwin-arm64".to_string()))
    );
    assert_eq!(expected_checksum(vec![], "x"), Err(ScliError::NoChecksum("x".to_string())));
    assert_eq!(expected_checksum(b"nospace".to_vec(), "nospace"), Err(ScliError::NoChecksum("nospace".to_string())));
    assert_eq!(
        expected_checksum(vec![0xff, 0xfe, b' ', b'x'], "x"),
        Err(ScliError::ChecksumsNotUtf8("invalid utf-8 sequence of 1 bytes from index 0".to_string()))
    );
    assert_eq!(
        expected_checksum(vec![b'a', b' ', b'x', 0xe2, 0x82], "x"),
        Err(ScliError::ChecksumsNotUtf8("incomplete utf-8 byte sequence from index 3".to_string()))
    );
}

#[test]
fn checksum_is_verified() {
    let good = "ba7816bf8f01cfea414140de5dae2223b00361a396177a9cb410ff61f20015ad";
    assert_eq!(verify_checksum(b"abc", "scli-x", good), Ok(()));
    assert_eq!(
        verify_checksum(b"abd", "scli-x", good),
        Err(ScliError::ChecksumMismatch {
            want: "scli-x".to_string(),
            expected: good.to_string(),
            got: "a52d159f262b2c6ddb724a61840befc36eb30c88877a4030b65cbe86298449c9".to_string(),
        })
    );
}

#[test]
fn update_decision() {
    assert_eq!(
        update_step("v0.3.0", "0.3.0", false, "scli-linux-amd64"),
        UpdateStep::UpToDate("scli is up to date (v0.3.0)".to_string())
    );
    assert_eq!(
        update_step("v0.2.0", "0.3.0", true, "scli-linux-amd64"),
        UpdateStep::UpToDate("scli is up to date (v0.3.0)".to_string())
    );
    assert_eq!(
        update_step("v0.4.0", "0.3.0", true, "scli-linux-amd64"),
        UpdateStep::Available("v0.4.0 available (you have v0.3.0) — run 'scli write update'".to_string())
    );
    assert_eq!(
        update_step("v0.4.0", "0.3.0", false, "scli-linux-amd64"),
        UpdateStep::Install("updating scli v0.3.0 -> v0.4.0 (scli-linux-amd64)".to_string())
    );
}

#[test]
fn notice_is_switched_off() {
    let rec = notice_record(100, "v9.9.9");
    assert_eq!(notice_plan(Some("1"), 100, &rec), NoticePlan::Off);
    assert_eq!(notice_plan(Some("1"), 0, &Json::Null), NoticePlan::Off);
    assert_eq!(notice_plan(Some("0"), 150, &rec), NoticePlan::Cached(Some("v9.9.9".to_string())));
    assert_eq!(notice_plan(Some("true"), 150, &rec), NoticePlan::Cached(Some("v9.9.9".to_string())));
}

#[test]
fn notice_looks_up_at_most_daily() {
    let now = 1_700_000_000;
    let rec = notice_record(now, "v1.0.0");
    assert_eq!(notice_plan(None, now, &rec), NoticePlan::Cached(Some("v1.0.0".to_string())));
    assert_eq!(
        notice_plan(None, now + NOTICE_INTERVAL_SECS - 1, &rec),
        NoticePlan::Cached(Some("v1.0.0".to_string()))
    );
    assert_eq!(notice_plan(None, now + NOTICE_INTERVAL_SECS, &rec), NoticePlan::Fetch);
    assert_eq!(notice_plan(None, now, &Json::Null), NoticePlan::Fetch);
    assert_eq!(NOTICE_INTERVAL_SECS, 86_400);
}

#[test]
fn notice_record_layout() {
    assert_eq!(
        notice_record(5, "v1"),
        obj(vec![("checked", Json::Number(JsonNumber::PosInt(5))), ("latest", s("v1"))])
    );
    let rec = obj(vec![("checked", Json::Number(JsonNumber::PosInt(5)))]);
    assert_eq!(notice_plan(None, 10, &rec), NoticePlan::Cached(None));
}

#[test]
fn notice_line_only_when_newer() {
    assert_eq!(
        notice_line(Some("v0.5.0"), "0.4.2"),
        Some("scli: v0.5.0 available (you have v0.4.2) — run 'scli write update'".to_string())
    );
    assert_eq!(notice_line(Some("v0.4.2"), "0.4.2"), None);
    assert_eq!(notice_line(None, "0.4.2"), None);
    assert_eq!(latest_tag(&release()), Some("v1.4.0".to_string()));
    assert_eq!(latest_tag(&obj(vec![("tag_name", Json::Null)])), None);
}

#[test]
fn checksum_verdict_compares_text() {
    assert_eq!(checksum_verdict("ab12".to_string(), "a", "ab12"), Ok(()));
    assert_eq!(
        checksum_verdict("ab12".to_string(), "a", "AB12"),
        Err(ScliError::ChecksumMismatch {
            want: "a".to_string(),
            expected: "AB12".to_string(),
            got: "ab12".to_string(),
        })
    );
}

#[test]
fn notice_switch_is_decided_first() {
    assert!(!notice_enabled(Some("1")));
    assert!(notice_enabled(Some("0")));
    assert!(notice_enabled(Some("")));
    assert!(notice_enabled(None));
}
