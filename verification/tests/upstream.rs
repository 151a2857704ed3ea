use base64::Engine;
use xcp_orchestrator::encoding::{
    decode_content, decode_content_text, decode_text, encode_content, is_encodable,
};
use xcp_orchestrator::types::{GHFileContent, GHRelease};
use xcp_orchestrator::upstream;
use xcp_orchestrator::upstream::{choose_xolite_tag, ReleaseEntry, TagChoice};

fn encoded(content: &[u8]) -> String {
    let whole = base64::engine::general_purpose::STANDARD.encode(content);
    // GitHub breaks the lines of the contents it hands over.
    let mut broken = String::new();
    for (i, c) in whole.chars().enumerate() {
        if i > 0 && i % 20 == 0 {
            broken.push('\n');
        }
        broken.push(c);
    }
    broken.push('\n');
    broken
}

fn file(content: &[u8]) -> GHFileContent {
    GHFileContent { content: encoded(content), sha: "f00".to_string() }
}

fn release(tag: &str, assets: usize) -> GHRelease {
    GHRelease { tag_name: tag.to_string(), assets: vec!["{}".to_string(); assets] }
}

#[test]
fn contents_are_decoded() {
    assert_eq!(decode_content(&encoded(b"hello world, this is long")).unwrap(), b"hello world, this is long");
    assert_eq!(decode_content_text(&encoded("h\u{e9}".as_bytes())).unwrap(), "h\u{e9}");
    assert_eq!(
        decode_content("!").unwrap_err().message(),
        "Base64 decode error: Invalid symbol 33, offset 0."
    );
    assert_eq!(
        decode_text(vec![0xff]).unwrap_err().message(),
        "FromUTF8 error: invalid utf-8 sequence of 1 bytes from index 0"
    );
    assert!(decode_content_text(&encoded(&[0xc3])).is_err());
    assert!(decode_content_text("*").is_err());
}

#[test]
fn contents_read_back() {
    for text in ["", "a", "ab", "abc", "- iso_version: \"v8.3-ce1\"\n", "\u{1f916}"] {
        let content = encode_content(text).unwrap();
        assert_eq!(content, base64::engine::general_purpose::STANDARD.encode(text));
        assert_eq!(decode_content_text(&content).unwrap(), text);
    }
}

#[test]
fn newest_release_with_files_is_taken() {
    assert_eq!(
        upstream::latest_upstream_xolite_tag(&vec![
            release("xo-server-v5.1.0", 2),
            release("xo-lite-v0.24.0", 0),
            release("xo-lite-v0.23.0", 1),
            release("xo-lite-v0.22.0", 1),
        ])
        .unwrap(),
        "0.23.0"
    );
    assert_eq!(
        upstream::latest_upstream_xolite_tag(&vec![release("xo-lite-v1", 0)]).unwrap_err().message(),
        "Invalid version format: No released xo-lite-v* tag with assets found upstream"
    );
    assert!(upstream::latest_upstream_xolite_tag(&vec![]).is_err());
}

#[test]
fn package_versions() {
    let version = |json: &[u8]| upstream::upstream_xolite_version(&encoded(json));
    assert_eq!(version(b"{\"name\":\"lite\",\"version\":\"0.23.0\"}").unwrap(), "0.23.0");
    for missing in ["{}", "{\"version\":7}", "[]", "null"] {
        assert_eq!(
            version(missing.as_bytes()).unwrap_err().message(),
            "Invalid version format: package.json missing version field"
        );
    }
    assert_eq!(version(b"not json").unwrap_err().message(), "JSON serialization error");
    assert!(upstream::upstream_xolite_version("*").is_err());
    assert_eq!(upstream::package_version(Ok(Some("1".to_string()))).unwrap(), "1");
    assert!(upstream::package_version(Ok(None)).is_err());
    assert!(upstream::package_version(Err("x".to_string())).is_err());
}

#[test]
fn pins_are_read() {
    assert_eq!(upstream::pinned_xolite_tag(&file(b"xo-lite-v0.21.0\n")).unwrap(), "0.21.0");
    assert_eq!(
        upstream::pinned_xolite_tag(&file(b" \"v1\"\n")).unwrap_err().message(),
        "Invalid version format: UPSTREAM_TAG does not contain an xo-lite-v* tag: \"\\\"v1\\\"\""
    );
    assert_eq!(
        upstream::read_pin(vec![0xff, 0x20]).unwrap_err().message(),
        "Invalid version format: UPSTREAM_TAG is not UTF-8: invalid utf-8 sequence of 1 bytes from index 0"
    );
    assert!(upstream::pinned_xolite_tag(&GHFileContent {
        content: "*".to_string(),
        sha: String::new()
    })
    .is_err());
}

#[test]
fn manifest_versions() {
    let version = |toml: &str| upstream::xoa_proxy_version(&file(toml.as_bytes()));
    assert_eq!(version("[package]\nname = \"p\"\nversion = \"0.1.1\"\n").unwrap(), "0.1.1");
    assert_eq!(version("version=\"\"\n").unwrap(), "");
    for bad in ["", "  version = \"1\"\n", "version = 1\nversion = \"2\"\n"] {
        assert_eq!(
            version(bad).unwrap_err().message(),
            "Invalid version format: Could not parse version from Cargo.toml"
        );
    }
    assert_eq!(upstream::manifest_version("version = \"3").unwrap(), "3");
}

#[test]
fn addresses_of_versions() {
    assert_eq!(
        upstream::UPSTREAM_RELEASES_URL,
        "https://api.github.com/repos/vatesfr/xen-orchestra/releases?per_page=10"
    );
    assert_eq!(
        upstream::package_url("0.23.0"),
        "https://api.github.com/repos/vatesfr/xen-orchestra/contents/@xen-orchestra/lite/package.json?ref=xo-lite-v0.23.0"
    );
    assert_eq!(
        upstream::package_context("0.23.0"),
        "fetch_upstream_xolite_version for tag xo-lite-v0.23.0"
    );
    assert_eq!(
        upstream::pin_url(),
        "https://api.github.com/repos/Vagrantin/xolite-ce/contents/UPSTREAM_TAG?ref=main"
    );
    assert_eq!(
        upstream::cargo_url(),
        "https://api.github.com/repos/Vagrantin/xoa-proxy/contents/Cargo.toml?ref=main"
    );
    assert_eq!(
        upstream::matrix_url(),
        "https://api.github.com/repos/Vagrantin/xcp-hl/contents/docs/_data/releases.yml"
    );
}

fn entry() -> ReleaseEntry {
    ReleaseEntry {
        iso_tag: "v8.3-ce4".to_string(),
        xolite_version: "v0.23.0-ce1".to_string(),
        xolite_upstream: "0.23.0".to_string(),
        xoa_proxy_version: "v0.1.1".to_string(),
    }
}

const LINES: &str = "- iso_version: \"v8.3-ce4\"\n  build_date: \"2026-07-13\"\n  components:\n    xolite_ce:\n      version: \"v0.23.0-ce1\"\n      upstream: \"0.23.0\"\n      upstream_url: \"https://github.com/vatesfr/xen-orchestra/releases/tag/xo-lite-v0.23.0\"\n    xoa_proxy:\n      version: \"v0.1.1\"\n";

#[test]
fn matrix_entries_go_in_front() {
    assert_eq!(entry().lines("2026-07-13"), LINES);
    let old = "- iso_version: \"v8.3-ce3\"\n";
    let update = entry().update_on(&file(old.as_bytes()), "2026-07-13").unwrap().unwrap();
    assert_eq!(update.message, "docs: record release v8.3-ce4 in matrix");
    assert_eq!(update.sha, "f00");
    assert_eq!(update.branch, "main");
    assert_eq!(
        decode_content_text(&update.content).unwrap(),
        format!("{}{}", LINES, old)
    );
    assert!(entry().update_on(&file(&[0xff]), "2026-07-13").is_err());
}

#[test]
fn matrix_entries_are_dated_today() {
    let before = chrono::Utc::now().format("%Y-%m-%d").to_string();
    let update = entry().update(&file(b"")).unwrap().unwrap();
    let after = chrono::Utc::now().format("%Y-%m-%d").to_string();
    let yaml = decode_content_text(&update.content).unwrap();
    assert!(
        yaml == LINES.replace("2026-07-13", &before) || yaml == LINES.replace("2026-07-13", &after)
    );
}

#[test]
fn replies_to_a_matrix_update() {
    assert!(entry().update_result(200, "").is_ok());
    assert_eq!(
        entry().update_result(409, "conflict").unwrap_err().message(),
        "GitHub API error (v8.3-ce4): Failed to update release matrix: conflict"
    );
}

#[test]
fn the_matrix_starts_with_the_new_release() {
    let updated = entry().updated_matrix("- iso_version: \"v8.3-ce1\"\n", "2026-07-13");
    assert!(updated.starts_with(&entry().lines("2026-07-13")));
    assert!(updated.ends_with("\"\n- iso_version: \"v8.3-ce1\"\n"));
    assert_eq!(
        updated.len(),
        entry().lines("2026-07-13").len() + "- iso_version: \"v8.3-ce1\"\n".len()
    );
}

#[test]
fn a_pin_goes_before_the_latest_release() {
    let pin = Some("0.21.0".to_string());
    assert!(matches!(choose_xolite_tag(pin), TagChoice::Pinned(tag) if tag == "0.21.0"));
    assert!(matches!(choose_xolite_tag(None), TagChoice::LookUpLatest));
}

#[test]
fn encoded_texts_fit_one_allocation() {
    let most = isize::MAX as usize / 4 * 3;
    for len in [0, 1, 2, 3, most - 1, most] {
        assert!(is_encodable(len));
        let text_len = base64::encoded_len(len, true).unwrap();
        assert!(text_len <= isize::MAX as usize);
    }
    for len in [most + 1, most + 3] {
        assert!(!is_encodable(len));
        let text_len = base64::encoded_len(len, true).unwrap();
        assert!(text_len > isize::MAX as usize);
    }
    assert!(!is_encodable(usize::MAX));
}
