use xcp_orchestrator::tags::{
    ce_tag, counted_tag, counter_of_tag, generate_image_tag, has_short_form, image_tag,
    is_image_release_for, is_xva_name, next_tag_candidate, parse_ce_tag, parse_pinned_xolite_tag,
    parse_plain_version_tag, plain_tag, short_sha,
};
use xcp_orchestrator::types::{ReleaseAsset, ReleaseInfo};

#[test]
fn ce_tags_parse() {
    assert_eq!(parse_ce_tag("v0.21.0-ce6"), Some(("0.21.0".to_string(), 6)));
    assert_eq!(parse_ce_tag("v8.3-ce9"), Some(("8.3".to_string(), 9)));
    assert_eq!(parse_ce_tag("v0.1.1"), None);
    assert_eq!(parse_ce_tag("v-ce3"), None);
    assert_eq!(parse_ce_tag("v1-cebad"), None);
}

#[test]
fn ce_tags_at_the_edges() {
    assert_eq!(parse_ce_tag(""), None);
    assert_eq!(parse_ce_tag("0.21.0-ce6"), None);
    assert_eq!(parse_ce_tag("v1-ce"), None);
    assert_eq!(parse_ce_tag("v1-ce+7"), Some(("1".to_string(), 7)));
    assert_eq!(parse_ce_tag("v1-ce-7"), None);
    assert_eq!(parse_ce_tag("v1-ce2-ce3"), Some(("1-ce2".to_string(), 3)));
    assert_eq!(parse_ce_tag("v1-ce4294967295"), Some(("1".to_string(), u32::MAX)));
    assert_eq!(parse_ce_tag("v1-ce4294967296"), None);
    assert_eq!(parse_ce_tag("v1-ce007"), Some(("1".to_string(), 7)));
}

#[test]
fn plain_version_tags_parse() {
    assert_eq!(parse_plain_version_tag("v0.1.1"), Some(("0.1.1".to_string(), 0)));
    assert_eq!(parse_plain_version_tag("v0.1.1.3"), Some(("0.1.1".to_string(), 3)));
    assert_eq!(parse_plain_version_tag("v0.21.0-ce6"), None);
    assert_eq!(parse_plain_version_tag("v5.113.2_e281c536"), None);
    assert_eq!(parse_plain_version_tag("v0.1"), None);
}

#[test]
fn plain_version_tags_at_the_edges() {
    assert_eq!(parse_plain_version_tag("v1.2.3.4.5"), None);
    assert_eq!(parse_plain_version_tag("v1..3"), None);
    assert_eq!(parse_plain_version_tag("1.2.3"), None);
    assert_eq!(parse_plain_version_tag("v1.2.3.4294967296"), None);
    assert_eq!(
        parse_plain_version_tag("v99999999999.2.3"),
        Some(("99999999999.2.3".to_string(), 0))
    );
    assert_eq!(parse_plain_version_tag("v1.2.+3"), None);
}

#[test]
fn ce_suffix_increments() {
    assert_eq!(next_tag_candidate("v0.23.0-ce1").as_deref(), Some("v0.23.0-ce2"));
    assert_eq!(next_tag_candidate("v8.3-ce12").as_deref(), Some("v8.3-ce13"));
}

#[test]
fn plain_version_gains_counter_segment() {
    assert_eq!(next_tag_candidate("v0.1.1").as_deref(), Some("v0.1.1.1"));
}

#[test]
fn counter_segment_increments() {
    assert_eq!(next_tag_candidate("v0.1.1.2").as_deref(), Some("v0.1.1.3"));
}

#[test]
fn unrecognized_schemes_return_none() {
    assert_eq!(next_tag_candidate("release-foo"), None);
    assert_eq!(next_tag_candidate("v1-cebad"), None);
    assert_eq!(next_tag_candidate("v8.3-ce202605.5"), None);
    assert_eq!(next_tag_candidate("v0.1"), None);
}

#[test]
fn counters_carry_over_digits() {
    assert_eq!(next_tag_candidate("v8.3-ce99").as_deref(), Some("v8.3-ce100"));
    assert_eq!(next_tag_candidate("v1.2.3.9").as_deref(), Some("v1.2.3.10"));
    assert_eq!(next_tag_candidate("x-ce4").as_deref(), Some("x-ce5"));
    assert_eq!(counter_of_tag("v8.3-ce99"), Some(99));
    assert_eq!(counter_of_tag("v1.2.3"), None);
    assert_eq!(counter_of_tag("v1.2.3.4294967295"), Some(u32::MAX));
}

#[test]
fn tags_read_back_after_a_collision() {
    let first = ce_tag("0.23.0", 1);
    assert_eq!(first, "v0.23.0-ce1");
    let next = next_tag_candidate(&first).unwrap();
    assert_eq!(parse_ce_tag(&next), Some(("0.23.0".to_string(), 2)));

    let plain = plain_tag("0.1.1");
    assert_eq!(plain, "v0.1.1");
    let next = next_tag_candidate(&plain).unwrap();
    assert_eq!(parse_plain_version_tag(&next), Some(("0.1.1".to_string(), 1)));
    assert_eq!(next, counted_tag("0.1.1", 1));
}

#[test]
fn pinned_xolite_tags_parse() {
    assert_eq!(parse_pinned_xolite_tag("xo-lite-v0.21.0\n"), Some("0.21.0".to_string()));
    assert_eq!(parse_pinned_xolite_tag("  xo-lite-v0.23.0  "), Some("0.23.0".to_string()));
    assert_eq!(parse_pinned_xolite_tag(""), None);
    assert_eq!(parse_pinned_xolite_tag("xo-lite-v"), None);
    assert_eq!(parse_pinned_xolite_tag("v0.21.0"), None);
    assert_eq!(parse_pinned_xolite_tag("xo-server-v5.113.2"), None);
}

fn release(tag: &str, asset_names: &[&str]) -> ReleaseInfo {
    ReleaseInfo {
        tag_name: tag.to_string(),
        html_url: format!("https://github.com/Vagrantin/xoa-hl/releases/tag/{}", tag),
        assets: asset_names
            .iter()
            .map(|n| ReleaseAsset {
                name: n.to_string(),
                browser_download_url: format!("https://example.com/{}", n),
            })
            .collect(),
    }
}

#[test]
fn image_release_requires_prefix_sha_and_xva_asset() {
    let sha = "cb65556";
    // The real thing: image tag for this SHA with an XVA asset
    assert!(is_image_release_for(&release("xoa-image-20260713-cb65556", &["xoa.xva.gz"]), sha));
    assert!(is_image_release_for(&release("xoa-image-20260713-cb65556", &["xoa.xva"]), sha));
    // RPM release at the same SHA is NOT an image
    assert!(!is_image_release_for(
        &release("v5.113.2_e281c536", &["xoa-hl-5.113.2.el9.noarch.rpm"]),
        sha
    ));
    // Image release for a different commit
    assert!(!is_image_release_for(&release("xoa-image-20260701-090ce7e", &["xoa.xva.gz"]), sha));
    // Image release whose XVA upload failed (no asset) doesn't count
    assert!(!is_image_release_for(&release("xoa-image-20260713-cb65556", &[]), sha));
    assert!(!is_image_release_for(&release("xoa-image-20260713-cb65556", &["notes.txt"]), sha));
}

#[test]
fn generated_image_tag_matches_its_own_release_check() {
    let sha = "cb65556aabbccdd";
    let tag = generate_image_tag(sha);
    assert!(is_image_release_for(&release(&tag, &["xoa.xva.gz"]), &sha[..7]));
}

#[test]
fn generated_image_tag_carries_the_day() {
    let before = chrono::Utc::now().format("%Y%m%d").to_string();
    let tag = generate_image_tag("cb65556aabbccdd");
    let after = chrono::Utc::now().format("%Y%m%d").to_string();
    assert!(
        tag == format!("xoa-image-{}-cb65556", before)
            || tag == format!("xoa-image-{}-cb65556", after)
    );
}

#[test]
fn image_tag_is_exact() {
    assert_eq!(image_tag("20260713", "cb65556aabbccdd"), "xoa-image-20260713-cb65556");
    assert_eq!(image_tag("20260713", "cb6"), "xoa-image-20260713-cb6");
}

#[test]
fn short_form_of_a_sha() {
    assert_eq!(short_sha("0123456789"), "0123456");
    assert_eq!(short_sha("0123456"), "0123456");
    assert_eq!(short_sha("01"), "01");
    assert_eq!(short_sha(""), "");
    assert!(has_short_form("0123456789"));
    assert!(!has_short_form("012345\u{e9}"));
    assert!(has_short_form("01234\u{e9}89"));
}

#[test]
fn xva_names() {
    assert!(is_xva_name("xoa.xva"));
    assert!(is_xva_name("/out/xoa.xva.gz"));
    assert!(!is_xva_name("xoa.xva.bz2"));
    assert!(is_xva_name(".xva"));
    assert!(!is_xva_name("xva"));
}

#[test]
fn no_tag_follows_both_schemes() {
    for tag in ["v0.1.1", "v0.1.1.3", "v0.1.1-ce3", "v1.2.3.4-ce5", "v1-ce2", "v1.2.3-ce", "1.2.3"] {
        assert!(parse_plain_version_tag(tag).is_none() || parse_ce_tag(tag).is_none());
    }
}

#[test]
fn plain_tags_are_runs_of_digits() {
    assert_eq!(parse_plain_version_tag("v007.0.10"), Some(("007.0.10".to_string(), 0)));
    assert_eq!(parse_plain_version_tag("v1.2.3.004"), Some(("1.2.3".to_string(), 4)));
    assert_eq!(parse_plain_version_tag("v1.2.3.4294967295"), Some(("1.2.3".to_string(), u32::MAX)));
    for tag in ["v1.2.3.4294967296", "v1.2.3.+4", "v1.2.x", "v1.2", "v1..3", "v1.2.3.4.5"] {
        assert_eq!(parse_plain_version_tag(tag), None);
    }
}

#[test]
fn pinned_tags_read_back() {
    for version in ["0.21.0", "x", "v v"] {
        let pin = format!("\t\n xo-lite-v{} \r\n", version);
        assert_eq!(parse_pinned_xolite_tag(&pin).as_deref(), Some(version));
    }
}
