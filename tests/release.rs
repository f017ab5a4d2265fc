use gpu_fan_control::release::{
    binary_variant_name, fallback_variant_name, find_asset, find_checksum_asset, plan_downloads, release_assets, resolve_asset, Asset,
    UpdateError,
};

fn asset(name: &str) -> Asset {
    Asset { name: name.to_string(), download_url: format!("https://example.com/{}", name) }
}

const RELEASE: &str = r#"{
  "tag_name": "v1.3.0",
  "assets": [
    {"name": "widget-static", "browser_download_url": "https://example.com/a"},
    {"name": "widget-2-fans", "browser_download_url": "https://example.com/b"},
    {"name": "checksums.json", "browser_download_url": "https://example.com/c"}
  ]
}"#;

#[test]
fn release_assets_are_read_in_order() {
    let assets = release_assets(RELEASE);
    let names: Vec<&str> = assets.iter().map(|a| a.name.as_str()).collect();
    assert_eq!(names, vec!["widget-static", "widget-2-fans", "checksums.json"]);
    assert_eq!(assets[1].download_url, "https://example.com/b");
}

#[test]
fn release_without_assets_has_none() {
    assert!(release_assets(r#"{"tag_name": "v1"}"#).is_empty());
    assert!(release_assets(r#"{"assets": []}"#).is_empty());
    assert!(release_assets("not json").is_empty());
}

#[test]
fn incomplete_asset_entries_are_left_out() {
    let json = r#"{"assets": [{"name": "widget"}, {"browser_download_url": "u"}, {"name": "x", "browser_download_url": "v"}]}"#;
    let assets = release_assets(json);
    assert_eq!(assets.len(), 1);
    assert_eq!(assets[0].name, "x");
    assert_eq!(assets[0].download_url, "v");
}

#[test]
fn exact_variant_is_preferred_over_fallback() {
    let assets = vec![asset("widget-static"), asset("widget-2-fans")];
    assert_eq!(resolve_asset(&assets, "widget-2-fans", "widget-static"), Some(1));
}

#[test]
fn fallback_is_used_when_variant_is_missing() {
    let assets = vec![asset("widget-3-fans"), asset("widget-static")];
    assert_eq!(resolve_asset(&assets, "widget-2-fans", "widget-static"), Some(1));
}

#[test]
fn no_asset_when_neither_name_is_there() {
    let assets = vec![asset("other")];
    assert_eq!(resolve_asset(&assets, "widget-2-fans", "widget-static"), None);
    assert_eq!(resolve_asset(&Vec::new(), "widget-2-fans", "widget-static"), None);
}

#[test]
fn names_match_case_sensitively() {
    let assets = vec![asset("Widget-2-Fans")];
    assert_eq!(find_asset(&assets, "widget-2-fans"), None);
}

#[test]
fn first_of_equal_names_is_found() {
    let assets = vec![asset("a"), asset("b"), asset("b")];
    assert_eq!(find_asset(&assets, "b"), Some(1));
}

#[test]
fn checksum_manifest_asset_is_found() {
    let assets = release_assets(RELEASE);
    assert_eq!(find_checksum_asset(&assets), Some(2));
    assert_eq!(find_checksum_asset(&vec![asset("widget")]), None);
}

#[test]
fn plan_downloads_picks_binary_and_manifest() {
    let assets = release_assets(RELEASE);
    let plan = plan_downloads(&assets, "widget-2-fans", "widget-static").ok().unwrap();
    assert_eq!(plan.binary_url, "https://example.com/b");
    assert_eq!(plan.checksums_url, "https://example.com/c");
}

#[test]
fn plan_downloads_errors() {
    let no_binary = vec![asset("checksums.json")];
    assert_eq!(plan_downloads(&no_binary, "w", "f").err(), Some(UpdateError::AssetNotFound));
    let no_manifest = vec![asset("w")];
    assert_eq!(plan_downloads(&no_manifest, "w", "f").err(), Some(UpdateError::ChecksumUnavailable));
}

#[test]
fn variant_names_by_fan_count() {
    assert_eq!(binary_variant_name(1, false), "Rust-gpu-fan-control");
    assert_eq!(binary_variant_name(2, false), "Rust-gpu-fan-control-2-fans");
    assert_eq!(binary_variant_name(3, true), "Rust-gpu-fan-control-3-fans-static");
    assert_eq!(binary_variant_name(4, true), "Rust-gpu-fan-control-4-fans-static");
    assert_eq!(binary_variant_name(9, true), "Rust-gpu-fan-control-static");
    assert_eq!(fallback_variant_name(), "Rust-gpu-fan-control-static");
}
