use gpu_fan_control::checksum::{expected_digest, parse_checksums};
use gpu_fan_control::commit::{finish_update, FileOp};
use gpu_fan_control::release::{release_assets, resolve_asset};
use gpu_fan_control::version::check_remote_version;

#[test]
fn update_end_to_end() {
    let manifest = "[package]\nversion = \"1.3.0\"\n";
    assert_eq!(check_remote_version(Some(manifest), "1.2.0"), (true, String::from("1.3.0")));

    let release = r#"{"assets": [
        {"name": "widget-2-fans", "browser_download_url": "https://example.com/w2"},
        {"name": "widget-static", "browser_download_url": "https://example.com/ws"}
    ]}"#;
    let assets = release_assets(release);
    let chosen = resolve_asset(&assets, "widget-2-fans", "widget-static").unwrap();
    assert_eq!(assets[chosen].name, "widget-2-fans");

    let checksums = parse_checksums(br#"{"widget-2-fans": "deadbeef"}"#);
    let expected = expected_digest(&checksums, "widget-2-fans");
    assert_eq!(expected, Some(String::from("deadbeef")));

    let ops = finish_update("/usr/bin/widget", "/usr/bin/widget-dl_tmp", &expected, "deadbeef");
    assert_eq!(ops.len(), 2);
    assert!(matches!(&ops[0], FileOp::RemoveFile { path } if path == "/usr/bin/widget"));
    assert!(matches!(&ops[1], FileOp::Rename { from, to } if from == "/usr/bin/widget-dl_tmp" && to == "/usr/bin/widget"));
}
