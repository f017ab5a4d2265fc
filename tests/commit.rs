use gpu_fan_control::commit::{finish_update, update_func_commit, update_func_discard, FileOp};

fn describe(ops: &[FileOp]) -> Vec<String> {
    ops.iter()
        .map(|o| match o {
            FileOp::RemoveFile { path } => format!("remove {}", path),
            FileOp::Rename { from, to } => format!("rename {} {}", from, to),
        })
        .collect()
}

#[test]
fn commit_deletes_then_renames() {
    let ops = update_func_commit("/opt/w", "/opt/w-dl_tmp");
    assert_eq!(describe(&ops), vec!["remove /opt/w", "rename /opt/w-dl_tmp /opt/w"]);
}

#[test]
fn discard_deletes_the_download() {
    let ops = update_func_discard("/opt/w-dl_tmp");
    assert_eq!(describe(&ops), vec!["remove /opt/w-dl_tmp"]);
}

#[test]
fn verified_download_is_committed() {
    let ops = finish_update("/opt/w", "/opt/w-dl_tmp", &Some("deadbeef".to_string()), "deadbeef");
    assert_eq!(describe(&ops), vec!["remove /opt/w", "rename /opt/w-dl_tmp /opt/w"]);
}

#[test]
fn mismatched_download_is_discarded() {
    let ops = finish_update("/opt/w", "/opt/w-dl_tmp", &Some("deadbeef".to_string()), "deadbeee");
    assert_eq!(describe(&ops), vec!["remove /opt/w-dl_tmp"]);
}

#[test]
fn download_without_expected_digest_is_discarded() {
    let ops = finish_update("/opt/w", "/opt/w-dl_tmp", &None, "deadbeef");
    assert_eq!(describe(&ops), vec!["remove /opt/w-dl_tmp"]);
}
