//! Replacing the running binary with a verified download, or discarding the
//! download. The library decides which file operations to make; the caller
//! performs them in order and stops at the first one that fails.
use vstd::prelude::*;

use crate::text::same_text;

verus! {

/// A file operation on the installed binary or its download.
pub enum FileOp {
    /// Delete the file at `path`.
    RemoveFile { path: String },
    /// Move the file at `from` to `to`, replacing what is there.
    Rename { from: String, to: String },
}

/// A file operation, with paths as characters.
pub enum OpModel {
    Remove(Seq<char>),
    Move(Seq<char>, Seq<char>),
}

impl View for FileOp {
    type V = OpModel;

    open spec fn view(&self) -> OpModel {
        match self {
            FileOp::RemoveFile { path } => OpModel::Remove(path@),
            FileOp::Rename { from, to } => OpModel::Move(from@, to@),
        }
    }
}

/// The models of a list of file operations.
pub open spec fn ops_view(ops: Seq<FileOp>) -> Seq<OpModel> {
    ops.map_values(|o: FileOp| o@)
}

/// The files after one operation, from each path to its bytes; `None` when
/// the operation fails because its file is not there.
pub open spec fn apply_op(files: Map<Seq<char>, Seq<u8>>, op: OpModel) -> Option<
    Map<Seq<char>, Seq<u8>>,
> {
    match op {
        OpModel::Remove(p) => if files.contains_key(p) {
            Some(files.remove(p))
        } else {
            None
        },
        OpModel::Move(a, b) => if files.contains_key(a) {
            Some(files.remove(a).insert(b, files[a]))
        } else {
            None
        },
    }
}

/// The files after the operations are made in order, up to the first that fails.
pub open spec fn run_ops(files: Map<Seq<char>, Seq<u8>>, ops: Seq<OpModel>) -> Map<
    Seq<char>,
    Seq<u8>,
>
    decreases ops.len(),
{
    if ops.len() == 0 {
        files
    } else {
        match apply_op(files, ops[0]) {
            Some(next) => run_ops(next, ops.drop_first()),
            None => files,
        }
    }
}

/// Putting the download in place: delete the installed binary, then move the
/// download onto its path. Delete-then-rename is not crash-safe: between the
/// two steps no binary is installed.
pub open spec fn commit_ops(final_path: Seq<char>, tmp_path: Seq<char>) -> Seq<OpModel> {
    seq![OpModel::Remove(final_path), OpModel::Move(tmp_path, final_path)]
}

/// Throwing the download away.
pub open spec fn discard_ops(tmp_path: Seq<char>) -> Seq<OpModel> {
    seq![OpModel::Remove(tmp_path)]
}

/// The operations that put the download at `file_path_tmp` in place of the
/// binary at `file_path`.
pub fn update_func_commit(file_path: &str, file_path_tmp: &str) -> (r: Vec<FileOp>)
    ensures
        ops_view(r@) == commit_ops(file_path@, file_path_tmp@),
{
    let ops = vec![
        FileOp::RemoveFile { path: file_path.to_owned() },
        FileOp::Rename { from: file_path_tmp.to_owned(), to: file_path.to_owned() },
    ];
    assert(ops_view(ops@) =~= commit_ops(file_path@, file_path_tmp@));
    ops
}

/// The operations that throw away the download at `file_path_tmp`.
pub fn update_func_discard(file_path_tmp: &str) -> (r: Vec<FileOp>)
    ensures
        ops_view(r@) == discard_ops(file_path_tmp@),
{
    let ops = vec![FileOp::RemoveFile { path: file_path_tmp.to_owned() }];
    assert(ops_view(ops@) =~= discard_ops(file_path_tmp@));
    ops
}

/// Whether the download may replace the binary: the manifest gave a digest
/// for it and that digest is the one computed.
pub open spec fn download_verified(expected: Option<Seq<char>>, computed: Seq<char>) -> bool {
    match expected {
        Some(e) => e == computed,
        None => false,
    }
}

/// The operations that settle an update: commit when the download is
/// verified, otherwise discard.
pub open spec fn settle_ops(
    final_path: Seq<char>,
    tmp_path: Seq<char>,
    expected: Option<Seq<char>>,
    computed: Seq<char>,
) -> Seq<OpModel> {
    if download_verified(expected, computed) {
        commit_ops(final_path, tmp_path)
    } else {
        discard_ops(tmp_path)
    }
}

/// Settles an update once the download's digest is known: commit when it is
/// verified, otherwise discard. A download with no expected digest is never
/// committed.
pub fn finish_update(
    file_path: &str,
    file_path_tmp: &str,
    expected: &Option<String>,
    computed_hex: &str,
) -> (r: Vec<FileOp>)
    ensures
        ops_view(r@) == settle_ops(
            file_path@,
            file_path_tmp@,
            match expected {
                Some(e) => Some(e@),
                None => None,
            },
            computed_hex@,
        ),
{
    let verified = match expected {
        Some(e) => same_text(e.as_str(), computed_hex),
        None => false,
    };
    if verified {
        update_func_commit(file_path, file_path_tmp)
    } else {
        update_func_discard(file_path_tmp)
    }
}

/// An update whose download is verified leaves at the binary's path exactly
/// the downloaded bytes, and the download's path gone.
pub proof fn lemma_verified_update_replaces(
    files: Map<Seq<char>, Seq<u8>>,
    final_path: Seq<char>,
    tmp_path: Seq<char>,
    expected: Option<Seq<char>>,
    computed: Seq<char>,
)
    requires
        download_verified(expected, computed),
        final_path != tmp_path,
        files.contains_key(final_path),
        files.contains_key(tmp_path),
    ensures
        ({
            let after = run_ops(files, settle_ops(final_path, tmp_path, expected, computed));
            &&& after.contains_key(final_path)
            &&& after[final_path] == files[tmp_path]
            &&& !after.contains_key(tmp_path)
        }),
{
    lemma_commit_replaces(files, final_path, tmp_path);
}

/// An update whose download is not verified leaves the binary's path as it
/// was before the attempt, and the download's path gone.
pub proof fn lemma_unverified_update_keeps_binary(
    files: Map<Seq<char>, Seq<u8>>,
    final_path: Seq<char>,
    tmp_path: Seq<char>,
    expected: Option<Seq<char>>,
    computed: Seq<char>,
)
    requires
        !download_verified(expected, computed),
        final_path != tmp_path,
    ensures
        ({
            let after = run_ops(files, settle_ops(final_path, tmp_path, expected, computed));
            &&& after.contains_key(final_path) == files.contains_key(final_path)
            &&& files.contains_key(final_path) ==> after[final_path] == files[final_path]
            &&& !after.contains_key(tmp_path)
        }),
{
    lemma_discard_keeps_binary(files, final_path, tmp_path);
}

/// After a commit whose steps succeed, the binary's path holds exactly the
/// downloaded bytes, the download's path is gone, and no other file changed.
pub proof fn lemma_commit_replaces(
    files: Map<Seq<char>, Seq<u8>>,
    final_path: Seq<char>,
    tmp_path: Seq<char>,
)
    requires
        final_path != tmp_path,
        files.contains_key(final_path),
        files.contains_key(tmp_path),
    ensures
        ({
            let after = run_ops(files, commit_ops(final_path, tmp_path));
            &&& after.contains_key(final_path)
            &&& after[final_path] == files[tmp_path]
            &&& !after.contains_key(tmp_path)
            &&& forall|p: Seq<char>|
                p != final_path && p != tmp_path ==> (#[trigger] after.contains_key(p)
                    == files.contains_key(p) && (files.contains_key(p) ==> after[p] == files[p]))
        }),
{
    let ops = commit_ops(final_path, tmp_path);
    let f1 = files.remove(final_path);
    assert(apply_op(files, ops[0]) == Some(f1));
    let f2 = f1.remove(tmp_path).insert(final_path, f1[tmp_path]);
    assert(apply_op(f1, ops.drop_first()[0]) == Some(f2));
    assert(ops.drop_first().drop_first() =~= Seq::<OpModel>::empty());
    assert(run_ops(f2, ops.drop_first().drop_first()) == f2);
    assert(run_ops(f1, ops.drop_first()) == f2);
    assert(run_ops(files, ops) == f2);
    assert(f1[tmp_path] == files[tmp_path]);
    assert(f2[final_path] == files[tmp_path]);
}

/// When the installed binary cannot be deleted, the commit stops there: the
/// rename is not attempted and no file changes.
pub proof fn lemma_commit_stops_before_rename(
    files: Map<Seq<char>, Seq<u8>>,
    final_path: Seq<char>,
    tmp_path: Seq<char>,
)
    requires
        !files.contains_key(final_path),
    ensures
        run_ops(files, commit_ops(final_path, tmp_path)) == files,
{
}

/// Discarding leaves the installed binary as it was and removes the download.
pub proof fn lemma_discard_keeps_binary(
    files: Map<Seq<char>, Seq<u8>>,
    final_path: Seq<char>,
    tmp_path: Seq<char>,
)
    requires
        final_path != tmp_path,
    ensures
        ({
            let after = run_ops(files, discard_ops(tmp_path));
            &&& after.contains_key(final_path) == files.contains_key(final_path)
            &&& files.contains_key(final_path) ==> after[final_path] == files[final_path]
            &&& !after.contains_key(tmp_path)
        }),
{
    let ops = discard_ops(tmp_path);
    if files.contains_key(tmp_path) {
        let f1 = files.remove(tmp_path);
        assert(apply_op(files, ops[0]) == Some(f1));
        assert(ops.drop_first() =~= Seq::<OpModel>::empty());
        assert(run_ops(f1, ops.drop_first()) == f1);
    }
}

} // verus!
