use vstd::prelude::*;

use crate::config::{CopyFile, CopyFileView};
use crate::paths::{join_path, join_spec, strip_path_prefix, strip_prefix_spec};
use crate::worktree::WorktreeError;

verus! {

/// For a file that a glob pattern matched under `src_root`: its path relative
/// to the source root, joined onto `dst_root` as the destination, and recorded
/// with that relative path as both source and target. A match outside the
/// source root fails (`prefix not found`).
pub open spec fn glob_copy_target_spec(src_root: Seq<char>, dst_root: Seq<char>, matched: Seq<char>) -> Option<
    (Seq<char>, CopyFileView),
> {
    match strip_prefix_spec(matched, src_root) {
        Some(rel) => Some((join_spec(dst_root, rel), CopyFileView { from: rel, to: rel })),
        None => None,
    }
}

/// Where a file that a glob pattern matched is copied, and the mapping that
/// records it.
pub fn glob_copy_target(src_root: &str, dst_root: &str, matched: &str) -> (r: Result<
    (String, CopyFile),
    WorktreeError,
>)
    ensures
        match r {
            Ok((dst, rec)) => glob_copy_target_spec(src_root@, dst_root@, matched@) == Some(
                (dst@, rec@),
            ),
            Err(e) => glob_copy_target_spec(src_root@, dst_root@, matched@) is None && (e matches WorktreeError::CommandFailed { message: m } && m@ == "prefix not found"@),
        },
{
    match strip_path_prefix(matched, src_root) {
        Some(rel) => {
            let dst = join_path(dst_root, rel.as_str());
            let rec = CopyFile { from: rel.clone(), to: rel };
            Ok((dst, rec))
        },
        None => Err(WorktreeError::CommandFailed { message: "prefix not found".to_owned() }),
    }
}

/// The source and destination of an explicit file mapping: its `from` joined
/// onto the source root, its `to` joined onto the destination root.
pub fn mapping_paths(src_root: &str, dst_root: &str, file: &CopyFile) -> (r: (String, String))
    ensures
        r.0@ == join_spec(src_root@, file.from@),
        r.1@ == join_spec(dst_root@, file.to@),
{
    (join_path(src_root, file.from.as_str()), join_path(dst_root, file.to.as_str()))
}

/// What becomes of a glob match: one that is not a file (a directory) is
/// passed over (`Ok(None)`); a file is copied as [`glob_copy_target`] says.
pub fn glob_entry_target(src_root: &str, dst_root: &str, matched: &str, is_file: bool) -> (r: Result<
    Option<(String, CopyFile)>,
    WorktreeError,
>)
    ensures
        match r {
            Ok(None) => !is_file,
            Ok(Some((dst, rec))) => is_file && glob_copy_target_spec(src_root@, dst_root@, matched@)
                == Some((dst@, rec@)),
            Err(e) => is_file && glob_copy_target_spec(src_root@, dst_root@, matched@) is None && (e matches WorktreeError::CommandFailed { message: m } && m@ == "prefix not found"@),
        },
{
    if !is_file {
        return Ok(None);
    }
    match glob_copy_target(src_root, dst_root, matched) {
        Ok(t) => Ok(Some(t)),
        Err(e) => Err(e),
    }
}

/// What becomes of an explicit mapping: a mapping whose source does not exist
/// is passed over (`None`); otherwise its source and destination, as
/// [`mapping_paths`] gives them.
pub fn mapping_target(src_root: &str, dst_root: &str, file: &CopyFile, source_exists: bool) -> (r:
    Option<(String, String)>)
    ensures
        match r {
            None => !source_exists,
            Some((src, dst)) => source_exists && src@ == join_spec(src_root@, file.from@) && dst@
                == join_spec(dst_root@, file.to@),
        },
{
    if !source_exists {
        return None;
    }
    Some(mapping_paths(src_root, dst_root, file))
}

} // verus!
