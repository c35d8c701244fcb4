//! Decisions behind the application's commands: what a drop of paths onto
//! the window selects.

use vstd::prelude::*;
use crate::compress::InputSource;
use crate::text::{chars_of, push_chars, string_of};

verus! {

/// What a dropped path turned out to be.
#[derive(Debug, Clone, Copy, PartialEq, Eq, Structural)]
pub enum DroppedKind {
    Directory,
    File,
    Other,
}

/// A dropped path and what it is.
pub struct DroppedPath {
    pub path: String,
    pub kind: DroppedKind,
}

/// The paths of the first `k` dropped entries of a kind, in order.
pub open spec fn paths_of_kind(entries: Seq<DroppedPath>, kind: DroppedKind, k: int) -> Seq<Seq<char>>
    decreases k,
{
    if k <= 0 {
        Seq::empty()
    } else if entries[k - 1].kind == kind {
        paths_of_kind(entries, kind, k - 1).push(entries[k - 1].path@)
    } else {
        paths_of_kind(entries, kind, k - 1)
    }
}

/// The model of an input source.
pub open spec fn input_view(i: InputSource) -> (bool, Seq<Seq<char>>) {
    match i {
        InputSource::Folder { path } => (true, seq![path@]),
        InputSource::Files { paths } => (false, paths@.map_values(|p: String| p@)),
    }
}

/// What a drop selects: nothing dropped is an error; a single folder alone
/// is a folder input; otherwise the dropped files, if any; otherwise an
/// error.
pub open spec fn dropped_input_of(entries: Seq<DroppedPath>) -> Result<(bool, Seq<Seq<char>>), Seq<char>> {
    let n = entries.len() as int;
    let files = paths_of_kind(entries, DroppedKind::File, n);
    let folders = paths_of_kind(entries, DroppedKind::Directory, n);
    if n == 0 {
        Err("未检测到拖拽路径"@)
    } else if folders.len() == 1 && files.len() == 0 {
        Ok((true, folders))
    } else if files.len() > 0 {
        Ok((false, files))
    } else {
        Err("未检测到可处理的文件或文件夹"@)
    }
}

/// Decides what a drop selects (see `dropped_input_of`).
pub fn resolve_dropped_input(entries: Vec<DroppedPath>) -> (r: Result<InputSource, String>)
    ensures
        match (r, dropped_input_of(entries@)) {
            (Ok(i), Ok(v)) => input_view(i) == v,
            (Err(e), Err(m)) => e@ == m,
            _ => false,
        },
{
    let ghost all = entries@;
    let n = entries.len();
    if n == 0 {
        return Err(String::from_str("未检测到拖拽路径"));
    }
    let mut files: Vec<String> = Vec::new();
    let mut folders: Vec<String> = Vec::new();
    let mut i: usize = 0;
    while i < n
        invariant
            i <= n == entries@.len(),
            entries@ == all,
            files@.map_values(|p: String| p@) == paths_of_kind(all, DroppedKind::File, i as int),
            folders@.map_values(|p: String| p@) == paths_of_kind(all, DroppedKind::Directory, i as int),
        decreases n - i,
    {
        let kind = entries[i].kind;
        let path = entries[i].path.clone();
        if kind == DroppedKind::Directory {
            folders.push(path);
        } else if kind == DroppedKind::File {
            files.push(path);
        }
        i = i + 1;
        assert(files@.map_values(|p: String| p@) =~= paths_of_kind(all, DroppedKind::File, i as int));
        assert(folders@.map_values(|p: String| p@) =~= paths_of_kind(all, DroppedKind::Directory, i as int));
    }
    if folders.len() == 1 && files.len() == 0 {
        let path = folders.remove(0);
        assert(seq![path@] =~= folders@.map_values(|p: String| p@).insert(0, path@));
        return Ok(InputSource::Folder { path });
    }
    if files.len() > 0 {
        return Ok(InputSource::Files { paths: files });
    }
    Err(String::from_str("未检测到可处理的文件或文件夹"))
}

/// The error of a dropped path whose metadata could not be read.
pub fn dropped_path_error(raw: &str, error: &str) -> (r: String)
    ensures
        r@ == "读取拖拽路径失败: "@ + raw@ + " ("@ + error@ + ")"@,
{
    let mut v = chars_of("读取拖拽路径失败: ");
    push_chars(&mut v, raw);
    push_chars(&mut v, " (");
    push_chars(&mut v, error);
    push_chars(&mut v, ")");
    string_of(v)
}

} // verus!
