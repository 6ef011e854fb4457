//! What the folder watcher does with a file-system event: re-index created
//! or modified files, forget removed ones, and follow renames.
use vstd::prelude::*;
use crate::paths::{file_name_of, file_name_or_empty};
use crate::text::concat_str;

verus! {

/// The error returned when the file-system watcher cannot be created.
pub fn watcher_init_error(detail: &str) -> (r: String)
    ensures
        r@ == "Watcher init error: "@ + detail@,
{
    concat_str("Watcher init error: ", detail)
}

/// The error returned when the watcher cannot watch the folder.
pub fn watcher_watch_error(detail: &str) -> (r: String)
    ensures
        r@ == "Watcher watch error: "@ + detail@,
{
    concat_str("Watcher watch error: ", detail)
}

/// The kinds of file-system events that the watcher tells apart.
pub enum WatchEventKind {
    /// A file was created.
    CreateFile,
    /// A file's contents changed.
    ModifyData,
    /// A file was removed.
    RemoveFile,
    /// Something was removed.
    RemoveAny,
    /// A rename, reported with the old and the new path.
    RenameBoth,
    /// Anything else.
    Other,
}

/// What the index must do for one event.
pub enum WatchAction {
    /// Read the file again and update its row and metadata.
    Reindex(String),
    /// Remove the file's row (its metadata goes with it).
    Forget(String),
    /// Move the row to a new path and file name.
    Rename { old_path: String, new_path: String, new_filename: String },
}

/// The file name recorded after a rename to `path`.
pub open spec fn renamed_name(path: Seq<char>) -> Seq<char> {
    match file_name_of(path) {
        Some(n) => n,
        None => Seq::empty(),
    }
}

/// Plans the index updates for an event that concerns `paths`.
pub fn plan_watch_event(kind: &WatchEventKind, paths: &Vec<String>) -> (r: Vec<WatchAction>)
    ensures
        match kind {
            WatchEventKind::CreateFile | WatchEventKind::ModifyData => r.len() == paths.len() && (
            forall|i: int|
                0 <= i < r.len() ==> ((#[trigger] r@[i]) matches WatchAction::Reindex(p) && p@
                    == paths@[i]@)),
            WatchEventKind::RemoveFile | WatchEventKind::RemoveAny => r.len() == paths.len() && (
            forall|i: int|
                0 <= i < r.len() ==> ((#[trigger] r@[i]) matches WatchAction::Forget(p) && p@
                    == paths@[i]@)),
            WatchEventKind::RenameBoth => if paths.len() >= 2 {
                &&& r.len() == 1
                &&& r@[0] matches WatchAction::Rename { old_path, new_path, new_filename }
                &&& old_path@ == paths@[0]@
                &&& new_path@ == paths@[1]@
                &&& new_filename@ == renamed_name(paths@[1]@)
            } else {
                r.len() == 0
            },
            WatchEventKind::Other => r.len() == 0,
        },
{
    let mut out: Vec<WatchAction> = Vec::new();
    match kind {
        WatchEventKind::CreateFile | WatchEventKind::ModifyData | WatchEventKind::RemoveFile
        | WatchEventKind::RemoveAny => {
            let forget = match kind {
                WatchEventKind::RemoveFile | WatchEventKind::RemoveAny => true,
                _ => false,
            };
            let mut i: usize = 0;
            while i < paths.len()
                invariant
                    i <= paths.len(),
                    out.len() == i,
                    forall|k: int|
                        0 <= k < i ==> if forget {
                            (#[trigger] out@[k]) matches WatchAction::Forget(p) && p@ == paths@[k]@
                        } else {
                            (#[trigger] out@[k]) matches WatchAction::Reindex(p) && p@ == paths@[k]@
                        },
                decreases paths.len() - i,
            {
                let p = paths[i].clone();
                if forget {
                    out.push(WatchAction::Forget(p));
                } else {
                    out.push(WatchAction::Reindex(p));
                }
                i = i + 1;
            }
        },
        WatchEventKind::RenameBoth => {
            if paths.len() >= 2 {
                let new_filename = file_name_or_empty(paths[1].as_str());
                out.push(
                    WatchAction::Rename {
                        old_path: paths[0].clone(),
                        new_path: paths[1].clone(),
                        new_filename,
                    },
                );
            }
        },
        WatchEventKind::Other => {},
    }
    out
}

} // verus!
