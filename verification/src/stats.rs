//! Per-folder statistics assembly.
//!
//! The remote calls that count messages happen outside this core; their
//! outcomes are handed in per folder, and a failed folder is reported with
//! zero counts rather than dropped, so every monitored folder appears in the
//! result.

use vstd::prelude::*;

verus! {

/// Statistics for a single folder.
pub struct FolderStats {
    pub folder_name: String,
    pub unread_count: u32,
    pub total_count: u32,
}

/// Build one folder's statistics row from the remote call's outcome:
/// `Some((total, unread))` keeps the counts, `None` reports zeros.
pub fn folder_stats_row(folder: &str, outcome: Option<(u32, u32)>) -> (s: FolderStats)
    ensures
        s.folder_name@ == folder@,
        match outcome {
            Some(c) => s.total_count == c.0 && s.unread_count == c.1,
            None => s.total_count == 0 && s.unread_count == 0,
        },
{
    match outcome {
        Some((total_count, unread_count)) => FolderStats {
            folder_name: folder.to_owned(),
            unread_count,
            total_count,
        },
        None => FolderStats { folder_name: folder.to_owned(), unread_count: 0, total_count: 0 },
    }
}

/// Assemble the statistics rows for all folders, one row per folder in
/// order, zeros for every folder whose counts could not be fetched.
pub fn collect_folder_stats(folders: &Vec<String>, outcomes: &Vec<Option<(u32, u32)>>) -> (r: Vec<
    FolderStats,
>)
    requires
        folders@.len() == outcomes@.len(),
    ensures
        r@.len() == folders@.len(),
        forall|i: int|
            0 <= i < r@.len() ==> {
                let row = #[trigger] r@[i];
                &&& row.folder_name@ == folders@[i]@
                &&& match outcomes@[i] {
                    Some(c) => row.total_count == c.0 && row.unread_count == c.1,
                    None => row.total_count == 0 && row.unread_count == 0,
                }
            },
{
    let mut r: Vec<FolderStats> = Vec::new();
    let n = folders.len();
    let mut i: usize = 0;
    while i < n
        invariant
            i <= n,
            n == folders@.len(),
            n == outcomes@.len(),
            r@.len() == i,
            forall|k: int|
                0 <= k < i ==> {
                    let row = #[trigger] r@[k];
                    &&& row.folder_name@ == folders@[k]@
                    &&& match outcomes@[k] {
                        Some(c) => row.total_count == c.0 && row.unread_count == c.1,
                        None => row.total_count == 0 && row.unread_count == 0,
                    }
                },
        decreases n - i,
    {
        r.push(folder_stats_row(folders[i].as_str(), outcomes[i]));
        i = i + 1;
    }
    r
}

} // verus!
