//! Stale-file sweeper: the selection rule of the periodic local-disk
//! cleanup.
//!
//! The backend integration materializes attachment bytes under per-credential
//! "documents" directories and never removes them, so a timer walks that
//! tree and deletes regular files older than a fixed age threshold. The walk
//! and the deletions are I/O performed by the surrounding process; this
//! module decides, from each file's observed metadata alone, which files are
//! due. A file whose metadata could not be read, a non-regular entry, or a
//! young file is left untouched, and because the decision is per file, one
//! undeletable or unreadable file never stops the rest of the sweep.

use vstd::prelude::*;

verus! {

/// The age threshold: files older than one hour are swept.
pub const STALE_AGE_SECS: u64 = 3600;

/// What one directory entry looked like when the sweep examined it.
#[derive(Clone, Copy, Debug, PartialEq, Eq, Structural)]
pub struct SweepFile {
    /// Whether the entry is a regular file; only regular files are ever
    /// deleted, never directories.
    pub is_regular_file: bool,
    /// Seconds since the entry was created, or `None` if its metadata could
    /// not be read.
    pub age_secs: Option<u64>,
}

/// Whether a file is due for deletion under `threshold_secs`: a regular
/// file, with readable metadata, strictly older than the threshold.
pub open spec fn eligible(f: SweepFile, threshold_secs: u64) -> bool {
    &&& f.is_regular_file
    &&& f.age_secs matches Some(a) && a > threshold_secs
}

/// Whether a file of the given age is past the threshold.
pub fn is_stale(age_secs: u64, threshold_secs: u64) -> (r: bool)
    ensures
        r == (age_secs > threshold_secs),
{
    age_secs > threshold_secs
}

/// Selects, in order, the indices of exactly the files due for deletion
/// under `threshold_secs`. Every eligible file is selected no matter what
/// stands around it; nothing else is.
pub fn select_stale(files: &Vec<SweepFile>, threshold_secs: u64) -> (r: Vec<usize>)
    ensures
        forall|k: int|
            0 <= k < r@.len() ==> (#[trigger] r@[k]) < files@.len() && eligible(
                files@[r@[k] as int],
                threshold_secs,
            ),
        forall|j: int|
            0 <= j < files@.len() && eligible(#[trigger] files@[j], threshold_secs)
                ==> exists|k: int| 0 <= k < r@.len() && r@[k] == j,
        forall|a: int, b: int| 0 <= a < b < r@.len() ==> r@[a] < r@[b],
{
    let n = files.len();
    let mut r: Vec<usize> = Vec::new();
    let mut i: usize = 0;
    while i < n
        invariant
            i <= n,
            n == files@.len(),
            forall|k: int|
                0 <= k < r@.len() ==> (#[trigger] r@[k]) < i && eligible(
                    files@[r@[k] as int],
                    threshold_secs,
                ),
            forall|j: int|
                0 <= j < i && eligible(#[trigger] files@[j], threshold_secs) ==> exists|k: int|
                    0 <= k < r@.len() && r@[k] == j,
            forall|a: int, b: int| 0 <= a < b < r@.len() ==> r@[a] < r@[b],
        decreases n - i,
    {
        let f = files[i];
        let due = match f.age_secs {
            Some(a) => f.is_regular_file && is_stale(a, threshold_secs),
            None => false,
        };
        if due {
            let ghost prev = r@;
            r.push(i);
            proof {
                assert forall|j: int|
                    0 <= j < i + 1 && eligible(#[trigger] files@[j], threshold_secs) implies exists|k: int|
                    0 <= k < r@.len() && r@[k] == j by {
                    if j < i {
                        let k = choose|k: int| 0 <= k < prev.len() && prev[k] == j;
                        assert(r@[k] == j);
                    } else {
                        assert(r@[r@.len() - 1] == i as usize);
                    }
                }
            }
        }
        i += 1;
    }
    r
}

} // verus!
