//! Recording-history bookkeeping: where the metadata lives and which
//! entry to evict when the history is full. Reading and writing the
//! files themselves is unverified glue around these decisions.

use vstd::prelude::*;

verus! {

/// How many recordings the history keeps at most.
pub const HISTORY_CAPACITY: usize = 10;

/// Manages the directory that holds one metadata file per recording.
pub struct RecordingHistory {
    /// The history directory, below the application's data directory.
    pub history_dir: String,
}

impl RecordingHistory {
    /// Places the history below the given data directory.
    pub fn new(data_dir: &str) -> (h: Self)
        ensures
            h.history_dir@ == data_dir@ + "/recording_history"@,
    {
        let dir = data_dir.to_owned().concat("/recording_history");
        RecordingHistory { history_dir: dir }
    }
}

/// Which recording to delete before saving a new one: once the history
/// holds its capacity, the oldest entry goes (on a tie, the earliest in
/// enumeration order, matching a stable sort by creation time).
pub fn eviction_candidate(created_at_ms: &Vec<i64>) -> (r: Option<usize>)
    ensures
        created_at_ms@.len() < HISTORY_CAPACITY ==> r is None,
        created_at_ms@.len() >= HISTORY_CAPACITY ==> (r matches Some(i) && 0 <= i
            < created_at_ms@.len() && (forall|j: int|
            0 <= j < created_at_ms@.len() ==> created_at_ms@[j] >= created_at_ms@[i as int])
            && (forall|j: int| 0 <= j < i ==> created_at_ms@[j] > created_at_ms@[i as int])),
{
    if created_at_ms.len() < HISTORY_CAPACITY {
        return None;
    }
    let mut best: usize = 0;
    let mut i: usize = 1;
    while i < created_at_ms.len()
        invariant
            created_at_ms@.len() >= 1,
            0 <= best < i <= created_at_ms@.len(),
            forall|j: int| 0 <= j < i ==> created_at_ms@[j] >= created_at_ms@[best as int],
            forall|j: int| 0 <= j < best ==> created_at_ms@[j] > created_at_ms@[best as int],
        decreases created_at_ms@.len() - i,
    {
        if created_at_ms[i] < created_at_ms[best] {
            best = i;
        }
        i = i + 1;
    }
    Some(best)
}

/// Which recording is the most recent (for retrying the last take): the
/// index of the maximum creation time, the latest in enumeration order on
/// a tie (matching a stable descending sort by creation time).
pub fn latest_recording_index(created_at_ms: &Vec<i64>) -> (r: Option<usize>)
    ensures
        created_at_ms@.len() == 0 ==> r is None,
        created_at_ms@.len() > 0 ==> (r matches Some(i) && 0 <= i < created_at_ms@.len() && (
        forall|j: int|
            0 <= j < created_at_ms@.len() ==> created_at_ms@[j] <= created_at_ms@[i as int]) && (
        forall|j: int|
            i < j < created_at_ms@.len() ==> created_at_ms@[j] < created_at_ms@[i as int])),
{
    if created_at_ms.len() == 0 {
        return None;
    }
    let mut best: usize = 0;
    let mut i: usize = 1;
    while i < created_at_ms.len()
        invariant
            created_at_ms@.len() >= 1,
            0 <= best < i <= created_at_ms@.len(),
            forall|j: int| 0 <= j < i ==> created_at_ms@[j] <= created_at_ms@[best as int],
            forall|j: int| best < j < i ==> created_at_ms@[j] < created_at_ms@[best as int],
        decreases created_at_ms@.len() - i,
    {
        if created_at_ms[i] >= created_at_ms[best] {
            best = i;
        }
        i = i + 1;
    }
    Some(best)
}

} // verus!
