use vstd::prelude::*;

verus! {

/// Most rows that a history query hands back: one reading every ten seconds
/// over a day.
pub const HISTORY_LIMIT: usize = 8640;

/// One stored sensor reading.
#[derive(Clone, Copy, Debug, PartialEq, Eq, Structural)]
pub struct Reading {
    /// Assigned by the store on insert: unique, counting up from 1.
    pub id: u64,
    /// Unix epoch seconds, as the sensor reported them.
    pub timestamp: i64,
    pub co2: i32,
    pub tvoc: i32,
}

/// `a` comes before `b` in sensor time; equal timestamps are ordered by the
/// higher id.
pub open spec fn newer(a: Reading, b: Reading) -> bool {
    a.timestamp > b.timestamp || (a.timestamp == b.timestamp && a.id > b.id)
}

/// Every entry is newer than every entry after it.
pub open spec fn sorted_newest_first(s: Seq<Reading>) -> bool {
    forall|i: int, j: int| 0 <= i < j < s.len() ==> #[trigger] newer(s[i], s[j])
}

/// `r` is a stored reading with the greatest timestamp (highest id on a tie).
pub open spec fn is_latest(rows: Seq<Reading>, r: Reading) -> bool {
    &&& rows.contains(r)
    &&& forall|k: int| 0 <= k < rows.len() && rows[k] != r ==> newer(r, #[trigger] rows[k])
}

/// `w` holds the newest `min(|rows|, HISTORY_LIMIT)` stored readings, newest
/// first.
pub open spec fn is_history_window(rows: Seq<Reading>, w: Seq<Reading>) -> bool {
    &&& w.len() == if rows.len() < HISTORY_LIMIT { rows.len() } else { HISTORY_LIMIT as nat }
    &&& sorted_newest_first(w)
    &&& forall|i: int| 0 <= i < w.len() ==> rows.contains(#[trigger] w[i])
    &&& forall|k: int|
        0 <= k < rows.len() && !w.contains(#[trigger] rows[k]) ==> newer(w.last(), rows[k])
}

} // verus!
