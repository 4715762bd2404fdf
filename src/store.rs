use vstd::prelude::*;

use crate::reading::{
    is_history_window, is_latest, newer, sorted_newest_first, Reading, HISTORY_LIMIT,
};

verus! {

/// What one insert does to the stored readings: `r` joins them, with the next
/// id, and nothing else changes.
pub open spec fn insert_step(before: Seq<Reading>, after: Seq<Reading>, r: Reading) -> bool {
    &&& r.id == before.len() + 1
    &&& after.len() == before.len() + 1
    &&& forall|x: Reading| #[trigger] after.contains(x) <==> (before.contains(x) || x == r)
}

/// The readings received so far. They are kept newest first, so that the
/// latest reading and the history window are prefixes.
pub struct Store {
    rows: Vec<Reading>,
}

impl View for Store {
    type V = Seq<Reading>;

    /// The stored readings, newest first.
    closed spec fn view(&self) -> Seq<Reading> {
        self.rows@
    }
}

impl Store {
    /// Ids run from 1 to the number of readings, each used once, and the
    /// readings are in newest-first order.
    pub open spec fn wf(&self) -> bool {
        &&& sorted_newest_first(self@)
        &&& forall|i: int| 0 <= i < self@.len() ==> 1 <= #[trigger] self@[i].id <= self@.len()
        &&& forall|i: int, j: int|
            0 <= i < j < self@.len() ==> #[trigger] self@[i].id != #[trigger] self@[j].id
    }

    /// An empty store.
    pub fn new() -> (s: Store)
        ensures
            s.wf(),
            s@.len() == 0,
    {
        Store { rows: Vec::new() }
    }

    /// Number of stored readings.
    pub fn len(&self) -> (n: usize)
        ensures
            n == self@.len(),
    {
        self.rows.len()
    }

    /// Stores a reading as received, with no check on its values, and hands
    /// back the stored row with its new id.
    pub fn update(&mut self, timestamp: i64, co2: i32, tvoc: i32) -> (r: Reading)
        requires
            old(self).wf(),
            old(self)@.len() < u64::MAX,
        ensures
            final(self).wf(),
            insert_step(old(self)@, final(self)@, r),
            r.timestamp == timestamp,
            r.co2 == co2,
            r.tvoc == tvoc,
    {
        let n = self.rows.len();
        let r = Reading { id: n as u64 + 1, timestamp, co2, tvoc };
        let mut pos: usize = 0;
        while pos < n && self.rows[pos].timestamp > timestamp
            invariant
                n == self.rows@.len(),
                pos <= n,
                forall|k: int| 0 <= k < pos ==> #[trigger] self.rows@[k].timestamp > timestamp,
            decreases n - pos,
        {
            pos = pos + 1;
        }
        let ghost before = self.rows@;
        proof {
            assert forall|k: int| pos <= k < n implies #[trigger] before[k].timestamp <= timestamp by {
                if k > pos {
                    assert(newer(before[pos as int], before[k]));
                }
            }
        }
        self.rows.insert(pos, r);
        proof {
            let after = self.rows@;
            assert forall|x: Reading| #[trigger] after.contains(x) <==> (before.contains(x) || x == r) by {
                if after.contains(x) {
                    let k = choose|k: int| 0 <= k < after.len() && after[k] == x;
                    if k < pos {
                        assert(before[k] == x);
                    } else if k > pos {
                        assert(before[k - 1] == x);
                    }
                }
                if before.contains(x) {
                    let k = choose|k: int| 0 <= k < before.len() && before[k] == x;
                    if k < pos {
                        assert(after[k] == x);
                    } else {
                        assert(after[k + 1] == x);
                    }
                }
                if x == r {
                    assert(after[pos as int] == r);
                }
            }
            assert forall|i: int, j: int| 0 <= i < j < after.len() implies #[trigger] newer(after[i], after[j]) by {
                if j < pos {
                    assert(newer(before[i], before[j]));
                } else if j == pos {
                    assert(before[i].timestamp > timestamp);
                } else if i < pos {
                    assert(newer(before[i], before[j - 1]));
                } else if i == pos {
                    assert(before[j - 1].timestamp <= timestamp);
                    assert(before[j - 1].id <= n);
                } else {
                    assert(newer(before[i - 1], before[j - 1]));
                }
            }
            assert forall|i: int| 0 <= i < after.len() implies 1 <= #[trigger] after[i].id <= after.len() by {
                if i < pos {
                    assert(after[i] == before[i]);
                } else if i > pos {
                    assert(after[i] == before[i - 1]);
                }
            }
            assert forall|i: int, j: int| 0 <= i < j < after.len() implies #[trigger] after[i].id != #[trigger] after[j].id by {
                if i != pos && j != pos {
                    let bi = if i < pos { i } else { i - 1 };
                    let bj = if j < pos { j } else { j - 1 };
                    assert(after[i] == before[bi] && after[j] == before[bj]);
                    assert(before[bi].id != before[bj].id);
                } else if i == pos {
                    assert(after[j] == before[j - 1]);
                } else {
                    assert(after[i] == before[i]);
                }
            }
        }
        r
    }

    /// The reading with the greatest timestamp, the highest id among equal
    /// ones; `None` when nothing is stored.
    pub fn latest(&self) -> (r: Option<Reading>)
        requires
            self.wf(),
        ensures
            r is None <==> self@.len() == 0,
            r matches Some(l) ==> is_latest(self@, l),
    {
        if self.rows.len() == 0 {
            None
        } else {
            let l = self.rows[0];
            proof {
                assert(self@[0] == l);
                assert forall|k: int| 0 <= k < self@.len() && self@[k] != l implies newer(l, #[trigger] self@[k]) by {
                    assert(k != 0);
                }
            }
            Some(l)
        }
    }

    /// The newest readings, newest first, at most `HISTORY_LIMIT` of them.
    pub fn history(&self) -> (w: Vec<Reading>)
        requires
            self.wf(),
        ensures
            is_history_window(self@, w@),
            w@.len() <= HISTORY_LIMIT,
            forall|i: int, j: int| 0 <= i < j < w@.len() ==> w@[i].timestamp >= w@[j].timestamp,
            w@.len() == 0 <==> self@.len() == 0,
            forall|i: int| 0 <= i < w@.len() ==> #[trigger] w@[i] == self@[i],
    {
        let n: usize = if self.rows.len() < HISTORY_LIMIT { self.rows.len() } else { HISTORY_LIMIT };
        let mut w: Vec<Reading> = Vec::new();
        let mut i: usize = 0;
        while i < n
            invariant
                n <= self@.len(),
                i <= n,
                w@ == self@.take(i as int),
            decreases n - i,
        {
            w.push(self.rows[i]);
            i = i + 1;
            proof {
                assert(w@ =~= self@.take(i as int));
            }
        }
        proof {
            let rows = self@;
            assert forall|i: int, j: int| 0 <= i < j < w@.len() implies #[trigger] newer(w@[i], w@[j]) by {
                assert(newer(rows[i], rows[j]));
            }
            assert forall|i: int| 0 <= i < w@.len() implies rows.contains(#[trigger] w@[i]) by {
                assert(rows[i] == w@[i]);
            }
            assert forall|k: int| 0 <= k < rows.len() && !w@.contains(#[trigger] rows[k]) implies newer(w@.last(), rows[k]) by {
                if k < n {
                    assert(w@[k] == rows[k]);
                } else {
                    assert(newer(rows[n - 1], rows[k]));
                }
            }
            assert forall|i: int, j: int| 0 <= i < j < w@.len() implies w@[i].timestamp >= w@[j].timestamp by {
                assert(newer(w@[i], w@[j]));
            }
        }
        w
    }
}

} // verus!
