use vstd::prelude::*;

use crate::clock::{formattable, in_calendar, local_text_of, time_format, TimeError};
use crate::laws::lemma_latest_unique;
use crate::reading::{is_history_window, is_latest, Reading, HISTORY_LIMIT};
use crate::store::Store;

verus! {

/// What the status query reports of the latest reading.
#[derive(Clone, Debug, PartialEq, Eq)]
pub struct StatusData {
    pub co2: i32,
    pub tvoc: i32,
    /// Local wall-clock time, `YYYY-MM-DD HH:MM:SS`.
    pub time: String,
    pub id: u64,
}

/// The status query's answer: nothing stored yet, or the latest reading.
#[derive(Clone, Debug, PartialEq, Eq)]
pub enum Status {
    NoData,
    Latest(StatusData),
}

/// One point of the history chart.
#[derive(Clone, Debug, PartialEq, Eq)]
pub struct HistoryEntry {
    /// Local wall-clock time, `YYYY-MM-DD HH:MM:SS`.
    pub time: String,
    pub co2: i32,
    pub tvoc: i32,
}

/// `d` reports reading `l`.
pub open spec fn reports(d: StatusData, l: Reading) -> bool {
    &&& d.co2 == l.co2
    &&& d.tvoc == l.tvoc
    &&& d.id == l.id
    &&& local_text_of(l.timestamp, d.time@)
}

/// `e` charts reading `l`.
pub open spec fn charts(e: HistoryEntry, l: Reading) -> bool {
    &&& e.co2 == l.co2
    &&& e.tvoc == l.tvoc
    &&& local_text_of(l.timestamp, e.time@)
}

impl Store {
    /// The status reply: the latest reading with its local time, or `NoData`
    /// on an empty store. Fails only where that reading's timestamp has no
    /// calendar time.
    pub fn get_latest(&self) -> (r: Result<Status, TimeError>)
        requires
            self.wf(),
        ensures
            self@.len() == 0 ==> r == Ok::<Status, TimeError>(Status::NoData),
            r matches Ok(Status::Latest(d)) ==> exists|l: Reading|
                #[trigger] is_latest(self@, l) && reports(d, l),
            r matches Ok(Status::NoData) ==> self@.len() == 0,
            r is Err ==> exists|l: Reading| #[trigger] is_latest(self@, l) && !formattable(l.timestamp),
            forall|l: Reading|
                #[trigger] is_latest(self@, l) && !in_calendar(l.timestamp as int) ==> r is Err,
    {
        match self.latest() {
            None => Ok(Status::NoData),
            Some(l) => match time_format(l.timestamp) {
                Ok(time) => {
                    let d = StatusData { co2: l.co2, tvoc: l.tvoc, time, id: l.id };
                    proof {
                        assert(is_latest(self@, l) && reports(d, l));
                        assert forall|m: Reading| #[trigger] is_latest(self@, m) implies in_calendar(
                            m.timestamp as int,
                        ) by {
                            lemma_latest_unique(self@, m, l);
                        }
                    }
                    Ok(Status::Latest(d))
                },
                Err(e) => {
                    proof {
                        assert(is_latest(self@, l));
                    }
                    Err(e)
                },
            },
        }
    }

    /// The history chart: the history window, newest first, each reading
    /// with its local time. Fails only where one of those readings has no
    /// calendar time.
    pub fn get_history_chart(&self) -> (r: Result<Vec<HistoryEntry>, TimeError>)
        requires
            self.wf(),
        ensures
            r matches Ok(v) ==> exists|w: Seq<Reading>|
                #[trigger] is_history_window(self@, w) && v@.len() == w.len() && forall|i: int|
                    0 <= i < w.len() ==> charts(#[trigger] v@[i], w[i]),
            r is Err ==> exists|w: Seq<Reading>|
                #[trigger] is_history_window(self@, w) && exists|i: int|
                    0 <= i < w.len() && !formattable(#[trigger] w[i].timestamp),
            r matches Ok(v) ==> v@.len() <= HISTORY_LIMIT,
            (exists|k: int|
                0 <= k < self@.len() && k < HISTORY_LIMIT && !in_calendar(
                    #[trigger] self@[k].timestamp as int,
                )) ==> r is Err,
            self@.len() == 0 ==> (r matches Ok(v) && v@.len() == 0),
    {
        let w = self.history();
        let mut v: Vec<HistoryEntry> = Vec::new();
        let mut i: usize = 0;
        while i < w.len()
            invariant
                is_history_window(self@, w@),
                self@.len() == 0 ==> w@.len() == 0,
                i <= w@.len(),
                v@.len() == i,
                forall|j: int| 0 <= j < i ==> charts(#[trigger] v@[j], w@[j]),
                forall|j: int| 0 <= j < w@.len() ==> #[trigger] w@[j] == self@[j],
                forall|j: int| 0 <= j < i ==> in_calendar(#[trigger] w@[j].timestamp as int),
                w@.len() == self@.len() || w@.len() == HISTORY_LIMIT,
            decreases w@.len() - i,
        {
            let l = w[i];
            match time_format(l.timestamp) {
                Ok(time) => {
                    v.push(HistoryEntry { time, co2: l.co2, tvoc: l.tvoc });
                },
                Err(e) => {
                    proof {
                        assert(!formattable(w@[i as int].timestamp));
                    }
                    return Err(e);
                },
            }
            i = i + 1;
        }
        proof {
            assert forall|k: int| 0 <= k < self@.len() && k < HISTORY_LIMIT implies in_calendar(
                #[trigger] self@[k].timestamp as int,
            ) by {
                assert(w@[k] == self@[k]);
            }
        }
        Ok(v)
    }
}

} // verus!
