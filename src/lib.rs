//! Air-quality telemetry: an ingest store for sensor readings, the
//! "latest reading" and "history window" policies, and the time text that the
//! query replies carry.

mod clock;
mod laws;
mod reading;
mod reply;
mod store;

pub use clock::{
    format_at_offset, formattable, in_calendar, local_text_of, time_format, utc_clock_text,
    TimeError, MAX_SECONDS, MIN_SECONDS, OFFSET_BOUND,
};
pub use laws::{law_latest_is_greatest_timestamp, law_status_after_insert, lemma_latest_unique};
pub use reading::{
    is_history_window, is_latest, newer, sorted_newest_first, Reading, HISTORY_LIMIT,
};
pub use reply::{charts, reports, HistoryEntry, Status, StatusData};
pub use store::{insert_step, Store};
