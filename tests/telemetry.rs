use air_telemetry::{
    format_at_offset, time_format, HistoryEntry, Reading, Status, StatusData, Store, TimeError,
    HISTORY_LIMIT, MAX_SECONDS, MIN_SECONDS,
};

fn local_text(secs: i64) -> String {
    chrono::DateTime::from_timestamp(secs, 0)
        .unwrap()
        .with_timezone(&chrono::Local)
        .format("%Y-%m-%d %H:%M:%S")
        .to_string()
}

#[test]
fn update_echoes_stored_row_with_new_id() {
    let mut s = Store::new();
    let r = s.update(1700000000, 400, 50);
    assert_eq!(r, Reading { id: 1, timestamp: 1700000000, co2: 400, tvoc: 50 });
    let r2 = s.update(-5, -1, i32::MAX);
    assert_eq!(r2, Reading { id: 2, timestamp: -5, co2: -1, tvoc: i32::MAX });
    assert_eq!(s.len(), 2);
}

#[test]
fn status_after_insert_reports_that_reading() {
    let mut s = Store::new();
    s.update(1000, 1, 2);
    s.update(2000, 3, 4);
    let r = s.update(2500, 410, 60);
    assert_eq!(s.latest(), Some(r));
    assert_eq!(
        s.get_latest(),
        Ok(Status::Latest(StatusData { co2: 410, tvoc: 60, time: local_text(2500), id: 3 }))
    );
}

#[test]
fn latest_is_greatest_timestamp_in_either_order() {
    let mut s = Store::new();
    s.update(200, 2, 20);
    s.update(100, 1, 10);
    assert_eq!(s.latest(), Some(Reading { id: 1, timestamp: 200, co2: 2, tvoc: 20 }));

    let mut t = Store::new();
    t.update(100, 1, 10);
    t.update(200, 2, 20);
    assert_eq!(t.latest(), Some(Reading { id: 2, timestamp: 200, co2: 2, tvoc: 20 }));
}

#[test]
fn latest_tie_goes_to_highest_id() {
    let mut s = Store::new();
    s.update(50, 1, 1);
    s.update(50, 2, 2);
    s.update(10, 3, 3);
    assert_eq!(s.latest(), Some(Reading { id: 2, timestamp: 50, co2: 2, tvoc: 2 }));
}

#[test]
fn history_is_bounded_and_newest_first() {
    let mut s = Store::new();
    let n: i64 = HISTORY_LIMIT as i64 + 60;
    for k in 0..n {
        // timestamps out of order: odd steps go back in time
        let ts = if k % 2 == 0 { k * 10 } else { 1_000_000 - k };
        s.update(ts, k as i32, 0);
    }
    let w = s.history();
    assert_eq!(w.len(), HISTORY_LIMIT);
    for i in 1..w.len() {
        assert!(w[i - 1].timestamp >= w[i].timestamp);
    }
    let mut all: Vec<i64> = (0..n).map(|k| if k % 2 == 0 { k * 10 } else { 1_000_000 - k }).collect();
    all.sort_unstable_by(|a, b| b.cmp(a));
    let got: Vec<i64> = w.iter().map(|r| r.timestamp).collect();
    assert_eq!(got, all[..HISTORY_LIMIT].to_vec());
    let chart = s.get_history_chart().unwrap();
    assert_eq!(chart.len(), HISTORY_LIMIT);
}

#[test]
fn empty_store_gives_no_data_and_empty_history() {
    let s = Store::new();
    assert_eq!(s.latest(), None);
    assert!(s.history().is_empty());
    assert_eq!(s.get_latest(), Ok(Status::NoData));
    assert_eq!(s.get_history_chart(), Ok(vec![]));
}

#[test]
fn status_example_reading() {
    let mut s = Store::new();
    s.update(1700000000, 400, 50);
    assert_eq!(format_at_offset(1700000000, 0), Some("2023-11-14 22:13:20".to_string()));
    assert_eq!(
        s.get_latest(),
        Ok(Status::Latest(StatusData {
            co2: 400,
            tvoc: 50,
            time: local_text(1700000000),
            id: 1,
        }))
    );
}

#[test]
fn history_example_three_readings() {
    let mut s = Store::new();
    s.update(100, 1, 10);
    s.update(300, 3, 30);
    s.update(200, 2, 20);
    let ts: Vec<i64> = s.history().iter().map(|r| r.timestamp).collect();
    assert_eq!(ts, vec![300, 200, 100]);
    assert_eq!(
        s.get_history_chart(),
        Ok(vec![
            HistoryEntry { time: local_text(300), co2: 3, tvoc: 30 },
            HistoryEntry { time: local_text(200), co2: 2, tvoc: 20 },
            HistoryEntry { time: local_text(100), co2: 1, tvoc: 10 },
        ])
    );
}

#[test]
fn format_at_offset_shifts_the_clock() {
    assert_eq!(format_at_offset(0, 0), Some("1970-01-01 00:00:00".to_string()));
    assert_eq!(format_at_offset(0, 3600), Some("1970-01-01 01:00:00".to_string()));
    assert_eq!(format_at_offset(86399, -86399), Some("1970-01-01 00:00:00".to_string()));
    assert_eq!(format_at_offset(-1, 0), Some("1969-12-31 23:59:59".to_string()));
}

#[test]
fn format_at_offset_out_of_range() {
    assert_eq!(format_at_offset(i64::MAX, 1), None);
    assert_eq!(format_at_offset(i64::MAX, 0), None);
    assert_eq!(format_at_offset(i64::MIN, 0), None);
}

#[test]
fn time_format_matches_local_clock() {
    assert_eq!(time_format(1700000000), Ok(local_text(1700000000)));
    assert_eq!(time_format(0), Ok(local_text(0)));
}

#[test]
fn time_format_out_of_range_is_error() {
    assert_eq!(time_format(i64::MAX), Err(TimeError::OutOfRange));
    assert_eq!(time_format(i64::MIN), Err(TimeError::OutOfRange));
}

#[test]
fn unformattable_timestamp_fails_queries() {
    let mut s = Store::new();
    s.update(100, 1, 1);
    s.update(i64::MAX, 2, 2);
    assert_eq!(s.get_latest(), Err(TimeError::OutOfRange));
    assert_eq!(s.get_history_chart(), Err(TimeError::OutOfRange));
    // the row is still stored as received
    assert_eq!(s.latest(), Some(Reading { id: 2, timestamp: i64::MAX, co2: 2, tvoc: 2 }));
}

#[test]
fn format_at_offset_at_calendar_ends() {
    assert_eq!(format_at_offset(MAX_SECONDS, 0), Some("+262142-12-31 23:59:59".to_string()));
    assert_eq!(format_at_offset(MAX_SECONDS, 1), None);
    assert_eq!(format_at_offset(MAX_SECONDS - 1, 1), Some("+262142-12-31 23:59:59".to_string()));
    assert_eq!(format_at_offset(MIN_SECONDS, 0), Some("-262143-01-01 00:00:00".to_string()));
    assert_eq!(format_at_offset(MIN_SECONDS, -1), None);
}

#[test]
fn time_format_just_outside_calendar_is_error() {
    assert_eq!(time_format(MAX_SECONDS + 1), Err(TimeError::OutOfRange));
    assert_eq!(time_format(MIN_SECONDS - 1), Err(TimeError::OutOfRange));
}

#[test]
fn far_future_timestamp_is_reported() {
    let mut s = Store::new();
    s.update(100, 1, 1);
    let ts: i64 = 8_100_000_000_000;
    s.update(ts, 7, 8);
    assert_eq!(
        s.get_latest(),
        Ok(Status::Latest(StatusData { co2: 7, tvoc: 8, time: local_text(ts), id: 2 }))
    );
    assert_eq!(
        s.get_history_chart(),
        Ok(vec![
            HistoryEntry { time: local_text(ts), co2: 7, tvoc: 8 },
            HistoryEntry { time: local_text(100), co2: 1, tvoc: 1 },
        ])
    );
}
