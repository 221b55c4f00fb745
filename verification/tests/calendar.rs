use auto_trader::clock::{
    current_ist_timestamp_string, duration_until_market_close, duration_until_market_open,
    entry_cutoff_at, is_entry_cutoff_passed, is_market_open, is_market_open_at, ist_date_at,
    ist_offset, ist_timestamp_at, market_close_at, next_market_open_after, next_market_open_ist,
    now_ist, squareoff_time_at, today_ist, today_market_close_ist, until_market_close,
    until_market_open, IstTime,
};
use auto_trader::login::{is_weekend, secs_until, usable_session, KotakSessionRow};

/// The second of a day of November 2026 in India; the 16th is a Monday.
fn at(day: i64, hour: i64, minute: i64, second: i64) -> IstTime {
    // The first of November 2026 is day 20758 of the count from 1970.
    let day = 20_758 + day - 1;
    IstTime { secs: day * 86_400 + hour * 3_600 + minute * 60 + second, nanos: 0 }
}

#[test]
fn moments_are_written() {
    assert_eq!(ist_timestamp_at(at(16, 9, 15, 30)), "2026-11-16 09:15:30");
    assert_eq!(ist_date_at(at(16, 9, 15, 30)), "2026-11-16");
    assert_eq!(ist_offset(), 19_800);
    assert_eq!(current_ist_timestamp_string().len(), 19);
}

#[test]
fn the_market_keeps_its_hours() {
    assert!(!is_market_open_at(at(16, 9, 14, 59)));
    assert!(is_market_open_at(at(16, 9, 15, 0)));
    assert!(is_market_open_at(at(16, 15, 39, 59)));
    assert!(!is_market_open_at(at(16, 15, 40, 0)));
    assert!(!is_market_open_at(at(14, 12, 0, 0)));
    assert!(!is_market_open_at(at(15, 12, 0, 0)));
}

#[test]
fn entries_end_before_the_close() {
    assert!(!entry_cutoff_at(at(16, 15, 28, 59)));
    assert!(entry_cutoff_at(at(16, 15, 29, 0)));
    assert!(!squareoff_time_at(at(16, 15, 9, 59)));
    assert!(squareoff_time_at(at(16, 15, 10, 0)));
}

#[test]
fn the_next_opening_skips_weekends() {
    assert_eq!(next_market_open_after(at(16, 8, 0, 0)), at(16, 9, 15, 0));
    assert_eq!(next_market_open_after(at(16, 9, 15, 0)), at(17, 9, 15, 0));
    assert_eq!(next_market_open_after(at(13, 16, 0, 0)), at(16, 9, 15, 0));
    assert_eq!(next_market_open_after(at(14, 3, 0, 0)), at(16, 9, 15, 0));
    assert!(is_market_open_at(next_market_open_after(at(15, 23, 0, 0))));
    assert_eq!(until_market_open(at(16, 9, 14, 59)), 1_000_000_000);
    let mut t = at(16, 9, 14, 59);
    t.nanos = 1;
    assert_eq!(until_market_open(t), 999_999_999);
}

#[test]
fn the_close_is_near_or_past() {
    assert_eq!(market_close_at(at(16, 3, 0, 0)), at(16, 15, 40, 0));
    assert_eq!(until_market_close(at(16, 15, 39, 0)), Some(60_000_000_000));
    assert_eq!(until_market_close(at(16, 15, 40, 1)), None);
}

#[test]
fn the_clock_runs() {
    let t = now_ist();
    assert!(t.secs > 1_700_000_000);
    assert!(today_ist() > 739_000);
    assert!(next_market_open_ist().secs > t.secs);
    assert_eq!(today_market_close_ist().secs % 86_400, 15 * 3_600 + 40 * 60);
    let _ = (is_market_open(), is_entry_cutoff_passed());
    assert!(duration_until_market_open() < 4 * 86_400_000_000_000);
    if let Some(n) = duration_until_market_close() {
        assert!(n < 86_400_000_000_000);
    }
}

#[test]
fn daily_work_is_slept_for() {
    assert_eq!(secs_until(at(16, 9, 0, 0), 9, 10), 600);
    assert_eq!(secs_until(at(16, 9, 10, 0), 9, 10), 86_400);
    assert_eq!(secs_until(at(16, 9, 10, 1), 9, 10), 86_399);
    let mut t = at(16, 9, 9, 59);
    t.nanos = 5;
    assert_eq!(secs_until(t, 9, 10), 86_400);
    t.secs -= 1;
    assert_eq!(secs_until(t, 9, 10), 1);
    assert!(is_weekend(at(15, 12, 0, 0)));
    assert!(!is_weekend(at(16, 12, 0, 0)));
}

#[test]
fn sessions_last_a_day() {
    let row = |stamp: &str| KotakSessionRow {
        access_token: "a".to_string(),
        auth_token: "b".to_string(),
        sid: "c".to_string(),
        base_url: "d".to_string(),
        updated_at: stamp.to_string(),
    };
    let t = at(16, 9, 0, 0);
    let stored = ist_timestamp_at(at(16, 8, 0, 0));
    assert_eq!(usable_session(row(&stored), t).unwrap().sid, "c");
    assert!(usable_session(row(&ist_timestamp_at(at(15, 23, 59, 59))), t).is_none());
    assert!(usable_session(row(""), t).is_none());
}
