//! Indian Standard Time and the hours of the market.
//!
//! A moment is held as the number of seconds that a clock in India has counted since the
//! beginning of 1970, and the nanoseconds behind them. A day is counted from the first day
//! of the year one, which was a Monday.
use vstd::prelude::*;

use crate::decimal::div_down;

#[allow(unused_imports)]
use crate::text::begins_with;

verus! {

/// How far clocks in India are ahead of UTC.
pub const IST_OFFSET_SECS: i32 = 19_800;

pub const MARKET_OPEN_HOUR: u32 = 9;

pub const MARKET_OPEN_MINUTE: u32 = 15;

pub const MARKET_CLOSE_HOUR: u32 = 15;

pub const MARKET_CLOSE_MINUTE: u32 = 40;

/// From this time on no entry is taken.
pub const NO_ENTRY_HOUR: u32 = 15;

pub const NO_ENTRY_MINUTE: u32 = 29;

/// From this time on a position is not carried further on its expiry day.
pub const SQUAREOFF_HOUR: u32 = 15;

pub const SQUAREOFF_MINUTE: u32 = 10;

/// The last second that the calendar can hold, in UTC.
pub const LAST_UTC_SECOND: i64 = 8_210_266_876_799;

/// The second at which the year 10000 begins.
pub const YEAR_10000: i64 = 253_402_300_800;

/// The number of the first day of 1970.
pub const EPOCH_DAY: i64 = 719_163;

/// A moment in Indian Standard Time.
#[derive(Debug, Clone, Copy, PartialEq, Eq, Structural)]
pub struct IstTime {
    pub secs: i64,
    pub nanos: u32,
}

/// The day of a second.
pub open spec fn day_of(secs: int) -> int {
    secs / 86_400 + EPOCH_DAY
}

/// The day of the week, from Monday, which is 0.
pub open spec fn weekday(day: int) -> int {
    (day - 1) % 7
}

/// Whether the exchange trades on a day.
pub open spec fn trading_day(day: int) -> bool {
    weekday(day) < 5
}

/// The second of `day` at which a clock shows `hour` and `minute`.
pub open spec fn second_at(day: int, hour: int, minute: int) -> int {
    (day - EPOCH_DAY) * 86_400 + hour * 3_600 + minute * 60
}

/// The second at which the market opens on a day, if it opens at all.
pub open spec fn opening(day: int) -> int {
    second_at(day, MARKET_OPEN_HOUR as int, MARKET_OPEN_MINUTE as int)
}

/// The second at which the market closes on a day.
pub open spec fn closing(day: int) -> int {
    second_at(day, MARKET_CLOSE_HOUR as int, MARKET_CLOSE_MINUTE as int)
}

impl IstTime {
    /// Whether the moment lies between 1970 and the end of the calendar.
    pub open spec fn valid(self) -> bool {
        &&& IST_OFFSET_SECS <= self.secs <= LAST_UTC_SECOND + IST_OFFSET_SECS
        &&& self.nanos < 1_000_000_000
    }

    pub open spec fn today(self) -> int {
        day_of(self.secs as int)
    }

    /// Whether the market is open: on a trading day, from the opening up to, and without, the
    /// closing.
    pub open spec fn market_hours(self) -> bool {
        trading_day(self.today()) && opening(self.today()) <= self.secs < closing(self.today())
    }

    /// Whether it is too late in the day for an entry.
    pub open spec fn past_entry_cutoff(self) -> bool {
        self.secs >= second_at(self.today(), NO_ENTRY_HOUR as int, NO_ENTRY_MINUTE as int)
    }

    /// Whether it is late enough to leave a position that expires today.
    pub open spec fn past_squareoff(self) -> bool {
        self.secs >= second_at(self.today(), SQUAREOFF_HOUR as int, SQUAREOFF_MINUTE as int)
    }

    /// The nanoseconds from here to the second `s`.
    pub open spec fn nanos_until(self, s: int) -> int {
        (s - self.secs) * 1_000_000_000 - self.nanos
    }
}

/// Whether `s` is the first opening of the market after `t`.
pub open spec fn first_opening_after(s: int, t: IstTime) -> bool {
    &&& trading_day(day_of(s))
    &&& s == opening(day_of(s))
    &&& s > t.secs
    &&& forall|day: int| #[trigger]
        trading_day(day) && opening(day) > t.secs ==> s <= opening(day)
}

/// The time that a clock in UTC shows, in seconds since the beginning of 1970 and
/// nanoseconds, as `chrono::Utc::now` gives it. Nothing is claimed but the range: `chrono`
/// stops the program where the clock stands before 1970 or beyond its calendar.
#[verifier::external_body]
fn utc_now() -> (res: (i64, u32))
    ensures
        0 <= res.0 <= LAST_UTC_SECOND,
        res.1 < 1_000_000_000,
{
    let now = chrono::Utc::now();
    (now.timestamp(), now.timestamp_subsec_nanos())
}

/// How `chrono` writes the UTC second `utc` in a zone `offset` seconds ahead, as
/// `%Y-%m-%d %H:%M:%S`.
pub uninterp spec fn timestamp_text(utc: i64, offset: i32) -> Seq<char>;

/// The second that `chrono` reads out of a text in the form `%Y-%m-%d %H:%M:%S`, the clock
/// being in the zone that the text was written in.
pub uninterp spec fn timestamp_read(s: Seq<char>) -> Option<i64>;

/// How `chrono` writes a day in the form `%Y-%m-%d`.
pub uninterp spec fn date_text(day: i32) -> Seq<char>;

/// Writes a moment with `chrono::DateTime::format`. What is written begins with the day of the
/// local clock. Up to the year 9999 it takes nineteen characters, ten of them for the day, and
/// is read back by `chrono::NaiveDateTime::parse_from_str` as the same second of the local
/// clock.
#[verifier::external_body]
fn write_timestamp(utc: i64, offset: i32) -> (res: String)
    requires
        0 <= utc <= LAST_UTC_SECOND,
        0 <= offset < 86_400,
    ensures
        res@ == timestamp_text(utc, offset),
        begins_with(res@, date_text(day_of(utc + offset) as i32)),
        utc + offset < YEAR_10000 ==> timestamp_read(res@) == Some((utc + offset) as i64),
        utc + offset < YEAR_10000 ==> res@.len() == 19 && res@.take(10) == date_text(
            day_of(utc + offset) as i32,
        ),
{
    let zone = chrono::FixedOffset::east_opt(offset).unwrap();
    let moment = chrono::DateTime::from_timestamp(utc, 0).unwrap().with_timezone(&zone);
    moment.format("%Y-%m-%d %H:%M:%S").to_string()
}

/// Reads a moment with `chrono::NaiveDateTime::parse_from_str`; `None` where it fails.
#[verifier::external_body]
pub(crate) fn read_timestamp(s: &str) -> (res: Option<i64>)
    ensures
        res == timestamp_read(s@),
{
    match chrono::NaiveDateTime::parse_from_str(s, "%Y-%m-%d %H:%M:%S") {
        Ok(t) => Some(t.and_utc().timestamp()),
        Err(_) => None,
    }
}

/// Writes the day of the local clock with `chrono::DateTime::format`. Up to the year 9999 it
/// takes ten characters, so whatever `chrono::NaiveDateTime::parse_from_str` reads out of a
/// text that begins with them lies on that day.
#[verifier::external_body]
fn write_date(utc: i64, offset: i32) -> (res: String)
    requires
        0 <= utc <= LAST_UTC_SECOND,
        0 <= offset < 86_400,
    ensures
        res@ == date_text(day_of(utc + offset) as i32),
        utc + offset < YEAR_10000 ==> forall|s: Seq<char>|
            begins_with(s, res@) && (#[trigger] timestamp_read(s)) is Some ==> day_of(
                timestamp_read(s)->0 as int,
            ) == day_of(utc + offset),
{
    let zone = chrono::FixedOffset::east_opt(offset).unwrap();
    let moment = chrono::DateTime::from_timestamp(utc, 0).unwrap().with_timezone(&zone);
    moment.format("%Y-%m-%d").to_string()
}

/// The day that `chrono` reads out of a text in the form `%d-%b-%Y`.
pub uninterp spec fn expiry_read(s: Seq<char>) -> Option<i32>;

/// Whether the calendar has a date for `day`: from the first of January of the year -262143 to
/// the last of December of the year 262142.
pub open spec fn calendar_day(day: i32) -> bool {
    -95_746_129 <= day <= 95_745_399
}

/// Whether the calendar has a date for `day`.
pub fn in_calendar(day: i32) -> (res: bool)
    ensures
        res == calendar_day(day),
{
    -95_746_129 <= day && day <= 95_745_399
}

/// How `chrono` writes a day in the form `%d-%b-%Y`.
pub uninterp spec fn expiry_text(day: i32) -> Seq<char>;

/// Reads a day with `chrono::NaiveDate::parse_from_str`; `None` where it fails.
#[verifier::external_body]
pub(crate) fn read_expiry(s: &str) -> (res: Option<i32>)
    ensures
        res == expiry_read(s@),
{
    match chrono::NaiveDate::parse_from_str(s, "%d-%b-%Y") {
        Ok(d) => Some(chrono::Datelike::num_days_from_ce(&d)),
        Err(_) => None,
    }
}

/// Writes a day with `chrono::NaiveDate::format`. A day of the years 1 to 9999 is read back
/// by `chrono::NaiveDate::parse_from_str` as the same day. The days that are admitted are
/// those of the calendar of `chrono`.
#[verifier::external_body]
pub(crate) fn write_expiry(day: i32) -> (res: String)
    requires
        calendar_day(day),
    ensures
        res@ == expiry_text(day),
        1 <= day <= 3_652_059 ==> expiry_read(res@) == Some(day),
{
    let date = chrono::NaiveDate::from_num_days_from_ce_opt(day).unwrap();
    date.format("%d-%b-%Y").to_string()
}

/// The day of a second.
pub fn day_of_second(secs: i64) -> (res: i64)
    ensures
        res == day_of(secs as int),
{
    div_down(secs as i128, 86_400) as i64 + EPOCH_DAY
}

/// How far clocks in India are ahead of UTC, in seconds.
pub fn ist_offset() -> (res: i32)
    ensures
        res == IST_OFFSET_SECS,
        res == 5 * 3_600 + 30 * 60,
{
    IST_OFFSET_SECS
}

/// The time in India.
pub fn now_ist() -> (res: IstTime)
    ensures
        res.valid(),
{
    let (secs, nanos): (i64, u32) = utc_now();
    IstTime { secs: secs + ist_offset() as i64, nanos }
}

/// The day in India.
pub fn today_ist() -> (res: i64)
    ensures
        exists|t: IstTime| #[trigger] t.valid() && res == t.today(),
{
    let t: IstTime = now_ist();
    day_of_second(t.secs)
}

/// A moment as text.
pub fn ist_timestamp_at(t: IstTime) -> (res: String)
    requires
        t.valid(),
    ensures
        res@ == timestamp_text((t.secs - IST_OFFSET_SECS) as i64, IST_OFFSET_SECS),
        begins_with(res@, date_text(t.today() as i32)),
        t.secs < YEAR_10000 ==> timestamp_read(res@) == Some(t.secs),
        is_timestamp_of(res@, t),
{
    write_timestamp(t.secs - ist_offset() as i64, ist_offset())
}

/// A day as text, such as `2026-11-16`.
pub fn ist_date_at(t: IstTime) -> (res: String)
    requires
        t.valid(),
    ensures
        res@ == date_text(t.today() as i32),
        t.secs < YEAR_10000 ==> forall|s: Seq<char>|
            begins_with(s, res@) && (#[trigger] timestamp_read(s)) is Some ==> day_of(
                timestamp_read(s)->0 as int,
            ) == t.today(),
{
    write_date(t.secs - ist_offset() as i64, ist_offset())
}

/// Whether `s` is the time of a clock in India, written as text: the day, then the time of
/// day. Up to the year 9999 it takes nineteen characters, ten of them for the day, and reads
/// back as the same second.
pub open spec fn is_timestamp_of(s: Seq<char>, t: IstTime) -> bool {
    &&& s == timestamp_text((t.secs - IST_OFFSET_SECS) as i64, IST_OFFSET_SECS)
    &&& begins_with(s, date_text(t.today() as i32))
    &&& t.secs < YEAR_10000 ==> {
        &&& s.len() == 19
        &&& s.take(10) == date_text(t.today() as i32)
        &&& timestamp_read(s) == Some(t.secs)
    }
}

/// The time in India as text.
pub fn current_ist_timestamp_string() -> (res: String)
    ensures
        exists|t: IstTime| #[trigger] t.valid() && is_timestamp_of(res@, t),
{
    let t: IstTime = now_ist();
    ist_timestamp_at(t)
}

fn clock_second(t: IstTime) -> (res: i64)
    requires
        t.valid(),
    ensures
        res == t.secs % 86_400,
        0 <= res < 86_400,
{
    t.secs % 86_400
}

/// Whether the market is open at `t`.
pub fn is_market_open_at(t: IstTime) -> (res: bool)
    requires
        t.valid(),
    ensures
        res == t.market_hours(),
{
    let day: i64 = day_of_second(t.secs);
    if (day - 1) % 7 >= 5 {
        return false;
    }
    let s: i64 = clock_second(t);
    let h: u32 = (s / 3_600) as u32;
    let m: u32 = ((s % 3_600) / 60) as u32;
    if h < MARKET_OPEN_HOUR || (h == MARKET_OPEN_HOUR && m < MARKET_OPEN_MINUTE) {
        return false;
    }
    if h > MARKET_CLOSE_HOUR || (h == MARKET_CLOSE_HOUR && m >= MARKET_CLOSE_MINUTE) {
        return false;
    }
    true
}

/// Whether the market is open now.
pub fn is_market_open() -> (res: bool)
    ensures
        exists|t: IstTime| #[trigger] t.valid() && res == t.market_hours(),
{
    let t: IstTime = now_ist();
    is_market_open_at(t)
}

/// Whether it is too late in the day of `t` for an entry.
pub fn entry_cutoff_at(t: IstTime) -> (res: bool)
    requires
        t.valid(),
    ensures
        res == t.past_entry_cutoff(),
{
    let s: i64 = clock_second(t);
    let h: u32 = (s / 3_600) as u32;
    let m: u32 = ((s % 3_600) / 60) as u32;
    h > NO_ENTRY_HOUR || (h == NO_ENTRY_HOUR && m >= NO_ENTRY_MINUTE)
}

/// Whether it is too late in the day for an entry.
pub fn is_entry_cutoff_passed() -> (res: bool)
    ensures
        exists|t: IstTime| #[trigger] t.valid() && res == t.past_entry_cutoff(),
{
    let t: IstTime = now_ist();
    entry_cutoff_at(t)
}

/// Whether it is late enough, at `t`, to leave a position that expires that day.
pub fn squareoff_time_at(t: IstTime) -> (res: bool)
    requires
        t.valid(),
    ensures
        res == t.past_squareoff(),
{
    let s: i64 = clock_second(t);
    let h: u32 = (s / 3_600) as u32;
    let m: u32 = ((s % 3_600) / 60) as u32;
    h > SQUAREOFF_HOUR || (h == SQUAREOFF_HOUR && m >= SQUAREOFF_MINUTE)
}

/// The closing of the market on the day of `t`, whatever day of the week that is.
pub fn market_close_at(t: IstTime) -> (res: IstTime)
    requires
        t.valid(),
    ensures
        res.secs == closing(t.today()),
        res.nanos == 0,
{
    let start: i64 = t.secs - clock_second(t);
    IstTime {
        secs: start + MARKET_CLOSE_HOUR as i64 * 3_600 + MARKET_CLOSE_MINUTE as i64 * 60,
        nanos: 0,
    }
}

/// The closing of the market today.
pub fn today_market_close_ist() -> (res: IstTime)
    ensures
        res.nanos == 0,
        exists|t: IstTime| #[trigger] t.valid() && res.secs == closing(t.today()),
{
    let t: IstTime = now_ist();
    market_close_at(t)
}

/// The first opening of the market after `t`.
pub fn next_market_open_after(t: IstTime) -> (res: IstTime)
    requires
        t.valid(),
    ensures
        first_opening_after(res.secs as int, t),
        res.nanos == 0,
        res.secs - t.secs <= 4 * 86_400,
{
    let today: i64 = day_of_second(t.secs);
    let start: i64 = t.secs - clock_second(t);
    let open: i64 = start + MARKET_OPEN_HOUR as i64 * 3_600 + MARKET_OPEN_MINUTE as i64 * 60;
    assert(open == opening(today as int));
    if (today - 1) % 7 < 5 && t.secs < open {
        return IstTime { secs: open, nanos: 0 };
    }
    let mut ahead: i64 = 1;
    while (today + ahead - 1) % 7 >= 5
        invariant
            1 <= ahead <= 3,
            t.valid(),
            today == day_of(t.secs as int),
            ahead == 3 ==> weekday(today + 1) == 5 && weekday(today + 2) == 6,
            ahead == 2 ==> weekday(today + 1) >= 5,
            forall|k: int| 1 <= k < ahead ==> !#[trigger] trading_day(today + k),
        decreases 3 - ahead,
    {
        assert(!trading_day(today + ahead));
        ahead += 1;
    }
    let secs: i64 = open + ahead * 86_400;
    proof {
        assert(day_of(secs as int) == today + ahead);
        assert(trading_day(today + ahead));
        assert forall|day: int| #[trigger]
            trading_day(day) && opening(day) > t.secs implies secs <= opening(day) by {
            if day < today + ahead {
                if day > today {
                    assert(!trading_day(today + (day - today)));
                }
            }
        }
    }
    IstTime { secs, nanos: 0 }
}

/// The next opening of the market.
pub fn next_market_open_ist() -> (res: IstTime)
    ensures
        res.nanos == 0,
        exists|t: IstTime| #[trigger] t.valid() && first_opening_after(res.secs as int, t),
{
    let t: IstTime = now_ist();
    next_market_open_after(t)
}

/// Whether `nanos` is how long to wait from `t` until the market is open.
pub open spec fn wait_until_open(nanos: int, t: IstTime) -> bool {
    if t.market_hours() {
        nanos == 0
    } else {
        exists|s: int| #[trigger] first_opening_after(s, t) && nanos == t.nanos_until(s)
    }
}

/// How many nanoseconds to wait from `t` until the market is open: none while it is.
pub fn until_market_open(t: IstTime) -> (res: u64)
    requires
        t.valid(),
    ensures
        wait_until_open(res as int, t),
{
    if is_market_open_at(t) {
        return 0;
    }
    let next: IstTime = next_market_open_after(t);
    let res: u64 = (next.secs - t.secs) as u64 * 1_000_000_000 - t.nanos as u64;
    assert(first_opening_after(next.secs as int, t));
    res
}

/// How many nanoseconds to wait until the market is open: none while it is.
pub fn duration_until_market_open() -> (res: u64)
    ensures
        exists|t: IstTime| #[trigger] t.valid() && wait_until_open(res as int, t),
{
    let t: IstTime = now_ist();
    until_market_open(t)
}

/// How many nanoseconds are left from `t` until the market closes that day; `None` once the
/// closing is past.
pub open spec fn left_until_close(t: IstTime) -> Option<int> {
    let n = t.nanos_until(closing(t.today()));
    if n >= 0 {
        Some(n)
    } else {
        None
    }
}

/// How many nanoseconds are left from `t` until the market closes that day.
pub fn until_market_close(t: IstTime) -> (res: Option<u64>)
    requires
        t.valid(),
    ensures
        res is Some <==> left_until_close(t) is Some,
        res is Some ==> res->0 == left_until_close(t)->0,
{
    let close: IstTime = market_close_at(t);
    if close.secs > t.secs || (close.secs == t.secs && t.nanos == 0) {
        Some((close.secs - t.secs) as u64 * 1_000_000_000 - t.nanos as u64)
    } else {
        None
    }
}

/// How many nanoseconds are left until the market closes today; `None` once it has closed.
pub fn duration_until_market_close() -> (res: Option<u64>)
    ensures
        exists|t: IstTime| #[trigger]
            t.valid() && (res is Some <==> left_until_close(t) is Some) && (res is Some ==> res->0
                == left_until_close(t)->0),
{
    let t: IstTime = now_ist();
    until_market_close(t)
}

/// The market opens once on every trading day and is open from then until it closes.
pub proof fn opening_opens_the_market(day: int, t: IstTime)
    requires
        trading_day(day),
        t.secs == opening(day),
    ensures
        t.market_hours(),
        t.today() == day,
{
}

/// While the market is shut, waiting as long as told ends at an opening.
pub proof fn waiting_ends_at_an_opening(t: IstTime, nanos: int)
    requires
        t.valid(),
        wait_until_open(nanos, t),
    ensures
        !t.market_hours() ==> exists|day: int| #[trigger]
            trading_day(day) && t.secs * 1_000_000_000 + t.nanos + nanos == opening(day)
                * 1_000_000_000,
        t.market_hours() ==> nanos == 0,
{
    if !t.market_hours() {
        let s = choose|s: int| #[trigger]
            first_opening_after(s, t) && nanos == t.nanos_until(s);
        assert(trading_day(day_of(s)));
    }
}

/// The first opening after a moment is at most four days away.
pub proof fn first_opening_is_near(s: int, t: IstTime)
    requires
        first_opening_after(s, t),
    ensures
        t.secs < s <= t.secs + 4 * 86_400,
{
    let today = t.today();
    assert(trading_day(today + 1) || trading_day(today + 2) || trading_day(today + 3));
    assert(opening(today + 1) > t.secs && opening(today + 2) > t.secs && opening(today + 3)
        > t.secs);
    if trading_day(today) && opening(today) > t.secs {
        assert(s <= opening(today));
    }
}

/// By the clock on the wall in India: the market is open from Monday to Friday, from 9:15 until
/// 15:40; no entry is taken from 15:29 on, and what expires is left from 15:10 on. The first
/// day of 1970 was a Thursday.
pub proof fn hours_by_the_clock(t: IstTime)
    ensures
        ({
            let minute = (t.secs as int % 86_400) / 60;
            let from_monday = (t.secs as int / 86_400 + 3) % 7;
            &&& t.market_hours() <==> from_monday < 5 && 555 <= minute < 940
            &&& t.past_entry_cutoff() <==> 929 <= minute
            &&& t.past_squareoff() <==> 910 <= minute
        }),
{
}

/// What is left until the market closes ends at 15:40 of the same day; nothing is left after
/// that.
pub proof fn what_is_left_ends_at_the_close(t: IstTime)
    requires
        t.valid(),
    ensures
        ({
            let now = t.secs * 1_000_000_000 + t.nanos;
            let close = (t.secs - t.secs as int % 86_400 + 56_400) * 1_000_000_000;
            &&& left_until_close(t) matches Some(n) ==> n >= 0 && now + n == close
            &&& left_until_close(t) is None ==> now > close
        }),
{
}

/// Days are counted from the first day of the year one: 1969 years lie before 1970, each of
/// 365 days, and one day more in every fourth year, but for the hundredth, unless it is the
/// four hundredth.
pub proof fn days_are_counted_from_the_year_one(secs: int)
    ensures
        day_of(secs) == secs / 86_400 + 1969 * 365 + 1969int / 4 - 1969int / 100 + 1969int / 400 + 1,
{
}

} // verus!
