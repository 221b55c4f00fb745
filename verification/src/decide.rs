//! What to do next with a position, given a price and the time.
use vstd::prelude::*;

use dashmap::DashMap;

use crate::clock::{
    day_of_second, now_ist, read_expiry, read_timestamp, squareoff_time_at, IstTime,
};
use crate::config::HALF;
use crate::decimal::{
    above, below, half_way_down, max64, round_down_tick, stop_behind, two_place_text,
};
use crate::domain::{MonitoredPosition, TradeSignal, TradeState, TradingConfig};
use crate::sizing::{compute_entry_qty, lot_size_of, tgt1_slice_qty};
use crate::text::{i64_text, same_text, to_upper};

#[allow(unused_imports)]
use crate::clock::{day_of, expiry_read, is_timestamp_of, timestamp_read, YEAR_10000};

#[allow(unused_imports)]
use crate::decimal::{
    half_way, larger, lemma_product_fits, level_above, level_below, next_rung_is_higher,
    rounding_stays_on_the_grid, rung_stop, rung_stop_lies_between_entry_and_rung, smaller, tick_down,
    two_places, UNIT,
};

#[allow(unused_imports)]
use crate::domain::{MonitoredPositionView, TradeSignalView, TradingConfigView};

#[allow(unused_imports)]
use crate::sizing::{entry_qty, entry_qty_fits, lot_size, slice_at_target1, slice_fits_the_holding};

#[allow(unused_imports)]
use crate::text::{
    begins_with, finishes_with, int_text, pieces_stand_in_their_text, uppercased,
};

verus! {

/// After so many failed exits in a row a position is left alone.
pub const MAX_EXIT_ATTEMPTS: i32 = 3;

// ---------------------------------------------------------------------------
// Prices
// ---------------------------------------------------------------------------

/// A concurrent map of `dashmap`.
#[verifier::external_type_specification]
#[verifier::external_body]
#[verifier::reject_recursive_types(K)]
#[verifier::reject_recursive_types(V)]
#[verifier::reject_recursive_types(S)]
pub struct ExDashMap<K, V, S>(dashmap::DashMap<K, V, S>);

/// What a map shows in the course of the program: each key under which it is read, with what
/// stands there at that moment, or `None` if nothing does. One key may come with many values.
pub uninterp spec fn readings(prices: DashMap<String, i64>) -> Set<(Seq<char>, Option<i64>)>;

/// What `dashmap::DashMap::get` finds under `key`, copied out. The price feed writes to the
/// map at any time, so two readings may differ: the claim is only that the result is one of
/// the readings of this map under this key.
#[verifier::external_body]
pub(crate) fn price_at(prices: &DashMap<String, i64>, key: &str) -> (res: Option<i64>)
    ensures
        readings(*prices).contains((key@, res)),
{
    prices.get(key).map(|p| *p)
}

/// Whether the map shows `v` under `key` at some moment.
pub open spec fn shows(prices: DashMap<String, i64>, key: Seq<char>, v: Option<i64>) -> bool {
    readings(prices).contains((key, v))
}

/// A price that can be acted on: one that is there and positive. A contract that was only
/// just asked for stands at zero.
pub open spec fn real_price(p: Option<i64>) -> Option<i64> {
    match p {
        Some(v) if v > 0 => p,
        _ => None,
    }
}

/// Whether `p` is what the map shows under `key` at some moment, if that can be acted on.
pub open spec fn price_seen(
    prices: DashMap<String, i64>,
    key: Seq<char>,
    p: Option<i64>,
) -> bool {
    exists|v: Option<i64>| #[trigger] shows(prices, key, v) && p == real_price(v)
}

/// The key of a position in the price feed.
pub open spec fn price_key(pos: MonitoredPositionView) -> Seq<char> {
    match pos.ws_scrip_key {
        Some(k) => k,
        None => pos.signal.instrument_name,
    }
}

/// The key of a position in the price feed.
pub fn key_of(pos: &MonitoredPosition) -> (res: &str)
    ensures
        res@ == price_key(pos@),
{
    match &pos.ws_scrip_key {
        Some(k) => k.as_str(),
        None => pos.signal.instrument_name.as_str(),
    }
}

/// The price that the feed has under the key of a position, if it can be acted on.
pub fn position_price(pos: &MonitoredPosition, prices: &DashMap<String, i64>) -> (res: Option<i64>)
    ensures
        price_seen(*prices, price_key(pos@), res),
{
    let found: Option<i64> = price_at(prices, key_of(pos));
    assert(shows(*prices, price_key(pos@), found));
    match found {
        Some(v) if v > 0 => Some(v),
        _ => None,
    }
}

// ---------------------------------------------------------------------------
// Entries
// ---------------------------------------------------------------------------

/// Whether the price has reached the entry.
pub open spec fn entry_reached(signal: TradeSignalView, ltp: int) -> bool {
    let side = uppercased(signal.entry_condition);
    if side == "ABOVE"@ {
        ltp >= signal.entry_price
    } else if side == "BELOW"@ {
        ltp <= signal.entry_price
    } else {
        false
    }
}

/// Whether the price has reached the entry.
pub fn entry_triggered(signal: &TradeSignal, ltp: i64) -> (res: bool)
    ensures
        res == entry_reached(signal@, ltp as int),
{
    let side: String = to_upper(signal.entry_condition.as_str());
    if same_text(side.as_str(), "ABOVE") {
        ltp >= signal.entry_price
    } else if same_text(side.as_str(), "BELOW") {
        ltp <= signal.entry_price
    } else {
        false
    }
}

/// Target 1, if the price is at or beyond it.
pub open spec fn spent_target(signal: TradeSignalView, ltp: int) -> Option<i64> {
    if signal.targets.len() > 0 && ltp >= signal.targets[0] {
        Some(signal.targets[0])
    } else {
        None
    }
}

/// Target 1, if the price is at or beyond it: the move that the signal was called on has
/// happened, and an entry would only book the target on the next tick.
pub fn entry_past_target1(signal: &TradeSignal, ltp: i64) -> (res: Option<i64>)
    ensures
        res == spent_target(signal@, ltp as int),
{
    if signal.targets.len() > 0 && ltp >= signal.targets[0] {
        Some(signal.targets[0])
    } else {
        None
    }
}

/// What is said of an entry beyond target 1.
pub open spec fn spent_text(ltp: int, t1: int) -> Seq<char> {
    "entry "@ + two_places(ltp) + " is already at/through target 1 ("@ + two_places(t1)
        + ") — wrong contract or stale signal, not entering"@
}

/// What is said of an entry beyond target 1.
pub fn spent_message(ltp: i64, t1: i64) -> (res: String)
    ensures
        res@ == spent_text(ltp as int, t1 as int),
{
    let mut out: String = "entry ".to_string();
    out.append(two_place_text(ltp).as_str());
    out.append(" is already at/through target 1 (");
    out.append(two_place_text(t1).as_str());
    out.append(") — wrong contract or stale signal, not entering");
    out
}

/// Why a position must not wait for its entry any longer: the day is too far gone, or the
/// position was not made today. A position whose making is not on record counts as old.
pub open spec fn stale_reason(created_at: Seq<char>, entry_cutoff: bool, today: int) -> Option<
    Seq<char>,
> {
    if entry_cutoff {
        Some("EOD_NO_ENTRY"@)
    } else {
        match timestamp_read(created_at) {
            Some(s) if day_of(s as int) == today => None,
            _ => Some("STALE_CARRYOVER"@),
        }
    }
}

/// What an optional piece of text says.
pub open spec fn opt_str(o: Option<&str>) -> Option<Seq<char>> {
    match o {
        Some(s) => Some(s@),
        None => None,
    }
}

/// Why a position must not wait for its entry any longer on the day `today`.
pub fn stale_entry_reason_on(pos: &MonitoredPosition, entry_cutoff: bool, today: i64) -> (res:
    Option<&'static str>)
    ensures
        opt_str(res) == stale_reason(pos@.created_at, entry_cutoff, today as int),
{
    if entry_cutoff {
        return Some("EOD_NO_ENTRY");
    }
    match read_timestamp(pos.created_at.as_str()) {
        Some(s) if day_of_second(s) == today => None,
        _ => Some("STALE_CARRYOVER"),
    }
}

/// Why a position must not wait for its entry any longer today.
pub fn stale_entry_reason(pos: &MonitoredPosition, entry_cutoff: bool) -> (res: Option<
    &'static str,
>)
    ensures
        exists|now: IstTime| #[trigger]
            now.valid() && opt_str(res) == stale_reason(
                pos@.created_at,
                entry_cutoff,
                now.today(),
            ),
        entry_cutoff ==> opt_str(res) == Some("EOD_NO_ENTRY"@),
        timestamp_read(pos@.created_at) is None ==> res is Some,
{
    let now: IstTime = now_ist();
    stale_entry_reason_on(pos, entry_cutoff, day_of_second(now.secs))
}

// ---------------------------------------------------------------------------
// The stop before target 1
// ---------------------------------------------------------------------------

/// The larger of a price seen before, if any, and a price seen now.
pub open spec fn peak_of(before: Option<i64>, ltp: int) -> int {
    match before {
        Some(p) => larger(p as int, ltp),
        None => ltp,
    }
}

/// Whether the highest price has covered enough of the way from the entry to target 1.
pub open spec fn trail_armed(peak: int, entry: int, t1: int, arm_pct: int) -> bool {
    (peak - entry) * 100 * UNIT >= (t1 - entry) * arm_pct
}

/// Where the stop belongs behind the highest price: the trail distance below it, rounded down
/// to the tick grid, but not below the stop of the signal.
pub open spec fn trail_level(pos: MonitoredPositionView, peak: int, factor: int) -> int {
    let diff = pos.signal.targets[0] - pos.avg_buy_price;
    larger(
        tick_down(level_below(peak, diff, factor), pos.tick_size as int),
        pos.signal.stop_loss as int,
    )
}

/// Whether two levels are more than half a tick apart.
pub open spec fn moved(a: int, b: int, tick: int) -> bool {
    2 * (a - b) > tick || 2 * (b - a) > tick
}

/// A position after the price `ltp` was seen, and the new stop if the stop moved.
pub open spec fn trailed(pos: MonitoredPositionView, ltp: int, cfg: TradingConfigView) -> (
    MonitoredPositionView,
    Option<i64>,
) {
    if !cfg.pre_t1_trailing || pos.state != TradeState::Active || pos.signal.targets.len() == 0
        || pos.signal.targets[0] <= pos.avg_buy_price {
        (pos, None)
    } else {
        let peak = peak_of(pos.peak_ltp, ltp);
        let seen = MonitoredPositionView { peak_ltp: Some(peak as i64), ..pos };
        let level = trail_level(pos, peak, cfg.pre_t1_trail_factor as int);
        if !trail_armed(
            peak,
            pos.avg_buy_price as int,
            pos.signal.targets[0] as int,
            cfg.pre_t1_trail_arm_pct as int,
        ) || !moved(level, pos.current_sl as int, pos.tick_size as int) {
            (seen, None)
        } else {
            (
                MonitoredPositionView { current_sl: level as i64, ..seen },
                Some(level as i64),
            )
        }
    }
}

/// Take note of a price and, once the highest price has come far enough, put the stop where
/// it belongs behind it.
///
/// The stop moves both ways, so that a change of the settings takes effect on the next
/// price; the stop of the signal is the floor. Gives back the new stop if it moved.
pub fn pre_t1_trail_update(pos: &mut MonitoredPosition, ltp: i64, cfg: &TradingConfig) -> (res:
    Option<i64>)
    ensures
        (final(pos)@, res) == trailed(old(pos)@, ltp as int, cfg@),
{
    if !cfg.pre_t1_trailing || pos.state != TradeState::Active || pos.signal.targets.len() == 0 {
        return None;
    }
    let t1: i64 = pos.signal.targets[0];
    if t1 <= pos.avg_buy_price {
        return None;
    }
    let diff: i128 = t1 as i128 - pos.avg_buy_price as i128;
    let peak: i64 = match pos.peak_ltp {
        Some(p) => max64(p, ltp),
        None => ltp,
    };
    pos.peak_ltp = Some(peak);
    proof {
        lemma_product_fits(diff as int, cfg.pre_t1_trail_arm_pct as int);
    }
    let covered: i128 = (peak as i128 - pos.avg_buy_price as i128) * 100_000_000;
    if covered < diff * cfg.pre_t1_trail_arm_pct as i128 {
        return None;
    }
    let desired: i64 = max64(
        round_down_tick(below(peak, diff, cfg.pre_t1_trail_factor), pos.tick_size),
        pos.signal.stop_loss,
    );
    let off: i128 = desired as i128 - pos.current_sl as i128;
    if 2 * off > pos.tick_size as i128 || 2 * (-off) > pos.tick_size as i128 {
        pos.current_sl = desired;
        return Some(desired);
    }
    None
}

// ---------------------------------------------------------------------------
// Live decisions
// ---------------------------------------------------------------------------

/// What to do next with a live position.
#[derive(Debug, PartialEq)]
pub enum LiveAction {
    /// Check the funds, then buy `qty` at market. `ltp` is the price that was seen.
    PlaceEntry { qty: i32, ltp: i64 },
    /// Give up on an entry. `loud` says that the signal looked wrong.
    AbandonEntry { reason: String, loud: bool },
    /// Target 1: move the stop to `new_sl`, then sell `slice` at market. With dynamic
    /// targeting the first rung and the next one are given.
    Target1 {
        slice: i32,
        keep: i32,
        new_sl: i64,
        next_dynamic_target: Option<i64>,
        dynamic_rung: Option<i64>,
    },
    /// A rung was hit: move the stop and set the next rung.
    TrailDynamic { new_sl: i64, next_target: i64, rung_hit: i64 },
    /// Sell all that is held at market.
    ExitAll { qty: i32, reason: String },
    /// Sell a part, as asked for, and leave the rest as it is.
    ManualSell { qty: i32 },
}

/// What a [`LiveAction`] says.
pub ghost enum LiveActionView {
    PlaceEntry { qty: i32, ltp: i64 },
    AbandonEntry { reason: Seq<char>, loud: bool },
    Target1 {
        slice: i32,
        keep: i32,
        new_sl: i64,
        next_dynamic_target: Option<i64>,
        dynamic_rung: Option<i64>,
    },
    TrailDynamic { new_sl: i64, next_target: i64, rung_hit: i64 },
    ExitAll { qty: i32, reason: Seq<char> },
    ManualSell { qty: i32 },
}

impl View for LiveAction {
    type V = LiveActionView;

    open spec fn view(&self) -> LiveActionView {
        match self {
            LiveAction::PlaceEntry { qty, ltp } => LiveActionView::PlaceEntry {
                qty: *qty,
                ltp: *ltp,
            },
            LiveAction::AbandonEntry { reason, loud } => LiveActionView::AbandonEntry {
                reason: reason@,
                loud: *loud,
            },
            LiveAction::Target1 { slice, keep, new_sl, next_dynamic_target, dynamic_rung } =>
            LiveActionView::Target1 {
                slice: *slice,
                keep: *keep,
                new_sl: *new_sl,
                next_dynamic_target: *next_dynamic_target,
                dynamic_rung: *dynamic_rung,
            },
            LiveAction::TrailDynamic { new_sl, next_target, rung_hit } =>
            LiveActionView::TrailDynamic {
                new_sl: *new_sl,
                next_target: *next_target,
                rung_hit: *rung_hit,
            },
            LiveAction::ExitAll { qty, reason } => LiveActionView::ExitAll {
                qty: *qty,
                reason: reason@,
            },
            LiveAction::ManualSell { qty } => LiveActionView::ManualSell { qty: *qty },
        }
    }
}

/// What an optional action says.
pub open spec fn action_view(a: Option<LiveAction>) -> Option<LiveActionView> {
    match a {
        Some(x) => Some(x@),
        None => None,
    }
}

/// Whether a position expires today and the time to leave it has come.
pub open spec fn squareoff_due(pos: MonitoredPositionView, now: IstTime) -> bool {
    pos.signal.expiry is Some && expiry_read(pos.signal.expiry->0) is Some && expiry_read(
        pos.signal.expiry->0,
    )->0 == now.today() && now.past_squareoff()
}

/// Whether a position expires today and the time to leave it has come.
pub fn is_expiry_squareoff_due(pos: &MonitoredPosition, now: IstTime) -> (res: bool)
    requires
        now.valid(),
    ensures
        res == squareoff_due(pos@, now),
{
    match &pos.signal.expiry {
        Some(text) => match read_expiry(text.as_str()) {
            Some(day) => day as i64 == day_of_second(now.secs) && squareoff_time_at(now),
            None => false,
        },
        None => false,
    }
}

/// What is said of a quantity that cannot be ordered.
pub open spec fn bad_quantity_text(qty: int, lot: int) -> Seq<char> {
    "invalid quantity "@ + int_text(qty) + " for lot size "@ + int_text(lot)
}

fn bad_quantity_message(qty: i32, lot: i32) -> (res: String)
    ensures
        res@ == bad_quantity_text(qty as int, lot as int),
{
    let mut out: String = "invalid quantity ".to_string();
    out.append(i64_text(qty as i64).as_str());
    out.append(" for lot size ");
    out.append(i64_text(lot as i64).as_str());
    out
}

/// What to do with a position that waits for its entry.
pub open spec fn waiting_decision(
    pos: MonitoredPositionView,
    ltp: Option<i64>,
    cfg: TradingConfigView,
    entry_cutoff: bool,
    today: int,
) -> Option<LiveActionView> {
    let stale = stale_reason(pos.created_at, entry_cutoff, today);
    if cfg.kill_switch_active {
        Some(LiveActionView::AbandonEntry { reason: "KILL_SWITCH_ACTIVE"@, loud: false })
    } else if pos.force_exit is Some {
        Some(LiveActionView::AbandonEntry { reason: pos.force_exit->0, loud: false })
    } else if stale is Some {
        Some(LiveActionView::AbandonEntry { reason: stale->0, loud: false })
    } else if pos.entry_order_id is Some || ltp is None || !entry_reached(
        pos.signal,
        ltp->0 as int,
    ) {
        None
    } else if spent_target(pos.signal, ltp->0 as int) is Some {
        Some(
            LiveActionView::AbandonEntry {
                reason: spent_text(
                    ltp->0 as int,
                    spent_target(pos.signal, ltp->0 as int)->0 as int,
                ),
                loud: true,
            },
        )
    } else {
        let lot = lot_size(pos);
        let qty = entry_qty(pos.signal, lot, pos.override_qty, cfg, ltp);
        if qty <= 0 || qty % lot != 0 {
            Some(LiveActionView::AbandonEntry { reason: bad_quantity_text(qty, lot), loud: false })
        } else {
            Some(LiveActionView::PlaceEntry { qty: qty as i32, ltp: ltp->0 })
        }
    }
}

/// The name of a stop that was hit: a stop that was moved up, or the stop of the signal.
pub open spec fn stop_name(pos: MonitoredPositionView) -> Seq<char> {
    if pos.state == TradeState::Target1Hit || pos.current_sl > pos.signal.stop_loss {
        "TRAIL_SL_HIT"@
    } else {
        "SL_HIT"@
    }
}

/// What to do at target 1. The stop is moved half way up from the entry to target 1; with
/// dynamic targeting it is put where the first rung wants it.
pub open spec fn target1_decision(
    pos: MonitoredPositionView,
    cfg: TradingConfigView,
) -> LiveActionView {
    let held = pos.executed_qty as int;
    let t1 = pos.signal.targets[0];
    let slice = if cfg.dynamic_targeting {
        smaller(lot_size(pos), held)
    } else {
        slice_at_target1(held, lot_size(pos), cfg.target_1_exit_pct as int)
    };
    if (pos.signal.targets.len() <= 1 && !cfg.dynamic_targeting) || slice >= held {
        LiveActionView::ExitAll { qty: pos.executed_qty, reason: "TGT1_FULL"@ }
    } else {
        let diff = t1 - pos.avg_buy_price;
        LiveActionView::Target1 {
            slice: slice as i32,
            keep: (held - slice) as i32,
            new_sl: if cfg.dynamic_targeting {
                rung_stop(
                    t1 as int,
                    diff,
                    cfg.dynamic_targeting_trail_factor as int,
                    pos.tick_size as int,
                ) as i64
            } else {
                half_way(pos.avg_buy_price as int, t1 as int, pos.tick_size as int) as i64
            },
            next_dynamic_target: if cfg.dynamic_targeting {
                Some(
                    level_above(
                        t1 as int,
                        diff,
                        cfg.dynamic_targeting_extension_factor as int,
                    ) as i64,
                )
            } else {
                None
            },
            dynamic_rung: if cfg.dynamic_targeting {
                Some(t1)
            } else {
                None
            },
        }
    }
}

/// How far the stop of a runner trails behind its rung, in parts of the distance from the
/// entry to target 1: as far as the settings say, and half of it once dynamic targeting was
/// switched off.
pub open spec fn trail_share(cfg: TradingConfigView) -> int {
    if cfg.dynamic_targeting {
        cfg.dynamic_targeting_trail_factor as int
    } else {
        HALF as int
    }
}

/// What to do with a runner beyond target 1.
pub open spec fn runner_decision(
    pos: MonitoredPositionView,
    ltp: int,
    cfg: TradingConfigView,
) -> Option<LiveActionView> {
    match pos.next_dynamic_target {
        Some(rung) => if ltp < rung || pos.signal.targets.len() == 0 {
            None
        } else {
            let diff = pos.signal.targets[0] - pos.avg_buy_price;
            Some(
                LiveActionView::TrailDynamic {
                    new_sl: rung_stop(
                        rung as int,
                        diff,
                        trail_share(cfg),
                        pos.tick_size as int,
                    ) as i64,
                    next_target: level_above(
                        rung as int,
                        diff,
                        cfg.dynamic_targeting_extension_factor as int,
                    ) as i64,
                    rung_hit: rung,
                },
            )
        },
        None => if pos.signal.targets.len() > 1 && ltp >= pos.signal.targets[1] {
            Some(LiveActionView::ExitAll { qty: pos.executed_qty, reason: "TGT2_HIT"@ })
        } else {
            None
        },
    }
}

/// Whether exits of a position are to be left alone for now: one is in flight, too many have
/// failed, or one has failed and the broker is not to be asked again yet.
pub open spec fn exits_blocked(pos: MonitoredPositionView, retry_window: bool) -> bool {
    pos.pending_exit_order_id is Some || pos.exit_attempts >= MAX_EXIT_ATTEMPTS || (
    pos.exit_attempts > 0 && !retry_window)
}

/// What to do with a position that is held: forced exits first, then the stop, then sales
/// that were asked for, then targets.
pub open spec fn held_decision(
    pos: MonitoredPositionView,
    ltp: Option<i64>,
    cfg: TradingConfigView,
    retry_window: bool,
    now: IstTime,
) -> Option<LiveActionView> {
    let held = pos.executed_qty;
    let trigger = tick_down(pos.current_sl as int, pos.tick_size as int);
    if exits_blocked(pos, retry_window) || held <= 0 {
        None
    } else if pos.force_exit is Some {
        Some(LiveActionView::ExitAll { qty: held, reason: pos.force_exit->0 })
    } else if squareoff_due(pos, now) {
        Some(LiveActionView::ExitAll { qty: held, reason: "EXPIRY_SQUAREOFF"@ })
    } else if ltp is Some && ltp->0 <= trigger {
        Some(LiveActionView::ExitAll { qty: held, reason: stop_name(pos) })
    } else if pos.manual_sell_qty is Some && pos.manual_sell_qty->0 > 0 {
        Some(
            LiveActionView::ManualSell {
                qty: smaller(pos.manual_sell_qty->0 as int, held as int) as i32,
            },
        )
    } else if ltp is None {
        None
    } else if pos.state == TradeState::Active {
        if pos.signal.targets.len() == 0 || ltp->0 < pos.signal.targets[0] {
            None
        } else {
            Some(target1_decision(pos, cfg))
        }
    } else {
        runner_decision(pos, ltp->0 as int, cfg)
    }
}

/// What to do next with a live position.
pub open spec fn decision(
    pos: MonitoredPositionView,
    ltp: Option<i64>,
    cfg: TradingConfigView,
    entry_cutoff: bool,
    retry_window: bool,
    now: IstTime,
) -> Option<LiveActionView> {
    if pos.live_halt is Some || pos.resolved_order is None {
        None
    } else {
        match pos.state {
            TradeState::Closed => None,
            TradeState::WaitingForEntry => waiting_decision(
                pos,
                real_price(ltp),
                cfg,
                entry_cutoff,
                now.today(),
            ),
            _ => held_decision(pos, real_price(ltp), cfg, retry_window, now),
        }
    }
}

fn decide_waiting(
    pos: &MonitoredPosition,
    ltp: Option<i64>,
    cfg: &TradingConfig,
    entry_cutoff: bool,
    today: i64,
) -> (res: Option<LiveAction>)
    ensures
        action_view(res) == waiting_decision(pos@, ltp, cfg@, entry_cutoff, today as int),
{
    if cfg.kill_switch_active {
        return Some(
            LiveAction::AbandonEntry { reason: "KILL_SWITCH_ACTIVE".to_string(), loud: false },
        );
    }
    if let Some(reason) = &pos.force_exit {
        return Some(LiveAction::AbandonEntry { reason: reason.clone(), loud: false });
    }
    if let Some(reason) = stale_entry_reason_on(pos, entry_cutoff, today) {
        return Some(LiveAction::AbandonEntry { reason: reason.to_string(), loud: false });
    }
    if pos.entry_order_id.is_some() {
        return None;
    }
    let price: i64 = match ltp {
        Some(p) => p,
        None => {
            return None;
        },
    };
    if !entry_triggered(&pos.signal, price) {
        return None;
    }
    if let Some(t1) = entry_past_target1(&pos.signal, price) {
        return Some(LiveAction::AbandonEntry { reason: spent_message(price, t1), loud: true });
    }
    let lot: i32 = lot_size_of(pos);
    let qty: i32 = compute_entry_qty(&pos.signal, lot, pos.override_qty, cfg, Some(price));
    if qty <= 0 || qty % lot != 0 {
        return Some(
            LiveAction::AbandonEntry { reason: bad_quantity_message(qty, lot), loud: false },
        );
    }
    Some(LiveAction::PlaceEntry { qty, ltp: price })
}

fn decide_target1(pos: &MonitoredPosition, cfg: &TradingConfig) -> (res: LiveAction)
    requires
        pos.signal.targets@.len() > 0,
        pos.executed_qty > 0,
    ensures
        res@ == target1_decision(pos@, cfg@),
{
    let held: i32 = pos.executed_qty;
    let t1: i64 = pos.signal.targets[0];
    let lot: i32 = lot_size_of(pos);
    let slice: i32 = if cfg.dynamic_targeting {
        if lot < held {
            lot
        } else {
            held
        }
    } else {
        tgt1_slice_qty(held, lot, cfg.target_1_exit_pct)
    };
    proof {
        slice_fits_the_holding(held, lot, cfg.target_1_exit_pct);
    }
    if (pos.signal.targets.len() <= 1 && !cfg.dynamic_targeting) || slice >= held {
        return LiveAction::ExitAll { qty: held, reason: "TGT1_FULL".to_string() };
    }
    let diff: i128 = t1 as i128 - pos.avg_buy_price as i128;
    LiveAction::Target1 {
        slice,
        keep: held - slice,
        new_sl: if cfg.dynamic_targeting {
            stop_behind(t1, diff, cfg.dynamic_targeting_trail_factor, pos.tick_size)
        } else {
            half_way_down(pos.avg_buy_price, t1, pos.tick_size)
        },
        next_dynamic_target: if cfg.dynamic_targeting {
            Some(above(t1, diff, cfg.dynamic_targeting_extension_factor))
        } else {
            None
        },
        dynamic_rung: if cfg.dynamic_targeting {
            Some(t1)
        } else {
            None
        },
    }
}

fn decide_runner(pos: &MonitoredPosition, ltp: i64, cfg: &TradingConfig) -> (res: Option<
    LiveAction,
>)
    ensures
        action_view(res) == runner_decision(pos@, ltp as int, cfg@),
{
    match pos.next_dynamic_target {
        Some(rung) => {
            if ltp < rung || pos.signal.targets.len() == 0 {
                return None;
            }
            let diff: i128 = pos.signal.targets[0] as i128 - pos.avg_buy_price as i128;
            let share: i64 = if cfg.dynamic_targeting {
                cfg.dynamic_targeting_trail_factor
            } else {
                HALF
            };
            Some(
                LiveAction::TrailDynamic {
                    new_sl: stop_behind(rung, diff, share, pos.tick_size),
                    next_target: above(rung, diff, cfg.dynamic_targeting_extension_factor),
                    rung_hit: rung,
                },
            )
        },
        None => if pos.signal.targets.len() > 1 && ltp >= pos.signal.targets[1] {
            Some(LiveAction::ExitAll { qty: pos.executed_qty, reason: "TGT2_HIT".to_string() })
        } else {
            None
        },
    }
}

fn decide_held(
    pos: &MonitoredPosition,
    ltp: Option<i64>,
    cfg: &TradingConfig,
    retry_window: bool,
    now: IstTime,
) -> (res: Option<LiveAction>)
    requires
        now.valid(),
    ensures
        action_view(res) == held_decision(pos@, ltp, cfg@, retry_window, now),
{
    if pos.pending_exit_order_id.is_some() || pos.exit_attempts >= MAX_EXIT_ATTEMPTS {
        return None;
    }
    if pos.exit_attempts > 0 && !retry_window {
        return None;
    }
    let held: i32 = pos.executed_qty;
    if held <= 0 {
        return None;
    }
    if let Some(reason) = &pos.force_exit {
        return Some(LiveAction::ExitAll { qty: held, reason: reason.clone() });
    }
    if is_expiry_squareoff_due(pos, now) {
        return Some(LiveAction::ExitAll { qty: held, reason: "EXPIRY_SQUAREOFF".to_string() });
    }
    let trigger: i64 = round_down_tick(pos.current_sl, pos.tick_size);
    if let Some(p) = ltp {
        if p <= trigger {
            let reason: String = if pos.state == TradeState::Target1Hit || pos.current_sl
                > pos.signal.stop_loss {
                "TRAIL_SL_HIT".to_string()
            } else {
                "SL_HIT".to_string()
            };
            return Some(LiveAction::ExitAll { qty: held, reason });
        }
    }
    if let Some(asked) = pos.manual_sell_qty {
        if asked > 0 {
            let qty: i32 = if asked < held {
                asked
            } else {
                held
            };
            return Some(LiveAction::ManualSell { qty });
        }
    }
    let price: i64 = match ltp {
        Some(p) => p,
        None => {
            return None;
        },
    };
    if pos.state == TradeState::Active {
        if pos.signal.targets.len() == 0 || price < pos.signal.targets[0] {
            None
        } else {
            Some(decide_target1(pos, cfg))
        }
    } else {
        decide_runner(pos, price, cfg)
    }
}

/// Decide what to do next with a live position at the time `now`, with `ltp` as the last
/// price of the feed.
///
/// Forced exits come first, then protection, then targets. Nothing is decided while a sale of
/// this position is in flight: what is being sold is not offered a second time.
pub fn decide_live_at(
    pos: &MonitoredPosition,
    ltp: Option<i64>,
    cfg: &TradingConfig,
    entry_cutoff: bool,
    retry_window: bool,
    now: IstTime,
) -> (res: Option<LiveAction>)
    requires
        now.valid(),
    ensures
        action_view(res) == decision(pos@, ltp, cfg@, entry_cutoff, retry_window, now),
{
    if pos.live_halt.is_some() || pos.resolved_order.is_none() {
        return None;
    }
    let price: Option<i64> = match ltp {
        Some(v) if v > 0 => Some(v),
        _ => None,
    };
    match pos.state {
        TradeState::Closed => None,
        TradeState::WaitingForEntry => decide_waiting(
            pos,
            price,
            cfg,
            entry_cutoff,
            day_of_second(now.secs),
        ),
        _ => decide_held(pos, price, cfg, retry_window, now),
    }
}

/// Decide what to do next with a live position now, with the price that the feed has.
pub fn decide_live(
    pos: &MonitoredPosition,
    ltp_map: &DashMap<String, i64>,
    cfg: &TradingConfig,
    entry_cutoff: bool,
    retry_window: bool,
) -> (res: Option<LiveAction>)
    ensures
        exists|now: IstTime, v: Option<i64>|
            #![trigger now.valid(), shows(*ltp_map, price_key(pos@), v)]
            now.valid() && shows(*ltp_map, price_key(pos@), v) && action_view(res) == decision(
                pos@,
                v,
                cfg@,
                entry_cutoff,
                retry_window,
                now,
            ),
{
    let now: IstTime = now_ist();
    let ltp: Option<i64> = position_price(pos, ltp_map);
    let res: Option<LiveAction> = decide_live_at(pos, ltp, cfg, entry_cutoff, retry_window, now);
    proof {
        let v = choose|v: Option<i64>| #[trigger]
            shows(*ltp_map, price_key(pos@), v) && ltp == real_price(v);
        assert(now.valid() && shows(*ltp_map, price_key(pos@), v));
    }
    res
}

// ---------------------------------------------------------------------------
// Laws of the decisions
// ---------------------------------------------------------------------------

/// How much an action sells.
pub open spec fn sold_by(a: LiveActionView) -> int {
    match a {
        LiveActionView::Target1 { slice, .. } => slice as int,
        LiveActionView::ExitAll { qty, .. } => qty as int,
        LiveActionView::ManualSell { qty } => qty as int,
        _ => 0,
    }
}

/// Whether a position is held and watched.
pub open spec fn is_open(state: TradeState) -> bool {
    state == TradeState::Active || state == TradeState::Target1Hit
}

/// Nothing is decided for a position that was halted, has no contract or is closed.
pub proof fn halted_positions_are_left_alone(
    pos: MonitoredPositionView,
    ltp: Option<i64>,
    cfg: TradingConfigView,
    entry_cutoff: bool,
    retry_window: bool,
    now: IstTime,
)
    requires
        pos.live_halt is Some || pos.resolved_order is None || pos.state == TradeState::Closed,
    ensures
        decision(pos, ltp, cfg, entry_cutoff, retry_window, now) is None,
{
}

/// Nothing is sold while a sale of the same position is in flight, or once too many have
/// failed.
pub proof fn no_second_sale_in_flight(
    pos: MonitoredPositionView,
    ltp: Option<i64>,
    cfg: TradingConfigView,
    entry_cutoff: bool,
    retry_window: bool,
    now: IstTime,
)
    requires
        is_open(pos.state),
        pos.pending_exit_order_id is Some || pos.exit_attempts >= MAX_EXIT_ATTEMPTS,
    ensures
        decision(pos, ltp, cfg, entry_cutoff, retry_window, now) is None,
{
}

/// No action sells more than is held, and what sells at all sells something.
pub proof fn never_sells_more_than_held(
    pos: MonitoredPositionView,
    ltp: Option<i64>,
    cfg: TradingConfigView,
    entry_cutoff: bool,
    retry_window: bool,
    now: IstTime,
)
    ensures
        decision(pos, ltp, cfg, entry_cutoff, retry_window, now) matches Some(a) ==> {
            &&& sold_by(a) <= larger(pos.executed_qty as int, 0)
            &&& sold_by(a) > 0 ==> is_open(pos.state)
            &&& (a is Target1 || a is ExitAll || a is ManualSell) ==> sold_by(a) > 0
        },
{
    slice_fits_the_holding(pos.executed_qty, lot_size(pos) as i32, cfg.target_1_exit_pct);
}

/// The sale at target 1 and what is kept make up the holding; neither is empty.
pub proof fn target1_splits_the_holding(
    pos: MonitoredPositionView,
    ltp: Option<i64>,
    cfg: TradingConfigView,
    entry_cutoff: bool,
    retry_window: bool,
    now: IstTime,
)
    ensures
        decision(pos, ltp, cfg, entry_cutoff, retry_window, now) matches Some(
            LiveActionView::Target1 { slice, keep, .. },
        ) ==> slice > 0 && keep > 0 && slice + keep == pos.executed_qty,
{
    slice_fits_the_holding(pos.executed_qty, lot_size(pos) as i32, cfg.target_1_exit_pct);
}

/// With the kill switch on, a waiting entry is given up and never placed.
pub proof fn kill_switch_gives_up_waiting_entries(
    pos: MonitoredPositionView,
    ltp: Option<i64>,
    cfg: TradingConfigView,
    entry_cutoff: bool,
    retry_window: bool,
    now: IstTime,
)
    requires
        cfg.kill_switch_active,
        pos.state == TradeState::WaitingForEntry,
        pos.live_halt is None,
        pos.resolved_order is Some,
    ensures
        decision(pos, ltp, cfg, entry_cutoff, retry_window, now) == Some(
            LiveActionView::AbandonEntry { reason: "KILL_SWITCH_ACTIVE"@, loud: false },
        ),
{
}

/// A forced exit sells the whole holding, whatever the price.
pub proof fn forced_exit_sells_everything(
    pos: MonitoredPositionView,
    ltp: Option<i64>,
    cfg: TradingConfigView,
    entry_cutoff: bool,
    retry_window: bool,
    now: IstTime,
)
    requires
        is_open(pos.state),
        pos.live_halt is None,
        pos.resolved_order is Some,
        !exits_blocked(pos, retry_window),
        pos.executed_qty > 0,
        pos.force_exit is Some,
    ensures
        decision(pos, ltp, cfg, entry_cutoff, retry_window, now) == Some(
            LiveActionView::ExitAll { qty: pos.executed_qty, reason: pos.force_exit->0 },
        ),
{
}

/// A price at or below the stop sells the whole holding.
pub proof fn stop_sells_everything(
    pos: MonitoredPositionView,
    ltp: i64,
    cfg: TradingConfigView,
    entry_cutoff: bool,
    retry_window: bool,
    now: IstTime,
)
    requires
        is_open(pos.state),
        pos.live_halt is None,
        pos.resolved_order is Some,
        !exits_blocked(pos, retry_window),
        pos.executed_qty > 0,
        0 < ltp <= tick_down(pos.current_sl as int, pos.tick_size as int),
    ensures
        decision(pos, Some(ltp), cfg, entry_cutoff, retry_window, now) matches Some(
            LiveActionView::ExitAll { qty, .. },
        ) && qty == pos.executed_qty,
{
}

/// A dynamic runner is never sold at a target: unless its exit is forced or due, or a sale
/// is asked for, it only trails, or leaves at its stop.
pub proof fn dynamic_runner_leaves_only_at_its_stop(
    pos: MonitoredPositionView,
    ltp: Option<i64>,
    cfg: TradingConfigView,
    entry_cutoff: bool,
    retry_window: bool,
    now: IstTime,
)
    requires
        pos.state == TradeState::Target1Hit,
        pos.next_dynamic_target is Some,
        pos.force_exit is None,
        pos.manual_sell_qty is None,
        !squareoff_due(pos, now),
    ensures
        decision(pos, ltp, cfg, entry_cutoff, retry_window, now) matches Some(a) ==> (
        a is TrailDynamic || (a == LiveActionView::ExitAll {
            qty: pos.executed_qty,
            reason: "TRAIL_SL_HIT"@,
        } && ltp->0 <= tick_down(pos.current_sl as int, pos.tick_size as int))),
{
}

/// An entry is only taken on a position made today, with no order out, at a price that has
/// reached the entry and is short of target 1, for a positive number of whole lots.
pub proof fn entries_are_sound(
    pos: MonitoredPositionView,
    ltp: Option<i64>,
    cfg: TradingConfigView,
    entry_cutoff: bool,
    retry_window: bool,
    now: IstTime,
)
    ensures
        decision(pos, ltp, cfg, entry_cutoff, retry_window, now) matches Some(
            LiveActionView::PlaceEntry { qty, ltp: price },
        ) ==> {
            &&& pos.state == TradeState::WaitingForEntry
            &&& !cfg.kill_switch_active && !entry_cutoff
            &&& timestamp_read(pos.created_at) is Some
            &&& day_of(timestamp_read(pos.created_at)->0 as int) == now.today()
            &&& pos.entry_order_id is None
            &&& ltp == Some(price) && price > 0
            &&& entry_reached(pos.signal, price as int)
            &&& pos.signal.targets.len() > 0 ==> price < pos.signal.targets[0]
            &&& qty > 0 && qty as int % lot_size(pos) == 0
        },
{
    entry_qty_fits(pos.signal, lot_size(pos), pos.override_qty, cfg, ltp);
}

/// The stop of a dynamic runner lies between its rung and the distance to target 1 below it,
/// so never below the entry.
pub proof fn runner_stop_protects_the_entry(
    pos: MonitoredPositionView,
    ltp: Option<i64>,
    cfg: TradingConfigView,
    entry_cutoff: bool,
    retry_window: bool,
    now: IstTime,
)
    requires
        pos.signal.targets.len() > 0,
        pos.avg_buy_price < pos.signal.targets[0],
        cfg.dynamic_targeting_trail_factor >= 0,
        pos.next_dynamic_target is Some ==> pos.signal.targets[0] <= pos.next_dynamic_target->0,
    ensures
        ({
            let diff = pos.signal.targets[0] - pos.avg_buy_price;
            let a = decision(pos, ltp, cfg, entry_cutoff, retry_window, now);
            &&& a matches Some(LiveActionView::TrailDynamic { new_sl, rung_hit, .. })
                ==> rung_hit - diff <= new_sl <= rung_hit && pos.avg_buy_price <= new_sl
            &&& a matches Some(LiveActionView::Target1 { new_sl, dynamic_rung: Some(rung), .. })
                ==> rung - diff <= new_sl <= rung && pos.avg_buy_price <= new_sl
        }),
{
    rung_stop_lies_between_entry_and_rung(
        pos.signal.targets[0] as int,
        pos.avg_buy_price as int,
        pos.signal.targets[0] as int,
        cfg.dynamic_targeting_trail_factor as int,
        pos.tick_size as int,
    );
    if pos.next_dynamic_target is Some {
        rung_stop_lies_between_entry_and_rung(
            pos.next_dynamic_target->0 as int,
            pos.avg_buy_price as int,
            pos.signal.targets[0] as int,
            trail_share(cfg),
            pos.tick_size as int,
        );
    }
}

/// Without dynamic targeting its trail factor plays no part in any decision.
pub proof fn trail_factor_rests_without_dynamic_targeting(
    pos: MonitoredPositionView,
    ltp: Option<i64>,
    cfg: TradingConfigView,
    entry_cutoff: bool,
    retry_window: bool,
    now: IstTime,
    factor: i64,
)
    requires
        !cfg.dynamic_targeting,
    ensures
        decision(pos, ltp, cfg, entry_cutoff, retry_window, now) == decision(
            pos,
            ltp,
            (TradingConfigView { dynamic_targeting_trail_factor: factor, ..cfg }),
            entry_cutoff,
            retry_window,
            now,
        ),
{
}

/// Each rung of a dynamic runner is higher than the one before.
pub proof fn rungs_climb(
    pos: MonitoredPositionView,
    ltp: Option<i64>,
    cfg: TradingConfigView,
    entry_cutoff: bool,
    retry_window: bool,
    now: IstTime,
)
    requires
        cfg.dynamic_targeting_extension_factor > 0,
        pos.signal.targets.len() > 0,
        pos.avg_buy_price < pos.signal.targets[0],
        pos.next_dynamic_target is Some ==> pos.next_dynamic_target->0 < i64::MAX,
        pos.signal.targets[0] < i64::MAX,
    ensures
        decision(pos, ltp, cfg, entry_cutoff, retry_window, now) matches Some(
            LiveActionView::TrailDynamic { next_target, rung_hit, .. },
        ) ==> next_target > rung_hit,
        decision(pos, ltp, cfg, entry_cutoff, retry_window, now) matches Some(
            LiveActionView::Target1 { next_dynamic_target: Some(next), dynamic_rung: Some(rung), .. },
        ) ==> next > rung,
{
    let diff = pos.signal.targets[0] - pos.avg_buy_price;
    next_rung_is_higher(
        pos.signal.targets[0] as int,
        diff,
        cfg.dynamic_targeting_extension_factor as int,
    );
    if pos.next_dynamic_target is Some {
        next_rung_is_higher(
            pos.next_dynamic_target->0 as int,
            diff,
            cfg.dynamic_targeting_extension_factor as int,
        );
    }
}

/// Trailing before target 1 changes nothing but the highest price and the stop, and nothing
/// at all unless it is switched on and the position is active.
pub proof fn trailing_touches_only_the_stop(
    pos: MonitoredPositionView,
    ltp: i64,
    cfg: TradingConfigView,
)
    ensures
        ({
            let after = trailed(pos, ltp as int, cfg).0;
            &&& after == (MonitoredPositionView {
                peak_ltp: after.peak_ltp,
                current_sl: after.current_sl,
                ..pos
            })
            &&& (!cfg.pre_t1_trailing || pos.state != TradeState::Active) ==> after == pos
            &&& trailed(pos, ltp as int, cfg).1 is None ==> after.current_sl == pos.current_sl
        }),
{
}

/// The highest price on record never falls.
pub proof fn peak_never_falls(pos: MonitoredPositionView, ltp: i64, cfg: TradingConfigView)
    requires
        pos.peak_ltp is Some,
    ensures
        trailed(pos, ltp as int, cfg).0.peak_ltp is Some,
        trailed(pos, ltp as int, cfg).0.peak_ltp->0 >= pos.peak_ltp->0,
{
}

/// A trailed stop is never below the stop of the signal.
pub proof fn trailed_stop_keeps_the_signal_floor(
    pos: MonitoredPositionView,
    ltp: i64,
    cfg: TradingConfigView,
)
    ensures
        trailed(pos, ltp as int, cfg).1 matches Some(stop) ==> stop >= pos.signal.stop_loss,
{
}

/// Under the same settings a pullback does not move a stop that stands where it belongs.
pub proof fn pullback_does_not_move_the_stop(
    pos: MonitoredPositionView,
    high: i64,
    low: i64,
    cfg: TradingConfigView,
)
    requires
        pos.tick_size >= 0,
        low <= high,
        trailed(pos, high as int, cfg).1 is Some,
    ensures
        trailed(trailed(pos, high as int, cfg).0, low as int, cfg) == (
            trailed(pos, high as int, cfg).0,
            None::<i64>,
        ),
{
    let first = trailed(pos, high as int, cfg).0;
    assert(trailed(first, low as int, cfg).0 == first);
}

/// A position is not stale on the day it was made, and stale on any other.
pub proof fn a_position_is_fresh_for_a_day(made: IstTime, text: Seq<char>, today: int)
    requires
        made.valid(),
        made.secs < YEAR_10000,
        is_timestamp_of(text, made),
    ensures
        stale_reason(text, false, today) is None <==> today == made.today(),
        stale_reason(text, true, today) == Some("EOD_NO_ENTRY"@),
{
}

/// Whether sales of a position may be decided on: it is held and not halted, its contract is
/// known, no sale of it is in flight, and a sale that failed may be tried again.
pub open spec fn may_sell(pos: MonitoredPositionView, retry_window: bool) -> bool {
    &&& pos.state == TradeState::Active || pos.state == TradeState::Target1Hit
    &&& pos.live_halt is None
    &&& pos.resolved_order is Some
    &&& pos.executed_qty > 0
    &&& pos.pending_exit_order_id is None
    &&& pos.exit_attempts <= 0 || (pos.exit_attempts < 3 && retry_window)
}

/// A sale is only decided on where one may be; where none may be, nothing at all is decided for
/// a position that is held.
pub proof fn sales_need_leave(
    pos: MonitoredPositionView,
    ltp: Option<i64>,
    cfg: TradingConfigView,
    entry_cutoff: bool,
    retry_window: bool,
    now: IstTime,
)
    requires
        pos.state != TradeState::WaitingForEntry,
        !may_sell(pos, retry_window),
    ensures
        decision(pos, ltp, cfg, entry_cutoff, retry_window, now) is None,
{
}

/// What leaves a position as a whole comes first: a forced exit, then the expiry, then a price
/// at or below the stop. Each sells exactly what is held, and each under its own name.
pub proof fn exits_come_first(
    pos: MonitoredPositionView,
    ltp: Option<i64>,
    cfg: TradingConfigView,
    entry_cutoff: bool,
    retry_window: bool,
    now: IstTime,
)
    requires
        may_sell(pos, retry_window),
    ensures
        ({
            let a = decision(pos, ltp, cfg, entry_cutoff, retry_window, now);
            let last_day = expiry_read(pos.signal.expiry->0);
            let due = pos.signal.expiry is Some && last_day is Some && last_day->0 == now.today()
                && now.past_squareoff();
            let hit = ltp is Some && 0 < ltp->0 <= tick_down(
                pos.current_sl as int,
                pos.tick_size as int,
            );
            let moved_up = pos.state == TradeState::Target1Hit || pos.current_sl
                > pos.signal.stop_loss;
            &&& pos.force_exit matches Some(why) ==> a == Some(
                LiveActionView::ExitAll { qty: pos.executed_qty, reason: why },
            )
            &&& pos.force_exit is None && due ==> a == Some(
                LiveActionView::ExitAll { qty: pos.executed_qty, reason: "EXPIRY_SQUAREOFF"@ },
            )
            &&& pos.force_exit is None && !due && hit && moved_up ==> a == Some(
                LiveActionView::ExitAll { qty: pos.executed_qty, reason: "TRAIL_SL_HIT"@ },
            )
            &&& pos.force_exit is None && !due && hit && !moved_up ==> a == Some(
                LiveActionView::ExitAll { qty: pos.executed_qty, reason: "SL_HIT"@ },
            )
        }),
{
}

/// Above the stop nothing is sold for the stop's sake: with no forced exit, no expiry and no
/// request by hand, a holding only leaves or shrinks at a target that the price has reached.
pub proof fn holdings_are_kept_between_stop_and_target(
    pos: MonitoredPositionView,
    ltp: Option<i64>,
    cfg: TradingConfigView,
    entry_cutoff: bool,
    retry_window: bool,
    now: IstTime,
)
    requires
        pos.state == TradeState::Active || pos.state == TradeState::Target1Hit,
        pos.force_exit is None,
        pos.manual_sell_qty is None || pos.manual_sell_qty->0 <= 0,
        !squareoff_due(pos, now),
        ltp is Some && ltp->0 > 0 ==> ltp->0 > pos.current_sl && (pos.tick_size > 0
            ==> pos.current_sl >= i64::MIN + pos.tick_size),
        ltp is Some && pos.state == TradeState::Active ==> pos.signal.targets.len() == 0 || ltp->0
            < pos.signal.targets[0],
        ltp is Some && pos.state == TradeState::Target1Hit ==> if pos.next_dynamic_target is Some {
            ltp->0 < pos.next_dynamic_target->0
        } else {
            pos.signal.targets.len() <= 1 || ltp->0 < pos.signal.targets[1]
        },
    ensures
        decision(pos, ltp, cfg, entry_cutoff, retry_window, now) is None,
{
    if pos.tick_size > 0 && ltp is Some && ltp->0 > 0 {
        rounding_stays_on_the_grid(pos.current_sl, pos.tick_size);
    }
}

/// A sale by hand is of exactly what was asked for, as long as so much is held, and of all that
/// is held otherwise; it is never of more than was asked for.
pub proof fn hand_sales_are_what_was_asked(
    pos: MonitoredPositionView,
    ltp: Option<i64>,
    cfg: TradingConfigView,
    entry_cutoff: bool,
    retry_window: bool,
    now: IstTime,
)
    ensures
        decision(pos, ltp, cfg, entry_cutoff, retry_window, now) matches Some(
            LiveActionView::ManualSell { qty },
        ) ==> {
            &&& pos.manual_sell_qty matches Some(asked)
            &&& 0 < qty <= asked
            &&& asked <= pos.executed_qty ==> qty == asked
            &&& asked > pos.executed_qty ==> qty == pos.executed_qty
        },
{
}

/// A sale that was asked for by hand is decided on as soon as nothing more pressing is: no
/// forced exit, no expiry, and no price at or below the stop.
pub proof fn hand_sales_are_owed(
    pos: MonitoredPositionView,
    ltp: Option<i64>,
    cfg: TradingConfigView,
    entry_cutoff: bool,
    retry_window: bool,
    now: IstTime,
)
    requires
        may_sell(pos, retry_window),
        pos.force_exit is None,
        !squareoff_due(pos, now),
        pos.manual_sell_qty is Some && pos.manual_sell_qty->0 > 0,
        ltp is None || ltp->0 <= 0 || ltp->0 > tick_down(
            pos.current_sl as int,
            pos.tick_size as int,
        ),
    ensures
        decision(pos, ltp, cfg, entry_cutoff, retry_window, now) matches Some(
            LiveActionView::ManualSell { qty },
        ) && qty <= pos.manual_sell_qty->0,
{
}

/// Whether nothing but a target can move a position: it may be sold, and no forced exit, no
/// expiry, no request by hand and no stop comes first.
pub open spec fn only_targets_count(
    pos: MonitoredPositionView,
    ltp: i64,
    retry_window: bool,
    now: IstTime,
) -> bool {
    &&& may_sell(pos, retry_window)
    &&& pos.force_exit is None
    &&& pos.manual_sell_qty is None
    &&& !squareoff_due(pos, now)
    &&& ltp > 0
    &&& ltp > tick_down(pos.current_sl as int, pos.tick_size as int)
}

/// A price at or beyond target 1 takes it. Without dynamic targeting and without a second
/// target everything is sold; otherwise what is sold is a lot with dynamic targeting, and the
/// configured share without, unless that is all there is.
pub proof fn target1_is_taken(
    pos: MonitoredPositionView,
    ltp: i64,
    cfg: TradingConfigView,
    entry_cutoff: bool,
    retry_window: bool,
    now: IstTime,
)
    requires
        only_targets_count(pos, ltp, retry_window, now),
        pos.state == TradeState::Active,
        pos.signal.targets.len() > 0,
        ltp >= pos.signal.targets[0],
    ensures
        ({
            let a = decision(pos, Some(ltp), cfg, entry_cutoff, retry_window, now);
            let all = LiveActionView::ExitAll { qty: pos.executed_qty, reason: "TGT1_FULL"@ };
            let share = slice_at_target1(
                pos.executed_qty as int,
                lot_size(pos),
                cfg.target_1_exit_pct as int,
            );
            &&& !cfg.dynamic_targeting && (pos.signal.targets.len() == 1 || share
                == pos.executed_qty) ==> a == Some(all)
            &&& cfg.dynamic_targeting && pos.executed_qty <= lot_size(pos) ==> a == Some(all)
            &&& !cfg.dynamic_targeting && pos.signal.targets.len() > 1 && share < pos.executed_qty
                ==> {
                &&& a matches Some(LiveActionView::Target1 {
                    slice,
                    new_sl,
                    next_dynamic_target,
                    dynamic_rung,
                    ..
                })
                &&& slice == share
                &&& next_dynamic_target is None && dynamic_rung is None
                &&& pos.tick_size > 0 && pos.avg_buy_price + pos.signal.targets[0] >= 2 * (i64::MIN
                    + pos.tick_size) ==> {
                    &&& 2 * new_sl <= pos.avg_buy_price + pos.signal.targets[0]
                    &&& pos.avg_buy_price + pos.signal.targets[0] < 2 * new_sl + 2 * pos.tick_size
                        + 2
                    &&& new_sl as int % pos.tick_size as int == 0
                }
            }
            &&& cfg.dynamic_targeting && pos.executed_qty > lot_size(pos) ==> {
                &&& a matches Some(LiveActionView::Target1 {
                    slice,
                    new_sl,
                    next_dynamic_target: Some(next),
                    dynamic_rung,
                    ..
                })
                &&& slice == lot_size(pos)
                &&& dynamic_rung == Some(pos.signal.targets[0])
                &&& rung_is_placed(
                    pos,
                    cfg.dynamic_targeting_trail_factor,
                    cfg,
                    pos.signal.targets[0],
                    new_sl,
                    next,
                )
            }
        }),
{
    let mid = (pos.avg_buy_price + pos.signal.targets[0]) / 2;
    slice_fits_the_holding(pos.executed_qty, lot_size(pos) as i32, cfg.target_1_exit_pct);
    if pos.tick_size > 0 && mid >= i64::MIN + pos.tick_size {
        rounding_stays_on_the_grid(mid as i64, pos.tick_size);
    }
}

/// Whether the stop and the next rung stand as far from a rung as the settings say: the stop
/// `factor` times the distance from the entry to target 1 below it, on the tick grid and no
/// further below than that distance, and the next rung the extension factor times that distance
/// above it.
pub open spec fn rung_is_placed(
    pos: MonitoredPositionView,
    factor: i64,
    cfg: TradingConfigView,
    rung: i64,
    new_sl: i64,
    next: i64,
) -> bool {
    let diff = pos.signal.targets[0] - pos.avg_buy_price;
    &&& new_sl == rung_stop(rung as int, diff, factor as int, pos.tick_size as int)
    &&& next == level_above(rung as int, diff, cfg.dynamic_targeting_extension_factor as int)
}

/// A runner without rungs is sold whole at target 2. One with rungs trails at each rung that
/// the price reaches: the stop and the next rung are set from the rung that was hit, with half
/// the distance for the stop once dynamic targeting is off.
pub proof fn runners_go_on_as_set(
    pos: MonitoredPositionView,
    ltp: i64,
    cfg: TradingConfigView,
    entry_cutoff: bool,
    retry_window: bool,
    now: IstTime,
)
    requires
        only_targets_count(pos, ltp, retry_window, now),
        pos.state == TradeState::Target1Hit,
    ensures
        ({
            let a = decision(pos, Some(ltp), cfg, entry_cutoff, retry_window, now);
            &&& pos.next_dynamic_target is None && pos.signal.targets.len() > 1 && ltp
                >= pos.signal.targets[1] ==> a == Some(
                LiveActionView::ExitAll { qty: pos.executed_qty, reason: "TGT2_HIT"@ },
            )
            &&& pos.next_dynamic_target matches Some(rung) ==> pos.signal.targets.len() > 0 && ltp
                >= rung ==> {
                &&& a matches Some(LiveActionView::TrailDynamic { new_sl, next_target, rung_hit })
                &&& rung_hit == rung
                &&& cfg.dynamic_targeting ==> rung_is_placed(
                    pos,
                    cfg.dynamic_targeting_trail_factor,
                    cfg,
                    rung,
                    new_sl,
                    next_target,
                )
                &&& !cfg.dynamic_targeting ==> rung_is_placed(
                    pos,
                    500_000,
                    cfg,
                    rung,
                    new_sl,
                    next_target,
                )
            }
        }),
{
}

/// Whether nothing keeps a position from its entry but the price: it waits, is not halted, its
/// contract is known, no order is out, the kill switch is off, no exit is forced, and it was
/// made today before the last entries.
pub open spec fn may_enter(
    pos: MonitoredPositionView,
    cfg: TradingConfigView,
    entry_cutoff: bool,
    now: IstTime,
) -> bool {
    &&& pos.state == TradeState::WaitingForEntry
    &&& pos.live_halt is None
    &&& pos.resolved_order is Some
    &&& pos.entry_order_id is None
    &&& !cfg.kill_switch_active
    &&& pos.force_exit is None
    &&& !entry_cutoff
    &&& timestamp_read(pos.created_at) is Some
    &&& day_of(timestamp_read(pos.created_at)->0 as int) == now.today()
}

/// A waiting position enters as soon as the price has reached its entry and is short of target
/// 1, for the quantity that its size calls for; a price at or beyond target 1, or a quantity
/// that cannot be ordered, gives it up; until then nothing is done.
pub proof fn entries_are_owed(
    pos: MonitoredPositionView,
    ltp: Option<i64>,
    cfg: TradingConfigView,
    entry_cutoff: bool,
    retry_window: bool,
    now: IstTime,
)
    requires
        may_enter(pos, cfg, entry_cutoff, now),
    ensures
        ({
            let a = decision(pos, ltp, cfg, entry_cutoff, retry_window, now);
            let there = ltp is Some && ltp->0 > 0 && entry_reached(pos.signal, ltp->0 as int);
            let spent = pos.signal.targets.len() > 0 && ltp->0 >= pos.signal.targets[0];
            let qty = entry_qty(pos.signal, lot_size(pos), pos.override_qty, cfg, ltp);
            &&& !there ==> a is None
            &&& there && spent ==> (a matches Some(LiveActionView::AbandonEntry { loud, .. })
                && loud)
            &&& there && !spent && qty > 0 && qty % lot_size(pos) == 0 ==> (a matches Some(
                LiveActionView::PlaceEntry { qty: q, ltp: price },
            ) && q == qty && Some(price) == ltp)
            &&& there && !spent && !(qty > 0 && qty % lot_size(pos) == 0) ==> (a matches Some(
                LiveActionView::AbandonEntry { loud, .. },
            ) && !loud)
        }),
{
    entry_qty_fits(pos.signal, lot_size(pos), pos.override_qty, cfg, ltp);
}

/// A waiting position that must not enter any more is given up, whatever the price: by the kill
/// switch, by a forced exit under the reason of that exit, late in the day, or on any day but
/// the one it was made on.
pub proof fn spoiled_entries_are_given_up(
    pos: MonitoredPositionView,
    ltp: Option<i64>,
    cfg: TradingConfigView,
    entry_cutoff: bool,
    retry_window: bool,
    now: IstTime,
)
    requires
        pos.state == TradeState::WaitingForEntry,
        pos.live_halt is None,
        pos.resolved_order is Some,
    ensures
        ({
            let a = decision(pos, ltp, cfg, entry_cutoff, retry_window, now);
            let made = timestamp_read(pos.created_at);
            &&& !cfg.kill_switch_active ==> (pos.force_exit matches Some(why) ==> a == Some(
                LiveActionView::AbandonEntry { reason: why, loud: false },
            ))
            &&& !cfg.kill_switch_active && pos.force_exit is None && entry_cutoff ==> a == Some(
                LiveActionView::AbandonEntry { reason: "EOD_NO_ENTRY"@, loud: false },
            )
            &&& !cfg.kill_switch_active && pos.force_exit is None && !entry_cutoff && (made is None
                || day_of(made->0 as int) != now.today()) ==> a == Some(
                LiveActionView::AbandonEntry { reason: "STALE_CARRYOVER"@, loud: false },
            )
        }),
{
}

/// The price of the entry is the lowest one that reaches an entry from above, and the highest
/// one that reaches an entry from below; an entry without a side is never reached.
pub proof fn the_entry_price_is_the_border(signal: TradeSignalView, ltp: int)
    ensures
        ({
            let side = uppercased(signal.entry_condition);
            &&& side == "ABOVE"@ ==> (entry_reached(signal, ltp) <==> signal.entry_price <= ltp)
            &&& side == "BELOW"@ ==> (entry_reached(signal, ltp) <==> ltp <= signal.entry_price)
            &&& side != "ABOVE"@ && side != "BELOW"@ ==> !entry_reached(signal, ltp)
        }),
{
    reveal_strlit("ABOVE");
    reveal_strlit("BELOW");
    assert("ABOVE"@[0] != "BELOW"@[0]);
}

/// Once the highest price has covered the share of the way to target 1 that arms the trail, the
/// stop stands within half a tick of where it belongs: the trail distance below the highest
/// price, on the tick grid, and never below the stop of the signal. Until then it stays.
pub proof fn an_armed_stop_follows_the_peak(
    pos: MonitoredPositionView,
    ltp: i64,
    cfg: TradingConfigView,
)
    requires
        cfg.pre_t1_trailing,
        pos.state == TradeState::Active,
        pos.signal.targets.len() > 0,
        pos.avg_buy_price < pos.signal.targets[0],
    ensures
        ({
            let after = trailed(pos, ltp as int, cfg).0;
            let diff = pos.signal.targets[0] - pos.avg_buy_price;
            let peak = after.peak_ltp->0;
            let level = tick_down(
                level_below(peak as int, diff, cfg.pre_t1_trail_factor as int),
                pos.tick_size as int,
            );
            let armed = (peak - pos.avg_buy_price) * 100_000_000 >= diff
                * cfg.pre_t1_trail_arm_pct;
            &&& after.peak_ltp is Some && peak >= ltp
            &&& pos.peak_ltp is Some ==> peak >= pos.peak_ltp->0 && (peak == ltp || peak
                == pos.peak_ltp->0)
            &&& pos.peak_ltp is None ==> peak == ltp
            &&& !armed ==> after.current_sl == pos.current_sl && trailed(pos, ltp as int, cfg).1
                is None
            &&& armed && level >= pos.signal.stop_loss ==> 2 * (after.current_sl - level)
                <= larger(pos.tick_size as int, 0) && 2 * (level - after.current_sl) <= larger(
                pos.tick_size as int,
                0,
            )
            &&& armed && level < pos.signal.stop_loss ==> 2 * (after.current_sl
                - pos.signal.stop_loss) <= larger(pos.tick_size as int, 0) && 2 * (
            pos.signal.stop_loss - after.current_sl) <= larger(pos.tick_size as int, 0)
            &&& trailed(pos, ltp as int, cfg).1 matches Some(stop) ==> after.current_sl == stop
                && (pos.tick_size >= 0 ==> stop != pos.current_sl)
        }),
{
    let diff = pos.signal.targets[0] - pos.avg_buy_price;
    let peak = peak_of(pos.peak_ltp, ltp as int);
    assert((peak - pos.avg_buy_price) * 100 * UNIT == (peak - pos.avg_buy_price) * 100_000_000)
        by (nonlinear_arith);
}

/// What is said of an entry beyond target 1 names the price first and then the target; what is
/// said of a quantity that cannot be ordered names it first and then the lot size.
pub proof fn refusals_say_what_was_refused(ltp: int, t1: int, qty: int, lot: int)
    ensures
        begins_with(
            spent_text(ltp, t1),
            "entry "@ + two_places(ltp) + " is already at/through target 1 ("@ + two_places(t1),
        ),
        begins_with(bad_quantity_text(qty, lot), "invalid quantity "@ + int_text(qty)),
        finishes_with(bad_quantity_text(qty, lot), int_text(lot)),
{
    let a = "entry "@ + two_places(ltp) + " is already at/through target 1 ("@ + two_places(t1);
    let b = ") — wrong contract or stale signal, not entering"@;
    pieces_stand_in_their_text(a, b, Seq::empty());
    let c = "invalid quantity "@ + int_text(qty);
    let d = " for lot size "@;
    let s = bad_quantity_text(qty, lot);
    pieces_stand_in_their_text(c, d + int_text(lot), Seq::empty());
    assert(s =~= c + (d + int_text(lot)));
    pieces_stand_in_their_text(c + d, int_text(lot), Seq::empty());
    assert(s =~= (c + d) + int_text(lot));
}

/// Only a positive price can be acted on, and then it is the one that was seen.
pub proof fn only_positive_prices_count(p: Option<i64>)
    ensures
        real_price(p) is Some <==> p is Some && p->0 > 0,
        real_price(p) is Some ==> real_price(p) == p,
{
}

/// A position goes by the key of its contract in the price feed, and by the name of its
/// instrument where it has none.
pub proof fn positions_go_by_their_contract(pos: MonitoredPositionView)
    ensures
        pos.ws_scrip_key matches Some(k) ==> price_key(pos) == k,
        pos.ws_scrip_key is None ==> price_key(pos) == pos.signal.instrument_name,
{
}

/// Without a tick grid the stop of a runner at target 1 is half way to the millionth.
pub proof fn target1_stop_without_a_grid(
    pos: MonitoredPositionView,
    ltp: i64,
    cfg: TradingConfigView,
    entry_cutoff: bool,
    retry_window: bool,
    now: IstTime,
)
    requires
        only_targets_count(pos, ltp, retry_window, now),
        pos.state == TradeState::Active,
        pos.signal.targets.len() > 0,
        ltp >= pos.signal.targets[0],
        !cfg.dynamic_targeting,
        pos.tick_size <= 0,
    ensures
        decision(pos, Some(ltp), cfg, entry_cutoff, retry_window, now) matches Some(
            LiveActionView::Target1 { new_sl, .. },
        ) ==> 2 * new_sl <= pos.avg_buy_price + pos.signal.targets[0] < 2 * new_sl + 2,
{
}

} // verus!
