//! Simulated trading: decisions are carried out at the price that was seen.
use vstd::prelude::*;

use crate::clock::{day_of_second, IstTime};
use crate::decide::{
    entry_past_target1, entry_triggered, is_expiry_squareoff_due, spent_message,
    stale_entry_reason_on,
};
use crate::decimal::{div_down, div_up, to_i32, to_i64};
use crate::desk::{notice, push_effect, Effect, Notice, NoticeCode, TradeFill};
use crate::domain::{clone_opt, MonitoredPosition, TradeState, TradingConfig};
use crate::sizing::{compute_entry_qty, lot_size_of, paper_slice_qty};
use crate::text::i64_text;
use crate::tick::{drop_closed, trail_all};

#[allow(unused_imports)]
use crate::clock::{day_of, expiry_read, timestamp_read};

#[allow(unused_imports)]
use crate::decide::{
    entry_reached, real_price, spent_target, spent_text, squareoff_due, stale_reason,
};

#[allow(unused_imports)]
use crate::decimal::{ceil_div, fit32, fit64};

#[allow(unused_imports)]
use crate::desk::{
    bare_notice, effects_view, open_ones, EffectView, NoticeView, TradeFillView,
};

#[allow(unused_imports)]
use crate::domain::{views, MonitoredPositionView, TradingConfigView};

#[allow(unused_imports)]
use crate::sizing::{entry_qty, entry_qty_fits, lot_size, paper_slice, paper_slice_fits_the_holding};

#[allow(unused_imports)]
use crate::text::{begins_with, finishes_with, int_text, pieces_stand_in_their_text};

#[allow(unused_imports)]
use crate::tick::{trail_each, trail_moved, trail_notes};

verus! {

/// What to do with a simulated position.
#[derive(Debug)]
pub enum PosAction {
    EntryBuy { qty: i32 },
    /// Sell `qty`. With a new stop the position runs on behind it; without one it is over.
    /// `exec_price` is the price to book, in place of the one that was seen.
    ExitSell { qty: i32, reason: String, new_sl: Option<i64>, exec_price: Option<i64> },
    /// Refuse the trade.
    Cancel { reason: String },
    /// Drop a position whose entry will not be taken.
    Expire { reason: String },
}

/// What a [`PosAction`] says.
pub ghost enum PosActionView {
    EntryBuy { qty: i32 },
    ExitSell { qty: i32, reason: Seq<char>, new_sl: Option<i64>, exec_price: Option<i64> },
    Cancel { reason: Seq<char> },
    Expire { reason: Seq<char> },
}

impl View for PosAction {
    type V = PosActionView;

    open spec fn view(&self) -> PosActionView {
        match self {
            PosAction::EntryBuy { qty } => PosActionView::EntryBuy { qty: *qty },
            PosAction::ExitSell { qty, reason, new_sl, exec_price } => PosActionView::ExitSell {
                qty: *qty,
                reason: reason@,
                new_sl: *new_sl,
                exec_price: *exec_price,
            },
            PosAction::Cancel { reason } => PosActionView::Cancel { reason: reason@ },
            PosAction::Expire { reason } => PosActionView::Expire { reason: reason@ },
        }
    }
}

/// What an optional action says.
pub open spec fn pos_action_view(a: Option<PosAction>) -> Option<PosActionView> {
    match a {
        Some(x) => Some(x@),
        None => None,
    }
}

// ---------------------------------------------------------------------------
// Deciding
// ---------------------------------------------------------------------------

/// A sale of the whole holding.
pub open spec fn sell_all(
    p: MonitoredPositionView,
    reason: Seq<char>,
    exec_price: Option<i64>,
) -> PosActionView {
    PosActionView::ExitSell { qty: p.executed_qty, reason, new_sl: None, exec_price }
}

/// What is said of a quantity that cannot be bought.
pub open spec fn paper_quantity_text(qty: int, lot: int) -> Seq<char> {
    "Invalid quantity "@ + int_text(qty) + ", must be positive multiple of lot size "@ + int_text(
        lot,
    )
}

fn paper_quantity_message(qty: i32, lot: i32) -> (res: String)
    ensures
        res@ == paper_quantity_text(qty as int, lot as int),
{
    let mut out: String = "Invalid quantity ".to_string();
    out.append(i64_text(qty as i64).as_str());
    out.append(", must be positive multiple of lot size ");
    out.append(i64_text(lot as i64).as_str());
    out
}

/// Why a waiting position is dropped whatever the price.
pub open spec fn waiting_expiry(
    p: MonitoredPositionView,
    cfg: TradingConfigView,
    entry_cutoff: bool,
    today: int,
) -> Option<Seq<char>> {
    if p.state != TradeState::WaitingForEntry {
        None
    } else if cfg.kill_switch_active {
        Some("KILL_SWITCH_ACTIVE"@)
    } else if p.force_exit is Some {
        p.force_exit
    } else {
        stale_reason(p.created_at, entry_cutoff, today)
    }
}

/// What to do with a waiting position at a price.
pub open spec fn paper_entry(
    p: MonitoredPositionView,
    ltp: i64,
    cfg: TradingConfigView,
) -> Option<PosActionView> {
    if !entry_reached(p.signal, ltp as int) {
        None
    } else if spent_target(p.signal, ltp as int) is Some {
        Some(
            PosActionView::Cancel {
                reason: spent_text(ltp as int, spent_target(p.signal, ltp as int)->0 as int),
            },
        )
    } else {
        let lot = lot_size(p);
        let qty = entry_qty(p.signal, lot, p.override_qty, cfg, Some(ltp));
        if qty <= 0 || qty % lot != 0 {
            Some(PosActionView::Cancel { reason: paper_quantity_text(qty, lot) })
        } else {
            Some(PosActionView::EntryBuy { qty: qty as i32 })
        }
    }
}

/// The stop behind a simulated runner: half way from the entry to target 1, rounded down to a
/// whole multiple of a positive tick and up to one of a negative tick.
pub open spec fn midway_stop(entry: int, t1: int, tick: int) -> int {
    if tick > 0 {
        fit64(((entry + t1) / (2 * tick)) * tick)
    } else if tick < 0 {
        fit64(ceil_div(entry + t1, -2 * tick) * -tick)
    } else {
        (entry + t1) / 2
    }
}

/// What to do with an active position at a price. At target 1 a part is sold and the rest runs
/// on; without a second target all is sold.
pub open spec fn paper_active(
    p: MonitoredPositionView,
    ltp: i64,
    cfg: TradingConfigView,
) -> Option<PosActionView> {
    if p.force_exit is Some {
        Some(sell_all(p, p.force_exit->0, p.override_exit_price))
    } else if ltp <= p.current_sl {
        Some(
            sell_all(
                p,
                if p.current_sl > p.signal.stop_loss {
                    "TRAIL_SL_HIT"@
                } else {
                    "SL_HIT"@
                },
                None,
            ),
        )
    } else if p.signal.targets.len() > 0 && ltp >= p.signal.targets[0] {
        Some(
            if p.signal.targets.len() > 1 {
                PosActionView::ExitSell {
                    qty: paper_slice(
                        p.executed_qty as int,
                        lot_size(p),
                        cfg.target_1_exit_pct as int,
                    ) as i32,
                    reason: "TGT1_PARTIAL"@,
                    new_sl: Some(
                        midway_stop(
                            p.avg_buy_price as int,
                            p.signal.targets[0] as int,
                            p.tick_size as int,
                        ) as i64,
                    ),
                    exec_price: None,
                }
            } else {
                sell_all(p, "TGT1_FULL"@, None)
            },
        )
    } else {
        None
    }
}

/// What to do with a runner at a price.
pub open spec fn paper_runner(p: MonitoredPositionView, ltp: i64) -> Option<PosActionView> {
    if p.force_exit is Some {
        Some(sell_all(p, p.force_exit->0, p.override_exit_price))
    } else if ltp <= p.current_sl {
        Some(sell_all(p, "TRAIL_SL_HIT"@, None))
    } else if p.signal.targets.len() > 1 && ltp >= p.signal.targets[1] {
        Some(sell_all(p, "TGT2_HIT"@, None))
    } else {
        None
    }
}

/// What to do with a simulated position.
pub open spec fn paper_decision(
    p: MonitoredPositionView,
    price: Option<i64>,
    cfg: TradingConfigView,
    entry_cutoff: bool,
    now: IstTime,
) -> Option<PosActionView> {
    let expiry = waiting_expiry(p, cfg, entry_cutoff, now.today());
    if expiry is Some {
        Some(PosActionView::Expire { reason: expiry->0 })
    } else {
        match real_price(price) {
            None => None,
            Some(ltp) => match p.state {
                TradeState::WaitingForEntry => paper_entry(p, ltp, cfg),
                TradeState::Closed => None,
                _ => if p.force_exit is None && squareoff_due(p, now) {
                    Some(sell_all(p, "EXPIRY_SQUAREOFF"@, None))
                } else if p.state == TradeState::Active {
                    paper_active(p, ltp, cfg)
                } else {
                    paper_runner(p, ltp)
                },
            },
        }
    }
}

fn decide_entry(p: &MonitoredPosition, ltp: i64, cfg: &TradingConfig) -> (res: Option<PosAction>)
    ensures
        pos_action_view(res) == paper_entry(p@, ltp, cfg@),
{
    if !entry_triggered(&p.signal, ltp) {
        return None;
    }
    if let Some(t1) = entry_past_target1(&p.signal, ltp) {
        return Some(PosAction::Cancel { reason: spent_message(ltp, t1) });
    }
    let lot: i32 = lot_size_of(p);
    let qty: i32 = compute_entry_qty(&p.signal, lot, p.override_qty, cfg, Some(ltp));
    if qty <= 0 || qty % lot != 0 {
        Some(PosAction::Cancel { reason: paper_quantity_message(qty, lot) })
    } else {
        Some(PosAction::EntryBuy { qty })
    }
}

fn midway(entry: i64, t1: i64, tick: i64) -> (res: i64)
    ensures
        res == midway_stop(entry as int, t1 as int, tick as int),
{
    let sum: i128 = entry as i128 + t1 as i128;
    if tick > 0 {
        let steps: i128 = div_down(sum, 2 * tick as i128);
        proof {
            lemma_steps_fit(sum as int, tick as int);
        }
        to_i64(steps * tick as i128)
    } else if tick < 0 {
        let size: i128 = -(tick as i128);
        let steps: i128 = div_up(sum, 2 * size);
        proof {
            lemma_steps_fit(-sum as int, size as int);
            assert((-((-(sum as int)) / (2 * size as int))) * (size as int) == -(((-(sum as int)) / (2
                * size as int)) * size as int)) by (nonlinear_arith);
        }
        to_i64(steps * size)
    } else {
        div_down(sum, 2) as i64
    }
}

proof fn lemma_steps_fit(sum: int, tick: int)
    by (nonlinear_arith)
    requires
        tick > 0,
    ensures
        sum - 2 * tick < 2 * ((sum / (2 * tick)) * tick) <= sum,
{
}

fn decide_active(p: &MonitoredPosition, ltp: i64, cfg: &TradingConfig) -> (res: Option<PosAction>)
    ensures
        pos_action_view(res) == paper_active(p@, ltp, cfg@),
{
    if let Some(reason) = &p.force_exit {
        return Some(
            PosAction::ExitSell {
                qty: p.executed_qty,
                reason: reason.clone(),
                new_sl: None,
                exec_price: p.override_exit_price,
            },
        );
    }
    if ltp <= p.current_sl {
        let reason: String = if p.current_sl > p.signal.stop_loss {
            "TRAIL_SL_HIT".to_string()
        } else {
            "SL_HIT".to_string()
        };
        return Some(
            PosAction::ExitSell { qty: p.executed_qty, reason, new_sl: None, exec_price: None },
        );
    }
    if p.signal.targets.len() > 0 && ltp >= p.signal.targets[0] {
        if p.signal.targets.len() > 1 {
            let qty: i32 = paper_slice_qty(p.executed_qty, lot_size_of(p), cfg.target_1_exit_pct);
            let stop: i64 = midway(p.avg_buy_price, p.signal.targets[0], p.tick_size);
            return Some(
                PosAction::ExitSell {
                    qty,
                    reason: "TGT1_PARTIAL".to_string(),
                    new_sl: Some(stop),
                    exec_price: None,
                },
            );
        }
        return Some(
            PosAction::ExitSell {
                qty: p.executed_qty,
                reason: "TGT1_FULL".to_string(),
                new_sl: None,
                exec_price: None,
            },
        );
    }
    None
}

fn decide_runner(p: &MonitoredPosition, ltp: i64) -> (res: Option<PosAction>)
    ensures
        pos_action_view(res) == paper_runner(p@, ltp),
{
    let mut exec_price: Option<i64> = None;
    let reason: String = if let Some(reason) = &p.force_exit {
        exec_price = p.override_exit_price;
        reason.clone()
    } else if ltp <= p.current_sl {
        "TRAIL_SL_HIT".to_string()
    } else if p.signal.targets.len() > 1 && ltp >= p.signal.targets[1] {
        "TGT2_HIT".to_string()
    } else {
        return None;
    };
    Some(PosAction::ExitSell { qty: p.executed_qty, reason, new_sl: None, exec_price })
}

/// Decide what to do with a simulated position.
pub fn decide_paper(
    p: &MonitoredPosition,
    price: Option<i64>,
    cfg: &TradingConfig,
    entry_cutoff: bool,
    now: IstTime,
) -> (res: Option<PosAction>)
    requires
        now.valid(),
    ensures
        pos_action_view(res) == paper_decision(p@, price, cfg@, entry_cutoff, now),
{
    if p.state == TradeState::WaitingForEntry {
        if cfg.kill_switch_active {
            return Some(PosAction::Expire { reason: "KILL_SWITCH_ACTIVE".to_string() });
        }
        if let Some(reason) = &p.force_exit {
            return Some(PosAction::Expire { reason: reason.clone() });
        }
        if let Some(reason) = stale_entry_reason_on(p, entry_cutoff, day_of_second(now.secs)) {
            return Some(PosAction::Expire { reason: reason.to_string() });
        }
    }
    let ltp: i64 = match price {
        Some(v) if v > 0 => v,
        _ => {
            return None;
        },
    };
    match p.state {
        TradeState::WaitingForEntry => decide_entry(p, ltp, cfg),
        TradeState::Closed => None,
        _ => {
            if p.force_exit.is_none() && is_expiry_squareoff_due(p, now) {
                return Some(
                    PosAction::ExitSell {
                        qty: p.executed_qty,
                        reason: "EXPIRY_SQUAREOFF".to_string(),
                        new_sl: None,
                        exec_price: None,
                    },
                );
            }
            if p.state == TradeState::Active {
                decide_active(p, ltp, cfg)
            } else {
                decide_runner(p, ltp)
            }
        },
    }
}

// ---------------------------------------------------------------------------
// Carrying out
// ---------------------------------------------------------------------------

/// A simulated purchase or sale.
pub open spec fn paper_fill(
    p: MonitoredPositionView,
    buy: bool,
    qty: i32,
    price: i64,
    reason: Seq<char>,
    mode: Seq<char>,
) -> TradeFillView {
    TradeFillView {
        instrument: p.signal.instrument_name,
        buy,
        qty,
        price,
        is_options: p.signal.option_type is Some,
        avg_buy_price: p.avg_buy_price,
        signal_id: p.signal.signal_id,
        raw_message: p.signal.raw_message,
        reason,
        mode,
    }
}

fn fill_of(
    p: &MonitoredPosition,
    buy: bool,
    qty: i32,
    price: i64,
    reason: &str,
    mode: &str,
) -> (res: TradeFill)
    ensures
        res@ == paper_fill(p@, buy, qty, price, reason@, mode@),
{
    TradeFill {
        instrument: p.signal.instrument_name.clone(),
        buy,
        qty,
        price,
        is_options: p.signal.option_type.is_some(),
        avg_buy_price: p.avg_buy_price,
        signal_id: clone_opt(&p.signal.signal_id),
        raw_message: clone_opt(&p.signal.raw_message),
        reason: reason.to_string(),
        mode: mode.to_string(),
    }
}

/// A position after an action was carried out at the price `ltp`.
pub open spec fn applied(p: MonitoredPositionView, a: PosActionView, ltp: i64)
    -> MonitoredPositionView {
    match a {
        PosActionView::EntryBuy { qty } => MonitoredPositionView {
            avg_buy_price: ltp,
            executed_qty: qty,
            state: TradeState::Active,
            ..p
        },
        PosActionView::ExitSell { qty, new_sl, .. } => {
            let left = MonitoredPositionView {
                executed_qty: fit32(p.executed_qty - qty) as i32,
                ..p
            };
            match new_sl {
                Some(sl) => MonitoredPositionView {
                    current_sl: sl,
                    state: TradeState::Target1Hit,
                    ..left
                },
                None => MonitoredPositionView { state: TradeState::Closed, ..left },
            }
        },
        _ => MonitoredPositionView { state: TradeState::Closed, ..p },
    }
}

/// What there is to write down after an action was carried out.
pub open spec fn applied_effects(
    p: MonitoredPositionView,
    a: PosActionView,
    ltp: i64,
    mode: Seq<char>,
) -> Seq<EffectView> {
    match a {
        PosActionView::EntryBuy { qty } => seq![
            EffectView::Trade(
                paper_fill(
                    MonitoredPositionView { avg_buy_price: ltp, ..p },
                    true,
                    qty,
                    ltp,
                    "ENTRY"@,
                    mode,
                ),
            ),
        ],
        PosActionView::ExitSell { qty, reason, new_sl, exec_price } => {
            let price = if exec_price is Some {
                exec_price->0
            } else {
                ltp
            };
            let trade = seq![EffectView::Trade(paper_fill(p, false, qty, price, reason, mode))];
            match new_sl {
                Some(sl) => trade.push(
                    EffectView::Note(
                        NoticeView {
                            price: sl,
                            ..bare_notice(
                                NoticeCode::StopTrailed,
                                false,
                                p.signal.instrument_name,
                            )
                        },
                    ),
                ),
                None => trade,
            }
        },
        PosActionView::Cancel { reason } => seq![
            EffectView::Note(
                NoticeView {
                    reason,
                    ..bare_notice(NoticeCode::TradeCancelled, true, p.signal.instrument_name)
                },
            ),
        ],
        PosActionView::Expire { reason } => seq![
            EffectView::Note(
                NoticeView {
                    reason,
                    ..bare_notice(NoticeCode::EntryAbandoned, false, p.signal.instrument_name)
                },
            ),
        ],
    }
}

fn apply(
    p: &mut MonitoredPosition,
    a: PosAction,
    ltp: i64,
    mode: &str,
    effects: &mut Vec<Effect>,
)
    ensures
        final(p)@ == applied(old(p)@, a@, ltp),
        effects_view(final(effects)@) == effects_view(old(effects)@) + applied_effects(
            old(p)@,
            a@,
            ltp,
            mode@,
        ),
{
    let ghost was = p@;
    let ghost had = effects_view(effects@);
    let ghost what = a@;
    match a {
        PosAction::EntryBuy { qty } => {
            p.avg_buy_price = ltp;
            push_effect(effects, Effect::Trade(fill_of(p, true, qty, ltp, "ENTRY", mode)));
            p.executed_qty = qty;
            p.state = TradeState::Active;
        },
        PosAction::ExitSell { qty, reason, new_sl, exec_price } => {
            let price: i64 = match exec_price {
                Some(v) => v,
                None => ltp,
            };
            push_effect(
                effects,
                Effect::Trade(fill_of(p, false, qty, price, reason.as_str(), mode)),
            );
            p.executed_qty = to_i32(p.executed_qty as i128 - qty as i128);
            match new_sl {
                Some(sl) => {
                    p.current_sl = sl;
                    p.state = TradeState::Target1Hit;
                    let mut n: Notice = notice(
                        NoticeCode::StopTrailed,
                        false,
                        p.signal.instrument_name.as_str(),
                    );
                    n.price = sl;
                    push_effect(effects, Effect::Note(n));
                },
                None => {
                    p.state = TradeState::Closed;
                },
            }
        },
        PosAction::Cancel { reason } => {
            p.state = TradeState::Closed;
            let mut n: Notice = notice(
                NoticeCode::TradeCancelled,
                true,
                p.signal.instrument_name.as_str(),
            );
            n.reason = reason;
            push_effect(effects, Effect::Note(n));
        },
        PosAction::Expire { reason } => {
            p.state = TradeState::Closed;
            let mut n: Notice = notice(
                NoticeCode::EntryAbandoned,
                false,
                p.signal.instrument_name.as_str(),
            );
            n.reason = reason;
            push_effect(effects, Effect::Note(n));
        },
    }
    assert(effects_view(effects@) =~= had + applied_effects(was, what, ltp, mode@));
}

/// The price that an action is carried out at.
pub open spec fn seen(price: Option<i64>) -> i64 {
    match real_price(price) {
        Some(v) => v,
        None => 0,
    }
}

/// A position after its action, if any, was carried out.
pub open spec fn paper_step(
    p: MonitoredPositionView,
    price: Option<i64>,
    cfg: TradingConfigView,
    entry_cutoff: bool,
    now: IstTime,
) -> MonitoredPositionView {
    match paper_decision(p, price, cfg, entry_cutoff, now) {
        Some(a) => applied(p, a, seen(price)),
        None => p,
    }
}

/// The positions after their actions were carried out.
pub open spec fn paper_each(
    ps: Seq<MonitoredPositionView>,
    prices: Seq<Option<i64>>,
    cfg: TradingConfigView,
    entry_cutoff: bool,
    now: IstTime,
) -> Seq<MonitoredPositionView> {
    Seq::new(ps.len(), |i: int| paper_step(ps[i], prices[i], cfg, entry_cutoff, now))
}

/// What there is to write down of the first `n` positions.
pub open spec fn paper_effects(
    ps: Seq<MonitoredPositionView>,
    prices: Seq<Option<i64>>,
    cfg: TradingConfigView,
    entry_cutoff: bool,
    now: IstTime,
    n: int,
) -> Seq<EffectView>
    decreases n,
{
    if n <= 0 {
        Seq::empty()
    } else {
        let rest = paper_effects(ps, prices, cfg, entry_cutoff, now, n - 1);
        match paper_decision(ps[n - 1], prices[n - 1], cfg, entry_cutoff, now) {
            Some(a) => rest + applied_effects(ps[n - 1], a, seen(prices[n - 1]), cfg.mode),
            None => rest,
        }
    }
}

/// Whether anything is done with one of the first `n` positions.
pub open spec fn paper_acts(
    ps: Seq<MonitoredPositionView>,
    prices: Seq<Option<i64>>,
    cfg: TradingConfigView,
    entry_cutoff: bool,
    now: IstTime,
    n: int,
) -> bool {
    exists|i: int|
        0 <= i < n && (#[trigger] paper_decision(
            ps[i],
            prices[i],
            cfg,
            entry_cutoff,
            now,
        )) is Some
}

/// Whether a closed position is there.
pub open spec fn some_closed(ps: Seq<MonitoredPositionView>) -> bool {
    exists|i: int| 0 <= i < ps.len() && (#[trigger] ps[i]).state == TradeState::Closed
}

/// One simulated tick: trail the stops, decide and carry out, then drop what is over. Gives
/// back whether anything changed, and what there is to write down.
pub fn paper_tick(
    positions: &mut Vec<MonitoredPosition>,
    prices: &Vec<Option<i64>>,
    cfg: &TradingConfig,
    entry_cutoff: bool,
    now: IstTime,
) -> (res: (bool, Vec<Effect>))
    requires
        prices@.len() == old(positions)@.len(),
        now.valid(),
    ensures
        ({
            let ps = views(old(positions)@);
            let n = old(positions)@.len() as int;
            let trailed = trail_each(ps, prices@, cfg@);
            let stepped = paper_each(trailed, prices@, cfg@, entry_cutoff, now);
            &&& views(final(positions)@) == open_ones(stepped)
            &&& effects_view(res.1@) == trail_notes(ps, prices@, cfg@, n) + paper_effects(
                trailed,
                prices@,
                cfg@,
                entry_cutoff,
                now,
                n,
            )
            &&& res.0 == (trail_moved(ps, prices@, cfg@, n) || paper_acts(
                trailed,
                prices@,
                cfg@,
                entry_cutoff,
                now,
                n,
            ) || some_closed(stepped))
        }),
{
    let ghost n = positions@.len() as int;
    let (moved, mut effects): (bool, Vec<Effect>) = trail_all(positions, prices, cfg);
    let ghost first = effects_view(effects@);
    let ghost ps = views(positions@);
    let mut changed: bool = moved;
    let mut i: usize = 0;
    assert(ps.len() == n);
    while i < positions.len()
        invariant
            i <= positions@.len(),
            positions@.len() == n,
            ps.len() == n,
            prices@.len() == n,
            now.valid(),
            forall|j: int|
                0 <= j < i ==> (#[trigger] positions@[j])@ == paper_step(
                    ps[j],
                    prices@[j],
                    cfg@,
                    entry_cutoff,
                    now,
                ),
            forall|j: int| i <= j < n ==> (#[trigger] positions@[j])@ == ps[j],
            changed == (moved || paper_acts(ps, prices@, cfg@, entry_cutoff, now, i as int)),
            effects_view(effects@) == first + paper_effects(
                ps,
                prices@,
                cfg@,
                entry_cutoff,
                now,
                i as int,
            ),
        decreases n - i,
    {
        assert(positions@[i as int]@ == ps[i as int]);
        let ghost what = paper_decision(ps[i as int], prices@[i as int], cfg@, entry_cutoff, now);
        let ghost was_changed = changed;
        let action: Option<PosAction> = decide_paper(
            &positions[i],
            prices[i],
            cfg,
            entry_cutoff,
            now,
        );
        let ghost before = effects_view(effects@);
        let ghost rest = paper_effects(ps, prices@, cfg@, entry_cutoff, now, i as int);
        if let Some(a) = action {
            let ltp: i64 = match prices[i] {
                Some(v) if v > 0 => v,
                _ => 0,
            };
            apply(&mut positions[i], a, ltp, cfg.mode.as_str(), &mut effects);
            changed = true;
            assert(effects_view(effects@) =~= first + (rest + applied_effects(
                ps[i as int],
                what->0,
                seen(prices@[i as int]),
                cfg@.mode,
            )));
        }
        proof {
            if paper_acts(ps, prices@, cfg@, entry_cutoff, now, i + 1) {
                let k = choose|k: int|
                    0 <= k < i + 1 && (#[trigger] paper_decision(
                        ps[k],
                        prices@[k],
                        cfg@,
                        entry_cutoff,
                        now,
                    )) is Some;
                assert(k == i || paper_acts(ps, prices@, cfg@, entry_cutoff, now, i as int));
            }
            if paper_acts(ps, prices@, cfg@, entry_cutoff, now, i as int) {
                let k = choose|k: int|
                    0 <= k < i && (#[trigger] paper_decision(
                        ps[k],
                        prices@[k],
                        cfg@,
                        entry_cutoff,
                        now,
                    )) is Some;
                assert(paper_decision(ps[k], prices@[k], cfg@, entry_cutoff, now) is Some);
            }
        }
        i += 1;
    }
    assert(views(positions@) =~= paper_each(ps, prices@, cfg@, entry_cutoff, now));
    let dropped: bool = drop_closed(positions);
    (changed || dropped, effects)
}

// ---------------------------------------------------------------------------
// Laws of simulated trading
// ---------------------------------------------------------------------------

/// No simulated sale is of more than what is held.
pub proof fn paper_never_oversells(
    p: MonitoredPositionView,
    price: Option<i64>,
    cfg: TradingConfigView,
    entry_cutoff: bool,
    now: IstTime,
)
    requires
        p.executed_qty > 0,
    ensures
        paper_decision(p, price, cfg, entry_cutoff, now) matches Some(
            PosActionView::ExitSell { qty, .. },
        ) ==> 0 < qty <= p.executed_qty,
        paper_step(p, price, cfg, entry_cutoff, now).executed_qty >= 0,
{
    paper_slice_fits_the_holding(p.executed_qty, lot_size(p) as i32, cfg.target_1_exit_pct);
    entry_qty_fits(p.signal, lot_size(p), p.override_qty, cfg, price);
}

/// A position that a simulated sale closes has nothing left.
pub proof fn paper_closes_only_what_is_sold(
    p: MonitoredPositionView,
    price: Option<i64>,
    cfg: TradingConfigView,
    entry_cutoff: bool,
    now: IstTime,
)
    requires
        p.state == TradeState::Active || p.state == TradeState::Target1Hit,
    ensures
        paper_step(p, price, cfg, entry_cutoff, now).state == TradeState::Closed ==> paper_step(
            p,
            price,
            cfg,
            entry_cutoff,
            now,
        ).executed_qty == 0,
{
}

/// With the kill switch on, no simulated entry is taken and waiting ones are dropped.
pub proof fn paper_kill_switch_drops_waiting_entries(
    p: MonitoredPositionView,
    price: Option<i64>,
    cfg: TradingConfigView,
    entry_cutoff: bool,
    now: IstTime,
)
    requires
        cfg.kill_switch_active,
        p.state == TradeState::WaitingForEntry,
    ensures
        paper_step(p, price, cfg, entry_cutoff, now).state == TradeState::Closed,
        !(paper_decision(p, price, cfg, entry_cutoff, now) matches Some(
            PosActionView::EntryBuy { .. },
        )),
{
}

/// After a simulated tick no closed position is left.
pub proof fn paper_tick_leaves_no_closed_position(
    ps: Seq<MonitoredPositionView>,
    p: MonitoredPositionView,
)
    requires
        open_ones(ps).contains(p),
    ensures
        p.state != TradeState::Closed,
{
    crate::tick::only_closed_positions_are_dropped(ps, p);
}

/// The stop of a simulated runner lies half way between the entry and target 1: not above
/// half way, and less than a tick below it.
pub proof fn midway_stop_is_half_way(entry: i64, t1: i64, tick: i64)
    requires
        tick > 0,
        entry + t1 >= 2 * (i64::MIN + tick),
    ensures
        2 * midway_stop(entry as int, t1 as int, tick as int) <= entry + t1,
        entry + t1 < 2 * midway_stop(entry as int, t1 as int, tick as int) + 2 * tick,
{
    lemma_steps_fit(entry + t1, tick as int);
}

/// A price at or below the stop in force sells a simulated holding whole on that tick, before
/// and after target 1 alike, and books the sale at that price.
pub proof fn paper_stop_sells_everything(
    p: MonitoredPositionView,
    ltp: i64,
    cfg: TradingConfigView,
    entry_cutoff: bool,
    now: IstTime,
)
    requires
        p.state == TradeState::Active || p.state == TradeState::Target1Hit,
        p.force_exit is None,
        0 < ltp <= p.current_sl,
    ensures
        paper_decision(p, Some(ltp), cfg, entry_cutoff, now) matches Some(
            PosActionView::ExitSell { qty, new_sl, exec_price, .. },
        ) && qty == p.executed_qty && new_sl is None && exec_price is None,
        paper_step(p, Some(ltp), cfg, entry_cutoff, now) == (MonitoredPositionView {
            executed_qty: 0,
            state: TradeState::Closed,
            ..p
        }),
{
}

/// A simulated sale bears the name of what it was for: a forced exit its reason, an expiry,
/// the stop of the signal or one that was moved up, and the targets.
pub proof fn paper_sales_say_why(
    p: MonitoredPositionView,
    ltp: i64,
    cfg: TradingConfigView,
    entry_cutoff: bool,
    now: IstTime,
)
    requires
        p.state == TradeState::Active || p.state == TradeState::Target1Hit,
        ltp > 0,
    ensures
        ({
            let a = paper_decision(p, Some(ltp), cfg, entry_cutoff, now);
            let last_day = expiry_read(p.signal.expiry->0);
            let due = p.signal.expiry is Some && last_day is Some && last_day->0 == now.today()
                && now.past_squareoff();
            let free = p.force_exit is None && !due;
            let runs = p.state == TradeState::Target1Hit;
            &&& p.force_exit matches Some(why) ==> a == Some(
                PosActionView::ExitSell {
                    qty: p.executed_qty,
                    reason: why,
                    new_sl: None,
                    exec_price: p.override_exit_price,
                },
            )
            &&& p.force_exit is None && due ==> sells_all_for(p, a, "EXPIRY_SQUAREOFF"@)
            &&& free && ltp <= p.current_sl && (runs || p.current_sl > p.signal.stop_loss)
                ==> sells_all_for(p, a, "TRAIL_SL_HIT"@)
            &&& free && ltp <= p.current_sl && !runs && p.current_sl <= p.signal.stop_loss
                ==> sells_all_for(p, a, "SL_HIT"@)
            &&& free && ltp > p.current_sl && !runs && p.signal.targets.len() == 1 && ltp
                >= p.signal.targets[0] ==> sells_all_for(p, a, "TGT1_FULL"@)
            &&& free && ltp > p.current_sl && runs && p.signal.targets.len() > 1 && ltp
                >= p.signal.targets[1] ==> sells_all_for(p, a, "TGT2_HIT"@)
        }),
{
}

/// Whether an action sells the whole holding of a position at the price that was seen, for the
/// reason `why`.
pub open spec fn sells_all_for(
    p: MonitoredPositionView,
    a: Option<PosActionView>,
    why: Seq<char>,
) -> bool {
    a matches Some(PosActionView::ExitSell { qty, reason, new_sl, exec_price }) && qty
        == p.executed_qty && reason == why && new_sl is None && exec_price is None
}

/// Above the stop and short of its target a simulated holding is kept as it is, unless its exit
/// is forced or due.
pub proof fn paper_holdings_are_kept(
    p: MonitoredPositionView,
    price: Option<i64>,
    cfg: TradingConfigView,
    entry_cutoff: bool,
    now: IstTime,
)
    requires
        p.state == TradeState::Active || p.state == TradeState::Target1Hit,
        p.force_exit is None,
        !squareoff_due(p, now),
        price is Some && price->0 > 0 ==> price->0 > p.current_sl,
        price is Some && price->0 > 0 && p.state == TradeState::Active ==> p.signal.targets.len()
            == 0 || price->0 < p.signal.targets[0],
        price is Some && price->0 > 0 && p.state == TradeState::Target1Hit
            ==> p.signal.targets.len() <= 1 || price->0 < p.signal.targets[1],
    ensures
        paper_decision(p, price, cfg, entry_cutoff, now) is None,
        paper_step(p, price, cfg, entry_cutoff, now) == p,
{
}

/// At target 1 with a second target ahead, a simulated position sells the configured share and
/// runs on with the rest behind a stop half way between its entry and target 1.
pub proof fn paper_target1_keeps_a_runner(
    p: MonitoredPositionView,
    ltp: i64,
    cfg: TradingConfigView,
    entry_cutoff: bool,
    now: IstTime,
)
    requires
        p.state == TradeState::Active,
        p.force_exit is None,
        !squareoff_due(p, now),
        p.executed_qty > 0,
        ltp > 0,
        ltp > p.current_sl,
        p.signal.targets.len() > 1,
        ltp >= p.signal.targets[0],
        p.tick_size > 0,
        p.avg_buy_price + p.signal.targets[0] >= 2 * (i64::MIN + p.tick_size),
    ensures
        ({
            let a = paper_decision(p, Some(ltp), cfg, entry_cutoff, now);
            let q = paper_step(p, Some(ltp), cfg, entry_cutoff, now);
            let sold = paper_slice(
                p.executed_qty as int,
                lot_size(p),
                cfg.target_1_exit_pct as int,
            );
            &&& a matches Some(PosActionView::ExitSell { qty, reason, exec_price, .. })
            &&& qty == sold && reason == "TGT1_PARTIAL"@ && exec_price is None
            &&& q.executed_qty == p.executed_qty - sold
            &&& q.state == TradeState::Target1Hit
            &&& 2 * q.current_sl <= p.avg_buy_price + p.signal.targets[0] < 2 * q.current_sl + 2
                * p.tick_size
            &&& q.current_sl as int % p.tick_size as int == 0
            &&& q == (MonitoredPositionView {
                executed_qty: q.executed_qty,
                state: q.state,
                current_sl: q.current_sl,
                ..p
            })
        }),
{
    let sum = p.avg_buy_price + p.signal.targets[0];
    paper_slice_fits_the_holding(p.executed_qty, lot_size(p) as i32, cfg.target_1_exit_pct);
    midway_stop_is_half_way(p.avg_buy_price, p.signal.targets[0], p.tick_size);
    lemma_steps_fit(sum, p.tick_size as int);
    vstd::arithmetic::div_mod::lemma_mod_multiples_basic(
        sum / (2 * p.tick_size as int),
        p.tick_size as int,
    );
}

/// A simulated position that waits, and was made today before the last entries, is bought as
/// soon as the price has reached its entry and is short of target 1: it holds the quantity that
/// its size calls for, at that price. A price at or beyond target 1, or a quantity that cannot
/// be bought, ends it; until the entry is reached nothing is done.
pub proof fn paper_entries_are_owed(
    p: MonitoredPositionView,
    price: Option<i64>,
    cfg: TradingConfigView,
    entry_cutoff: bool,
    now: IstTime,
)
    requires
        p.state == TradeState::WaitingForEntry,
        !cfg.kill_switch_active,
        p.force_exit is None,
        !entry_cutoff,
        timestamp_read(p.created_at) is Some,
        day_of(timestamp_read(p.created_at)->0 as int) == now.today(),
    ensures
        ({
            let a = paper_decision(p, price, cfg, entry_cutoff, now);
            let q = paper_step(p, price, cfg, entry_cutoff, now);
            let there = price is Some && price->0 > 0 && entry_reached(p.signal, price->0 as int);
            let spent = p.signal.targets.len() > 0 && price->0 >= p.signal.targets[0];
            let qty = entry_qty(p.signal, lot_size(p), p.override_qty, cfg, price);
            &&& !there ==> a is None && q == p
            &&& there && !spent && qty > 0 && qty % lot_size(p) == 0 ==> {
                &&& q.executed_qty == qty && q.avg_buy_price == price->0 && q.state
                    == TradeState::Active
                &&& q == (MonitoredPositionView {
                    executed_qty: q.executed_qty,
                    avg_buy_price: q.avg_buy_price,
                    state: q.state,
                    ..p
                })
            }
            &&& there && (spent || qty <= 0 || qty % lot_size(p) != 0) ==> a is Some && a->0
                is Cancel && q == (MonitoredPositionView { state: TradeState::Closed, ..p })
        }),
{
    entry_qty_fits(p.signal, lot_size(p), p.override_qty, cfg, price);
}

/// A simulated position that must not enter any more is dropped, whatever the price.
pub proof fn paper_spoiled_entries_are_dropped(
    p: MonitoredPositionView,
    price: Option<i64>,
    cfg: TradingConfigView,
    entry_cutoff: bool,
    now: IstTime,
)
    requires
        p.state == TradeState::WaitingForEntry,
        cfg.kill_switch_active || p.force_exit is Some || entry_cutoff || timestamp_read(
            p.created_at,
        ) is None || day_of(timestamp_read(p.created_at)->0 as int) != now.today(),
    ensures
        paper_decision(p, price, cfg, entry_cutoff, now) matches Some(
            PosActionView::Expire { reason },
        ) && (!cfg.kill_switch_active ==> (p.force_exit matches Some(why) ==> reason == why)),
        paper_step(p, price, cfg, entry_cutoff, now) == (MonitoredPositionView {
            state: TradeState::Closed,
            ..p
        }),
{
}

/// The books follow the holding: whatever a simulated action does, the one trade that is
/// written down for it has exactly the quantity by which the holding changes, at the price
/// that was seen or the one that was asked for; an action without a trade leaves the holding.
pub proof fn paper_books_follow_the_holding(
    p: MonitoredPositionView,
    price: Option<i64>,
    cfg: TradingConfigView,
    entry_cutoff: bool,
    now: IstTime,
)
    requires
        p.state == TradeState::WaitingForEntry ==> p.executed_qty == 0,
        p.executed_qty >= 0,
        price is Some && price->0 > 0,
    ensures
        paper_decision(p, price, cfg, entry_cutoff, now) matches Some(a) ==> {
            let q = applied(p, a, price->0);
            let e = applied_effects(p, a, price->0, cfg.mode);
            &&& e.len() > 0
            &&& forall|k: int| 0 < k < e.len() ==> (#[trigger] e[k]) is Note
            &&& e[0] is Note ==> q.executed_qty == p.executed_qty && q.state == TradeState::Closed
            &&& e[0] matches EffectView::Trade(t) ==> {
                &&& t.instrument == p.signal.instrument_name
                &&& t.is_options == (p.signal.option_type is Some)
                &&& t.signal_id == p.signal.signal_id && t.raw_message == p.signal.raw_message
                &&& t.mode == cfg.mode
                &&& t.buy ==> t.qty == q.executed_qty - p.executed_qty && t.price == price->0
                    && t.reason == "ENTRY"@ && q.avg_buy_price == t.price
                &&& !t.buy ==> t.qty == p.executed_qty - q.executed_qty && t.avg_buy_price
                    == p.avg_buy_price
                &&& !t.buy && (p.force_exit is None || p.override_exit_price is None) ==> t.price
                    == price->0
                &&& !t.buy && p.force_exit is Some && p.override_exit_price is Some ==> Some(
                    t.price,
                ) == p.override_exit_price
            }
        },
{
    if p.executed_qty > 0 {
        paper_slice_fits_the_holding(p.executed_qty, lot_size(p) as i32, cfg.target_1_exit_pct);
    }
    if p.executed_qty == 0 {
        lemma_empty_slice(p, cfg);
    }
    entry_qty_fits(p.signal, lot_size(p), p.override_qty, cfg, price);
}

proof fn lemma_empty_slice(p: MonitoredPositionView, cfg: TradingConfigView)
    requires
        p.executed_qty == 0,
    ensures
        paper_slice(0, lot_size(p), cfg.target_1_exit_pct as int) == 0,
{
}

/// Where nothing can be seen, nothing is traded: without a price a simulated position that is
/// held stays as it is.
pub proof fn paper_needs_a_price(
    p: MonitoredPositionView,
    price: Option<i64>,
    cfg: TradingConfigView,
    entry_cutoff: bool,
    now: IstTime,
)
    requires
        price is None || price->0 <= 0,
    ensures
        paper_step(p, price, cfg, entry_cutoff, now).executed_qty == p.executed_qty,
        p.state != TradeState::WaitingForEntry ==> paper_step(p, price, cfg, entry_cutoff, now)
            == p,
{
}

/// A tick does with each position what its own price calls for, whatever else is on the list.
pub proof fn paper_positions_do_not_mix(
    ps: Seq<MonitoredPositionView>,
    prices: Seq<Option<i64>>,
    cfg: TradingConfigView,
    entry_cutoff: bool,
    now: IstTime,
    i: int,
)
    requires
        0 <= i < ps.len(),
        prices.len() == ps.len(),
    ensures
        paper_each(ps, prices, cfg, entry_cutoff, now).len() == ps.len(),
        paper_each(ps, prices, cfg, entry_cutoff, now)[i] == paper_step(
            ps[i],
            prices[i],
            cfg,
            entry_cutoff,
            now,
        ),
{
}

/// Whatever a simulated action has to write down is written down, at the price that was seen.
pub proof fn paper_trades_are_written_down(
    ps: Seq<MonitoredPositionView>,
    prices: Seq<Option<i64>>,
    cfg: TradingConfigView,
    entry_cutoff: bool,
    now: IstTime,
    n: int,
    i: int,
    k: int,
)
    requires
        0 <= i < n <= ps.len(),
        prices.len() == ps.len(),
        prices[i] is Some && prices[i]->0 > 0,
        paper_decision(ps[i], prices[i], cfg, entry_cutoff, now) is Some,
        0 <= k < applied_effects(
            ps[i],
            paper_decision(ps[i], prices[i], cfg, entry_cutoff, now)->0,
            prices[i]->0,
            cfg.mode,
        ).len(),
    ensures
        paper_effects(ps, prices, cfg, entry_cutoff, now, n).contains(
            applied_effects(
                ps[i],
                paper_decision(ps[i], prices[i], cfg, entry_cutoff, now)->0,
                prices[i]->0,
                cfg.mode,
            )[k],
        ),
    decreases n,
{
    let own = applied_effects(
        ps[i],
        paper_decision(ps[i], prices[i], cfg, entry_cutoff, now)->0,
        prices[i]->0,
        cfg.mode,
    );
    let all = paper_effects(ps, prices, cfg, entry_cutoff, now, n);
    let rest = paper_effects(ps, prices, cfg, entry_cutoff, now, n - 1);
    if i == n - 1 {
        assert(all == rest + own);
        assert(all[rest.len() + k] == own[k]);
    } else {
        paper_trades_are_written_down(ps, prices, cfg, entry_cutoff, now, n - 1, i, k);
        let j = choose|j: int| 0 <= j < rest.len() && rest[j] == own[k];
        assert(all[j] == rest[j]);
    }
}

/// Nothing is written down that no simulated action calls for.
pub proof fn paper_writes_down_nothing_else(
    ps: Seq<MonitoredPositionView>,
    prices: Seq<Option<i64>>,
    cfg: TradingConfigView,
    entry_cutoff: bool,
    now: IstTime,
    n: int,
)
    requires
        0 <= n <= ps.len(),
        forall|i: int|
            0 <= i < n ==> (#[trigger] paper_decision(ps[i], prices[i], cfg, entry_cutoff, now))
                is None,
    ensures
        paper_effects(ps, prices, cfg, entry_cutoff, now, n).len() == 0,
    decreases n,
{
    if n > 0 {
        assert(paper_decision(ps[n - 1], prices[n - 1], cfg, entry_cutoff, now) is None);
        paper_writes_down_nothing_else(ps, prices, cfg, entry_cutoff, now, n - 1);
    }
}

/// A tick on which no simulated action is taken changes no position and writes nothing down.
pub proof fn an_idle_tick_changes_nothing(
    ps: Seq<MonitoredPositionView>,
    prices: Seq<Option<i64>>,
    cfg: TradingConfigView,
    entry_cutoff: bool,
    now: IstTime,
)
    requires
        prices.len() == ps.len(),
    ensures
        ({
            let n = ps.len() as int;
            let after = paper_each(ps, prices, cfg, entry_cutoff, now);
            &&& !paper_acts(ps, prices, cfg, entry_cutoff, now, n) ==> after == ps
                && paper_effects(ps, prices, cfg, entry_cutoff, now, n).len() == 0
            &&& after != ps ==> paper_acts(ps, prices, cfg, entry_cutoff, now, n)
            &&& !some_closed(after) ==> open_ones(after) == after
            &&& some_closed(after) ==> open_ones(after) != after
        }),
{
    let n = ps.len() as int;
    let after = paper_each(ps, prices, cfg, entry_cutoff, now);
    if !paper_acts(ps, prices, cfg, entry_cutoff, now, n) {
        assert forall|i: int| 0 <= i < n implies (#[trigger] paper_decision(
            ps[i],
            prices[i],
            cfg,
            entry_cutoff,
            now,
        )) is None by {}
        assert forall|i: int| 0 <= i < n implies after[i] == ps[i] by {
            assert(paper_decision(ps[i], prices[i], cfg, entry_cutoff, now) is None);
        }
        assert(after =~= ps);
        paper_writes_down_nothing_else(ps, prices, cfg, entry_cutoff, now, n);
    }
    if some_closed(after) {
        let i = choose|i: int|
            0 <= i < after.len() && (#[trigger] after[i]).state == TradeState::Closed;
        if open_ones(after) == after {
            assert(open_ones(after).contains(after[i]));
            crate::tick::only_closed_positions_are_dropped(after, after[i]);
        }
    } else {
        let keep = |p: MonitoredPositionView| p.state != TradeState::Closed;
        assert forall|j: int| 0 <= j < after.len() implies keep(#[trigger] after[j]) by {
            assert(after[j].state != TradeState::Closed);
        }
        lemma_nothing_dropped(after, keep);
    }
}

proof fn lemma_nothing_dropped(
    ps: Seq<MonitoredPositionView>,
    keep: spec_fn(MonitoredPositionView) -> bool,
)
    requires
        forall|j: int| 0 <= j < ps.len() ==> keep(#[trigger] ps[j]),
    ensures
        ps.filter(keep) == ps,
    decreases ps.len(),
{
    reveal(Seq::filter);
    if ps.len() > 0 {
        let head = ps.drop_last();
        assert forall|j: int| 0 <= j < head.len() implies keep(#[trigger] head[j]) by {
            assert(head[j] == ps[j]);
        }
        lemma_nothing_dropped(head, keep);
        assert(ps.filter(keep) =~= ps);
    }
}

/// What is refused or dropped is reported with its reason; a refusal needs a human. A quantity
/// that cannot be bought is said first, then the lot size.
pub proof fn paper_refusals_say_why(
    p: MonitoredPositionView,
    reason: Seq<char>,
    ltp: i64,
    mode: Seq<char>,
    qty: int,
    lot: int,
)
    ensures
        ({
            let e = applied_effects(p, PosActionView::Cancel { reason }, ltp, mode);
            &&& e.len() == 1
            &&& e[0] matches EffectView::Note(n)
            &&& n.loud && n.reason == reason && n.instrument == p.signal.instrument_name
        }),
        ({
            let e = applied_effects(p, PosActionView::Expire { reason }, ltp, mode);
            &&& e.len() == 1
            &&& e[0] matches EffectView::Note(n)
            &&& !n.loud && n.reason == reason && n.instrument == p.signal.instrument_name
        }),
        begins_with(paper_quantity_text(qty, lot), "Invalid quantity "@ + int_text(qty)),
        finishes_with(paper_quantity_text(qty, lot), int_text(lot)),
{
    let a = "Invalid quantity "@ + int_text(qty);
    let b = ", must be positive multiple of lot size "@;
    let s = paper_quantity_text(qty, lot);
    pieces_stand_in_their_text(a, b + int_text(lot), Seq::empty());
    assert(s =~= a + (b + int_text(lot)));
    pieces_stand_in_their_text(a + b, int_text(lot), Seq::empty());
    assert(s =~= (a + b) + int_text(lot));
}

/// A runner's new stop is reported beside its sale.
pub proof fn paper_runners_report_their_stop(
    p: MonitoredPositionView,
    qty: i32,
    reason: Seq<char>,
    stop: i64,
    ltp: i64,
    mode: Seq<char>,
)
    ensures
        ({
            let a = PosActionView::ExitSell { qty, reason, new_sl: Some(stop), exec_price: None };
            let e = applied_effects(p, a, ltp, mode);
            &&& e.len() == 2
            &&& e[1] matches EffectView::Note(n)
            &&& n.code == NoticeCode::StopTrailed && !n.loud && n.price == stop && n.instrument
                == p.signal.instrument_name
        }),
{
}

/// Something is said to have been done on a tick exactly where something is written down.
pub proof fn what_is_done_is_written_down(
    ps: Seq<MonitoredPositionView>,
    prices: Seq<Option<i64>>,
    cfg: TradingConfigView,
    entry_cutoff: bool,
    now: IstTime,
    n: int,
)
    requires
        0 <= n <= ps.len(),
        prices.len() == ps.len(),
    ensures
        paper_acts(ps, prices, cfg, entry_cutoff, now, n) <==> paper_effects(
            ps,
            prices,
            cfg,
            entry_cutoff,
            now,
            n,
        ).len() > 0,
    decreases n,
{
    if n > 0 {
        what_is_done_is_written_down(ps, prices, cfg, entry_cutoff, now, n - 1);
        let own = paper_decision(ps[n - 1], prices[n - 1], cfg, entry_cutoff, now);
        if paper_acts(ps, prices, cfg, entry_cutoff, now, n - 1) {
            let k = choose|k: int|
                0 <= k < n - 1 && (#[trigger] paper_decision(
                    ps[k],
                    prices[k],
                    cfg,
                    entry_cutoff,
                    now,
                )) is Some;
            assert(paper_decision(ps[k], prices[k], cfg, entry_cutoff, now) is Some);
        }
        if paper_acts(ps, prices, cfg, entry_cutoff, now, n) && own is None {
            let k = choose|k: int|
                0 <= k < n && (#[trigger] paper_decision(
                    ps[k],
                    prices[k],
                    cfg,
                    entry_cutoff,
                    now,
                )) is Some;
            assert(k < n - 1);
            assert(paper_acts(ps, prices, cfg, entry_cutoff, now, n - 1));
        }
    }
}

/// Without a tick the stop of a simulated runner is half way to the millionth; a negative tick
/// rounds it up to the grid.
pub proof fn midway_stop_off_the_grid(entry: i64, t1: i64, tick: i64)
    requires
        i64::MIN < tick <= 0,
        entry + t1 <= 2 * (i64::MAX + tick),
        entry + t1 >= 2 * i64::MIN,
    ensures
        ({
            let m = midway_stop(entry as int, t1 as int, tick as int);
            &&& tick == 0 ==> 2 * m <= entry + t1 < 2 * m + 2
            &&& tick < 0 ==> entry + t1 <= 2 * m < entry + t1 - 2 * tick
        }),
{
    if tick < 0 {
        let sum = entry + t1;
        let size = -(tick as int);
        lemma_steps_fit(-sum, size);
        assert(ceil_div(sum, 2 * size) * size == -(((-sum) / (2 * size)) * size))
            by (nonlinear_arith);
        assert(-2 * (tick as int) == 2 * size);
    }
}

} // verus!
