//! What is done with all positions on a tick of the engine.
use vstd::prelude::*;

use dashmap::DashMap;

use crate::clock::IstTime;
use crate::decide::{decide_live_at, position_price, pre_t1_trail_update, LiveAction};
use crate::desk::{notice, push_effect, trading_symbol, Effect, Notice, NoticeCode};
use crate::domain::{MonitoredPosition, TradeState, TradingConfig};
use crate::execute::LivePending;

#[allow(unused_imports)]
use crate::decide::{decision, price_key, price_seen, real_price, trailed, LiveActionView};

#[allow(unused_imports)]
use crate::desk::{bare_notice, effects_view, open_ones, symbol_of, EffectView, NoticeView};

#[allow(unused_imports)]
use crate::domain::{views, MonitoredPositionView, TradingConfigView};

verus! {

/// How often the broker is asked, in nanoseconds.
pub const POLL_INTERVAL_NANOS: u128 = 2_000_000_000;

// ---------------------------------------------------------------------------
// When to do what
// ---------------------------------------------------------------------------

/// What a tick is for.
#[derive(Debug, Clone, Copy, PartialEq, Eq, Structural)]
pub enum TickWork {
    /// Nothing can be done.
    Skip,
    /// Simulate.
    Paper,
    /// Compare with the broker before anything is traded.
    Reconcile,
    /// Trade.
    Live,
}

/// What a tick is for. Live trading does not begin before the comparison with the broker has
/// succeeded; a failed comparison is tried again no more often than the broker is asked.
pub open spec fn work_of(
    live: bool,
    reconciled: bool,
    since_attempt: int,
    has_session: bool,
    empty: bool,
) -> TickWork {
    if !live {
        if empty {
            TickWork::Skip
        } else {
            TickWork::Paper
        }
    } else if !reconciled {
        if since_attempt >= POLL_INTERVAL_NANOS && has_session {
            TickWork::Reconcile
        } else {
            TickWork::Skip
        }
    } else if empty {
        TickWork::Skip
    } else {
        TickWork::Live
    }
}

/// What a tick is for.
pub fn tick_work(
    live: bool,
    reconciled: bool,
    since_attempt: u128,
    has_session: bool,
    empty: bool,
) -> (res: TickWork)
    ensures
        res == work_of(live, reconciled, since_attempt as int, has_session, empty),
{
    if !live {
        return if empty {
            TickWork::Skip
        } else {
            TickWork::Paper
        };
    }
    if !reconciled {
        return if since_attempt >= POLL_INTERVAL_NANOS && has_session {
            TickWork::Reconcile
        } else {
            TickWork::Skip
        };
    }
    if empty {
        TickWork::Skip
    } else {
        TickWork::Live
    }
}

/// Whether it is time to ask the broker again.
pub open spec fn asks_again(elapsed: int) -> bool {
    elapsed >= POLL_INTERVAL_NANOS
}

/// Whether it is time to ask the broker again.
pub fn poll_due(elapsed_nanos: u128) -> (res: bool)
    ensures
        res == (elapsed_nanos >= POLL_INTERVAL_NANOS),
        res == asks_again(elapsed_nanos as int),
{
    elapsed_nanos >= POLL_INTERVAL_NANOS
}

/// Nothing is traded live before the comparison with the broker has succeeded.
pub proof fn no_live_trading_before_reconciliation(
    live: bool,
    reconciled: bool,
    since_attempt: int,
    has_session: bool,
    empty: bool,
)
    ensures
        work_of(live, reconciled, since_attempt, has_session, empty) == TickWork::Live ==> live
            && reconciled,
        work_of(live, reconciled, since_attempt, has_session, empty) == TickWork::Paper ==> !live,
{
}

// ---------------------------------------------------------------------------
// Prices
// ---------------------------------------------------------------------------

/// The prices of all positions, as the feed has them.
pub fn read_prices(positions: &Vec<MonitoredPosition>, prices: &DashMap<String, i64>) -> (res: Vec<
    Option<i64>,
>)
    ensures
        res@.len() == positions@.len(),
        forall|i: int|
            0 <= i < res@.len() ==> price_seen(
                *prices,
                price_key(positions@[i]@),
                #[trigger] res@[i],
            ),
{
    let mut out: Vec<Option<i64>> = Vec::new();
    let mut i: usize = 0;
    while i < positions.len()
        invariant
            i <= positions@.len(),
            out@.len() == i,
            forall|j: int|
                0 <= j < i ==> price_seen(
                    *prices,
                    price_key(positions@[j]@),
                    #[trigger] out@[j],
                ),
        decreases positions@.len() - i,
    {
        out.push(position_price(&positions[i], prices));
        i += 1;
    }
    out
}

// ---------------------------------------------------------------------------
// Trailing
// ---------------------------------------------------------------------------

/// A position after the price that was seen, if any.
pub open spec fn trail_one(
    p: MonitoredPositionView,
    price: Option<i64>,
    cfg: TradingConfigView,
) -> (MonitoredPositionView, Option<i64>) {
    match real_price(price) {
        Some(v) => trailed(p, v as int, cfg),
        None => (p, None),
    }
}

/// The report that a stop began to trail.
pub open spec fn armed_note(p: MonitoredPositionView, stop: i64) -> EffectView {
    EffectView::Note(
        NoticeView {
            price: stop,
            ..bare_notice(NoticeCode::TrailArmed, false, p.signal.instrument_name)
        },
    )
}

/// The positions after the prices that were seen.
pub open spec fn trail_each(
    ps: Seq<MonitoredPositionView>,
    prices: Seq<Option<i64>>,
    cfg: TradingConfigView,
) -> Seq<MonitoredPositionView> {
    Seq::new(ps.len(), |i: int| trail_one(ps[i], prices[i], cfg).0)
}

/// What there is to report of the first `n` positions: only the first move of a stop away
/// from that of the signal.
pub open spec fn trail_notes(
    ps: Seq<MonitoredPositionView>,
    prices: Seq<Option<i64>>,
    cfg: TradingConfigView,
    n: int,
) -> Seq<EffectView>
    decreases n,
{
    if n <= 0 {
        Seq::empty()
    } else {
        let rest = trail_notes(ps, prices, cfg, n - 1);
        let p = ps[n - 1];
        match trail_one(p, prices[n - 1], cfg).1 {
            Some(stop) if p.current_sl <= p.signal.stop_loss => rest.push(armed_note(p, stop)),
            _ => rest,
        }
    }
}

/// Whether a stop of the first `n` positions moved.
pub open spec fn trail_moved(
    ps: Seq<MonitoredPositionView>,
    prices: Seq<Option<i64>>,
    cfg: TradingConfigView,
    n: int,
) -> bool {
    exists|i: int| 0 <= i < n && (#[trigger] trail_one(ps[i], prices[i], cfg)).1 is Some
}

/// Trail the stops of all positions that are short of target 1. Gives back whether a stop
/// moved, and what there is to report.
pub fn trail_all(
    positions: &mut Vec<MonitoredPosition>,
    prices: &Vec<Option<i64>>,
    cfg: &TradingConfig,
) -> (res: (bool, Vec<Effect>))
    requires
        prices@.len() == old(positions)@.len(),
    ensures
        views(final(positions)@) == trail_each(views(old(positions)@), prices@, cfg@),
        res.0 == trail_moved(
            views(old(positions)@),
            prices@,
            cfg@,
            old(positions)@.len() as int,
        ),
        effects_view(res.1@) == trail_notes(
            views(old(positions)@),
            prices@,
            cfg@,
            old(positions)@.len() as int,
        ),
{
    let ghost ps = views(positions@);
    let mut effects: Vec<Effect> = Vec::new();
    let mut moved: bool = false;
    let mut i: usize = 0;
    assert(effects_view(effects@) =~= Seq::<EffectView>::empty());
    while i < positions.len()
        invariant
            i <= positions@.len(),
            positions@.len() == ps.len(),
            prices@.len() == ps.len(),
            forall|j: int|
                0 <= j < i ==> (#[trigger] positions@[j])@ == trail_one(
                    ps[j],
                    prices@[j],
                    cfg@,
                ).0,
            forall|j: int| i <= j < ps.len() ==> (#[trigger] positions@[j])@ == ps[j],
            moved == trail_moved(ps, prices@, cfg@, i as int),
            effects_view(effects@) == trail_notes(ps, prices@, cfg@, i as int),
        decreases ps.len() - i,
    {
        assert(positions@[i as int]@ == ps[i as int]);
        let ghost one = trail_one(ps[i as int], prices@[i as int], cfg@);
        let ghost was_moved = moved;
        if let Some(v) = prices[i] {
            if v > 0 {
                let was_at_original: bool = positions[i].current_sl
                    <= positions[i].signal.stop_loss;
                let stop: Option<i64> = pre_t1_trail_update(&mut positions[i], v, cfg);
                if let Some(new_sl) = stop {
                    moved = true;
                    assert(trail_one(ps[i as int], prices@[i as int], cfg@).1 is Some);
                    if was_at_original {
                        let mut n: Notice = notice(
                            NoticeCode::TrailArmed,
                            false,
                            positions[i].signal.instrument_name.as_str(),
                        );
                        n.price = new_sl;
                        push_effect(&mut effects, Effect::Note(n));
                    }
                }
            }
        }
        proof {
            assert(moved == (was_moved || one.1 is Some));
            if trail_moved(ps, prices@, cfg@, i + 1) {
                let k = choose|k: int|
                    0 <= k < i + 1 && (#[trigger] trail_one(ps[k], prices@[k], cfg@)).1 is Some;
                assert(k == i || trail_moved(ps, prices@, cfg@, i as int));
            }
            if was_moved {
                let k = choose|k: int|
                    0 <= k < i && (#[trigger] trail_one(ps[k], prices@[k], cfg@)).1 is Some;
                assert(trail_one(ps[k], prices@[k], cfg@).1 is Some);
            }
        }
        i += 1;
    }
    assert(views(positions@) =~= trail_each(ps, prices@, cfg@));
    (moved, effects)
}

// ---------------------------------------------------------------------------
// Deciding
// ---------------------------------------------------------------------------

/// Decisions by what they say: the id of the position and the action.
pub open spec fn pendings_view(s: Seq<LivePending>) -> Seq<(Seq<char>, LiveActionView)> {
    s.map_values(|d: LivePending| (d.pos_id@, d.action@))
}

/// What is decided for the first `n` positions.
pub open spec fn decided(
    ps: Seq<MonitoredPositionView>,
    prices: Seq<Option<i64>>,
    cfg: TradingConfigView,
    entry_cutoff: bool,
    retry_window: bool,
    now: IstTime,
    n: int,
) -> Seq<(Seq<char>, LiveActionView)>
    decreases n,
{
    if n <= 0 {
        Seq::empty()
    } else {
        let rest = decided(ps, prices, cfg, entry_cutoff, retry_window, now, n - 1);
        match decision(ps[n - 1], prices[n - 1], cfg, entry_cutoff, retry_window, now) {
            Some(a) => rest.push((ps[n - 1].id, a)),
            None => rest,
        }
    }
}

/// Decide what to do next with each position. Nothing is changed.
pub fn decide_all(
    positions: &Vec<MonitoredPosition>,
    prices: &Vec<Option<i64>>,
    cfg: &TradingConfig,
    entry_cutoff: bool,
    retry_window: bool,
    now: IstTime,
) -> (res: Vec<LivePending>)
    requires
        prices@.len() == positions@.len(),
        now.valid(),
    ensures
        pendings_view(res@) == decided(
            views(positions@),
            prices@,
            cfg@,
            entry_cutoff,
            retry_window,
            now,
            positions@.len() as int,
        ),
{
    let ghost ps = views(positions@);
    let mut out: Vec<LivePending> = Vec::new();
    let mut i: usize = 0;
    assert(pendings_view(out@) =~= Seq::<(Seq<char>, LiveActionView)>::empty());
    while i < positions.len()
        invariant
            i <= positions@.len(),
            ps == views(positions@),
            prices@.len() == positions@.len(),
            now.valid(),
            pendings_view(out@) == decided(
                ps,
                prices@,
                cfg@,
                entry_cutoff,
                retry_window,
                now,
                i as int,
            ),
        decreases positions@.len() - i,
    {
        assert(ps[i as int] == positions@[i as int]@);
        let action: Option<LiveAction> = decide_live_at(
            &positions[i],
            prices[i],
            cfg,
            entry_cutoff,
            retry_window,
            now,
        );
        if let Some(a) = action {
            let d: LivePending = LivePending { pos_id: positions[i].id.clone(), action: a };
            let ghost before = out@;
            out.push(d);
            assert(pendings_view(out@) =~= pendings_view(before).push((d.pos_id@, d.action@)));
        }
        i += 1;
    }
    out
}

// ---------------------------------------------------------------------------
// Dropping what is over
// ---------------------------------------------------------------------------

/// An order that is still on record for a closed position.
#[derive(Debug)]
pub struct OrphanOrder {
    pub order_id: String,
    pub trading_symbol: String,
    pub instrument: String,
}

/// Orders by what they say: their number, the symbol and the instrument.
pub open spec fn orphans_view(s: Seq<OrphanOrder>) -> Seq<(Seq<char>, Seq<char>, Seq<char>)> {
    s.map_values(|o: OrphanOrder| (o.order_id@, o.trading_symbol@, o.instrument@))
}

/// The order `id` of a position, if there is one.
pub open spec fn orphan_of(p: MonitoredPositionView, id: Option<Seq<char>>) -> Seq<
    (Seq<char>, Seq<char>, Seq<char>),
> {
    match id {
        Some(s) => seq![(s, symbol_of(p), p.signal.instrument_name)],
        None => Seq::empty(),
    }
}

/// The orders that are on record for the closed ones among the first `n` positions.
pub open spec fn orphans(ps: Seq<MonitoredPositionView>, n: int) -> Seq<
    (Seq<char>, Seq<char>, Seq<char>),
>
    decreases n,
{
    if n <= 0 {
        Seq::empty()
    } else {
        let rest = orphans(ps, n - 1);
        let p = ps[n - 1];
        if p.state == TradeState::Closed {
            rest + orphan_of(p, p.entry_order_id) + orphan_of(p, p.sl_order_id) + orphan_of(
                p,
                p.pending_exit_order_id,
            )
        } else {
            rest
        }
    }
}

fn push_orphan(out: &mut Vec<OrphanOrder>, p: &MonitoredPosition, id: &Option<String>)
    ensures
        orphans_view(final(out)@) == orphans_view(old(out)@) + orphan_of(
            p@,
            crate::text::opt_text(*id),
        ),
{
    let ghost before = orphans_view(out@);
    if let Some(s) = id {
        out.push(
            OrphanOrder {
                order_id: s.clone(),
                trading_symbol: trading_symbol(p),
                instrument: p.signal.instrument_name.clone(),
            },
        );
    }
    assert(orphans_view(out@) =~= before + orphan_of(p@, crate::text::opt_text(*id)));
}

/// The closed positions' orders that are still on record.
pub fn orphan_orders(positions: &Vec<MonitoredPosition>) -> (res: Vec<OrphanOrder>)
    ensures
        orphans_view(res@) == orphans(views(positions@), positions@.len() as int),
{
    let ghost ps = views(positions@);
    let mut out: Vec<OrphanOrder> = Vec::new();
    let mut i: usize = 0;
    assert(orphans_view(out@) =~= orphans(ps, 0));
    while i < positions.len()
        invariant
            i <= positions@.len(),
            ps == views(positions@),
            orphans_view(out@) == orphans(ps, i as int),
        decreases positions@.len() - i,
    {
        assert(ps[i as int] == positions@[i as int]@);
        if positions[i].state == TradeState::Closed {
            push_orphan(&mut out, &positions[i], &positions[i].entry_order_id);
            push_orphan(&mut out, &positions[i], &positions[i].sl_order_id);
            push_orphan(&mut out, &positions[i], &positions[i].pending_exit_order_id);
        }
        i += 1;
    }
    out
}

/// Drop the closed positions. Gives back whether there were any.
pub fn drop_closed(positions: &mut Vec<MonitoredPosition>) -> (res: bool)
    ensures
        views(final(positions)@) == open_ones(views(old(positions)@)),
        res == (final(positions)@.len() != old(positions)@.len()),
        res == exists|i: int|
            0 <= i < old(positions)@.len() && (#[trigger] views(old(positions)@)[i]).state
                == TradeState::Closed,
{
    let ghost ps = views(positions@);
    let mut all: Vec<MonitoredPosition> = Vec::new();
    std::mem::swap(&mut all, positions);
    let ghost before = all@;
    let ghost mut k: int = 0;
    let mut kept: Vec<MonitoredPosition> = Vec::new();
    let mut dropped: bool = false;
    let ghost keep = |p: MonitoredPositionView| p.state != TradeState::Closed;
    assert(ps.take(0) =~= Seq::<MonitoredPositionView>::empty());
    assert(views(kept@) =~= ps.take(0).filter(keep)) by {
        reveal(Seq::filter);
    }
    while all.len() > 0
        invariant
            before.len() == ps.len(),
            ps == views(before),
            0 <= k <= before.len(),
            all@ =~= before.skip(k),
            keep == (|p: MonitoredPositionView| p.state != TradeState::Closed),
            views(kept@) == ps.take(k).filter(keep),
            kept@.len() <= k,
            dropped == (kept@.len() != k),
            dropped == exists|i: int|
                0 <= i < k && (#[trigger] ps[i]).state == TradeState::Closed,
        decreases all@.len(),
    {
        let ghost was_dropped = dropped;
        let ghost had = kept@;
        let p: MonitoredPosition = all.remove(0);
        proof {
            assert(p == before[k]);
            assert(ps[k] == p@);
            assert(ps.take(k + 1).drop_last() =~= ps.take(k));
            assert(ps.take(k + 1).last() == ps[k]);
            assert(ps.take(k + 1).filter(keep) == if keep(ps[k]) {
                ps.take(k).filter(keep).push(ps[k])
            } else {
                ps.take(k).filter(keep)
            }) by {
                reveal(Seq::filter);
            }
        }
        if p.state == TradeState::Closed {
            dropped = true;
            assert(ps[k].state == TradeState::Closed);
        } else {
            kept.push(p);
            assert(views(kept@) =~= views(had).push(ps[k]));
        }
        proof {
            k = k + 1;
            if was_dropped {
                let i = choose|i: int|
                    0 <= i < k - 1 && (#[trigger] ps[i]).state == TradeState::Closed;
                assert(ps[i].state == TradeState::Closed);
            }
        }
    }
    assert(ps.take(k) =~= ps);
    *positions = kept;
    dropped
}

/// What is dropped is closed, and what is closed is dropped.
pub proof fn only_closed_positions_are_dropped(
    ps: Seq<MonitoredPositionView>,
    p: MonitoredPositionView,
)
    ensures
        open_ones(ps).contains(p) <==> ps.contains(p) && p.state != TradeState::Closed,
{
    broadcast use vstd::seq_lib::group_filter_ensures;

    let keep = |p: MonitoredPositionView| p.state != TradeState::Closed;
    if ps.contains(p) && p.state != TradeState::Closed {
        let i = choose|i: int| 0 <= i < ps.len() && ps[i] == p;
        assert(keep(ps[i]));
        assert(ps.filter(keep).contains(ps[i]));
    }
    if ps.filter(keep).contains(p) {
        let i = choose|i: int| 0 <= i < ps.filter(keep).len() && ps.filter(keep)[i] == p;
        assert(keep(ps.filter(keep)[i]));
        ps.lemma_filter_contains_rev(keep, p);
    }
}

/// What a tick is for, by its circumstances: simulated trading needs a position and nothing
/// else; live, the comparison with the broker comes first, with a session and two seconds after
/// the last attempt, and trading follows once it has succeeded and there is a position.
pub proof fn each_tick_has_its_work(since_attempt: int, has_session: bool, empty: bool, first: bool)
    ensures
        !empty ==> work_of(false, first, since_attempt, has_session, empty) == TickWork::Paper,
        !empty ==> work_of(true, true, since_attempt, has_session, empty) == TickWork::Live,
        empty ==> work_of(false, first, since_attempt, has_session, empty) == TickWork::Skip
            && work_of(true, true, since_attempt, has_session, empty) == TickWork::Skip,
        has_session && since_attempt >= 2_000_000_000 ==> work_of(
            true,
            false,
            since_attempt,
            has_session,
            empty,
        ) == TickWork::Reconcile,
        !has_session || since_attempt < 2_000_000_000 ==> work_of(
            true,
            false,
            since_attempt,
            has_session,
            empty,
        ) == TickWork::Skip,
{
}

/// Trailing takes each position by its own price: without a positive one it stays as it is,
/// and with one it is trailed by that price. The list keeps its length and order.
pub proof fn each_stop_trails_its_own_price(
    ps: Seq<MonitoredPositionView>,
    prices: Seq<Option<i64>>,
    cfg: TradingConfigView,
    i: int,
)
    requires
        0 <= i < ps.len(),
        prices.len() == ps.len(),
    ensures
        ({
            let after = trail_each(ps, prices, cfg);
            &&& after.len() == ps.len()
            &&& prices[i] is None || prices[i]->0 <= 0 ==> after[i] == ps[i]
            &&& prices[i] is Some && prices[i]->0 > 0 ==> after[i] == trailed(
                ps[i],
                prices[i]->0 as int,
                cfg,
            ).0
            &&& after[i].current_sl != ps[i].current_sl ==> trail_moved(
                ps,
                prices,
                cfg,
                ps.len() as int,
            )
        }),
{
    let after = trail_each(ps, prices, cfg);
    if after[i].current_sl != ps[i].current_sl {
        assert(trail_one(ps[i], prices[i], cfg).1 is Some);
    }
}

/// A stop that begins to trail is reported with where it now stands: that is the case where it
/// moved and stood no higher than the stop of the signal. No other move is reported.
pub proof fn first_moves_are_reported(
    ps: Seq<MonitoredPositionView>,
    prices: Seq<Option<i64>>,
    cfg: TradingConfigView,
    n: int,
)
    requires
        0 <= n < ps.len(),
        prices.len() == ps.len(),
    ensures
        ({
            let before = trail_notes(ps, prices, cfg, n);
            let after = trail_notes(ps, prices, cfg, n + 1);
            let p = ps[n];
            let seen = prices[n] is Some && prices[n]->0 > 0;
            let stop = trailed(p, prices[n]->0 as int, cfg).1;
            let begins = seen && stop is Some && p.current_sl <= p.signal.stop_loss;
            &&& trail_notes(ps, prices, cfg, 0).len() == 0
            &&& !begins ==> after == before
            &&& begins ==> {
                &&& after.len() == before.len() + 1
                &&& after.drop_last() == before
                &&& after.last() matches EffectView::Note(note)
                &&& note.price == stop->0 && note.instrument == p.signal.instrument_name
                    && note.code == NoticeCode::TrailArmed && !note.loud
            }
        }),
{
    let before = trail_notes(ps, prices, cfg, n);
    let after = trail_notes(ps, prices, cfg, n + 1);
    if after != before {
        assert(after.drop_last() =~= before);
    }
}

/// Each position is decided on by its own price, and each decision goes under the id of its
/// position, in the order of the list.
pub proof fn decisions_go_under_their_position(
    ps: Seq<MonitoredPositionView>,
    prices: Seq<Option<i64>>,
    cfg: TradingConfigView,
    entry_cutoff: bool,
    retry_window: bool,
    now: IstTime,
    n: int,
)
    requires
        0 <= n < ps.len(),
        prices.len() == ps.len(),
    ensures
        ({
            let before = decided(ps, prices, cfg, entry_cutoff, retry_window, now, n);
            let after = decided(ps, prices, cfg, entry_cutoff, retry_window, now, n + 1);
            let a = decision(ps[n], prices[n], cfg, entry_cutoff, retry_window, now);
            &&& decided(ps, prices, cfg, entry_cutoff, retry_window, now, 0).len() == 0
            &&& a is None ==> after == before
            &&& a is Some ==> after.len() == before.len() + 1 && after.drop_last() == before
                && after.last() == (ps[n].id, a->0)
        }),
{
    let before = decided(ps, prices, cfg, entry_cutoff, retry_window, now, n);
    let after = decided(ps, prices, cfg, entry_cutoff, retry_window, now, n + 1);
    if decision(ps[n], prices[n], cfg, entry_cutoff, retry_window, now) is Some {
        assert(after.drop_last() =~= before);
    }
}

/// Every order that a closed position still has on record is found, under its symbol; the
/// orders of other positions are not.
pub proof fn orders_of_closed_positions_are_found(
    ps: Seq<MonitoredPositionView>,
    n: int,
    i: int,
    order_id: Seq<char>,
)
    requires
        0 <= i < n <= ps.len(),
        ps[i].state == TradeState::Closed,
        ps[i].entry_order_id == Some(order_id) || ps[i].sl_order_id == Some(order_id)
            || ps[i].pending_exit_order_id == Some(order_id),
    ensures
        orphans(ps, n).contains((order_id, symbol_of(ps[i]), ps[i].signal.instrument_name)),
    decreases n,
{
    let p = ps[n - 1];
    let x = (order_id, symbol_of(ps[i]), ps[i].signal.instrument_name);
    let rest = orphans(ps, n - 1);
    let all = orphans(ps, n);
    if i < n - 1 {
        orders_of_closed_positions_are_found(ps, n - 1, i, order_id);
        let k = choose|k: int| 0 <= k < rest.len() && rest[k] == x;
        assert(all[k] == x);
    } else {
        let a = orphan_of(p, p.entry_order_id);
        let b = orphan_of(p, p.sl_order_id);
        let c = orphan_of(p, p.pending_exit_order_id);
        assert(all == rest + a + b + c);
        if p.entry_order_id == Some(order_id) {
            assert(all[rest.len() as int] == x);
        } else if p.sl_order_id == Some(order_id) {
            assert(all[(rest.len() + a.len()) as int] == x);
        } else {
            assert(all[(rest.len() + a.len() + b.len()) as int] == x);
        }
    }
}

/// No order is taken for one of a closed position that is not.
pub proof fn orders_of_open_positions_are_kept(ps: Seq<MonitoredPositionView>, n: int, k: int)
    requires
        0 <= n <= ps.len(),
        0 <= k < orphans(ps, n).len(),
    ensures
        exists|i: int|
            0 <= i < n && (#[trigger] ps[i]).state == TradeState::Closed && (
            ps[i].entry_order_id == Some(orphans(ps, n)[k].0) || ps[i].sl_order_id == Some(
                orphans(ps, n)[k].0,
            ) || ps[i].pending_exit_order_id == Some(orphans(ps, n)[k].0)),
    decreases n,
{
    if n > 0 {
        let rest = orphans(ps, n - 1);
        if k < rest.len() {
            orders_of_open_positions_are_kept(ps, n - 1, k);
            assert(orphans(ps, n)[k] == rest[k]);
        } else {
            assert(ps[n - 1].state == TradeState::Closed);
        }
    }
}

/// Where no stop is said to have moved, none has, and nothing is reported.
pub proof fn unmoved_stops_stay(
    ps: Seq<MonitoredPositionView>,
    prices: Seq<Option<i64>>,
    cfg: TradingConfigView,
    n: int,
)
    requires
        0 <= n <= ps.len(),
        prices.len() == ps.len(),
        !trail_moved(ps, prices, cfg, n),
    ensures
        trail_notes(ps, prices, cfg, n).len() == 0,
        forall|i: int|
            0 <= i < n ==> (#[trigger] trail_each(ps, prices, cfg)[i]).current_sl
                == ps[i].current_sl,
    decreases n,
{
    if n > 0 {
        assert(!trail_moved(ps, prices, cfg, n - 1)) by {
            if trail_moved(ps, prices, cfg, n - 1) {
                let k = choose|k: int|
                    0 <= k < n - 1 && (#[trigger] trail_one(ps[k], prices[k], cfg)).1 is Some;
                assert(trail_one(ps[k], prices[k], cfg).1 is Some);
            }
        }
        unmoved_stops_stay(ps, prices, cfg, n - 1);
        assert(trail_one(ps[n - 1], prices[n - 1], cfg).1 is None);
    }
}

/// The broker is asked every two seconds and no more often.
pub proof fn the_broker_is_asked_every_two_seconds(elapsed: int)
    ensures
        asks_again(elapsed) <==> elapsed >= 2 * 1_000_000_000,
{
}

/// A stop is said to have moved exactly where one stands elsewhere than before.
pub proof fn a_reported_move_is_a_move(
    ps: Seq<MonitoredPositionView>,
    prices: Seq<Option<i64>>,
    cfg: TradingConfigView,
    n: int,
)
    requires
        0 <= n <= ps.len(),
        prices.len() == ps.len(),
        forall|i: int| 0 <= i < ps.len() ==> (#[trigger] ps[i]).tick_size >= 0,
    ensures
        trail_moved(ps, prices, cfg, n) <==> exists|i: int|
            0 <= i < n && (#[trigger] trail_each(ps, prices, cfg)[i]).current_sl
                != ps[i].current_sl,
{
    let after = trail_each(ps, prices, cfg);
    if trail_moved(ps, prices, cfg, n) {
        let k = choose|k: int|
            0 <= k < n && (#[trigger] trail_one(ps[k], prices[k], cfg)).1 is Some;
        assert(ps[k].tick_size >= 0);
        assert(after[k].current_sl != ps[k].current_sl);
    }
    if exists|i: int| 0 <= i < n && (#[trigger] after[i]).current_sl != ps[i].current_sl {
        let k = choose|i: int|
            0 <= i < n && (#[trigger] after[i]).current_sl != ps[i].current_sl;
        assert(trail_one(ps[k], prices[k], cfg).1 is Some);
    }
}

} // verus!
