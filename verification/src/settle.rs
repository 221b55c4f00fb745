//! Settling live orders against the order book of the broker.
//!
//! This is the only place where live fills are believed: quantities and prices come from the
//! book, never from the price feed.
use vstd::prelude::*;

use crate::broker::{find_order, KotakOrder};
use crate::decimal::{max32, to_i32};
use crate::desk::{
    find_position, forget_stop, notice, push_effect, trading_symbol, Effect, NoticeCode, Notice,
    TradeFill,
};
use crate::domain::{clone_opt, MonitoredPosition, TradeState};
use crate::text::join2;

#[allow(unused_imports)]
use crate::broker::{book_row, book_view, lemma_book_index, KotakOrderView};

#[allow(unused_imports)]
use crate::decimal::{fit32, larger};

#[allow(unused_imports)]
use crate::desk::{
    bare_notice, effects_view, has_id, id_index, lemma_id_index, put_id, stop_forgotten,
    symbol_of, with_id, EffectView, NoticeView, TradeFillView,
};

#[allow(unused_imports)]
use crate::domain::{views, MonitoredPositionView};

#[allow(unused_imports)]
use crate::text::{opt_text, trimmed};

verus! {

/// What settling needs to know of a position, taken down before the broker is asked.
#[derive(Debug)]
pub struct LiveLeg {
    pub pos_id: String,
    pub instrument: String,
    pub trading_symbol: String,
    pub is_options: bool,
    pub signal_id: Option<String>,
    pub raw_message: Option<String>,
    pub avg_buy_price: i64,
    pub entry_price: i64,
    pub at_target1: bool,
    pub entry_order_id: Option<String>,
    pub entry_cancel_sent: bool,
    pub sl_order_id: Option<String>,
    pub pending_exit_order_id: Option<String>,
    pub pending_exit_qty: i32,
    pub pending_exit_reason: Option<String>,
}

/// What a [`LiveLeg`] says, with its texts as character sequences.
#[verifier::ext_equal]
pub ghost struct LiveLegView {
    pub pos_id: Seq<char>,
    pub instrument: Seq<char>,
    pub trading_symbol: Seq<char>,
    pub is_options: bool,
    pub signal_id: Option<Seq<char>>,
    pub raw_message: Option<Seq<char>>,
    pub avg_buy_price: i64,
    pub entry_price: i64,
    pub at_target1: bool,
    pub entry_order_id: Option<Seq<char>>,
    pub entry_cancel_sent: bool,
    pub sl_order_id: Option<Seq<char>>,
    pub pending_exit_order_id: Option<Seq<char>>,
    pub pending_exit_qty: i32,
    pub pending_exit_reason: Option<Seq<char>>,
}

impl View for LiveLeg {
    type V = LiveLegView;

    open spec fn view(&self) -> LiveLegView {
        LiveLegView {
            pos_id: self.pos_id@,
            instrument: self.instrument@,
            trading_symbol: self.trading_symbol@,
            is_options: self.is_options,
            signal_id: opt_text(self.signal_id),
            raw_message: opt_text(self.raw_message),
            avg_buy_price: self.avg_buy_price,
            entry_price: self.entry_price,
            at_target1: self.at_target1,
            entry_order_id: opt_text(self.entry_order_id),
            entry_cancel_sent: self.entry_cancel_sent,
            sl_order_id: opt_text(self.sl_order_id),
            pending_exit_order_id: opt_text(self.pending_exit_order_id),
            pending_exit_qty: self.pending_exit_qty,
            pending_exit_reason: opt_text(self.pending_exit_reason),
        }
    }
}

/// The legs of a list, each by what it says.
pub open spec fn legs_view(s: Seq<LiveLeg>) -> Seq<LiveLegView> {
    s.map_values(|l: LiveLeg| l@)
}

/// Whether a position has an order at the broker.
pub open spec fn has_orders(p: MonitoredPositionView) -> bool {
    p.entry_order_id is Some || p.sl_order_id is Some || p.pending_exit_order_id is Some
}

/// What settling needs to know of a position.
pub open spec fn leg_of(p: MonitoredPositionView) -> LiveLegView {
    LiveLegView {
        pos_id: p.id,
        instrument: p.signal.instrument_name,
        trading_symbol: symbol_of(p),
        is_options: p.signal.option_type is Some,
        signal_id: p.signal.signal_id,
        raw_message: p.signal.raw_message,
        avg_buy_price: p.avg_buy_price,
        entry_price: p.signal.entry_price,
        at_target1: p.state == TradeState::Target1Hit,
        entry_order_id: p.entry_order_id,
        entry_cancel_sent: p.entry_cancel_sent,
        sl_order_id: p.sl_order_id,
        pending_exit_order_id: p.pending_exit_order_id,
        pending_exit_qty: p.pending_exit_qty,
        pending_exit_reason: p.pending_exit_reason,
    }
}

/// The legs of the first `n` positions.
pub open spec fn legs_of(ps: Seq<MonitoredPositionView>, n: int) -> Seq<LiveLegView>
    decreases n,
{
    if n <= 0 {
        Seq::empty()
    } else if has_orders(ps[n - 1]) {
        legs_of(ps, n - 1).push(leg_of(ps[n - 1]))
    } else {
        legs_of(ps, n - 1)
    }
}

/// The legs of all positions that have an order at the broker.
pub fn live_legs(positions: &Vec<MonitoredPosition>) -> (res: Vec<LiveLeg>)
    ensures
        legs_view(res@) == legs_of(views(positions@), positions@.len() as int),
{
    let ghost ps = views(positions@);
    let mut out: Vec<LiveLeg> = Vec::new();
    let mut i: usize = 0;
    assert(legs_view(out@) =~= legs_of(ps, 0));
    while i < positions.len()
        invariant
            i <= positions@.len(),
            ps == views(positions@),
            legs_view(out@) == legs_of(ps, i as int),
        decreases positions@.len() - i,
    {
        let p: &MonitoredPosition = &positions[i];
        assert(ps[i as int] == p@);
        if p.entry_order_id.is_some() || p.sl_order_id.is_some()
            || p.pending_exit_order_id.is_some() {
            let leg: LiveLeg = LiveLeg {
                pos_id: p.id.clone(),
                instrument: p.signal.instrument_name.clone(),
                trading_symbol: trading_symbol(p),
                is_options: p.signal.option_type.is_some(),
                signal_id: clone_opt(&p.signal.signal_id),
                raw_message: clone_opt(&p.signal.raw_message),
                avg_buy_price: p.avg_buy_price,
                entry_price: p.signal.entry_price,
                at_target1: p.state == TradeState::Target1Hit,
                entry_order_id: clone_opt(&p.entry_order_id),
                entry_cancel_sent: p.entry_cancel_sent,
                sl_order_id: clone_opt(&p.sl_order_id),
                pending_exit_order_id: clone_opt(&p.pending_exit_order_id),
                pending_exit_qty: p.pending_exit_qty,
                pending_exit_reason: clone_opt(&p.pending_exit_reason),
            };
            assert(leg@ == leg_of(p@));
            let ghost before = out@;
            out.push(leg);
            assert(legs_view(out@) =~= legs_view(before).push(leg@));
        }
        i += 1;
    }
    out
}

// ---------------------------------------------------------------------------
// The three orders of a leg
// ---------------------------------------------------------------------------

/// The positions, what there is to do outside, and whether anything changed.
pub ghost struct Settlement {
    pub positions: Seq<MonitoredPositionView>,
    pub effects: Seq<EffectView>,
    pub changed: bool,
}

/// A purchase or sale of a leg.
pub open spec fn leg_fill(
    leg: LiveLegView,
    buy: bool,
    qty: int,
    price: int,
    reason: Seq<char>,
) -> TradeFillView {
    TradeFillView {
        instrument: leg.instrument,
        buy,
        qty: qty as i32,
        price: price as i64,
        is_options: leg.is_options,
        avg_buy_price: leg.avg_buy_price,
        signal_id: leg.signal_id,
        raw_message: leg.raw_message,
        reason,
        mode: "LIVE"@,
    }
}

fn fill_of(leg: &LiveLeg, buy: bool, qty: i32, price: i64, reason: &str) -> (res: TradeFill)
    ensures
        res@ == leg_fill(leg@, buy, qty as int, price as int, reason@),
{
    TradeFill {
        instrument: leg.instrument.clone(),
        buy,
        qty,
        price,
        is_options: leg.is_options,
        avg_buy_price: leg.avg_buy_price,
        signal_id: clone_opt(&leg.signal_id),
        raw_message: clone_opt(&leg.raw_message),
        reason: reason.to_string(),
        mode: "LIVE".to_string(),
    }
}

/// A report on an order of a leg.
pub open spec fn leg_notice(
    code: NoticeCode,
    loud: bool,
    leg: LiveLegView,
    order_id: Seq<char>,
) -> NoticeView {
    NoticeView { order_id, ..bare_notice(code, loud, leg.instrument) }
}

fn order_notice(code: NoticeCode, loud: bool, leg: &LiveLeg, order_id: &str) -> (res: Notice)
    ensures
        res@ == leg_notice(code, loud, leg@, order_id@),
{
    let mut n: Notice = notice(code, loud, leg.instrument.as_str());
    n.order_id = order_id.to_string();
    n
}

/// A position after its entry was filled.
pub open spec fn entered(p: MonitoredPositionView, qty: int, price: int) -> MonitoredPositionView {
    MonitoredPositionView {
        executed_qty: qty as i32,
        avg_buy_price: price as i64,
        state: TradeState::Active,
        entry_order_id: None,
        entry_cancel_sent: false,
        ..p
    }
}

/// A position after its entry came to nothing.
pub open spec fn entry_dropped(p: MonitoredPositionView) -> MonitoredPositionView {
    MonitoredPositionView { state: TradeState::Closed, entry_order_id: None, ..p }
}

/// What settling the entry of a leg does, given the row of the book.
pub open spec fn settle_entry_row(
    s: Settlement,
    leg: LiveLegView,
    id: Seq<char>,
    row: KotakOrderView,
) -> Settlement {
    let filled = row.filled();
    let p = with_id(s.positions, leg.pos_id);
    if row.terminal() {
        if filled > 0 {
            let price = if row.average() <= 0 {
                leg.entry_price as int
            } else {
                row.average()
            };
            let missing = if row.average() <= 0 {
                seq![
                    EffectView::Note(
                        NoticeView {
                            qty: filled as i64,
                            price: price as i64,
                            ..leg_notice(NoticeCode::EntryPriceMissing, true, leg, id)
                        },
                    ),
                ]
            } else {
                Seq::empty()
            };
            let partly = if row.ordered() > 0 && filled < row.ordered() {
                seq![
                    EffectView::Note(
                        NoticeView {
                            qty: filled as i64,
                            other_qty: row.ordered() as i64,
                            ..leg_notice(NoticeCode::EntryPartlyFilled, true, leg, id)
                        },
                    ),
                ]
            } else {
                Seq::empty()
            };
            Settlement {
                positions: put_id(s.positions, leg.pos_id, entered(p, filled, price)),
                effects: s.effects + missing + seq![
                    EffectView::Trade(leg_fill(leg, true, filled, price, "ENTRY"@)),
                ] + partly,
                changed: true,
            }
        } else {
            Settlement {
                positions: put_id(s.positions, leg.pos_id, entry_dropped(p)),
                effects: s.effects.push(
                    EffectView::Note(
                        NoticeView {
                            detail: row.status,
                            cause: row.reject_reason,
                            ..leg_notice(NoticeCode::EntryNotFilled, true, leg, id)
                        },
                    ),
                ),
                changed: true,
            }
        }
    } else if filled > 0 && !leg.entry_cancel_sent {
        Settlement {
            positions: put_id(
                s.positions,
                leg.pos_id,
                (MonitoredPositionView { entry_cancel_sent: true, ..p }),
            ),
            effects: s.effects.push(
                EffectView::Cancel {
                    order_id: id,
                    trading_symbol: leg.trading_symbol,
                    instrument: leg.instrument,
                },
            ),
            changed: true,
        }
    } else {
        s
    }
}

/// A position after `filled` of it were sold by its stop.
pub open spec fn stopped_out(p: MonitoredPositionView, filled: int) -> MonitoredPositionView {
    let left = larger(fit32(p.executed_qty - filled), 0);
    let q = MonitoredPositionView { executed_qty: left as i32, ..stop_forgotten(p) };
    if left <= 0 && p.pending_exit_order_id is None {
        MonitoredPositionView { state: TradeState::Closed, force_exit: None, ..q }
    } else {
        q
    }
}

/// What settling the stop of a leg does, given the row of the book.
pub open spec fn settle_stop_row(
    s: Settlement,
    leg: LiveLegView,
    id: Seq<char>,
    row: KotakOrderView,
) -> Settlement {
    let p = with_id(s.positions, leg.pos_id);
    if row.complete() {
        let e = if row.filled() > 0 && row.average() > 0 {
            EffectView::Trade(
                leg_fill(
                    leg,
                    false,
                    row.filled(),
                    row.average(),
                    if leg.at_target1 {
                        "TRAIL_SL_HIT"@
                    } else {
                        "SL_HIT"@
                    },
                ),
            )
        } else {
            EffectView::Note(
                NoticeView {
                    qty: row.filled() as i64,
                    price: row.average() as i64,
                    ..leg_notice(NoticeCode::StopWithoutFill, true, leg, id)
                },
            )
        };
        Settlement {
            positions: put_id(s.positions, leg.pos_id, stopped_out(p, row.filled())),
            effects: s.effects.push(e),
            changed: true,
        }
    } else if row.rejected() || row.cancelled() {
        Settlement {
            positions: put_id(s.positions, leg.pos_id, stop_forgotten(p)),
            effects: s.effects.push(
                EffectView::Note(
                    NoticeView {
                        detail: row.status,
                        cause: row.reject_reason,
                        ..leg_notice(NoticeCode::StopGone, true, leg, id)
                    },
                ),
            ),
            changed: true,
        }
    } else {
        s
    }
}

/// A position after its pending sale came to an end with `filled` sold. A sale that came
/// back short, and was not cancelled, counts as a failed exit and is tried again.
pub open spec fn exit_settled(
    p: MonitoredPositionView,
    filled: int,
    shortfall: int,
    cancelled: bool,
    reason: Seq<char>,
) -> MonitoredPositionView {
    let left = larger(fit32(p.executed_qty - filled), 0);
    let q = MonitoredPositionView {
        executed_qty: left as i32,
        pending_exit_order_id: None,
        pending_exit_qty: 0,
        pending_exit_reason: None,
        ..p
    };
    if left <= 0 {
        MonitoredPositionView { state: TradeState::Closed, force_exit: None, ..q }
    } else if shortfall > 0 && !cancelled {
        MonitoredPositionView {
            exit_attempts: fit32(p.exit_attempts + 1) as i32,
            force_exit: Some(reason + "_SHORTFALL"@),
            ..q
        }
    } else {
        q
    }
}

/// What settling the pending sale of a leg does, given the row of the book.
pub open spec fn settle_exit_row(
    s: Settlement,
    leg: LiveLegView,
    id: Seq<char>,
    reason: Seq<char>,
    row: KotakOrderView,
) -> Settlement {
    let p = with_id(s.positions, leg.pos_id);
    let shortfall = leg.pending_exit_qty - row.filled();
    if row.terminal() {
        let e = if row.filled() > 0 && row.average() > 0 {
            EffectView::Trade(leg_fill(leg, false, row.filled(), row.average(), reason))
        } else if row.cancelled() {
            EffectView::Note(
                NoticeView { reason, ..leg_notice(NoticeCode::ExitUnfilled, false, leg, id) },
            )
        } else {
            EffectView::Note(
                NoticeView {
                    reason,
                    detail: row.status,
                    cause: row.reject_reason,
                    ..leg_notice(NoticeCode::ExitNotFilled, true, leg, id)
                },
            )
        };
        let short = if shortfall > 0 && !row.cancelled() {
            seq![
                EffectView::Note(
                    NoticeView {
                        reason,
                        qty: row.filled() as i64,
                        other_qty: leg.pending_exit_qty as i64,
                        ..leg_notice(NoticeCode::ExitShort, true, leg, id)
                    },
                ),
            ]
        } else {
            Seq::empty()
        };
        Settlement {
            positions: put_id(
                s.positions,
                leg.pos_id,
                exit_settled(p, row.filled(), shortfall, row.cancelled(), reason),
            ),
            effects: s.effects.push(e) + short,
            changed: true,
        }
    } else {
        s
    }
}

/// What settling the entry of a leg does.
pub open spec fn settle_entry(
    s: Settlement,
    leg: LiveLegView,
    book: Seq<KotakOrderView>,
) -> Settlement {
    if leg.entry_order_id is Some && book_row(book, leg.entry_order_id->0) is Some {
        settle_entry_row(
            s,
            leg,
            leg.entry_order_id->0,
            book_row(book, leg.entry_order_id->0)->0,
        )
    } else {
        s
    }
}

/// What settling the stop of a leg does.
pub open spec fn settle_stop(
    s: Settlement,
    leg: LiveLegView,
    book: Seq<KotakOrderView>,
) -> Settlement {
    if leg.sl_order_id is Some && book_row(book, leg.sl_order_id->0) is Some {
        settle_stop_row(s, leg, leg.sl_order_id->0, book_row(book, leg.sl_order_id->0)->0)
    } else {
        s
    }
}

/// What settling the pending sale of a leg does.
pub open spec fn settle_exit(
    s: Settlement,
    leg: LiveLegView,
    book: Seq<KotakOrderView>,
) -> Settlement {
    if leg.pending_exit_order_id is Some && leg.pending_exit_reason is Some && book_row(
        book,
        leg.pending_exit_order_id->0,
    ) is Some {
        settle_exit_row(
            s,
            leg,
            leg.pending_exit_order_id->0,
            leg.pending_exit_reason->0,
            book_row(book, leg.pending_exit_order_id->0)->0,
        )
    } else {
        s
    }
}

/// What settling a leg does: its entry, its stop and its pending sale, in that order.
pub open spec fn settle_leg(
    s: Settlement,
    leg: LiveLegView,
    book: Seq<KotakOrderView>,
) -> Settlement {
    settle_exit(settle_stop(settle_entry(s, leg, book), leg, book), leg, book)
}

/// What settling the first `n` legs does.
pub open spec fn settled(
    s: Settlement,
    legs: Seq<LiveLegView>,
    book: Seq<KotakOrderView>,
    n: int,
) -> Settlement
    decreases n,
{
    if n <= 0 {
        s
    } else {
        settle_leg(settled(s, legs, book, n - 1), legs[n - 1], book)
    }
}

/// The positions and effects of a settlement under way.
pub open spec fn settlement(
    positions: Seq<MonitoredPosition>,
    effects: Seq<Effect>,
    changed: bool,
) -> Settlement {
    Settlement { positions: views(positions), effects: effects_view(effects), changed }
}


fn settle_entry_order(
    positions: &mut Vec<MonitoredPosition>,
    effects: &mut Vec<Effect>,
    changed: &mut bool,
    leg: &LiveLeg,
    book: &Vec<KotakOrder>,
)
    ensures
        settlement(final(positions)@, final(effects)@, *final(changed)) == settle_entry(
            settlement(old(positions)@, old(effects)@, *old(changed)),
            leg@,
            book_view(book@),
        ),
{
    let id: &String = match &leg.entry_order_id {
        Some(id) => id,
        None => {
            return ;
        },
    };
    let at: usize = match find_order(book, id.as_str()) {
        Some(at) => at,
        None => {
            return ;
        },
    };
    let ghost before = settlement(positions@, effects@, *changed);
    let row: &KotakOrder = &book[at];
    let filled: i32 = row.filled_qty();
    if row.is_terminal() {
        *changed = true;
        if filled > 0 {
            let mut price: i64 = row.avg_price();
            if price <= 0 {
                price = leg.entry_price;
                let mut n: Notice = order_notice(
                    NoticeCode::EntryPriceMissing,
                    true,
                    leg,
                    id.as_str(),
                );
                n.qty = filled as i64;
                n.price = price;
                push_effect(effects, Effect::Note(n));
            }
            if let Some(i) = find_position(positions, leg.pos_id.as_str()) {
                let p: &mut MonitoredPosition = &mut positions[i];
                p.executed_qty = filled;
                p.avg_buy_price = price;
                p.state = TradeState::Active;
                p.entry_order_id = None;
                p.entry_cancel_sent = false;
            }
            push_effect(effects, Effect::Trade(fill_of(leg, true, filled, price, "ENTRY")));
            let ordered: i32 = row.ordered_qty();
            if ordered > 0 && filled < ordered {
                let mut n: Notice = order_notice(
                    NoticeCode::EntryPartlyFilled,
                    true,
                    leg,
                    id.as_str(),
                );
                n.qty = filled as i64;
                n.other_qty = ordered as i64;
                push_effect(effects, Effect::Note(n));
            }
            proof {
                let after = settle_entry_row(before, leg@, id@, row@);
                assert(views(positions@) =~= after.positions);
                assert(effects_view(effects@) =~= after.effects);
            }
        } else {
            if let Some(i) = find_position(positions, leg.pos_id.as_str()) {
                let p: &mut MonitoredPosition = &mut positions[i];
                p.state = TradeState::Closed;
                p.entry_order_id = None;
            }
            let mut n: Notice = order_notice(NoticeCode::EntryNotFilled, true, leg, id.as_str());
            n.detail = row.status.clone();
            n.cause = row.reject_reason.clone();
            push_effect(effects, Effect::Note(n));
            proof {
                let after = settle_entry_row(before, leg@, id@, row@);
                assert(views(positions@) =~= after.positions);
                assert(effects_view(effects@) =~= after.effects);
            }
        }
    } else if filled > 0 && !leg.entry_cancel_sent {
        *changed = true;
        if let Some(i) = find_position(positions, leg.pos_id.as_str()) {
            let p: &mut MonitoredPosition = &mut positions[i];
            p.entry_cancel_sent = true;
        }
        push_effect(
            effects,
            Effect::Cancel {
                order_id: id.clone(),
                trading_symbol: leg.trading_symbol.clone(),
                instrument: leg.instrument.clone(),
            },
        );
        proof {
            let after = settle_entry_row(before, leg@, id@, row@);
            assert(views(positions@) =~= after.positions);
            assert(effects_view(effects@) =~= after.effects);
        }
    }
}

fn settle_stop_order(
    positions: &mut Vec<MonitoredPosition>,
    effects: &mut Vec<Effect>,
    changed: &mut bool,
    leg: &LiveLeg,
    book: &Vec<KotakOrder>,
)
    ensures
        settlement(final(positions)@, final(effects)@, *final(changed)) == settle_stop(
            settlement(old(positions)@, old(effects)@, *old(changed)),
            leg@,
            book_view(book@),
        ),
{
    let id: &String = match &leg.sl_order_id {
        Some(id) => id,
        None => {
            return ;
        },
    };
    let at: usize = match find_order(book, id.as_str()) {
        Some(at) => at,
        None => {
            return ;
        },
    };
    let ghost before = settlement(positions@, effects@, *changed);
    let row: &KotakOrder = &book[at];
    if row.is_complete() {
        *changed = true;
        let filled: i32 = row.filled_qty();
        let price: i64 = row.avg_price();
        if filled > 0 && price > 0 {
            let fill: TradeFill = if leg.at_target1 {
                fill_of(leg, false, filled, price, "TRAIL_SL_HIT")
            } else {
                fill_of(leg, false, filled, price, "SL_HIT")
            };
            push_effect(effects, Effect::Trade(fill));
        } else {
            let mut n: Notice = order_notice(NoticeCode::StopWithoutFill, true, leg, id.as_str());
            n.qty = filled as i64;
            n.price = price;
            push_effect(effects, Effect::Note(n));
        }
        if let Some(i) = find_position(positions, leg.pos_id.as_str()) {
            let p: &mut MonitoredPosition = &mut positions[i];
            p.executed_qty = max32(to_i32(p.executed_qty as i128 - filled as i128), 0);
            forget_stop(p);
            if p.executed_qty <= 0 && p.pending_exit_order_id.is_none() {
                p.state = TradeState::Closed;
                p.force_exit = None;
            }
        }
        proof {
            let after = settle_stop_row(before, leg@, id@, row@);
            assert(views(positions@) =~= after.positions);
            assert(effects_view(effects@) =~= after.effects);
        }
    } else if row.is_rejected() || row.is_cancelled() {
        *changed = true;
        let mut n: Notice = order_notice(NoticeCode::StopGone, true, leg, id.as_str());
        n.detail = row.status.clone();
        n.cause = row.reject_reason.clone();
        push_effect(effects, Effect::Note(n));
        if let Some(i) = find_position(positions, leg.pos_id.as_str()) {
            forget_stop(&mut positions[i]);
        }
        proof {
            let after = settle_stop_row(before, leg@, id@, row@);
            assert(views(positions@) =~= after.positions);
            assert(effects_view(effects@) =~= after.effects);
        }
    }
}

fn settle_exit_order(
    positions: &mut Vec<MonitoredPosition>,
    effects: &mut Vec<Effect>,
    changed: &mut bool,
    leg: &LiveLeg,
    book: &Vec<KotakOrder>,
)
    ensures
        settlement(final(positions)@, final(effects)@, *final(changed)) == settle_exit(
            settlement(old(positions)@, old(effects)@, *old(changed)),
            leg@,
            book_view(book@),
        ),
{
    let id: &String = match &leg.pending_exit_order_id {
        Some(id) => id,
        None => {
            return ;
        },
    };
    let reason: &String = match &leg.pending_exit_reason {
        Some(r) => r,
        None => {
            return ;
        },
    };
    let at: usize = match find_order(book, id.as_str()) {
        Some(at) => at,
        None => {
            return ;
        },
    };
    let ghost before = settlement(positions@, effects@, *changed);
    let row: &KotakOrder = &book[at];
    if row.is_terminal() {
        *changed = true;
        let filled: i32 = row.filled_qty();
        let price: i64 = row.avg_price();
        let was_cancelled: bool = row.is_cancelled();
        if filled > 0 && price > 0 {
            push_effect(
                effects,
                Effect::Trade(fill_of(leg, false, filled, price, reason.as_str())),
            );
        } else if was_cancelled {
            let mut n: Notice = order_notice(NoticeCode::ExitUnfilled, false, leg, id.as_str());
            n.reason = reason.clone();
            push_effect(effects, Effect::Note(n));
        } else {
            let mut n: Notice = order_notice(NoticeCode::ExitNotFilled, true, leg, id.as_str());
            n.reason = reason.clone();
            n.detail = row.status.clone();
            n.cause = row.reject_reason.clone();
            push_effect(effects, Effect::Note(n));
        }
        let shortfall: i64 = leg.pending_exit_qty as i64 - filled as i64;
        if let Some(i) = find_position(positions, leg.pos_id.as_str()) {
            let p: &mut MonitoredPosition = &mut positions[i];
            p.executed_qty = max32(to_i32(p.executed_qty as i128 - filled as i128), 0);
            p.pending_exit_order_id = None;
            p.pending_exit_qty = 0;
            p.pending_exit_reason = None;
            if p.executed_qty <= 0 {
                p.state = TradeState::Closed;
                p.force_exit = None;
            } else if shortfall > 0 && !was_cancelled {
                p.exit_attempts = to_i32(p.exit_attempts as i128 + 1);
                p.force_exit = Some(join2(reason.as_str(), "_SHORTFALL"));
            }
        }
        if shortfall > 0 && !was_cancelled {
            let mut n: Notice = order_notice(NoticeCode::ExitShort, true, leg, id.as_str());
            n.reason = reason.clone();
            n.qty = filled as i64;
            n.other_qty = leg.pending_exit_qty as i64;
            push_effect(effects, Effect::Note(n));
        }
        proof {
            let after = settle_exit_row(before, leg@, id@, reason@, row@);
            assert(views(positions@) =~= after.positions);
            assert(effects_view(effects@) =~= after.effects);
        }
    }
}

/// Settle every tracked order against the order book of the broker.
///
/// `legs` was taken down before the broker was asked; a position that is gone since is not
/// brought back. Gives back whether anything changed, and what there is to do outside.
pub fn settle_legs(
    positions: &mut Vec<MonitoredPosition>,
    legs: &Vec<LiveLeg>,
    book: &Vec<KotakOrder>,
) -> (res: (bool, Vec<Effect>))
    ensures
        settlement(final(positions)@, res.1@, res.0) == settled(
            settlement(old(positions)@, Seq::empty(), false),
            legs_view(legs@),
            book_view(book@),
            legs@.len() as int,
        ),
{
    let mut effects: Vec<Effect> = Vec::new();
    let mut changed: bool = false;
    let ghost start = settlement(old(positions)@, Seq::empty(), false);
    assert(effects@ =~= Seq::<Effect>::empty());
    let mut i: usize = 0;
    while i < legs.len()
        invariant
            i <= legs@.len(),
            settlement(positions@, effects@, changed) == settled(
                start,
                legs_view(legs@),
                book_view(book@),
                i as int,
            ),
        decreases legs@.len() - i,
    {
        let leg: &LiveLeg = &legs[i];
        assert(legs_view(legs@)[i as int] == leg@);
        settle_entry_order(positions, &mut effects, &mut changed, leg, book);
        settle_stop_order(positions, &mut effects, &mut changed, leg, book);
        settle_exit_order(positions, &mut effects, &mut changed, leg, book);
        i += 1;
    }
    (changed, effects)
}

/// Settle the orders of all positions as they stand.
pub fn reconcile_live_orders(positions: &mut Vec<MonitoredPosition>, book: &Vec<KotakOrder>) -> (res:
    (bool, Vec<Effect>))
    ensures
        ({
            let legs = legs_of(views(old(positions)@), old(positions)@.len() as int);
            settlement(final(positions)@, res.1@, res.0) == settled(
                settlement(old(positions)@, Seq::empty(), false),
                legs,
                book_view(book@),
                legs.len() as int,
            )
        }),
{
    let legs: Vec<LiveLeg> = live_legs(positions);
    settle_legs(positions, &legs, book)
}

// ---------------------------------------------------------------------------
// Laws of settling
// ---------------------------------------------------------------------------

/// Whether no position of a list holds less than nothing.
pub open spec fn no_short(ps: Seq<MonitoredPositionView>) -> bool {
    forall|i: int| 0 <= i < ps.len() ==> (#[trigger] ps[i]).executed_qty >= 0
}

/// Whether two lists hold positions of the same ids in the same places.
pub open spec fn same_ids(a: Seq<MonitoredPositionView>, b: Seq<MonitoredPositionView>) -> bool {
    a.len() == b.len() && forall|i: int| 0 <= i < a.len() ==> (#[trigger] a[i]).id == b[i].id
}

proof fn lemma_settle_leg(s: Settlement, leg: LiveLegView, book: Seq<KotakOrderView>)
    ensures
        same_ids(s.positions, settle_leg(s, leg, book).positions),
        no_short(s.positions) ==> no_short(settle_leg(s, leg, book).positions),
        s.changed ==> settle_leg(s, leg, book).changed,
        !settle_leg(s, leg, book).changed ==> settle_leg(s, leg, book) == s,
        forall|i: int|
            0 <= i < s.positions.len() && (#[trigger] s.positions[i]).id != leg.pos_id
                ==> settle_leg(s, leg, book).positions[i] == s.positions[i],
{
    let a = settle_entry(s, leg, book);
    let b = settle_stop(a, leg, book);
    lemma_id_index(s.positions, leg.pos_id, 0);
    lemma_id_index(a.positions, leg.pos_id, 0);
    lemma_id_index(b.positions, leg.pos_id, 0);
    assert(same_ids(s.positions, a.positions));
    assert(same_ids(a.positions, b.positions));
    assert(same_ids(b.positions, settle_exit(b, leg, book).positions));
    assert(no_short(s.positions) ==> no_short(a.positions));
    assert(no_short(a.positions) ==> no_short(b.positions));
}

/// Settling keeps every position under its id and in its place, leaves alone those without a
/// leg, and never books a holding below zero.
pub proof fn settling_keeps_the_list(
    s: Settlement,
    legs: Seq<LiveLegView>,
    book: Seq<KotakOrderView>,
    n: int,
)
    requires
        0 <= n <= legs.len(),
    ensures
        same_ids(s.positions, settled(s, legs, book, n).positions),
        no_short(s.positions) ==> no_short(settled(s, legs, book, n).positions),
        forall|i: int|
            0 <= i < s.positions.len() && (forall|j: int|
                0 <= j < n ==> (#[trigger] legs[j]).pos_id != s.positions[i].id) ==> (
            #[trigger] settled(s, legs, book, n).positions[i]) == s.positions[i],
    decreases n,
{
    if n > 0 {
        settling_keeps_the_list(s, legs, book, n - 1);
        lemma_settle_leg(settled(s, legs, book, n - 1), legs[n - 1], book);
        let mid = settled(s, legs, book, n - 1);
        assert forall|i: int|
            0 <= i < s.positions.len() && (forall|j: int|
                0 <= j < n ==> (#[trigger] legs[j]).pos_id != s.positions[i].id) implies (
        #[trigger] settled(s, legs, book, n).positions[i]) == s.positions[i] by {
            assert(mid.positions[i] == s.positions[i]);
            assert(legs[n - 1].pos_id != s.positions[i].id);
        }
    }
}

/// Where settling reports no change, nothing has changed and nothing is to be done.
pub proof fn no_change_means_no_effect(
    s: Settlement,
    legs: Seq<LiveLegView>,
    book: Seq<KotakOrderView>,
    n: int,
)
    requires
        0 <= n <= legs.len(),
        !settled(s, legs, book, n).changed,
    ensures
        settled(s, legs, book, n) == s,
    decreases n,
{
    if n > 0 {
        lemma_settle_leg(settled(s, legs, book, n - 1), legs[n - 1], book);
        no_change_means_no_effect(s, legs, book, n - 1);
    }
}

/// What a position has out for sale: the sale in flight, and the stop that rests at the broker.
pub open spec fn out_for_sale(p: MonitoredPositionView) -> int {
    (if p.pending_exit_order_id is Some {
        p.pending_exit_qty as int
    } else {
        0
    }) + (if p.sl_order_id is Some {
        p.sl_order_qty as int
    } else {
        0
    })
}

/// Whether a position has no more out for sale than it holds, and nothing while its entry is
/// out.
pub open spec fn is_covered(p: MonitoredPositionView) -> bool {
    &&& p.pending_exit_qty >= 0
    &&& p.sl_order_qty >= 0
    &&& out_for_sale(p) <= larger(p.executed_qty as int, 0)
    &&& p.entry_order_id is Some ==> p.pending_exit_order_id is None && p.sl_order_id is None
}

/// Whether the book shows no more than `qty` as filled of the order `id`.
pub open spec fn fills_at_most(
    book: Seq<KotakOrderView>,
    id: Option<Seq<char>>,
    qty: i32,
) -> bool {
    id is Some && book_row(book, id->0) is Some ==> book_row(book, id->0)->0.filled() <= qty
}

/// Settling never leaves more of a position out for sale than is held, as long as the broker
/// fills no more of a sale than was ordered.
pub proof fn settling_keeps_sales_covered(
    s: Settlement,
    leg: LiveLegView,
    book: Seq<KotakOrderView>,
)
    requires
        has_id(s.positions, leg.pos_id),
        is_covered(with_id(s.positions, leg.pos_id)),
        ({
            let p = with_id(s.positions, leg.pos_id);
            &&& leg.entry_order_id == p.entry_order_id
            &&& leg.sl_order_id == p.sl_order_id
            &&& leg.pending_exit_order_id == p.pending_exit_order_id
            &&& fills_at_most(book, p.sl_order_id, p.sl_order_qty)
            &&& fills_at_most(book, p.pending_exit_order_id, p.pending_exit_qty)
        }),
    ensures
        is_covered(with_id(settle_leg(s, leg, book).positions, leg.pos_id)),
{
    let id = leg.pos_id;
    let a = settle_entry(s, leg, book);
    let b = settle_stop(a, leg, book);
    let c = settle_exit(b, leg, book);
    lemma_id_index(s.positions, id, 0);
    lemma_id_index(a.positions, id, 0);
    lemma_id_index(b.positions, id, 0);
    assert(same_ids(s.positions, a.positions));
    lemma_same_index(s.positions, a.positions, id, 0);
    assert(same_ids(a.positions, b.positions));
    lemma_same_index(a.positions, b.positions, id, 0);
    assert(same_ids(b.positions, c.positions));
    lemma_same_index(b.positions, c.positions, id, 0);
}

proof fn lemma_same_index(
    a: Seq<MonitoredPositionView>,
    b: Seq<MonitoredPositionView>,
    id: Seq<char>,
    from: int,
)
    requires
        same_ids(a, b),
        0 <= from <= a.len(),
    ensures
        id_index(a, id, from) == id_index(b, id, from),
    decreases a.len() - from,
{
    if from < a.len() && a[from].id != id {
        lemma_same_index(a, b, id, from + 1);
    }
}

/// A cancelled sale is not a failed exit: it leaves the count of failures and the reason of
/// a forced exit alone, so that the next tick decides anew.
pub proof fn cancelled_sale_is_no_failure(
    p: MonitoredPositionView,
    filled: int,
    shortfall: int,
    reason: Seq<char>,
)
    requires
        p.executed_qty > filled >= 0,
    ensures
        exit_settled(p, filled, shortfall, true, reason).exit_attempts == p.exit_attempts,
        exit_settled(p, filled, shortfall, true, reason).force_exit == p.force_exit,
        exit_settled(p, filled, shortfall, true, reason).pending_exit_order_id is None,
        exit_settled(p, filled, shortfall, true, reason).executed_qty == p.executed_qty - filled,
{
}

/// A rejected sale counts as a failure and forces another exit.
pub proof fn rejected_sale_is_a_failure(
    p: MonitoredPositionView,
    filled: int,
    shortfall: int,
    reason: Seq<char>,
)
    requires
        p.executed_qty > filled >= 0,
        shortfall > 0,
        p.exit_attempts < i32::MAX,
    ensures
        exit_settled(p, filled, shortfall, false, reason).exit_attempts == p.exit_attempts + 1,
        exit_settled(p, filled, shortfall, false, reason).force_exit == Some(
            reason + "_SHORTFALL"@,
        ),
{
}

/// Whether a trade is the only one that `after` has over `before`.
pub open spec fn only_trade(
    before: Seq<EffectView>,
    after: Seq<EffectView>,
    t: TradeFillView,
) -> bool {
    &&& before.len() < after.len()
    &&& forall|k: int| 0 <= k < before.len() ==> after[k] == #[trigger] before[k]
    &&& exists|k: int| before.len() <= k < after.len() && #[trigger] after[k] == EffectView::Trade(t)
    &&& forall|k: int|
        before.len() <= k < after.len() && (#[trigger] after[k]) is Trade ==> after[k]
            == EffectView::Trade(t)
}

/// Whether `after` has no trade over `before`.
pub open spec fn no_trade(before: Seq<EffectView>, after: Seq<EffectView>) -> bool {
    &&& before.len() <= after.len()
    &&& forall|k: int| 0 <= k < before.len() ==> after[k] == #[trigger] before[k]
    &&& forall|k: int| before.len() <= k < after.len() ==> !((#[trigger] after[k]) is Trade)
}

/// An entry that ended with something filled is held as it was filled: the holding is the
/// filled quantity of its row in the book, and so is the one purchase that is booked, at the
/// average price of that row, or at the entry price of the signal where the row has none. The
/// position is active, and its order is off the record.
pub proof fn entries_are_held_as_filled(
    s: Settlement,
    leg: LiveLegView,
    book: Seq<KotakOrderView>,
    row: KotakOrderView,
)
    requires
        has_id(s.positions, leg.pos_id),
        leg.entry_order_id is Some,
        leg.sl_order_id is None,
        leg.pending_exit_order_id is None,
        book_row(book, leg.entry_order_id->0) == Some(row),
        row.terminal(),
        row.filled() > 0,
    ensures
        ({
            let after = settle_leg(s, leg, book);
            let p = with_id(s.positions, leg.pos_id);
            let q = with_id(after.positions, leg.pos_id);
            let t = TradeFillView {
                instrument: leg.instrument,
                buy: true,
                qty: q.executed_qty,
                price: q.avg_buy_price,
                is_options: leg.is_options,
                avg_buy_price: leg.avg_buy_price,
                signal_id: leg.signal_id,
                raw_message: leg.raw_message,
                reason: "ENTRY"@,
                mode: "LIVE"@,
            };
            &&& after.changed
            &&& q.executed_qty == row.filled()
            &&& row.average() > 0 ==> q.avg_buy_price == row.average()
            &&& row.average() <= 0 ==> q.avg_buy_price == leg.entry_price
            &&& q.state == TradeState::Active
            &&& q == (MonitoredPositionView {
                executed_qty: q.executed_qty,
                avg_buy_price: q.avg_buy_price,
                state: q.state,
                entry_order_id: None,
                entry_cancel_sent: false,
                ..p
            })
            &&& only_trade(s.effects, after.effects, t)
        }),
{
    let id = leg.pos_id;
    let after = settle_entry(s, leg, book);
    lemma_id_index(s.positions, id, 0);
    assert(same_ids(s.positions, after.positions));
    lemma_same_index(s.positions, after.positions, id, 0);
    lemma_read_bounds(row);
    let price = if row.average() <= 0 {
        leg.entry_price as int
    } else {
        row.average()
    };
    let t = leg_fill(leg, true, row.filled(), price, "ENTRY"@);
    let k = s.effects.len() as int + if row.average() <= 0 {
        1int
    } else {
        0
    };
    assert(after.effects[k] == EffectView::Trade(t));
}

/// What a row says of quantities and prices fits in what holds them.
proof fn lemma_read_bounds(row: KotakOrderView)
    ensures
        i32::MIN <= row.filled() <= i32::MAX,
        i32::MIN <= row.ordered() <= i32::MAX,
        i64::MIN <= row.average() <= i64::MAX,
{
}

/// A short fill of an entry is reported loudly, with what was filled and what was ordered, and
/// a full one is not reported as short.
pub proof fn short_entries_are_loud(
    s: Settlement,
    leg: LiveLegView,
    book: Seq<KotakOrderView>,
    row: KotakOrderView,
)
    requires
        leg.entry_order_id is Some,
        book_row(book, leg.entry_order_id->0) == Some(row),
        row.terminal(),
        row.filled() > 0,
    ensures
        ({
            let after = settle_entry(s, leg, book).effects;
            &&& row.filled() < row.ordered() ==> (after.last() matches EffectView::Note(n)
                && n.code == NoticeCode::EntryPartlyFilled && n.loud && n.qty == row.filled()
                && n.other_qty == row.ordered())
            &&& row.filled() >= row.ordered() ==> after.last() is Trade
        }),
{
    lemma_read_bounds(row);
}

/// An entry that ended with nothing filled is over: nothing is booked, the failure is loud, and
/// of the position only the state and the number of the order have changed.
pub proof fn unfilled_entries_are_over(
    s: Settlement,
    leg: LiveLegView,
    book: Seq<KotakOrderView>,
    row: KotakOrderView,
)
    requires
        has_id(s.positions, leg.pos_id),
        leg.entry_order_id is Some,
        leg.sl_order_id is None,
        leg.pending_exit_order_id is None,
        book_row(book, leg.entry_order_id->0) == Some(row),
        row.terminal(),
        row.filled() <= 0,
    ensures
        ({
            let after = settle_leg(s, leg, book);
            let p = with_id(s.positions, leg.pos_id);
            &&& with_id(after.positions, leg.pos_id) == (MonitoredPositionView {
                state: TradeState::Closed,
                entry_order_id: None,
                ..p
            })
            &&& no_trade(s.effects, after.effects)
            &&& after.effects.last() matches EffectView::Note(n)
            &&& n.loud && n.instrument == leg.instrument
        }),
{
    let after = settle_entry(s, leg, book);
    lemma_id_index(s.positions, leg.pos_id, 0);
    assert(same_ids(s.positions, after.positions));
    lemma_same_index(s.positions, after.positions, leg.pos_id, 0);
}

/// The rest of an entry that is filled in part is cancelled, and only once; until the order has
/// ended nothing is held or booked.
pub proof fn working_entries_are_not_held(
    s: Settlement,
    leg: LiveLegView,
    book: Seq<KotakOrderView>,
    row: KotakOrderView,
)
    requires
        has_id(s.positions, leg.pos_id),
        leg.entry_order_id is Some,
        leg.sl_order_id is None,
        leg.pending_exit_order_id is None,
        book_row(book, leg.entry_order_id->0) == Some(row),
        !row.terminal(),
    ensures
        ({
            let after = settle_leg(s, leg, book);
            let p = with_id(s.positions, leg.pos_id);
            &&& no_trade(s.effects, after.effects)
            &&& row.filled() > 0 && !leg.entry_cancel_sent ==> {
                &&& with_id(after.positions, leg.pos_id) == (MonitoredPositionView {
                    entry_cancel_sent: true,
                    ..p
                })
                &&& after.effects.len() == s.effects.len() + 1
                &&& after.effects.last() == (EffectView::Cancel {
                    order_id: leg.entry_order_id->0,
                    trading_symbol: leg.trading_symbol,
                    instrument: leg.instrument,
                })
            }
            &&& row.filled() <= 0 || leg.entry_cancel_sent ==> after == s
        }),
{
    let after = settle_entry(s, leg, book);
    lemma_id_index(s.positions, leg.pos_id, 0);
    assert(same_ids(s.positions, after.positions));
    lemma_same_index(s.positions, after.positions, leg.pos_id, 0);
}

/// What is left of a holding once `filled` of it were sold; it is never below nothing.
pub open spec fn left_of(held: i32, filled: int) -> int {
    if filled <= held {
        held - filled
    } else {
        0
    }
}

/// A sale that ended takes exactly what the book shows as filled off the holding, and books one
/// sale of that quantity at the average price of its row, if it has one. The sale is off the
/// record. With nothing left the position is over; with something left, a sale that came back
/// short and was not cancelled counts as one more failure and forces another exit, and any
/// other leaves failures and forced exits alone.
pub proof fn sales_are_booked_as_filled(
    s: Settlement,
    leg: LiveLegView,
    book: Seq<KotakOrderView>,
    row: KotakOrderView,
)
    requires
        has_id(s.positions, leg.pos_id),
        leg.entry_order_id is None,
        leg.sl_order_id is None,
        leg.pending_exit_order_id is Some,
        leg.pending_exit_reason is Some,
        book_row(book, leg.pending_exit_order_id->0) == Some(row),
        row.terminal(),
        0 <= row.filled(),
        0 <= with_id(s.positions, leg.pos_id).executed_qty,
        with_id(s.positions, leg.pos_id).exit_attempts < i32::MAX,
    ensures
        ({
            let after = settle_leg(s, leg, book);
            let p = with_id(s.positions, leg.pos_id);
            let q = with_id(after.positions, leg.pos_id);
            let short = row.filled() < leg.pending_exit_qty && !row.cancelled();
            let t = TradeFillView {
                instrument: leg.instrument,
                buy: false,
                qty: row.filled() as i32,
                price: row.average() as i64,
                is_options: leg.is_options,
                avg_buy_price: leg.avg_buy_price,
                signal_id: leg.signal_id,
                raw_message: leg.raw_message,
                reason: leg.pending_exit_reason->0,
                mode: "LIVE"@,
            };
            &&& q.executed_qty == left_of(p.executed_qty, row.filled())
            &&& q.pending_exit_order_id is None && q.pending_exit_reason is None
                && q.pending_exit_qty == 0
            &&& row.filled() > 0 && row.average() > 0 ==> t.qty == row.filled() && t.price
                == row.average() && only_trade(s.effects, after.effects, t)
            &&& row.filled() <= 0 || row.average() <= 0 ==> no_trade(s.effects, after.effects)
            &&& q.executed_qty == 0 ==> q.state == TradeState::Closed && q.force_exit is None
                && q.exit_attempts == p.exit_attempts
            &&& q.executed_qty > 0 && short ==> q.state == p.state && q.exit_attempts
                == p.exit_attempts + 1 && q.force_exit == Some(
                leg.pending_exit_reason->0 + "_SHORTFALL"@,
            )
            &&& q.executed_qty > 0 && !short ==> q.state == p.state && q.exit_attempts
                == p.exit_attempts && q.force_exit == p.force_exit
            &&& q == (MonitoredPositionView {
                executed_qty: q.executed_qty,
                pending_exit_order_id: None,
                pending_exit_qty: 0,
                pending_exit_reason: None,
                state: q.state,
                force_exit: q.force_exit,
                exit_attempts: q.exit_attempts,
                ..p
            })
        }),
{
    let id = leg.pos_id;
    let after = settle_exit(s, leg, book);
    lemma_id_index(s.positions, id, 0);
    assert(same_ids(s.positions, after.positions));
    lemma_same_index(s.positions, after.positions, id, 0);
    lemma_read_bounds(row);
    let t = leg_fill(leg, false, row.filled(), row.average(), leg.pending_exit_reason->0);
    if row.filled() > 0 && row.average() > 0 {
        assert(after.effects[s.effects.len() as int] == EffectView::Trade(t));
    }
}

/// A sale that failed to sell is reported: loudly, unless it was cancelled without a fill.
pub proof fn failed_sales_are_reported(
    s: Settlement,
    leg: LiveLegView,
    book: Seq<KotakOrderView>,
    row: KotakOrderView,
)
    requires
        leg.pending_exit_order_id is Some,
        leg.pending_exit_reason is Some,
        book_row(book, leg.pending_exit_order_id->0) == Some(row),
        row.terminal(),
    ensures
        ({
            let after = settle_exit(s, leg, book).effects;
            &&& row.filled() < leg.pending_exit_qty && !row.cancelled() ==> (
            after.last() matches EffectView::Note(n) && n.loud && n.code == NoticeCode::ExitShort
                && n.qty == row.filled() && n.other_qty == leg.pending_exit_qty)
            &&& row.filled() <= 0 && row.cancelled() ==> (
            after.last() matches EffectView::Note(n) && !n.loud && n.code
                == NoticeCode::ExitUnfilled)
        }),
{
    lemma_read_bounds(row);
}

/// A stop that was filled takes exactly what the book shows as filled off the holding, and
/// books one sale of that quantity at the average price of its row, if it has one. No trace of
/// the stop is left. With nothing left and no sale in flight the position is over.
pub proof fn stops_are_booked_as_filled(
    s: Settlement,
    leg: LiveLegView,
    book: Seq<KotakOrderView>,
    row: KotakOrderView,
)
    requires
        has_id(s.positions, leg.pos_id),
        leg.entry_order_id is None,
        leg.pending_exit_order_id is None,
        leg.sl_order_id is Some,
        book_row(book, leg.sl_order_id->0) == Some(row),
        row.complete(),
        0 <= row.filled(),
        0 <= with_id(s.positions, leg.pos_id).executed_qty,
    ensures
        ({
            let after = settle_leg(s, leg, book);
            let p = with_id(s.positions, leg.pos_id);
            let q = with_id(after.positions, leg.pos_id);
            let t = TradeFillView {
                instrument: leg.instrument,
                buy: false,
                qty: row.filled() as i32,
                price: row.average() as i64,
                is_options: leg.is_options,
                avg_buy_price: leg.avg_buy_price,
                signal_id: leg.signal_id,
                raw_message: leg.raw_message,
                reason: if leg.at_target1 {
                    "TRAIL_SL_HIT"@
                } else {
                    "SL_HIT"@
                },
                mode: "LIVE"@,
            };
            let over = q.executed_qty == 0 && p.pending_exit_order_id is None;
            &&& q.executed_qty == left_of(p.executed_qty, row.filled())
            &&& row.filled() > 0 && row.average() > 0 ==> t.qty == row.filled() && t.price
                == row.average() && only_trade(s.effects, after.effects, t)
            &&& row.filled() <= 0 || row.average() <= 0 ==> no_trade(s.effects, after.effects)
            &&& q == (MonitoredPositionView {
                executed_qty: q.executed_qty,
                sl_order_id: None,
                sl_order_qty: 0,
                sl_order_trigger: 0,
                state: q.state,
                force_exit: q.force_exit,
                ..p
            })
            &&& over ==> q.state == TradeState::Closed && q.force_exit is None
            &&& !over ==> q.state == p.state && q.force_exit == p.force_exit
        }),
{
    let id = leg.pos_id;
    let after = settle_stop(s, leg, book);
    lemma_id_index(s.positions, id, 0);
    assert(same_ids(s.positions, after.positions));
    lemma_same_index(s.positions, after.positions, id, 0);
    lemma_read_bounds(row);
    if row.filled() > 0 && row.average() > 0 {
        assert(after.effects[s.effects.len() as int] is Trade);
    }
}

/// A stop that was rejected or cancelled is off the record, with a loud report; what is held
/// and everything else of the position stays as it is.
pub proof fn a_lost_stop_is_loud(
    s: Settlement,
    leg: LiveLegView,
    book: Seq<KotakOrderView>,
    row: KotakOrderView,
)
    requires
        has_id(s.positions, leg.pos_id),
        leg.entry_order_id is None,
        leg.pending_exit_order_id is None,
        leg.sl_order_id is Some,
        book_row(book, leg.sl_order_id->0) == Some(row),
        !row.complete(),
        row.terminal(),
    ensures
        ({
            let after = settle_leg(s, leg, book);
            &&& with_id(after.positions, leg.pos_id) == (MonitoredPositionView {
                sl_order_id: None,
                sl_order_qty: 0,
                sl_order_trigger: 0,
                ..with_id(s.positions, leg.pos_id)
            })
            &&& no_trade(s.effects, after.effects)
            &&& after.effects.last() matches EffectView::Note(n)
            &&& n.loud && n.order_id == leg.sl_order_id->0
        }),
{
    let after = settle_stop(s, leg, book);
    lemma_id_index(s.positions, leg.pos_id, 0);
    assert(same_ids(s.positions, after.positions));
    lemma_same_index(s.positions, after.positions, leg.pos_id, 0);
}

/// Whether the book has the order `id` as ended.
pub open spec fn ended_in(book: Seq<KotakOrderView>, id: Option<Seq<char>>) -> bool {
    id is Some && (exists|i: int|
        0 <= i < book.len() && trimmed((#[trigger] book[i]).order_no) == trimmed(id->0)
            && book[i].terminal())
}

/// A stop or a sale that is still at work, or that the book does not show, changes nothing.
pub proof fn working_orders_change_nothing(
    s: Settlement,
    leg: LiveLegView,
    book: Seq<KotakOrderView>,
)
    requires
        leg.entry_order_id is None,
        !ended_in(book, leg.sl_order_id),
        !ended_in(book, leg.pending_exit_order_id),
    ensures
        settle_leg(s, leg, book) == s,
{
    if leg.sl_order_id is Some {
        lemma_book_index(book, leg.sl_order_id->0, 0);
    }
    if leg.pending_exit_order_id is Some {
        lemma_book_index(book, leg.pending_exit_order_id->0, 0);
    }
}

/// Every position with an order at the broker is asked about, with its own orders, and no other
/// position is.
pub proof fn every_order_has_its_leg(ps: Seq<MonitoredPositionView>, n: int, i: int)
    requires
        0 <= i < n <= ps.len(),
    ensures
        ps[i].entry_order_id is Some || ps[i].sl_order_id is Some || ps[i].pending_exit_order_id
            is Some ==> exists|k: int|
            0 <= k < legs_of(ps, n).len() && is_leg_of(#[trigger] legs_of(ps, n)[k], ps[i]),
    decreases n,
{
    let legs = legs_of(ps, n);
    if has_orders(ps[i]) {
        if i == n - 1 {
            assert(is_leg_of(legs[legs.len() - 1], ps[i]));
        } else {
            every_order_has_its_leg(ps, n - 1, i);
            let k = choose|k: int|
                0 <= k < legs_of(ps, n - 1).len() && is_leg_of(
                    #[trigger] legs_of(ps, n - 1)[k],
                    ps[i],
                );
            assert(legs[k] == legs_of(ps, n - 1)[k]);
        }
    }
}

/// No leg is made up: each is that of a position with an order at the broker.
pub proof fn every_leg_has_its_position(ps: Seq<MonitoredPositionView>, n: int, k: int)
    requires
        0 <= n <= ps.len(),
        0 <= k < legs_of(ps, n).len(),
    ensures
        exists|i: int|
            0 <= i < n && is_leg_of(legs_of(ps, n)[k], #[trigger] ps[i]) && (
            ps[i].entry_order_id is Some || ps[i].sl_order_id is Some
                || ps[i].pending_exit_order_id is Some),
    decreases n,
{
    if n > 0 {
        if k < legs_of(ps, n - 1).len() {
            every_leg_has_its_position(ps, n - 1, k);
        } else {
            assert(is_leg_of(legs_of(ps, n)[k], ps[n - 1]));
        }
    }
}

/// Whether a leg says of a position what settling needs to know.
pub open spec fn is_leg_of(leg: LiveLegView, p: MonitoredPositionView) -> bool {
    &&& leg.pos_id == p.id
    &&& leg.instrument == p.signal.instrument_name
    &&& p.resolved_order matches Some(o) ==> leg.trading_symbol == o.trading_symbol
    &&& leg.is_options == (p.signal.option_type is Some)
    &&& leg.signal_id == p.signal.signal_id
    &&& leg.raw_message == p.signal.raw_message
    &&& leg.avg_buy_price == p.avg_buy_price
    &&& leg.entry_price == p.signal.entry_price
    &&& leg.at_target1 == (p.state == TradeState::Target1Hit)
    &&& leg.entry_order_id == p.entry_order_id
    &&& leg.entry_cancel_sent == p.entry_cancel_sent
    &&& leg.sl_order_id == p.sl_order_id
    &&& leg.pending_exit_order_id == p.pending_exit_order_id
    &&& leg.pending_exit_qty == p.pending_exit_qty
    &&& leg.pending_exit_reason == p.pending_exit_reason
}

/// Each leg is settled once, after those before it.
pub proof fn legs_are_settled_in_turn(
    s: Settlement,
    legs: Seq<LiveLegView>,
    leg: LiveLegView,
    book: Seq<KotakOrderView>,
)
    ensures
        settled(s, legs.push(leg), book, legs.len() as int + 1) == settle_leg(
            settled(s, legs, book, legs.len() as int),
            leg,
            book,
        ),
        legs.len() == 0 ==> settled(s, legs, book, 0) == s,
{
    lemma_settled_prefix(s, legs, leg, book, legs.len() as int);
}

proof fn lemma_settled_prefix(
    s: Settlement,
    legs: Seq<LiveLegView>,
    leg: LiveLegView,
    book: Seq<KotakOrderView>,
    n: int,
)
    requires
        0 <= n <= legs.len(),
    ensures
        settled(s, legs.push(leg), book, n) == settled(s, legs, book, n),
    decreases n,
{
    if n > 0 {
        lemma_settled_prefix(s, legs, leg, book, n - 1);
    }
}

/// A fill without an average price is reported loudly: of an entry with the price that is taken
/// in its place, of a stop with what the book showed.
pub proof fn missing_prices_are_loud(
    s: Settlement,
    leg: LiveLegView,
    book: Seq<KotakOrderView>,
    row: KotakOrderView,
)
    ensures
        leg.entry_order_id is Some && book_row(book, leg.entry_order_id->0) == Some(row)
            && row.terminal() && row.filled() > 0 && row.average() <= 0 ==> {
            let k = s.effects.len() as int;
            &&& settle_entry(s, leg, book).effects[k] matches EffectView::Note(n)
            &&& n.code == NoticeCode::EntryPriceMissing && n.loud && n.qty == row.filled()
                && n.price == leg.entry_price && n.order_id == leg.entry_order_id->0 && n.instrument
                == leg.instrument
        },
        leg.sl_order_id is Some && book_row(book, leg.sl_order_id->0) == Some(row)
            && row.complete() && (row.filled() <= 0 || row.average() <= 0) ==> {
            let k = s.effects.len() as int;
            &&& settle_stop(s, leg, book).effects[k] matches EffectView::Note(n)
            &&& n.code == NoticeCode::StopWithoutFill && n.loud && n.qty == row.filled() && n.price
                == row.average() && n.order_id == leg.sl_order_id->0 && n.instrument
                == leg.instrument
        },
{
    lemma_read_bounds(row);
}

/// An order that ended without a fill is reported with its status and what the broker gave as
/// the reason; only a cancelled sale is no cause for alarm.
pub proof fn unfilled_orders_say_why(
    s: Settlement,
    leg: LiveLegView,
    book: Seq<KotakOrderView>,
    row: KotakOrderView,
)
    requires
        row.terminal(),
        row.filled() <= 0,
    ensures
        leg.entry_order_id is Some && book_row(book, leg.entry_order_id->0) == Some(row) ==> (
        settle_entry(s, leg, book).effects.last() matches EffectView::Note(n) && n.code
            == NoticeCode::EntryNotFilled && n.detail == row.status && n.cause
            == row.reject_reason && n.order_id == leg.entry_order_id->0),
        leg.sl_order_id is Some && book_row(book, leg.sl_order_id->0) == Some(row)
            && !row.complete() ==> (settle_stop(s, leg, book).effects.last()
            matches EffectView::Note(n) && n.code == NoticeCode::StopGone && n.detail == row.status
            && n.cause == row.reject_reason && n.instrument == leg.instrument),
        leg.pending_exit_order_id is Some && leg.pending_exit_reason is Some && book_row(
            book,
            leg.pending_exit_order_id->0,
        ) == Some(row) ==> {
            let k = s.effects.len() as int;
            &&& settle_exit(s, leg, book).effects[k] matches EffectView::Note(n)
            &&& n.reason == leg.pending_exit_reason->0 && n.order_id
                == leg.pending_exit_order_id->0 && n.instrument == leg.instrument
            &&& !row.cancelled() ==> n.loud && n.code == NoticeCode::ExitNotFilled && n.detail
                == row.status && n.cause == row.reject_reason
        },
{
}

} // verus!
