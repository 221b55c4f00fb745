//! What is done with positions by hand: closing, selling, deleting, sizing, and the kill
//! switch.
use vstd::prelude::*;

use dashmap::DashMap;

use crate::decide::price_at;
use crate::decimal::{above, stop_behind};
use crate::desk::{find_position, TradeFill};
use crate::domain::{clone_opt, MonitoredPosition, TradeState, TradingConfig};
use crate::sizing::lot_size_of;
use crate::text::{i64_text, same_text};

#[allow(unused_imports)]
use crate::decide::{is_open, real_price, shows};

#[allow(unused_imports)]
use crate::decimal::{level_above, rung_stop, rung_stop_lies_between_entry_and_rung};

#[allow(unused_imports)]
use crate::desk::{has_id, id_index, lemma_id_index, put_id, with_id, TradeFillView};

#[allow(unused_imports)]
use crate::domain::{views, MonitoredPositionView, TradingConfigView};

#[allow(unused_imports)]
use crate::sizing::lot_size;

#[allow(unused_imports)]
use crate::text::{has_text, int_text, pieces_stand_in_their_text};

verus! {

// ---------------------------------------------------------------------------
// Requests
// ---------------------------------------------------------------------------

/// A request to change how much a waiting position buys.
#[derive(Debug)]
pub struct PatchPositionReq {
    pub override_qty: Option<i32>,
}

/// A request to sell a part of a position.
#[derive(Debug)]
pub struct SellPositionReq {
    pub qty: i32,
}

// ---------------------------------------------------------------------------
// Prices
// ---------------------------------------------------------------------------

/// The price to book by hand: the one under the key of the contract, or, where there is
/// none at all, the one under the name of the instrument.
pub open spec fn booking_price(by_key: Option<i64>, by_name: Option<i64>) -> Option<i64> {
    real_price(
        if by_key is Some {
            by_key
        } else {
            by_name
        },
    )
}

/// The price to book by hand.
pub fn choose_booking_price(by_key: Option<i64>, by_name: Option<i64>) -> (res: Option<i64>)
    ensures
        res == booking_price(by_key, by_name),
{
    let p: Option<i64> = match by_key {
        Some(v) => Some(v),
        None => by_name,
    };
    match p {
        Some(v) if v > 0 => Some(v),
        _ => None,
    }
}

/// Whether a pair is what the feed shows for a position: under the key of its contract, if it
/// has one, and under the name of its instrument.
pub open spec fn fed(
    prices: DashMap<String, i64>,
    p: MonitoredPositionView,
    pair: (Option<i64>, Option<i64>),
) -> bool {
    &&& match p.ws_scrip_key {
        Some(k) => shows(prices, k, pair.0),
        None => pair.0 is None,
    }
    &&& shows(prices, p.signal.instrument_name, pair.1)
}

/// What the feed has for a position, under the key of its contract and under the name of its
/// instrument.
pub fn feed_prices(p: &MonitoredPosition, prices: &DashMap<String, i64>) -> (res: (
    Option<i64>,
    Option<i64>,
))
    ensures
        fed(*prices, p@, res),
{
    let by_key: Option<i64> = match &p.ws_scrip_key {
        Some(k) => price_at(prices, k.as_str()),
        None => None,
    };
    (by_key, price_at(prices, p.signal.instrument_name.as_str()))
}

/// What the feed has for each position.
pub fn all_feed_prices(
    positions: &Vec<MonitoredPosition>,
    prices: &DashMap<String, i64>,
) -> (res: Vec<(Option<i64>, Option<i64>)>)
    ensures
        res@.len() == positions@.len(),
        forall|i: int|
            0 <= i < res@.len() ==> fed(*prices, positions@[i]@, #[trigger] res@[i]),
{
    let mut out: Vec<(Option<i64>, Option<i64>)> = Vec::new();
    let mut i: usize = 0;
    while i < positions.len()
        invariant
            i <= positions@.len(),
            out@.len() == i,
            forall|j: int| 0 <= j < i ==> fed(*prices, positions@[j]@, #[trigger] out@[j]),
        decreases positions@.len() - i,
    {
        out.push(feed_prices(&positions[i], prices));
        i += 1;
    }
    out
}

/// The price that is shown of a position: a real one under its key, else what it has, else a
/// real one under the name of its instrument.
pub open spec fn shown_price(
    p: MonitoredPositionView,
    by_key: Option<i64>,
    by_name: Option<i64>,
) -> Option<i64> {
    if real_price(by_key) is Some {
        by_key
    } else if p.ltp is Some {
        p.ltp
    } else {
        real_price(by_name)
    }
}

/// The open ones among the first `n` positions, each with its price.
pub open spec fn shown(
    ps: Seq<MonitoredPositionView>,
    prices: Seq<(Option<i64>, Option<i64>)>,
    n: int,
) -> Seq<MonitoredPositionView>
    decreases n,
{
    if n <= 0 {
        Seq::empty()
    } else {
        let rest = shown(ps, prices, n - 1);
        let p = ps[n - 1];
        if p.state == TradeState::Closed {
            rest
        } else {
            rest.push(
                MonitoredPositionView {
                    ltp: shown_price(p, prices[n - 1].0, prices[n - 1].1),
                    ..p
                },
            )
        }
    }
}

/// The positions to show: those that are not closed, each with its price.
pub fn visible_positions(
    positions: &Vec<MonitoredPosition>,
    prices: &Vec<(Option<i64>, Option<i64>)>,
) -> (res: Vec<MonitoredPosition>)
    requires
        prices@.len() == positions@.len(),
    ensures
        views(res@) == shown(views(positions@), prices@, positions@.len() as int),
{
    let ghost ps = views(positions@);
    let mut out: Vec<MonitoredPosition> = Vec::new();
    let mut i: usize = 0;
    assert(views(out@) =~= shown(ps, prices@, 0));
    while i < positions.len()
        invariant
            i <= positions@.len(),
            ps == views(positions@),
            prices@.len() == positions@.len(),
            views(out@) == shown(ps, prices@, i as int),
        decreases positions@.len() - i,
    {
        assert(ps[i as int] == positions@[i as int]@);
        if positions[i].state != TradeState::Closed {
            let mut p: MonitoredPosition = positions[i].clone();
            let (by_key, by_name): (Option<i64>, Option<i64>) = prices[i];
            if let Some(v) = by_key {
                if v > 0 {
                    p.ltp = Some(v);
                }
            }
            if p.ltp.is_none() {
                if let Some(v) = by_name {
                    if v > 0 {
                        p.ltp = Some(v);
                    }
                }
            }
            let ghost before = views(out@);
            out.push(p);
            assert(views(out@) =~= before.push(p@));
        }
        i += 1;
    }
    out
}

// ---------------------------------------------------------------------------
// Closing
// ---------------------------------------------------------------------------

/// What comes of a request to close a position.
#[derive(Debug)]
pub enum CloseOutcome {
    NotFound,
    /// The position is not ongoing.
    NotOngoing,
    /// Nothing was held; the position is closed.
    ClosedEmpty,
    /// The exit is left to the live engine.
    Requested { instrument: String, qty: i32 },
    /// There is no price to book.
    NoPrice,
    /// Book the sale, then close the position with [`book_sale`].
    Book { fill: TradeFill },
}

/// What a [`CloseOutcome`] says.
pub ghost enum CloseOutcomeView {
    NotFound,
    NotOngoing,
    ClosedEmpty,
    Requested { instrument: Seq<char>, qty: i32 },
    NoPrice,
    Book { fill: TradeFillView },
}

impl View for CloseOutcome {
    type V = CloseOutcomeView;

    open spec fn view(&self) -> CloseOutcomeView {
        match self {
            CloseOutcome::NotFound => CloseOutcomeView::NotFound,
            CloseOutcome::NotOngoing => CloseOutcomeView::NotOngoing,
            CloseOutcome::ClosedEmpty => CloseOutcomeView::ClosedEmpty,
            CloseOutcome::Requested { instrument, qty } => CloseOutcomeView::Requested {
                instrument: instrument@,
                qty: *qty,
            },
            CloseOutcome::NoPrice => CloseOutcomeView::NoPrice,
            CloseOutcome::Book { fill } => CloseOutcomeView::Book { fill: fill@ },
        }
    }
}

/// A simulated sale by hand.
pub open spec fn hand_fill(
    p: MonitoredPositionView,
    qty: i32,
    price: i64,
    reason: Seq<char>,
) -> TradeFillView {
    TradeFillView {
        instrument: p.signal.instrument_name,
        buy: false,
        qty,
        price,
        is_options: p.signal.option_type is Some,
        avg_buy_price: p.avg_buy_price,
        signal_id: p.signal.signal_id,
        raw_message: p.signal.raw_message,
        reason,
        mode: "PAPER"@,
    }
}

fn sale_of(p: &MonitoredPosition, qty: i32, price: i64, reason: &str) -> (res: TradeFill)
    ensures
        res@ == hand_fill(p@, qty, price, reason@),
{
    TradeFill {
        instrument: p.signal.instrument_name.clone(),
        buy: false,
        qty,
        price,
        is_options: p.signal.option_type.is_some(),
        avg_buy_price: p.avg_buy_price,
        signal_id: clone_opt(&p.signal.signal_id),
        raw_message: clone_opt(&p.signal.raw_message),
        reason: reason.to_string(),
        mode: "PAPER".to_string(),
    }
}

/// What a request to close a position does: live, the engine is asked to exit, since it has
/// to cancel the stop first and book what is filled; simulated, the sale is booked at the
/// price of the feed.
pub open spec fn close_request(
    ps: Seq<MonitoredPositionView>,
    id: Seq<char>,
    live: bool,
    price: Option<i64>,
) -> (Seq<MonitoredPositionView>, CloseOutcomeView) {
    let p = with_id(ps, id);
    if !has_id(ps, id) {
        (ps, CloseOutcomeView::NotFound)
    } else if !is_open(p.state) {
        (ps, CloseOutcomeView::NotOngoing)
    } else if p.executed_qty <= 0 {
        (
            put_id(ps, id, MonitoredPositionView { state: TradeState::Closed, ..p }),
            CloseOutcomeView::ClosedEmpty,
        )
    } else if live {
        (
            put_id(
                ps,
                id,
                MonitoredPositionView {
                    force_exit: Some("CLOSED_VIA_FRONTEND"@),
                    override_exit_price: None,
                    ..p
                },
            ),
            CloseOutcomeView::Requested {
                instrument: p.signal.instrument_name,
                qty: p.executed_qty,
            },
        )
    } else if real_price(price) is None {
        (ps, CloseOutcomeView::NoPrice)
    } else {
        (
            ps,
            CloseOutcomeView::Book {
                fill: hand_fill(p, p.executed_qty, price->0, "CLOSED_VIA_FRONTEND"@),
            },
        )
    }
}

/// Handle a request to close a position.
pub fn close_position(
    positions: &mut Vec<MonitoredPosition>,
    id: &str,
    live: bool,
    price: Option<i64>,
) -> (res: CloseOutcome)
    ensures
        (views(final(positions)@), res@) == close_request(
            views(old(positions)@),
            id@,
            live,
            price,
        ),
{
    let ghost ps = views(positions@);
    let i: usize = match find_position(positions, id) {
        Some(i) => i,
        None => {
            return CloseOutcome::NotFound;
        },
    };
    if positions[i].state != TradeState::Active && positions[i].state != TradeState::Target1Hit {
        return CloseOutcome::NotOngoing;
    }
    let qty: i32 = positions[i].executed_qty;
    if qty <= 0 {
        let p: &mut MonitoredPosition = &mut positions[i];
        p.state = TradeState::Closed;
        assert(views(positions@) =~= close_request(ps, id@, live, price).0);
        return CloseOutcome::ClosedEmpty;
    }
    if live {
        let instrument: String = positions[i].signal.instrument_name.clone();
        let p: &mut MonitoredPosition = &mut positions[i];
        p.force_exit = Some("CLOSED_VIA_FRONTEND".to_string());
        p.override_exit_price = None;
        assert(views(positions@) =~= close_request(ps, id@, live, price).0);
        return CloseOutcome::Requested { instrument, qty };
    }
    match price {
        Some(v) if v > 0 => CloseOutcome::Book {
            fill: sale_of(&positions[i], qty, v, "CLOSED_VIA_FRONTEND"),
        },
        _ => CloseOutcome::NoPrice,
    }
}

/// A position after a simulated sale by hand left `remaining`.
pub open spec fn sale_booked(p: MonitoredPositionView, remaining: i32) -> MonitoredPositionView {
    let q = MonitoredPositionView { executed_qty: remaining, ..p };
    if remaining <= 0 {
        MonitoredPositionView { state: TradeState::Closed, ..q }
    } else {
        q
    }
}

/// Put a simulated sale by hand on the position, once it is on record. Nothing is done where
/// the position is gone.
pub fn book_sale(positions: &mut Vec<MonitoredPosition>, id: &str, remaining: i32)
    ensures
        views(final(positions)@) == put_id(
            views(old(positions)@),
            id@,
            sale_booked(with_id(views(old(positions)@), id@), remaining),
        ),
{
    let ghost ps = views(positions@);
    if let Some(i) = find_position(positions, id) {
        let p: &mut MonitoredPosition = &mut positions[i];
        p.executed_qty = remaining;
        if remaining <= 0 {
            p.state = TradeState::Closed;
        }
    }
    assert(views(positions@) =~= put_id(ps, id@, sale_booked(with_id(ps, id@), remaining)));
}

// ---------------------------------------------------------------------------
// Selling a part
// ---------------------------------------------------------------------------

/// What comes of a request to sell a part of a position.
#[derive(Debug)]
pub enum SellOutcome {
    NotFound,
    NotOngoing,
    /// The quantity is not between one and what is held.
    BadQuantity { held: i32 },
    /// The quantity is not a whole number of lots.
    NotWholeLots { lot: i32 },
    Requested { instrument: String, qty: i32 },
    NoPrice,
    /// Book the sale, then put it on the position with [`book_sale`].
    Book { fill: TradeFill, remaining: i32 },
}

/// What a [`SellOutcome`] says.
pub ghost enum SellOutcomeView {
    NotFound,
    NotOngoing,
    BadQuantity { held: i32 },
    NotWholeLots { lot: i32 },
    Requested { instrument: Seq<char>, qty: i32 },
    NoPrice,
    Book { fill: TradeFillView, remaining: i32 },
}

impl View for SellOutcome {
    type V = SellOutcomeView;

    open spec fn view(&self) -> SellOutcomeView {
        match self {
            SellOutcome::NotFound => SellOutcomeView::NotFound,
            SellOutcome::NotOngoing => SellOutcomeView::NotOngoing,
            SellOutcome::BadQuantity { held } => SellOutcomeView::BadQuantity { held: *held },
            SellOutcome::NotWholeLots { lot } => SellOutcomeView::NotWholeLots { lot: *lot },
            SellOutcome::Requested { instrument, qty } => SellOutcomeView::Requested {
                instrument: instrument@,
                qty: *qty,
            },
            SellOutcome::NoPrice => SellOutcomeView::NoPrice,
            SellOutcome::Book { fill, remaining } => SellOutcomeView::Book {
                fill: fill@,
                remaining: *remaining,
            },
        }
    }
}

/// What a request to sell `qty` of a position does.
pub open spec fn sell_request(
    ps: Seq<MonitoredPositionView>,
    id: Seq<char>,
    qty: i32,
    live: bool,
    price: Option<i64>,
) -> (Seq<MonitoredPositionView>, SellOutcomeView) {
    let p = with_id(ps, id);
    if !has_id(ps, id) {
        (ps, SellOutcomeView::NotFound)
    } else if !is_open(p.state) {
        (ps, SellOutcomeView::NotOngoing)
    } else if qty <= 0 || qty > p.executed_qty {
        (ps, SellOutcomeView::BadQuantity { held: p.executed_qty })
    } else if qty as int % lot_size(p) != 0 {
        (ps, SellOutcomeView::NotWholeLots { lot: lot_size(p) as i32 })
    } else if live {
        (
            put_id(ps, id, MonitoredPositionView { manual_sell_qty: Some(qty), ..p }),
            SellOutcomeView::Requested { instrument: p.signal.instrument_name, qty },
        )
    } else if real_price(price) is None {
        (ps, SellOutcomeView::NoPrice)
    } else {
        (
            ps,
            SellOutcomeView::Book {
                fill: hand_fill(p, qty, price->0, "MANUAL_SELL"@),
                remaining: (p.executed_qty - qty) as i32,
            },
        )
    }
}

/// Handle a request to sell a part of a position.
pub fn sell_position(
    positions: &mut Vec<MonitoredPosition>,
    id: &str,
    req: &SellPositionReq,
    live: bool,
    price: Option<i64>,
) -> (res: SellOutcome)
    ensures
        (views(final(positions)@), res@) == sell_request(
            views(old(positions)@),
            id@,
            req.qty,
            live,
            price,
        ),
{
    let ghost ps = views(positions@);
    let qty: i32 = req.qty;
    let i: usize = match find_position(positions, id) {
        Some(i) => i,
        None => {
            return SellOutcome::NotFound;
        },
    };
    if positions[i].state != TradeState::Active && positions[i].state != TradeState::Target1Hit {
        return SellOutcome::NotOngoing;
    }
    let held: i32 = positions[i].executed_qty;
    if qty <= 0 || qty > held {
        return SellOutcome::BadQuantity { held };
    }
    let lot: i32 = lot_size_of(&positions[i]);
    if qty % lot != 0 {
        return SellOutcome::NotWholeLots { lot };
    }
    if live {
        let instrument: String = positions[i].signal.instrument_name.clone();
        let p: &mut MonitoredPosition = &mut positions[i];
        p.manual_sell_qty = Some(qty);
        assert(views(positions@) =~= sell_request(ps, id@, qty, live, price).0);
        return SellOutcome::Requested { instrument, qty };
    }
    match price {
        Some(v) if v > 0 => SellOutcome::Book {
            fill: sale_of(&positions[i], qty, v, "MANUAL_SELL"),
            remaining: held - qty,
        },
        _ => SellOutcome::NoPrice,
    }
}

/// What is answered to a quantity that cannot be sold.
pub open spec fn bad_quantity_reply(held: int) -> Seq<char> {
    "quantity must be between 1 and "@ + int_text(held) + " (currently held)"@
}

/// What is answered to a quantity that is not a whole number of lots.
pub open spec fn whole_lots_reply(lot: int) -> Seq<char> {
    "quantity must be a multiple of the lot size ("@ + int_text(lot) + ")"@
}

/// What is answered to a quantity that cannot be sold.
pub fn bad_quantity_answer(held: i32) -> (res: String)
    ensures
        res@ == bad_quantity_reply(held as int),
{
    let mut out: String = "quantity must be between 1 and ".to_string();
    out.append(i64_text(held as i64).as_str());
    out.append(" (currently held)");
    out
}

/// What is answered to a quantity that is not a whole number of lots.
pub fn whole_lots_answer(lot: i32) -> (res: String)
    ensures
        res@ == whole_lots_reply(lot as int),
{
    let mut out: String = "quantity must be a multiple of the lot size (".to_string();
    out.append(i64_text(lot as i64).as_str());
    out.append(")");
    out
}

// ---------------------------------------------------------------------------
// Deleting and sizing
// ---------------------------------------------------------------------------

/// What comes of a request to delete a position.
#[derive(Debug, Clone, Copy, PartialEq, Eq, Structural)]
pub enum DeleteOutcome {
    /// The position is live at the broker and has to be closed first.
    Blocked,
    Deleted,
    NotFound,
}

/// Whether something of a position is at the broker.
pub open spec fn live_at_broker(p: MonitoredPositionView) -> bool {
    p.executed_qty > 0 || p.entry_order_id is Some || p.sl_order_id is Some
        || p.pending_exit_order_id is Some
}

/// Whether a request to delete a position is refused.
pub open spec fn delete_refused(ps: Seq<MonitoredPositionView>, id: Seq<char>, live: bool) -> bool {
    live && has_id(ps, id) && live_at_broker(with_id(ps, id))
}

/// The positions without those of the id `id`.
pub open spec fn without_id(ps: Seq<MonitoredPositionView>, id: Seq<char>) -> Seq<
    MonitoredPositionView,
> {
    ps.filter(|p: MonitoredPositionView| p.id != id)
}

fn drop_id(positions: &mut Vec<MonitoredPosition>, id: &str)
    ensures
        views(final(positions)@) == without_id(views(old(positions)@), id@),
{
    let ghost ps = views(positions@);
    let mut all: Vec<MonitoredPosition> = Vec::new();
    std::mem::swap(&mut all, positions);
    let ghost before = all@;
    let ghost mut k: int = 0;
    let mut kept: Vec<MonitoredPosition> = Vec::new();
    let ghost keep = |p: MonitoredPositionView| p.id != id@;
    assert(ps.take(0) =~= Seq::<MonitoredPositionView>::empty());
    assert(views(kept@) =~= ps.take(0).filter(keep)) by {
        reveal(Seq::filter);
    }
    while all.len() > 0
        invariant
            ps == views(before),
            0 <= k <= before.len(),
            all@ =~= before.skip(k),
            keep == (|p: MonitoredPositionView| p.id != id@),
            views(kept@) == ps.take(k).filter(keep),
        decreases all@.len(),
    {
        let ghost had = kept@;
        let p: MonitoredPosition = all.remove(0);
        proof {
            assert(p == before[k]);
            assert(ps[k] == p@);
            assert(ps.take(k + 1).drop_last() =~= ps.take(k));
            assert(ps.take(k + 1).last() == ps[k]);
            assert(ps.take(k + 1).filter(keep) == if keep(ps[k]) {
                ps.take(k).filter(keep).push(ps[k])
            } else {
                ps.take(k).filter(keep)
            }) by {
                reveal(Seq::filter);
            }
            k = k + 1;
        }
        if !same_text(p.id.as_str(), id) {
            kept.push(p);
            assert(views(kept@) =~= views(had).push(p@));
        }
    }
    assert(ps.take(k) =~= ps);
    *positions = kept;
}

/// What comes of a request to delete a position.
pub open spec fn delete_outcome(
    ps: Seq<MonitoredPositionView>,
    id: Seq<char>,
    live: bool,
) -> DeleteOutcome {
    if delete_refused(ps, id, live) {
        DeleteOutcome::Blocked
    } else if has_id(ps, id) {
        DeleteOutcome::Deleted
    } else {
        DeleteOutcome::NotFound
    }
}

/// The positions after a request to delete one.
pub open spec fn after_delete(
    ps: Seq<MonitoredPositionView>,
    id: Seq<char>,
    live: bool,
) -> Seq<MonitoredPositionView> {
    if delete_outcome(ps, id, live) == DeleteOutcome::Deleted {
        without_id(ps, id)
    } else {
        ps
    }
}

/// The positions after a request to change how much one of them buys.
pub open spec fn resized(
    ps: Seq<MonitoredPositionView>,
    id: Seq<char>,
    qty: Option<i32>,
) -> Seq<MonitoredPositionView> {
    put_id(ps, id, MonitoredPositionView { override_qty: qty, ..with_id(ps, id) })
}

/// Handle a request to delete a position. Live, one that holds something or has an order at
/// the broker is not forgotten: nobody would watch it.
pub fn delete_position(positions: &mut Vec<MonitoredPosition>, id: &str, live: bool) -> (res:
    DeleteOutcome)
    ensures
        res == delete_outcome(views(old(positions)@), id@, live),
        views(final(positions)@) == after_delete(views(old(positions)@), id@, live),
        res == (if delete_refused(views(old(positions)@), id@, live) {
            DeleteOutcome::Blocked
        } else if has_id(views(old(positions)@), id@) {
            DeleteOutcome::Deleted
        } else {
            DeleteOutcome::NotFound
        }),
        views(final(positions)@) == (if res == DeleteOutcome::Deleted {
            without_id(views(old(positions)@), id@)
        } else {
            views(old(positions)@)
        }),
{
    let i: usize = match find_position(positions, id) {
        Some(i) => i,
        None => {
            return DeleteOutcome::NotFound;
        },
    };
    if live && (positions[i].executed_qty > 0 || positions[i].entry_order_id.is_some()
        || positions[i].sl_order_id.is_some() || positions[i].pending_exit_order_id.is_some()) {
        return DeleteOutcome::Blocked;
    }
    drop_id(positions, id);
    DeleteOutcome::Deleted
}

/// Handle a request to change how much a position buys. Gives back whether there is such a
/// position.
pub fn patch_position(
    positions: &mut Vec<MonitoredPosition>,
    id: &str,
    req: &PatchPositionReq,
) -> (res: bool)
    ensures
        res == has_id(views(old(positions)@), id@),
        views(final(positions)@) == resized(views(old(positions)@), id@, req.override_qty),
        views(final(positions)@) == put_id(
            views(old(positions)@),
            id@,
            (MonitoredPositionView {
                override_qty: req.override_qty,
                ..with_id(views(old(positions)@), id@)
            }),
        ),
{
    let ghost ps = views(positions@);
    match find_position(positions, id) {
        Some(i) => {
            let p: &mut MonitoredPosition = &mut positions[i];
            p.override_qty = req.override_qty;
            assert(views(positions@) =~= put_id(
                ps,
                id@,
                MonitoredPositionView { override_qty: req.override_qty, ..with_id(ps, id@) },
            ));
            true
        },
        None => false,
    }
}

// ---------------------------------------------------------------------------
// The kill switch
// ---------------------------------------------------------------------------

/// A position when the kill switch is pulled, `paper` saying whether trading is simulated.
pub open spec fn killed(p: MonitoredPositionView, paper: bool) -> MonitoredPositionView {
    let flagged = MonitoredPositionView { force_exit: Some("KILL_SWITCH"@), ..p };
    match p.state {
        TradeState::Closed => p,
        TradeState::WaitingForEntry => if paper {
            MonitoredPositionView { state: TradeState::Closed, ..flagged }
        } else {
            flagged
        },
        _ => if paper && p.executed_qty > 0 {
            MonitoredPositionView { executed_qty: 0, state: TradeState::Closed, ..flagged }
        } else {
            flagged
        },
    }
}

/// The simulated sale of a position when the kill switch is pulled, if there is one: at the
/// price of the feed, or at cost where there is none.
pub open spec fn kill_fill(p: MonitoredPositionView, price: Option<i64>, paper: bool) -> Option<
    TradeFillView,
> {
    if paper && is_open(p.state) && p.executed_qty > 0 {
        Some(
            hand_fill(
                p,
                p.executed_qty,
                if real_price(price) is Some {
                    price->0
                } else {
                    p.avg_buy_price
                },
                "KILL_SWITCH"@,
            ),
        )
    } else {
        None
    }
}

/// The simulated sales of the first `n` positions.
pub open spec fn kill_fills(
    ps: Seq<MonitoredPositionView>,
    prices: Seq<Option<i64>>,
    paper: bool,
    n: int,
) -> Seq<TradeFillView>
    decreases n,
{
    if n <= 0 {
        Seq::empty()
    } else {
        let rest = kill_fills(ps, prices, paper, n - 1);
        match kill_fill(ps[n - 1], prices[n - 1], paper) {
            Some(f) => rest.push(f),
            None => rest,
        }
    }
}

/// How many of the first `n` positions are held.
pub open spec fn count_held(ps: Seq<MonitoredPositionView>, n: int) -> int
    decreases n,
{
    if n <= 0 {
        0
    } else {
        count_held(ps, n - 1) + if is_open(ps[n - 1].state) {
            1int
        } else {
            0
        }
    }
}

/// How many of the first `n` positions wait for their entry.
pub open spec fn count_waiting(ps: Seq<MonitoredPositionView>, n: int) -> int
    decreases n,
{
    if n <= 0 {
        0
    } else {
        count_waiting(ps, n - 1) + if ps[n - 1].state == TradeState::WaitingForEntry {
            1int
        } else {
            0
        }
    }
}

/// The positions when the kill switch is pulled.
pub open spec fn all_killed(ps: Seq<MonitoredPositionView>, paper: bool) -> Seq<
    MonitoredPositionView,
> {
    ps.map_values(|p: MonitoredPositionView| killed(p, paper))
}

/// Settings with the kill switch on or off.
pub open spec fn switched(cfg: TradingConfigView, on: bool) -> TradingConfigView {
    TradingConfigView { kill_switch_active: on, ..cfg }
}

/// Fills, by what they say.
pub open spec fn fills_view(s: Seq<TradeFill>) -> Seq<TradeFillView> {
    s.map_values(|f: TradeFill| f@)
}

/// What pulling the kill switch did.
#[derive(Debug)]
pub struct KillReport {
    pub liquidated: usize,
    pub abandoned: usize,
    pub fills: Vec<TradeFill>,
}

/// Pull the kill switch: no entry is taken any more, every position is on its way out, and
/// simulated ones are sold on the spot.
pub fn engage_kill_switch(
    cfg: &mut TradingConfig,
    positions: &mut Vec<MonitoredPosition>,
    prices: &Vec<Option<i64>>,
) -> (res: KillReport)
    requires
        prices@.len() == old(positions)@.len(),
    ensures
        final(cfg)@ == (TradingConfigView { kill_switch_active: true, ..old(cfg)@ }),
        final(cfg)@ == switched(old(cfg)@, true),
        views(final(positions)@) == all_killed(
            views(old(positions)@),
            old(cfg)@.mode == "PAPER"@,
        ),
        ({
            let ps = views(old(positions)@);
            let paper = old(cfg)@.mode == "PAPER"@;
            &&& views(final(positions)@) == ps.map_values(
                |p: MonitoredPositionView| killed(p, paper),
            )
            &&& fills_view(res.fills@) == kill_fills(ps, prices@, paper, ps.len() as int)
            &&& res.liquidated == count_held(ps, ps.len() as int)
            &&& res.abandoned == count_waiting(ps, ps.len() as int)
        }),
{
    cfg.kill_switch_active = true;
    let paper: bool = same_text(cfg.mode.as_str(), "PAPER");
    let ghost ps = views(positions@);
    let mut fills: Vec<TradeFill> = Vec::new();
    let mut liquidated: usize = 0;
    let mut abandoned: usize = 0;
    let mut i: usize = 0;
    assert(fills_view(fills@) =~= Seq::<TradeFillView>::empty());
    while i < positions.len()
        invariant
            i <= positions@.len(),
            positions@.len() == ps.len(),
            prices@.len() == ps.len(),
            liquidated <= i,
            abandoned <= i,
            liquidated == count_held(ps, i as int),
            abandoned == count_waiting(ps, i as int),
            fills_view(fills@) == kill_fills(ps, prices@, paper, i as int),
            forall|j: int| 0 <= j < i ==> (#[trigger] positions@[j])@ == killed(ps[j], paper),
            forall|j: int| i <= j < ps.len() ==> (#[trigger] positions@[j])@ == ps[j],
        decreases ps.len() - i,
    {
        assert(positions@[i as int]@ == ps[i as int]);
        match positions[i].state {
            TradeState::Closed => {},
            TradeState::WaitingForEntry => {
                abandoned += 1;
                let p: &mut MonitoredPosition = &mut positions[i];
                p.force_exit = Some("KILL_SWITCH".to_string());
                if paper {
                    p.state = TradeState::Closed;
                }
            },
            _ => {
                liquidated += 1;
                let qty: i32 = positions[i].executed_qty;
                if paper && qty > 0 {
                    let price: i64 = match prices[i] {
                        Some(v) if v > 0 => v,
                        _ => positions[i].avg_buy_price,
                    };
                    let fill: TradeFill = sale_of(&positions[i], qty, price, "KILL_SWITCH");
                    let ghost before = fills_view(fills@);
                    fills.push(fill);
                    assert(fills_view(fills@) =~= before.push(fill@));
                }
                let p: &mut MonitoredPosition = &mut positions[i];
                p.force_exit = Some("KILL_SWITCH".to_string());
                if paper && qty > 0 {
                    p.executed_qty = 0;
                    p.state = TradeState::Closed;
                }
            },
        }
        i += 1;
    }
    assert(views(positions@) =~= ps.map_values(|p: MonitoredPositionView| killed(p, paper)));
    KillReport { liquidated, abandoned, fills }
}

/// Put the kill switch back: trading goes on.
pub fn reset_kill_switch(cfg: &mut TradingConfig)
    ensures
        final(cfg)@ == (TradingConfigView { kill_switch_active: false, ..old(cfg)@ }),
        final(cfg)@ == switched(old(cfg)@, false),
{
    cfg.kill_switch_active = false;
}

// ---------------------------------------------------------------------------
// Runners under new settings
// ---------------------------------------------------------------------------

/// Whether the levels of a position follow from a rung.
pub open spec fn is_runner(p: MonitoredPositionView) -> bool {
    p.state == TradeState::Target1Hit && p.last_dynamic_rung is Some && p.signal.targets.len() > 0
}

/// A runner with its stop and its next rung put where the settings want them.
pub open spec fn recomputed(p: MonitoredPositionView, cfg: TradingConfigView)
    -> MonitoredPositionView {
    if is_runner(p) {
        let rung = p.last_dynamic_rung->0;
        let diff = p.signal.targets[0] - p.avg_buy_price;
        MonitoredPositionView {
            next_dynamic_target: Some(
                level_above(
                    rung as int,
                    diff,
                    cfg.dynamic_targeting_extension_factor as int,
                ) as i64,
            ),
            current_sl: rung_stop(
                rung as int,
                diff,
                cfg.dynamic_targeting_trail_factor as int,
                p.tick_size as int,
            ) as i64,
            ..p
        }
    } else {
        p
    }
}

/// Put the stops and next rungs of all dynamic runners where the settings want them, so that
/// a change takes effect at once. Gives back whether there is a runner.
pub fn recompute_open_dynamic_runners(
    positions: &mut Vec<MonitoredPosition>,
    cfg: &TradingConfig,
) -> (res: bool)
    ensures
        views(final(positions)@) == views(old(positions)@).map_values(
            |p: MonitoredPositionView| recomputed(p, cfg@),
        ),
        res == exists|i: int|
            0 <= i < old(positions)@.len() && is_runner(#[trigger] views(old(positions)@)[i]),
{
    let ghost ps = views(positions@);
    let mut changed: bool = false;
    let mut i: usize = 0;
    while i < positions.len()
        invariant
            i <= positions@.len(),
            positions@.len() == ps.len(),
            changed == exists|j: int| 0 <= j < i && is_runner(#[trigger] ps[j]),
            forall|j: int| 0 <= j < i ==> (#[trigger] positions@[j])@ == recomputed(ps[j], cfg@),
            forall|j: int| i <= j < ps.len() ==> (#[trigger] positions@[j])@ == ps[j],
        decreases ps.len() - i,
    {
        assert(positions@[i as int]@ == ps[i as int]);
        let ghost was = changed;
        let p: &mut MonitoredPosition = &mut positions[i];
        if p.state == TradeState::Target1Hit && p.signal.targets.len() > 0 {
            if let Some(rung) = p.last_dynamic_rung {
                let diff: i128 = p.signal.targets[0] as i128 - p.avg_buy_price as i128;
                p.next_dynamic_target = Some(
                    above(rung, diff, cfg.dynamic_targeting_extension_factor),
                );
                p.current_sl = stop_behind(
                    rung,
                    diff,
                    cfg.dynamic_targeting_trail_factor,
                    p.tick_size,
                );
                changed = true;
                assert(is_runner(ps[i as int]));
            }
        }
        proof {
            if was {
                let j = choose|j: int| 0 <= j < i && is_runner(#[trigger] ps[j]);
                assert(is_runner(ps[j]));
            }
        }
        i += 1;
    }
    assert(views(positions@) =~= ps.map_values(|p: MonitoredPositionView| recomputed(p, cfg@)));
    changed
}

// ---------------------------------------------------------------------------
// Laws
// ---------------------------------------------------------------------------

/// No sale by hand is of more than what is held, and the rest is what was not sold.
pub proof fn hand_sales_fit_the_holding(
    ps: Seq<MonitoredPositionView>,
    id: Seq<char>,
    qty: i32,
    live: bool,
    price: Option<i64>,
)
    ensures
        sell_request(ps, id, qty, live, price).1 matches SellOutcomeView::Book { fill, remaining }
            ==> 0 < fill.qty <= with_id(ps, id).executed_qty && remaining == with_id(
            ps,
            id,
        ).executed_qty - fill.qty,
        sell_request(ps, id, qty, live, price).1 is Requested ==> 0 < qty <= with_id(
            ps,
            id,
        ).executed_qty,
{
}

/// Live, a request by hand never books anything: the engine sells and books what is filled.
pub proof fn live_requests_book_nothing(
    ps: Seq<MonitoredPositionView>,
    id: Seq<char>,
    qty: i32,
    price: Option<i64>,
)
    ensures
        !(close_request(ps, id, true, price).1 is Book),
        !(sell_request(ps, id, qty, true, price).1 is Book),
{
}

/// A position that is live at the broker is never deleted while trading live.
pub proof fn live_positions_are_not_forgotten(ps: Seq<MonitoredPositionView>, id: Seq<char>)
    requires
        has_id(ps, id),
        live_at_broker(with_id(ps, id)),
    ensures
        delete_refused(ps, id, true),
{
}

/// With the kill switch pulled every position is closed or on its way out; simulated, nothing
/// that was held or waited is left.
pub proof fn kill_switch_empties_the_desk(p: MonitoredPositionView, paper: bool)
    ensures
        killed(p, paper).state == TradeState::Closed || killed(p, paper).force_exit == Some(
            "KILL_SWITCH"@,
        ),
        paper && (p.state == TradeState::WaitingForEntry || p.executed_qty > 0) ==> killed(
            p,
            paper,
        ).state == TradeState::Closed,
{
}

/// New settings put the stop of a runner between its rung and the distance to target 1 below
/// it, so never below the entry.
pub proof fn recomputed_stop_protects_the_entry(p: MonitoredPositionView, cfg: TradingConfigView)
    requires
        is_runner(p),
        cfg.dynamic_targeting_trail_factor >= 0,
        p.avg_buy_price < p.signal.targets[0] <= p.last_dynamic_rung->0,
    ensures
        p.last_dynamic_rung->0 - (p.signal.targets[0] - p.avg_buy_price) <= recomputed(
            p,
            cfg,
        ).current_sl <= p.last_dynamic_rung->0,
        p.avg_buy_price <= recomputed(p, cfg).current_sl,
{
    rung_stop_lies_between_entry_and_rung(
        p.last_dynamic_rung->0 as int,
        p.avg_buy_price as int,
        p.signal.targets[0] as int,
        cfg.dynamic_targeting_trail_factor as int,
        p.tick_size as int,
    );
}

/// Settings that did not change leave a runner where the last rung put it.
pub proof fn recomputing_twice_changes_nothing(p: MonitoredPositionView, cfg: TradingConfigView)
    ensures
        recomputed(recomputed(p, cfg), cfg) == recomputed(p, cfg),
{
}

/// Whether a sale by hand is a simulated sale of `qty` of a position at `price`.
pub open spec fn is_hand_sale(
    p: MonitoredPositionView,
    f: TradeFillView,
    qty: int,
    price: i64,
    why: Seq<char>,
) -> bool {
    &&& !f.buy
    &&& f.qty == qty
    &&& f.price == price
    &&& f.instrument == p.signal.instrument_name
    &&& f.is_options == (p.signal.option_type is Some)
    &&& f.avg_buy_price == p.avg_buy_price
    &&& f.signal_id == p.signal.signal_id
    &&& f.raw_message == p.signal.raw_message
    &&& f.reason == why
    &&& f.mode == "PAPER"@
}

/// A request to close: simulated and with a price, all that is held is to be sold at that
/// price, and nothing changes before the sale is booked; live, the exit is forced and nothing
/// else changes; a position that holds nothing is over at once.
pub proof fn closing_sells_all_that_is_held(
    ps: Seq<MonitoredPositionView>,
    id: Seq<char>,
    live: bool,
    price: Option<i64>,
)
    requires
        has_id(ps, id),
    ensures
        ({
            let p = with_id(ps, id);
            let (qs, out) = close_request(ps, id, live, price);
            let open = p.state == TradeState::Active || p.state == TradeState::Target1Hit;
            let priced = price is Some && price->0 > 0;
            &&& !open ==> qs == ps && out is NotOngoing
            &&& open && p.executed_qty <= 0 ==> out is ClosedEmpty && with_id(qs, id) == (
            MonitoredPositionView { state: TradeState::Closed, ..p })
            &&& open && p.executed_qty > 0 && live ==> {
                &&& out == (CloseOutcomeView::Requested {
                    instrument: p.signal.instrument_name,
                    qty: p.executed_qty,
                })
                &&& with_id(qs, id).force_exit == Some("CLOSED_VIA_FRONTEND"@)
                &&& with_id(qs, id) == (MonitoredPositionView {
                    force_exit: with_id(qs, id).force_exit,
                    override_exit_price: None,
                    ..p
                })
            }
            &&& open && p.executed_qty > 0 && !live && !priced ==> qs == ps && out is NoPrice
            &&& open && p.executed_qty > 0 && !live && priced ==> {
                &&& qs == ps
                &&& out matches CloseOutcomeView::Book { fill }
                &&& is_hand_sale(
                    p,
                    fill,
                    p.executed_qty as int,
                    price->0,
                    "CLOSED_VIA_FRONTEND"@,
                )
            }
            &&& others_stay(ps, qs, id)
        }),
{
    let p = with_id(ps, id);
    lemma_id_index(ps, id, 0);
    lemma_put_stays_found(ps, id, MonitoredPositionView { state: TradeState::Closed, ..p });
    lemma_put_stays_found(
        ps,
        id,
        MonitoredPositionView {
            force_exit: Some("CLOSED_VIA_FRONTEND"@),
            override_exit_price: None,
            ..p
        },
    );
}

/// Whether two lists have the same positions under all ids but one.
pub open spec fn others_stay(
    ps: Seq<MonitoredPositionView>,
    qs: Seq<MonitoredPositionView>,
    id: Seq<char>,
) -> bool {
    &&& qs.len() == ps.len()
    &&& forall|j: int| 0 <= j < ps.len() && (#[trigger] ps[j]).id != id ==> qs[j] == ps[j]
}

proof fn lemma_put_stays_found(
    ps: Seq<MonitoredPositionView>,
    id: Seq<char>,
    p: MonitoredPositionView,
)
    requires
        has_id(ps, id),
        p.id == id,
    ensures
        has_id(put_id(ps, id, p), id),
        with_id(put_id(ps, id, p), id) == p,
        others_stay(ps, put_id(ps, id, p), id),
{
    let i = id_index(ps, id, 0);
    let qs = put_id(ps, id, p);
    lemma_id_index(ps, id, 0);
    lemma_id_index(qs, id, 0);
    let j = id_index(qs, id, 0);
    assert(qs[i].id == id);
    if j < i {
        assert(qs[j] == ps[j]);
    }
}

/// A request to sell a part: only a positive number of whole lots that are held is taken.
/// Live, exactly that number is asked of the engine and nothing else changes; simulated and
/// with a price, exactly that number is to be sold at that price.
pub proof fn selling_a_part_sells_what_was_asked(
    ps: Seq<MonitoredPositionView>,
    id: Seq<char>,
    qty: i32,
    live: bool,
    price: Option<i64>,
)
    requires
        has_id(ps, id),
    ensures
        ({
            let p = with_id(ps, id);
            let (qs, out) = sell_request(ps, id, qty, live, price);
            let open = p.state == TradeState::Active || p.state == TradeState::Target1Hit;
            let fits = 0 < qty <= p.executed_qty;
            let whole = qty as int % lot_size(p) == 0;
            let priced = price is Some && price->0 > 0;
            &&& !open ==> qs == ps && out is NotOngoing
            &&& open && !fits ==> qs == ps && out == (SellOutcomeView::BadQuantity {
                held: p.executed_qty,
            })
            &&& open && fits && !whole ==> qs == ps && out is NotWholeLots
            &&& open && fits && whole && live ==> {
                &&& out == (SellOutcomeView::Requested {
                    instrument: p.signal.instrument_name,
                    qty,
                })
                &&& with_id(qs, id) == (MonitoredPositionView { manual_sell_qty: Some(qty), ..p })
            }
            &&& open && fits && whole && !live && !priced ==> qs == ps && out is NoPrice
            &&& open && fits && whole && !live && priced ==> {
                &&& qs == ps
                &&& out matches SellOutcomeView::Book { fill, remaining }
                &&& is_hand_sale(p, fill, qty as int, price->0, "MANUAL_SELL"@)
                &&& remaining + qty == p.executed_qty
            }
            &&& others_stay(ps, qs, id)
        }),
{
    let p = with_id(ps, id);
    lemma_id_index(ps, id, 0);
    lemma_put_stays_found(ps, id, MonitoredPositionView { manual_sell_qty: Some(qty), ..p });
}

/// No request does anything about a position that is not there.
pub proof fn requests_need_a_position(
    ps: Seq<MonitoredPositionView>,
    id: Seq<char>,
    qty: i32,
    live: bool,
    price: Option<i64>,
)
    requires
        forall|j: int| 0 <= j < ps.len() ==> (#[trigger] ps[j]).id != id,
    ensures
        close_request(ps, id, live, price) == (ps, CloseOutcomeView::NotFound),
        sell_request(ps, id, qty, live, price) == (ps, SellOutcomeView::NotFound),
        !delete_refused(ps, id, live),
        without_id(ps, id) == ps,
{
    lemma_id_index(ps, id, 0);
    let keep = |p: MonitoredPositionView| p.id != id;
    lemma_filter_keeps_all(ps, keep);
}

proof fn lemma_filter_keeps_all(
    ps: Seq<MonitoredPositionView>,
    keep: spec_fn(MonitoredPositionView) -> bool,
)
    requires
        forall|j: int| 0 <= j < ps.len() ==> keep(#[trigger] ps[j]),
    ensures
        ps.filter(keep) == ps,
    decreases ps.len(),
{
    reveal(Seq::filter);
    if ps.len() > 0 {
        let head = ps.drop_last();
        assert forall|j: int| 0 <= j < head.len() implies keep(#[trigger] head[j]) by {
            assert(head[j] == ps[j]);
        }
        lemma_filter_keeps_all(head, keep);
        assert(ps.filter(keep) =~= ps);
    }
}

/// A sale by hand that was booked leaves what was not sold: the position goes on as it was with
/// that much, and is over where nothing is left.
pub proof fn booked_sales_leave_the_rest(p: MonitoredPositionView, remaining: i32)
    ensures
        sale_booked(p, remaining).executed_qty == remaining,
        remaining > 0 ==> sale_booked(p, remaining).state == p.state,
        remaining <= 0 ==> sale_booked(p, remaining).state == TradeState::Closed,
        sale_booked(p, remaining) == (MonitoredPositionView {
            executed_qty: remaining,
            state: sale_booked(p, remaining).state,
            ..p
        }),
{
}

/// Live, a position that holds something or has an order at the broker is not deleted; any
/// other is, together with all of its id, and nothing else.
pub proof fn deleting_takes_what_was_named(
    ps: Seq<MonitoredPositionView>,
    id: Seq<char>,
    live: bool,
    p: MonitoredPositionView,
)
    ensures
        has_id(ps, id) ==> {
            let q = with_id(ps, id);
            delete_refused(ps, id, live) <==> live && (q.executed_qty > 0 || q.entry_order_id
                is Some || q.sl_order_id is Some || q.pending_exit_order_id is Some)
        },
        without_id(ps, id).contains(p) <==> ps.contains(p) && p.id != id,
{
    broadcast use vstd::seq_lib::group_filter_ensures;

    let keep = |p: MonitoredPositionView| p.id != id;
    if ps.contains(p) && p.id != id {
        let i = choose|i: int| 0 <= i < ps.len() && ps[i] == p;
        assert(keep(ps[i]));
        assert(ps.filter(keep).contains(ps[i]));
    }
    if ps.filter(keep).contains(p) {
        let i = choose|i: int| 0 <= i < ps.filter(keep).len() && ps.filter(keep)[i] == p;
        assert(keep(ps.filter(keep)[i]));
        ps.lemma_filter_contains_rev(keep, p);
    }
}

/// The kill switch does to a position what its mode allows: closed ones stay as they are;
/// live, every other is flagged and keeps what it holds; simulated, a waiting one is over, and
/// one that holds something is sold whole at the price of the feed, or at cost without one.
pub proof fn the_kill_switch_sells_what_is_held(
    p: MonitoredPositionView,
    price: Option<i64>,
    paper: bool,
)
    ensures
        ({
            let q = killed(p, paper);
            let f = kill_fill(p, price, paper);
            let open = p.state == TradeState::Active || p.state == TradeState::Target1Hit;
            &&& p.state == TradeState::Closed ==> q == p && f is None
            &&& p.state != TradeState::Closed ==> q.force_exit is Some && q == (
            MonitoredPositionView {
                force_exit: q.force_exit,
                state: q.state,
                executed_qty: q.executed_qty,
                ..p
            })
            &&& !paper ==> q.state == p.state && q.executed_qty == p.executed_qty && f is None
            &&& paper && p.state == TradeState::WaitingForEntry ==> q.state == TradeState::Closed
                && q.executed_qty == p.executed_qty && f is None
            &&& paper && open && p.executed_qty > 0 ==> {
                &&& q.executed_qty == 0 && q.state == TradeState::Closed
                &&& f matches Some(t)
                &&& price is Some && price->0 > 0 ==> is_hand_sale(
                    p,
                    t,
                    p.executed_qty - q.executed_qty,
                    price->0,
                    "KILL_SWITCH"@,
                )
                &&& price is None || price->0 <= 0 ==> is_hand_sale(
                    p,
                    t,
                    p.executed_qty - q.executed_qty,
                    p.avg_buy_price,
                    "KILL_SWITCH"@,
                )
            }
            &&& paper && open && p.executed_qty <= 0 ==> q.state == p.state && q.executed_qty
                == p.executed_qty && f is None
        }),
{
}

/// The report of the kill switch counts what it met: one for each position that is held, one
/// for each that waits, and one sale for each that was sold.
pub proof fn the_kill_switch_counts_what_it_met(
    ps: Seq<MonitoredPositionView>,
    prices: Seq<Option<i64>>,
    paper: bool,
    n: int,
)
    requires
        0 <= n < ps.len(),
    ensures
        ({
            let p = ps[n];
            let open = p.state == TradeState::Active || p.state == TradeState::Target1Hit;
            let f = kill_fills(ps, prices, paper, n + 1);
            &&& count_held(ps, 0) == 0 && count_waiting(ps, 0) == 0
            &&& kill_fills(ps, prices, paper, 0).len() == 0
            &&& count_held(ps, n + 1) - count_held(ps, n) == if open {
                1int
            } else {
                0
            }
            &&& count_waiting(ps, n + 1) - count_waiting(ps, n) == if p.state
                == TradeState::WaitingForEntry {
                1int
            } else {
                0
            }
            &&& paper && open && p.executed_qty > 0 ==> f.len() == kill_fills(
                ps,
                prices,
                paper,
                n,
            ).len() + 1 && f.drop_last() == kill_fills(ps, prices, paper, n) && f.last().qty
                == p.executed_qty && f.last().instrument == p.signal.instrument_name
            &&& !(paper && open && p.executed_qty > 0) ==> f == kill_fills(ps, prices, paper, n)
        }),
{
    let f = kill_fills(ps, prices, paper, n + 1);
    if kill_fill(ps[n], prices[n], paper) is Some {
        assert(f.drop_last() =~= kill_fills(ps, prices, paper, n));
    }
}

/// The price to book by hand is that of the contract; the name of the instrument only counts
/// where the contract has no price at all, and only a positive price is booked.
pub proof fn the_contract_is_booked_before_the_name(by_key: Option<i64>, by_name: Option<i64>)
    ensures
        by_key matches Some(v) ==> booking_price(by_key, by_name) == (if v > 0 {
            Some(v)
        } else {
            None
        }),
        by_key is None ==> (by_name matches Some(v) ==> booking_price(by_key, by_name) == (if v > 0 {
            Some(v)
        } else {
            None
        })),
        by_key is None && by_name is None ==> booking_price(by_key, by_name) is None,
{
}

/// The price that is shown is a positive one of the contract if there is one, then the one on
/// record, then a positive one under the name of the instrument.
pub proof fn the_latest_price_is_shown(
    p: MonitoredPositionView,
    by_key: Option<i64>,
    by_name: Option<i64>,
)
    ensures
        ({
            let real_key = by_key is Some && by_key->0 > 0;
            let real_name = by_name is Some && by_name->0 > 0;
            let s = shown_price(p, by_key, by_name);
            &&& real_key ==> s == by_key
            &&& !real_key && p.ltp is Some ==> s == p.ltp
            &&& !real_key && p.ltp is None && real_name ==> s == by_name
            &&& !real_key && p.ltp is None && !real_name ==> s is None
        }),
{
}

/// Every position that is not closed is shown, in its place and with nothing changed but its
/// price; closed ones are not.
pub proof fn open_positions_are_shown(
    ps: Seq<MonitoredPositionView>,
    prices: Seq<(Option<i64>, Option<i64>)>,
    n: int,
)
    requires
        0 <= n < ps.len(),
    ensures
        ({
            let before = shown(ps, prices, n);
            let after = shown(ps, prices, n + 1);
            let p = ps[n];
            &&& shown(ps, prices, 0).len() == 0
            &&& p.state == TradeState::Closed ==> after == before
            &&& p.state != TradeState::Closed ==> {
                &&& after.len() == before.len() + 1
                &&& after.drop_last() == before
                &&& after.last() == (MonitoredPositionView {
                    ltp: shown_price(p, prices[n].0, prices[n].1),
                    ..p
                })
            }
        }),
{
    if ps[n].state != TradeState::Closed {
        assert(shown(ps, prices, n + 1).drop_last() =~= shown(ps, prices, n));
    }
}

/// New settings reach a runner with a rung: its stop is put behind the last rung that was hit,
/// and its next rung ahead of it, as the settings say; nothing else of it changes, and no other
/// position does.
pub proof fn settings_reach_runners_only(p: MonitoredPositionView, cfg: TradingConfigView)
    ensures
        ({
            let q = recomputed(p, cfg);
            let runs = p.state == TradeState::Target1Hit && p.last_dynamic_rung is Some
                && p.signal.targets.len() > 0;
            let diff = p.signal.targets[0] - p.avg_buy_price;
            &&& !runs ==> q == p
            &&& runs ==> {
                &&& q.current_sl == rung_stop(
                    p.last_dynamic_rung->0 as int,
                    diff,
                    cfg.dynamic_targeting_trail_factor as int,
                    p.tick_size as int,
                )
                &&& q.next_dynamic_target is Some
                &&& q.next_dynamic_target->0 == level_above(
                    p.last_dynamic_rung->0 as int,
                    diff,
                    cfg.dynamic_targeting_extension_factor as int,
                )
                &&& q == (MonitoredPositionView {
                    current_sl: q.current_sl,
                    next_dynamic_target: q.next_dynamic_target,
                    ..p
                })
            }
        }),
{
}

/// What is answered to a quantity that cannot be sold says how much is held, or how large a lot
/// is.
pub proof fn answers_name_the_limit(held: int, lot: int)
    ensures
        has_text(bad_quantity_reply(held), int_text(held)),
        has_text(whole_lots_reply(lot), int_text(lot)),
{
    pieces_stand_in_their_text(
        "quantity must be between 1 and "@,
        int_text(held),
        " (currently held)"@,
    );
    pieces_stand_in_their_text(
        "quantity must be a multiple of the lot size ("@,
        int_text(lot),
        ")"@,
    );
}

/// A request to change how much a position buys changes that of the one position, to what was
/// asked for, and nothing else.
pub proof fn sizing_changes_the_size_alone(
    ps: Seq<MonitoredPositionView>,
    id: Seq<char>,
    qty: Option<i32>,
)
    requires
        has_id(ps, id),
    ensures
        with_id(resized(ps, id, qty), id) == (MonitoredPositionView {
            override_qty: qty,
            ..with_id(ps, id)
        }),
        others_stay(ps, resized(ps, id, qty), id),
{
    lemma_id_index(ps, id, 0);
    lemma_put_stays_found(ps, id, MonitoredPositionView { override_qty: qty, ..with_id(ps, id) });
}

/// A position is deleted, refused or not found, and nothing changes unless it is deleted; once
/// it is, no position of its id is left and every other still is.
pub proof fn deleting_ends_in_one_way(
    ps: Seq<MonitoredPositionView>,
    id: Seq<char>,
    live: bool,
    p: MonitoredPositionView,
)
    ensures
        ({
            let o = delete_outcome(ps, id, live);
            let after = after_delete(ps, id, live);
            &&& o != DeleteOutcome::Deleted ==> after == ps
            &&& o == DeleteOutcome::NotFound <==> !has_id(ps, id)
            &&& !live && has_id(ps, id) ==> o == DeleteOutcome::Deleted
            &&& live && has_id(ps, id) && with_id(ps, id).executed_qty > 0 ==> o
                == DeleteOutcome::Blocked
            &&& o == DeleteOutcome::Deleted ==> (after.contains(p) <==> ps.contains(p) && p.id
                != id)
        }),
{
    deleting_takes_what_was_named(ps, id, live, p);
}

/// The kill switch reaches every position in its place, and is on or off with all other settings
/// as they were.
pub proof fn the_kill_switch_reaches_everything(
    ps: Seq<MonitoredPositionView>,
    paper: bool,
    i: int,
    cfg: TradingConfigView,
    on: bool,
)
    requires
        0 <= i < ps.len(),
    ensures
        all_killed(ps, paper).len() == ps.len(),
        all_killed(ps, paper)[i] == killed(ps[i], paper),
        all_killed(ps, paper)[i].id == ps[i].id,
        switched(cfg, on).kill_switch_active == on,
        switched(switched(cfg, on), cfg.kill_switch_active) == cfg,
{
}

} // verus!
