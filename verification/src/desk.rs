//! The list of positions, and what there is to report after it was worked on.
use vstd::prelude::*;

use crate::decimal::to_i64;
use crate::domain::{clone_opt, ChargeBreakdown, DbWriteMessage, MonitoredPosition, TradeState};
use crate::text::same_text;

#[allow(unused_imports)]
use crate::decimal::fit64;

#[allow(unused_imports)]
use crate::domain::{views, MonitoredPositionView};

#[allow(unused_imports)]
use crate::text::opt_text;

verus! {

// ---------------------------------------------------------------------------
// Finding positions
// ---------------------------------------------------------------------------

/// The first position with the id `id`, from `from` on, or the number of positions.
pub open spec fn id_index(ps: Seq<MonitoredPositionView>, id: Seq<char>, from: int) -> int
    decreases ps.len() - from,
{
    if from >= ps.len() {
        ps.len() as int
    } else if ps[from].id == id {
        from
    } else {
        id_index(ps, id, from + 1)
    }
}

/// Whether a position with the id `id` is there.
pub open spec fn has_id(ps: Seq<MonitoredPositionView>, id: Seq<char>) -> bool {
    id_index(ps, id, 0) < ps.len()
}

/// The first position with the id `id`.
pub open spec fn with_id(ps: Seq<MonitoredPositionView>, id: Seq<char>) -> MonitoredPositionView {
    ps[id_index(ps, id, 0)]
}

/// The list with `p` in place of the first position with the id `id`; the same list if there
/// is none.
pub open spec fn put_id(
    ps: Seq<MonitoredPositionView>,
    id: Seq<char>,
    p: MonitoredPositionView,
) -> Seq<MonitoredPositionView> {
    if has_id(ps, id) {
        ps.update(id_index(ps, id, 0), p)
    } else {
        ps
    }
}

pub proof fn lemma_id_index(ps: Seq<MonitoredPositionView>, id: Seq<char>, from: int)
    requires
        0 <= from <= ps.len(),
    ensures
        from <= id_index(ps, id, from) <= ps.len(),
        id_index(ps, id, from) < ps.len() ==> ps[id_index(ps, id, from)].id == id,
        forall|j: int| from <= j < id_index(ps, id, from) ==> (#[trigger] ps[j]).id != id,
    decreases ps.len() - from,
{
    if from < ps.len() && ps[from].id != id {
        lemma_id_index(ps, id, from + 1);
    }
}

/// The place of the first position with the id `id`.
pub fn find_position(positions: &Vec<MonitoredPosition>, id: &str) -> (res: Option<usize>)
    ensures
        res is Some <==> has_id(views(positions@), id@),
        res is Some ==> res->0 == id_index(views(positions@), id@, 0) && res->0
            < positions@.len() && positions@[res->0 as int]@ == with_id(views(positions@), id@),
{
    let ghost ps = views(positions@);
    let mut i: usize = 0;
    while i < positions.len()
        invariant
            i <= positions@.len(),
            ps == views(positions@),
            id_index(ps, id@, i as int) == id_index(ps, id@, 0),
        decreases positions@.len() - i,
    {
        assert(ps[i as int] == positions@[i as int]@);
        if same_text(positions[i].id.as_str(), id) {
            return Some(i);
        }
        i += 1;
    }
    None
}

/// The positions of a list that are not closed.
pub open spec fn open_ones(ps: Seq<MonitoredPositionView>) -> Seq<MonitoredPositionView> {
    ps.filter(|p: MonitoredPositionView| p.state != TradeState::Closed)
}

/// A position without any record of a stop at the broker.
pub open spec fn stop_forgotten(p: MonitoredPositionView) -> MonitoredPositionView {
    MonitoredPositionView { sl_order_id: None, sl_order_qty: 0, sl_order_trigger: 0, ..p }
}

/// Drop all record of a stop at the broker, after it was cancelled or filled.
pub fn forget_stop(p: &mut MonitoredPosition)
    ensures
        final(p)@ == stop_forgotten(old(p)@),
{
    p.sl_order_id = None;
    p.sl_order_qty = 0;
    p.sl_order_trigger = 0;
}

/// The symbol of a position at the broker; empty if the contract is not known.
pub open spec fn symbol_of(p: MonitoredPositionView) -> Seq<char> {
    match p.resolved_order {
        Some(o) => o.trading_symbol,
        None => Seq::empty(),
    }
}

/// The symbol of a position at the broker.
pub fn trading_symbol(p: &MonitoredPosition) -> (res: String)
    ensures
        res@ == symbol_of(p@),
{
    match &p.resolved_order {
        Some(o) => o.trading_symbol.clone(),
        None => String::new(),
    }
}

// ---------------------------------------------------------------------------
// Reports
// ---------------------------------------------------------------------------

/// What there is to report.
#[derive(Debug, Clone, Copy, PartialEq, Eq, Structural)]
pub enum NoticeCode {
    /// An entry was filled, but no average price came back: the entry price of the signal
    /// was booked.
    EntryPriceMissing,
    /// An entry was filled in part.
    EntryPartlyFilled,
    /// An entry came back with nothing filled.
    EntryNotFilled,
    /// A stop is complete, but came back without usable numbers.
    StopWithoutFill,
    /// A stop is gone from the broker.
    StopGone,
    /// A sale was cancelled before anything was sold.
    ExitUnfilled,
    /// A sale came back with nothing sold.
    ExitNotFilled,
    /// A sale came back short.
    ExitShort,
    /// More than one open position is tracked on one symbol.
    DuplicatePositions,
    /// An order number of an earlier session was dropped.
    StaleEntryOrder,
    /// The broker holds none of what is tracked.
    NothingAtBroker,
    /// The quantity of the broker was taken over.
    QuantityAdopted,
    /// A resting sale was taken over as the stop.
    StopAdopted,
    /// More than one sale rests at the broker.
    ManyRestingSales,
    /// The broker holds a symbol that is not tracked.
    UntrackedHolding,
    /// A sale works at the broker on a symbol that is not tracked.
    UntrackedSale,
    /// The positions of the broker could not be read, and nothing is tracked.
    PositionsUnreadButIdle,
    /// The positions of the broker could not be read.
    PositionsUnread,
    /// The order book could not be read.
    BookUnread,
    /// The comparison with the broker at startup is done.
    StartupReconciled,
    /// The funds do not suffice for an entry.
    FundsShort,
    /// The funds could not be read.
    FundsUnread,
    /// An entry was placed.
    EntryPlaced,
    /// An entry was rejected.
    EntryRejected,
    /// An entry could not be withdrawn.
    EntryCancelFailed,
    /// An entry was given up.
    EntryAbandoned,
    /// An entry was refused because the signal looks wrong.
    EntryRefused,
    /// The stop was moved.
    StopTrailed,
    /// A sale was placed.
    ExitPlaced,
    /// The sale at target 1 was rejected.
    Target1Rejected,
    /// A sale that was asked for was rejected.
    ManualSellRejected,
    /// A stop could not be cancelled, so the sale was held back.
    StopCancelFailed,
    /// A stop was no longer working, so the sale goes on.
    StopAlreadyGone,
    /// A sale was rejected.
    ExitRejected,
    /// An order got no definite answer: the position is left alone.
    OutcomeUnknown,
    /// Too many exits failed: the position is left alone.
    ExitsGivenUp,
    /// The stop began to trail before target 1.
    TrailArmed,
    /// An answer was acknowledged without a change.
    ReconcileAck,
    /// A position was closed on request.
    ReconcileClosed,
    /// The quantity of the broker was taken over on request.
    ReconcileAdopted,
    /// A holding was not taken over: the symbol is tracked.
    AdoptAlreadyTracked,
    /// A holding was not taken over: the broker does not show it.
    AdoptNotHeld,
    /// A holding was not taken over: the quantity is zero.
    AdoptZero,
    /// A holding was not taken over: the list of contracts is not loaded.
    AdoptNoContracts,
    /// A holding was not taken over: the contract is unknown.
    AdoptUnknownContract,
    /// A holding was taken over.
    Adopted,
    /// The stop of a signal was updated.
    SignalUpdated,
    /// An update of a stop matched no position.
    UpdateUnmatched,
    /// A signal asked for an exit.
    SignalExited,
    /// A request for an exit matched no position.
    ExitUnmatched,
    /// A signal has no stop.
    SignalWithoutStop,
    /// A signal has no target.
    SignalWithoutTarget,
    /// The expiry of a signal is past.
    SignalExpired,
    /// The kill switch is on.
    KillSwitchBlocked,
    /// The lots for the instrument are zero.
    LotsAreZero,
    /// The list of contracts is not loaded.
    NoContracts,
    /// The contract of a signal is unknown.
    UnknownContract,
    /// The price is already at target 1.
    AlreadyAtTarget,
    /// Signals to sell short are not taken.
    ShortNotSupported,
    /// A trade was cancelled.
    TradeCancelled,
}

/// One thing to report: what it is, and what it is about. Fields that do not apply are empty
/// or zero.
#[derive(Debug)]
pub struct Notice {
    pub code: NoticeCode,
    /// Whether it needs a human.
    pub loud: bool,
    pub instrument: String,
    pub order_id: String,
    pub reason: String,
    pub detail: String,
    pub cause: String,
    pub qty: i64,
    pub other_qty: i64,
    pub price: i64,
    pub level: i64,
    pub target: i64,
}

/// What a [`Notice`] says, with its texts as character sequences.
#[verifier::ext_equal]
pub ghost struct NoticeView {
    pub code: NoticeCode,
    pub loud: bool,
    pub instrument: Seq<char>,
    pub order_id: Seq<char>,
    pub reason: Seq<char>,
    pub detail: Seq<char>,
    pub cause: Seq<char>,
    pub qty: i64,
    pub other_qty: i64,
    pub price: i64,
    pub level: i64,
    pub target: i64,
}

impl View for Notice {
    type V = NoticeView;

    open spec fn view(&self) -> NoticeView {
        NoticeView {
            code: self.code,
            loud: self.loud,
            instrument: self.instrument@,
            order_id: self.order_id@,
            reason: self.reason@,
            detail: self.detail@,
            cause: self.cause@,
            qty: self.qty,
            other_qty: self.other_qty,
            price: self.price,
            level: self.level,
            target: self.target,
        }
    }
}

impl Clone for Notice {
    fn clone(&self) -> (res: Self)
        ensures
            res@ == self@,
    {
        Notice {
            code: self.code,
            loud: self.loud,
            instrument: self.instrument.clone(),
            order_id: self.order_id.clone(),
            reason: self.reason.clone(),
            detail: self.detail.clone(),
            cause: self.cause.clone(),
            qty: self.qty,
            other_qty: self.other_qty,
            price: self.price,
            level: self.level,
            target: self.target,
        }
    }
}

/// A report on an instrument with nothing more to it.
pub open spec fn bare_notice(
    code: NoticeCode,
    loud: bool,
    instrument: Seq<char>,
) -> NoticeView {
    NoticeView {
        code,
        loud,
        instrument,
        order_id: Seq::empty(),
        reason: Seq::empty(),
        detail: Seq::empty(),
        cause: Seq::empty(),
        qty: 0,
        other_qty: 0,
        price: 0,
        level: 0,
        target: 0,
    }
}

/// A report on an instrument with nothing more to it.
pub fn notice(code: NoticeCode, loud: bool, instrument: &str) -> (res: Notice)
    ensures
        res@ == bare_notice(code, loud, instrument@),
{
    Notice {
        code,
        loud,
        instrument: instrument.to_string(),
        order_id: String::new(),
        reason: String::new(),
        detail: String::new(),
        cause: String::new(),
        qty: 0,
        other_qty: 0,
        price: 0,
        level: 0,
        target: 0,
    }
}

/// A purchase or sale that took place.
#[derive(Debug)]
pub struct TradeFill {
    pub instrument: String,
    pub buy: bool,
    pub qty: i32,
    pub price: i64,
    pub is_options: bool,
    /// What the units that were sold had cost.
    pub avg_buy_price: i64,
    pub signal_id: Option<String>,
    pub raw_message: Option<String>,
    pub reason: String,
    pub mode: String,
}

/// What a [`TradeFill`] says, with its texts as character sequences.
#[verifier::ext_equal]
pub ghost struct TradeFillView {
    pub instrument: Seq<char>,
    pub buy: bool,
    pub qty: i32,
    pub price: i64,
    pub is_options: bool,
    pub avg_buy_price: i64,
    pub signal_id: Option<Seq<char>>,
    pub raw_message: Option<Seq<char>>,
    pub reason: Seq<char>,
    pub mode: Seq<char>,
}

impl View for TradeFill {
    type V = TradeFillView;

    open spec fn view(&self) -> TradeFillView {
        TradeFillView {
            instrument: self.instrument@,
            buy: self.buy,
            qty: self.qty,
            price: self.price,
            is_options: self.is_options,
            avg_buy_price: self.avg_buy_price,
            signal_id: opt_text(self.signal_id),
            raw_message: opt_text(self.raw_message),
            reason: self.reason@,
            mode: self.mode@,
        }
    }
}

impl Clone for TradeFill {
    fn clone(&self) -> (res: Self)
        ensures
            res@ == self@,
    {
        TradeFill {
            instrument: self.instrument.clone(),
            buy: self.buy,
            qty: self.qty,
            price: self.price,
            is_options: self.is_options,
            avg_buy_price: self.avg_buy_price,
            signal_id: clone_opt(&self.signal_id),
            raw_message: clone_opt(&self.raw_message),
            reason: self.reason.clone(),
            mode: self.mode.clone(),
        }
    }
}

/// What is to be done outside after positions were worked on.
#[derive(Debug)]
pub enum Effect {
    /// Write down a trade.
    Trade(TradeFill),
    /// Report something.
    Note(Notice),
    /// Cancel an order, and report if that fails.
    Cancel { order_id: String, trading_symbol: String, instrument: String },
    /// Ask the price feed for a contract.
    Watch { key: String },
}

/// What an [`Effect`] says.
pub ghost enum EffectView {
    Trade(TradeFillView),
    Note(NoticeView),
    Cancel { order_id: Seq<char>, trading_symbol: Seq<char>, instrument: Seq<char> },
    Watch { key: Seq<char> },
}

impl View for Effect {
    type V = EffectView;

    open spec fn view(&self) -> EffectView {
        match self {
            Effect::Trade(t) => EffectView::Trade(t@),
            Effect::Note(n) => EffectView::Note(n@),
            Effect::Cancel { order_id, trading_symbol, instrument } => EffectView::Cancel {
                order_id: order_id@,
                trading_symbol: trading_symbol@,
                instrument: instrument@,
            },
            Effect::Watch { key } => EffectView::Watch { key: key@ },
        }
    }
}

/// The effects of a list, each by what it says.
pub open spec fn effects_view(s: Seq<Effect>) -> Seq<EffectView> {
    s.map_values(|e: Effect| e@)
}

/// The positions, and what there is to do outside.
pub ghost struct Desk {
    pub positions: Seq<MonitoredPositionView>,
    pub effects: Seq<EffectView>,
}

/// The positions, and what there is to do outside.
pub open spec fn desk(positions: Seq<MonitoredPosition>, effects: Seq<Effect>) -> Desk {
    Desk { positions: views(positions), effects: effects_view(effects) }
}

/// Adds an effect to a list.
pub fn push_effect(v: &mut Vec<Effect>, e: Effect)
    ensures
        effects_view(final(v)@) == effects_view(old(v)@).push(e@),
{
    v.push(e);
    assert(effects_view(v@) =~= effects_view(old(v)@).push(e@));
}

// ---------------------------------------------------------------------------
// Trades on record
// ---------------------------------------------------------------------------

/// What a sale brought in over what the units had cost.
pub open spec fn profit(fill: TradeFillView, net_value: int) -> int {
    fit64(net_value - fill.avg_buy_price * fill.qty)
}

/// What a sale brought in over what the units had cost.
pub fn trade_profit(fill: &TradeFill, charges: &ChargeBreakdown) -> (res: i64)
    ensures
        res == profit(fill@, charges.net_value as int),
{
    proof {
        lemma_cost_fits(fill.avg_buy_price as int, fill.qty as int);
    }
    to_i64(charges.net_value as i128 - fill.avg_buy_price as i128 * fill.qty as i128)
}

proof fn lemma_cost_fits(price: int, qty: int)
    by (nonlinear_arith)
    requires
        i64::MIN <= price <= i64::MAX,
        i32::MIN <= qty <= i32::MAX,
    ensures
        -0x8000_0000_0000_0000 * 0x8000_0000 <= price * qty <= 0x8000_0000_0000_0000 * 0x8000_0000,
{
}

/// The message that puts a trade on record.
pub fn trade_message(fill: TradeFill, charges: &ChargeBreakdown) -> (res: DbWriteMessage)
    ensures
        res matches DbWriteMessage::Trade { action, .. } && action@ == action_name(fill@.buy),
        res matches DbWriteMessage::Trade {
            ticker,
            action,
            qty,
            executed_price,
            gross_value,
            brokerage,
            stt_charge,
            sebi_fee,
            stamp_duty,
            transaction_charge,
            gst,
            net_value,
            signal_id,
            raw_message,
            exit_reason,
            mode,
        } && {
            &&& ticker@ == fill@.instrument
            &&& action@ == if fill@.buy {
                "BUY"@
            } else {
                "SELL"@
            }
            &&& qty == fill@.qty
            &&& executed_price == fill@.price
            &&& gross_value == charges.gross_value
            &&& brokerage == charges.brokerage
            &&& stt_charge == charges.stt_charge
            &&& sebi_fee == charges.sebi_fee
            &&& stamp_duty == charges.stamp_duty
            &&& transaction_charge == charges.transaction_charge
            &&& gst == charges.gst
            &&& net_value == charges.net_value
            &&& opt_text(signal_id) == fill@.signal_id
            &&& opt_text(raw_message) == fill@.raw_message
            &&& opt_text(exit_reason) == Some(fill@.reason)
            &&& mode@ == fill@.mode
        },
{
    DbWriteMessage::Trade {
        ticker: fill.instrument,
        action: if fill.buy {
            "BUY".to_string()
        } else {
            "SELL".to_string()
        },
        qty: fill.qty,
        executed_price: fill.price,
        gross_value: charges.gross_value,
        brokerage: charges.brokerage,
        stt_charge: charges.stt_charge,
        sebi_fee: charges.sebi_fee,
        stamp_duty: charges.stamp_duty,
        transaction_charge: charges.transaction_charge,
        gst: charges.gst,
        net_value: charges.net_value,
        signal_id: fill.signal_id,
        raw_message: fill.raw_message,
        exit_reason: Some(fill.reason),
        mode: fill.mode,
    }
}

/// The name that a trade goes by on record.
pub open spec fn action_name(buy: bool) -> Seq<char> {
    if buy {
        "BUY"@
    } else {
        "SELL"@
    }
}

/// What a trade of the name `action` does to the balance of the wallet.
pub open spec fn balance_change(action: Seq<char>, net_value: int) -> int {
    if crate::text::same_but_case(action, "BUY"@) {
        fit64(-net_value)
    } else {
        net_value
    }
}

/// What a trade does to the balance of the wallet: a purchase takes its net value out of it,
/// anything else puts it in.
pub fn wallet_delta(action: &str, net_value: i64) -> (res: i64)
    ensures
        res == balance_change(action@, net_value as int),
        res == if crate::text::same_but_case(action@, "BUY"@) {
            fit64(-net_value)
        } else {
            net_value as int
        },
{
    if crate::text::eq_ignore_case(action, "BUY") {
        to_i64(-(net_value as i128))
    } else {
        net_value
    }
}

// ---------------------------------------------------------------------------
// Laws of the list and the books
// ---------------------------------------------------------------------------

/// The position that is found under an id has that id, and none before it has; where none is
/// found, none has the id.
pub proof fn positions_are_found_by_id(ps: Seq<MonitoredPositionView>, id: Seq<char>)
    ensures
        has_id(ps, id) ==> with_id(ps, id).id == id && exists|i: int|
            0 <= i < ps.len() && #[trigger] ps[i] == with_id(ps, id) && forall|j: int|
                0 <= j < i ==> (#[trigger] ps[j]).id != id,
        !has_id(ps, id) ==> forall|j: int| 0 <= j < ps.len() ==> (#[trigger] ps[j]).id != id,
{
    lemma_id_index(ps, id, 0);
    if has_id(ps, id) {
        assert(ps[id_index(ps, id, 0)] == with_id(ps, id));
    }
}

/// Putting a position in place of another changes that one place and no other.
pub proof fn putting_changes_one_place(
    ps: Seq<MonitoredPositionView>,
    id: Seq<char>,
    p: MonitoredPositionView,
    j: int,
)
    requires
        0 <= j < ps.len(),
    ensures
        put_id(ps, id, p).len() == ps.len(),
        ps[j].id != id ==> put_id(ps, id, p)[j] == ps[j],
        ps[j].id == id && (forall|k: int| 0 <= k < j ==> (#[trigger] ps[k]).id != id) ==> put_id(
            ps,
            id,
            p,
        )[j] == p,
{
    lemma_id_index(ps, id, 0);
}

/// What a sale brought in is its net value over the cost of the units: with no charges and at
/// cost it is nothing, and each millionth more in the net value is one more.
pub proof fn profit_is_over_cost(fill: TradeFillView, net_value: i64)
    requires
        i64::MIN <= net_value - fill.avg_buy_price * fill.qty <= i64::MAX,
    ensures
        profit(fill, net_value as int) + fill.avg_buy_price * fill.qty == net_value,
        net_value == fill.avg_buy_price * fill.qty ==> profit(fill, net_value as int) == 0,
{
}

/// Without a record of a stop, nothing of it is left, and all else stays.
pub proof fn a_forgotten_stop_is_gone(p: MonitoredPositionView)
    ensures
        stop_forgotten(p).sl_order_id is None,
        stop_forgotten(p).sl_order_qty == 0,
        stop_forgotten(p).sl_order_trigger == 0,
        stop_forgotten(p) == (MonitoredPositionView {
            sl_order_id: None,
            sl_order_qty: 0,
            sl_order_trigger: 0,
            ..p
        }),
{
}

/// The symbol of a position is that of its contract.
pub proof fn a_symbol_is_that_of_the_contract(p: MonitoredPositionView)
    ensures
        p.resolved_order matches Some(o) ==> symbol_of(p) == o.trading_symbol,
        p.resolved_order is None ==> symbol_of(p).len() == 0,
{
}

/// By the name that it goes on record with, a purchase takes its net value out of the wallet and
/// a sale puts it in, so that the two of one value make up for each other.
pub proof fn purchases_take_what_sales_bring(net_value: i64)
    requires
        net_value > i64::MIN,
    ensures
        balance_change(action_name(true), net_value as int) == -net_value,
        balance_change(action_name(false), net_value as int) == net_value,
        balance_change(action_name(true), net_value as int) + balance_change(
            action_name(false),
            net_value as int,
        ) == 0,
{
    reveal_strlit("BUY");
    reveal_strlit("SELL");
    crate::text::case_is_all_that_may_differ("SELL"@, "BUY"@);
    crate::text::case_is_all_that_may_differ("BUY"@, "BUY"@);
    assert("SELL"@.len() != "BUY"@.len());
}

} // verus!
