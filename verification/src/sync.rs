//! Comparing with the broker on request: what differs is put as a question, and only what was
//! answered is acted on.
use vstd::prelude::*;

use crate::broker::{find_holding, held_at_broker, KotakPosition};
use crate::clock::{current_ist_timestamp_string, write_expiry};
use crate::decimal::{max32, round_down_tick};
use crate::desk::{find_position, forget_stop, notice, push_effect, Effect, Notice, NoticeCode};
use crate::domain::{
    MonitoredPosition, ReconcileAction, ReconcileApplyItem, ReconcileCategory, ReconcileFinding,
    ReconcileOption, ScripRecord, TradeSignal, TradeState,
};
use crate::orders::{order_for_contract, scrip_key};
use crate::startup::{is_doubled, symbol_watched, watched_positions, Watched};
use crate::text::{i64_text, same_text, to_upper, trim};

#[allow(unused_imports)]
use crate::broker::{held_of, holding_row, holdings_view, KotakPositionView};

#[allow(unused_imports)]
use crate::clock::{calendar_day, expiry_text, is_timestamp_of, IstTime};

#[allow(unused_imports)]
use crate::decimal::{larger, tick_down};

#[allow(unused_imports)]
use crate::desk::{
    bare_notice, desk, has_id, id_index, lemma_id_index, put_id, with_id, Desk, EffectView,
    NoticeView,
};

#[allow(unused_imports)]
use crate::domain::{
    views, MonitoredPositionView, ReconcileApplyItemView, ReconcileFindingView,
    ReconcileOptionView, ScripRecordView, TradeSignalView,
};

#[allow(unused_imports)]
use crate::orders::{contract_order, feed_key};

#[allow(unused_imports)]
use crate::startup::{
    doubled, gone_at_broker, is_watched, watched_of, watched_view, WatchedView,
};

#[allow(unused_imports)]
use crate::text::{begins_with, int_text, texts, trimmed, uppercased};

verus! {

// ---------------------------------------------------------------------------
// Findings
// ---------------------------------------------------------------------------

/// Findings, by what they say.
pub open spec fn findings_view(s: Seq<ReconcileFinding>) -> Seq<ReconcileFindingView> {
    s.map_values(|f: ReconcileFinding| f@)
}

/// An answer to a finding.
pub open spec fn answer(
    action: ReconcileAction,
    label: Seq<char>,
    recommended: bool,
) -> ReconcileOptionView {
    ReconcileOptionView { action, label, recommended }
}

/// The answer that leaves everything as it is.
pub open spec fn leave_it() -> ReconcileOptionView {
    answer(ReconcileAction::Ignore, "Leave as-is"@, false)
}

/// How the quantities of a position compare.
pub open spec fn category_of(engine: int, broker: int) -> ReconcileCategory {
    if broker == engine {
        ReconcileCategory::Matches
    } else if broker <= 0 {
        ReconcileCategory::QtyZero
    } else if broker < engine {
        ReconcileCategory::QtyReduced
    } else {
        ReconcileCategory::QtyIncreased
    }
}

/// What is said of a comparison.
pub open spec fn finding_text(instrument: Seq<char>, engine: int, broker: int) -> Seq<char> {
    let shows = instrument + ": engine shows "@ + int_text(engine) + " qty held, broker shows "@;
    match category_of(engine, broker) {
        ReconcileCategory::Matches => instrument + ": "@ + int_text(engine)
            + " qty matches at both engine and broker."@,
        ReconcileCategory::QtyZero => shows
            + "none — looks like it was fully closed outside the app."@,
        ReconcileCategory::QtyReduced => shows + int_text(broker)
            + " — looks like part of it was sold outside the app."@,
        _ => shows + int_text(broker) + " — looks like more was bought outside the app."@,
    }
}

/// The answers that a comparison offers.
pub open spec fn finding_options(engine: int, broker: int) -> Seq<ReconcileOptionView> {
    match category_of(engine, broker) {
        ReconcileCategory::Matches => Seq::empty(),
        ReconcileCategory::QtyZero => seq![
            answer(ReconcileAction::Close, "Mark as closed"@, true),
            leave_it(),
        ],
        _ => seq![
            answer(
                ReconcileAction::AdoptQty,
                "Adopt broker's quantity ("@ + int_text(broker) + ")"@,
                true,
            ),
            leave_it(),
        ],
    }
}

/// The finding on an open position.
pub open spec fn finding_on(
    ts: Seq<WatchedView>,
    t: WatchedView,
    holdings: Seq<KotakPositionView>,
) -> ReconcileFindingView {
    if doubled(ts, t.trading_symbol) {
        ReconcileFindingView {
            position_id: Some(t.pos_id),
            trading_symbol: t.trading_symbol,
            instrument: t.instrument,
            category: ReconcileCategory::DuplicateAmbiguous,
            engine_qty: t.executed_qty,
            broker_qty: 0,
            broker_avg_price: 0,
            message: "More than one tracked position maps to "@ + t.trading_symbol
                + " at the broker — can't tell which is which. Resolve at the broker terminal."@,
            options: Seq::empty(),
        }
    } else {
        let held = held_of(holdings, t.trading_symbol);
        ReconcileFindingView {
            position_id: Some(t.pos_id),
            trading_symbol: t.trading_symbol,
            instrument: t.instrument,
            category: category_of(t.executed_qty as int, held),
            engine_qty: t.executed_qty,
            broker_qty: held as i32,
            broker_avg_price: match holding_row(holdings, t.trading_symbol) {
                Some(r) => r.average_buy() as i64,
                None => 0,
            },
            message: finding_text(t.instrument, t.executed_qty as int, held),
            options: finding_options(t.executed_qty as int, held),
        }
    }
}

/// The findings on the first `n` positions that are watched. A position that waits for its
/// entry has nothing to compare.
pub open spec fn findings_on(
    ts: Seq<WatchedView>,
    holdings: Seq<KotakPositionView>,
    n: int,
) -> Seq<ReconcileFindingView>
    decreases n,
{
    if n <= 0 {
        Seq::empty()
    } else if ts[n - 1].is_open {
        findings_on(ts, holdings, n - 1).push(finding_on(ts, ts[n - 1], holdings))
    } else {
        findings_on(ts, holdings, n - 1)
    }
}

/// The finding on a holding that there is no record of.
pub open spec fn unexplained(b: KotakPositionView) -> ReconcileFindingView {
    let symbol = trimmed(b.trading_symbol);
    ReconcileFindingView {
        position_id: None,
        trading_symbol: symbol,
        instrument: b.symbol,
        category: ReconcileCategory::UnexplainedExposure,
        engine_qty: 0,
        broker_qty: b.net() as i32,
        broker_avg_price: b.average_buy() as i64,
        message: "The broker holds "@ + int_text(b.net()) + " of "@ + symbol
            + " that this app has no record of at all."@,
        options: seq![
            answer(ReconcileAction::Ignore, "Ignore — I'm managing this manually"@, true),
            answer(
                ReconcileAction::AdoptManual { stop_loss: 0, target: 0, avg_buy_price: 0 },
                "Adopt into my positions (enter SL, target & buy price)"@,
                false,
            ),
        ],
    }
}

/// The findings on the first `n` holdings: those that there is no record of.
pub open spec fn unexplained_in(
    ts: Seq<WatchedView>,
    holdings: Seq<KotakPositionView>,
    n: int,
) -> Seq<ReconcileFindingView>
    decreases n,
{
    if n <= 0 {
        Seq::empty()
    } else {
        let rest = unexplained_in(ts, holdings, n - 1);
        let b = holdings[n - 1];
        if b.net() > 0 && !is_watched(ts, b.trading_symbol) {
            rest.push(unexplained(b))
        } else {
            rest
        }
    }
}

/// Options, by what they say.
pub open spec fn options_view(s: Seq<ReconcileOption>) -> Seq<ReconcileOptionView> {
    s.map_values(|x: ReconcileOption| x@)
}

fn option(action: ReconcileAction, label: String, recommended: bool) -> (res: ReconcileOption)
    ensures
        res@ == answer(action, label@, recommended),
{
    ReconcileOption { action, label, recommended }
}

fn two_options(a: ReconcileOption, b: ReconcileOption) -> (res: Vec<ReconcileOption>)
    ensures
        options_view(res@) == seq![a@, b@],
{
    let mut v: Vec<ReconcileOption> = Vec::new();
    v.push(a);
    v.push(b);
    assert(options_view(v@) =~= seq![a@, b@]);
    v
}

fn compare_message(instrument: &str, engine: i32, broker: i32) -> (res: String)
    ensures
        res@ == finding_text(instrument@, engine as int, broker as int),
{
    let mut out: String = instrument.to_string();
    if broker == engine {
        out.append(": ");
        out.append(i64_text(engine as i64).as_str());
        out.append(" qty matches at both engine and broker.");
        return out;
    }
    out.append(": engine shows ");
    out.append(i64_text(engine as i64).as_str());
    out.append(" qty held, broker shows ");
    if broker <= 0 {
        out.append("none — looks like it was fully closed outside the app.");
    } else {
        out.append(i64_text(broker as i64).as_str());
        if broker < engine {
            out.append(" — looks like part of it was sold outside the app.");
        } else {
            out.append(" — looks like more was bought outside the app.");
        }
    }
    out
}

fn compare_options(engine: i32, broker: i32) -> (res: Vec<ReconcileOption>)
    ensures
        options_view(res@) == finding_options(engine as int, broker as int),
{
    if broker == engine {
        let none: Vec<ReconcileOption> = Vec::new();
        assert(options_view(none@) =~= Seq::<ReconcileOptionView>::empty());
        return none;
    }
    let leave: ReconcileOption = option(
        ReconcileAction::Ignore,
        "Leave as-is".to_string(),
        false,
    );
    if broker <= 0 {
        return two_options(
            option(ReconcileAction::Close, "Mark as closed".to_string(), true),
            leave,
        );
    }
    let mut label: String = "Adopt broker's quantity (".to_string();
    label.append(i64_text(broker as i64).as_str());
    label.append(")");
    two_options(option(ReconcileAction::AdoptQty, label, true), leave)
}

fn compare_category(engine: i32, broker: i32) -> (res: ReconcileCategory)
    ensures
        res == category_of(engine as int, broker as int),
{
    if broker == engine {
        ReconcileCategory::Matches
    } else if broker <= 0 {
        ReconcileCategory::QtyZero
    } else if broker < engine {
        ReconcileCategory::QtyReduced
    } else {
        ReconcileCategory::QtyIncreased
    }
}

fn find_on(watched: &Vec<Watched>, at: usize, holdings: &Vec<KotakPosition>) -> (res:
    ReconcileFinding)
    requires
        at < watched@.len(),
    ensures
        res@ == finding_on(
            watched_view(watched@),
            watched@[at as int]@,
            holdings_view(holdings@),
        ),
{
    let t: &Watched = &watched[at];
    if is_doubled(watched, t.trading_symbol.as_str()) {
        let mut message: String = "More than one tracked position maps to ".to_string();
        message.append(t.trading_symbol.as_str());
        message.append(
            " at the broker — can't tell which is which. Resolve at the broker terminal.",
        );
        let options: Vec<ReconcileOption> = Vec::new();
        assert(options_view(options@) =~= Seq::<ReconcileOptionView>::empty());
        return ReconcileFinding {
            position_id: Some(t.pos_id.clone()),
            trading_symbol: t.trading_symbol.clone(),
            instrument: t.instrument.clone(),
            category: ReconcileCategory::DuplicateAmbiguous,
            engine_qty: t.executed_qty,
            broker_qty: 0,
            broker_avg_price: 0,
            message,
            options,
        };
    }
    let mut held: i32 = 0;
    let mut avg: i64 = 0;
    if let Some(i) = find_holding(holdings, t.trading_symbol.as_str()) {
        held = holdings[i].net_qty();
        avg = holdings[i].avg_buy_price();
    }
    let options: Vec<ReconcileOption> = compare_options(t.executed_qty, held);
    ReconcileFinding {
        position_id: Some(t.pos_id.clone()),
        trading_symbol: t.trading_symbol.clone(),
        instrument: t.instrument.clone(),
        category: compare_category(t.executed_qty, held),
        engine_qty: t.executed_qty,
        broker_qty: held,
        broker_avg_price: avg,
        message: compare_message(t.instrument.as_str(), t.executed_qty, held),
        options,
    }
}

fn find_unexplained(b: &KotakPosition) -> (res: ReconcileFinding)
    ensures
        res@ == unexplained(b@),
{
    let symbol: String = trim(b.trading_symbol.as_str());
    let net: i32 = b.net_qty();
    let mut message: String = "The broker holds ".to_string();
    message.append(i64_text(net as i64).as_str());
    message.append(" of ");
    message.append(symbol.as_str());
    message.append(" that this app has no record of at all.");
    let options: Vec<ReconcileOption> = two_options(
        option(
            ReconcileAction::Ignore,
            "Ignore — I'm managing this manually".to_string(),
            true,
        ),
        option(
            ReconcileAction::AdoptManual { stop_loss: 0, target: 0, avg_buy_price: 0 },
            "Adopt into my positions (enter SL, target & buy price)".to_string(),
            false,
        ),
    );
    ReconcileFinding {
        position_id: None,
        trading_symbol: symbol,
        instrument: b.symbol.clone(),
        category: ReconcileCategory::UnexplainedExposure,
        engine_qty: 0,
        broker_qty: net,
        broker_avg_price: b.avg_buy_price(),
        message,
        options,
    }
}

fn push_finding(v: &mut Vec<ReconcileFinding>, f: ReconcileFinding)
    ensures
        findings_view(final(v)@) == findings_view(old(v)@).push(f@),
{
    v.push(f);
    assert(findings_view(v@) =~= findings_view(old(v)@).push(f@));
}

/// Compare what is watched with what the broker holds. Nothing is changed: each difference
/// comes back as a finding with the answers there are to it.
pub fn preview_watched(watched: &Vec<Watched>, holdings: &Vec<KotakPosition>) -> (res: Vec<
    ReconcileFinding,
>)
    ensures
        findings_view(res@) == findings_on(
            watched_view(watched@),
            holdings_view(holdings@),
            watched@.len() as int,
        ) + unexplained_in(
            watched_view(watched@),
            holdings_view(holdings@),
            holdings@.len() as int,
        ),
{
    let ghost ts = watched_view(watched@);
    let ghost hs = holdings_view(holdings@);
    let mut out: Vec<ReconcileFinding> = Vec::new();
    assert(findings_view(out@) =~= findings_on(ts, hs, 0));
    let mut i: usize = 0;
    while i < watched.len()
        invariant
            i <= watched@.len(),
            ts == watched_view(watched@),
            hs == holdings_view(holdings@),
            findings_view(out@) == findings_on(ts, hs, i as int),
        decreases watched@.len() - i,
    {
        assert(ts[i as int] == watched@[i as int]@);
        if watched[i].is_open {
            push_finding(&mut out, find_on(watched, i, holdings));
        }
        i += 1;
    }
    let ghost first = findings_view(out@);
    assert(first + unexplained_in(ts, hs, 0) =~= first);
    let mut j: usize = 0;
    while j < holdings.len()
        invariant
            j <= holdings@.len(),
            ts == watched_view(watched@),
            hs == holdings_view(holdings@),
            findings_view(out@) == first + unexplained_in(ts, hs, j as int),
        decreases holdings@.len() - j,
    {
        let b: &KotakPosition = &holdings[j];
        assert(hs[j as int] == b@);
        if b.net_qty() > 0 && !symbol_watched(watched, b.trading_symbol.as_str()) {
            let ghost rest = unexplained_in(ts, hs, j as int);
            push_finding(&mut out, find_unexplained(b));
            assert(findings_view(out@) =~= first + rest.push(unexplained(b@)));
        }
        j += 1;
    }
    out
}

/// Compare the positions with what the broker holds. Nothing is changed.
pub fn preview_reconciliation(
    positions: &Vec<MonitoredPosition>,
    holdings: &Vec<KotakPosition>,
) -> (res: Vec<ReconcileFinding>)
    ensures
        ({
            let ts = watched_of(views(positions@), positions@.len() as int);
            let hs = holdings_view(holdings@);
            findings_view(res@) == findings_on(ts, hs, ts.len() as int) + unexplained_in(
                ts,
                hs,
                hs.len() as int,
            )
        }),
{
    let watched: Vec<Watched> = watched_positions(positions);
    preview_watched(&watched, holdings)
}

// ---------------------------------------------------------------------------
// Taking over a holding
// ---------------------------------------------------------------------------

/// The buy price of a holding that is taken over: the one that was entered, or what the
/// broker shows.
pub open spec fn adopted_price(entered: int, broker_avg: int) -> int {
    if entered > 0 {
        entered
    } else {
        broker_avg
    }
}

/// The buy price of a holding that is taken over.
pub fn resolved_adopt_avg(user_entered: i64, broker_avg: i64) -> (res: i64)
    ensures
        res == adopted_price(user_entered as int, broker_avg as int),
{
    if user_entered > 0 {
        user_entered
    } else {
        broker_avg
    }
}

/// Whether a position that is not closed is on a symbol.
pub open spec fn position_on(ps: Seq<MonitoredPositionView>, symbol: Seq<char>) -> bool {
    exists|i: int|
        0 <= i < ps.len() && (#[trigger] ps[i]).state != TradeState::Closed
            && ps[i].resolved_order is Some && trimmed(ps[i].resolved_order->0.trading_symbol)
            == trimmed(symbol)
}

fn has_position_on(positions: &Vec<MonitoredPosition>, symbol: &str) -> (res: bool)
    ensures
        res == position_on(views(positions@), symbol@),
{
    let wanted: String = trim(symbol);
    let ghost ps = views(positions@);
    let mut i: usize = 0;
    while i < positions.len()
        invariant
            i <= positions@.len(),
            ps == views(positions@),
            wanted@ == trimmed(symbol@),
            forall|j: int|
                0 <= j < i ==> !((#[trigger] ps[j]).state != TradeState::Closed
                    && ps[j].resolved_order is Some && trimmed(
                    ps[j].resolved_order->0.trading_symbol,
                ) == trimmed(symbol@)),
        decreases positions@.len() - i,
    {
        assert(ps[i as int] == positions@[i as int]@);
        if positions[i].state != TradeState::Closed {
            if let Some(o) = &positions[i].resolved_order {
                if same_text(trim(o.trading_symbol.as_str()).as_str(), wanted.as_str()) {
                    return true;
                }
            }
        }
        i += 1;
    }
    false
}

/// What is asked of a holding that is taken over.
#[derive(Debug, Clone, Copy, PartialEq, Eq, Structural)]
pub struct AdoptTerms {
    pub stop_loss: i64,
    pub target: i64,
    pub avg_buy_price: i64,
}

/// The position that a holding becomes.
pub open spec fn adopted_position(
    record: ScripRecordView,
    qty: int,
    avg: int,
    terms: AdoptTerms,
    id: Seq<char>,
    created_at: Seq<char>,
) -> MonitoredPositionView {
    let sl = tick_down(terms.stop_loss as int, record.tick_size as int) as i64;
    let tgt = tick_down(terms.target as int, record.tick_size as int) as i64;
    MonitoredPositionView {
        id,
        signal: TradeSignalView {
            instrument_name: record.symbol_name,
            strike: Some(record.strike_price),
            option_type: if record.option_type.len() == 0 {
                None
            } else {
                Some(record.option_type)
            },
            expiry: Some(uppercased(expiry_text(record.expiry_date))),
            action: "BUY"@,
            entry_condition: "ABOVE"@,
            entry_price: avg as i64,
            targets: seq![tgt],
            stop_loss: sl,
            source: "MANUAL_RECONCILE"@,
            signal_id: None,
            raw_message: None,
        },
        state: TradeState::Active,
        created_at,
        current_sl: sl,
        peak_ltp: None,
        next_dynamic_target: None,
        last_dynamic_rung: None,
        dynamic_rung_number: 0,
        manual_sell_qty: None,
        executed_qty: qty as i32,
        avg_buy_price: avg as i64,
        override_qty: None,
        resolved_order: Some(contract_order(record)),
        ltp: None,
        ws_scrip_key: Some(feed_key(record)),
        force_exit: None,
        override_exit_price: None,
        tick_size: record.tick_size,
        entry_order_id: None,
        sl_order_id: None,
        sl_order_qty: 0,
        sl_order_trigger: 0,
        target_order_id: None,
        pending_exit_order_id: None,
        pending_exit_qty: 0,
        pending_exit_reason: None,
        entry_cancel_sent: false,
        exit_attempts: 0,
        live_halt: None,
    }
}

fn adopt_position(
    record: &ScripRecord,
    qty: i32,
    avg: i64,
    terms: AdoptTerms,
    id: &str,
    created_at: &str,
) -> (res: MonitoredPosition)
    requires
        calendar_day(record.expiry_date),
    ensures
        res@ == adopted_position(record@, qty as int, avg as int, terms, id@, created_at@),
{
    let sl: i64 = round_down_tick(terms.stop_loss, record.tick_size);
    let tgt: i64 = round_down_tick(terms.target, record.tick_size);
    let mut targets: Vec<i64> = Vec::new();
    targets.push(tgt);
    assert(targets@ =~= seq![tgt]);
    let option_type: Option<String> = if record.option_type.as_str().unicode_len() == 0 {
        None
    } else {
        Some(record.option_type.clone())
    };
    let signal: TradeSignal = TradeSignal {
        instrument_name: record.symbol_name.clone(),
        strike: Some(record.strike_price),
        option_type,
        expiry: Some(to_upper(write_expiry(record.expiry_date).as_str())),
        action: "BUY".to_string(),
        entry_condition: "ABOVE".to_string(),
        entry_price: avg,
        targets,
        stop_loss: sl,
        source: "MANUAL_RECONCILE".to_string(),
        signal_id: None,
        raw_message: None,
    };
    MonitoredPosition {
        id: id.to_string(),
        signal,
        state: TradeState::Active,
        created_at: created_at.to_string(),
        current_sl: sl,
        peak_ltp: None,
        next_dynamic_target: None,
        last_dynamic_rung: None,
        dynamic_rung_number: 0,
        manual_sell_qty: None,
        executed_qty: qty,
        avg_buy_price: avg,
        override_qty: None,
        resolved_order: Some(order_for_contract(record)),
        ltp: None,
        ws_scrip_key: Some(scrip_key(record)),
        force_exit: None,
        override_exit_price: None,
        tick_size: record.tick_size,
        entry_order_id: None,
        sl_order_id: None,
        sl_order_qty: 0,
        sl_order_trigger: 0,
        target_order_id: None,
        pending_exit_order_id: None,
        pending_exit_qty: 0,
        pending_exit_reason: None,
        entry_cancel_sent: false,
        exit_attempts: 0,
        live_halt: None,
    }
}

/// What the list of contracts has for a symbol. The list may not be loaded.
#[derive(Debug)]
pub enum ContractLookup {
    NotLoaded,
    Unknown,
    Found(ScripRecord),
}

/// What a [`ContractLookup`] says.
pub ghost enum ContractLookupView {
    NotLoaded,
    Unknown,
    Found(ScripRecordView),
}

impl View for ContractLookup {
    type V = ContractLookupView;

    open spec fn view(&self) -> ContractLookupView {
        match self {
            ContractLookup::NotLoaded => ContractLookupView::NotLoaded,
            ContractLookup::Unknown => ContractLookupView::Unknown,
            ContractLookup::Found(r) => ContractLookupView::Found(r@),
        }
    }
}

/// Whether the expiry of a contract that was found is a date.
pub open spec fn dated(c: ContractLookupView) -> bool {
    c matches ContractLookupView::Found(r) ==> calendar_day(r.expiry_date)
}

/// A desk with one more report.
pub open spec fn noted(d: Desk, n: NoticeView) -> Desk {
    Desk { effects: d.effects.push(EffectView::Note(n)), ..d }
}

/// What taking over a holding does.
pub open spec fn adopted(
    d: Desk,
    holdings: Option<Seq<KotakPositionView>>,
    contract: ContractLookupView,
    symbol: Seq<char>,
    terms: AdoptTerms,
    id: Seq<char>,
    created_at: Seq<char>,
) -> Desk {
    let row = match holdings {
        Some(h) => holding_row(h, symbol),
        None => None,
    };
    if position_on(d.positions, symbol) {
        noted(d, bare_notice(NoticeCode::AdoptAlreadyTracked, true, symbol))
    } else if row is None {
        noted(d, bare_notice(NoticeCode::AdoptNotHeld, true, symbol))
    } else if row->0.net() <= 0 {
        noted(d, bare_notice(NoticeCode::AdoptZero, true, symbol))
    } else {
        match contract {
            ContractLookupView::NotLoaded => noted(
                d,
                bare_notice(NoticeCode::AdoptNoContracts, true, symbol),
            ),
            ContractLookupView::Unknown => noted(
                d,
                bare_notice(NoticeCode::AdoptUnknownContract, true, symbol),
            ),
            ContractLookupView::Found(record) => {
                let avg = adopted_price(terms.avg_buy_price as int, row->0.average_buy());
                let p = adopted_position(record, row->0.net(), avg, terms, id, created_at);
                Desk {
                    positions: d.positions.push(p),
                    effects: d.effects.push(EffectView::Watch { key: feed_key(record) }).push(
                        EffectView::Note(
                            NoticeView {
                                qty: row->0.net() as i64,
                                price: avg as i64,
                                level: p.current_sl,
                                target: p.signal.targets[0],
                                reason: if terms.avg_buy_price > 0 {
                                    "you entered"@
                                } else {
                                    "broker avg"@
                                },
                                ..bare_notice(NoticeCode::Adopted, true, symbol)
                            },
                        ),
                    ),
                }
            },
        }
    }
}

/// The holdings of the broker, if they were read.
pub open spec fn opt_holdings(h: Option<Vec<KotakPosition>>) -> Option<Seq<KotakPositionView>> {
    match h {
        Some(v) => Some(holdings_view(v@)),
        None => None,
    }
}

/// Take over a holding that there is no record of, with a stop and a target that were
/// entered by hand. A symbol that a position is already on is left alone.
pub fn adopt_manual(
    positions: &mut Vec<MonitoredPosition>,
    effects: &mut Vec<Effect>,
    holdings: &Option<Vec<KotakPosition>>,
    contract: &ContractLookup,
    symbol: &str,
    terms: AdoptTerms,
    id: &str,
    created_at: &str,
)
    requires
        dated(contract@),
    ensures
        desk(final(positions)@, final(effects)@) == adopted(
            desk(old(positions)@, old(effects)@),
            opt_holdings(*holdings),
            contract@,
            symbol@,
            terms,
            id@,
            created_at@,
        ),
{
    let ghost d = desk(positions@, effects@);
    if has_position_on(positions, symbol) {
        push_effect(effects, Effect::Note(notice(NoticeCode::AdoptAlreadyTracked, true, symbol)));
        return ;
    }
    let mut qty: i32 = 0;
    let mut broker_avg: i64 = 0;
    let mut found: bool = false;
    if let Some(rows) = holdings {
        if let Some(i) = find_holding(rows, symbol) {
            qty = rows[i].net_qty();
            broker_avg = rows[i].avg_buy_price();
            found = true;
        }
    }
    if !found {
        push_effect(effects, Effect::Note(notice(NoticeCode::AdoptNotHeld, true, symbol)));
        return ;
    }
    if qty <= 0 {
        push_effect(effects, Effect::Note(notice(NoticeCode::AdoptZero, true, symbol)));
        return ;
    }
    match contract {
        ContractLookup::NotLoaded => {
            push_effect(effects, Effect::Note(notice(NoticeCode::AdoptNoContracts, true, symbol)));
        },
        ContractLookup::Unknown => {
            push_effect(
                effects,
                Effect::Note(notice(NoticeCode::AdoptUnknownContract, true, symbol)),
            );
        },
        ContractLookup::Found(record) => {
            let avg: i64 = resolved_adopt_avg(terms.avg_buy_price, broker_avg);
            let p: MonitoredPosition = adopt_position(record, qty, avg, terms, id, created_at);
            push_effect(effects, Effect::Watch { key: scrip_key(record) });
            let mut n: Notice = notice(NoticeCode::Adopted, true, symbol);
            n.qty = qty as i64;
            n.price = avg;
            n.level = p.current_sl;
            n.target = p.signal.targets[0];
            n.reason = if terms.avg_buy_price > 0 {
                "you entered".to_string()
            } else {
                "broker avg".to_string()
            };
            push_effect(effects, Effect::Note(n));
            let ghost before = positions@;
            let ghost said = p@;
            positions.push(p);
            assert(views(positions@) =~= views(before).push(said));
        },
    }
}

// ---------------------------------------------------------------------------
// Acting on answers
// ---------------------------------------------------------------------------

/// Whether an answer needs to know what the broker holds.
pub open spec fn needs_broker(a: ReconcileAction) -> bool {
    a == ReconcileAction::AdoptQty || a is AdoptManual
}

/// Whether one of the answers needs to know what the broker holds.
pub fn needs_broker_truth(items: &Vec<ReconcileApplyItem>) -> (res: bool)
    ensures
        res == exists|i: int| 0 <= i < items@.len() && needs_broker(#[trigger] items@[i].action),
{
    let mut i: usize = 0;
    while i < items.len()
        invariant
            i <= items@.len(),
            forall|j: int| 0 <= j < i ==> !needs_broker(#[trigger] items@[j].action),
        decreases items@.len() - i,
    {
        match items[i].action {
            ReconcileAction::AdoptQty => {
                assert(needs_broker(items@[i as int].action));
                return true;
            },
            ReconcileAction::AdoptManual { .. } => {
                assert(needs_broker(items@[i as int].action));
                return true;
            },
            _ => {},
        }
        i += 1;
    }
    false
}

/// A position with the quantity of the broker. Its state and its stop are left as they are.
pub open spec fn quantity_taken_over(p: MonitoredPositionView, held: int)
    -> MonitoredPositionView {
    MonitoredPositionView { executed_qty: larger(held, 0) as i32, ..p }
}

/// What acting on one answer does.
pub open spec fn answered(
    d: Desk,
    item: ReconcileApplyItemView,
    holdings: Option<Seq<KotakPositionView>>,
    contract: ContractLookupView,
    id: Seq<char>,
    created_at: Seq<char>,
) -> Desk {
    let symbol = item.trading_symbol;
    match item.action {
        ReconcileAction::Ignore => noted(d, bare_notice(NoticeCode::ReconcileAck, false, symbol)),
        ReconcileAction::Close => match item.position_id {
            Some(pos_id) => noted(
                Desk {
                    positions: put_id(
                        d.positions,
                        pos_id,
                        gone_at_broker(with_id(d.positions, pos_id)),
                    ),
                    ..d
                },
                bare_notice(NoticeCode::ReconcileClosed, true, symbol),
            ),
            None => d,
        },
        ReconcileAction::AdoptQty => if item.position_id is Some && holdings is Some {
            let pos_id = item.position_id->0;
            let held = held_of(holdings->0, symbol);
            noted(
                Desk {
                    positions: put_id(
                        d.positions,
                        pos_id,
                        quantity_taken_over(with_id(d.positions, pos_id), held),
                    ),
                    ..d
                },
                NoticeView {
                    qty: held as i64,
                    ..bare_notice(NoticeCode::ReconcileAdopted, true, symbol)
                },
            )
        } else {
            d
        },
        ReconcileAction::AdoptManual { stop_loss, target, avg_buy_price } => adopted(
            d,
            holdings,
            contract,
            symbol,
            AdoptTerms { stop_loss, target, avg_buy_price },
            id,
            created_at,
        ),
    }
}

/// The contracts of a list, by what they say.
pub open spec fn lookups_view(s: Seq<ContractLookup>) -> Seq<ContractLookupView> {
    s.map_values(|c: ContractLookup| c@)
}

/// The answers of a list, by what they say.
pub open spec fn items_view(s: Seq<ReconcileApplyItem>) -> Seq<ReconcileApplyItemView> {
    s.map_values(|i: ReconcileApplyItem| i@)
}

/// What acting on the first `n` answers does.
pub open spec fn answered_all(
    d: Desk,
    items: Seq<ReconcileApplyItemView>,
    holdings: Option<Seq<KotakPositionView>>,
    contracts: Seq<ContractLookupView>,
    ids: Seq<Seq<char>>,
    created_at: Seq<char>,
    n: int,
) -> Desk
    decreases n,
{
    if n <= 0 {
        d
    } else {
        answered(
            answered_all(d, items, holdings, contracts, ids, created_at, n - 1),
            items[n - 1],
            holdings,
            contracts[n - 1],
            ids[n - 1],
            created_at,
        )
    }
}

fn act_on(
    positions: &mut Vec<MonitoredPosition>,
    effects: &mut Vec<Effect>,
    item: &ReconcileApplyItem,
    holdings: &Option<Vec<KotakPosition>>,
    contract: &ContractLookup,
    id: &str,
    created_at: &str,
)
    requires
        dated(contract@),
    ensures
        desk(final(positions)@, final(effects)@) == answered(
            desk(old(positions)@, old(effects)@),
            item@,
            opt_holdings(*holdings),
            contract@,
            id@,
            created_at@,
        ),
{
    let symbol: &str = item.trading_symbol.as_str();
    let ghost d = desk(positions@, effects@);
    let ghost after = answered(
        d,
        item@,
        opt_holdings(*holdings),
        contract@,
        id@,
        created_at@,
    );
    match item.action {
        ReconcileAction::Ignore => {
            push_effect(effects, Effect::Note(notice(NoticeCode::ReconcileAck, false, symbol)));
        },
        ReconcileAction::Close => {
            if let Some(pos_id) = &item.position_id {
                if let Some(i) = find_position(positions, pos_id.as_str()) {
                    let p: &mut MonitoredPosition = &mut positions[i];
                    p.executed_qty = 0;
                    p.state = TradeState::Closed;
                    forget_stop(p);
                }
                assert(views(positions@) =~= after.positions);
                push_effect(
                    effects,
                    Effect::Note(notice(NoticeCode::ReconcileClosed, true, symbol)),
                );
            }
        },
        ReconcileAction::AdoptQty => {
            if let Some(pos_id) = &item.position_id {
                if let Some(rows) = holdings {
                    let held: i32 = held_at_broker(rows, symbol);
                    if let Some(i) = find_position(positions, pos_id.as_str()) {
                        let p: &mut MonitoredPosition = &mut positions[i];
                        p.executed_qty = max32(held, 0);
                    }
                    assert(views(positions@) =~= after.positions);
                    let mut n: Notice = notice(NoticeCode::ReconcileAdopted, true, symbol);
                    n.qty = held as i64;
                    push_effect(effects, Effect::Note(n));
                }
            }
        },
        ReconcileAction::AdoptManual { stop_loss, target, avg_buy_price } => {
            let terms: AdoptTerms = AdoptTerms { stop_loss, target, avg_buy_price };
            adopt_manual(
                positions,
                effects,
                holdings,
                contract,
                symbol,
                terms,
                id,
                created_at,
            );
        },
    }
}

/// Act on the answers that were chosen, with the ids and the time for new positions given.
/// What the broker holds was read anew; quantities are never taken from the answers.
pub fn apply_reconciliation_with(
    positions: &mut Vec<MonitoredPosition>,
    holdings: &Option<Vec<KotakPosition>>,
    contracts: &Vec<ContractLookup>,
    items: &Vec<ReconcileApplyItem>,
    ids: &Vec<String>,
    created_at: &str,
) -> (res: Vec<Effect>)
    requires
        contracts@.len() == items@.len(),
        ids@.len() == items@.len(),
        forall|i: int| 0 <= i < contracts@.len() ==> dated(#[trigger] contracts@[i]@),
    ensures
        desk(final(positions)@, res@) == answered_all(
            desk(old(positions)@, Seq::empty()),
            items_view(items@),
            opt_holdings(*holdings),
            lookups_view(contracts@),
            texts(ids@),
            created_at@,
            items@.len() as int,
        ),
{
    let mut effects: Vec<Effect> = Vec::new();
    assert(effects@ =~= Seq::<Effect>::empty());
    let ghost start = desk(positions@, Seq::empty());
    let mut i: usize = 0;
    while i < items.len()
        invariant
            i <= items@.len(),
            contracts@.len() == items@.len(),
            ids@.len() == items@.len(),
            forall|j: int| 0 <= j < contracts@.len() ==> dated(#[trigger] contracts@[j]@),
            desk(positions@, effects@) == answered_all(
                start,
                items_view(items@),
                opt_holdings(*holdings),
                lookups_view(contracts@),
                texts(ids@),
                created_at@,
                i as int,
            ),
        decreases items@.len() - i,
    {
        assert(items_view(items@)[i as int] == items@[i as int]@);
        assert(lookups_view(contracts@)[i as int] == contracts@[i as int]@);
        assert(texts(ids@)[i as int] == ids@[i as int]@);
        act_on(
            positions,
            &mut effects,
            &items[i],
            holdings,
            &contracts[i],
            ids[i].as_str(),
            created_at,
        );
        i += 1;
    }
    effects
}

/// A new identifier, made by `uuid::Uuid::new_v4` and written with hyphens: random, and
/// thirty-six characters long.
#[verifier::external_body]
pub(crate) fn new_id() -> (res: String)
    ensures
        res@.len() == 36,
{
    uuid::Uuid::new_v4().to_string()
}

fn new_ids(n: usize) -> (res: Vec<String>)
    ensures
        res@.len() == n,
        forall|i: int| 0 <= i < n ==> (#[trigger] res@[i])@.len() == 36,
{
    let mut out: Vec<String> = Vec::new();
    let mut i: usize = 0;
    while i < n
        invariant
            i <= n,
            out@.len() == i,
            forall|j: int| 0 <= j < i ==> (#[trigger] out@[j])@.len() == 36,
        decreases n - i,
    {
        out.push(new_id());
        i += 1;
    }
    out
}

/// Act on the answers that were chosen, with new ids and the time of the clock for the
/// positions that are made.
pub fn apply_reconciliation(
    positions: &mut Vec<MonitoredPosition>,
    holdings: &Option<Vec<KotakPosition>>,
    contracts: &Vec<ContractLookup>,
    items: &Vec<ReconcileApplyItem>,
) -> (res: Vec<Effect>)
    requires
        contracts@.len() == items@.len(),
        forall|i: int| 0 <= i < contracts@.len() ==> dated(#[trigger] contracts@[i]@),
    ensures
        exists|ids: Seq<Seq<char>>, created_at: Seq<char>, now: IstTime|
            ids.len() == items@.len() && (forall|i: int|
                0 <= i < ids.len() ==> (#[trigger] ids[i]).len() == 36) && #[trigger] now.valid() && #[trigger] is_timestamp_of(
                created_at,
                now,
            ) && desk(final(positions)@, res@) == #[trigger] answered_all(
                desk(old(positions)@, Seq::empty()),
                items_view(items@),
                opt_holdings(*holdings),
                lookups_view(contracts@),
                ids,
                created_at,
                items@.len() as int,
            ),
{
    let ids: Vec<String> = new_ids(items.len());
    let created_at: String = current_ist_timestamp_string();
    let ghost now = choose|t: IstTime| #[trigger]
        t.valid() && is_timestamp_of(created_at@, t);
    let res: Vec<Effect> = apply_reconciliation_with(
        positions,
        holdings,
        contracts,
        items,
        &ids,
        created_at.as_str(),
    );
    assert(now.valid() && is_timestamp_of(created_at@, now));
    assert(texts(ids@).len() == items@.len());
    assert forall|i: int| 0 <= i < items@.len() implies (#[trigger] texts(ids@)[i]).len() == 36 by {
        assert(ids@[i]@.len() == 36);
    }
    res
}

// ---------------------------------------------------------------------------
// Laws of the comparison on request
// ---------------------------------------------------------------------------

/// A finding asks for a choice just where the quantities differ, and recommends exactly one.
pub proof fn differences_are_questions(
    ts: Seq<WatchedView>,
    t: WatchedView,
    holdings: Seq<KotakPositionView>,
)
    requires
        !doubled(ts, t.trading_symbol),
    ensures
        ({
            let f = finding_on(ts, t, holdings);
            let held = held_of(holdings, t.trading_symbol);
            &&& f.category == ReconcileCategory::Matches <==> held == t.executed_qty
            &&& f.options.len() == 0 <==> held == t.executed_qty
            &&& f.options.len() > 0 ==> f.options.len() == 2 && f.options[0].recommended
                && !f.options[1].recommended && f.options[1].action == ReconcileAction::Ignore
        }),
{
}

/// Two positions that are open on one symbol are reported without an answer: nobody can tell
/// which is which.
pub proof fn doubles_offer_no_answer(
    ts: Seq<WatchedView>,
    t: WatchedView,
    holdings: Seq<KotakPositionView>,
)
    requires
        doubled(ts, t.trading_symbol),
    ensures
        finding_on(ts, t, holdings).category == ReconcileCategory::DuplicateAmbiguous,
        finding_on(ts, t, holdings).options.len() == 0,
{
}

/// An answer touches the position that it names and no other; taking over a holding only
/// adds a position.
pub proof fn answers_touch_what_they_name(
    d: Desk,
    item: ReconcileApplyItemView,
    holdings: Option<Seq<KotakPositionView>>,
    contract: ContractLookupView,
    id: Seq<char>,
    created_at: Seq<char>,
    j: int,
)
    requires
        0 <= j < d.positions.len(),
        item.position_id != Some(d.positions[j].id) || item.action == ReconcileAction::Ignore
            || item.action is AdoptManual,
    ensures
        ({
            let after = answered(d, item, holdings, contract, id, created_at).positions;
            &&& after.len() >= d.positions.len()
            &&& after[j] == d.positions[j]
        }),
{
    if item.position_id is Some {
        lemma_id_index(d.positions, item.position_id->0, 0);
    }
}

/// Taking over the quantity of the broker changes the quantity and nothing else, also where
/// the broker holds none.
pub proof fn quantities_are_taken_over_alone(
    d: Desk,
    item: ReconcileApplyItemView,
    holdings: Seq<KotakPositionView>,
    contract: ContractLookupView,
    id: Seq<char>,
    created_at: Seq<char>,
    j: int,
)
    requires
        item.action == ReconcileAction::AdoptQty,
        0 <= j < d.positions.len(),
    ensures
        ({
            let after = answered(d, item, Some(holdings), contract, id, created_at).positions;
            &&& after.len() == d.positions.len()
            &&& after[j] == (MonitoredPositionView {
                executed_qty: after[j].executed_qty,
                ..d.positions[j]
            })
            &&& item.position_id is Some && j == id_index(d.positions, item.position_id->0, 0)
                ==> after[j].executed_qty == larger(held_of(holdings, item.trading_symbol), 0)
        }),
{
    if item.position_id is Some {
        lemma_id_index(d.positions, item.position_id->0, 0);
    }
}

/// A holding is taken over with the quantity that the broker shows, as an active position
/// with its stop and target on the tick grid; and never twice.
pub proof fn holdings_are_taken_over_once(
    d: Desk,
    holdings: Option<Seq<KotakPositionView>>,
    record: ScripRecordView,
    symbol: Seq<char>,
    terms: AdoptTerms,
    id: Seq<char>,
    created_at: Seq<char>,
)
    requires
        trimmed(record.trading_symbol) == trimmed(symbol),
    ensures
        ({
            let contract = ContractLookupView::Found(record);
            let once = adopted(d, holdings, contract, symbol, terms, id, created_at);
            let twice = adopted(once, holdings, contract, symbol, terms, id, created_at);
            &&& once.positions.len() > d.positions.len() ==> {
                &&& once.positions.last().state == TradeState::Active
                &&& once.positions.last().executed_qty == held_of(holdings->0, symbol)
                &&& once.positions.last().executed_qty > 0
                &&& once.positions.last().current_sl == tick_down(
                    terms.stop_loss as int,
                    record.tick_size as int,
                )
            }
            &&& twice.positions == once.positions
        }),
{
    let contract = ContractLookupView::Found(record);
    let once = adopted(d, holdings, contract, symbol, terms, id, created_at);
    if once.positions.len() > d.positions.len() {
        let last = once.positions.len() - 1;
        assert(once.positions[last].resolved_order is Some);
        assert(position_on(once.positions, symbol));
    }
}

/// A comparison says what it compared: the position, what is on record for it, and what the
/// broker holds at which average price. More at the broker is an increase, less a reduction,
/// and none at all a close; the answer that is recommended goes with it.
pub proof fn findings_say_what_was_compared(
    ts: Seq<WatchedView>,
    t: WatchedView,
    holdings: Seq<KotakPositionView>,
)
    requires
        !doubled(ts, t.trading_symbol),
    ensures
        ({
            let f = finding_on(ts, t, holdings);
            let held = held_of(holdings, t.trading_symbol);
            let engine = t.executed_qty;
            &&& f.position_id == Some(t.pos_id) && f.trading_symbol == t.trading_symbol
                && f.instrument == t.instrument
            &&& f.engine_qty == engine && f.broker_qty == held
            &&& holding_row(holdings, t.trading_symbol) matches Some(r)
                ==> -0x8000_0000_0000_0000 <= r.average_buy() <= 0x7fff_ffff_ffff_ffff
                ==> f.broker_avg_price == r.average_buy()
            &&& held == engine ==> f.category == ReconcileCategory::Matches
            &&& held != engine && held <= 0 ==> f.category == ReconcileCategory::QtyZero
                && f.options[0].action == ReconcileAction::Close
            &&& 0 < held < engine ==> f.category == ReconcileCategory::QtyReduced
                && f.options[0].action == ReconcileAction::AdoptQty
            &&& held > 0 && held > engine ==> f.category == ReconcileCategory::QtyIncreased
                && f.options[0].action == ReconcileAction::AdoptQty
        }),
{
}

/// Each position that is held gets one finding, in the order of the list; one that waits gets
/// none. What the broker holds of a symbol that no position is on gets one each, which says how
/// much it is and at which price; leaving it alone is recommended.
pub proof fn everything_held_is_found(
    ts: Seq<WatchedView>,
    holdings: Seq<KotakPositionView>,
    n: int,
    m: int,
)
    requires
        0 <= n < ts.len(),
        0 <= m < holdings.len(),
    ensures
        ({
            let before = findings_on(ts, holdings, n);
            let after = findings_on(ts, holdings, n + 1);
            &&& findings_on(ts, holdings, 0).len() == 0
            &&& ts[n].is_open ==> after.len() == before.len() + 1 && after.drop_last() == before
                && after.last() == finding_on(ts, ts[n], holdings)
            &&& !ts[n].is_open ==> after == before
        }),
        ({
            let before = unexplained_in(ts, holdings, m);
            let after = unexplained_in(ts, holdings, m + 1);
            let b = holdings[m];
            let f = after.last();
            let known = exists|i: int|
                0 <= i < ts.len() && trimmed((#[trigger] ts[i]).trading_symbol) == trimmed(
                    b.trading_symbol,
                ) && trimmed(b.trading_symbol).len() > 0;
            &&& unexplained_in(ts, holdings, 0).len() == 0
            &&& b.net() > 0 && !known ==> {
                &&& after.len() == before.len() + 1 && after.drop_last() == before
                &&& f.position_id is None && f.trading_symbol == trimmed(b.trading_symbol)
                &&& f.category == ReconcileCategory::UnexplainedExposure
                &&& f.engine_qty == 0 && f.broker_qty == b.net()
                &&& f.options.len() == 2 && f.options[0].action == ReconcileAction::Ignore
                    && f.options[0].recommended && f.options[1].action is AdoptManual
                    && !f.options[1].recommended
            }
            &&& b.net() <= 0 || known ==> after == before
        }),
{
    if ts[n].is_open {
        assert(findings_on(ts, holdings, n + 1).drop_last() =~= findings_on(ts, holdings, n));
    }
    if holdings[m].net() > 0 && !is_watched(ts, holdings[m].trading_symbol) {
        assert(unexplained_in(ts, holdings, m + 1).drop_last() =~= unexplained_in(ts, holdings, m));
    }
}

/// A price that was entered by hand counts before the average of the broker.
pub proof fn an_entered_price_comes_first(entered: int, broker_avg: int)
    ensures
        entered > 0 ==> adopted_price(entered, broker_avg) == entered,
        entered <= 0 ==> adopted_price(entered, broker_avg) == broker_avg,
{
}

/// A holding that no position is on is taken over where the broker holds something of it and
/// its contract is known: as an active position of what is held, at the price that was entered
/// or else the average of the broker, with stop and target as entered, on the tick grid, and
/// with no history. The price feed is asked for the contract. Otherwise nothing changes and the
/// reason is reported loudly.
pub proof fn holdings_are_taken_over_as_held(
    d: Desk,
    holdings: Seq<KotakPositionView>,
    record: ScripRecordView,
    symbol: Seq<char>,
    terms: AdoptTerms,
    id: Seq<char>,
    created_at: Seq<char>,
)
    ensures
        ({
            let after = adopted(
                d,
                Some(holdings),
                ContractLookupView::Found(record),
                symbol,
                terms,
                id,
                created_at,
            );
            let held = held_of(holdings, symbol);
            let free = forall|i: int|
                0 <= i < d.positions.len() ==> (#[trigger] d.positions[i]).state
                    == TradeState::Closed || d.positions[i].resolved_order is None || trimmed(
                    d.positions[i].resolved_order->0.trading_symbol,
                ) != trimmed(symbol);
            let p = after.positions.last();
            let k = d.effects.len() as int;
            &&& free && held > 0 ==> {
                &&& after.positions.len() == d.positions.len() + 1
                &&& after.positions.drop_last() == d.positions
                &&& p.id == id && p.created_at == created_at && p.state == TradeState::Active
                &&& p.executed_qty == held
                &&& terms.avg_buy_price > 0 ==> p.avg_buy_price == terms.avg_buy_price
                &&& terms.avg_buy_price <= 0 ==> p.avg_buy_price == holding_row(
                    holdings,
                    symbol,
                )->0.average_buy() as i64
                &&& p.signal.entry_price == p.avg_buy_price
                &&& p.current_sl == tick_down(terms.stop_loss as int, record.tick_size as int)
                    as i64 && p.signal.stop_loss == p.current_sl
                &&& p.signal.targets == seq![
                    tick_down(terms.target as int, record.tick_size as int) as i64,
                ]
                &&& p.signal.instrument_name == record.symbol_name
                &&& p.tick_size == record.tick_size
                &&& p.resolved_order is Some && p.resolved_order->0.trading_symbol
                    == record.trading_symbol
                &&& p.entry_order_id is None && p.sl_order_id is None && p.pending_exit_order_id
                    is None && p.force_exit is None && p.live_halt is None && p.exit_attempts == 0
                &&& after.effects.len() == k + 2
                &&& after.effects[k] matches EffectView::Watch { key }
                &&& p.ws_scrip_key == Some(key)
                &&& key == record.exchange_segment_code + "|"@ + record.instrument_token
            }
            &&& !free || held <= 0 ==> {
                &&& after.positions == d.positions
                &&& after.effects.len() == k + 1
                &&& after.effects.last() matches EffectView::Note(n)
                &&& n.loud && n.instrument == symbol
            }
        }),
{
    let contract = ContractLookupView::Found(record);
    let after = adopted(d, Some(holdings), contract, symbol, terms, id, created_at);
    if after.positions != d.positions {
        assert(after.positions.drop_last() =~= d.positions);
    }
    if position_on(d.positions, symbol) {
        let i = choose|i: int|
            0 <= i < d.positions.len() && (#[trigger] d.positions[i]).state != TradeState::Closed
                && d.positions[i].resolved_order is Some && trimmed(
                d.positions[i].resolved_order->0.trading_symbol,
            ) == trimmed(symbol);
        assert(d.positions[i].state != TradeState::Closed);
    }
}

/// Nothing is taken over without the broker's holdings or without a contract.
pub proof fn nothing_is_taken_over_blindly(
    d: Desk,
    holdings: Option<Seq<KotakPositionView>>,
    contract: ContractLookupView,
    symbol: Seq<char>,
    terms: AdoptTerms,
    id: Seq<char>,
    created_at: Seq<char>,
)
    requires
        holdings is None || !(contract is Found),
    ensures
        adopted(d, holdings, contract, symbol, terms, id, created_at).positions == d.positions,
        adopted(d, holdings, contract, symbol, terms, id, created_at).effects.last()
            matches EffectView::Note(n) && n.loud,
{
}

/// What an answer does to the position that it names: leaving it changes nothing, closing it
/// ends it with nothing held and no stop on record, and taking over the quantity of the broker
/// sets the holding to it, but not below nothing. Each is reported.
pub proof fn answers_do_what_they_say(
    d: Desk,
    item: ReconcileApplyItemView,
    holdings: Seq<KotakPositionView>,
    contract: ContractLookupView,
    id: Seq<char>,
    created_at: Seq<char>,
)
    requires
        item.position_id is Some,
        has_id(d.positions, item.position_id->0),
        !(item.action is AdoptManual),
    ensures
        ({
            let after = answered(d, item, Some(holdings), contract, id, created_at);
            let p = with_id(d.positions, item.position_id->0);
            let i = id_index(d.positions, item.position_id->0, 0);
            let q = after.positions[i];
            let held = held_of(holdings, item.trading_symbol);
            &&& after.effects.len() == d.effects.len() + 1
            &&& after.effects.last() matches EffectView::Note(n)
            &&& n.instrument == item.trading_symbol
            &&& item.action == ReconcileAction::Ignore ==> after.positions == d.positions && !n.loud
            &&& item.action == ReconcileAction::Close ==> n.loud && q == (MonitoredPositionView {
                executed_qty: 0,
                state: TradeState::Closed,
                sl_order_id: None,
                sl_order_qty: 0,
                sl_order_trigger: 0,
                ..p
            })
            &&& item.action == ReconcileAction::AdoptQty ==> {
                &&& n.loud && n.qty == held
                &&& held >= 0 ==> q.executed_qty == held
                &&& held < 0 ==> q.executed_qty == 0
                &&& q == (MonitoredPositionView { executed_qty: q.executed_qty, ..p })
            }
        }),
{
    lemma_id_index(d.positions, item.position_id->0, 0);
}

/// Only answers that go by what the broker holds make it necessary to ask.
pub proof fn asking_goes_with_the_answer(a: ReconcileAction)
    ensures
        needs_broker(a) <==> !(a == ReconcileAction::Ignore || a == ReconcileAction::Close),
{
}

/// Each answer is acted on once, after those before it, with its own contract and id.
pub proof fn answers_are_taken_in_turn(
    d: Desk,
    items: Seq<ReconcileApplyItemView>,
    holdings: Option<Seq<KotakPositionView>>,
    contracts: Seq<ContractLookupView>,
    ids: Seq<Seq<char>>,
    created_at: Seq<char>,
    n: int,
)
    requires
        0 <= n < items.len(),
    ensures
        answered_all(d, items, holdings, contracts, ids, created_at, 0) == d,
        answered_all(d, items, holdings, contracts, ids, created_at, n + 1) == answered(
            answered_all(d, items, holdings, contracts, ids, created_at, n),
            items[n],
            holdings,
            contracts[n],
            ids[n],
            created_at,
        ),
{
}

/// What is said of a comparison names the instrument first, then what is on record, and then
/// what the broker holds, where that is anything else.
pub proof fn findings_are_said_in_order(instrument: Seq<char>, engine: int, broker: int)
    ensures
        begins_with(finding_text(instrument, engine, broker), instrument),
        broker != engine ==> begins_with(
            finding_text(instrument, engine, broker),
            instrument + ": engine shows "@ + int_text(engine) + " qty held, broker shows "@,
        ),
        broker != engine && broker > 0 ==> begins_with(
            finding_text(instrument, engine, broker),
            instrument + ": engine shows "@ + int_text(engine) + " qty held, broker shows "@
                + int_text(broker),
        ),
{
    let shows = instrument + ": engine shows "@ + int_text(engine) + " qty held, broker shows "@;
    let s = finding_text(instrument, engine, broker);
    assert(s.subrange(0, instrument.len() as int) =~= instrument);
    if broker != engine {
        assert(s.subrange(0, shows.len() as int) =~= shows);
        if broker > 0 {
            let more = shows + int_text(broker);
            assert(s.subrange(0, more.len() as int) =~= more);
        }
    }
}

} // verus!
