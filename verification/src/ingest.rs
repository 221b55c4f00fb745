//! Taking in signals: commands on earlier signals, edits, and calls to buy.
use vstd::prelude::*;

use dashmap::DashMap;

use crate::clock::{current_ist_timestamp_string, day_of_second, now_ist, read_expiry, IstTime};
use crate::decide::price_at;
use crate::decimal::two_place_text;
use crate::desk::{notice, push_effect, Effect, Notice, NoticeCode};
use crate::domain::{
    copy_prices, MonitoredPosition, ScripRecord, TradeSignal, TradeState, TradingConfig,
};
use crate::orders::{order_for_contract, scrip_key};
use crate::sizing::lots_for_instrument;
use crate::sync::{new_id, ContractLookup};
use crate::text::{eq_ignore_case, join2, same_text};

#[allow(unused_imports)]
use crate::clock::{expiry_read, is_timestamp_of};

#[allow(unused_imports)]
use crate::decide::{price_seen, readings, real_price, shows};

#[allow(unused_imports)]
use crate::decimal::two_places;

#[allow(unused_imports)]
use crate::desk::{bare_notice, desk, Desk, EffectView, NoticeView};

#[allow(unused_imports)]
use crate::domain::{
    views, MonitoredPositionView, ScripRecordView, TradeSignalView, TradingConfigView,
};

#[allow(unused_imports)]
use crate::orders::{contract_order, feed_key};

#[allow(unused_imports)]
use crate::sizing::lots_of;

#[allow(unused_imports)]
use crate::sync::{noted, ContractLookupView};

#[allow(unused_imports)]
use crate::text::{ascii_lower, opt_text, same_but_case};

verus! {

// ---------------------------------------------------------------------------
// Finding the position of a signal
// ---------------------------------------------------------------------------

/// Whether a position came of the signal `id`, and is open if only open ones count.
pub open spec fn came_of(p: MonitoredPositionView, id: Seq<char>, open_only: bool) -> bool {
    p.signal.signal_id == Some(id) && (open_only ==> p.state != TradeState::Closed)
}

/// The first position that came of the signal `id`, from `from` on, or their number.
pub open spec fn signal_index(
    ps: Seq<MonitoredPositionView>,
    id: Seq<char>,
    open_only: bool,
    from: int,
) -> int
    decreases ps.len() - from,
{
    if from >= ps.len() {
        ps.len() as int
    } else if came_of(ps[from], id, open_only) {
        from
    } else {
        signal_index(ps, id, open_only, from + 1)
    }
}

proof fn lemma_signal_index(
    ps: Seq<MonitoredPositionView>,
    id: Seq<char>,
    open_only: bool,
    from: int,
)
    requires
        0 <= from <= ps.len(),
    ensures
        from <= signal_index(ps, id, open_only, from) <= ps.len(),
        signal_index(ps, id, open_only, from) < ps.len() ==> came_of(
            ps[signal_index(ps, id, open_only, from)],
            id,
            open_only,
        ),
        forall|j: int|
            from <= j < signal_index(ps, id, open_only, from) ==> !came_of(
                #[trigger] ps[j],
                id,
                open_only,
            ),
    decreases ps.len() - from,
{
    if from < ps.len() && !came_of(ps[from], id, open_only) {
        lemma_signal_index(ps, id, open_only, from + 1);
    }
}

fn find_signal(positions: &Vec<MonitoredPosition>, id: &str, open_only: bool) -> (res: Option<
    usize,
>)
    ensures
        res is Some <==> signal_index(views(positions@), id@, open_only, 0) < positions@.len(),
        res is Some ==> res->0 == signal_index(views(positions@), id@, open_only, 0),
{
    let ghost ps = views(positions@);
    let mut i: usize = 0;
    while i < positions.len()
        invariant
            i <= positions@.len(),
            ps == views(positions@),
            signal_index(ps, id@, open_only, i as int) == signal_index(ps, id@, open_only, 0),
        decreases positions@.len() - i,
    {
        assert(ps[i as int] == positions@[i as int]@);
        let same: bool = match &positions[i].signal.signal_id {
            Some(s) => same_text(s.as_str(), id),
            None => false,
        };
        if same && !(open_only && positions[i].state == TradeState::Closed) {
            return Some(i);
        }
        i += 1;
    }
    None
}

// ---------------------------------------------------------------------------
// Commands
// ---------------------------------------------------------------------------

/// A position with a new stop.
pub open spec fn with_stop(p: MonitoredPositionView, stop: i64) -> MonitoredPositionView {
    MonitoredPositionView {
        current_sl: stop,
        signal: TradeSignalView { stop_loss: stop, ..p.signal },
        ..p
    }
}

/// The reason of an exit that a signal asked for.
pub open spec fn exit_at_text(price: int) -> Seq<char> {
    "EXIT_AT_"@ + two_places(price)
}

/// A position that a signal asked to leave at a price.
pub open spec fn with_exit(p: MonitoredPositionView, price: i64) -> MonitoredPositionView {
    MonitoredPositionView {
        override_exit_price: Some(price),
        force_exit: Some(exit_at_text(price as int)),
        ..p
    }
}

/// What a command to move the stop of an earlier signal does. One without an id is ignored.
pub open spec fn stop_update(d: Desk, signal: TradeSignalView) -> Desk {
    match signal.signal_id {
        None => d,
        Some(id) => {
            let i = signal_index(d.positions, id, false, 0);
            let n = NoticeView {
                price: signal.stop_loss,
                ..bare_notice(
                    if i < d.positions.len() {
                        NoticeCode::SignalUpdated
                    } else {
                        NoticeCode::UpdateUnmatched
                    },
                    i >= d.positions.len(),
                    "UPDATE"@,
                )
            };
            if i < d.positions.len() {
                noted(
                    Desk {
                        positions: d.positions.update(
                            i,
                            with_stop(d.positions[i], signal.stop_loss),
                        ),
                        ..d
                    },
                    n,
                )
            } else {
                noted(d, n)
            }
        },
    }
}

/// What a command to leave the position of an earlier signal does. One without an id is
/// ignored.
pub open spec fn exit_request(d: Desk, signal: TradeSignalView) -> Desk {
    match signal.signal_id {
        None => d,
        Some(id) => {
            let i = signal_index(d.positions, id, true, 0);
            let n = NoticeView {
                price: signal.entry_price,
                ..bare_notice(
                    if i < d.positions.len() {
                        NoticeCode::SignalExited
                    } else {
                        NoticeCode::ExitUnmatched
                    },
                    i >= d.positions.len(),
                    "UPDATE"@,
                )
            };
            if i < d.positions.len() {
                noted(
                    Desk {
                        positions: d.positions.update(
                            i,
                            with_exit(d.positions[i], signal.entry_price),
                        ),
                        ..d
                    },
                    n,
                )
            } else {
                noted(d, n)
            }
        },
    }
}

/// A position after its signal was edited. An edit of the entry cannot be followed: the
/// position is left. Otherwise stop and targets are taken over, and the stop in force too
/// while target 1 is not hit.
pub open spec fn edited(p: MonitoredPositionView, signal: TradeSignalView)
    -> MonitoredPositionView {
    if p.signal.entry_price != signal.entry_price || p.signal.entry_condition
        != signal.entry_condition {
        MonitoredPositionView { force_exit: Some("ENTRY_CHANGED_ERROR"@), ..p }
    } else {
        MonitoredPositionView {
            signal: TradeSignalView {
                stop_loss: signal.stop_loss,
                targets: signal.targets,
                entry_price: signal.entry_price,
                ..p.signal
            },
            current_sl: if p.state == TradeState::WaitingForEntry || p.state
                == TradeState::Active {
                signal.stop_loss
            } else {
                p.current_sl
            },
            ..p
        }
    }
}

/// Whether a signal is an edit of one that a position came of.
pub open spec fn is_edit(ps: Seq<MonitoredPositionView>, signal: TradeSignalView) -> bool {
    signal.signal_id is Some && signal_index(ps, signal.signal_id->0, false, 0) < ps.len()
}

/// What an edit does.
pub open spec fn edit(d: Desk, signal: TradeSignalView) -> Desk {
    let i = signal_index(d.positions, signal.signal_id->0, false, 0);
    noted(
        Desk { positions: d.positions.update(i, edited(d.positions[i], signal)), ..d },
        NoticeView {
            price: signal.stop_loss,
            ..bare_notice(NoticeCode::SignalUpdated, false, signal.instrument_name)
        },
    )
}

fn update_stop(
    positions: &mut Vec<MonitoredPosition>,
    effects: &mut Vec<Effect>,
    signal: &TradeSignal,
)
    ensures
        desk(final(positions)@, final(effects)@) == stop_update(
            desk(old(positions)@, old(effects)@),
            signal@,
        ),
{
    let ghost d = desk(positions@, effects@);
    if let Some(id) = &signal.signal_id {
        let mut n: Notice = notice(NoticeCode::UpdateUnmatched, true, "UPDATE");
        n.price = signal.stop_loss;
        if let Some(i) = find_signal(positions, id.as_str(), false) {
            proof {
                lemma_signal_index(d.positions, id@, false, 0);
            }
            let p: &mut MonitoredPosition = &mut positions[i];
            p.current_sl = signal.stop_loss;
            p.signal.stop_loss = signal.stop_loss;
            n.code = NoticeCode::SignalUpdated;
            n.loud = false;
        }
        push_effect(effects, Effect::Note(n));
        assert(views(positions@) =~= stop_update(d, signal@).positions);
    }
}

fn request_exit(
    positions: &mut Vec<MonitoredPosition>,
    effects: &mut Vec<Effect>,
    signal: &TradeSignal,
)
    ensures
        desk(final(positions)@, final(effects)@) == exit_request(
            desk(old(positions)@, old(effects)@),
            signal@,
        ),
{
    let ghost d = desk(positions@, effects@);
    if let Some(id) = &signal.signal_id {
        let mut n: Notice = notice(NoticeCode::ExitUnmatched, true, "UPDATE");
        n.price = signal.entry_price;
        if let Some(i) = find_signal(positions, id.as_str(), true) {
            proof {
                lemma_signal_index(d.positions, id@, true, 0);
            }
            let p: &mut MonitoredPosition = &mut positions[i];
            p.override_exit_price = Some(signal.entry_price);
            p.force_exit = Some(join2("EXIT_AT_", two_place_text(signal.entry_price).as_str()));
            n.code = NoticeCode::SignalExited;
            n.loud = false;
        }
        push_effect(effects, Effect::Note(n));
        assert(views(positions@) =~= exit_request(d, signal@).positions);
    }
}

fn edit_position(p: &mut MonitoredPosition, signal: &TradeSignal)
    ensures
        final(p)@ == edited(old(p)@, signal@),
{
    if p.signal.entry_price != signal.entry_price || !same_text(
        p.signal.entry_condition.as_str(),
        signal.entry_condition.as_str(),
    ) {
        p.force_exit = Some("ENTRY_CHANGED_ERROR".to_string());
        return ;
    }
    p.signal.stop_loss = signal.stop_loss;
    p.signal.targets = copy_prices(&signal.targets);
    p.signal.entry_price = signal.entry_price;
    if p.state == TradeState::WaitingForEntry || p.state == TradeState::Active {
        p.current_sl = signal.stop_loss;
    }
}

// ---------------------------------------------------------------------------
// Calls to buy
// ---------------------------------------------------------------------------

/// Why a call to buy is not taken, before its contract is looked up.
///
/// A signal needs a stop and a target: without a stop the watch would never fire, without a
/// target there is nothing to leave at. Its expiry must not be past, the kill switch must be
/// off, and the lots for an option must not be zero.
pub open spec fn screened(
    signal: TradeSignalView,
    cfg: TradingConfigView,
    today: int,
) -> Option<NoticeView> {
    let name = signal.instrument_name;
    if signal.stop_loss <= 0 {
        Some(bare_notice(NoticeCode::SignalWithoutStop, true, name))
    } else if signal.targets.len() == 0 {
        Some(bare_notice(NoticeCode::SignalWithoutTarget, true, name))
    } else if signal.expiry is Some && expiry_read(signal.expiry->0) is Some && expiry_read(
        signal.expiry->0,
    )->0 < today {
        Some(
            NoticeView {
                detail: signal.expiry->0,
                ..bare_notice(NoticeCode::SignalExpired, true, name)
            },
        )
    } else if cfg.kill_switch_active {
        Some(bare_notice(NoticeCode::KillSwitchBlocked, false, name))
    } else if signal.option_type is Some && lots_of(cfg, name) <= 0 {
        Some(bare_notice(NoticeCode::LotsAreZero, true, name))
    } else {
        None
    }
}

/// Why a call to buy is not taken, before its contract is looked up.
pub fn screen_signal(signal: &TradeSignal, cfg: &TradingConfig, today: i64) -> (res: Option<Notice>)
    ensures
        match res {
            Some(n) => screened(signal@, cfg@, today as int) == Some(n@),
            None => screened(signal@, cfg@, today as int) is None,
        },
{
    let name: &str = signal.instrument_name.as_str();
    if signal.stop_loss <= 0 {
        return Some(notice(NoticeCode::SignalWithoutStop, true, name));
    }
    if signal.targets.len() == 0 {
        return Some(notice(NoticeCode::SignalWithoutTarget, true, name));
    }
    if let Some(text) = &signal.expiry {
        if let Some(day) = read_expiry(text.as_str()) {
            if (day as i64) < today {
                let mut n: Notice = notice(NoticeCode::SignalExpired, true, name);
                n.detail = text.clone();
                return Some(n);
            }
        }
    }
    if cfg.kill_switch_active {
        return Some(notice(NoticeCode::KillSwitchBlocked, false, name));
    }
    if signal.option_type.is_some() && lots_for_instrument(cfg, name) <= 0 {
        return Some(notice(NoticeCode::LotsAreZero, true, name));
    }
    None
}

/// Whether a position stands against a new signal on the same instrument: an option of the
/// other type, or another action.
pub open spec fn opposes(p: MonitoredPositionView, signal: TradeSignalView) -> bool {
    &&& same_but_case(p.signal.instrument_name, signal.instrument_name)
    &&& p.state != TradeState::Closed
    &&& (p.signal.option_type is Some && signal.option_type is Some && p.signal.option_type
        != signal.option_type) || p.signal.action != signal.action
}

/// The positions, with those that stand against a signal on their way out.
pub open spec fn opposites_leave(
    ps: Seq<MonitoredPositionView>,
    signal: TradeSignalView,
) -> Seq<MonitoredPositionView> {
    ps.map_values(
        |p: MonitoredPositionView|
            if opposes(p, signal) {
                MonitoredPositionView { force_exit: Some("OPPOSITE_SIGNAL_EXIT"@), ..p }
            } else {
                p
            },
    )
}

/// The position that a call to buy becomes: it waits for its entry.
pub open spec fn waiting_position(
    signal: TradeSignalView,
    record: ScripRecordView,
    id: Seq<char>,
    created_at: Seq<char>,
) -> MonitoredPositionView {
    MonitoredPositionView {
        id,
        signal,
        state: TradeState::WaitingForEntry,
        created_at,
        current_sl: signal.stop_loss,
        peak_ltp: None,
        next_dynamic_target: None,
        last_dynamic_rung: None,
        dynamic_rung_number: 0,
        manual_sell_qty: None,
        executed_qty: 0,
        avg_buy_price: 0,
        override_qty: None,
        resolved_order: Some(contract_order(record)),
        ltp: None,
        ws_scrip_key: Some(feed_key(record)),
        force_exit: None,
        override_exit_price: None,
        tick_size: record.tick_size,
        entry_order_id: None,
        sl_order_id: None,
        sl_order_qty: 0,
        sl_order_trigger: 0,
        target_order_id: None,
        pending_exit_order_id: None,
        pending_exit_qty: 0,
        pending_exit_reason: None,
        entry_cancel_sent: false,
        exit_attempts: 0,
        live_halt: None,
    }
}

/// What a call to buy does that has passed, given its contract. `price` is what the feed has
/// for the contract already.
pub open spec fn opened(
    d: Desk,
    signal: TradeSignalView,
    contract: ContractLookupView,
    price: Option<i64>,
    id: Seq<char>,
    created_at: Seq<char>,
) -> Desk {
    let name = signal.instrument_name;
    match contract {
        ContractLookupView::NotLoaded => noted(d, bare_notice(NoticeCode::NoContracts, true, name)),
        ContractLookupView::Unknown => noted(
            d,
            bare_notice(NoticeCode::UnknownContract, true, name),
        ),
        ContractLookupView::Found(record) => if real_price(price) is Some && signal.targets.len()
            > 0 && price->0 >= signal.targets[0] {
            noted(
                d,
                NoticeView {
                    price: price->0,
                    level: signal.targets[0],
                    ..bare_notice(NoticeCode::AlreadyAtTarget, true, name)
                },
            )
        } else {
            Desk {
                positions: opposites_leave(d.positions, signal).push(
                    waiting_position(signal, record, id, created_at),
                ),
                effects: d.effects.push(EffectView::Watch { key: feed_key(record) }),
            }
        },
    }
}

/// What a signal does.
pub open spec fn ingested(
    d: Desk,
    signal: TradeSignalView,
    cfg: TradingConfigView,
    contract: ContractLookupView,
    price: Option<i64>,
    id: Seq<char>,
    created_at: Seq<char>,
    today: int,
) -> Desk {
    if signal.action == "UPDATE_SL"@ {
        stop_update(d, signal)
    } else if signal.action == "EXIT_AT"@ {
        exit_request(d, signal)
    } else if is_edit(d.positions, signal) {
        edit(d, signal)
    } else if same_but_case(signal.action, "BUY"@) {
        match screened(signal, cfg, today) {
            Some(n) => noted(d, n),
            None => opened(d, signal, contract, price, id, created_at),
        }
    } else {
        noted(d, bare_notice(NoticeCode::ShortNotSupported, false, signal.instrument_name))
    }
}

fn same_opt(a: &Option<String>, b: &Option<String>) -> (res: bool)
    ensures
        res == (opt_text(*a) == opt_text(*b)),
{
    match (a, b) {
        (Some(x), Some(y)) => same_text(x.as_str(), y.as_str()),
        (None, None) => true,
        _ => false,
    }
}

fn leave_opposites(positions: &mut Vec<MonitoredPosition>, signal: &TradeSignal)
    ensures
        views(final(positions)@) == opposites_leave(views(old(positions)@), signal@),
{
    let ghost ps = views(positions@);
    let ghost after = opposites_leave(ps, signal@);
    let mut i: usize = 0;
    while i < positions.len()
        invariant
            i <= positions@.len(),
            positions@.len() == ps.len(),
            after == opposites_leave(ps, signal@),
            forall|j: int| 0 <= j < i ==> (#[trigger] positions@[j])@ == after[j],
            forall|j: int| i <= j < ps.len() ==> (#[trigger] positions@[j])@ == ps[j],
        decreases ps.len() - i,
    {
        assert(positions@[i as int]@ == ps[i as int]);
        let p: &mut MonitoredPosition = &mut positions[i];
        if eq_ignore_case(
            p.signal.instrument_name.as_str(),
            signal.instrument_name.as_str(),
        ) && p.state != TradeState::Closed {
            let other_option: bool = p.signal.option_type.is_some() && signal.option_type.is_some()
                && !same_opt(&p.signal.option_type, &signal.option_type);
            let other_action: bool = !same_text(p.signal.action.as_str(), signal.action.as_str());
            if other_option || other_action {
                p.force_exit = Some("OPPOSITE_SIGNAL_EXIT".to_string());
            }
        }
        i += 1;
    }
    assert(views(positions@) =~= after);
}

fn make_waiting(signal: TradeSignal, record: &ScripRecord, id: &str, created_at: &str) -> (res:
    MonitoredPosition)
    ensures
        res@ == waiting_position(signal@, record@, id@, created_at@),
{
    let stop: i64 = signal.stop_loss;
    MonitoredPosition {
        id: id.to_string(),
        signal,
        state: TradeState::WaitingForEntry,
        created_at: created_at.to_string(),
        current_sl: stop,
        peak_ltp: None,
        next_dynamic_target: None,
        last_dynamic_rung: None,
        dynamic_rung_number: 0,
        manual_sell_qty: None,
        executed_qty: 0,
        avg_buy_price: 0,
        override_qty: None,
        resolved_order: Some(order_for_contract(record)),
        ltp: None,
        ws_scrip_key: Some(scrip_key(record)),
        force_exit: None,
        override_exit_price: None,
        tick_size: record.tick_size,
        entry_order_id: None,
        sl_order_id: None,
        sl_order_qty: 0,
        sl_order_trigger: 0,
        target_order_id: None,
        pending_exit_order_id: None,
        pending_exit_qty: 0,
        pending_exit_reason: None,
        entry_cancel_sent: false,
        exit_attempts: 0,
        live_halt: None,
    }
}

fn open_position(
    positions: &mut Vec<MonitoredPosition>,
    effects: &mut Vec<Effect>,
    signal: TradeSignal,
    contract: &ContractLookup,
    price: Option<i64>,
    id: &str,
    created_at: &str,
)
    ensures
        desk(final(positions)@, final(effects)@) == opened(
            desk(old(positions)@, old(effects)@),
            signal@,
            contract@,
            price,
            id@,
            created_at@,
        ),
{
    let ghost d = desk(positions@, effects@);
    match contract {
        ContractLookup::NotLoaded => {
            push_effect(
                effects,
                Effect::Note(
                    notice(NoticeCode::NoContracts, true, signal.instrument_name.as_str()),
                ),
            );
        },
        ContractLookup::Unknown => {
            push_effect(
                effects,
                Effect::Note(
                    notice(NoticeCode::UnknownContract, true, signal.instrument_name.as_str()),
                ),
            );
        },
        ContractLookup::Found(record) => {
            if let Some(px) = price {
                if px > 0 && signal.targets.len() > 0 && px >= signal.targets[0] {
                    let mut n: Notice = notice(
                        NoticeCode::AlreadyAtTarget,
                        true,
                        signal.instrument_name.as_str(),
                    );
                    n.price = px;
                    n.level = signal.targets[0];
                    push_effect(effects, Effect::Note(n));
                    return ;
                }
            }
            push_effect(effects, Effect::Watch { key: scrip_key(record) });
            leave_opposites(positions, &signal);
            let p: MonitoredPosition = make_waiting(signal, record, id, created_at);
            let ghost before = views(positions@);
            let ghost said = p@;
            positions.push(p);
            assert(views(positions@) =~= before.push(said));
        },
    }
}

/// Take in a signal, with the id and the time for a new position given.
///
/// `contract` is what the list of contracts has for the signal, and `price` what the feed has
/// for that contract.
pub fn ingest_signal_with(
    positions: &mut Vec<MonitoredPosition>,
    signal: TradeSignal,
    cfg: &TradingConfig,
    contract: &ContractLookup,
    price: Option<i64>,
    id: &str,
    created_at: &str,
    today: i64,
) -> (res: Vec<Effect>)
    ensures
        desk(final(positions)@, res@) == ingested(
            desk(old(positions)@, Seq::empty()),
            signal@,
            cfg@,
            contract@,
            price,
            id@,
            created_at@,
            today as int,
        ),
{
    let mut effects: Vec<Effect> = Vec::new();
    assert(effects@ =~= Seq::<Effect>::empty());
    let ghost d = desk(positions@, effects@);
    if same_text(signal.action.as_str(), "UPDATE_SL") {
        update_stop(positions, &mut effects, &signal);
        return effects;
    }
    if same_text(signal.action.as_str(), "EXIT_AT") {
        request_exit(positions, &mut effects, &signal);
        return effects;
    }
    if let Some(sig_id) = &signal.signal_id {
        if let Some(i) = find_signal(positions, sig_id.as_str(), false) {
            proof {
                lemma_signal_index(d.positions, sig_id@, false, 0);
            }
            edit_position(&mut positions[i], &signal);
            let mut n: Notice = notice(
                NoticeCode::SignalUpdated,
                false,
                signal.instrument_name.as_str(),
            );
            n.price = signal.stop_loss;
            push_effect(&mut effects, Effect::Note(n));
            assert(views(positions@) =~= edit(d, signal@).positions);
            return effects;
        }
    }
    if !eq_ignore_case(signal.action.as_str(), "BUY") {
        push_effect(
            &mut effects,
            Effect::Note(
                notice(NoticeCode::ShortNotSupported, false, signal.instrument_name.as_str()),
            ),
        );
        return effects;
    }
    if let Some(n) = screen_signal(&signal, cfg, today) {
        push_effect(&mut effects, Effect::Note(n));
        return effects;
    }
    open_position(positions, &mut effects, signal, contract, price, id, created_at);
    effects
}

/// Whether `p` is what the feed shows for a contract, if that can be acted on; there is nothing
/// for a contract that was not found.
pub open spec fn contract_price_seen(
    prices: DashMap<String, i64>,
    contract: ContractLookupView,
    p: Option<i64>,
) -> bool {
    if contract is Found {
        price_seen(prices, feed_key(contract->Found_0), p)
    } else {
        p is None
    }
}

fn contract_price(contract: &ContractLookup, prices: &DashMap<String, i64>) -> (res: Option<i64>)
    ensures
        contract_price_seen(*prices, contract@, res),
{
    match contract {
        ContractLookup::Found(record) => {
            let found: Option<i64> = price_at(prices, scrip_key(record).as_str());
            assert(shows(*prices, feed_key(contract@->Found_0), found));
            match found {
                Some(v) if v > 0 => Some(v),
                _ => None,
            }
        },
        _ => None,
    }
}

/// Take in a signal, with the price that the feed has for its contract, and with a new id and
/// the time of the clock for a new position.
pub fn ingest_signal(
    positions: &mut Vec<MonitoredPosition>,
    signal: TradeSignal,
    cfg: &TradingConfig,
    contract: &ContractLookup,
    prices: &DashMap<String, i64>,
) -> (res: Vec<Effect>)
    ensures
        exists|price: Option<i64>, id: Seq<char>, created_at: Seq<char>, made: IstTime, now: IstTime|
            id.len() == 36 && contract_price_seen(*prices, contract@, price)
                && #[trigger] is_timestamp_of(created_at, made) && made.valid()
                && #[trigger] now.valid() && desk(final(positions)@, res@) == #[trigger] ingested(
                desk(old(positions)@, Seq::empty()),
                signal@,
                cfg@,
                contract@,
                price,
                id,
                created_at,
                now.today(),
            ),
{
    let now: IstTime = now_ist();
    let price: Option<i64> = contract_price(contract, prices);
    let id: String = new_id();
    let created_at: String = current_ist_timestamp_string();
    let ghost made = choose|t: IstTime| #[trigger]
        t.valid() && is_timestamp_of(created_at@, t);
    let ghost said = signal@;
    let res: Vec<Effect> = ingest_signal_with(
        positions,
        signal,
        cfg,
        contract,
        price,
        id.as_str(),
        created_at.as_str(),
        day_of_second(now.secs),
    );
    assert(made.valid() && is_timestamp_of(created_at@, made));
    assert(now.valid() && desk(positions@, res@) == ingested(
        desk(old(positions)@, Seq::empty()),
        said,
        cfg@,
        contract@,
        price,
        id@,
        created_at@,
        now.today(),
    ));
    res
}

// ---------------------------------------------------------------------------
// Laws of taking in signals
// ---------------------------------------------------------------------------

/// No position is opened without a stop and a target, on an expiry that is past, with the
/// kill switch on, or on an option whose lots are zero.
pub proof fn no_unprotected_position_is_opened(
    d: Desk,
    signal: TradeSignalView,
    cfg: TradingConfigView,
    contract: ContractLookupView,
    price: Option<i64>,
    id: Seq<char>,
    created_at: Seq<char>,
    today: int,
)
    ensures
        ({
            let after = ingested(d, signal, cfg, contract, price, id, created_at, today);
            after.positions.len() > d.positions.len() ==> {
                &&& signal.stop_loss > 0
                &&& signal.targets.len() > 0
                &&& !cfg.kill_switch_active
                &&& signal.option_type is Some ==> lots_of(cfg, signal.instrument_name) > 0
                &&& signal.expiry is Some && expiry_read(signal.expiry->0) is Some
                    ==> expiry_read(signal.expiry->0)->0 >= today
                &&& contract is Found
                &&& real_price(price) is Some ==> price->0 < signal.targets[0]
                &&& after.positions.last().state == TradeState::WaitingForEntry
                &&& after.positions.last().executed_qty == 0
            }
        }),
{
    if signal.signal_id is Some {
        lemma_signal_index(d.positions, signal.signal_id->0, false, 0);
        lemma_signal_index(d.positions, signal.signal_id->0, true, 0);
    }
}

/// No signal takes a position off the list, and none changes what is held.
pub proof fn signals_never_touch_holdings(
    d: Desk,
    signal: TradeSignalView,
    cfg: TradingConfigView,
    contract: ContractLookupView,
    price: Option<i64>,
    id: Seq<char>,
    created_at: Seq<char>,
    today: int,
    j: int,
)
    requires
        0 <= j < d.positions.len(),
    ensures
        ({
            let after = ingested(d, signal, cfg, contract, price, id, created_at, today);
            &&& after.positions.len() >= d.positions.len()
            &&& after.positions[j].id == d.positions[j].id
            &&& after.positions[j].executed_qty == d.positions[j].executed_qty
            &&& after.positions[j].avg_buy_price == d.positions[j].avg_buy_price
            &&& after.positions[j].state == d.positions[j].state
        }),
{
    if signal.signal_id is Some {
        lemma_signal_index(d.positions, signal.signal_id->0, false, 0);
        lemma_signal_index(d.positions, signal.signal_id->0, true, 0);
    }
}

/// An edit of the entry of a signal forces its position out; any other edit leaves forced
/// exits alone.
pub proof fn edited_entry_forces_an_exit(p: MonitoredPositionView, signal: TradeSignalView)
    ensures
        p.signal.entry_price != signal.entry_price || p.signal.entry_condition
            != signal.entry_condition ==> edited(p, signal).force_exit is Some && edited(
            p,
            signal,
        ).signal == p.signal,
        p.signal.entry_price == signal.entry_price && p.signal.entry_condition
            == signal.entry_condition ==> edited(p, signal).force_exit == p.force_exit,
{
}

/// A command that matches no position is reported loudly and changes nothing.
pub proof fn unmatched_commands_are_loud(d: Desk, signal: TradeSignalView, id: Seq<char>)
    requires
        signal.signal_id == Some(id),
        forall|j: int|
            0 <= j < d.positions.len() ==> (#[trigger] d.positions[j]).signal.signal_id != Some(
                id,
            ),
    ensures
        stop_update(d, signal).positions == d.positions,
        exit_request(d, signal).positions == d.positions,
        stop_update(d, signal).effects.last() matches EffectView::Note(n) && n.loud,
        exit_request(d, signal).effects.last() matches EffectView::Note(n) && n.loud,
{
    lemma_signal_index(d.positions, id, false, 0);
    lemma_signal_index(d.positions, id, true, 0);
}

/// Whether a signal is about a position in particular: it bears the id of the signal that the
/// position came of.
pub open spec fn names_position(signal: TradeSignalView, p: MonitoredPositionView) -> bool {
    signal.signal_id is Some && p.signal.signal_id == signal.signal_id
}

/// A position on an instrument of another name, compared without case, is left exactly as it
/// is by any signal but one that bears the id of its own.
pub proof fn other_instruments_are_left_alone(
    d: Desk,
    signal: TradeSignalView,
    cfg: TradingConfigView,
    contract: ContractLookupView,
    price: Option<i64>,
    id: Seq<char>,
    created_at: Seq<char>,
    today: int,
    j: int,
)
    requires
        0 <= j < d.positions.len(),
        !same_but_case(d.positions[j].signal.instrument_name, signal.instrument_name),
        !names_position(signal, d.positions[j]),
    ensures
        ingested(d, signal, cfg, contract, price, id, created_at, today).positions[j]
            == d.positions[j],
{
    if signal.signal_id is Some {
        lemma_signal_index(d.positions, signal.signal_id->0, false, 0);
        lemma_signal_index(d.positions, signal.signal_id->0, true, 0);
    }
}

/// A call to buy that opens a position forces out exactly those open positions on the same
/// instrument that are an option of the other type or were called with another action; of
/// those nothing but the forced exit changes, and every other position stays as it is.
pub proof fn opposites_are_forced_out(
    d: Desk,
    signal: TradeSignalView,
    cfg: TradingConfigView,
    contract: ContractLookupView,
    price: Option<i64>,
    id: Seq<char>,
    created_at: Seq<char>,
    today: int,
    j: int,
)
    requires
        0 <= j < d.positions.len(),
        ingested(d, signal, cfg, contract, price, id, created_at, today).positions.len()
            > d.positions.len(),
    ensures
        ({
            let p = d.positions[j];
            let q = ingested(d, signal, cfg, contract, price, id, created_at, today).positions[j];
            let same_name = same_but_case(p.signal.instrument_name, signal.instrument_name);
            let other_type = p.signal.option_type is Some && signal.option_type is Some
                && p.signal.option_type->0 != signal.option_type->0;
            let other_action = p.signal.action != signal.action;
            &&& same_name && p.state != TradeState::Closed && (other_type || other_action)
                ==> q.force_exit is Some && q == (MonitoredPositionView {
                force_exit: q.force_exit,
                ..p
            })
            &&& !same_name || p.state == TradeState::Closed || (!other_type && !other_action)
                ==> q == p
        }),
{
    if signal.signal_id is Some {
        lemma_signal_index(d.positions, signal.signal_id->0, false, 0);
        lemma_signal_index(d.positions, signal.signal_id->0, true, 0);
    }
}

/// A call to buy is taken where nothing speaks against it: it is the first with its id, it has
/// a stop and a target, its expiry is not past, the kill switch is off, an option has lots, its
/// contract is known, and the price, if there is one, is short of target 1. One position more
/// is then on the list, and the price feed is asked for its contract.
pub proof fn sound_calls_are_taken(
    d: Desk,
    signal: TradeSignalView,
    cfg: TradingConfigView,
    record: ScripRecordView,
    price: Option<i64>,
    id: Seq<char>,
    created_at: Seq<char>,
    today: int,
)
    requires
        same_but_case(signal.action, "BUY"@),
        forall|j: int|
            0 <= j < d.positions.len() ==> !names_position(signal, #[trigger] d.positions[j]),
        signal.stop_loss > 0,
        signal.targets.len() > 0,
        signal.expiry is Some && expiry_read(signal.expiry->0) is Some ==> today <= expiry_read(
            signal.expiry->0,
        )->0,
        !cfg.kill_switch_active,
        signal.option_type is Some ==> lots_of(cfg, signal.instrument_name) > 0,
        price is Some ==> price->0 <= 0 || price->0 < signal.targets[0],
    ensures
        ({
            let after = ingested(
                d,
                signal,
                cfg,
                ContractLookupView::Found(record),
                price,
                id,
                created_at,
                today,
            );
            let p = after.positions.last();
            &&& after.positions.len() == d.positions.len() + 1
            &&& after.effects.len() == d.effects.len() + 1
            &&& after.effects.last() matches EffectView::Watch { key }
            &&& p.ws_scrip_key == Some(key)
            &&& key == record.exchange_segment_code + "|"@ + record.instrument_token
            &&& p.id == id && p.created_at == created_at && p.signal == signal
            &&& p.state == TradeState::WaitingForEntry
            &&& p.current_sl == signal.stop_loss && p.tick_size == record.tick_size
            &&& p.resolved_order matches Some(o)
            &&& o.trading_symbol == record.trading_symbol
            &&& is_blank(p)
        }),
{
    lemma_buy_is_no_command(signal.action);
    if signal.signal_id is Some {
        lemma_signal_index(d.positions, signal.signal_id->0, false, 0);
        assert(!is_edit(d.positions, signal)) by {
            if is_edit(d.positions, signal) {
                let i = signal_index(d.positions, signal.signal_id->0, false, 0);
                assert(names_position(signal, d.positions[i]));
            }
        }
    }
}

/// Whether a position has no history: nothing was held, ordered, asked for or counted.
pub open spec fn is_blank(p: MonitoredPositionView) -> bool {
    &&& p.executed_qty == 0 && p.avg_buy_price == 0 && p.override_qty is None
    &&& p.peak_ltp is None && p.next_dynamic_target is None && p.last_dynamic_rung is None
        && p.dynamic_rung_number == 0
    &&& p.manual_sell_qty is None && p.ltp is None
    &&& p.force_exit is None && p.override_exit_price is None
    &&& p.entry_order_id is None && !p.entry_cancel_sent
    &&& p.sl_order_id is None && p.sl_order_qty == 0 && p.sl_order_trigger == 0
    &&& p.target_order_id is None
    &&& p.pending_exit_order_id is None && p.pending_exit_qty == 0 && p.pending_exit_reason is None
    &&& p.exit_attempts == 0 && p.live_halt is None
}

proof fn lemma_buy_is_no_command(action: Seq<char>)
    requires
        same_but_case(action, "BUY"@),
    ensures
        action != "UPDATE_SL"@,
        action != "EXIT_AT"@,
{
    reveal_strlit("BUY");
    reveal_strlit("UPDATE_SL");
    reveal_strlit("EXIT_AT");
    assert(action.map_values(|c: char| ascii_lower(c)).len() == "BUY"@.map_values(
        |c: char| ascii_lower(c),
    ).len());
    assert("UPDATE_SL"@.len() != 3 && "EXIT_AT"@.len() != 3);
}

/// A call that is not taken changes no position and is reported, and so is anything that is
/// neither a command, nor an edit, nor a call to buy.
pub proof fn calls_that_are_not_taken_are_reported(
    d: Desk,
    signal: TradeSignalView,
    cfg: TradingConfigView,
    contract: ContractLookupView,
    price: Option<i64>,
    id: Seq<char>,
    created_at: Seq<char>,
    today: int,
)
    requires
        signal.action != "UPDATE_SL"@,
        signal.action != "EXIT_AT"@,
        forall|j: int|
            0 <= j < d.positions.len() ==> !names_position(signal, #[trigger] d.positions[j]),
    ensures
        ({
            let after = ingested(d, signal, cfg, contract, price, id, created_at, today);
            after.positions.len() <= d.positions.len() ==> {
                &&& after.positions == d.positions
                &&& after.effects.len() == d.effects.len() + 1
                &&& after.effects.last() matches EffectView::Note(n)
                &&& n.instrument == signal.instrument_name
                &&& signal.stop_loss <= 0 && same_but_case(signal.action, "BUY"@) ==> n.loud
            }
        }),
        !same_but_case(signal.action, "BUY"@) ==> ingested(
            d,
            signal,
            cfg,
            contract,
            price,
            id,
            created_at,
            today,
        ).positions == d.positions,
{
    if signal.signal_id is Some {
        lemma_signal_index(d.positions, signal.signal_id->0, false, 0);
        assert(!is_edit(d.positions, signal)) by {
            if is_edit(d.positions, signal) {
                let i = signal_index(d.positions, signal.signal_id->0, false, 0);
                assert(names_position(signal, d.positions[i]));
            }
        }
    }
}

/// Whether `i` is the first position that came of the signal `id`, closed ones aside if only
/// open ones count.
pub open spec fn is_first_of(
    ps: Seq<MonitoredPositionView>,
    id: Seq<char>,
    open_only: bool,
    i: int,
) -> bool {
    &&& 0 <= i < ps.len()
    &&& ps[i].signal.signal_id == Some(id)
    &&& open_only ==> ps[i].state != TradeState::Closed
    &&& forall|j: int|
        0 <= j < i && (#[trigger] ps[j]).signal.signal_id == Some(id) ==> open_only && ps[j].state
            == TradeState::Closed
}

/// A command to move a stop moves that of the first position that came of its signal, both the
/// one in force and the one of the signal, to the stop that it names; nothing else changes.
pub proof fn stop_commands_move_one_stop(
    d: Desk,
    signal: TradeSignalView,
    cfg: TradingConfigView,
    contract: ContractLookupView,
    price: Option<i64>,
    id: Seq<char>,
    created_at: Seq<char>,
    today: int,
    i: int,
)
    requires
        signal.action == "UPDATE_SL"@,
        signal.signal_id is Some,
        is_first_of(d.positions, signal.signal_id->0, false, i),
    ensures
        ({
            let after = ingested(d, signal, cfg, contract, price, id, created_at, today).positions;
            let p = d.positions[i];
            let q = after[i];
            &&& after.len() == d.positions.len()
            &&& forall|j: int|
                0 <= j < after.len() && j != i ==> #[trigger] after[j] == d.positions[j]
            &&& q.current_sl == signal.stop_loss && q.signal.stop_loss == signal.stop_loss
            &&& q == (MonitoredPositionView { current_sl: q.current_sl, signal: q.signal, ..p })
            &&& q.signal == (TradeSignalView { stop_loss: q.signal.stop_loss, ..p.signal })
        }),
{
    lemma_signal_index(d.positions, signal.signal_id->0, false, 0);
    let k = signal_index(d.positions, signal.signal_id->0, false, 0);
    assert(came_of(d.positions[i], signal.signal_id->0, false));
    assert(k == i) by {
        if k < i {
            assert(d.positions[k].signal.signal_id == Some(signal.signal_id->0));
        }
    }
}

/// A command to leave forces out the first open position that came of its signal, to be booked
/// at the price that it names; nothing else changes.
pub proof fn exit_commands_force_one_exit(
    d: Desk,
    signal: TradeSignalView,
    cfg: TradingConfigView,
    contract: ContractLookupView,
    price: Option<i64>,
    id: Seq<char>,
    created_at: Seq<char>,
    today: int,
    i: int,
)
    requires
        signal.action == "EXIT_AT"@,
        signal.signal_id is Some,
        is_first_of(d.positions, signal.signal_id->0, true, i),
    ensures
        ({
            let after = ingested(d, signal, cfg, contract, price, id, created_at, today).positions;
            let p = d.positions[i];
            let q = after[i];
            &&& after.len() == d.positions.len()
            &&& forall|j: int|
                0 <= j < after.len() && j != i ==> #[trigger] after[j] == d.positions[j]
            &&& q.override_exit_price == Some(signal.entry_price)
            &&& q.force_exit == Some("EXIT_AT_"@ + two_places(signal.entry_price as int))
            &&& q == (MonitoredPositionView {
                override_exit_price: q.override_exit_price,
                force_exit: q.force_exit,
                ..p
            })
        }),
{
    reveal_strlit("EXIT_AT");
    reveal_strlit("UPDATE_SL");
    assert("EXIT_AT"@.len() != "UPDATE_SL"@.len());
    lemma_signal_index(d.positions, signal.signal_id->0, true, 0);
    let k = signal_index(d.positions, signal.signal_id->0, true, 0);
    assert(came_of(d.positions[i], signal.signal_id->0, true));
    assert(k == i) by {
        if k < i {
            assert(d.positions[k].signal.signal_id == Some(signal.signal_id->0));
        }
    }
}

/// A signal that comes again is an edit of the first position that came of it: no other
/// position changes and none is added. Without a change of the entry the position takes over
/// the stop and the targets, and the stop in force as well until target 1 was hit; with one it
/// is forced out as it stands.
pub proof fn edits_are_taken_over(
    d: Desk,
    signal: TradeSignalView,
    cfg: TradingConfigView,
    contract: ContractLookupView,
    price: Option<i64>,
    id: Seq<char>,
    created_at: Seq<char>,
    today: int,
    i: int,
)
    requires
        signal.action != "UPDATE_SL"@,
        signal.action != "EXIT_AT"@,
        signal.signal_id is Some,
        is_first_of(d.positions, signal.signal_id->0, false, i),
    ensures
        ({
            let after = ingested(d, signal, cfg, contract, price, id, created_at, today).positions;
            let p = d.positions[i];
            let q = after[i];
            let same_entry = p.signal.entry_price == signal.entry_price
                && p.signal.entry_condition == signal.entry_condition;
            &&& after.len() == d.positions.len()
            &&& forall|j: int|
                0 <= j < after.len() && j != i ==> #[trigger] after[j] == d.positions[j]
            &&& !same_entry ==> q.force_exit is Some && q == (MonitoredPositionView {
                force_exit: q.force_exit,
                ..p
            })
            &&& same_entry ==> {
                &&& q.signal.stop_loss == signal.stop_loss
                &&& q.signal.targets == signal.targets
                &&& q.signal == (TradeSignalView {
                    stop_loss: q.signal.stop_loss,
                    targets: q.signal.targets,
                    ..p.signal
                })
                &&& p.state == TradeState::WaitingForEntry || p.state == TradeState::Active
                    ==> q.current_sl == signal.stop_loss
                &&& p.state == TradeState::Target1Hit || p.state == TradeState::Closed
                    ==> q.current_sl == p.current_sl
                &&& q == (MonitoredPositionView { current_sl: q.current_sl, signal: q.signal, ..p })
            }
        }),
{
    lemma_signal_index(d.positions, signal.signal_id->0, false, 0);
    let k = signal_index(d.positions, signal.signal_id->0, false, 0);
    assert(came_of(d.positions[i], signal.signal_id->0, false));
    assert(k == i) by {
        if k < i {
            assert(d.positions[k].signal.signal_id == Some(signal.signal_id->0));
        }
    }
}

/// A command without the id of a signal is ignored.
pub proof fn nameless_commands_are_ignored(
    d: Desk,
    signal: TradeSignalView,
    cfg: TradingConfigView,
    contract: ContractLookupView,
    price: Option<i64>,
    id: Seq<char>,
    created_at: Seq<char>,
    today: int,
)
    requires
        signal.action == "UPDATE_SL"@ || signal.action == "EXIT_AT"@,
        signal.signal_id is None,
    ensures
        ingested(d, signal, cfg, contract, price, id, created_at, today) == d,
{
}

/// Each reason not to take a call has its own report; the first that applies is given, in this
/// order: no stop, no target, an expiry that is past, the kill switch, and no lots for an
/// option. All but the kill switch need a human.
pub proof fn each_refusal_has_its_report(
    signal: TradeSignalView,
    cfg: TradingConfigView,
    today: int,
)
    ensures
        ({
            let s = screened(signal, cfg, today);
            let past = signal.expiry is Some && expiry_read(signal.expiry->0) is Some
                && expiry_read(signal.expiry->0)->0 < today;
            let lots = signal.option_type is None || lots_of(cfg, signal.instrument_name) > 0;
            &&& signal.stop_loss <= 0 ==> refused_for(s, NoticeCode::SignalWithoutStop, true, signal)
            &&& signal.stop_loss > 0 && signal.targets.len() == 0 ==> refused_for(
                s,
                NoticeCode::SignalWithoutTarget,
                true,
                signal,
            )
            &&& signal.stop_loss > 0 && signal.targets.len() > 0 && past ==> refused_for(
                s,
                NoticeCode::SignalExpired,
                true,
                signal,
            ) && s->0.detail == signal.expiry->0
            &&& signal.stop_loss > 0 && signal.targets.len() > 0 && !past && cfg.kill_switch_active
                ==> refused_for(s, NoticeCode::KillSwitchBlocked, false, signal)
            &&& signal.stop_loss > 0 && signal.targets.len() > 0 && !past
                && !cfg.kill_switch_active && !lots ==> refused_for(
                s,
                NoticeCode::LotsAreZero,
                true,
                signal,
            )
            &&& signal.stop_loss > 0 && signal.targets.len() > 0 && !past
                && !cfg.kill_switch_active && lots ==> s is None
        }),
{
}

/// Whether a call was refused with a report of its own on its instrument.
pub open spec fn refused_for(
    s: Option<NoticeView>,
    code: NoticeCode,
    loud: bool,
    signal: TradeSignalView,
) -> bool {
    s matches Some(n) && n.code == code && n.loud == loud && n.instrument
        == signal.instrument_name
}

/// A call that is sound by itself is still not taken where its contract is not known, or where
/// the price is at target 1 already; either is loud, and no position changes.
pub proof fn unknown_or_spent_contracts_are_not_taken(
    d: Desk,
    signal: TradeSignalView,
    contract: ContractLookupView,
    price: Option<i64>,
    id: Seq<char>,
    created_at: Seq<char>,
)
    requires
        !(contract is Found) || (price is Some && price->0 > 0 && signal.targets.len() > 0
            && price->0 >= signal.targets[0]),
    ensures
        ({
            let after = opened(d, signal, contract, price, id, created_at);
            &&& after.positions == d.positions
            &&& after.effects.len() == d.effects.len() + 1
            &&& after.effects.last() matches EffectView::Note(n)
            &&& n.loud && n.instrument == signal.instrument_name
            &&& contract is Found ==> n.price == price->0 && n.level == signal.targets[0]
        }),
{
}

/// A command or an edit that was taken in is reported quietly with the price that it names.
pub proof fn commands_are_reported(d: Desk, signal: TradeSignalView, i: int)
    requires
        signal.signal_id is Some,
        is_first_of(d.positions, signal.signal_id->0, true, i),
    ensures
        stop_update(d, signal).effects.last() matches EffectView::Note(n) && !n.loud && n.code
            == NoticeCode::SignalUpdated && n.price == signal.stop_loss,
        exit_request(d, signal).effects.last() matches EffectView::Note(n) && !n.loud && n.code
            == NoticeCode::SignalExited && n.price == signal.entry_price,
        edit(d, signal).effects.last() matches EffectView::Note(n) && !n.loud && n.code
            == NoticeCode::SignalUpdated && n.price == signal.stop_loss && n.instrument
            == signal.instrument_name,
{
    lemma_signal_index(d.positions, signal.signal_id->0, true, 0);
    lemma_signal_index(d.positions, signal.signal_id->0, false, 0);
    assert(came_of(d.positions[i], signal.signal_id->0, true));
    assert(came_of(d.positions[i], signal.signal_id->0, false));
}

/// A call is taken at a positive price that the feed shows for its contract; without a contract
/// there is no price.
pub proof fn calls_are_priced_by_their_contract(
    prices: DashMap<String, i64>,
    contract: ContractLookupView,
    p: Option<i64>,
)
    requires
        contract_price_seen(prices, contract, p),
    ensures
        p is Some ==> contract is Found && p->0 > 0 && readings(prices).contains(
            (feed_key(contract->Found_0), p),
        ),
        contract is Found && p is None ==> exists|v: Option<i64>|
            #[trigger] readings(prices).contains((feed_key(contract->Found_0), v)) && (v is None
                || v->0 <= 0),
{
    if contract is Found {
        let v = choose|v: Option<i64>| #[trigger]
            shows(prices, feed_key(contract->Found_0), v) && p == real_price(v);
        assert(readings(prices).contains((feed_key(contract->Found_0), v)));
    }
}

} // verus!
