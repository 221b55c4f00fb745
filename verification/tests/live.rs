use auto_trader::broker::{KotakError, KotakLimits, KotakOrder, KotakPosition};
use auto_trader::clock::{current_ist_timestamp_string, ist_timestamp_at, now_ist, IstTime};
use auto_trader::decide::{decide_live_at, is_expiry_squareoff_due, LiveAction};
use auto_trader::desk::{
    find_position, forget_stop, notice, trade_message, trade_profit, trading_symbol, wallet_delta,
    Effect, NoticeCode, TradeFill,
};
use auto_trader::domain::{
    AmoFlag, ChargeBreakdown, DbWriteMessage, ExchangeSegment, LotTable, MonitoredPosition,
    OrderRequest, OrderType, ProductCode, TradeSignal, TradeState, TradingConfig,
    TransactionType, Validity,
};
use auto_trader::execute::{
    after_book, after_cancel, after_limits, after_place, begin_action, CancelPurpose,
    LivePending, LiveStep, OrderFault, PlacePurpose,
};
use auto_trader::orders::{build_market_order, build_prompt_sale};
use auto_trader::report::{
    error_line, event_name, level_name, notice_line, notice_words, orphan_line, orphan_words,
    remainder_words, trade_line, LineField, LineValue,
};
use auto_trader::settle::{live_legs, reconcile_live_orders, settle_legs};
use auto_trader::startup::{
    is_doubled, reconcile_on_startup, symbol_watched, watched_positions,
};
use auto_trader::tick::{
    decide_all, drop_closed, orphan_orders, poll_due, read_prices, tick_work, trail_all,
    TickWork,
};
use dashmap::DashMap;

/// An amount of money, or a factor, in millionths.
fn m(x: f64) -> i64 {
    (x * 1_000_000.0).round() as i64
}

fn text(s: &str) -> String {
    s.to_string()
}

fn position_created_at(created_at: &str) -> MonitoredPosition {
    MonitoredPosition {
        id: text("test"),
        signal: TradeSignal {
            instrument_name: text("NIFTY"),
            strike: Some(m(25000.0)),
            option_type: Some(text("CE")),
            expiry: None,
            action: text("BUY"),
            entry_condition: text("ABOVE"),
            entry_price: m(120.0),
            targets: vec![m(140.0), m(160.0)],
            stop_loss: m(100.0),
            source: text("test"),
            signal_id: None,
            raw_message: None,
        },
        state: TradeState::WaitingForEntry,
        created_at: text(created_at),
        current_sl: m(100.0),
        peak_ltp: None,
        next_dynamic_target: None,
        last_dynamic_rung: None,
        dynamic_rung_number: 0,
        manual_sell_qty: None,
        executed_qty: 0,
        avg_buy_price: 0,
        override_qty: None,
        resolved_order: None,
        ltp: None,
        ws_scrip_key: None,
        force_exit: None,
        override_exit_price: None,
        tick_size: m(0.05),
        entry_order_id: None,
        sl_order_id: None,
        sl_order_qty: 0,
        sl_order_trigger: 0,
        target_order_id: None,
        pending_exit_order_id: None,
        pending_exit_qty: 0,
        pending_exit_reason: None,
        entry_cancel_sent: false,
        exit_attempts: 0,
        live_halt: None,
    }
}

fn cfg_with_lots(index_lots: i32, other_lots: i32) -> TradingConfig {
    TradingConfig {
        max_trade_amount_inr: m(15_000.0),
        index_lots,
        other_lots,
        index_lots_by_symbol: LotTable::new(),
        mode: text("PAPER"),
        brokerage_per_order: m(20.0),
        target_1_exit_pct: m(50.0),
        target_2_exit_pct: m(100.0),
        entry_market_protection: m(5.0),
        dynamic_targeting: false,
        dynamic_targeting_trail_factor: m(0.5),
        dynamic_targeting_extension_factor: m(1.0),
        pre_t1_trailing: false,
        pre_t1_trail_arm_pct: m(60.0),
        pre_t1_trail_factor: m(0.5),
        kill_switch_active: false,
    }
}

/// A held position: bought at 120, with targets at 140 and 160 and a stop at 100.
fn active_position() -> MonitoredPosition {
    let mut pos = position_created_at(&current_ist_timestamp_string());
    pos.state = TradeState::Active;
    pos.avg_buy_price = m(120.0);
    pos.executed_qty = 75;
    pos
}

fn dummy_order_request() -> OrderRequest {
    OrderRequest {
        after_market_order: AmoFlag::No,
        disclosed_quantity: text("0"),
        exchange_segment: ExchangeSegment::NseFo,
        market_protection: text("0"),
        product_code: ProductCode::Nrml,
        portfolio_flag: text("N"),
        price: text("0"),
        order_type: OrderType::Limit,
        quantity: text("75"),
        validity: Validity::Day,
        trigger_price: text("0"),
        trading_symbol: text("NIFTY24JUL25000CE"),
        transaction_type: TransactionType::Buy,
    }
}

fn some(s: &str) -> Option<String> {
    Some(text(s))
}

fn live_position() -> MonitoredPosition {
    let mut pos = active_position();
    pos.resolved_order = Some(dummy_order_request());
    pos
}

fn row(no: &str, status: &str, qty: i32, filled: i32, price: f64, side: &str) -> KotakOrder {
    KotakOrder {
        order_no: text(no),
        status: text(status),
        trading_symbol: text("NIFTY24JUL25000CE"),
        transaction_type: text(side),
        order_type: text("MKT"),
        quantity: qty.to_string(),
        filled_quantity: filled.to_string(),
        average_price: price.to_string(),
        trigger_price: text("101.5"),
        reject_reason: text("why"),
    }
}

fn codes(effects: &Vec<Effect>) -> Vec<NoticeCode> {
    effects
        .iter()
        .filter_map(|e| match e {
            Effect::Note(n) => Some(n.code),
            _ => None,
        })
        .collect()
}

fn first_trade(effects: &Vec<Effect>) -> &TradeFill {
    effects
        .iter()
        .find_map(|e| match e {
            Effect::Trade(f) => Some(f),
            _ => None,
        })
        .unwrap()
}

fn words_of(effects: &Vec<Effect>) -> Vec<String> {
    effects
        .iter()
        .filter_map(|e| match e {
            Effect::Note(n) => Some(notice_words(n)),
            _ => None,
        })
        .collect()
}

// Settling ------------------------------------------------------------------

#[test]
fn a_filled_entry_opens_the_position() {
    let mut p = live_position();
    p.state = TradeState::WaitingForEntry;
    p.executed_qty = 0;
    p.avg_buy_price = 0;
    p.entry_order_id = some("E1");
    let mut ps = vec![p];
    let (changed, effects) =
        reconcile_live_orders(&mut ps, &vec![row(" E1 ", "complete", 75, 75, 121.5, "B")]);
    assert!(changed);
    assert_eq!(ps[0].state, TradeState::Active);
    assert_eq!((ps[0].executed_qty, ps[0].avg_buy_price), (75, m(121.5)));
    assert_eq!(ps[0].entry_order_id, None);
    let f = first_trade(&effects);
    assert!(f.buy && f.is_options);
    assert_eq!((f.qty, f.price, f.reason.as_str(), f.mode.as_str()), (75, m(121.5), "ENTRY", "LIVE"));
    assert!(codes(&effects).is_empty());
}

#[test]
fn a_partly_filled_entry_is_kept_and_reported() {
    let mut p = live_position();
    p.state = TradeState::WaitingForEntry;
    p.entry_order_id = some("E1");
    let mut ps = vec![p.clone()];
    let (_, effects) =
        reconcile_live_orders(&mut ps, &vec![row("E1", "cancelled", 150, 75, 0.0, "B")]);
    assert_eq!(ps[0].avg_buy_price, m(120.0));
    assert_eq!(codes(&effects), vec![NoticeCode::EntryPriceMissing, NoticeCode::EntryPartlyFilled]);
    assert_eq!(
        words_of(&effects),
        vec![
            "entry order E1 filled 75 but the broker reported no average price — booking it at the signal entry 120.00, verify against the contract note",
            "entry order E1 filled only 75 of 150 — running the position on the filled quantity",
        ]
    );
    // While it still works, the rest of it is called back once.
    let mut ps = vec![p];
    let (changed, effects) =
        reconcile_live_orders(&mut ps, &vec![row("E1", "open", 150, 75, 120.0, "B")]);
    assert!(changed && ps[0].entry_cancel_sent);
    assert!(matches!(&effects[0], Effect::Cancel { order_id, .. } if order_id == "E1"));
    let (changed, effects) =
        reconcile_live_orders(&mut ps, &vec![row("E1", "open", 150, 75, 120.0, "B")]);
    assert!(!changed && effects.is_empty());
}

#[test]
fn an_entry_with_nothing_filled_is_dropped() {
    let mut p = live_position();
    p.state = TradeState::WaitingForEntry;
    p.entry_order_id = some("E1");
    let mut ps = vec![p];
    let (_, effects) =
        reconcile_live_orders(&mut ps, &vec![row("E1", "rejected", 75, 0, 0.0, "B")]);
    assert_eq!(ps[0].state, TradeState::Closed);
    assert_eq!(
        words_of(&effects),
        vec!["entry order E1 came back rejected (why) with nothing filled — signal dropped"]
    );
}

#[test]
fn a_filled_stop_closes_the_position() {
    let mut p = live_position();
    p.sl_order_id = some("S1");
    p.force_exit = some("X");
    let mut ps = vec![p.clone()];
    let (_, effects) =
        reconcile_live_orders(&mut ps, &vec![row("S1", "complete", 75, 75, 99.0, "S")]);
    assert_eq!((ps[0].state, ps[0].executed_qty), (TradeState::Closed, 0));
    assert_eq!(ps[0].force_exit, None);
    assert_eq!(first_trade(&effects).reason, "SL_HIT");
    p.state = TradeState::Target1Hit;
    let mut ps = vec![p.clone()];
    let (_, effects) =
        reconcile_live_orders(&mut ps, &vec![row("S1", "complete", 75, 75, 99.0, "S")]);
    assert_eq!(first_trade(&effects).reason, "TRAIL_SL_HIT");
    // Without numbers it is reported, and without the order the stop is forgotten.
    let mut ps = vec![p.clone()];
    let (_, effects) =
        reconcile_live_orders(&mut ps, &vec![row("S1", "complete", 75, 75, 0.0, "S")]);
    assert_eq!(
        words_of(&effects),
        vec!["stop-loss order S1 reports complete but gave no usable fill data (qty 75, avg 0) — reconcile the position manually"]
    );
    let mut ps = vec![p];
    let (_, effects) =
        reconcile_live_orders(&mut ps, &vec![row("S1", "cancelled", 75, 0, 0.0, "S")]);
    assert_eq!(ps[0].sl_order_id, None);
    assert_eq!(codes(&effects), vec![NoticeCode::StopGone]);
}

fn selling() -> MonitoredPosition {
    let mut p = live_position();
    p.executed_qty = 150;
    p.pending_exit_order_id = some("X1");
    p.pending_exit_qty = 150;
    p.pending_exit_reason = some("SL_HIT");
    p
}

#[test]
fn a_cancelled_sale_is_tried_again_without_counting() {
    let mut ps = vec![selling()];
    let (changed, effects) =
        reconcile_live_orders(&mut ps, &vec![row("X1", "cancelled", 150, 0, 0.0, "S")]);
    assert!(changed);
    assert_eq!(codes(&effects), vec![NoticeCode::ExitUnfilled]);
    assert_eq!(ps[0].exit_attempts, 0);
    assert_eq!(ps[0].force_exit, None);
    assert_eq!(ps[0].pending_exit_order_id, None);
}

#[test]
fn a_rejected_sale_counts_and_is_forced() {
    let mut ps = vec![selling()];
    let (_, effects) =
        reconcile_live_orders(&mut ps, &vec![row("X1", "rejected", 150, 75, 98.0, "S")]);
    assert_eq!(ps[0].executed_qty, 75);
    assert_eq!(ps[0].exit_attempts, 1);
    assert_eq!(ps[0].force_exit, some("SL_HIT_SHORTFALL"));
    assert_eq!(first_trade(&effects).qty, 75);
    assert_eq!(
        words_of(&effects),
        vec!["exit order X1 (SL_HIT) filled 75 of 150 — squaring off the remainder"]
    );
    let mut ps = vec![selling()];
    let (_, effects) =
        reconcile_live_orders(&mut ps, &vec![row("X1", "complete", 150, 150, 98.0, "S")]);
    assert_eq!(ps[0].state, TradeState::Closed);
    assert!(codes(&effects).is_empty());
}

#[test]
fn nothing_in_the_book_changes_nothing() {
    let mut ps = vec![selling(), live_position()];
    assert_eq!(live_legs(&ps).len(), 1);
    let legs = live_legs(&ps);
    let (changed, effects) = settle_legs(&mut ps, &legs, &vec![]);
    assert!(!changed && effects.is_empty());
    assert_eq!(ps.len(), 2);
}

// Carrying out --------------------------------------------------------------

fn pending(action: LiveAction) -> LivePending {
    LivePending { pos_id: text("test"), action }
}

fn rejected(message: &str) -> Result<String, OrderFault> {
    Err(OrderFault::Broker(KotakError::OrderRejected {
        status_code: 1,
        message: text(message),
    }))
}

fn limits(net: f64) -> KotakLimits {
    KotakLimits { net: m(net), margin_used: 0, collateral_value: 0 }
}

#[test]
fn an_entry_is_paid_for_before_it_is_placed() {
    let mut p = live_position();
    p.state = TradeState::WaitingForEntry;
    let cfg = cfg_with_lots(1, 1);
    let action = || pending(LiveAction::PlaceEntry { qty: 75, ltp: m(100.0) });

    // 7,500 and the buffer of 500 are needed.
    let mut ps = vec![p.clone()];
    let (step, _) = begin_action(&mut ps, &action());
    let run = match step {
        LiveStep::ReadLimits { run } => run,
        other => panic!("{:?}", other),
    };
    let (step, effects) = after_limits(&mut ps, &cfg, run, Ok(limits(7_999.99)));
    assert!(matches!(step, LiveStep::Done { changed: true }));
    assert_eq!(ps[0].state, TradeState::Closed);
    assert_eq!(
        words_of(&effects),
        vec!["not enough funds for 75 @ ~₹100.00: needs ₹8000.00 (₹7500.00 order + ₹500 buffer) but only ₹7999.99 is available — signal dropped"]
    );

    let mut ps = vec![p.clone()];
    let (step, _) = begin_action(&mut ps, &action());
    let run = match step {
        LiveStep::ReadLimits { run } => run,
        other => panic!("{:?}", other),
    };
    let (step, _) = after_limits(&mut ps, &cfg, run, Ok(limits(8_000.0)));
    let (order, purpose, run) = match step {
        LiveStep::Place { order, purpose, run } => (order, purpose, run),
        other => panic!("{:?}", other),
    };
    assert_eq!(purpose, PlacePurpose::Entry);
    assert_eq!(order.quantity, "75");
    assert_eq!(order.market_protection, "5");
    assert_eq!(order.order_type, OrderType::Market);
    assert_eq!(order.transaction_type, TransactionType::Buy);
    let (step, effects) = after_place(&mut ps, purpose, run, Ok(text("E9")));
    assert!(matches!(step, LiveStep::Done { .. }));
    assert_eq!(ps[0].entry_order_id, some("E9"));
    assert_eq!(codes(&effects), vec![NoticeCode::EntryPlaced]);

    // Funds that cannot be read are taken for missing.
    let mut ps = vec![p];
    let (step, _) = begin_action(&mut ps, &action());
    let run = match step {
        LiveStep::ReadLimits { run } => run,
        other => panic!("{:?}", other),
    };
    let (_, effects) = after_limits(&mut ps, &cfg, run, Err(text("timeout")));
    assert_eq!(ps[0].state, TradeState::Closed);
    assert_eq!(codes(&effects), vec![NoticeCode::FundsUnread]);
}

#[test]
fn an_exit_waits_for_the_stop_to_go() {
    let mut p = live_position();
    p.sl_order_id = some("S1");
    let action = || pending(LiveAction::ExitAll { qty: 75, reason: text("SL_HIT") });

    let mut ps = vec![p.clone()];
    let (step, _) = begin_action(&mut ps, &action());
    let (aim, run) = match step {
        LiveStep::Cancel { aim, run } => (aim, run),
        other => panic!("{:?}", other),
    };
    assert_eq!(aim, CancelPurpose::Stop);
    assert_eq!(run.order_id, "S1");
    // The cancellation fails and the order still works: no sale.
    let (step, _) = after_cancel(&mut ps, aim, run, Err(text("busy")));
    let run = match step {
        LiveStep::ReadBook { run } => run,
        other => panic!("{:?}", other),
    };
    let (step, effects) =
        after_book(&mut ps, run, Some(vec![row("S1", "open", 75, 0, 0.0, "S")]));
    assert!(matches!(step, LiveStep::Done { .. }));
    assert_eq!(codes(&effects), vec![NoticeCode::StopCancelFailed]);
    assert_eq!(ps[0].exit_attempts, 1);
    assert_eq!(ps[0].sl_order_id, some("S1"));

    // The cancellation fails, but the order is gone: the sale goes on.
    let mut ps = vec![p.clone()];
    let (step, _) = begin_action(&mut ps, &action());
    let (aim, run) = match step {
        LiveStep::Cancel { aim, run } => (aim, run),
        other => panic!("{:?}", other),
    };
    let (step, _) = after_cancel(&mut ps, aim, run, Err(text("no such order")));
    let run = match step {
        LiveStep::ReadBook { run } => run,
        other => panic!("{:?}", other),
    };
    let (step, effects) =
        after_book(&mut ps, run, Some(vec![row("S1", "rejected", 75, 0, 0.0, "S")]));
    assert_eq!(codes(&effects), vec![NoticeCode::StopAlreadyGone]);
    assert_eq!(ps[0].sl_order_id, None);
    let (order, purpose, run) = match step {
        LiveStep::Place { order, purpose, run } => (order, purpose, run),
        other => panic!("{:?}", other),
    };
    assert_eq!(order.validity, Validity::Ioc);
    let (_, effects) = after_place(&mut ps, purpose, run, Ok(text("X7")));
    assert_eq!(codes(&effects), vec![NoticeCode::ExitPlaced]);
    assert_eq!(ps[0].pending_exit_order_id, some("X7"));
    assert_eq!(ps[0].pending_exit_reason, some("SL_HIT"));

    // A book that cannot be read counts as one in which the order works.
    let mut ps = vec![p];
    let (step, _) = begin_action(&mut ps, &action());
    let (aim, run) = match step {
        LiveStep::Cancel { aim, run } => (aim, run),
        other => panic!("{:?}", other),
    };
    let (step, _) = after_cancel(&mut ps, aim, run, Err(text("busy")));
    let run = match step {
        LiveStep::ReadBook { run } => run,
        other => panic!("{:?}", other),
    };
    let (_, effects) = after_book(&mut ps, run, None);
    assert_eq!(codes(&effects), vec![NoticeCode::StopCancelFailed]);
}

#[test]
fn the_third_failure_halts_the_position() {
    let mut p = live_position();
    p.exit_attempts = 2;
    p.force_exit = some("SL_HIT_SHORTFALL");
    let mut ps = vec![p];
    let (step, _) =
        begin_action(&mut ps, &pending(LiveAction::ExitAll { qty: 75, reason: text("R") }));
    let (purpose, run) = match step {
        LiveStep::Place { purpose, run, .. } => (purpose, run),
        other => panic!("{:?}", other),
    };
    let (_, effects) = after_place(&mut ps, purpose, run, rejected("rms"));
    assert_eq!(codes(&effects), vec![NoticeCode::ExitRejected, NoticeCode::ExitsGivenUp]);
    assert_eq!(ps[0].exit_attempts, 3);
    assert_eq!(ps[0].live_halt, some("exit failed 3 times"));
    assert_eq!(ps[0].force_exit, None);
    assert_eq!(
        words_of(&effects)[0],
        "market exit (R) for 75 was rejected: order rejected by broker (code 1): rms — the position is unprotected until a new stop is placed"
    );
}

#[test]
fn target_one_trails_and_sells_a_slice() {
    let mut p = live_position();
    p.executed_qty = 150;
    let mut ps = vec![p.clone()];
    let act = LiveAction::Target1 {
        slice: 75,
        keep: 75,
        new_sl: m(130.0),
        next_dynamic_target: Some(m(160.0)),
        dynamic_rung: Some(m(140.0)),
    };
    let (step, effects) = begin_action(&mut ps, &pending(act));
    assert_eq!(ps[0].state, TradeState::Target1Hit);
    assert_eq!(ps[0].current_sl, m(130.0));
    assert_eq!(ps[0].dynamic_rung_number, 1);
    assert_eq!(codes(&effects), vec![NoticeCode::StopTrailed]);
    let (purpose, run) = match step {
        LiveStep::Place { purpose, run, .. } => (purpose, run),
        other => panic!("{:?}", other),
    };
    let (_, effects) = after_place(&mut ps, purpose, run, rejected("no"));
    assert_eq!(ps[0].force_exit, some("TGT1_EXIT_FAILED"));
    assert_eq!(
        words_of(&effects),
        vec!["target-1 sell of 75 was rejected: order rejected by broker (code 1): no — still holding the full 150 at the trailed stop, squaring off at market"]
    );
}

#[test]
fn an_order_without_an_answer_is_not_rejected() {
    for fault in [KotakError::Http(text("timed out")), KotakError::Json(text("eof"))] {
        let mut ps = vec![live_position()];
        let (step, _) =
            begin_action(&mut ps, &pending(LiveAction::ExitAll { qty: 75, reason: text("R") }));
        let (purpose, run) = match step {
            LiveStep::Place { purpose, run, .. } => (purpose, run),
            other => panic!("{:?}", other),
        };
        let (step, effects) = after_place(&mut ps, purpose, run, Err(OrderFault::Broker(fault)));
        assert!(matches!(step, LiveStep::Done { changed: true }));
        assert_eq!(codes(&effects), vec![NoticeCode::OutcomeUnknown]);
        assert_eq!(ps[0].exit_attempts, 0);
        assert_eq!((ps[0].state, ps[0].executed_qty), (TradeState::Active, 75));
        assert_eq!(ps[0].live_halt, some("outcome of an order is unknown"));
    }
    let mut p = position_created_at(&current_ist_timestamp_string());
    p.resolved_order = Some(dummy_order_request());
    let mut ps = vec![p];
    let entry = LiveAction::PlaceEntry { qty: 75, ltp: m(120.0) };
    let (step, _) = begin_action(&mut ps, &pending(entry));
    let run = match step {
        LiveStep::ReadLimits { run } => run,
        other => panic!("{:?}", other),
    };
    let (step, _) = after_limits(&mut ps, &cfg_with_lots(1, 1), run, Ok(limits(10_000.0)));
    let (purpose, run) = match step {
        LiveStep::Place { purpose, run, .. } => (purpose, run),
        other => panic!("{:?}", other),
    };
    let fault = OrderFault::Broker(KotakError::Http(text("timed out")));
    let (_, effects) = after_place(&mut ps, purpose, run, Err(fault));
    assert_eq!(ps[0].state, TradeState::WaitingForEntry);
    assert_eq!(
        words_of(&effects),
        vec!["an order for 75 got no definite answer: HTTP error: timed out — it may or may not have reached the broker, so no further orders will be sent for this position; check the broker terminal"]
    );
    assert_eq!(OrderFault::NoSession.message(), "no Kotak session");
    assert!(!OrderFault::NoSession.is_ambiguous());
}

#[test]
fn the_trail_factor_rests_without_dynamic_targeting() {
    let mut p = live_position();
    p.executed_qty = 225;
    let mut runner = p.clone();
    runner.state = TradeState::Target1Hit;
    runner.next_dynamic_target = Some(m(160.0));
    let mut cfg = cfg_with_lots(1, 1);
    for factor in [0.0, 0.25, 1.0] {
        cfg.dynamic_targeting_trail_factor = m(factor);
        assert!(matches!(
            act(&p, 140.0, &cfg),
            Some(LiveAction::Target1 { new_sl, .. }) if new_sl == m(130.0)
        ));
        assert!(matches!(
            act(&runner, 160.0, &cfg),
            Some(LiveAction::TrailDynamic { new_sl, .. }) if new_sl == m(150.0)
        ));
    }
    cfg.dynamic_targeting = true;
    cfg.dynamic_targeting_trail_factor = m(0.25);
    assert!(matches!(
        act(&p, 140.0, &cfg),
        Some(LiveAction::Target1 { new_sl, .. }) if new_sl == m(135.0)
    ));
}

#[test]
fn runners_never_trail_below_the_entry() {
    let mut p = live_position();
    p.executed_qty = 225;
    p.avg_buy_price = m(120.03);
    let mut cfg = cfg_with_lots(1, 1);
    cfg.dynamic_targeting = true;
    cfg.dynamic_targeting_trail_factor = m(1.0);
    assert!(matches!(
        act(&p, 140.0, &cfg),
        Some(LiveAction::Target1 { new_sl, .. }) if new_sl == m(120.03)
    ));
}

fn shown(fields: Vec<LineField>) -> Vec<String> {
    fields
        .into_iter()
        .map(|f| match f.value {
            LineValue::Text(s) => format!("{}={}", f.name, s),
            LineValue::Number(v) => format!("{}={}", f.name, v),
            LineValue::Amount(v) => format!("{}={}", f.name, v as f64 / 1e6),
            LineValue::Flag(b) => format!("{}={}", f.name, b),
        })
        .collect()
}

#[test]
fn lines_hold_what_is_shown() {
    let mut n = notice(NoticeCode::ExitPlaced, false, "NIFTY");
    n.order_id = text("X1");
    n.qty = 75;
    n.reason = text("SL_HIT");
    assert_eq!(
        shown(notice_line(&n, true)),
        vec![
            "event=LIVE_EXIT_PLACED",
            "instrument=NIFTY",
            "order_id=X1",
            "qty=75",
            "reason=SL_HIT",
            "mode=LIVE"
        ]
    );
    let mut n = notice(NoticeCode::StopTrailed, false, "NIFTY");
    n.price = m(130.005);
    assert_eq!(
        shown(notice_line(&n, false)),
        vec!["event=SL_TRAILED", "instrument=NIFTY", "new_sl=130.01"]
    );
    let n = notice(NoticeCode::KillSwitchBlocked, false, "NIFTY");
    assert_eq!(
        shown(notice_line(&n, true)),
        vec![
            "event=KILL_SWITCH_BLOCKED",
            "instrument=NIFTY",
            "message=Signal dropped — kill switch is active"
        ]
    );
    assert_eq!(
        shown(error_line("NIFTY", "oh")),
        vec!["event=LIVE_ERROR", "instrument=NIFTY", "message=oh"]
    );
    assert_eq!(
        shown(orphan_line("NIFTY", "X1")),
        vec!["event=ORPHAN_ORDER_CANCELLED", "instrument=NIFTY", "order_id=X1", "mode=LIVE"]
    );
    let fill = TradeFill {
        instrument: text("NIFTY"),
        buy: false,
        qty: 75,
        price: m(140.0),
        is_options: true,
        avg_buy_price: m(120.0),
        signal_id: None,
        raw_message: None,
        reason: text("TGT1_FULL"),
        mode: text("PAPER"),
    };
    let charges = ChargeBreakdown {
        gross_value: m(10_500.0),
        brokerage: 0,
        stt_charge: 0,
        sebi_fee: 0,
        stamp_duty: 0,
        transaction_charge: 0,
        gst: 0,
        net_value: m(10_400.0),
    };
    assert_eq!(
        shown(trade_line(&fill, &charges)),
        vec!["event=TGT1_FULL", "instrument=NIFTY", "price=140", "qty=75", "pnl=1400"]
    );
}

#[test]
fn rungs_are_bookkeeping() {
    let mut p = live_position();
    p.state = TradeState::Target1Hit;
    p.dynamic_rung_number = 1;
    let mut ps = vec![p];
    let act = LiveAction::TrailDynamic {
        new_sl: m(150.0),
        next_target: m(180.0),
        rung_hit: m(160.0),
    };
    let (step, effects) = begin_action(&mut ps, &pending(act));
    assert!(matches!(step, LiveStep::Done { changed: true }));
    assert_eq!(ps[0].next_dynamic_target, Some(m(180.0)));
    assert_eq!(ps[0].last_dynamic_rung, Some(m(160.0)));
    assert_eq!(ps[0].dynamic_rung_number, 2);
    assert_eq!(codes(&effects), vec![NoticeCode::StopTrailed]);
}

#[test]
fn an_abandoned_entry_is_called_back_once() {
    let mut p = live_position();
    p.state = TradeState::WaitingForEntry;
    p.entry_order_id = some("E1");
    let act = || {
        pending(LiveAction::AbandonEntry { reason: text("EOD_NO_ENTRY"), loud: false })
    };
    let mut ps = vec![p.clone()];
    let (step, _) = begin_action(&mut ps, &act());
    let (aim, run) = match step {
        LiveStep::Cancel { aim, run } => (aim, run),
        other => panic!("{:?}", other),
    };
    let (step, effects) = after_cancel(&mut ps, aim, run, Err(text("busy")));
    assert!(matches!(step, LiveStep::Done { changed: true }));
    assert!(ps[0].entry_cancel_sent);
    assert_eq!(
        words_of(&effects),
        vec!["could not cancel in-flight entry order E1 (EOD_NO_ENTRY): busy — it may still fill, leaving the position open"]
    );
    let (step, _) = begin_action(&mut ps, &act());
    assert!(matches!(step, LiveStep::Done { changed: false }));
    p.entry_order_id = None;
    let mut ps = vec![p];
    let (_, effects) = begin_action(&mut ps, &act());
    assert_eq!(ps[0].state, TradeState::Closed);
    assert_eq!(codes(&effects), vec![NoticeCode::EntryAbandoned]);
}

#[test]
fn a_sale_by_hand_is_forgotten_once_it_is_sent() {
    let mut p = live_position();
    p.manual_sell_qty = Some(75);
    let mut ps = vec![p];
    let (step, _) = begin_action(&mut ps, &pending(LiveAction::ManualSell { qty: 75 }));
    assert_eq!(ps[0].manual_sell_qty, None);
    let (order, purpose, run) = match step {
        LiveStep::Place { order, purpose, run } => (order, purpose, run),
        other => panic!("{:?}", other),
    };
    assert_eq!(order.validity, Validity::Day);
    let (_, effects) = after_place(&mut ps, purpose, run, Ok(text("M1")));
    assert_eq!(ps[0].pending_exit_reason, some("MANUAL_SELL"));
    assert_eq!(codes(&effects), vec![NoticeCode::ExitPlaced]);
}

#[test]
fn sales_are_covered_by_the_holding() {
    let cfg = cfg_with_lots(1, 1);
    // Target 1 with three lots: two are sold, one is kept.
    let mut p = live_position();
    p.executed_qty = 225;
    let mut ps = vec![p.clone()];
    let action = act(&p, 141.0, &cfg).unwrap();
    let (step, _) = begin_action(&mut ps, &pending(action));
    let (purpose, run) = match step {
        LiveStep::Place { purpose, run, .. } => (purpose, run),
        other => panic!("{:?}", other),
    };
    after_place(&mut ps, purpose, run, Ok(text("X1")));
    assert_eq!((ps[0].pending_exit_qty, ps[0].executed_qty), (150, 225));
    // The sale comes back half filled: nothing is out any more, and the rest is held.
    reconcile_live_orders(&mut ps, &vec![row("X1", "cancelled", 150, 75, 141.0, "S")]);
    assert_eq!(ps[0].pending_exit_order_id, None);
    assert_eq!((ps[0].pending_exit_qty, ps[0].executed_qty), (0, 150));

    // A stop rests at the broker: it is withdrawn before the position is left.
    let mut p = live_position();
    p.sl_order_id = some("S1");
    p.sl_order_qty = 75;
    let mut ps = vec![p.clone()];
    let action = act(&p, 99.0, &cfg).unwrap();
    let (step, _) = begin_action(&mut ps, &pending(action));
    let (aim, run) = match step {
        LiveStep::Cancel { aim, run } => (aim, run),
        other => panic!("{:?}", other),
    };
    let (step, _) = after_cancel(&mut ps, aim, run, Ok(()));
    let (purpose, run) = match step {
        LiveStep::Place { purpose, run, .. } => (purpose, run),
        other => panic!("{:?}", other),
    };
    after_place(&mut ps, purpose, run, Ok(text("X2")));
    assert_eq!((ps[0].sl_order_id.clone(), ps[0].sl_order_qty), (None, 0));
    assert_eq!((ps[0].pending_exit_qty, ps[0].executed_qty), (75, 75));
}

// Deciding ------------------------------------------------------------------

fn act(p: &MonitoredPosition, ltp: f64, cfg: &TradingConfig) -> Option<LiveAction> {
    decide_live_at(p, Some(m(ltp)), cfg, false, false, now_ist())
}

#[test]
fn a_stop_sells_everything() {
    let cfg = cfg_with_lots(1, 1);
    let p = live_position();
    assert_eq!(
        act(&p, 100.0, &cfg),
        Some(LiveAction::ExitAll { qty: 75, reason: text("SL_HIT") })
    );
    assert_eq!(act(&p, 100.05, &cfg), None);
    let mut p = live_position();
    p.current_sl = m(110.0);
    assert_eq!(
        act(&p, 109.0, &cfg),
        Some(LiveAction::ExitAll { qty: 75, reason: text("TRAIL_SL_HIT") })
    );
}

#[test]
fn halted_and_pending_positions_are_left_alone() {
    let cfg = cfg_with_lots(1, 1);
    let mut p = live_position();
    p.live_halt = some("x");
    assert_eq!(act(&p, 1.0, &cfg), None);
    let mut p = live_position();
    p.pending_exit_order_id = some("X");
    assert_eq!(act(&p, 1.0, &cfg), None);
    let mut p = live_position();
    p.exit_attempts = 1;
    assert_eq!(act(&p, 1.0, &cfg), None);
    assert!(decide_live_at(&p, Some(m(1.0)), &cfg, false, true, now_ist()).is_some());
    p.exit_attempts = 3;
    assert_eq!(decide_live_at(&p, Some(m(1.0)), &cfg, false, true, now_ist()), None);
}

#[test]
fn target_one_splits_the_holding() {
    let cfg = cfg_with_lots(1, 1);
    let mut p = live_position();
    p.executed_qty = 225;
    assert_eq!(
        act(&p, 140.0, &cfg),
        Some(LiveAction::Target1 {
            slice: 150,
            keep: 75,
            new_sl: m(130.0),
            next_dynamic_target: None,
            dynamic_rung: None,
        })
    );
    let mut dynamic = cfg_with_lots(1, 1);
    dynamic.dynamic_targeting = true;
    assert_eq!(
        act(&p, 141.0, &dynamic),
        Some(LiveAction::Target1 {
            slice: 75,
            keep: 150,
            new_sl: m(130.0),
            next_dynamic_target: Some(m(160.0)),
            dynamic_rung: Some(m(140.0)),
        })
    );
    // A single lot leaves whole.
    assert_eq!(
        act(&live_position(), 140.0, &cfg),
        Some(LiveAction::ExitAll { qty: 75, reason: text("TGT1_FULL") })
    );
}

#[test]
fn runners_climb_and_leave_at_their_stop() {
    let cfg = cfg_with_lots(1, 1);
    let mut p = live_position();
    p.state = TradeState::Target1Hit;
    p.current_sl = m(130.0);
    p.next_dynamic_target = Some(m(160.0));
    assert_eq!(act(&p, 159.0, &cfg), None);
    assert_eq!(
        act(&p, 160.0, &cfg),
        Some(LiveAction::TrailDynamic {
            new_sl: m(150.0),
            next_target: m(180.0),
            rung_hit: m(160.0),
        })
    );
    assert_eq!(
        act(&p, 130.0, &cfg),
        Some(LiveAction::ExitAll { qty: 75, reason: text("TRAIL_SL_HIT") })
    );
    p.next_dynamic_target = None;
    assert_eq!(
        act(&p, 160.0, &cfg),
        Some(LiveAction::ExitAll { qty: 75, reason: text("TGT2_HIT") })
    );
}

#[test]
fn spent_and_odd_entries_are_refused() {
    let cfg = cfg_with_lots(1, 1);
    let mut p = position_created_at(&current_ist_timestamp_string());
    p.resolved_order = Some(dummy_order_request());
    assert_eq!(
        act(&p, 141.5, &cfg),
        Some(LiveAction::AbandonEntry {
            reason: text("entry 141.50 is already at/through target 1 (140.00) — wrong contract or stale signal, not entering"),
            loud: true,
        })
    );
    assert_eq!(act(&p, 119.0, &cfg), None);
    p.override_qty = Some(0);
    assert_eq!(
        act(&p, 121.0, &cfg),
        Some(LiveAction::AbandonEntry {
            reason: text("invalid quantity 0 for lot size 75"),
            loud: false,
        })
    );
    p.override_qty = Some(2);
    assert_eq!(act(&p, 121.0, &cfg), Some(LiveAction::PlaceEntry { qty: 150, ltp: m(121.0) }));
    p.signal.entry_condition = text("below");
    assert_eq!(act(&p, 121.0, &cfg), None);
    assert!(act(&p, 119.0, &cfg).is_some());
}

#[test]
fn manual_sales_never_exceed_the_holding() {
    let cfg = cfg_with_lots(1, 1);
    let mut p = live_position();
    p.manual_sell_qty = Some(500);
    assert_eq!(act(&p, 121.0, &cfg), Some(LiveAction::ManualSell { qty: 75 }));
}

#[test]
fn expiring_positions_leave_in_time() {
    // The 26th of November 2026 in India.
    let day = 20_758 + 25;
    let at = |h: i64, min: i64| IstTime { secs: day * 86_400 + h * 3_600 + min * 60, nanos: 0 };
    let mut p = live_position();
    p.signal.expiry = some("26-NOV-2026");
    assert!(ist_timestamp_at(at(15, 10)).starts_with("2026-11-26 15:10"));
    assert!(!is_expiry_squareoff_due(&p, at(15, 9)));
    assert!(is_expiry_squareoff_due(&p, at(15, 10)));
    p.signal.expiry = some("27-NOV-2026");
    assert!(!is_expiry_squareoff_due(&p, at(15, 10)));
    p.signal.expiry = None;
    assert!(!is_expiry_squareoff_due(&p, at(15, 10)));
    p.signal.expiry = some("26-Nov-2026");
    assert_eq!(
        decide_live_at(&p, None, &cfg_with_lots(1, 1), false, false, at(15, 10)),
        Some(LiveAction::ExitAll { qty: 75, reason: text("EXPIRY_SQUAREOFF") })
    );
}

// Ticks ---------------------------------------------------------------------

#[test]
fn nothing_is_traded_before_the_comparison() {
    assert_eq!(tick_work(false, false, 0, false, false), TickWork::Paper);
    assert_eq!(tick_work(true, false, 2_000_000_000, true, false), TickWork::Reconcile);
    assert_eq!(tick_work(true, false, 1_999_999_999, true, false), TickWork::Skip);
    assert_eq!(tick_work(true, false, 5_000_000_000, false, false), TickWork::Skip);
    assert_eq!(tick_work(true, true, 0, true, true), TickWork::Skip);
    assert_eq!(tick_work(true, true, 0, true, false), TickWork::Live);
    assert!(poll_due(2_000_000_000) && !poll_due(1_999_999_999));
}

#[test]
fn stops_trail_before_target_one() {
    let mut cfg = cfg_with_lots(1, 1);
    cfg.pre_t1_trailing = true;
    let mut ps = vec![live_position(), live_position()];
    let (changed, effects) = trail_all(&mut ps, &vec![Some(m(132.0)), None], &cfg);
    assert!(changed);
    assert_eq!((ps[0].current_sl, ps[1].current_sl), (m(122.0), m(100.0)));
    assert_eq!(codes(&effects), vec![NoticeCode::TrailArmed]);
    // Only the first move is reported.
    let (changed, effects) = trail_all(&mut ps, &vec![Some(m(138.0)), None], &cfg);
    assert!(changed && effects.is_empty());
}

#[test]
fn decisions_go_by_the_prices() {
    let cfg = cfg_with_lots(1, 1);
    let prices = DashMap::new();
    prices.insert(text("NIFTY"), m(99.0));
    prices.insert(text("nse_fo|1"), 0i64);
    let mut other = live_position();
    other.ws_scrip_key = some("nse_fo|1");
    let ps = vec![live_position(), other];
    let seen = read_prices(&ps, &prices);
    assert_eq!(seen, vec![Some(m(99.0)), None]);
    let todo = decide_all(&ps, &seen, &cfg, false, false, now_ist());
    assert_eq!(todo.len(), 1);
    assert_eq!(todo[0].action, LiveAction::ExitAll { qty: 75, reason: text("SL_HIT") });
}

#[test]
fn closed_positions_go_and_their_orders_too() {
    let mut gone = live_position();
    gone.state = TradeState::Closed;
    gone.sl_order_id = some("S1");
    gone.pending_exit_order_id = some("X1");
    let mut ps = vec![gone, live_position()];
    let orphans = orphan_orders(&ps);
    assert_eq!(orphans.len(), 2);
    assert_eq!(orphans[0].order_id, "S1");
    assert_eq!(orphans[1].trading_symbol, "NIFTY24JUL25000CE");
    assert!(drop_closed(&mut ps));
    assert_eq!(ps.len(), 1);
    assert!(!drop_closed(&mut ps));
    assert_eq!(
        orphan_words("S1", "busy"),
        "order S1 was still live on a closed position and could not be cancelled: busy — check the broker terminal"
    );
    assert_eq!(
        remainder_words("E1", "busy"),
        "could not cancel the unfilled remainder of entry order E1: busy"
    );
}

// Startup -------------------------------------------------------------------

fn holding(symbol: &str, bought: i32) -> KotakPosition {
    KotakPosition {
        trading_symbol: text(symbol),
        symbol: text("NIFTY"),
        product: text("NRML"),
        exchange_segment: text("nse_fo"),
        filled_buy_qty: bought.to_string(),
        filled_sell_qty: text("0"),
        buy_amount: (bought * 120).to_string(),
        sell_amount: text("0"),
        option_type: text("CE"),
        expiry_date: text(""),
    }
}

const SYM: &str = "NIFTY24JUL25000CE";

fn startup(
    ps: &mut Vec<MonitoredPosition>,
    holdings: Result<Vec<KotakPosition>, String>,
    book: Result<Vec<KotakOrder>, String>,
) -> (bool, Vec<Effect>) {
    let watched = watched_positions(ps);
    reconcile_on_startup(ps, &watched, holdings, book)
}

#[test]
fn a_broker_that_cannot_be_read_blocks_trading() {
    let mut ps = vec![live_position()];
    let (ok, effects) = startup(&mut ps, Err(text("down")), Ok(vec![]));
    assert!(!ok);
    assert_eq!(codes(&effects), vec![NoticeCode::PositionsUnread]);
    let (ok, effects) = startup(&mut ps, Ok(vec![holding(SYM, 75)]), Err(text("down")));
    assert!(!ok);
    assert_eq!(
        words_of(&effects),
        vec!["startup reconciliation could not read the order book (down) — resting orders are unverified, check the terminal before trading"]
    );
    // With nothing to protect, the positions may be missing.
    let (ok, effects) = startup(&mut vec![], Err(text("down")), Ok(vec![]));
    assert!(ok);
    assert_eq!(
        codes(&effects),
        vec![NoticeCode::PositionsUnreadButIdle, NoticeCode::StartupReconciled]
    );
}

#[test]
fn the_broker_decides_what_is_held() {
    let mut ps = vec![live_position()];
    let (ok, effects) = startup(&mut ps, Ok(vec![holding(SYM, 150)]), Ok(vec![]));
    assert!(ok);
    assert_eq!(ps[0].executed_qty, 150);
    assert_eq!(
        words_of(&effects)[0],
        "engine held 75 of NIFTY24JUL25000CE but the broker shows 150 — adopting the broker's quantity"
    );
    let (_, effects) = startup(&mut ps, Ok(vec![]), Ok(vec![]));
    assert_eq!((ps[0].state, ps[0].executed_qty), (TradeState::Closed, 0));
    assert_eq!(codes(&effects)[0], NoticeCode::NothingAtBroker);
}

#[test]
fn a_resting_sale_becomes_the_stop() {
    let mut ps = vec![live_position()];
    let book = vec![row(" S5 ", "trigger pending", 75, 25, 0.0, "S")];
    let (_, effects) = startup(&mut ps, Ok(vec![holding(SYM, 75)]), Ok(book));
    assert_eq!(ps[0].sl_order_id, some("S5"));
    assert_eq!((ps[0].sl_order_qty, ps[0].sl_order_trigger), (50, m(101.5)));
    assert_eq!(
        words_of(&effects)[0],
        "adopting sell order S5 (50 @ trigger 101.50) as this position's stop — it was resting at the broker but missing from the engine's snapshot"
    );
    let book = vec![row("S5", "open", 75, 0, 0.0, "S"), row("S6", "open", 75, 0, 0.0, "S")];
    let (_, effects) = startup(&mut ps, Ok(vec![holding(SYM, 75)]), Ok(book));
    assert_eq!(ps[0].live_halt, some("2 resting sell orders found at startup"));
    assert_eq!(codes(&effects)[0], NoticeCode::ManyRestingSales);
}

#[test]
fn doubles_are_halted() {
    let mut second = live_position();
    second.id = text("other");
    let mut ps = vec![live_position(), second];
    let watched = watched_positions(&ps);
    assert!(is_doubled(&watched, SYM));
    assert!(symbol_watched(&watched, SYM));
    let (ok, effects) = startup(&mut ps, Ok(vec![holding(SYM, 75)]), Ok(vec![]));
    assert!(ok);
    assert_eq!(ps[0].live_halt, some("duplicate positions on one contract at startup"));
    assert_eq!(ps[1].live_halt, ps[0].live_halt);
    assert_eq!(
        codes(&effects),
        vec![
            NoticeCode::DuplicatePositions,
            NoticeCode::DuplicatePositions,
            NoticeCode::StartupReconciled,
        ]
    );
}

#[test]
fn strangers_are_reported_and_left_alone() {
    let mut p = live_position();
    p.state = TradeState::WaitingForEntry;
    p.entry_order_id = some("OLD");
    p.resolved_order.as_mut().unwrap().trading_symbol = text("MINE");
    let mut ps = vec![p];
    let book = vec![row("S9", "open", 75, 0, 0.0, "S")];
    let (_, effects) = startup(&mut ps, Ok(vec![holding("OTHER", 75)]), Ok(book));
    assert_eq!(ps[0].entry_order_id, None);
    assert_eq!(
        codes(&effects),
        vec![
            NoticeCode::StaleEntryOrder,
            NoticeCode::UntrackedHolding,
            NoticeCode::UntrackedSale,
            NoticeCode::StartupReconciled,
        ]
    );
}

// The desk ------------------------------------------------------------------

#[test]
fn trades_become_messages() {
    let fill = |buy: bool| TradeFill {
        instrument: text("NIFTY"),
        buy,
        qty: 75,
        price: m(130.0),
        is_options: true,
        avg_buy_price: m(120.0),
        signal_id: some("s"),
        raw_message: None,
        reason: text("TGT1_FULL"),
        mode: text("LIVE"),
    };
    let charges = ChargeBreakdown {
        gross_value: m(9_750.0),
        brokerage: m(20.0),
        stt_charge: m(6.0),
        sebi_fee: m(0.01),
        stamp_duty: 0,
        transaction_charge: m(3.0),
        gst: m(4.0),
        net_value: m(9_716.99),
    };
    assert_eq!(trade_profit(&fill(false), &charges), m(716.99));
    match trade_message(fill(false), &charges) {
        DbWriteMessage::Trade { ticker, action, qty, executed_price, net_value, exit_reason, .. } => {
            assert_eq!((ticker.as_str(), action.as_str(), qty), ("NIFTY", "SELL", 75));
            assert_eq!((executed_price, net_value), (m(130.0), m(9_716.99)));
            assert_eq!(exit_reason, some("TGT1_FULL"));
        }
        other => panic!("{:?}", other),
    }
    match trade_message(fill(true), &charges) {
        DbWriteMessage::Trade { action, .. } => assert_eq!(action, "BUY"),
        other => panic!("{:?}", other),
    }
    assert_eq!(wallet_delta("buy", m(5.0)), m(-5.0));
    assert_eq!(wallet_delta("SELL", m(5.0)), m(5.0));
}

#[test]
fn stops_are_forgotten_whole() {
    let mut p = live_position();
    p.sl_order_id = some("S");
    p.sl_order_qty = 5;
    p.sl_order_trigger = 7;
    forget_stop(&mut p);
    assert_eq!((p.sl_order_id.clone(), p.sl_order_qty, p.sl_order_trigger), (None, 0, 0));
    assert_eq!(trading_symbol(&p), SYM);
    assert_eq!(trading_symbol(&active_position()), "");
    assert_eq!(find_position(&vec![p], "test"), Some(0));
}

#[test]
fn market_orders_keep_the_contract() {
    let base = dummy_order_request();
    let o = build_market_order(&base, TransactionType::Sell, 150, m(2.5));
    assert_eq!((o.quantity.as_str(), o.market_protection.as_str()), ("150", "2.5"));
    assert_eq!((o.price.as_str(), o.trigger_price.as_str()), ("0", "0"));
    assert_eq!(o.order_type, OrderType::Market);
    assert_eq!(o.validity, Validity::Day);
    assert_eq!(o.trading_symbol, base.trading_symbol);
    let o = build_prompt_sale(&base, 75);
    assert_eq!((o.validity, o.transaction_type), (Validity::Ioc, TransactionType::Sell));
    assert_eq!(o.market_protection, "0");
}

#[test]
fn reports_have_names() {
    assert_eq!(event_name(NoticeCode::StopTrailed), "SL_TRAILED");
    assert_eq!(event_name(NoticeCode::ExitShort), "LIVE_ERROR");
    assert_eq!(event_name(NoticeCode::NoContracts), "ERROR");
    assert_eq!(event_name(NoticeCode::ShortNotSupported), "");
    let mut ps = vec![selling()];
    let (_, effects) =
        reconcile_live_orders(&mut ps, &vec![row("X1", "cancelled", 150, 0, 0.0, "S")]);
    match &effects[0] {
        Effect::Note(n) => assert_eq!(level_name(n), "INFO"),
        other => panic!("{:?}", other),
    }
}
