use auto_trader::broker::KotakPosition;
use auto_trader::clock::{current_ist_timestamp_string, in_calendar, now_ist, today_ist};
use auto_trader::desk::{Effect, NoticeCode};
use auto_trader::domain::{
    AmoFlag, ExchangeSegment, LotTable, MonitoredPosition, OrderRequest, OrderType, ProductCode,
    ReconcileAction, ReconcileApplyItem, ReconcileCategory, ScripRecord, TradeSignal, TradeState,
    TradingConfig, TransactionType, Validity,
};
use auto_trader::ingest::{ingest_signal, ingest_signal_with, screen_signal};
use auto_trader::manual::{
    all_feed_prices, bad_quantity_answer, book_sale, choose_booking_price, close_position,
    delete_position, engage_kill_switch, patch_position, recompute_open_dynamic_runners,
    reset_kill_switch, sell_position, visible_positions, whole_lots_answer, CloseOutcome,
    DeleteOutcome, PatchPositionReq, SellOutcome, SellPositionReq,
};
use auto_trader::orders::{order_for_contract, scrip_key};
use auto_trader::paper::{decide_paper, paper_tick, PosAction};
use auto_trader::report::notice_words;
use auto_trader::sync::{
    apply_reconciliation, apply_reconciliation_with, needs_broker_truth, preview_reconciliation,
    ContractLookup,
};
use dashmap::DashMap;

/// An amount of money, or a factor, in millionths.
fn m(x: f64) -> i64 {
    (x * 1_000_000.0).round() as i64
}

fn text(s: &str) -> String {
    s.to_string()
}

fn position_created_at(created_at: &str) -> MonitoredPosition {
    MonitoredPosition {
        id: text("test"),
        signal: TradeSignal {
            instrument_name: text("NIFTY"),
            strike: Some(m(25000.0)),
            option_type: Some(text("CE")),
            expiry: None,
            action: text("BUY"),
            entry_condition: text("ABOVE"),
            entry_price: m(120.0),
            targets: vec![m(140.0), m(160.0)],
            stop_loss: m(100.0),
            source: text("test"),
            signal_id: None,
            raw_message: None,
        },
        state: TradeState::WaitingForEntry,
        created_at: text(created_at),
        current_sl: m(100.0),
        peak_ltp: None,
        next_dynamic_target: None,
        last_dynamic_rung: None,
        dynamic_rung_number: 0,
        manual_sell_qty: None,
        executed_qty: 0,
        avg_buy_price: 0,
        override_qty: None,
        resolved_order: None,
        ltp: None,
        ws_scrip_key: None,
        force_exit: None,
        override_exit_price: None,
        tick_size: m(0.05),
        entry_order_id: None,
        sl_order_id: None,
        sl_order_qty: 0,
        sl_order_trigger: 0,
        target_order_id: None,
        pending_exit_order_id: None,
        pending_exit_qty: 0,
        pending_exit_reason: None,
        entry_cancel_sent: false,
        exit_attempts: 0,
        live_halt: None,
    }
}

fn cfg_with_lots(index_lots: i32, other_lots: i32) -> TradingConfig {
    TradingConfig {
        max_trade_amount_inr: m(15_000.0),
        index_lots,
        other_lots,
        index_lots_by_symbol: LotTable::new(),
        mode: text("PAPER"),
        brokerage_per_order: m(20.0),
        target_1_exit_pct: m(50.0),
        target_2_exit_pct: m(100.0),
        entry_market_protection: m(5.0),
        dynamic_targeting: false,
        dynamic_targeting_trail_factor: m(0.5),
        dynamic_targeting_extension_factor: m(1.0),
        pre_t1_trailing: false,
        pre_t1_trail_arm_pct: m(60.0),
        pre_t1_trail_factor: m(0.5),
        kill_switch_active: false,
    }
}

/// A held position: bought at 120, with targets at 140 and 160 and a stop at 100.
fn active_position() -> MonitoredPosition {
    let mut pos = position_created_at(&current_ist_timestamp_string());
    pos.state = TradeState::Active;
    pos.avg_buy_price = m(120.0);
    pos.executed_qty = 75;
    pos
}

fn dummy_order_request() -> OrderRequest {
    OrderRequest {
        after_market_order: AmoFlag::No,
        disclosed_quantity: text("0"),
        exchange_segment: ExchangeSegment::NseFo,
        market_protection: text("0"),
        product_code: ProductCode::Nrml,
        portfolio_flag: text("N"),
        price: text("0"),
        order_type: OrderType::Limit,
        quantity: text("75"),
        validity: Validity::Day,
        trigger_price: text("0"),
        trading_symbol: text("NIFTY24JUL25000CE"),
        transaction_type: TransactionType::Buy,
    }
}

const SYM: &str = "NIFTY24JUL25000CE";

fn some(s: &str) -> Option<String> {
    Some(text(s))
}

fn held() -> MonitoredPosition {
    let mut pos = active_position();
    pos.resolved_order = Some(dummy_order_request());
    pos
}

fn waiting() -> MonitoredPosition {
    let mut pos = position_created_at(&current_ist_timestamp_string());
    pos.resolved_order = Some(dummy_order_request());
    pos
}

fn codes(effects: &Vec<Effect>) -> Vec<NoticeCode> {
    effects
        .iter()
        .filter_map(|e| match e {
            Effect::Note(n) => Some(n.code),
            _ => None,
        })
        .collect()
}

fn words_of(effects: &Vec<Effect>) -> Vec<String> {
    effects
        .iter()
        .filter_map(|e| match e {
            Effect::Note(n) => Some(notice_words(n)),
            _ => None,
        })
        .collect()
}

fn holding(symbol: &str, bought: i32) -> KotakPosition {
    KotakPosition {
        trading_symbol: text(symbol),
        symbol: text("NIFTY"),
        product: text("NRML"),
        exchange_segment: text("nse_fo"),
        filled_buy_qty: bought.to_string(),
        filled_sell_qty: text("0"),
        buy_amount: (bought * 120).to_string(),
        sell_amount: text("0"),
        option_type: text("CE"),
        expiry_date: text(""),
    }
}

fn contract() -> ScripRecord {
    ScripRecord {
        trading_symbol: text(SYM),
        symbol_name: text("NIFTY"),
        instrument_token: text("51386"),
        exchange_segment_code: text("nse_fo"),
        option_type: text("CE"),
        strike_price: m(25_000.0),
        // The 26th of November 2026.
        expiry_date: 719_163 + 20_758 + 25,
        lot_size: 75,
        tick_size: m(0.05),
    }
}

// Comparing on request --------------------------------------------------------

#[test]
fn differences_become_questions() {
    let ps = vec![held()];
    let f = preview_reconciliation(&ps, &vec![holding(SYM, 75)]);
    assert_eq!(f.len(), 1);
    assert_eq!(f[0].category, ReconcileCategory::Matches);
    assert_eq!(f[0].message, "NIFTY: 75 qty matches at both engine and broker.");
    assert!(f[0].options.is_empty());

    let f = preview_reconciliation(&ps, &vec![]);
    assert_eq!(f[0].category, ReconcileCategory::QtyZero);
    assert_eq!(f[0].message, "NIFTY: engine shows 75 qty held, broker shows none — looks like it was fully closed outside the app.");
    assert_eq!(f[0].options[0].action, ReconcileAction::Close);
    assert!(f[0].options[0].recommended && !f[0].options[1].recommended);

    let f = preview_reconciliation(&ps, &vec![holding(SYM, 50)]);
    assert_eq!(f[0].category, ReconcileCategory::QtyReduced);
    assert_eq!(f[0].options[0].label, "Adopt broker's quantity (50)");
    assert_eq!(f[0].broker_avg_price, m(120.0));
    let f = preview_reconciliation(&ps, &vec![holding(SYM, 150)]);
    assert_eq!(f[0].category, ReconcileCategory::QtyIncreased);

    let f = preview_reconciliation(&vec![], &vec![holding(" OTHER ", 75)]);
    assert_eq!(f[0].category, ReconcileCategory::UnexplainedExposure);
    assert_eq!(f[0].message, "The broker holds 75 of OTHER that this app has no record of at all.");
    assert_eq!(f[0].options.len(), 2);
}

#[test]
fn doubles_offer_no_answer() {
    let mut second = held();
    second.id = text("second");
    let f = preview_reconciliation(&vec![held(), second], &vec![holding(SYM, 75)]);
    assert_eq!(f.len(), 2);
    assert_eq!(f[0].category, ReconcileCategory::DuplicateAmbiguous);
    assert!(f[0].options.is_empty());
}

fn item(id: Option<&str>, symbol: &str, action: ReconcileAction) -> ReconcileApplyItem {
    ReconcileApplyItem { position_id: id.map(text), trading_symbol: text(symbol), action }
}

#[test]
fn answers_are_applied() {
    let items = vec![
        item(Some("test"), SYM, ReconcileAction::AdoptQty),
        item(None, "OTHER", ReconcileAction::Ignore),
    ];
    assert!(needs_broker_truth(&items));
    let mut ps = vec![held()];
    let contracts = vec![ContractLookup::NotLoaded, ContractLookup::NotLoaded];
    let effects =
        apply_reconciliation(&mut ps, &Some(vec![holding(SYM, 50)]), &contracts, &items);
    assert_eq!(ps[0].executed_qty, 50);
    assert_eq!(codes(&effects), vec![NoticeCode::ReconcileAdopted, NoticeCode::ReconcileAck]);

    // A broker that holds none leaves state and stop as they are.
    let items = vec![item(Some("test"), SYM, ReconcileAction::AdoptQty)];
    ps[0].sl_order_id = some("S1");
    ps[0].sl_order_qty = 50;
    let none = Some(vec![]);
    apply_reconciliation(&mut ps, &none, &vec![ContractLookup::NotLoaded], &items);
    assert_eq!((ps[0].state, ps[0].executed_qty), (TradeState::Active, 0));
    assert_eq!((ps[0].sl_order_id.clone(), ps[0].sl_order_qty), (some("S1"), 50));

    let items = vec![item(Some("test"), SYM, ReconcileAction::Close)];
    assert!(!needs_broker_truth(&items));
    let effects = apply_reconciliation(&mut ps, &None, &vec![ContractLookup::NotLoaded], &items);
    assert_eq!((ps[0].state, ps[0].executed_qty), (TradeState::Closed, 0));
    assert_eq!(
        words_of(&effects),
        vec!["manually reconciled: NIFTY24JUL25000CE marked closed (broker shows no open quantity)"]
    );
}

#[test]
fn holdings_are_taken_over_once() {
    let act = ReconcileAction::AdoptManual {
        stop_loss: m(101.03),
        target: m(150.0),
        avg_buy_price: 0,
    };
    let items = vec![item(None, SYM, act), item(None, SYM, act)];
    let contracts = vec![ContractLookup::Found(contract()), ContractLookup::Found(contract())];
    let mut ps = vec![];
    let effects = apply_reconciliation_with(
        &mut ps,
        &Some(vec![holding(SYM, 75)]),
        &contracts,
        &items,
        &vec![text("id1"), text("id2")],
        "2026-11-16 10:00:00",
    );
    assert_eq!(ps.len(), 1);
    let p = &ps[0];
    assert_eq!((p.id.as_str(), p.created_at.as_str()), ("id1", "2026-11-16 10:00:00"));
    assert_eq!((p.state, p.executed_qty), (TradeState::Active, 75));
    assert_eq!((p.current_sl, p.avg_buy_price), (m(101.0), m(120.0)));
    assert_eq!(p.signal.targets, vec![m(150.0)]);
    assert_eq!(p.signal.expiry, some("26-NOV-2026"));
    assert_eq!(p.signal.source, "MANUAL_RECONCILE");
    assert_eq!(p.ws_scrip_key, some("nse_fo|51386"));
    assert!(matches!(&effects[0], Effect::Watch { key } if key == "nse_fo|51386"));
    assert_eq!(codes(&effects), vec![NoticeCode::Adopted, NoticeCode::AdoptAlreadyTracked]);
    assert_eq!(
        words_of(&effects)[0],
        "manually adopted NIFTY24JUL25000CE — qty 75 @ ₹120.00 (broker avg), SL ₹101.00, target ₹150.00"
    );
}

#[test]
fn what_cannot_be_taken_over_is_reported() {
    let act = ReconcileAction::AdoptManual { stop_loss: 1, target: 2, avg_buy_price: 3 };
    let run = |holdings: Vec<KotakPosition>, c: ContractLookup| {
        let mut ps = vec![];
        let e = apply_reconciliation(&mut ps, &Some(holdings), &vec![c], &vec![item(None, SYM, act)]);
        assert!(ps.is_empty());
        codes(&e)
    };
    assert_eq!(run(vec![], ContractLookup::NotLoaded), vec![NoticeCode::AdoptNotHeld]);
    assert_eq!(run(vec![holding(SYM, 0)], ContractLookup::NotLoaded), vec![NoticeCode::AdoptZero]);
    assert_eq!(
        run(vec![holding(SYM, 5)], ContractLookup::NotLoaded),
        vec![NoticeCode::AdoptNoContracts]
    );
    assert_eq!(
        run(vec![holding(SYM, 5)], ContractLookup::Unknown),
        vec![NoticeCode::AdoptUnknownContract]
    );
    // A holding that is taken over gets an identifier of its own.
    let mut ps = vec![];
    apply_reconciliation(
        &mut ps,
        &Some(vec![holding(SYM, 5)]),
        &vec![ContractLookup::Found(contract())],
        &vec![item(None, SYM, act)],
    );
    assert_eq!(ps[0].id.len(), 36);
    assert_eq!(ps[0].created_at.len(), 19);
}

#[test]
fn contracts_become_orders() {
    let mut c = contract();
    assert_eq!(scrip_key(&c), "nse_fo|51386");
    let o = order_for_contract(&c);
    assert_eq!((o.quantity.as_str(), o.exchange_segment), ("75", ExchangeSegment::NseFo));
    c.exchange_segment_code = text("bse_fo");
    assert_eq!(order_for_contract(&c).exchange_segment, ExchangeSegment::BseFo);
    c.exchange_segment_code = text("nse_cm");
    assert_eq!(order_for_contract(&c).exchange_segment, ExchangeSegment::NseCm);
    c.exchange_segment_code = text("mcx_fo");
    assert_eq!(order_for_contract(&c).exchange_segment, ExchangeSegment::NseFo);
}

// Signals ---------------------------------------------------------------------

fn signal() -> TradeSignal {
    let mut s = position_created_at("").signal;
    s.signal_id = some("sig");
    s
}

fn take(ps: &mut Vec<MonitoredPosition>, s: TradeSignal) -> Vec<Effect> {
    let prices = DashMap::new();
    ingest_signal(ps, s, &cfg_with_lots(1, 1), &ContractLookup::Found(contract()), &prices)
}

#[test]
fn a_signal_opens_a_waiting_position() {
    let mut ps = vec![];
    let effects = ingest_signal_with(
        &mut ps,
        signal(),
        &cfg_with_lots(1, 1),
        &ContractLookup::Found(contract()),
        Some(m(100.0)),
        "new",
        "2026-11-16 10:00:00",
        today_ist(),
    );
    assert!(matches!(&effects[0], Effect::Watch { key } if key == "nse_fo|51386"));
    assert_eq!(ps[0].id, "new");
    assert_eq!(ps[0].state, TradeState::WaitingForEntry);
    assert_eq!(ps[0].current_sl, m(100.0));
    assert_eq!(ps[0].tick_size, m(0.05));
    assert_eq!(ps[0].resolved_order.as_ref().unwrap().quantity, "75");
    let mut ps = vec![];
    take(&mut ps, signal());
    assert_eq!(ps[0].id.len(), 36);
}

#[test]
fn unprotected_signals_are_refused() {
    let cfg = cfg_with_lots(1, 1);
    let mut s = signal();
    s.stop_loss = 0;
    assert_eq!(screen_signal(&s, &cfg, today_ist()).unwrap().code, NoticeCode::SignalWithoutStop);
    let mut s = signal();
    s.targets.clear();
    let n = screen_signal(&s, &cfg, today_ist()).unwrap();
    assert_eq!(
        notice_words(&n),
        "Signal discarded — no target parsed; refusing to open an unprotected position"
    );
    let mut s = signal();
    s.expiry = some("01-JAN-2020");
    let n = screen_signal(&s, &cfg, today_ist()).unwrap();
    assert_eq!(notice_words(&n), "Parsed expiry (01-JAN-2020) is in the past");
    s.expiry = some("01-JAN-2999");
    assert!(screen_signal(&s, &cfg, today_ist()).is_none());
    let mut off = cfg_with_lots(1, 1);
    off.kill_switch_active = true;
    assert_eq!(
        screen_signal(&signal(), &off, today_ist()).unwrap().code,
        NoticeCode::KillSwitchBlocked
    );
    assert_eq!(
        screen_signal(&signal(), &cfg_with_lots(0, 1), today_ist()).unwrap().code,
        NoticeCode::LotsAreZero
    );
    let mut ps = vec![];
    let mut s = signal();
    s.stop_loss = 0;
    take(&mut ps, s);
    assert!(ps.is_empty());
}

#[test]
fn signals_need_a_contract_and_room() {
    let cfg = cfg_with_lots(1, 1);
    let run = |c: ContractLookup, price: Option<i64>| {
        let mut ps = vec![];
        let prices = DashMap::new();
        if let Some(p) = price {
            prices.insert(scrip_key(&contract()), p);
        }
        let e = ingest_signal(&mut ps, signal(), &cfg, &c, &prices);
        assert!(ps.is_empty());
        words_of(&e)
    };
    assert_eq!(
        run(ContractLookup::NotLoaded, None),
        vec!["Signal discarded — Scrip Master not loaded"]
    );
    assert_eq!(
        run(ContractLookup::Unknown, None),
        vec!["Could not resolve contract in Scrip Master"]
    );
    assert_eq!(
        run(ContractLookup::Found(contract()), Some(m(140.0))),
        vec!["Signal discarded — already at target 1 (140.00 ≥ 140.00), wrong contract or stale signal"]
    );
    let mut s = signal();
    s.action = text("SELL");
    let mut ps = vec![];
    let e = take(&mut ps, s);
    assert_eq!(codes(&e), vec![NoticeCode::ShortNotSupported]);
}

#[test]
fn replies_move_the_stop_or_ask_for_an_exit() {
    let mut p = held();
    p.signal.signal_id = some("sig");
    let mut ps = vec![p];
    let mut s = signal();
    s.action = text("UPDATE_SL");
    s.stop_loss = m(110.0);
    let e = take(&mut ps, s.clone());
    assert_eq!((ps[0].current_sl, ps[0].signal.stop_loss), (m(110.0), m(110.0)));
    assert_eq!(codes(&e), vec![NoticeCode::SignalUpdated]);
    s.action = text("EXIT_AT");
    s.entry_price = m(131.5);
    let e = take(&mut ps, s.clone());
    assert_eq!(ps[0].force_exit, some("EXIT_AT_131.50"));
    assert_eq!(ps[0].override_exit_price, Some(m(131.5)));
    assert_eq!(codes(&e), vec![NoticeCode::SignalExited]);
    // What matches nothing is loud.
    s.signal_id = some("unknown");
    let e = take(&mut ps, s.clone());
    assert_eq!(
        words_of(&e),
        vec!["Exit command ignored — no open position for the replied-to signal (exit 131.50); square off manually if you meant to be flat"]
    );
    s.action = text("UPDATE_SL");
    let e = take(&mut ps, s);
    assert_eq!(codes(&e), vec![NoticeCode::UpdateUnmatched]);
    assert_eq!(ps.len(), 1);
}

#[test]
fn edits_change_a_signal_or_force_an_exit() {
    let mut p = held();
    p.signal.signal_id = some("sig");
    let mut ps = vec![p];
    let mut s = signal();
    s.targets = vec![m(150.0)];
    s.stop_loss = m(105.0);
    take(&mut ps, s.clone());
    assert_eq!(ps.len(), 1);
    assert_eq!(ps[0].signal.targets, vec![m(150.0)]);
    assert_eq!(ps[0].current_sl, m(105.0));
    s.entry_price = m(121.0);
    take(&mut ps, s);
    assert_eq!(ps[0].force_exit, some("ENTRY_CHANGED_ERROR"));
}

#[test]
fn the_opposite_trade_leaves() {
    let mut ps = vec![held()];
    let mut s = signal();
    s.option_type = some("PE");
    take(&mut ps, s);
    assert_eq!(ps.len(), 2);
    assert_eq!(ps[0].force_exit, some("OPPOSITE_SIGNAL_EXIT"));
    assert_eq!(ps[1].force_exit, None);
}

// By hand ----------------------------------------------------------------------

#[test]
fn prices_are_looked_up_by_key_and_name() {
    assert_eq!(choose_booking_price(Some(5), Some(7)), Some(5));
    assert_eq!(choose_booking_price(None, Some(7)), Some(7));
    assert_eq!(choose_booking_price(Some(0), Some(7)), None);
    assert_eq!(choose_booking_price(None, None), None);

    let prices = DashMap::new();
    prices.insert(text("nse_fo|1"), 0i64);
    prices.insert(text("NIFTY"), m(9.0));
    let mut p = held();
    p.ws_scrip_key = some("nse_fo|1");
    let mut gone = held();
    gone.state = TradeState::Closed;
    let ps = vec![p, gone];
    let seen = all_feed_prices(&ps, &prices);
    assert_eq!(seen[0], (Some(0), Some(m(9.0))));
    let shown = visible_positions(&ps, &seen);
    assert_eq!(shown.len(), 1);
    assert_eq!(shown[0].ltp, Some(m(9.0)));
}

#[test]
fn closing_by_hand() {
    let mut ps = vec![held()];
    assert!(matches!(close_position(&mut ps, "nobody", false, None), CloseOutcome::NotFound));
    assert!(matches!(close_position(&mut ps, "test", false, None), CloseOutcome::NoPrice));
    match close_position(&mut ps, "test", false, Some(m(130.0))) {
        CloseOutcome::Book { fill } => {
            assert_eq!((fill.qty, fill.price), (75, m(130.0)));
            assert_eq!(fill.reason, "CLOSED_VIA_FRONTEND");
            assert!(!fill.buy);
        }
        other => panic!("{:?}", other),
    }
    // Nothing changes before the trade is stored.
    assert_eq!(ps[0].executed_qty, 75);
    book_sale(&mut ps, "test", 0);
    assert_eq!((ps[0].executed_qty, ps[0].state), (0, TradeState::Closed));

    let mut ps = vec![held()];
    match close_position(&mut ps, "test", true, Some(m(130.0))) {
        CloseOutcome::Requested { instrument, qty } => {
            assert_eq!((instrument.as_str(), qty), ("NIFTY", 75))
        }
        other => panic!("{:?}", other),
    }
    assert_eq!(ps[0].force_exit, some("CLOSED_VIA_FRONTEND"));
    assert_eq!(ps[0].executed_qty, 75);

    let mut ps = vec![waiting()];
    assert!(matches!(close_position(&mut ps, "test", true, None), CloseOutcome::NotOngoing));
    let mut empty = held();
    empty.executed_qty = 0;
    let mut ps = vec![empty];
    assert!(matches!(close_position(&mut ps, "test", true, None), CloseOutcome::ClosedEmpty));
    assert_eq!(ps[0].state, TradeState::Closed);
}

#[test]
fn selling_by_hand() {
    let mut p = held();
    p.executed_qty = 150;
    let mut ps = vec![p];
    let sell = |ps: &mut Vec<MonitoredPosition>, qty: i32, live: bool| {
        sell_position(ps, "test", &SellPositionReq { qty }, live, Some(m(130.0)))
    };
    assert!(matches!(sell(&mut ps, 0, false), SellOutcome::BadQuantity { held: 150 }));
    assert!(matches!(sell(&mut ps, 151, false), SellOutcome::BadQuantity { .. }));
    assert!(matches!(sell(&mut ps, 74, false), SellOutcome::NotWholeLots { lot: 75 }));
    match sell(&mut ps, 75, false) {
        SellOutcome::Book { fill, remaining } => {
            assert_eq!((fill.qty, remaining), (75, 75));
            assert_eq!(fill.reason, "MANUAL_SELL");
        }
        other => panic!("{:?}", other),
    }
    book_sale(&mut ps, "test", 75);
    assert_eq!((ps[0].executed_qty, ps[0].state), (75, TradeState::Active));
    assert!(matches!(sell(&mut ps, 75, true), SellOutcome::Requested { qty: 75, .. }));
    assert_eq!(ps[0].manual_sell_qty, Some(75));
    assert!(matches!(
        sell_position(&mut ps, "test", &SellPositionReq { qty: 75 }, false, None),
        SellOutcome::NoPrice
    ));
    assert!(matches!(
        sell_position(&mut ps, "x", &SellPositionReq { qty: 75 }, false, None),
        SellOutcome::NotFound
    ));
    ps[0].state = TradeState::WaitingForEntry;
    assert!(matches!(sell(&mut ps, 75, false), SellOutcome::NotOngoing));
    assert_eq!(bad_quantity_answer(150), "quantity must be between 1 and 150 (currently held)");
    assert_eq!(whole_lots_answer(75), "quantity must be a multiple of the lot size (75)");
}

#[test]
fn live_positions_are_not_deleted() {
    let mut ps = vec![held()];
    assert_eq!(delete_position(&mut ps, "test", true), DeleteOutcome::Blocked);
    assert_eq!(ps.len(), 1);
    assert_eq!(delete_position(&mut ps, "test", false), DeleteOutcome::Deleted);
    assert_eq!(delete_position(&mut ps, "test", false), DeleteOutcome::NotFound);
    let mut ps = vec![waiting()];
    assert_eq!(delete_position(&mut ps, "test", true), DeleteOutcome::Deleted);
    let mut p = waiting();
    p.entry_order_id = some("E");
    assert_eq!(delete_position(&mut vec![p], "test", true), DeleteOutcome::Blocked);
}

#[test]
fn lots_are_patched() {
    let mut ps = vec![waiting()];
    assert!(patch_position(&mut ps, "test", &PatchPositionReq { override_qty: Some(3) }));
    assert_eq!(ps[0].override_qty, Some(3));
    assert!(!patch_position(&mut ps, "x", &PatchPositionReq { override_qty: None }));
}

#[test]
fn the_kill_switch_empties_a_paper_desk() {
    let mut cfg = cfg_with_lots(1, 1);
    let mut done = held();
    done.state = TradeState::Closed;
    let mut ps = vec![held(), waiting(), done];
    let r = engage_kill_switch(&mut cfg, &mut ps, &vec![None, None, None]);
    assert!(cfg.kill_switch_active);
    assert_eq!((r.liquidated, r.abandoned), (1, 1));
    // Without a price it is booked at what was paid.
    assert_eq!(r.fills[0].price, m(120.0));
    assert_eq!(r.fills[0].reason, "KILL_SWITCH");
    assert!(ps.iter().all(|p| p.state == TradeState::Closed));
    reset_kill_switch(&mut cfg);
    assert!(!cfg.kill_switch_active);
}

#[test]
fn the_kill_switch_hands_a_live_desk_to_the_monitor() {
    let mut cfg = cfg_with_lots(1, 1);
    cfg.mode = text("LIVE");
    let mut ps = vec![held(), waiting()];
    let r = engage_kill_switch(&mut cfg, &mut ps, &vec![Some(m(1.0)), None]);
    assert_eq!((r.liquidated, r.abandoned, r.fills.len()), (1, 1, 0));
    assert_eq!(ps[0].force_exit, some("KILL_SWITCH"));
    assert_eq!((ps[0].state, ps[0].executed_qty), (TradeState::Active, 75));
    assert_eq!(ps[1].state, TradeState::WaitingForEntry);
}

#[test]
fn runners_follow_new_settings() {
    let mut p = held();
    p.state = TradeState::Target1Hit;
    p.last_dynamic_rung = Some(m(160.0));
    let mut cfg = cfg_with_lots(1, 1);
    cfg.dynamic_targeting_trail_factor = m(1.0);
    cfg.dynamic_targeting_extension_factor = m(2.0);
    let mut ps = vec![p, held()];
    assert!(recompute_open_dynamic_runners(&mut ps, &cfg));
    assert_eq!(ps[0].current_sl, m(140.0));
    assert_eq!(ps[0].next_dynamic_target, Some(m(200.0)));
    assert_eq!(ps[1].current_sl, m(100.0));
    let once = ps[0].current_sl;
    recompute_open_dynamic_runners(&mut ps, &cfg);
    assert_eq!(ps[0].current_sl, once);
    assert!(!recompute_open_dynamic_runners(&mut vec![held()], &cfg));
}

// On paper ----------------------------------------------------------------------

fn tick(ps: &mut Vec<MonitoredPosition>, prices: Vec<Option<i64>>) -> (bool, Vec<Effect>) {
    paper_tick(ps, &prices, &cfg_with_lots(1, 1), false, now_ist())
}

#[test]
fn a_paper_trade_from_entry_to_exit() {
    let mut ps = vec![waiting()];
    ps[0].override_qty = Some(2);
    let (changed, _) = tick(&mut ps, vec![Some(m(119.0))]);
    assert!(!changed);
    let (changed, effects) = tick(&mut ps, vec![Some(m(121.0))]);
    assert!(changed);
    assert_eq!((ps[0].state, ps[0].executed_qty), (TradeState::Active, 150));
    assert_eq!(ps[0].avg_buy_price, m(121.0));
    assert!(matches!(&effects[0], Effect::Trade(f) if f.buy && f.mode == "PAPER"));

    // Half leaves at target 1, and the stop moves half way.
    let (_, effects) = tick(&mut ps, vec![Some(m(140.0))]);
    assert_eq!((ps[0].state, ps[0].executed_qty), (TradeState::Target1Hit, 75));
    assert_eq!(ps[0].current_sl, m(130.5));
    assert!(matches!(&effects[0], Effect::Trade(f) if f.reason == "TGT1_PARTIAL" && f.qty == 75));
    assert_eq!(codes(&effects), vec![NoticeCode::StopTrailed]);

    let (_, effects) = tick(&mut ps, vec![Some(m(160.0))]);
    assert!(ps.is_empty());
    assert!(matches!(&effects[0], Effect::Trade(f) if f.reason == "TGT2_HIT"));
}

#[test]
fn a_sole_target_sells_everything_on_paper() {
    let mut p = position_created_at(&current_ist_timestamp_string());
    p.state = TradeState::Active;
    p.avg_buy_price = m(120.0);
    p.executed_qty = 150;
    p.signal.targets = vec![m(140.0)];
    let mut ps = vec![p];
    let (_, effects) =
        paper_tick(&mut ps, &vec![Some(m(141.0))], &cfg_with_lots(1, 1), false, now_ist());
    assert!(ps.is_empty());
    assert_eq!(effects.len(), 1);
    assert!(matches!(
        &effects[0],
        Effect::Trade(f) if f.reason == "TGT1_FULL" && f.qty == 150 && f.price == m(141.0)
    ));
}

#[test]
fn new_settings_never_trail_below_the_entry() {
    let mut p = position_created_at("");
    p.state = TradeState::Target1Hit;
    p.avg_buy_price = m(120.03);
    p.last_dynamic_rung = Some(m(140.0));
    let mut cfg = cfg_with_lots(1, 1);
    cfg.dynamic_targeting_trail_factor = m(1.0);
    let mut ps = vec![p];
    assert!(recompute_open_dynamic_runners(&mut ps, &cfg));
    assert_eq!(ps[0].current_sl, m(120.03));
    assert_eq!(ps[0].next_dynamic_target, Some(m(159.97)));
    cfg.dynamic_targeting_trail_factor = m(0.5);
    recompute_open_dynamic_runners(&mut ps, &cfg);
    assert_eq!(ps[0].current_sl, m(130.0));
}

#[test]
fn the_last_day_of_the_calendar_can_be_written() {
    let mut c = contract();
    c.expiry_date = 95_745_399;
    assert!(in_calendar(c.expiry_date) && !in_calendar(c.expiry_date + 1));
    let items = vec![item(
        None,
        SYM,
        ReconcileAction::AdoptManual { stop_loss: m(90.0), target: m(140.0), avg_buy_price: 0 },
    )];
    for day in [95_745_399, -95_746_129] {
        c.expiry_date = day;
        let mut ps = vec![];
        let found = vec![ContractLookup::Found(c.clone())];
        apply_reconciliation(&mut ps, &Some(vec![holding(SYM, 75)]), &found, &items);
        assert_eq!(ps.len(), 1);
        let year = if day > 0 { "31-DEC-+262142" } else { "01-JAN--262143" };
        assert_eq!(ps[0].signal.expiry, some(year));
        assert_eq!(ps[0].id.len(), 36);
    }
}

#[test]
fn paper_stops_and_forced_exits() {
    let mut ps = vec![held()];
    let (_, effects) = tick(&mut ps, vec![Some(m(100.0))]);
    assert!(matches!(&effects[0], Effect::Trade(f) if f.reason == "SL_HIT" && f.qty == 75));
    let mut p = held();
    p.force_exit = some("EXIT_AT_131.50");
    p.override_exit_price = Some(m(131.5));
    let mut ps = vec![p];
    let (_, effects) = tick(&mut ps, vec![Some(m(125.0))]);
    assert!(matches!(&effects[0], Effect::Trade(f) if f.price == m(131.5)));
    assert!(ps.is_empty());
}

#[test]
fn paper_entries_can_be_given_up() {
    let mut p = waiting();
    p.force_exit = some("ENTRY_CHANGED_ERROR");
    let mut ps = vec![p];
    let (_, effects) = tick(&mut ps, vec![None]);
    assert!(ps.is_empty());
    assert_eq!(codes(&effects), vec![NoticeCode::EntryAbandoned]);

    let mut ps = vec![waiting()];
    let (_, effects) = tick(&mut ps, vec![Some(m(141.0))]);
    assert!(ps.is_empty());
    assert_eq!(
        words_of(&effects),
        vec!["Trade cancelled: entry 141.00 is already at/through target 1 (140.00) — wrong contract or stale signal, not entering"]
    );
    let mut p = waiting();
    p.override_qty = Some(0);
    assert!(matches!(
        decide_paper(&p, Some(m(121.0)), &cfg_with_lots(1, 1), false, now_ist()),
        Some(PosAction::Cancel { reason })
            if reason == "Invalid quantity 0, must be positive multiple of lot size 75"
    ));
    let mut off = cfg_with_lots(1, 1);
    off.kill_switch_active = true;
    assert!(matches!(
        decide_paper(&waiting(), None, &off, false, now_ist()),
        Some(PosAction::Expire { reason }) if reason == "KILL_SWITCH_ACTIVE"
    ));
}
