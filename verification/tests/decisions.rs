use auto_trader::clock::{current_ist_timestamp_string, today_ist};
use auto_trader::decide::{
    decide_live, entry_past_target1, pre_t1_trail_update, stale_entry_reason, LiveAction,
};
use auto_trader::decimal::round_down_tick;
use auto_trader::domain::{
    AmoFlag, ExchangeSegment, LotTable, MonitoredPosition, OrderRequest, OrderType, ProductCode,
    TradeSignal, TradeState, TradingConfig, TransactionType, Validity,
};
use auto_trader::sizing::{lots_for_instrument, tgt1_slice_qty};
use auto_trader::sync::resolved_adopt_avg;
use dashmap::DashMap;

/// An amount of money, or a factor, in millionths.
fn m(x: f64) -> i64 {
    (x * 1_000_000.0).round() as i64
}

fn text(s: &str) -> String {
    s.to_string()
}

fn position_created_at(created_at: &str) -> MonitoredPosition {
    MonitoredPosition {
        id: text("test"),
        signal: TradeSignal {
            instrument_name: text("NIFTY"),
            strike: Some(m(25000.0)),
            option_type: Some(text("CE")),
            expiry: None,
            action: text("BUY"),
            entry_condition: text("ABOVE"),
            entry_price: m(120.0),
            targets: vec![m(140.0), m(160.0)],
            stop_loss: m(100.0),
            source: text("test"),
            signal_id: None,
            raw_message: None,
        },
        state: TradeState::WaitingForEntry,
        created_at: text(created_at),
        current_sl: m(100.0),
        peak_ltp: None,
        next_dynamic_target: None,
        last_dynamic_rung: None,
        dynamic_rung_number: 0,
        manual_sell_qty: None,
        executed_qty: 0,
        avg_buy_price: 0,
        override_qty: None,
        resolved_order: None,
        ltp: None,
        ws_scrip_key: None,
        force_exit: None,
        override_exit_price: None,
        tick_size: m(0.05),
        entry_order_id: None,
        sl_order_id: None,
        sl_order_qty: 0,
        sl_order_trigger: 0,
        target_order_id: None,
        pending_exit_order_id: None,
        pending_exit_qty: 0,
        pending_exit_reason: None,
        entry_cancel_sent: false,
        exit_attempts: 0,
        live_halt: None,
    }
}

fn cfg_with_lots(index_lots: i32, other_lots: i32) -> TradingConfig {
    TradingConfig {
        max_trade_amount_inr: m(15_000.0),
        index_lots,
        other_lots,
        index_lots_by_symbol: LotTable::new(),
        mode: text("PAPER"),
        brokerage_per_order: m(20.0),
        target_1_exit_pct: m(50.0),
        target_2_exit_pct: m(100.0),
        entry_market_protection: m(5.0),
        dynamic_targeting: false,
        dynamic_targeting_trail_factor: m(0.5),
        dynamic_targeting_extension_factor: m(1.0),
        pre_t1_trailing: false,
        pre_t1_trail_arm_pct: m(60.0),
        pre_t1_trail_factor: m(0.5),
        kill_switch_active: false,
    }
}

/// A held position: bought at 120, with targets at 140 and 160 and a stop at 100.
fn active_position() -> MonitoredPosition {
    let mut pos = position_created_at(&current_ist_timestamp_string());
    pos.state = TradeState::Active;
    pos.avg_buy_price = m(120.0);
    pos.executed_qty = 75;
    pos
}

fn dummy_order_request() -> OrderRequest {
    OrderRequest {
        after_market_order: AmoFlag::No,
        disclosed_quantity: text("0"),
        exchange_segment: ExchangeSegment::NseFo,
        market_protection: text("0"),
        product_code: ProductCode::Nrml,
        portfolio_flag: text("N"),
        price: text("0"),
        order_type: OrderType::Limit,
        quantity: text("75"),
        validity: Validity::Day,
        trigger_price: text("0"),
        trading_symbol: text("NIFTY24JUL25000CE"),
        transaction_type: TransactionType::Buy,
    }
}

#[test]
fn lot_count_of_zero_means_do_not_trade_that_class() {
    // Bare 0 skips the whole class...
    assert_eq!(lots_for_instrument(&cfg_with_lots(0, 0), "NIFTY"), 0);
    assert_eq!(lots_for_instrument(&cfg_with_lots(0, 0), "RELIANCE"), 0);
    // ...but a positive per-index override still wins for that index.
    let mut cfg = cfg_with_lots(0, 0);
    cfg.index_lots_by_symbol.insert("BANKNIFTY".into(), 2);
    assert_eq!(lots_for_instrument(&cfg, "BANKNIFTY"), 2);
    assert_eq!(lots_for_instrument(&cfg, "NIFTY"), 0);
    // A negative from a hand-edited row is floored to 0, never negative.
    assert_eq!(lots_for_instrument(&cfg_with_lots(-3, -1), "NIFTY"), 0);
    // Normal positive config is unchanged.
    assert_eq!(lots_for_instrument(&cfg_with_lots(1, 3), "NIFTY"), 1);
    assert_eq!(lots_for_instrument(&cfg_with_lots(1, 3), "TATASTEEL"), 3);
}

#[test]
fn manual_adopt_prefers_the_entered_buy_price_over_the_broker_average() {
    // The user typed a real per-lot fill price — use it verbatim.
    assert_eq!(resolved_adopt_avg(m(175.50), m(182.30)), m(175.50));
    // Blank / junk falls back to the broker's same-day average.
    assert_eq!(resolved_adopt_avg(m(0.0), m(182.30)), m(182.30));
    assert_eq!(resolved_adopt_avg(m(-4.0), m(182.30)), m(182.30));
}

#[test]
fn stale_entry_reason_past_cutoff_always_expires() {
    // The cutoff wins regardless of created_at, also for a position created moments ago.
    let pos = position_created_at(&current_ist_timestamp_string());
    assert_eq!(stale_entry_reason(&pos, true), Some("EOD_NO_ENTRY"));
}

#[test]
fn stale_entry_reason_same_day_is_not_stale() {
    let pos = position_created_at(&current_ist_timestamp_string());
    assert_eq!(stale_entry_reason(&pos, false), None);
}

#[test]
fn stale_entry_reason_flags_carryover_from_a_previous_day() {
    // A position that survived a restart into a new day is abandoned rather than left to
    // trigger on a stale reference price.
    let today = chrono::NaiveDate::from_num_days_from_ce_opt(today_ist() as i32).unwrap();
    let yesterday = today - chrono::Duration::days(1);
    let created_at = yesterday
        .and_hms_opt(10, 0, 0)
        .unwrap()
        .format("%Y-%m-%d %H:%M:%S")
        .to_string();
    let pos = position_created_at(&created_at);
    assert_eq!(stale_entry_reason(&pos, false), Some("STALE_CARRYOVER"));
}

#[test]
fn stale_entry_reason_flags_missing_created_at() {
    // Positions stored without a time of creation are taken for stale.
    let pos = position_created_at("");
    assert_eq!(stale_entry_reason(&pos, false), Some("STALE_CARRYOVER"));
}

#[test]
fn entry_past_target1_only_trips_at_or_above_target1() {
    let mut sig = position_created_at("").signal; // targets [140, 160]
    assert_eq!(entry_past_target1(&sig, m(139.99)), None);
    assert_eq!(entry_past_target1(&sig, m(140.0)), Some(m(140.0)));
    assert_eq!(entry_past_target1(&sig, m(500.0)), Some(m(140.0)));
    // A signal with no target can never trip the guard.
    sig.targets.clear();
    assert_eq!(entry_past_target1(&sig, m(9_999.0)), None);
}

fn pre_t1_cfg() -> TradingConfig {
    let mut cfg = cfg_with_lots(1, 3);
    cfg.pre_t1_trailing = true;
    cfg
}

#[test]
fn pre_t1_trail_is_inert_unless_enabled_and_active() {
    let cfg_off = cfg_with_lots(1, 3);
    let mut pos = active_position();
    assert_eq!(pre_t1_trail_update(&mut pos, m(139.0), &cfg_off), None);
    assert_eq!(pos.peak_ltp, None);
    assert_eq!(pos.current_sl, m(100.0));

    // Once target 1 has hit, this never touches the stop again.
    let cfg = pre_t1_cfg();
    let mut pos = active_position();
    pos.state = TradeState::Target1Hit;
    assert_eq!(pre_t1_trail_update(&mut pos, m(155.0), &cfg), None);
    assert_eq!(pos.current_sl, m(100.0));

    // No target, or an entry at or through target 1: nothing to measure progress against.
    let mut pos = active_position();
    pos.signal.targets.clear();
    assert_eq!(pre_t1_trail_update(&mut pos, m(139.0), &cfg), None);
    let mut pos = active_position();
    pos.avg_buy_price = m(150.0);
    assert_eq!(pre_t1_trail_update(&mut pos, m(139.0), &cfg), None);
}

#[test]
fn pre_t1_trail_arms_at_threshold_and_only_ratchets_up() {
    let cfg = pre_t1_cfg();
    let mut pos = active_position();

    // Below the 132 arm level: the peak is kept, the stop is untouched.
    assert_eq!(pre_t1_trail_update(&mut pos, m(131.95), &cfg), None);
    assert_eq!(pos.peak_ltp, Some(m(131.95)));
    assert_eq!(pos.current_sl, m(100.0));

    // At 132 it arms: stop = 132 - 10.
    assert_eq!(pre_t1_trail_update(&mut pos, m(132.0), &cfg), Some(m(122.0)));
    assert_eq!(pos.current_sl, m(122.0));

    // A pullback is not a new peak — the stop does not move down.
    assert_eq!(pre_t1_trail_update(&mut pos, m(125.0), &cfg), None);
    assert_eq!(pos.peak_ltp, Some(m(132.0)));
    assert_eq!(pos.current_sl, m(122.0));

    // A new high takes it further, rounded down onto the grid.
    assert_eq!(pre_t1_trail_update(&mut pos, m(138.33), &cfg), Some(m(128.30)));
    assert_eq!(pos.current_sl, m(128.30));

    // An edit that lowers the stop of an armed position is undone from the kept peak.
    pos.current_sl = pos.signal.stop_loss;
    assert_eq!(pre_t1_trail_update(&mut pos, m(124.0), &cfg), Some(m(128.30)));
}

#[test]
fn pre_t1_trail_never_loosens_a_stop_already_above_it() {
    let cfg = pre_t1_cfg();
    let mut pos = active_position();
    // A stop already above the would-be trail (125 > 132 - 10) stays where it is.
    pos.current_sl = m(125.0);
    pos.signal.stop_loss = m(125.0);
    assert_eq!(pre_t1_trail_update(&mut pos, m(132.0), &cfg), None);
    assert_eq!(pos.current_sl, m(125.0));
    // ...until the peak climbs far enough to beat it.
    assert_eq!(pre_t1_trail_update(&mut pos, m(136.0), &cfg), Some(m(126.0)));
}

#[test]
fn tick_rounding_stays_on_the_grid() {
    // Exact multiples survive, and do not lose a tick.
    assert_eq!(round_down_tick(m(0.15), m(0.05)), m(0.15));
    assert_eq!(round_down_tick(m(120.10), m(0.05)), m(120.10));
    assert_eq!(round_down_tick(m(2.30), m(0.05)), m(2.30));
    // Anything off the grid rounds down.
    assert_eq!(round_down_tick(m(120.13), m(0.05)), m(120.10));
    assert_eq!(round_down_tick(m(120.19), m(0.05)), m(120.15));
    assert_eq!(round_down_tick(m(3.07), m(0.01)), m(3.07));
    // Degenerate tick sizes are passed through rather than dividing by zero.
    assert_eq!(round_down_tick(m(120.13), m(0.0)), m(120.13));
}

#[test]
fn target1_slice_rounds_up_to_a_whole_lot() {
    // 3 lots at 50% → sell 2, run 1 to target 2.
    assert_eq!(tgt1_slice_qty(225, 75, m(50.0)), 150);
    // 2 lots at 50% → an even split.
    assert_eq!(tgt1_slice_qty(150, 75, m(50.0)), 75);
    // 4 lots at 25% → exactly one lot, no rounding needed.
    assert_eq!(tgt1_slice_qty(300, 75, m(25.0)), 75);
    // 3 lots at 20% → still a whole lot, never a partial one.
    assert_eq!(tgt1_slice_qty(225, 75, m(20.0)), 75);
    // A single lot cannot be split, so target 1 closes the position.
    assert_eq!(tgt1_slice_qty(75, 75, m(50.0)), 75);
    // The slice can never exceed what we hold.
    assert_eq!(tgt1_slice_qty(150, 75, m(100.0)), 150);
}

#[test]
fn kill_switch_active_abandons_waiting_entry_in_decide_live() {
    let mut cfg = cfg_with_lots(1, 1);
    cfg.kill_switch_active = true;

    let mut pos = position_created_at(&current_ist_timestamp_string());
    pos.resolved_order = Some(dummy_order_request());
    pos.state = TradeState::WaitingForEntry;

    let ltp_map = DashMap::new();
    ltp_map.insert("NIFTY".to_string(), m(125.0));

    let action = decide_live(&pos, &ltp_map, &cfg, false, false);
    assert_eq!(
        action,
        Some(LiveAction::AbandonEntry {
            reason: "KILL_SWITCH_ACTIVE".to_string(),
            loud: false,
        })
    );
}

#[test]
fn kill_switch_inactive_allows_entry_trigger() {
    let mut cfg = cfg_with_lots(1, 1);
    cfg.kill_switch_active = false;

    let mut pos = position_created_at(&current_ist_timestamp_string());
    pos.resolved_order = Some(dummy_order_request());
    pos.state = TradeState::WaitingForEntry;
    pos.signal.entry_price = m(120.0);
    pos.signal.entry_condition = "ABOVE".to_string();

    let ltp_map = DashMap::new();
    ltp_map.insert("NIFTY".to_string(), m(125.0));

    let action = decide_live(&pos, &ltp_map, &cfg, false, false);
    assert!(matches!(action, Some(LiveAction::PlaceEntry { .. })));
}

#[test]
fn kill_switch_force_exit_triggers_market_exit_on_active_position() {
    let cfg = cfg_with_lots(1, 1);

    let mut pos = active_position();
    pos.resolved_order = Some(dummy_order_request());
    pos.force_exit = Some("KILL_SWITCH".to_string());

    let ltp_map = DashMap::new();
    ltp_map.insert("NIFTY".to_string(), m(130.0));

    let action = decide_live(&pos, &ltp_map, &cfg, false, false);
    assert_eq!(
        action,
        Some(LiveAction::ExitAll {
            qty: 75,
            reason: "KILL_SWITCH".to_string(),
        })
    );
}
