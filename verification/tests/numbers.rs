use auto_trader::config::{
    default_config, default_entry_mp, default_extension_factor, default_pre_t1_arm_pct,
    default_tick_size, default_trail_factor, load_config, sanitize_config,
};
use auto_trader::decimal::{
    above, below, div_down, div_up, half_way_down, parse_millionths, plain, round2,
    round_down_tick, stop_behind, to_i32, to_i64,
    two_place_text,
};
use auto_trader::domain::{LotTable, MonitoredPosition, OrderRequest, TradeSignal, TradeState,
    TradingConfig, AmoFlag, ExchangeSegment, OrderType, ProductCode, TransactionType, Validity};
use auto_trader::sizing::{
    compute_entry_qty, is_index_name, lot_size_of, paper_slice_qty, tgt1_slice_qty,
};
use auto_trader::text::{
    contains, ends_with, eq_ignore_case, i64_text, is_blank, parse_i32, starts_with, trim,
    u64_text,
};
use auto_trader::clock::current_ist_timestamp_string;

/// An amount of money, or a factor, in millionths.
fn m(x: f64) -> i64 {
    (x * 1_000_000.0).round() as i64
}

fn text(s: &str) -> String {
    s.to_string()
}

fn position_created_at(created_at: &str) -> MonitoredPosition {
    MonitoredPosition {
        id: text("test"),
        signal: TradeSignal {
            instrument_name: text("NIFTY"),
            strike: Some(m(25000.0)),
            option_type: Some(text("CE")),
            expiry: None,
            action: text("BUY"),
            entry_condition: text("ABOVE"),
            entry_price: m(120.0),
            targets: vec![m(140.0), m(160.0)],
            stop_loss: m(100.0),
            source: text("test"),
            signal_id: None,
            raw_message: None,
        },
        state: TradeState::WaitingForEntry,
        created_at: text(created_at),
        current_sl: m(100.0),
        peak_ltp: None,
        next_dynamic_target: None,
        last_dynamic_rung: None,
        dynamic_rung_number: 0,
        manual_sell_qty: None,
        executed_qty: 0,
        avg_buy_price: 0,
        override_qty: None,
        resolved_order: None,
        ltp: None,
        ws_scrip_key: None,
        force_exit: None,
        override_exit_price: None,
        tick_size: m(0.05),
        entry_order_id: None,
        sl_order_id: None,
        sl_order_qty: 0,
        sl_order_trigger: 0,
        target_order_id: None,
        pending_exit_order_id: None,
        pending_exit_qty: 0,
        pending_exit_reason: None,
        entry_cancel_sent: false,
        exit_attempts: 0,
        live_halt: None,
    }
}

fn cfg_with_lots(index_lots: i32, other_lots: i32) -> TradingConfig {
    TradingConfig {
        max_trade_amount_inr: m(15_000.0),
        index_lots,
        other_lots,
        index_lots_by_symbol: LotTable::new(),
        mode: text("PAPER"),
        brokerage_per_order: m(20.0),
        target_1_exit_pct: m(50.0),
        target_2_exit_pct: m(100.0),
        entry_market_protection: m(5.0),
        dynamic_targeting: false,
        dynamic_targeting_trail_factor: m(0.5),
        dynamic_targeting_extension_factor: m(1.0),
        pre_t1_trailing: false,
        pre_t1_trail_arm_pct: m(60.0),
        pre_t1_trail_factor: m(0.5),
        kill_switch_active: false,
    }
}

/// A held position: bought at 120, with targets at 140 and 160 and a stop at 100.
fn active_position() -> MonitoredPosition {
    let mut pos = position_created_at(&current_ist_timestamp_string());
    pos.state = TradeState::Active;
    pos.avg_buy_price = m(120.0);
    pos.executed_qty = 75;
    pos
}

fn dummy_order_request() -> OrderRequest {
    OrderRequest {
        after_market_order: AmoFlag::No,
        disclosed_quantity: text("0"),
        exchange_segment: ExchangeSegment::NseFo,
        market_protection: text("0"),
        product_code: ProductCode::Nrml,
        portfolio_flag: text("N"),
        price: text("0"),
        order_type: OrderType::Limit,
        quantity: text("75"),
        validity: Validity::Day,
        trigger_price: text("0"),
        trading_symbol: text("NIFTY24JUL25000CE"),
        transaction_type: TransactionType::Buy,
    }
}

#[test]
fn texts_are_trimmed_as_std_does() {
    for s in ["", " ", " a ", "\u{a0}x\u{2003}", "\t\r\n", "a b", "\u{85}q\u{1680}"] {
        assert_eq!(trim(s), s.trim());
        assert_eq!(trim(&trim(s)), trim(s));
        assert_eq!(is_blank(s), s.trim().is_empty());
    }
}

#[test]
fn texts_are_searched_as_std_does() {
    for (s, p) in [("abc", "bc"), ("abc", ""), ("", "a"), ("aab", "ab"), ("ab", "abc")] {
        assert_eq!(contains(s, p), s.contains(p));
        assert_eq!(starts_with(s, p), s.starts_with(p));
        assert_eq!(ends_with(s, p), s.ends_with(p));
    }
    assert!(eq_ignore_case("CaNcElLeD", "cancelled"));
    assert!(!eq_ignore_case("ä", "Ä"));
}

#[test]
fn whole_numbers_print_and_read_back() {
    for n in [0i32, 7, -7, 1_000, i32::MAX, i32::MIN] {
        let s = i64_text(n as i64);
        assert_eq!(s, n.to_string());
        assert_eq!(parse_i32(&s), Some(n));
    }
    assert_eq!(u64_text(u64::MAX), u64::MAX.to_string());
    for s in ["", "+", "-", "+5", "2147483648", "-2147483649", "1.0", " 1", "0007"] {
        assert_eq!(parse_i32(s), s.parse::<i32>().ok());
    }
}

#[test]
fn decimals_are_read_to_the_millionth() {
    assert_eq!(parse_millionths("12.5"), Some(12_500_000));
    assert_eq!(parse_millionths("-0.000001"), Some(-1));
    assert_eq!(parse_millionths("1e3"), Some(1_000_000_000));
    assert_eq!(parse_millionths("25E-2"), Some(250_000));
    assert_eq!(parse_millionths(".5"), Some(500_000));
    assert_eq!(parse_millionths("5."), Some(5_000_000));
    assert_eq!(parse_millionths(""), None);
    assert_eq!(parse_millionths("."), None);
    assert_eq!(parse_millionths("abc"), None);
    assert_eq!(parse_millionths("1,000"), None);
}

#[test]
fn decimals_are_printed() {
    assert_eq!(plain(m(5.0)), "5");
    assert_eq!(plain(m(2.5)), "2.5");
    assert_eq!(plain(m(-0.05)), "-0.05");
    assert_eq!(plain(0), "0");
    assert_eq!(plain(1), "0.000001");
    assert_eq!(two_place_text(m(120.0)), "120.00");
    assert_eq!(two_place_text(m(120.126)), "120.13");
    assert_eq!(two_place_text(m(-3.5)), "-3.50");
    assert_eq!(two_place_text(m(0.125)), "0.12");
    assert_eq!(two_place_text(m(0.375)), "0.38");
}

#[test]
fn divisions_round_as_they_say() {
    assert_eq!(div_down(7, 2), 3);
    assert_eq!(div_down(-7, 2), -4);
    assert_eq!(div_up(7, 2), 4);
    assert_eq!(div_up(-7, 2), -3);
    assert_eq!(to_i32(1i128 << 40), i32::MAX);
    assert_eq!(to_i64(-(1i128 << 80)), i64::MIN);
}

#[test]
fn trailed_stops_and_rungs() {
    // Half of the distance of 20 below 140, and all of it above.
    assert_eq!(below(m(140.0), m(20.0) as i128, m(0.5)), m(130.0));
    assert_eq!(above(m(140.0), m(20.0) as i128, m(1.0)), m(160.0));
    // A full factor takes the stop back to the entry.
    assert_eq!(below(m(140.0), m(20.0) as i128, m(1.0)), m(120.0));
    let stop = round_down_tick(below(m(140.0), m(20.0) as i128, m(0.33)), m(0.05));
    assert_eq!(stop, m(133.40));
    assert!(m(120.0) <= stop && stop <= m(140.0));
}

#[test]
fn the_grid_is_kept() {
    for p in [0.0, 0.05, 17.35, 120.10] {
        assert_eq!(round_down_tick(m(p), m(0.05)), m(p));
    }
    let r = round_down_tick(m(17.37), m(0.05));
    assert_eq!(r % m(0.05), 0);
    assert_eq!(r, m(17.35));
}

#[test]
fn purchases_are_sized() {
    let cfg = cfg_with_lots(2, 3);
    let mut sig = position_created_at("").signal;
    assert_eq!(compute_entry_qty(&sig, 75, None, &cfg, Some(m(100.0))), 150);
    assert_eq!(compute_entry_qty(&sig, 75, Some(4), &cfg, None), 300);
    sig.instrument_name = text("RELIANCE");
    assert_eq!(compute_entry_qty(&sig, 250, None, &cfg, None), 750);
    // Shares: as many as the amount buys, in whole lots, and at least one lot.
    sig.option_type = None;
    assert_eq!(compute_entry_qty(&sig, 1, None, &cfg, Some(m(100.0))), 150);
    assert_eq!(compute_entry_qty(&sig, 40, None, &cfg, Some(m(100.0))), 120);
    assert_eq!(compute_entry_qty(&sig, 200, None, &cfg, Some(m(100.0))), 200);
    assert_eq!(compute_entry_qty(&sig, 10, None, &cfg, None), 10);
    assert_eq!(compute_entry_qty(&sig, 0, None, &cfg, Some(m(40_000.0))), 1);
}

#[test]
fn no_lots_no_purchase() {
    let cfg = cfg_with_lots(0, 0);
    let sig = position_created_at("").signal;
    assert_eq!(compute_entry_qty(&sig, 75, None, &cfg, Some(m(100.0))), 0);
}

#[test]
fn indices_are_known_by_name() {
    assert!(is_index_name("NIFTY"));
    assert!(is_index_name("SENSEX"));
    assert!(!is_index_name("RELIANCE"));
}

#[test]
fn lots_come_from_the_order() {
    let mut pos = active_position();
    assert_eq!(lot_size_of(&pos), 1);
    pos.resolved_order = Some(dummy_order_request());
    assert_eq!(lot_size_of(&pos), 75);
}

#[test]
fn slices_fit_the_holding() {
    for held in [0, 1, 74, 75, 150, 225] {
        for pct in [0.0, 20.0, 50.0, 100.0] {
            let a = tgt1_slice_qty(held, 75, m(pct));
            assert!(0 <= a && a <= held);
            let b = paper_slice_qty(held, 75, m(pct));
            assert!(0 <= b && b <= held);
        }
    }
    assert_eq!(tgt1_slice_qty(225, 75, m(50.0)) % 75, 0);
}

#[test]
fn fresh_settings() {
    let cfg = default_config();
    assert_eq!(cfg.mode, "PAPER");
    assert!(!cfg.kill_switch_active);
    assert_eq!(cfg.max_trade_amount_inr, m(10_000.0));
    assert_eq!(default_entry_mp(), m(5.0));
    assert_eq!(default_trail_factor(), m(0.5));
    assert_eq!(default_pre_t1_arm_pct(), m(60.0));
    assert_eq!(default_extension_factor(), m(1.0));
    assert_eq!(default_tick_size(), m(0.05));
    assert_eq!(load_config(None).index_lots, 1);
}

#[test]
fn settings_are_kept_in_bounds() {
    let mut cfg = cfg_with_lots(-1, -2);
    cfg.dynamic_targeting_trail_factor = m(7.0);
    cfg.dynamic_targeting_extension_factor = 0;
    cfg.pre_t1_trail_arm_pct = m(-1.0);
    cfg.pre_t1_trail_factor = m(2.0);
    cfg.kill_switch_active = true;
    cfg.index_lots_by_symbol.insert(text("nifty"), 2);
    cfg.index_lots_by_symbol.insert(text("TYPO"), 2);
    cfg.index_lots_by_symbol.insert(text("SENSEX"), 0);
    let loaded = load_config(Some(cfg.clone()));
    assert_eq!((loaded.index_lots, loaded.other_lots), (0, 0));
    assert!(!loaded.kill_switch_active);
    let c = sanitize_config(cfg, true);
    assert_eq!((c.index_lots, c.other_lots), (0, 0));
    assert_eq!(c.dynamic_targeting_trail_factor, m(1.0));
    assert_eq!(c.dynamic_targeting_extension_factor, m(0.05));
    assert_eq!(c.pre_t1_trail_arm_pct, 0);
    assert_eq!(c.pre_t1_trail_factor, m(1.0));
    assert!(c.kill_switch_active);
    assert_eq!(c.index_lots_by_symbol.entries(), vec![(text("NIFTY"), 2)]);
    let again = sanitize_config(c.clone(), false);
    assert_eq!(again.index_lots_by_symbol.entries(), c.index_lots_by_symbol.entries());
    assert!(!again.kill_switch_active);
}

#[test]
fn rounding_goes_down_on_fine_grids_too() {
    assert_eq!(round_down_tick(m(1.0075), m(0.0025)), m(1.0075));
    assert_eq!(round_down_tick(m(1.0099), m(0.0025)), m(1.0075));
    assert_eq!(round_down_tick(m(-1.0076), m(0.0025)), m(-1.01));
    assert_eq!(half_way_down(m(120.03), m(140.0), m(0.05)), m(130.0));
    assert_eq!(stop_behind(m(140.0), m(19.97) as i128, m(1.0), m(0.05)), m(120.03));
    assert_eq!(stop_behind(m(140.0), m(20.0) as i128, m(0.33), m(0.05)), m(133.4));
    assert_eq!(round2(m(1.005)), m(1.01));
    assert_eq!(round2(m(-1.005)), m(-1.01));
    assert_eq!(round2(m(1.004999)), m(1.0));
}

#[test]
fn huge_exponents_are_read() {
    assert_eq!(parse_millionths("1e99999999999999999999999"), Some(i64::MAX));
    assert_eq!(parse_millionths("-1e10000"), Some(-i64::MAX));
    assert_eq!(parse_millionths("0e10000"), Some(0));
    assert_eq!(parse_millionths("1e-99999999999999999999999"), Some(0));
    let long = format!("0.{}1e10001", "0".repeat(10_000));
    assert_eq!(parse_millionths(&long), Some(m(1.0)));
    assert_eq!(parse_millionths("1e1x"), None);
}
