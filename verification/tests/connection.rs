use auto_trader::broker::{
    find_holding, find_order, held_at_broker, loose_string, KotakOrder, KotakPosition, Loose,
};
use auto_trader::domain::ScripRecord;
use auto_trader::login::{
    after_login_attempt, auto_login_enabled, join_sections, kotak_status, mask_ucc,
    merge_csv_sections, non_empty, resolve_kotak_login, split_lines, totp_failure, AutoLoginNext,
    KotakLoginReq, LoginEnv, TotpSource,
};
use auto_trader::scrips::{any_name_holds, search_scrips, ScripGroup, ScripSearchParams};

fn text(s: &str) -> String {
    s.to_string()
}

fn some(s: &str) -> Option<String> {
    Some(text(s))
}

fn no_env() -> LoginEnv {
    LoginEnv {
        access_token: None,
        mobile_number: None,
        ucc: None,
        mpin: None,
        totp_secret: None,
        totp_hash: None,
    }
}

fn full_env() -> LoginEnv {
    LoginEnv {
        access_token: some("EA"),
        mobile_number: some("EM"),
        ucc: some("EUCC5"),
        mpin: some("EP"),
        totp_secret: some(" "),
        totp_hash: some("HASH"),
    }
}

fn full_form() -> KotakLoginReq {
    KotakLoginReq {
        access_token: some("A"),
        mobile_number: some("M"),
        ucc: some("U"),
        totp: some("111"),
        mpin: some("P"),
    }
}

#[test]
fn forms_are_used_whole() {
    let r = resolve_kotak_login(full_form(), &full_env()).unwrap();
    assert_eq!((r.access_token, r.mobile_number, r.ucc, r.mpin), (text("A"), text("M"), text("U"), text("P")));
    assert!(matches!(r.totp, TotpSource::Typed(c) if c == "111"));
}

#[test]
fn an_empty_form_falls_back_on_the_environment() {
    let r = resolve_kotak_login(KotakLoginReq::empty(), &full_env()).unwrap();
    assert_eq!(
        (r.access_token, r.mobile_number, r.ucc, r.mpin),
        (text("EA"), text("EM"), text("EUCC5"), text("EP"))
    );
    assert!(matches!(r.totp, TotpSource::Secret(c) if c == "HASH"));
}

#[test]
fn credentials_are_not_mixed() {
    let mut form = full_form();
    form.mpin = some("  ");
    let e = resolve_kotak_login(form, &full_env()).unwrap_err();
    assert_eq!(e, "partial login form — fill in all of access token, mobile number, UCC, and MPIN, or leave all four blank to use the configured KOTAK_* env credentials");
    // The code is exempt.
    let mut form = full_form();
    form.totp = None;
    let r = resolve_kotak_login(form, &full_env()).unwrap();
    assert!(matches!(r.totp, TotpSource::Secret(_)));
    assert_eq!(r.mpin, "P");
}

#[test]
fn what_is_missing_is_named() {
    let gap = |env: &LoginEnv| resolve_kotak_login(KotakLoginReq::empty(), env).unwrap_err();
    let mut env = no_env();
    assert_eq!(gap(&env), "access_token missing (set it in the request or KOTAK_ACCESS_TOKEN)");
    env.access_token = some("a");
    assert_eq!(gap(&env), "mobile_number missing (set it in the request or KOTAK_MOBILE_NUMBER)");
    env.mobile_number = some("m");
    assert_eq!(gap(&env), "ucc missing (set it in the request or KOTAK_UCC)");
    env.ucc = some("u");
    assert_eq!(gap(&env), "mpin missing (set it in the request or KOTAK_MPIN)");
    env.mpin = some("p");
    assert_eq!(
        gap(&env),
        "totp missing and no KOTAK_TOTP_SECRET/KOTAK_TOTP_HASH configured for auto-generation"
    );
    assert_eq!(totp_failure("bad base32"), "failed to generate TOTP: bad base32");
    assert_eq!(non_empty(some(" x ")), some(" x "));
    assert_eq!(non_empty(some("\t")), None);
}

#[test]
fn unattended_logins_can_be_switched_off() {
    assert!(auto_login_enabled(&None));
    assert!(auto_login_enabled(&some("yes")));
    assert!(!auto_login_enabled(&some(" FALSE ")));
}

#[test]
fn an_unattended_login_is_tried_twice() {
    assert!(matches!(after_login_attempt(1, Ok(())), AutoLoginNext::Connected));
    assert!(matches!(
        after_login_attempt(1, Err(text("e"))),
        AutoLoginNext::Again { attempt: 2 }
    ));
    assert!(matches!(
        after_login_attempt(2, Err(text("e"))),
        AutoLoginNext::Failed { reason } if reason == "e"
    ));
}

#[test]
fn client_codes_are_covered() {
    assert_eq!(mask_ucc("ABCDE"), "A***E");
    assert_eq!(mask_ucc("AB"), "**");
    assert_eq!(mask_ucc("A"), "*");
    assert_eq!(mask_ucc(""), "");
}

#[test]
fn the_status_says_whether_a_login_can_run() {
    let s = kotak_status(&full_env(), &None, true, false);
    assert!(!s.connected && s.session_present && !s.session_healthy);
    assert!(s.has_env_credentials && s.has_totp_secret && s.auto_login_ready);
    assert_eq!(s.auto_login_reason, None);
    assert_eq!(s.masked_ucc, some("E***5"));
    let s = kotak_status(&full_env(), &some("false"), true, true);
    assert!(s.connected && !s.auto_login_ready);
    assert_eq!(s.auto_login_reason, some("KOTAK_AUTO_LOGIN=false"));
    let s = kotak_status(&no_env(), &None, false, true);
    assert!(!s.connected && !s.has_env_credentials);
    assert_eq!(s.auto_login_reason, some("one or more of KOTAK_ACCESS_TOKEN, KOTAK_MOBILE_NUMBER, KOTAK_UCC, KOTAK_MPIN, KOTAK_TOTP_SECRET (or KOTAK_TOTP_HASH) is not set"));
    assert_eq!(s.masked_ucc, None);
}

#[test]
fn lines_are_split_as_std_does() {
    for s in ["", "a", "a\n", "a\r\nb", "a\r", "\n\n", "x\ny\r\r\nz", "\r\n"] {
        let want: Vec<String> = s.lines().map(text).collect();
        assert_eq!(split_lines(s), want);
    }
}

#[test]
fn sections_are_merged_under_one_heading() {
    let a = text("h1,h2\r\n1,2\n\n  \n3,4");
    let b = text("k1,k2\n5,6\n");
    assert_eq!(
        merge_csv_sections(&vec![a.clone(), b.clone()]),
        some("h1,h2\n1,2\n3,4\n5,6\n")
    );
    assert_eq!(merge_csv_sections(&vec![a.clone(), text("")]), None);
    assert_eq!(join_sections(&vec![a, text(""), b.clone()]), "h1,h2\n1,2\n3,4\n5,6\n");
    assert_eq!(join_sections(&vec![text(""), b]), "5,6\n");
    assert_eq!(merge_csv_sections(&vec![]), some(""));
}

fn record(token: &str, symbol: &str) -> ScripRecord {
    ScripRecord {
        trading_symbol: text(symbol),
        symbol_name: text("NIFTY"),
        instrument_token: text(token),
        exchange_segment_code: text("nse_fo"),
        option_type: text("CE"),
        strike_price: 25_000_000_000,
        expiry_date: 739_936,
        lot_size: 75,
        tick_size: 50_000,
    }
}

#[test]
fn contracts_are_found_by_their_names() {
    let groups = vec![
        ScripGroup {
            symbol: text("NIFTY"),
            records: vec![record("51386", "NIFTY24JUL25000CE"), record("2", "NIFTY24JUL25100CE")],
        },
        ScripGroup { symbol: text("RELIANCE"), records: vec![record("99", "RELIANCE-EQ")] },
    ];
    let find = |q: &str| -> Vec<String> {
        search_scrips(&groups, &ScripSearchParams { q: text(q) })
            .into_iter()
            .map(|r| r.instrument_token)
            .collect()
    };
    assert_eq!(find("nifty"), vec!["51386", "2"]);
    assert_eq!(find("reliance-eq"), vec!["99"]);
    assert_eq!(find("1386"), vec!["51386"]);
    assert_eq!(find("zzz").len(), 0);
    assert!(any_name_holds("a", "b", "c", "c"));
}

#[test]
fn a_search_stops_at_fifty() {
    let groups = vec![
        ScripGroup {
            symbol: text("A"),
            records: (0..49).map(|i| record(&i.to_string(), "x")).collect(),
        },
        ScripGroup {
            symbol: text("A2"),
            records: (49..70).map(|i| record(&i.to_string(), "x")).collect(),
        },
    ];
    let r = search_scrips(&groups, &ScripSearchParams { q: text("A") });
    assert_eq!(r.len(), 50);
    assert_eq!(r[49].instrument_token, "49");
}

fn row(no: &str, status: &str, qty: &str, filled: &str, price: &str, side: &str) -> KotakOrder {
    KotakOrder {
        order_no: text(no),
        status: text(status),
        trading_symbol: text("SYM"),
        transaction_type: text(side),
        order_type: text("MKT"),
        quantity: text(qty),
        filled_quantity: text(filled),
        average_price: text(price),
        trigger_price: text("99.5"),
        reject_reason: text(""),
    }
}

#[test]
fn rows_of_the_order_book_are_read() {
    let o = row("1", " Complete ", "75", "75.0", "120.25", " s ");
    assert_eq!(o.ordered_qty(), 75);
    // A quantity with a point is no whole number.
    assert_eq!(o.filled_qty(), 0);
    assert_eq!(o.avg_price(), 120_250_000);
    assert_eq!(o.trigger(), 99_500_000);
    assert!(o.is_sell() && o.is_complete() && o.is_terminal());
    assert!(!o.is_rejected() && !o.is_cancelled());
    assert!(row("1", "CANCELED", "", "", "", "B").is_cancelled());
    assert!(row("1", "cancelled", "", "", "", "B").is_terminal());
    assert!(row("1", "Rejected", "", "", "", "B").is_rejected());
    assert!(!row("1", "open", "", "", "", "B").is_terminal());
    let book = vec![row("1", "open", "", "", "", "B"), row("2", "open", "", "", "", "B")];
    assert_eq!(find_order(&book, "2"), Some(1));
    assert_eq!(find_order(&book, "3"), None);
}

#[test]
fn loose_values_become_text() {
    assert_eq!(loose_string(Loose::Text(text("a"))), "a");
    assert_eq!(loose_string(Loose::Number(text("12"))), "12");
    assert_eq!(loose_string(Loose::Null), "");
    assert_eq!(loose_string(Loose::Other(text("[1]"))), "[1]");
}

fn holding(symbol: &str, bought: &str, sold: &str, amount: &str) -> KotakPosition {
    KotakPosition {
        trading_symbol: text(symbol),
        symbol: text("NIFTY"),
        product: text("NRML"),
        exchange_segment: text("nse_fo"),
        filled_buy_qty: text(bought),
        filled_sell_qty: text(sold),
        buy_amount: text(amount),
        sell_amount: text("0"),
        option_type: text("CE"),
        expiry_date: text(""),
    }
}

#[test]
fn holdings_are_netted() {
    let h = holding("SYM", "150", "75", "18000");
    assert_eq!((h.buy_qty(), h.sell_qty(), h.net_qty()), (150, 75, 75));
    assert_eq!(h.avg_buy_price(), 120_000_000);
    assert_eq!(h.avg_sell_price(), 0);
    assert_eq!(holding("SYM", "0", "0", "5").avg_buy_price(), 0);
    let rows = vec![h];
    assert_eq!(find_holding(&rows, "SYM"), Some(0));
    assert_eq!(held_at_broker(&rows, "SYM"), 75);
    assert_eq!(held_at_broker(&rows, "OTHER"), 0);
}
