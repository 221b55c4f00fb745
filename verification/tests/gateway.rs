use auto_trader::broker::{KotakCredentials, KotakError};
use auto_trader::domain::{
    AmoFlag, ExchangeSegment, OrderRequest, OrderType, ProductCode, TransactionType, Validity,
};
use auto_trader::gateway::{
    cancel_answer, find_csv_url, is_empty_book, limits_answer, login_failure, modify_answer,
    order_answer, order_book_answer, place_answer, positions_answer, scrip_master_url,
    session_check, AuthData, CallBody, Json, JsonField, KotakClient, LimitsReply, OrderReply,
};
use auto_trader::orders::cancel_symbol;

fn text(s: &str) -> String {
    s.to_string()
}

fn field(name: &str, value: Json) -> JsonField {
    JsonField { name: text(name), value }
}

fn word(s: &str) -> Json {
    Json::Text(text(s))
}

#[test]
fn test_find_csv_url_standard_and_versioned() {
    let sample_response = Json::Object(vec![field(
        "data",
        Json::Object(vec![
            field(
                "filesPaths",
                Json::List(vec![
                    word("https://lapi.kotaksecurities.com/wso2-scripmaster/v1/prod/2026-07-27/transformed/nse_fo.csv"),
                    word("https://lapi.kotaksecurities.com/wso2-scripmaster/v1/prod/2026-07-27/transformed/bse_fo.csv"),
                    word("https://lapi.kotaksecurities.com/wso2-scripmaster/v1/prod/2026-07-27/transformed-v1/bse_cm-v1.csv"),
                    word("https://lapi.kotaksecurities.com/wso2-scripmaster/v1/prod/2026-07-27/transformed-v1/nse_cm-v1.csv"),
                ]),
            ),
            field(
                "baseFolder",
                word("https://lapi.kotaksecurities.com/wso2-scripmaster/v1/prod"),
            ),
        ]),
    )]);

    assert_eq!(
        find_csv_url(&sample_response, "nse_fo"),
        Some("https://lapi.kotaksecurities.com/wso2-scripmaster/v1/prod/2026-07-27/transformed/nse_fo.csv".to_string())
    );
    assert_eq!(
        find_csv_url(&sample_response, "bse_fo"),
        Some("https://lapi.kotaksecurities.com/wso2-scripmaster/v1/prod/2026-07-27/transformed/bse_fo.csv".to_string())
    );
    assert_eq!(
        find_csv_url(&sample_response, "nse_cm"),
        Some("https://lapi.kotaksecurities.com/wso2-scripmaster/v1/prod/2026-07-27/transformed-v1/nse_cm-v1.csv".to_string())
    );
    assert_eq!(
        find_csv_url(&sample_response, "bse_cm"),
        Some("https://lapi.kotaksecurities.com/wso2-scripmaster/v1/prod/2026-07-27/transformed-v1/bse_cm-v1.csv".to_string())
    );
    assert_eq!(
        find_csv_url(&sample_response, "mcx_fo"),
        None
    );
}

#[test]
fn a_text_under_the_name_of_the_segment_comes_first() {
    let reply = Json::Object(vec![
        field("a", word("https://x/nse_fo.csv")),
        field("nse_fo", word("https://direct")),
    ]);
    assert_eq!(find_csv_url(&reply, "nse_fo"), Some(text("https://direct")));
    // What is no text under that name is passed over.
    let reply = Json::Object(vec![
        field("nse_fo", Json::Bool(true)),
        field("a", word("https://x/of/nse_fo/list.csv")),
    ]);
    assert_eq!(find_csv_url(&reply, "nse_fo"), Some(text("https://x/of/nse_fo/list.csv")));
    assert_eq!(find_csv_url(&Json::Null, "nse_fo"), None);
    assert_eq!(find_csv_url(&Json::Number(text("1")), "1"), None);
}

#[test]
fn an_address_that_is_missing_is_an_error() {
    match scrip_master_url(&Json::List(vec![]), "bse_fo") {
        Err(KotakError::OrderRejected { status_code, message }) => {
            assert_eq!(status_code, 404);
            assert_eq!(message, "CSV URL not found for bse_fo");
        }
        other => panic!("{:?}", other),
    }
    let reply = Json::List(vec![word("u/bse_fo-v2.csv")]);
    assert_eq!(scrip_master_url(&reply, "bse_fo").unwrap(), "u/bse_fo-v2.csv");
}

#[test]
fn failed_logins_say_why() {
    let reply = Some(Json::Object(vec![field("message", word("bad code"))]));
    assert_eq!(login_failure("body", &reply, "401 Unauthorized"), "bad code (HTTP 401 Unauthorized)");
    let reply = Some(Json::Object(vec![field(
        "fault",
        Json::Object(vec![field("message", word("blocked"))]),
    )]));
    assert_eq!(login_failure("body", &reply, "403 Forbidden"), "blocked (HTTP 403 Forbidden)");
    let reply = Some(Json::Object(vec![field("error", word("oops"))]));
    assert_eq!(login_failure("body", &reply, "500"), "oops (HTTP 500)");
    assert_eq!(login_failure("body", &Some(Json::Null), "500"), "body (HTTP 500)");
    assert_eq!(login_failure("body", &None, "500"), "body (HTTP 500)");
}

fn order() -> OrderRequest {
    OrderRequest {
        after_market_order: AmoFlag::No,
        disclosed_quantity: text("0"),
        exchange_segment: ExchangeSegment::NseFo,
        market_protection: text("5"),
        product_code: ProductCode::Nrml,
        portfolio_flag: text("N"),
        price: text("0"),
        order_type: OrderType::Market,
        quantity: text("75"),
        validity: Validity::Ioc,
        trigger_price: text("0"),
        trading_symbol: text("NIFTY24JUL25000CE"),
        transaction_type: TransactionType::Sell,
    }
}

fn client() -> KotakClient {
    KotakClient::new(text("https://auth"), text("key"), text(" token \n"))
}

fn pairs(v: &[(&str, &str)]) -> Vec<(String, String)> {
    v.iter().map(|(a, b)| (text(a), text(b))).collect()
}

fn form(body: CallBody) -> Vec<(String, String)> {
    match body {
        CallBody::Form(f) => f,
        other => panic!("{:?}", other),
    }
}

#[test]
fn calls_need_a_session() {
    let c = client();
    assert!(!c.is_authenticated());
    assert!(c.session_credentials().is_none());
    assert!(matches!(c.place_live_order(&order()), Err(KotakError::NotAuthenticated)));
    assert!(matches!(c.modify_order(&order(), "1"), Err(KotakError::NotAuthenticated)));
    assert!(matches!(c.cancel_order("1", None), Err(KotakError::NotAuthenticated)));
    assert!(matches!(c.get_positions(), Err(KotakError::NotAuthenticated)));
    assert!(matches!(c.get_order_book(), Err(KotakError::NotAuthenticated)));
    assert!(matches!(c.get_limits(), Err(KotakError::NotAuthenticated)));
    match c.get_scrip_master_csv() {
        Err(KotakError::OrderRejected { status_code, message }) => {
            assert_eq!(status_code, 401);
            assert_eq!(message, "Not logged in");
        }
        other => panic!("{:?}", other),
    }
}

#[test]
fn a_restored_session_makes_calls() {
    let mut c = client();
    c.restore_session(text("auth"), text("sid"), text("https://base"));
    assert!(c.is_authenticated());
    assert_eq!(c.session_credentials(), Some(("auth", "sid")));

    let call = c.get_positions().unwrap();
    assert!(!call.post);
    assert_eq!(call.url, "https://base/quick/user/positions");
    assert_eq!(call.headers, pairs(&[("Sid", "sid"), ("Auth", "auth"), ("neo-fin-key", "key")]));
    assert!(matches!(call.body, CallBody::Nothing));

    let c = c.with_client_ip(text("10.0.0.1"));
    let call = c.get_order_book().unwrap();
    assert_eq!(call.url, "https://base/quick/user/orders");
    assert_eq!(call.headers[3], (text("X-Forwarded-For"), text("10.0.0.1")));

    let call = c.get_limits().unwrap();
    assert!(call.post);
    assert_eq!(call.url, "https://base/quick/user/limits");
    assert_eq!(form(call.body), pairs(&[("seg", "ALL"), ("exch", "ALL"), ("prod", "ALL")]));

    let call = c.get_scrip_master_csv().unwrap();
    assert_eq!(call.url, "https://base/script-details/1.0/masterscrip/file-paths");
    assert_eq!(call.headers, pairs(&[("Authorization", "token")]));

    let copy = c.clone();
    assert_eq!(copy.session_credentials(), Some(("auth", "sid")));
}

#[test]
fn orders_carry_the_names_of_the_broker() {
    let mut c = client();
    c.restore_session(text("auth"), text("sid"), text("https://base"));
    let call = c.place_live_order(&order()).unwrap();
    assert_eq!(call.url, "https://base/quick/order/rule/ms/place");
    assert_eq!(
        form(call.body),
        pairs(&[
            ("am", "NO"),
            ("dq", "0"),
            ("es", "nse_fo"),
            ("mp", "5"),
            ("pc", "NRML"),
            ("pf", "N"),
            ("pr", "0"),
            ("pt", "MKT"),
            ("qt", "75"),
            ("rt", "IOC"),
            ("tp", "0"),
            ("ts", "NIFTY24JUL25000CE"),
            ("tt", "S"),
        ])
    );
    let call = c.modify_order(&order(), "42").unwrap();
    assert_eq!(call.url, "https://base/quick/order/vr/modify");
    let fields = form(call.body);
    assert!(fields.contains(&(text("vd"), text("IOC"))));
    assert!(fields.iter().all(|f| f.0 != "rt"));
    assert_eq!(fields[13], (text("no"), text("42")));
    let call = c.cancel_order("42", cancel_symbol("SYM")).unwrap();
    assert_eq!(call.url, "https://base/quick/order/cancel");
    assert_eq!(form(call.body), pairs(&[("on", "42"), ("am", "NO"), ("ts", "SYM")]));
    let call = c.cancel_order("42", cancel_symbol("")).unwrap();
    assert_eq!(form(call.body), pairs(&[("on", "42"), ("am", "NO")]));
}

#[test]
fn logins_take_two_calls() {
    let mut c = client();
    let creds = KotakCredentials {
        access_token: text("token"),
        mobile_number: text("+911234567890"),
        ucc: text("ABCDE"),
        totp: text("123456"),
        mpin: text("654321"),
    };
    let call = c.login_totp(&creds);
    assert_eq!(call.url, "https://auth/tradeApiLogin");
    assert_eq!(
        call.headers,
        pairs(&[
            ("Authorization", "token"),
            ("neo-fin-key", "key"),
            ("Content-Type", "application/json"),
        ])
    );
    match call.body {
        CallBody::Plain(f) => assert_eq!(
            f,
            pairs(&[("mobileNumber", "+911234567890"), ("ucc", "ABCDE"), ("totp", "123456")])
        ),
        other => panic!("{:?}", other),
    }
    let call = c.validate_mpin("view", "sid0", "654321");
    assert_eq!(call.url, "https://auth/tradeApiValidate");
    assert_eq!(call.headers[2], (text("sid"), text("sid0")));
    assert_eq!(call.headers[3], (text("Auth"), text("view")));
    match call.body {
        CallBody::Plain(f) => assert_eq!(f, pairs(&[("mpin", "654321")])),
        other => panic!("{:?}", other),
    }
    c.open_session(AuthData {
        token: text("trade"),
        sid: text("sid1"),
        base_url: None,
        data_center: Some(text("dc")),
    });
    let s = c.session.as_ref().unwrap();
    assert_eq!(s.auth_token, "trade");
    assert_eq!(s.base_url, "");
    assert_eq!(s.data_center, Some(text("dc")));
}

fn reply(stat: &str, id: Option<&str>, emsg: Option<&str>) -> OrderReply {
    OrderReply {
        stat: text(stat),
        st_code: 1006,
        n_ord_no: id.map(text),
        emsg: emsg.map(text),
    }
}

#[test]
fn orders_are_answered() {
    let r = place_answer(reply("ok", Some("77"), None)).unwrap();
    assert_eq!(r.order_id, "77");
    assert_eq!(r.status, "COMPLETE");
    assert_eq!(r.net_value, 0);
    assert_eq!(r.timestamp.len(), 19);
    assert_eq!(place_answer(reply("Ok", None, None)).unwrap().order_id, "");
    assert_eq!(modify_answer(reply("OK", None, None), "5").unwrap().order_id, "5");
    let r = cancel_answer(reply("Ok", None, None), "6").unwrap();
    assert_eq!(r.order_id, "6");
    assert_eq!(r.status, "CANCELLED");
    let r = order_answer(reply("Ok", Some("8"), None), "x", "COMPLETE", text("then")).unwrap();
    assert_eq!(r.timestamp, "then");

    match place_answer(reply("Not_Ok", Some("77"), Some("margin"))) {
        Err(KotakError::OrderRejected { status_code, message }) => {
            assert_eq!(status_code, 1006);
            assert_eq!(message, "margin");
        }
        other => panic!("{:?}", other),
    }
    let e = cancel_answer(reply("Not_Ok", None, None), "6").unwrap_err();
    assert_eq!(e.message(), "order rejected by broker (code 1006): Not_Ok");
}

#[test]
fn an_empty_book_is_no_error() {
    assert!(order_book_answer(text("Not_Ok"), 5203, None, vec![]).unwrap().is_empty());
    assert!(order_book_answer(text("Not_Ok"), 1, Some(text("No Data found")), vec![])
        .unwrap()
        .is_empty());
    assert!(is_empty_book(0, "there is no data"));
    assert!(!is_empty_book(0, "broken"));
    let e = order_book_answer(text("Not_Ok"), 7, Some(text("broken")), vec![]).unwrap_err();
    assert_eq!(e.message(), "API error (code 7): broken");
    assert!(positions_answer(text("Not_Ok"), 5203, None, vec![]).unwrap().is_empty());
    // Words are not enough where positions are asked for.
    assert!(positions_answer(text("Not_Ok"), 1, Some(text("No Data")), vec![]).is_err());
    assert!(positions_answer(text("Ok"), 200, None, vec![]).unwrap().is_empty());
}

#[test]
fn limits_are_read_loosely() {
    let l = limits_answer(LimitsReply {
        stat: text("Ok"),
        st_code: 200,
        net: text(" 12345.67 "),
        margin_used: text("junk"),
        collateral_value: text("1e3"),
        emsg: None,
    })
    .unwrap();
    assert_eq!(l.net, 12_345_670_000);
    assert_eq!(l.margin_used, 0);
    assert_eq!(l.collateral_value, 1_000_000_000);
    let e = limits_answer(LimitsReply {
        stat: text("Not_Ok"),
        st_code: 9,
        net: text(""),
        margin_used: text(""),
        collateral_value: text(""),
        emsg: None,
    })
    .unwrap_err();
    assert_eq!(e.message(), "API error (code 9): Not_Ok");
}

#[test]
fn dead_sessions_are_told_by_their_status() {
    assert!(session_check(200).is_ok());
    assert!(session_check(500).is_ok());
    let e = session_check(401).unwrap_err();
    assert_eq!(e.message(), "Kotak session expired (HTTP 401) — re-login required");
    assert!(e.is_session_expired());
    assert!(!e.is_ambiguous());
    assert!(session_check(403).is_err());
}

#[test]
fn errors_have_their_words() {
    assert_eq!(KotakError::Http(text("x")).message(), "HTTP error: x");
    assert_eq!(KotakError::Json(text("x")).message(), "JSON error: x");
    assert_eq!(
        KotakError::NotAuthenticated.message(),
        "not authenticated — call login() first"
    );
    assert_eq!(KotakError::LoginTotpFailed(text("x")).message(), "TOTP login failed: x");
    assert_eq!(KotakError::LoginMpinFailed(text("x")).message(), "MPIN validation failed: x");
    assert_eq!(KotakError::TotpSecretInvalid(text("x")).message(), "invalid TOTP secret: x");
    assert_eq!(KotakError::Ws(text("x")).message(), "WebSocket error: x");
    assert!(KotakError::Http(text("x")).is_ambiguous());
    assert!(KotakError::Json(text("x")).is_ambiguous());
    assert!(KotakError::NotAuthenticated.is_session_expired());
    assert!(!KotakError::Ws(text("x")).is_session_expired());
}
