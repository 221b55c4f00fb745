use auto_trader::auth::{
    check_passkey, check_token, count_caller, give_verdict, is_public_path, issue_token,
    join_dotted, split_text, token_expiry, token_is_live, token_of_call, try_login,
    PasskeyOutcome, PasskeyReq, RateLimitEntry, TokenRefusal, WINDOW_NANOS,
};
use dashmap::DashMap;

fn text(s: &str) -> String {
    s.to_string()
}

#[test]
fn only_the_interface_is_guarded() {
    assert!(is_public_path("/"));
    assert!(is_public_path("/assets/app.js"));
    assert!(is_public_path("/api/health"));
    assert!(is_public_path("/api/auth/verify-passkey"));
    assert!(!is_public_path("/api/positions"));
    assert!(!is_public_path("/api/health/more"));
}

#[test]
fn tokens_are_found_in_calls() {
    assert_eq!(token_of_call("/api/x", Some("Bearer abc"), ""), Some(text("abc")));
    assert_eq!(token_of_call("/api/x", Some("Basic abc"), "token=q"), None);
    assert_eq!(token_of_call("/api/x", None, "token=q"), None);
    let path = "/api/logs/stream";
    assert_eq!(token_of_call(path, None, "a=1&token=q&token=z"), Some(text("q")));
    assert_eq!(token_of_call(path, None, "token=token=q"), Some(text("q")));
    assert_eq!(token_of_call(path, Some("Bearer h"), "token=q"), Some(text("h")));
    assert_eq!(token_of_call(path, None, "a=1"), None);
    assert_eq!(token_of_call(path, None, ""), None);
}

#[test]
fn texts_are_split() {
    assert_eq!(split_text("a.b..c", '.'), vec!["a", "b", "", "c"]);
    assert_eq!(split_text("", '.'), vec![""]);
}

#[test]
fn tokens_check_out_under_their_secret() {
    let header = b"{\"alg\":\"HS256\",\"typ\":\"AT\"}".to_vec();
    let payload = b"{\"sub\":\"trader\",\"iat\":1,\"exp\":2}".to_vec();
    let token = issue_token(&header, &payload, "secret");
    assert!(token.starts_with("eyJhbGciOiJIUzI1NiIsInR5cCI6IkFUIn0."));
    assert_eq!(token.split('.').count(), 3);
    assert_eq!(check_token(&token, "secret"), Ok(payload.clone()));
    assert_eq!(check_token(&token, "other"), Err(TokenRefusal::BadSignature));
    assert_eq!(check_token(&token, ""), Err(TokenRefusal::NotConfigured));
    assert_eq!(check_token("a.b", "secret"), Err(TokenRefusal::Malformed));
    assert_eq!(check_token("a.b.c.d", ""), Err(TokenRefusal::Malformed));
}

#[test]
fn signatures_are_those_of_the_published_algorithm() {
    // The well-known example of a signed token.
    let header = b"{\"alg\":\"HS256\",\"typ\":\"JWT\"}".to_vec();
    let payload =
        b"{\"sub\":\"1234567890\",\"name\":\"John Doe\",\"iat\":1516239022}".to_vec();
    let token = issue_token(&header, &payload, "your-256-bit-secret");
    let parts = split_text(&token, '.');
    assert_eq!(parts[0], "eyJhbGciOiJIUzI1NiIsInR5cCI6IkpXVCJ9");
    assert_eq!(
        parts[1],
        "eyJzdWIiOiIxMjM0NTY3ODkwIiwibmFtZSI6IkpvaG4gRG9lIiwiaWF0IjoxNTE2MjM5MDIyfQ"
    );
    assert_eq!(parts[2], "SflKxwRJSMeKKF2QT4fwpMeJf36POk6yJV_adQssw5c");
}

#[test]
fn verdicts_follow_the_order_of_the_checks() {
    assert_eq!(give_verdict(false, "s", "s", Some(vec![1])), Err(TokenRefusal::NotConfigured));
    assert_eq!(give_verdict(true, "s", "t", Some(vec![1])), Err(TokenRefusal::BadSignature));
    assert_eq!(give_verdict(true, "s", "s", None), Err(TokenRefusal::BadPayload));
    assert_eq!(give_verdict(true, "s", "s", Some(vec![1])), Ok(vec![1]));
    assert_eq!(join_dotted("a", "b"), "a.b");
}

#[test]
fn tokens_run_out_after_a_week() {
    assert_eq!(token_expiry(1_000), 1_000 + 604_800);
    assert_eq!(token_expiry(u64::MAX), u64::MAX);
    assert!(token_is_live(5, 5));
    assert!(!token_is_live(6, 5));
}

#[test]
fn passkeys_are_compared_whole() {
    let req = PasskeyReq { passkey: text("open") };
    assert_eq!(check_passkey(&req, None, Some("s")), PasskeyOutcome::NoPasskey);
    assert_eq!(check_passkey(&req, Some(""), Some("s")), PasskeyOutcome::NoPasskey);
    assert_eq!(check_passkey(&req, Some("opem"), Some("s")), PasskeyOutcome::Wrong);
    assert_eq!(check_passkey(&req, Some("opens"), Some("s")), PasskeyOutcome::Wrong);
    assert_eq!(check_passkey(&req, Some("open"), None), PasskeyOutcome::NoSecret);
    assert_eq!(check_passkey(&req, Some("open"), Some("")), PasskeyOutcome::NoSecret);
    assert_eq!(check_passkey(&req, Some("open"), Some("s")), PasskeyOutcome::Granted);
}

#[test]
fn the_sixth_attempt_is_refused() {
    let mut e = RateLimitEntry::first(7);
    for n in 2..6 {
        assert_eq!(e.count_attempt(1_000), Some(n));
    }
    assert_eq!(e.count_attempt(WINDOW_NANOS + 7), None);
    assert_eq!(e.attempts, 5);
    // A new window starts the count anew.
    assert_eq!(e.count_attempt(WINDOW_NANOS + 8), Some(1));
    assert_eq!((e.attempts, e.window_start), (1, WINDOW_NANOS + 8));
}

#[test]
fn callers_are_counted_one_by_one() {
    let mut table: DashMap<String, RateLimitEntry> = DashMap::new();
    let wrong = PasskeyReq { passkey: text("shut") };
    let right = PasskeyReq { passkey: text("open") };
    // Five attempts spread over one window, which is that of the first.
    let end = WINDOW_NANOS + 1;
    for now in [1, 2, 1_000, end - 1, end] {
        let outcome = try_login(&mut table, "a", now, &wrong, Some("open"), Some("s"));
        assert_eq!(outcome, Some(PasskeyOutcome::Wrong));
    }
    assert_eq!(table.get("a").unwrap().attempts, 5);
    assert_eq!(table.get("a").unwrap().window_start, 1);
    assert_eq!(try_login(&mut table, "a", end, &right, Some("open"), Some("s")), None);
    // Another caller is not affected.
    let outcome = try_login(&mut table, "b", 1, &right, Some("open"), Some("s"));
    assert_eq!(outcome, Some(PasskeyOutcome::Granted));
    assert!(!table.contains_key("b"));
    assert_eq!(table.get("a").unwrap().attempts, 5);
    // The window is over.
    let later = WINDOW_NANOS + 2;
    let outcome = try_login(&mut table, "a", later, &right, Some("open"), Some("s"));
    assert_eq!(outcome, Some(PasskeyOutcome::Granted));
    assert!(!table.contains_key("a"));
    assert!(count_caller(&mut table, "c", 5));
    assert_eq!(table.get("c").unwrap().window_start, 5);
}

#[test]
fn foreign_secrets_are_refused() {
    let token = issue_token(&b"{}".to_vec(), &b"{\"exp\":5}".to_vec(), "one");
    assert_eq!(check_token(&token, "one").unwrap(), b"{\"exp\":5}".to_vec());
    assert_eq!(check_token(&token, "two").unwrap_err(), TokenRefusal::BadSignature);
}
