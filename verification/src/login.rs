//! Logging in at the broker: which credentials are used, when an unattended login is tried,
//! how long a session lasts, and the list of contracts that is fetched with it.
use vstd::prelude::*;

use crate::clock::{day_of_second, ist_date_at, IstTime};
use crate::domain::clone_opt;
use crate::text::{
    chars_of, eq_ignore_case, is_blank, join2, starts_with, text_between, trim,
};

#[allow(unused_imports)]
use crate::auth::{lemma_first_is, lemma_first_of};
#[allow(unused_imports)]
use crate::clock::{
    date_text, day_of, is_timestamp_of, second_at, timestamp_read, trading_day, YEAR_10000,
};
#[allow(unused_imports)]
use crate::decimal::first_of;
#[allow(unused_imports)]
use crate::text::{begins_with, opt_text, same_but_case, texts, trimmed};

verus! {

/// How often an unattended login is tried.
pub const MAX_LOGIN_ATTEMPTS: u32 = 2;

/// When the list of contracts is fetched anew, each trading day.
pub const REFRESH_HOUR: u32 = 9;

pub const REFRESH_MINUTE: u32 = 10;

// ---------------------------------------------------------------------------
// Credentials
// ---------------------------------------------------------------------------

/// A login form. What is left out is taken from the environment.
#[derive(Debug)]
pub struct KotakLoginReq {
    pub access_token: Option<String>,
    pub mobile_number: Option<String>,
    pub ucc: Option<String>,
    pub totp: Option<String>,
    pub mpin: Option<String>,
}

impl KotakLoginReq {
    /// An empty form.
    pub fn empty() -> (res: Self)
        ensures
            res.access_token is None && res.mobile_number is None && res.ucc is None
                && res.totp is None && res.mpin is None,
    {
        KotakLoginReq {
            access_token: None,
            mobile_number: None,
            ucc: None,
            totp: None,
            mpin: None,
        }
    }
}

/// What the environment holds for a login.
#[derive(Debug)]
pub struct LoginEnv {
    pub access_token: Option<String>,
    pub mobile_number: Option<String>,
    pub ucc: Option<String>,
    pub mpin: Option<String>,
    pub totp_secret: Option<String>,
    pub totp_hash: Option<String>,
}

/// Where the one-time code comes from.
#[derive(Debug)]
pub enum TotpSource {
    /// It was typed in.
    Typed(String),
    /// It is derived from this secret.
    Secret(String),
}

/// The text of a one-time code, or of the secret that it is derived from.
#[verifier::ext_equal]
pub ghost struct TotpView {
    pub derived: bool,
    pub value: Seq<char>,
}

impl View for TotpSource {
    type V = TotpView;

    open spec fn view(&self) -> TotpView {
        match self {
            TotpSource::Typed(s) => TotpView { derived: false, value: s@ },
            TotpSource::Secret(s) => TotpView { derived: true, value: s@ },
        }
    }
}

/// Credentials, complete but for a code that is yet to be derived.
#[derive(Debug)]
pub struct ResolvedKotakLogin {
    pub access_token: String,
    pub mobile_number: String,
    pub ucc: String,
    pub mpin: String,
    pub totp: TotpSource,
}

/// What credentials say.
#[verifier::ext_equal]
pub ghost struct LoginView {
    pub access_token: Seq<char>,
    pub mobile_number: Seq<char>,
    pub ucc: Seq<char>,
    pub mpin: Seq<char>,
    pub totp: TotpView,
}

impl View for ResolvedKotakLogin {
    type V = LoginView;

    open spec fn view(&self) -> LoginView {
        LoginView {
            access_token: self.access_token@,
            mobile_number: self.mobile_number@,
            ucc: self.ucc@,
            mpin: self.mpin@,
            totp: self.totp@,
        }
    }
}

/// An entry that holds more than white space.
pub open spec fn filled(o: Option<Seq<char>>) -> Option<Seq<char>> {
    match o {
        Some(s) if trimmed(s).len() > 0 => Some(s),
        _ => None,
    }
}

/// The first of two entries that is filled in.
pub open spec fn either(a: Option<Seq<char>>, b: Option<Seq<char>>) -> Option<Seq<char>> {
    if filled(a) is Some {
        filled(a)
    } else {
        filled(b)
    }
}

/// An entry that holds more than white space.
pub fn non_empty(o: Option<String>) -> (res: Option<String>)
    ensures
        opt_text(res) == filled(opt_text(o)),
{
    match o {
        Some(s) => if is_blank(s.as_str()) {
            None
        } else {
            Some(s)
        },
        None => None,
    }
}

fn either_of(a: Option<String>, b: &Option<String>) -> (res: Option<String>)
    ensures
        opt_text(res) == either(opt_text(a), opt_text(*b)),
{
    match non_empty(a) {
        Some(s) => Some(s),
        None => non_empty(clone_opt(b)),
    }
}

/// Whether an entry of a form is filled in, as a number.
pub open spec fn one_if_filled(o: Option<String>) -> int {
    if filled(opt_text(o)) is Some {
        1
    } else {
        0
    }
}

/// How many of the four entries that say who logs in are filled in.
pub open spec fn identity_entries(req: KotakLoginReq) -> int {
    one_if_filled(req.access_token) + one_if_filled(req.mobile_number) + one_if_filled(req.ucc)
        + one_if_filled(req.mpin)
}

/// The text for a form that says only in part who logs in.
pub open spec fn partial_form_text() -> Seq<char> {
    "partial login form — fill in all of access token, mobile number, UCC, and MPIN, or leave all four blank to use the configured KOTAK_* env credentials"@
}

/// What is missing for a login, if anything, in the order in which it is looked for.
pub open spec fn login_gap(req: KotakLoginReq, env: LoginEnv) -> Option<Seq<char>> {
    if 0 < identity_entries(req) < 4 {
        Some(partial_form_text())
    } else if either(opt_text(req.access_token), opt_text(env.access_token)) is None {
        Some("access_token missing (set it in the request or KOTAK_ACCESS_TOKEN)"@)
    } else if either(opt_text(req.mobile_number), opt_text(env.mobile_number)) is None {
        Some("mobile_number missing (set it in the request or KOTAK_MOBILE_NUMBER)"@)
    } else if either(opt_text(req.ucc), opt_text(env.ucc)) is None {
        Some("ucc missing (set it in the request or KOTAK_UCC)"@)
    } else if either(opt_text(req.mpin), opt_text(env.mpin)) is None {
        Some("mpin missing (set it in the request or KOTAK_MPIN)"@)
    } else if filled(opt_text(req.totp)) is None && either(
        opt_text(env.totp_secret),
        opt_text(env.totp_hash),
    ) is None {
        Some(
            "totp missing and no KOTAK_TOTP_SECRET/KOTAK_TOTP_HASH configured for auto-generation"@,
        )
    } else {
        None
    }
}

/// The credentials that a form and the environment give together.
pub open spec fn login_of(req: KotakLoginReq, env: LoginEnv) -> LoginView {
    LoginView {
        access_token: either(opt_text(req.access_token), opt_text(env.access_token))->0,
        mobile_number: either(opt_text(req.mobile_number), opt_text(env.mobile_number))->0,
        ucc: either(opt_text(req.ucc), opt_text(env.ucc))->0,
        mpin: either(opt_text(req.mpin), opt_text(env.mpin))->0,
        totp: match filled(opt_text(req.totp)) {
            Some(s) => TotpView { derived: false, value: s },
            None => TotpView {
                derived: true,
                value: either(opt_text(env.totp_secret), opt_text(env.totp_hash))->0,
            },
        },
    }
}

fn is_filled(o: &Option<String>) -> (res: bool)
    ensures
        res == (filled(opt_text(*o)) is Some),
{
    match o {
        Some(s) => !is_blank(s.as_str()),
        None => false,
    }
}

/// Find the credentials for a login: those of the form, or, where the form names none, those
/// of the environment.
pub fn resolve_kotak_login(req: KotakLoginReq, env: &LoginEnv) -> (res: Result<
    ResolvedKotakLogin,
    String,
>)
    ensures
        res is Err <==> login_gap(req, *env) is Some,
        res matches Err(e) ==> Some(e@) == login_gap(req, *env),
        res matches Ok(r) ==> r@ == login_of(req, *env),
{
    let mut n: u32 = 0;
    if is_filled(&req.access_token) {
        n += 1;
    }
    if is_filled(&req.mobile_number) {
        n += 1;
    }
    if is_filled(&req.ucc) {
        n += 1;
    }
    if is_filled(&req.mpin) {
        n += 1;
    }
    assert(n == identity_entries(req));
    if n > 0 && n < 4 {
        return Err(
            "partial login form — fill in all of access token, mobile number, UCC, and MPIN, or leave all four blank to use the configured KOTAK_* env credentials".to_string(),
        );
    }
    let access_token: String = match either_of(req.access_token, &env.access_token) {
        Some(s) => s,
        None => {
            return Err(
                "access_token missing (set it in the request or KOTAK_ACCESS_TOKEN)".to_string(),
            );
        },
    };
    let mobile_number: String = match either_of(req.mobile_number, &env.mobile_number) {
        Some(s) => s,
        None => {
            return Err(
                "mobile_number missing (set it in the request or KOTAK_MOBILE_NUMBER)".to_string(),
            );
        },
    };
    let ucc: String = match either_of(req.ucc, &env.ucc) {
        Some(s) => s,
        None => {
            return Err("ucc missing (set it in the request or KOTAK_UCC)".to_string());
        },
    };
    let mpin: String = match either_of(req.mpin, &env.mpin) {
        Some(s) => s,
        None => {
            return Err("mpin missing (set it in the request or KOTAK_MPIN)".to_string());
        },
    };
    let totp: TotpSource = match non_empty(req.totp) {
        Some(s) => TotpSource::Typed(s),
        None => match either_of(clone_opt(&env.totp_secret), &env.totp_hash) {
            Some(s) => TotpSource::Secret(s),
            None => {
                return Err(
                    "totp missing and no KOTAK_TOTP_SECRET/KOTAK_TOTP_HASH configured for auto-generation".to_string(),
                );
            },
        },
    };
    Ok(ResolvedKotakLogin { access_token, mobile_number, ucc, mpin, totp })
}

/// The text for a code that could not be derived.
pub fn totp_failure(cause: &str) -> (res: String)
    ensures
        res@ == "failed to generate TOTP: "@ + cause@,
{
    join2("failed to generate TOTP: ", cause)
}

/// Whether an unattended login is allowed: unless the setting says `false`.
pub open spec fn unattended_allowed(setting: Option<Seq<char>>) -> bool {
    match setting {
        Some(s) => !same_but_case(trimmed(s), "false"@),
        None => true,
    }
}

/// Whether an unattended login is allowed under the given setting.
pub fn auto_login_enabled(setting: &Option<String>) -> (res: bool)
    ensures
        res == unattended_allowed(opt_text(*setting)),
{
    match setting {
        Some(s) => !eq_ignore_case(trim(s.as_str()).as_str(), "false"),
        None => true,
    }
}

/// What is to be done after an attempt to log in unattended.
#[derive(Debug)]
pub enum AutoLoginNext {
    Connected,
    /// Try once more, with a fresh code.
    Again { attempt: u32 },
    /// Give up, for this reason.
    Failed { reason: String },
}

/// Whether another attempt follows the failed one with number `attempt`.
pub open spec fn another_follows(attempt: int) -> bool {
    attempt < MAX_LOGIN_ATTEMPTS
}

/// Decide what follows the attempt with number `attempt`, given what came of it.
pub fn after_login_attempt(attempt: u32, outcome: Result<(), String>) -> (res: AutoLoginNext)
    ensures
        outcome is Ok ==> res is Connected,
        outcome is Err ==> (res is Again <==> another_follows(attempt as int)),
        outcome is Err && attempt < MAX_LOGIN_ATTEMPTS ==> res == (AutoLoginNext::Again {
            attempt: (attempt + 1) as u32,
        }),
        outcome is Err && attempt >= MAX_LOGIN_ATTEMPTS ==> res is Failed && res->reason@
            == outcome->Err_0@,
{
    match outcome {
        Ok(()) => AutoLoginNext::Connected,
        Err(reason) => if attempt < MAX_LOGIN_ATTEMPTS {
            AutoLoginNext::Again { attempt: attempt + 1 }
        } else {
            AutoLoginNext::Failed { reason }
        },
    }
}

/// A client code with all but its first and last character covered.
pub open spec fn masked(s: Seq<char>) -> Seq<char> {
    Seq::new(
        s.len(),
        |i: int|
            if s.len() > 2 && (i == 0 || i == s.len() - 1) {
                s[i]
            } else {
                '*'
            },
    )
}

/// A client code that can be shown.
pub fn mask_ucc(ucc: &str) -> (res: String)
    ensures
        res@ == masked(ucc@),
{
    let v: Vec<char> = chars_of(ucc);
    let n: usize = v.len();
    let mut out: String = String::new();
    let mut i: usize = 0;
    while i < n
        invariant
            i <= n == v@.len(),
            v@ == ucc@,
            out@ =~= masked(ucc@).take(i as int),
        decreases n - i,
    {
        if n > 2 && (i == 0 || i == n - 1) {
            out.push(v[i]);
        } else {
            out.push('*');
        }
        i += 1;
        assert(masked(ucc@).take(i as int) =~= masked(ucc@).take(i - 1).push(
            masked(ucc@)[i - 1],
        ));
    }
    assert(masked(ucc@).take(n as int) =~= masked(ucc@));
    out
}

/// What the dashboard is told about the connection to the broker.
#[derive(Debug)]
pub struct KotakStatus {
    pub connected: bool,
    pub session_present: bool,
    pub session_healthy: bool,
    pub has_env_credentials: bool,
    pub has_totp_secret: bool,
    pub auto_login_enabled: bool,
    pub auto_login_ready: bool,
    pub auto_login_reason: Option<String>,
    pub masked_ucc: Option<String>,
}

/// Whether the environment alone is enough for a login.
pub open spec fn env_suffices(env: LoginEnv) -> bool {
    &&& either(opt_text(env.totp_secret), opt_text(env.totp_hash)) is Some
    &&& filled(opt_text(env.access_token)) is Some
    &&& filled(opt_text(env.mobile_number)) is Some
    &&& filled(opt_text(env.ucc)) is Some
    &&& filled(opt_text(env.mpin)) is Some
}

/// Tell how things stand with the connection to the broker.
pub fn kotak_status(
    env: &LoginEnv,
    setting: &Option<String>,
    session_present: bool,
    session_healthy: bool,
) -> (res: KotakStatus)
    ensures
        res.connected == (session_present && session_healthy),
        res.session_present == session_present,
        res.session_healthy == session_healthy,
        res.has_env_credentials == env_suffices(*env),
        res.has_totp_secret == (either(opt_text(env.totp_secret), opt_text(env.totp_hash))
            is Some),
        res.auto_login_enabled == unattended_allowed(opt_text(*setting)),
        res.auto_login_ready == (res.has_env_credentials && res.auto_login_enabled),
        opt_text(res.auto_login_reason) == (if !res.auto_login_enabled {
            Some("KOTAK_AUTO_LOGIN=false"@)
        } else if !res.has_env_credentials {
            Some(
                "one or more of KOTAK_ACCESS_TOKEN, KOTAK_MOBILE_NUMBER, KOTAK_UCC, KOTAK_MPIN, KOTAK_TOTP_SECRET (or KOTAK_TOTP_HASH) is not set"@,
            )
        } else {
            None
        }),
        opt_text(res.masked_ucc) == (match filled(opt_text(env.ucc)) {
            Some(s) => Some(masked(s)),
            None => None,
        }),
{
    let has_totp_secret: bool = is_filled(&env.totp_secret) || is_filled(&env.totp_hash);
    let has_env_credentials: bool = has_totp_secret && is_filled(&env.access_token) && is_filled(
        &env.mobile_number,
    ) && is_filled(&env.ucc) && is_filled(&env.mpin);
    let enabled: bool = auto_login_enabled(setting);
    let reason: Option<String> = if !enabled {
        Some("KOTAK_AUTO_LOGIN=false".to_string())
    } else if !has_env_credentials {
        Some(
            "one or more of KOTAK_ACCESS_TOKEN, KOTAK_MOBILE_NUMBER, KOTAK_UCC, KOTAK_MPIN, KOTAK_TOTP_SECRET (or KOTAK_TOTP_HASH) is not set".to_string(),
        )
    } else {
        None
    };
    let masked_ucc: Option<String> = match non_empty(clone_opt(&env.ucc)) {
        Some(u) => Some(mask_ucc(u.as_str())),
        None => None,
    };
    KotakStatus {
        connected: session_present && session_healthy,
        session_present,
        session_healthy,
        has_env_credentials,
        has_totp_secret,
        auto_login_enabled: enabled,
        auto_login_ready: has_env_credentials && enabled,
        auto_login_reason: reason,
        masked_ucc,
    }
}

// ---------------------------------------------------------------------------
// Sessions
// ---------------------------------------------------------------------------

/// A session that was stored.
#[derive(Debug)]
pub struct KotakSessionRow {
    pub access_token: String,
    pub auth_token: String,
    pub sid: String,
    pub base_url: String,
    pub updated_at: String,
}

/// Whether a session that was stored at `updated_at` is good on the day of `t`.
pub open spec fn session_usable(updated_at: Seq<char>, t: IstTime) -> bool {
    begins_with(updated_at, date_text(t.today() as i32))
}

/// The stored session, as long as it was stored on the day of `t`. The time of storage of a
/// session that is kept lies on that day, where it can be read.
pub fn usable_session(row: KotakSessionRow, t: IstTime) -> (res: Option<KotakSessionRow>)
    requires
        t.valid(),
    ensures
        res is Some <==> session_usable(row.updated_at@, t),
        res matches Some(r) ==> r == row,
        t.secs < YEAR_10000 && res is Some && timestamp_read(row.updated_at@) is Some ==> day_of(
            timestamp_read(row.updated_at@)->0 as int,
        ) == t.today(),
{
    let today: String = ist_date_at(t);
    if starts_with(row.updated_at.as_str(), today.as_str()) {
        Some(row)
    } else {
        None
    }
}

// ---------------------------------------------------------------------------
// Daily work
// ---------------------------------------------------------------------------

/// The seconds from `t` to the next time that a clock shows `hour` and `minute`: whole ones
/// that are left today, or else until tomorrow, and at least one.
pub open spec fn seconds_until(t: IstTime, hour: int, minute: int) -> int {
    let left = second_at(t.today(), hour, minute) - t.secs - (if t.nanos > 0 {
        1int
    } else {
        0
    });
    if left > 0 {
        left
    } else if left + 86_400 > 1 {
        left + 86_400
    } else {
        1
    }
}

/// How long to sleep until a clock shows `hour` and `minute`.
pub fn secs_until(t: IstTime, hour: u32, minute: u32) -> (res: u64)
    requires
        t.valid(),
        hour < 24,
        minute < 60,
    ensures
        res == seconds_until(t, hour as int, minute as int),
        1 <= res <= 86_400,
{
    let shown: i64 = t.secs % 86_400;
    let target: i64 = hour as i64 * 3_600 + minute as i64 * 60;
    let left: i64 = target - shown - (if t.nanos > 0 {
        1
    } else {
        0
    });
    assert(second_at(t.today(), hour as int, minute as int) - t.secs == target - shown);
    if left > 0 {
        left as u64
    } else if left + 86_400 > 1 {
        (left + 86_400) as u64
    } else {
        1
    }
}

/// Whether the exchange rests on the day of `t`.
pub fn is_weekend(t: IstTime) -> (res: bool)
    requires
        t.valid(),
    ensures
        res == !trading_day(t.today()),
{
    let day: i64 = day_of_second(t.secs);
    (day - 1) % 7 >= 5
}

// ---------------------------------------------------------------------------
// The list of contracts
// ---------------------------------------------------------------------------

/// A line without the carriage return at its end.
pub open spec fn chomped(s: Seq<char>) -> Seq<char> {
    if s.len() > 0 && s.last() == '\r' {
        s.drop_last()
    } else {
        s
    }
}

/// The lines of a text. Each ends with a line feed, or a carriage return and a line feed; the
/// last one may do without.
pub open spec fn lines_of(s: Seq<char>) -> Seq<Seq<char>>
    decreases s.len(),
{
    proof {
        lemma_first_of(s, '\n', 0);
    }
    let i = first_of(s, '\n', '\n', 0);
    if s.len() == 0 {
        Seq::empty()
    } else if i == s.len() {
        seq![s]
    } else {
        seq![chomped(s.take(i))] + lines_of(s.skip(i + 1))
    }
}

fn chomp_between(v: &Vec<char>, from: usize, to: usize) -> (res: String)
    requires
        from <= to <= v@.len(),
    ensures
        res@ == chomped(v@.subrange(from as int, to as int)),
{
    let ghost all = v@.subrange(from as int, to as int);
    if from < to && v[to - 1] == '\r' {
        assert(all.last() == '\r');
        assert(all.drop_last() =~= v@.subrange(from as int, to - 1));
        text_between(v, from, to - 1)
    } else {
        assert(all.len() > 0 ==> all.last() == v@[to - 1]);
        text_between(v, from, to)
    }
}

/// The lines of a text.
pub fn split_lines(s: &str) -> (res: Vec<String>)
    ensures
        texts(res@) == lines_of(s@),
{
    let v: Vec<char> = chars_of(s);
    let mut out: Vec<String> = Vec::new();
    let mut start: usize = 0;
    let mut i: usize = 0;
    assert(v@.skip(0) =~= v@);
    assert(texts(out@) + lines_of(v@.skip(0)) =~= lines_of(s@));
    while i < v.len()
        invariant
            start <= i <= v@.len(),
            v@ == s@,
            forall|j: int| start <= j < i ==> #[trigger] v@[j] != '\n',
            texts(out@) + lines_of(v@.skip(start as int)) == lines_of(s@),
        decreases v@.len() - i,
    {
        if v[i] == '\n' {
            let ghost rest = v@.skip(start as int);
            let ghost k = i - start;
            proof {
                assert forall|j: int| 0 <= j < k implies #[trigger] rest[j] != '\n' by {
                    assert(rest[j] == v@[start + j]);
                }
                assert(rest[k] == '\n');
                lemma_first_is(rest, '\n', 0, k);
                assert(rest.take(k) =~= v@.subrange(start as int, i as int));
                assert(rest.skip(k + 1) =~= v@.skip(i + 1));
            }
            let ghost before = out@;
            let piece: String = chomp_between(&v, start, i);
            out.push(piece);
            proof {
                assert(texts(out@) =~= texts(before).push(chomped(rest.take(k))));
                assert(lines_of(rest) == seq![chomped(rest.take(k))] + lines_of(v@.skip(i + 1)));
                assert(texts(out@) + lines_of(v@.skip(i + 1)) =~= texts(before) + lines_of(rest));
            }
            start = i + 1;
        }
        i += 1;
    }
    let ghost rest = v@.skip(start as int);
    if start < v.len() {
        proof {
            assert forall|j: int| 0 <= j < rest.len() implies #[trigger] rest[j] != '\n' by {
                assert(rest[j] == v@[start + j]);
            }
            lemma_first_is(rest, '\n', 0, rest.len() as int);
            assert(lines_of(rest) == seq![rest]);
            assert(rest =~= v@.subrange(start as int, v@.len() as int));
        }
        let ghost before = out@;
        let piece: String = text_between(&v, start, v.len());
        out.push(piece);
        assert(texts(out@) =~= texts(before) + seq![rest]);
    } else {
        assert(lines_of(rest) =~= Seq::empty());
        assert(texts(out@) =~= texts(out@) + lines_of(rest));
    }
    out
}

/// The rows behind the heading, up to line `n`, without the blank ones, each ended by a line
/// feed.
pub open spec fn rows_upto(lines: Seq<Seq<char>>, n: int) -> Seq<char>
    decreases n,
{
    if n <= 1 {
        Seq::empty()
    } else if trimmed(lines[n - 1]).len() == 0 {
        rows_upto(lines, n - 1)
    } else {
        rows_upto(lines, n - 1) + lines[n - 1] + seq!['\n']
    }
}

/// The rows of a section.
pub open spec fn section_rows(csv: Seq<char>) -> Seq<char> {
    rows_upto(lines_of(csv), lines_of(csv).len() as int)
}

/// The heading of a section, ended by a line feed; nothing for an empty section.
pub open spec fn section_heading(csv: Seq<char>) -> Seq<char> {
    if lines_of(csv).len() > 0 {
        lines_of(csv)[0] + seq!['\n']
    } else {
        Seq::empty()
    }
}

/// Sections one behind the other, under the heading of the first.
pub open spec fn merged(csvs: Seq<Seq<char>>) -> Seq<char>
    decreases csvs.len(),
{
    if csvs.len() == 0 {
        Seq::empty()
    } else {
        merged(csvs.drop_last()) + (if csvs.len() == 1 {
            section_heading(csvs.last())
        } else {
            Seq::empty()
        }) + section_rows(csvs.last())
    }
}

fn append_section(out: &mut String, csv: &str, first: bool)
    ensures
        final(out)@ == old(out)@ + (if first {
            section_heading(csv@)
        } else {
            Seq::empty()
        }) + section_rows(csv@),
{
    let lines: Vec<String> = split_lines(csv);
    let ghost ls = lines_of(csv@);
    assert(lines@.len() == texts(lines@).len());
    let ghost start = out@;
    if first && lines.len() > 0 {
        assert(ls[0] == lines@[0]@);
        out.append(lines[0].as_str());
        out.push('\n');
        assert(out@ =~= start + section_heading(csv@));
    } else {
        assert(out@ =~= start + Seq::<char>::empty());
    }
    let ghost head = out@;
    let mut i: usize = 1;
    assert(out@ =~= head + rows_upto(ls, 1));
    while i < lines.len()
        invariant
            1 <= i,
            i <= lines@.len() || i == 1,
            ls == texts(lines@),
            out@ == head + rows_upto(ls, i as int),
        decreases lines@.len() - i,
    {
        assert(ls[i as int] == lines@[i as int]@);
        if !is_blank(lines[i].as_str()) {
            let ghost before = out@;
            out.append(lines[i].as_str());
            out.push('\n');
            assert(out@ =~= head + (rows_upto(ls, i as int) + ls[i as int] + seq!['\n']));
        }
        i += 1;
    }
    assert(rows_upto(ls, i as int) == section_rows(csv@));
}

/// Put sections one behind the other, under the heading of the first; empty ones are passed
/// over.
pub fn join_sections(csvs: &Vec<String>) -> (res: String)
    ensures
        res@ == merged(texts(csvs@)),
{
    let mut out: String = String::new();
    let mut i: usize = 0;
    let ghost all = texts(csvs@);
    assert(all.take(0) =~= Seq::<Seq<char>>::empty());
    while i < csvs.len()
        invariant
            i <= csvs@.len(),
            all == texts(csvs@),
            out@ =~= merged(all.take(i as int)),
        decreases csvs@.len() - i,
    {
        assert(all.take(i + 1).drop_last() =~= all.take(i as int));
        assert(all.take(i + 1).last() == csvs@[i as int]@);
        append_section(&mut out, csvs[i].as_str(), i == 0);
        i += 1;
    }
    assert(all.take(all.len() as int) =~= all);
    out
}

/// Put sections one behind the other, under the heading of the first; `None` where one of them
/// is empty.
pub fn merge_csv_sections(csvs: &Vec<String>) -> (res: Option<String>)
    ensures
        res is None <==> exists|i: int|
            0 <= i < csvs@.len() && (#[trigger] csvs@[i])@.len() == 0,
        res matches Some(s) ==> s@ == merged(texts(csvs@)),
{
    let mut i: usize = 0;
    while i < csvs.len()
        invariant
            i <= csvs@.len(),
            forall|j: int| 0 <= j < i ==> (#[trigger] csvs@[j])@.len() > 0,
        decreases csvs@.len() - i,
    {
        if csvs[i].as_str().unicode_len() == 0 {
            return None;
        }
        i += 1;
    }
    Some(join_sections(csvs))
}

// ---------------------------------------------------------------------------
// Laws
// ---------------------------------------------------------------------------

/// Credentials of two accounts are never mixed: the four entries that say who logs in all come
/// from the form, or all from the environment.
pub proof fn credentials_never_mix(req: KotakLoginReq, env: LoginEnv)
    requires
        login_gap(req, env) is None,
    ensures
        ({
            let l = login_of(req, env);
            ||| {
                &&& Some(l.access_token) == opt_text(req.access_token)
                &&& Some(l.mobile_number) == opt_text(req.mobile_number)
                &&& Some(l.ucc) == opt_text(req.ucc)
                &&& Some(l.mpin) == opt_text(req.mpin)
            }
            ||| {
                &&& Some(l.access_token) == opt_text(env.access_token)
                &&& Some(l.mobile_number) == opt_text(env.mobile_number)
                &&& Some(l.ucc) == opt_text(env.ucc)
                &&& Some(l.mpin) == opt_text(env.mpin)
            }
        }),
{
}

/// What is reported as ready for an unattended login is enough for one: nothing is missing
/// with an empty form, and the code is derived.
pub proof fn ready_means_an_empty_form_suffices(req: KotakLoginReq, env: LoginEnv)
    requires
        identity_entries(req) == 0,
        filled(opt_text(req.totp)) is None,
    ensures
        login_gap(req, env) is None <==> env_suffices(env),
        login_of(req, env).totp.derived,
{
}

/// A code that is typed in is used, whatever the environment holds.
pub proof fn typed_codes_are_used(req: KotakLoginReq, env: LoginEnv)
    requires
        filled(opt_text(req.totp)) is Some,
    ensures
        login_of(req, env).totp == (TotpView { derived: false, value: opt_text(req.totp)->0 }),
{
}

/// Only the heading of the first section is kept: a further section adds its rows.
pub proof fn one_heading_is_kept(csvs: Seq<Seq<char>>, more: Seq<char>)
    requires
        csvs.len() > 0,
    ensures
        merged(csvs.push(more)) == merged(csvs) + section_rows(more),
{
    assert(csvs.push(more).drop_last() =~= csvs);
    assert(merged(csvs) + Seq::<char>::empty() + section_rows(more) =~= merged(csvs)
        + section_rows(more));
}

/// Covering a client code keeps its length, and covers a short one whole.
pub proof fn masks_keep_the_length(s: Seq<char>)
    ensures
        masked(s).len() == s.len(),
        forall|i: int| 0 < i < s.len() - 1 ==> #[trigger] masked(s)[i] == '*',
        s.len() <= 2 ==> forall|i: int| 0 <= i < s.len() ==> #[trigger] masked(s)[i] == '*',
{
}

/// A session that was stored today is usable today.
pub proof fn a_session_lasts_for_its_day(text: Seq<char>, stored: IstTime, t: IstTime)
    requires
        is_timestamp_of(text, stored),
        stored.today() == t.today(),
    ensures
        session_usable(text, t),
{
}

/// Sleeping to a time of day ends within a day, and, unless that time is less than two seconds
/// away, not after it.
pub proof fn daily_work_comes_round(t: IstTime, hour: int, minute: int)
    requires
        t.valid(),
        0 <= hour < 24,
        0 <= minute < 60,
    ensures
        1 <= seconds_until(t, hour, minute) <= 86_400,
        ({
            let end = t.secs + seconds_until(t, hour, minute);
            let at = second_at(t.today(), hour, minute);
            &&& at - t.secs > 1 ==> at - 1 <= end <= at
            &&& at - t.secs <= 0 && t.secs - at < 86_398 ==> at + 86_400 - 1 <= end <= at + 86_400
        }),
{
}

/// Whether something was entered: a text that is more than white space.
pub open spec fn entered(o: Option<String>) -> bool {
    o is Some && trimmed(o->0@).len() > 0
}

/// A form with all four entries is used as it is, whatever the environment holds, and one with
/// none goes by the environment; a form in between is refused. Beside them a code must be
/// typed in, or a secret to derive it from must be in the environment.
pub proof fn forms_are_used_whole(req: KotakLoginReq, env: LoginEnv)
    ensures
        ({
            let all = entered(req.access_token) && entered(req.mobile_number) && entered(req.ucc)
                && entered(req.mpin);
            let none = !entered(req.access_token) && !entered(req.mobile_number) && !entered(
                req.ucc,
            ) && !entered(req.mpin);
            let known = entered(env.access_token) && entered(env.mobile_number) && entered(env.ucc)
                && entered(env.mpin);
            let code = entered(req.totp) || entered(env.totp_secret) || entered(env.totp_hash);
            let l = login_of(req, env);
            &&& login_gap(req, env) is None <==> code && (all || (none && known))
            &&& all ==> l.access_token == req.access_token->0@ && l.mobile_number
                == req.mobile_number->0@ && l.ucc == req.ucc->0@ && l.mpin == req.mpin->0@
            &&& none && known ==> l.access_token == env.access_token->0@ && l.mobile_number
                == env.mobile_number->0@ && l.ucc == env.ucc->0@ && l.mpin == env.mpin->0@
            &&& entered(req.totp) ==> !l.totp.derived && l.totp.value == req.totp->0@
            &&& !entered(req.totp) && entered(env.totp_secret) ==> l.totp.derived && l.totp.value
                == env.totp_secret->0@
            &&& !entered(req.totp) && !entered(env.totp_secret) && entered(env.totp_hash)
                ==> l.totp.derived && l.totp.value == env.totp_hash->0@
        }),
{
}

/// An unattended login is tried unless the setting says `false`, in any case and with any white
/// space around it.
pub proof fn only_false_forbids_unattended_logins(setting: Seq<char>)
    ensures
        unattended_allowed(None),
        !unattended_allowed(Some(setting)) <==> same_but_case(trimmed(setting), "false"@),
{
}

/// A masked code of more than two characters shows its first and its last one.
pub proof fn masks_show_the_ends(s: Seq<char>)
    requires
        s.len() > 2,
    ensures
        masked(s)[0] == s[0],
        masked(s).last() == s.last(),
{
}

/// A text is cut into lines at each line feed; a carriage return in front of it goes with it,
/// and what follows the last line feed is a line unless it is empty.
pub proof fn lines_end_at_line_feeds(a: Seq<char>, b: Seq<char>)
    requires
        forall|i: int| 0 <= i < a.len() ==> #[trigger] a[i] != '\n',
    ensures
        a.len() == 0 || a.last() != '\r' ==> lines_of(a + seq!['\n'] + b) == seq![a] + lines_of(b),
        lines_of(a + seq!['\r', '\n'] + b) == seq![a] + lines_of(b),
        a.len() > 0 ==> lines_of(a) == seq![a],
        lines_of(Seq::<char>::empty()).len() == 0,
{
    let s = a + seq!['\n'] + b;
    let n = a.len() as int;
    assert forall|j: int| 0 <= j < n implies #[trigger] s[j] != '\n' by {
        assert(s[j] == a[j]);
    }
    assert(s[n] == '\n');
    lemma_first_is(s, '\n', 0, n);
    assert(s.take(n) =~= a);
    assert(s.skip(n + 1) =~= b);
    let t = a + seq!['\r', '\n'] + b;
    assert forall|j: int| 0 <= j < n + 1 implies #[trigger] t[j] != '\n' by {
        if j < n {
            assert(t[j] == a[j]);
        }
    }
    assert(t[n + 1] == '\n');
    lemma_first_is(t, '\n', 0, n + 1);
    assert(t.take(n + 1) =~= a + seq!['\r']);
    assert(t.take(n + 1).drop_last() =~= a);
    assert(t.skip(n + 2) =~= b);
    lemma_first_is(a, '\n', 0, n);
}

/// The first line of a section is its heading; of the others those that are more than white
/// space are its rows, each with a line feed behind it, in their order.
pub proof fn rows_are_kept_in_order(lines: Seq<Seq<char>>, n: int, csv: Seq<char>)
    requires
        1 <= n < lines.len(),
    ensures
        rows_upto(lines, 1).len() == 0,
        trimmed(lines[n]).len() == 0 ==> rows_upto(lines, n + 1) == rows_upto(lines, n),
        trimmed(lines[n]).len() > 0 ==> rows_upto(lines, n + 1) == rows_upto(lines, n) + lines[n]
            + seq!['\n'],
        lines_of(csv).len() > 0 ==> merged(seq![csv]) == lines_of(csv)[0] + seq!['\n'] + rows_upto(
            lines_of(csv),
            lines_of(csv).len() as int,
        ),
        merged(Seq::<Seq<char>>::empty()).len() == 0,
{
    reveal_with_fuel(merged, 2);
    assert(seq![csv].drop_last() =~= Seq::<Seq<char>>::empty());
    assert(merged(seq![csv]) =~= section_heading(csv) + section_rows(csv));
}

/// Two attempts are made and no third.
pub proof fn two_attempts_are_made(attempt: int)
    ensures
        another_follows(attempt) <==> attempt < 2,
{
}

/// A section without a line adds nothing, wherever it stands.
pub proof fn an_empty_section_adds_nothing(csvs: Seq<Seq<char>>)
    ensures
        merged(csvs.push(Seq::empty())) == merged(csvs),
{
    let all = csvs.push(Seq::<char>::empty());
    assert(all.drop_last() =~= csvs);
    assert(lines_of(Seq::<char>::empty()).len() == 0);
    assert(section_rows(Seq::<char>::empty()) =~= Seq::empty());
    assert(section_heading(Seq::<char>::empty()) =~= Seq::empty());
    assert(merged(all) =~= merged(csvs));
}

} // verus!
