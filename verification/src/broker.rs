//! What the broker reports: orders, positions, limits and errors.
use vstd::prelude::*;

use crate::decimal::{div_down, parse_millionths, to_i32};
use crate::domain::clone_opt;
use crate::text::{eq_ignore_case, i64_text, parse_i32, same_text, to_lower, trim, u64_text};

#[allow(unused_imports)]
use crate::decimal::{clamped, fit32, written_millionths};

#[allow(unused_imports)]
use crate::text::{
    finishes_with, has_text, int_text, lowercased, nat_text, opt_text, pieces_stand_in_their_text,
    printed_int_reads_back, same_but_case, trimmed, written_i32,
};

verus! {

// ---------------------------------------------------------------------------
// Numbers in text
// ---------------------------------------------------------------------------

/// The whole number in a text, or zero.
pub open spec fn loose_int(s: Seq<char>) -> int {
    match written_i32(trimmed(s)) {
        Some(v) => v,
        None => 0,
    }
}

/// The decimal number in a text, in millionths, or zero.
pub open spec fn loose_decimal(s: Seq<char>) -> int {
    match written_millionths(trimmed(s)) {
        Some(v) => clamped(v, -(i64::MAX as int), i64::MAX as int),
        None => 0,
    }
}

/// A value that may come as a text, as a number, or not at all.
#[derive(Debug)]
pub enum Loose {
    Text(String),
    Number(String),
    Null,
    Other(String),
}

/// The text of a value that may come in several forms.
pub fn loose_string(v: Loose) -> (res: String)
    ensures
        res@ == match v {
            Loose::Text(s) => s@,
            Loose::Number(s) => s@,
            Loose::Null => Seq::empty(),
            Loose::Other(s) => s@,
        },
{
    match v {
        Loose::Text(s) => s,
        Loose::Number(s) => s,
        Loose::Null => String::new(),
        Loose::Other(s) => s,
    }
}

// ---------------------------------------------------------------------------
// Orders
// ---------------------------------------------------------------------------

/// One row of the order book.
#[derive(Debug)]
pub struct KotakOrder {
    pub order_no: String,
    /// `open`, `complete`, `rejected`, `cancelled`, `trigger pending`, and others.
    pub status: String,
    pub trading_symbol: String,
    /// `B` or `S`.
    pub transaction_type: String,
    /// `L`, `MKT`, `SL` or `SL-M`.
    pub order_type: String,
    pub quantity: String,
    pub filled_quantity: String,
    pub average_price: String,
    pub trigger_price: String,
    pub reject_reason: String,
}

/// What a [`KotakOrder`] says, with its texts as character sequences.
#[verifier::ext_equal]
pub ghost struct KotakOrderView {
    pub order_no: Seq<char>,
    pub status: Seq<char>,
    pub trading_symbol: Seq<char>,
    pub transaction_type: Seq<char>,
    pub order_type: Seq<char>,
    pub quantity: Seq<char>,
    pub filled_quantity: Seq<char>,
    pub average_price: Seq<char>,
    pub trigger_price: Seq<char>,
    pub reject_reason: Seq<char>,
}

impl View for KotakOrder {
    type V = KotakOrderView;

    open spec fn view(&self) -> KotakOrderView {
        KotakOrderView {
            order_no: self.order_no@,
            status: self.status@,
            trading_symbol: self.trading_symbol@,
            transaction_type: self.transaction_type@,
            order_type: self.order_type@,
            quantity: self.quantity@,
            filled_quantity: self.filled_quantity@,
            average_price: self.average_price@,
            trigger_price: self.trigger_price@,
            reject_reason: self.reject_reason@,
        }
    }
}

impl Clone for KotakOrder {
    fn clone(&self) -> (res: Self)
        ensures
            res@ == self@,
    {
        KotakOrder {
            order_no: self.order_no.clone(),
            status: self.status.clone(),
            trading_symbol: self.trading_symbol.clone(),
            transaction_type: self.transaction_type.clone(),
            order_type: self.order_type.clone(),
            quantity: self.quantity.clone(),
            filled_quantity: self.filled_quantity.clone(),
            average_price: self.average_price.clone(),
            trigger_price: self.trigger_price.clone(),
            reject_reason: self.reject_reason.clone(),
        }
    }
}

impl KotakOrderView {
    /// The status, in lower case and without white space around it.
    pub open spec fn status_lower(self) -> Seq<char> {
        lowercased(trimmed(self.status))
    }

    pub open spec fn ordered(self) -> int {
        loose_int(self.quantity)
    }

    pub open spec fn filled(self) -> int {
        loose_int(self.filled_quantity)
    }

    pub open spec fn average(self) -> int {
        loose_decimal(self.average_price)
    }

    pub open spec fn sells(self) -> bool {
        same_but_case(trimmed(self.transaction_type), "S"@)
    }

    pub open spec fn complete(self) -> bool {
        self.status_lower() == "complete"@
    }

    pub open spec fn rejected(self) -> bool {
        self.status_lower() == "rejected"@
    }

    pub open spec fn cancelled(self) -> bool {
        self.status_lower() == "cancelled"@ || self.status_lower() == "canceled"@
    }

    /// Whether the broker will not act on the order again.
    pub open spec fn terminal(self) -> bool {
        self.complete() || self.rejected() || self.cancelled()
    }
}

impl KotakOrder {
    fn status_lower(&self) -> (res: String)
        ensures
            res@ == self@.status_lower(),
    {
        to_lower(trim(self.status.as_str()).as_str())
    }

    /// The quantity that was ordered.
    pub fn ordered_qty(&self) -> (res: i32)
        ensures
            res == self@.ordered(),
    {
        KotakPosition::parse_i32(self.quantity.as_str())
    }

    /// The quantity that was filled so far.
    pub fn filled_qty(&self) -> (res: i32)
        ensures
            res == self@.filled(),
    {
        KotakPosition::parse_i32(self.filled_quantity.as_str())
    }

    /// The average price of what was filled; zero until something is.
    pub fn avg_price(&self) -> (res: i64)
        ensures
            res == self@.average(),
    {
        KotakPosition::parse_price(self.average_price.as_str())
    }

    /// The trigger of a stop order; zero for others.
    pub fn trigger(&self) -> (res: i64)
        ensures
            res == loose_decimal(self@.trigger_price),
    {
        KotakPosition::parse_price(self.trigger_price.as_str())
    }

    /// Whether this is a sale.
    pub fn is_sell(&self) -> (res: bool)
        ensures
            res == self@.sells(),
    {
        eq_ignore_case(trim(self.transaction_type.as_str()).as_str(), "S")
    }

    pub fn is_complete(&self) -> (res: bool)
        ensures
            res == self@.complete(),
    {
        same_text(self.status_lower().as_str(), "complete")
    }

    pub fn is_rejected(&self) -> (res: bool)
        ensures
            res == self@.rejected(),
    {
        same_text(self.status_lower().as_str(), "rejected")
    }

    pub fn is_cancelled(&self) -> (res: bool)
        ensures
            res == self@.cancelled(),
    {
        let s: String = self.status_lower();
        same_text(s.as_str(), "cancelled") || same_text(s.as_str(), "canceled")
    }

    /// Whether the broker will not act on the order again, so that it can be settled.
    pub fn is_terminal(&self) -> (res: bool)
        ensures
            res == self@.terminal(),
    {
        self.is_complete() || self.is_rejected() || self.is_cancelled()
    }
}

/// The rows of an order book, each by what it says.
pub open spec fn book_view(s: Seq<KotakOrder>) -> Seq<KotakOrderView> {
    s.map_values(|o: KotakOrder| o@)
}

/// The first row of the book with the number `id`, from `from` on, or the number of rows.
/// White space around a number does not count.
pub open spec fn book_index(book: Seq<KotakOrderView>, id: Seq<char>, from: int) -> int
    decreases book.len() - from,
{
    if from >= book.len() {
        book.len() as int
    } else if trimmed(book[from].order_no) == trimmed(id) {
        from
    } else {
        book_index(book, id, from + 1)
    }
}

/// The first row of the book with the number `id`.
pub open spec fn book_row(book: Seq<KotakOrderView>, id: Seq<char>) -> Option<KotakOrderView> {
    let i = book_index(book, id, 0);
    if i < book.len() {
        Some(book[i])
    } else {
        None
    }
}

/// The place of the first row of the book with the number `id`.
pub fn find_order(book: &Vec<KotakOrder>, id: &str) -> (res: Option<usize>)
    ensures
        res is Some <==> book_row(book_view(book@), id@) is Some,
        res is Some ==> res->0 < book@.len() && book@[res->0 as int]@ == book_row(
            book_view(book@),
            id@,
        )->0,
{
    let wanted: String = trim(id);
    let ghost rows = book_view(book@);
    let mut i: usize = 0;
    while i < book.len()
        invariant
            i <= book@.len(),
            rows == book_view(book@),
            wanted@ == trimmed(id@),
            book_index(rows, id@, i as int) == book_index(rows, id@, 0),
        decreases book@.len() - i,
    {
        assert(rows[i as int] == book@[i as int]@);
        if same_text(trim(book[i].order_no.as_str()).as_str(), wanted.as_str()) {
            return Some(i);
        }
        i += 1;
    }
    None
}

// ---------------------------------------------------------------------------
// Positions and limits
// ---------------------------------------------------------------------------

/// One row of the positions of the day.
#[derive(Debug)]
pub struct KotakPosition {
    pub trading_symbol: String,
    pub symbol: String,
    pub product: String,
    pub exchange_segment: String,
    pub filled_buy_qty: String,
    pub filled_sell_qty: String,
    pub buy_amount: String,
    pub sell_amount: String,
    pub option_type: String,
    pub expiry_date: String,
}

/// What a [`KotakPosition`] says, with its texts as character sequences.
#[verifier::ext_equal]
pub ghost struct KotakPositionView {
    pub trading_symbol: Seq<char>,
    pub symbol: Seq<char>,
    pub product: Seq<char>,
    pub exchange_segment: Seq<char>,
    pub filled_buy_qty: Seq<char>,
    pub filled_sell_qty: Seq<char>,
    pub buy_amount: Seq<char>,
    pub sell_amount: Seq<char>,
    pub option_type: Seq<char>,
    pub expiry_date: Seq<char>,
}

impl View for KotakPosition {
    type V = KotakPositionView;

    open spec fn view(&self) -> KotakPositionView {
        KotakPositionView {
            trading_symbol: self.trading_symbol@,
            symbol: self.symbol@,
            product: self.product@,
            exchange_segment: self.exchange_segment@,
            filled_buy_qty: self.filled_buy_qty@,
            filled_sell_qty: self.filled_sell_qty@,
            buy_amount: self.buy_amount@,
            sell_amount: self.sell_amount@,
            option_type: self.option_type@,
            expiry_date: self.expiry_date@,
        }
    }
}

impl Clone for KotakPosition {
    fn clone(&self) -> (res: Self)
        ensures
            res@ == self@,
    {
        KotakPosition {
            trading_symbol: self.trading_symbol.clone(),
            symbol: self.symbol.clone(),
            product: self.product.clone(),
            exchange_segment: self.exchange_segment.clone(),
            filled_buy_qty: self.filled_buy_qty.clone(),
            filled_sell_qty: self.filled_sell_qty.clone(),
            buy_amount: self.buy_amount.clone(),
            sell_amount: self.sell_amount.clone(),
            option_type: self.option_type.clone(),
            expiry_date: self.expiry_date.clone(),
        }
    }
}

impl KotakPositionView {
    pub open spec fn bought(self) -> int {
        loose_int(self.filled_buy_qty)
    }

    pub open spec fn sold(self) -> int {
        loose_int(self.filled_sell_qty)
    }

    /// What is held: what was bought less what was sold.
    pub open spec fn net(self) -> int {
        fit32(self.bought() - self.sold())
    }

    /// The average price of what was bought, to the millionth.
    pub open spec fn average_buy(self) -> int {
        if self.bought() > 0 {
            loose_decimal(self.buy_amount) / self.bought()
        } else {
            0
        }
    }

    /// The average price of what was sold, to the millionth.
    pub open spec fn average_sell(self) -> int {
        if self.sold() > 0 {
            loose_decimal(self.sell_amount) / self.sold()
        } else {
            0
        }
    }
}

impl KotakPosition {
    fn parse_price(s: &str) -> (res: i64)
        ensures
            res == loose_decimal(s@),
            res > i64::MIN,
    {
        match parse_millionths(trim(s).as_str()) {
            Some(v) => v,
            None => 0,
        }
    }

    fn parse_i32(s: &str) -> (res: i32)
        ensures
            res == loose_int(s@),
    {
        match parse_i32(trim(s).as_str()) {
            Some(v) => v,
            None => 0,
        }
    }

    /// What was bought.
    pub fn buy_qty(&self) -> (res: i32)
        ensures
            res == self@.bought(),
    {
        Self::parse_i32(self.filled_buy_qty.as_str())
    }

    /// What was sold.
    pub fn sell_qty(&self) -> (res: i32)
        ensures
            res == self@.sold(),
    {
        Self::parse_i32(self.filled_sell_qty.as_str())
    }

    /// What is held.
    pub fn net_qty(&self) -> (res: i32)
        ensures
            res == self@.net(),
    {
        to_i32(self.buy_qty() as i128 - self.sell_qty() as i128)
    }

    /// The average price of what was bought; zero if nothing was.
    pub fn avg_buy_price(&self) -> (res: i64)
        ensures
            res == self@.average_buy(),
    {
        let q: i32 = self.buy_qty();
        if q > 0 {
            div_down(Self::parse_price(self.buy_amount.as_str()) as i128, q as i128) as i64
        } else {
            0
        }
    }

    /// The average price of what was sold; zero if nothing was.
    pub fn avg_sell_price(&self) -> (res: i64)
        ensures
            res == self@.average_sell(),
    {
        let q: i32 = self.sell_qty();
        if q > 0 {
            div_down(Self::parse_price(self.sell_amount.as_str()) as i128, q as i128) as i64
        } else {
            0
        }
    }
}

/// The rows of a list of positions, each by what it says.
pub open spec fn holdings_view(s: Seq<KotakPosition>) -> Seq<KotakPositionView> {
    s.map_values(|p: KotakPosition| p@)
}

/// The first row for the symbol `symbol`, from `from` on, or the number of rows. White space
/// around a symbol does not count.
pub open spec fn holding_index(rows: Seq<KotakPositionView>, symbol: Seq<char>, from: int) -> int
    decreases rows.len() - from,
{
    if from >= rows.len() {
        rows.len() as int
    } else if trimmed(rows[from].trading_symbol) == trimmed(symbol) {
        from
    } else {
        holding_index(rows, symbol, from + 1)
    }
}

/// The first row for the symbol `symbol`.
pub open spec fn holding_row(rows: Seq<KotakPositionView>, symbol: Seq<char>) -> Option<
    KotakPositionView,
> {
    let i = holding_index(rows, symbol, 0);
    if i < rows.len() {
        Some(rows[i])
    } else {
        None
    }
}

/// What the broker holds of a symbol.
pub open spec fn held_of(rows: Seq<KotakPositionView>, symbol: Seq<char>) -> int {
    match holding_row(rows, symbol) {
        Some(r) => r.net(),
        None => 0,
    }
}

/// The place of the first row for the symbol `symbol`.
pub fn find_holding(rows: &Vec<KotakPosition>, symbol: &str) -> (res: Option<usize>)
    ensures
        res is Some <==> holding_row(holdings_view(rows@), symbol@) is Some,
        res is Some ==> res->0 < rows@.len() && rows@[res->0 as int]@ == holding_row(
            holdings_view(rows@),
            symbol@,
        )->0,
{
    let wanted: String = trim(symbol);
    let ghost all = holdings_view(rows@);
    let mut i: usize = 0;
    while i < rows.len()
        invariant
            i <= rows@.len(),
            all == holdings_view(rows@),
            wanted@ == trimmed(symbol@),
            holding_index(all, symbol@, i as int) == holding_index(all, symbol@, 0),
        decreases rows@.len() - i,
    {
        assert(all[i as int] == rows@[i as int]@);
        if same_text(trim(rows[i].trading_symbol.as_str()).as_str(), wanted.as_str()) {
            return Some(i);
        }
        i += 1;
    }
    None
}

/// What the broker holds of a symbol.
pub fn held_at_broker(rows: &Vec<KotakPosition>, symbol: &str) -> (res: i32)
    ensures
        res == held_of(holdings_view(rows@), symbol@),
{
    match find_holding(rows, symbol) {
        Some(i) => rows[i].net_qty(),
        None => 0,
    }
}

/// What an account can spend, in millionths.
#[derive(Debug, Clone, Copy, PartialEq, Eq, Structural)]
pub struct KotakLimits {
    pub net: i64,
    pub margin_used: i64,
    pub collateral_value: i64,
}

/// Reads the limits out of the texts of a reply.
pub fn read_limits(net: &str, margin_used: &str, collateral_value: &str) -> (res: KotakLimits)
    ensures
        res.net == loose_decimal(net@),
        res.margin_used == loose_decimal(margin_used@),
        res.collateral_value == loose_decimal(collateral_value@),
{
    KotakLimits {
        net: KotakPosition::parse_price(net),
        margin_used: KotakPosition::parse_price(margin_used),
        collateral_value: KotakPosition::parse_price(collateral_value),
    }
}

// ---------------------------------------------------------------------------
// Sessions and errors
// ---------------------------------------------------------------------------

/// An open session with the broker.
pub struct Session {
    pub auth_token: String,
    pub sid: String,
    pub base_url: String,
    pub data_center: Option<String>,
}

/// What a [`Session`] says, with its texts as character sequences.
#[verifier::ext_equal]
pub ghost struct SessionView {
    pub auth_token: Seq<char>,
    pub sid: Seq<char>,
    pub base_url: Seq<char>,
    pub data_center: Option<Seq<char>>,
}

impl View for Session {
    type V = SessionView;

    open spec fn view(&self) -> SessionView {
        SessionView {
            auth_token: self.auth_token@,
            sid: self.sid@,
            base_url: self.base_url@,
            data_center: opt_text(self.data_center),
        }
    }
}

impl Clone for Session {
    fn clone(&self) -> (res: Self)
        ensures
            res@ == self@,
    {
        Session {
            auth_token: self.auth_token.clone(),
            sid: self.sid.clone(),
            base_url: self.base_url.clone(),
            data_center: clone_opt(&self.data_center),
        }
    }
}

/// What a login takes.
pub struct KotakCredentials {
    /// The token of the API dashboard.
    pub access_token: String,
    pub mobile_number: String,
    /// The client code.
    pub ucc: String,
    /// The code of the authenticator.
    pub totp: String,
    pub mpin: String,
}

/// What a [`KotakCredentials`] says, with its texts as character sequences.
#[verifier::ext_equal]
pub ghost struct KotakCredentialsView {
    pub access_token: Seq<char>,
    pub mobile_number: Seq<char>,
    pub ucc: Seq<char>,
    pub totp: Seq<char>,
    pub mpin: Seq<char>,
}

impl View for KotakCredentials {
    type V = KotakCredentialsView;

    open spec fn view(&self) -> KotakCredentialsView {
        KotakCredentialsView {
            access_token: self.access_token@,
            mobile_number: self.mobile_number@,
            ucc: self.ucc@,
            totp: self.totp@,
            mpin: self.mpin@,
        }
    }
}

/// What can go wrong with a call to the broker.
#[derive(Debug)]
pub enum KotakError {
    Http(String),
    Json(String),
    /// An authenticated call was answered with 401 or 403: the session is dead and only a
    /// new login helps.
    SessionExpired { status: u16 },
    NotAuthenticated,
    LoginTotpFailed(String),
    LoginMpinFailed(String),
    TotpSecretInvalid(String),
    OrderRejected { status_code: i32, message: String },
    ApiError { status_code: i32, message: String },
    Ws(String),
}

/// What a [`KotakError`] says.
pub ghost enum KotakErrorView {
    Http(Seq<char>),
    Json(Seq<char>),
    SessionExpired { status: u16 },
    NotAuthenticated,
    LoginTotpFailed(Seq<char>),
    LoginMpinFailed(Seq<char>),
    TotpSecretInvalid(Seq<char>),
    OrderRejected { status_code: i32, message: Seq<char> },
    ApiError { status_code: i32, message: Seq<char> },
    Ws(Seq<char>),
}

impl View for KotakError {
    type V = KotakErrorView;

    open spec fn view(&self) -> KotakErrorView {
        match self {
            KotakError::Http(s) => KotakErrorView::Http(s@),
            KotakError::Json(s) => KotakErrorView::Json(s@),
            KotakError::SessionExpired { status } => KotakErrorView::SessionExpired {
                status: *status,
            },
            KotakError::NotAuthenticated => KotakErrorView::NotAuthenticated,
            KotakError::LoginTotpFailed(s) => KotakErrorView::LoginTotpFailed(s@),
            KotakError::LoginMpinFailed(s) => KotakErrorView::LoginMpinFailed(s@),
            KotakError::TotpSecretInvalid(s) => KotakErrorView::TotpSecretInvalid(s@),
            KotakError::OrderRejected { status_code, message } => KotakErrorView::OrderRejected {
                status_code: *status_code,
                message: message@,
            },
            KotakError::ApiError { status_code, message } => KotakErrorView::ApiError {
                status_code: *status_code,
                message: message@,
            },
            KotakError::Ws(s) => KotakErrorView::Ws(s@),
        }
    }
}

/// The text of an error.
pub open spec fn error_text(e: KotakErrorView) -> Seq<char> {
    match e {
        KotakErrorView::Http(s) => "HTTP error: "@ + s,
        KotakErrorView::Json(s) => "JSON error: "@ + s,
        KotakErrorView::SessionExpired { status } => "Kotak session expired (HTTP "@ + nat_text(
            status as nat,
        ) + ") — re-login required"@,
        KotakErrorView::NotAuthenticated => "not authenticated — call login() first"@,
        KotakErrorView::LoginTotpFailed(s) => "TOTP login failed: "@ + s,
        KotakErrorView::LoginMpinFailed(s) => "MPIN validation failed: "@ + s,
        KotakErrorView::TotpSecretInvalid(s) => "invalid TOTP secret: "@ + s,
        KotakErrorView::OrderRejected { status_code, message } =>
        "order rejected by broker (code "@ + int_text(status_code as int) + "): "@ + message,
        KotakErrorView::ApiError { status_code, message } => "API error (code "@ + int_text(
            status_code as int,
        ) + "): "@ + message,
        KotakErrorView::Ws(s) => "WebSocket error: "@ + s,
    }
}

fn prefixed(a: &str, b: &str) -> (res: String)
    ensures
        res@ == a@ + b@,
{
    let mut out: String = a.to_string();
    out.append(b);
    out
}

fn coded(a: &str, code: i32, message: &str) -> (res: String)
    ensures
        res@ == a@ + int_text(code as int) + "): "@ + message@,
{
    let mut out: String = a.to_string();
    out.append(i64_text(code as i64).as_str());
    out.append("): ");
    out.append(message);
    out
}

impl KotakError {
    /// The text of the error.
    pub fn message(&self) -> (res: String)
        ensures
            res@ == error_text(self@),
    {
        match self {
            KotakError::Http(s) => prefixed("HTTP error: ", s.as_str()),
            KotakError::Json(s) => prefixed("JSON error: ", s.as_str()),
            KotakError::SessionExpired { status } => {
                let mut out: String = "Kotak session expired (HTTP ".to_string();
                out.append(u64_text(*status as u64).as_str());
                out.append(") — re-login required");
                out
            },
            KotakError::NotAuthenticated => "not authenticated — call login() first".to_string(),
            KotakError::LoginTotpFailed(s) => prefixed("TOTP login failed: ", s.as_str()),
            KotakError::LoginMpinFailed(s) => prefixed("MPIN validation failed: ", s.as_str()),
            KotakError::TotpSecretInvalid(s) => prefixed("invalid TOTP secret: ", s.as_str()),
            KotakError::OrderRejected { status_code, message } => coded(
                "order rejected by broker (code ",
                *status_code,
                message.as_str(),
            ),
            KotakError::ApiError { status_code, message } => coded(
                "API error (code ",
                *status_code,
                message.as_str(),
            ),
            KotakError::Ws(s) => prefixed("WebSocket error: ", s.as_str()),
        }
    }

    /// Whether only a new login helps: the session is dead or there is none.
    pub fn is_session_expired(&self) -> (res: bool)
        ensures
            res == (self@ is SessionExpired || self@ is NotAuthenticated),
    {
        match self {
            KotakError::SessionExpired { .. } => true,
            KotakError::NotAuthenticated => true,
            _ => false,
        }
    }

    /// Whether the broker may or may not have acted: the call failed before there was an
    /// answer that could be read. An order placed by such a call is not known to be
    /// rejected.
    pub fn is_ambiguous(&self) -> (res: bool)
        ensures
            res == (self@ is Http || self@ is Json),
    {
        match self {
            KotakError::Http(_) => true,
            KotakError::Json(_) => true,
            _ => false,
        }
    }
}

// ---------------------------------------------------------------------------
// Laws of what the broker reports
// ---------------------------------------------------------------------------

/// Where the search for a row of the book ends.
pub proof fn lemma_book_index(book: Seq<KotakOrderView>, id: Seq<char>, from: int)
    requires
        0 <= from <= book.len(),
    ensures
        from <= book_index(book, id, from) <= book.len(),
        book_index(book, id, from) < book.len() ==> trimmed(
            book[book_index(book, id, from)].order_no,
        ) == trimmed(id),
        forall|j: int|
            from <= j < book_index(book, id, from) ==> trimmed((#[trigger] book[j]).order_no)
                != trimmed(id),
    decreases book.len() - from,
{
    if from < book.len() && trimmed(book[from].order_no) != trimmed(id) {
        lemma_book_index(book, id, from + 1);
    }
}

/// The row that the book gives for an order has its number, white space aside, and no row
/// before it has; where the book gives none, no row has the number.
pub proof fn the_book_is_read_by_number(book: Seq<KotakOrderView>, id: Seq<char>)
    ensures
        book_row(book, id) matches Some(row) ==> exists|i: int|
            0 <= i < book.len() && #[trigger] book[i] == row && trimmed(row.order_no) == trimmed(id)
                && forall|j: int|
                0 <= j < i ==> trimmed((#[trigger] book[j]).order_no) != trimmed(id),
        book_row(book, id) is None ==> forall|j: int|
            0 <= j < book.len() ==> trimmed((#[trigger] book[j]).order_no) != trimmed(id),
{
    lemma_book_index(book, id, 0);
    if book_row(book, id) is Some {
        assert(book[book_index(book, id, 0)] == book_row(book, id)->0);
    }
}

/// The row that a list of positions gives for a symbol is the first of that symbol, white space
/// aside; what is held of a symbol without a row is nothing.
pub proof fn holdings_are_read_by_symbol(rows: Seq<KotakPositionView>, symbol: Seq<char>)
    ensures
        holding_row(rows, symbol) matches Some(row) ==> exists|i: int|
            0 <= i < rows.len() && #[trigger] rows[i] == row && trimmed(row.trading_symbol)
                == trimmed(symbol) && forall|j: int|
                0 <= j < i ==> trimmed((#[trigger] rows[j]).trading_symbol) != trimmed(symbol),
        holding_row(rows, symbol) is None ==> held_of(rows, symbol) == 0 && forall|j: int|
            0 <= j < rows.len() ==> trimmed((#[trigger] rows[j]).trading_symbol) != trimmed(symbol),
        holding_row(rows, symbol) matches Some(row) ==> held_of(rows, symbol) == row.net(),
{
    lemma_holding_index(rows, symbol, 0);
    if holding_row(rows, symbol) is Some {
        assert(rows[holding_index(rows, symbol, 0)] == holding_row(rows, symbol)->0);
    }
}

/// Where the search for a row of the positions ends.
pub proof fn lemma_holding_index(rows: Seq<KotakPositionView>, symbol: Seq<char>, from: int)
    requires
        0 <= from <= rows.len(),
    ensures
        from <= holding_index(rows, symbol, from) <= rows.len(),
        holding_index(rows, symbol, from) < rows.len() ==> trimmed(
            rows[holding_index(rows, symbol, from)].trading_symbol,
        ) == trimmed(symbol),
        forall|j: int|
            from <= j < holding_index(rows, symbol, from) ==> trimmed(
                (#[trigger] rows[j]).trading_symbol,
            ) != trimmed(symbol),
    decreases rows.len() - from,
{
    if from < rows.len() && trimmed(rows[from].trading_symbol) != trimmed(symbol) {
        lemma_holding_index(rows, symbol, from + 1);
    }
}

/// A whole number in a text is read for what it is, white space around it aside, and anything
/// that is no number for nothing.
pub proof fn loose_numbers_are_read(text: Seq<char>, i: i32)
    ensures
        trimmed(text) == int_text(i as int) ==> loose_int(text) == i,
        written_i32(trimmed(text)) is None ==> loose_int(text) == 0,
        written_millionths(trimmed(text)) is None ==> loose_decimal(text) == 0,
        written_millionths(trimmed(text)) matches Some(v) ==> (-(i64::MAX as int) <= v <= i64::MAX
            ==> loose_decimal(text) == v),
{
    printed_int_reads_back(i);
}

/// What is held is what was bought less what was sold, whatever was paid for it.
pub proof fn holdings_are_the_difference(
    row: KotakPositionView,
    bought: i32,
    sold: i32,
)
    requires
        trimmed(row.filled_buy_qty) == int_text(bought as int),
        trimmed(row.filled_sell_qty) == int_text(sold as int),
    ensures
        i32::MIN <= bought - sold <= i32::MAX ==> row.net() == bought - sold,
        row.bought() == bought,
        row.sold() == sold,
{
    printed_int_reads_back(bought);
    printed_int_reads_back(sold);
}

/// The average price times the quantity is the amount, to less than a millionth on each unit;
/// where nothing was traded there is no average.
pub proof fn averages_make_up_the_amount(row: KotakPositionView)
    ensures
        row.bought() > 0 ==> row.average_buy() * row.bought() <= loose_decimal(row.buy_amount) < (
        row.average_buy() + 1) * row.bought(),
        row.sold() > 0 ==> row.average_sell() * row.sold() <= loose_decimal(row.sell_amount) < (
        row.average_sell() + 1) * row.sold(),
        row.bought() <= 0 ==> row.average_buy() == 0,
        row.sold() <= 0 ==> row.average_sell() == 0,
{
    if row.bought() > 0 {
        lemma_quotient_is_near(loose_decimal(row.buy_amount), row.bought());
    }
    if row.sold() > 0 {
        lemma_quotient_is_near(loose_decimal(row.sell_amount), row.sold());
    }
}

proof fn lemma_quotient_is_near(a: int, b: int)
    by (nonlinear_arith)
    requires
        b > 0,
    ensures
        (a / b) * b <= a < (a / b + 1) * b,
{
}

/// The status of an order is one thing at a time, in any case and with any white space around
/// it; an order that is neither complete, nor rejected, nor cancelled is still at work.
pub proof fn an_order_ends_in_one_way(o: KotakOrderView)
    ensures
        ({
            let status = lowercased(trimmed(o.status));
            &&& o.complete() <==> status == "complete"@
            &&& o.rejected() <==> status == "rejected"@
            &&& o.cancelled() <==> status == "cancelled"@ || status == "canceled"@
            &&& o.terminal() <==> o.complete() || o.rejected() || o.cancelled()
            &&& !(o.complete() && o.rejected()) && !(o.complete() && o.cancelled()) && !(
            o.rejected() && o.cancelled())
        }),
{
    reveal_strlit("complete");
    reveal_strlit("rejected");
    reveal_strlit("cancelled");
    reveal_strlit("canceled");
    assert("complete"@[0] != "rejected"@[0] && "cancelled"@[1] != "complete"@[1]
        && "canceled"@[1] != "complete"@[1] && "cancelled"@[0] != "rejected"@[0] && "canceled"@[0]
        != "rejected"@[0]);
}

/// The text of an error ends with what was said, where anything was, and names the code or the
/// status where there is one.
pub proof fn errors_end_with_what_was_said(s: Seq<char>, code: i32, status: u16)
    ensures
        finishes_with(error_text(KotakErrorView::Http(s)), s),
        finishes_with(error_text(KotakErrorView::Json(s)), s),
        finishes_with(error_text(KotakErrorView::LoginTotpFailed(s)), s),
        finishes_with(error_text(KotakErrorView::LoginMpinFailed(s)), s),
        finishes_with(error_text(KotakErrorView::TotpSecretInvalid(s)), s),
        finishes_with(error_text(KotakErrorView::Ws(s)), s),
        finishes_with(
            error_text(KotakErrorView::OrderRejected { status_code: code, message: s }),
            s,
        ),
        finishes_with(error_text(KotakErrorView::ApiError { status_code: code, message: s }), s),
        has_text(
            error_text(KotakErrorView::OrderRejected { status_code: code, message: s }),
            int_text(code as int),
        ),
        has_text(
            error_text(KotakErrorView::ApiError { status_code: code, message: s }),
            int_text(code as int),
        ),
        has_text(
            error_text(KotakErrorView::SessionExpired { status }),
            nat_text(status as nat),
        ),
{
    let none = Seq::<char>::empty();
    let c = int_text(code as int);
    pieces_stand_in_their_text("HTTP error: "@, s, none);
    pieces_stand_in_their_text("JSON error: "@, s, none);
    pieces_stand_in_their_text("TOTP login failed: "@, s, none);
    pieces_stand_in_their_text("MPIN validation failed: "@, s, none);
    pieces_stand_in_their_text("invalid TOTP secret: "@, s, none);
    pieces_stand_in_their_text("WebSocket error: "@, s, none);
    let a = "order rejected by broker (code "@;
    let b = "API error (code "@;
    pieces_stand_in_their_text(a + c + "): "@, s, none);
    pieces_stand_in_their_text(b + c + "): "@, s, none);
    pieces_stand_in_their_text(a, c, "): "@ + s);
    pieces_stand_in_their_text(b, c, "): "@ + s);
    assert(a + c + "): "@ + s =~= a + c + ("): "@ + s));
    assert(b + c + "): "@ + s =~= b + c + ("): "@ + s));
    pieces_stand_in_their_text(
        "Kotak session expired (HTTP "@,
        nat_text(status as nat),
        ") — re-login required"@,
    );
}

} // verus!
