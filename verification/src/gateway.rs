//! The calls that the broker takes, and what its replies mean.
use vstd::prelude::*;

use crate::broker::{
    read_limits, KotakCredentials, KotakError, KotakLimits, KotakOrder, KotakPosition, Session,
};
use crate::clock::current_ist_timestamp_string;
use crate::domain::{clone_opt, ExecutionResult, OrderRequest};
use crate::orders::{cancel_fields, modify_fields, place_fields, push_field};
use crate::text::{contains, ends_with, eq_ignore_case, join2, same_text, to_lower, trim};

#[allow(unused_imports)]
use crate::broker::{loose_decimal, KotakErrorView, SessionView};
#[allow(unused_imports)]
use crate::clock::{is_timestamp_of, IstTime};
#[allow(unused_imports)]
use crate::domain::ExecutionResultView;
#[allow(unused_imports)]
use crate::orders::{cancel_field_list, fields_view, order_fields, says};
#[allow(unused_imports)]
use crate::text::{
    finishes_with, has_text, lowercased, opt_piece, opt_text, pieces_stand_in_their_text,
    same_but_case, stands_at, trimmed,
};

verus! {

// ---------------------------------------------------------------------------
// Free-form replies
// ---------------------------------------------------------------------------

/// A reply without a fixed form.
#[derive(Debug)]
pub enum Json {
    Null,
    Bool(bool),
    /// A number, as it is written.
    Number(String),
    Text(String),
    List(Vec<Json>),
    /// Named values, in the order in which they are walked. No name occurs twice.
    Object(Vec<JsonField>),
}

/// A named value of a reply.
#[derive(Debug)]
pub struct JsonField {
    pub name: String,
    pub value: Json,
}

/// The place of a name among fields, from `from` on, or their number.
pub open spec fn field_at(fields: Seq<JsonField>, name: Seq<char>, from: int) -> int
    decreases fields.len() - from,
{
    if from >= fields.len() {
        fields.len() as int
    } else if fields[from].name@ == name {
        from
    } else {
        field_at(fields, name, from + 1)
    }
}

/// The value of a field of an object.
pub open spec fn field_of(val: Json, name: Seq<char>) -> Option<Json> {
    match val {
        Json::Object(fields) => {
            let i = field_at(fields@, name, 0);
            if i < fields@.len() {
                Some(fields@[i].value)
            } else {
                None
            }
        },
        _ => None,
    }
}

/// The text that a value is.
pub open spec fn text_value(val: Option<Json>) -> Option<Seq<char>> {
    match val {
        Some(Json::Text(s)) => Some(s@),
        _ => None,
    }
}

fn get_field<'a>(val: &'a Json, name: &str) -> (res: Option<&'a Json>)
    ensures
        res is Some <==> field_of(*val, name@) is Some,
        res matches Some(v) ==> Some(*v) == field_of(*val, name@),
{
    if let Json::Object(fields) = val {
        let mut i: usize = 0;
        while i < fields.len()
            invariant
                i <= fields@.len(),
                *val == Json::Object(*fields),
                field_at(fields@, name@, i as int) == field_at(fields@, name@, 0),
            decreases fields@.len() - i,
        {
            if same_text(fields[i].name.as_str(), name) {
                return Some(&fields[i].value);
            }
            i += 1;
        }
    }
    None
}

fn get_text<'a>(val: Option<&'a Json>) -> (res: Option<&'a str>)
    ensures
        opt_piece(res) == text_value(match val {
            Some(v) => Some(*v),
            None => None,
        }),
{
    match val {
        Some(Json::Text(s)) => Some(s.as_str()),
        _ => None,
    }
}

/// Whether a text is the address of the list of contracts of a segment.
pub open spec fn names_segment(s: Seq<char>, segment: Seq<char>) -> bool {
    ||| has_text(s, segment + ".csv"@)
    ||| has_text(s, segment + "-"@)
    ||| finishes_with(s, ".csv"@) && has_text(s, segment)
}

/// The address of the list of contracts of a segment: the text under the name of the segment,
/// or the first text inside that names it.
pub open spec fn csv_url(val: Json, segment: Seq<char>) -> Option<Seq<char>>
    decreases val, 0int,
{
    match val {
        Json::Object(fields) => if text_value(field_of(val, segment)) is Some {
            text_value(field_of(val, segment))
        } else {
            csv_url_in_fields(fields@, segment, 0)
        },
        Json::List(values) => csv_url_in_list(values@, segment, 0),
        Json::Text(s) => if names_segment(s@, segment) {
            Some(s@)
        } else {
            None
        },
        _ => None,
    }
}

/// The first address inside the values from `from` on.
pub open spec fn csv_url_in_list(values: Seq<Json>, segment: Seq<char>, from: int) -> Option<
    Seq<char>,
>
    decreases values, values.len() - from,
{
    if from < 0 || from >= values.len() {
        None
    } else if csv_url(values[from], segment) is Some {
        csv_url(values[from], segment)
    } else {
        csv_url_in_list(values, segment, from + 1)
    }
}

/// The first address inside the fields from `from` on.
pub open spec fn csv_url_in_fields(
    fields: Seq<JsonField>,
    segment: Seq<char>,
    from: int,
) -> Option<Seq<char>>
    decreases fields, fields.len() - from,
{
    if from < 0 || from >= fields.len() {
        None
    } else {
        proof {
            assert(decreases_to!(fields => fields[from]));
            assert(decreases_to!(fields[from] => fields[from].value));
        }
        if csv_url(fields[from].value, segment) is Some {
            csv_url(fields[from].value, segment)
        } else {
            csv_url_in_fields(fields, segment, from + 1)
        }
    }
}

/// Find the address of the list of contracts of a segment in a reply.
pub fn find_csv_url(val: &Json, segment: &str) -> (res: Option<String>)
    ensures
        opt_text(res) == csv_url(*val, segment@),
    decreases *val,
{
    match val {
        Json::Object(fields) => {
            if let Some(s) = get_text(get_field(val, segment)) {
                return Some(s.to_string());
            }
            let mut i: usize = 0;
            while i < fields.len()
                invariant
                    i <= fields@.len(),
                    *val == Json::Object(*fields),
                    text_value(field_of(*val, segment@)) is None,
                    csv_url_in_fields(fields@, segment@, i as int) == csv_url_in_fields(
                        fields@,
                        segment@,
                        0,
                    ),
                decreases fields@.len() - i,
            {
                proof {
                    assert(decreases_to!(*val => *fields));
                    assert(decreases_to!(*fields => fields@));
                    assert(decreases_to!(fields@ => fields@[i as int]));
                    assert(decreases_to!(fields@[i as int] => fields@[i as int].value));
                }
                if let Some(s) = find_csv_url(&fields[i].value, segment) {
                    return Some(s);
                }
                i += 1;
            }
            None
        },
        Json::List(values) => {
            let mut i: usize = 0;
            while i < values.len()
                invariant
                    i <= values@.len(),
                    *val == Json::List(*values),
                    csv_url_in_list(values@, segment@, i as int) == csv_url_in_list(
                        values@,
                        segment@,
                        0,
                    ),
                decreases values@.len() - i,
            {
                proof {
                    assert(decreases_to!(*val => *values));
                    assert(decreases_to!(*values => values@));
                    assert(decreases_to!(values@ => values@[i as int]));
                }
                if let Some(s) = find_csv_url(&values[i], segment) {
                    return Some(s);
                }
                i += 1;
            }
            None
        },
        Json::Text(s) => {
            let file: String = join2(segment, ".csv");
            let versioned: String = join2(segment, "-");
            if contains(s.as_str(), file.as_str()) || contains(s.as_str(), versioned.as_str()) || (
            ends_with(s.as_str(), ".csv") && contains(s.as_str(), segment)) {
                Some(s.clone())
            } else {
                None
            }
        },
        _ => None,
    }
}

/// What a login that failed is told by: the message of the reply, and the status.
pub open spec fn login_failure_text(
    body: Seq<char>,
    reply: Option<Json>,
    status: Seq<char>,
) -> Seq<char> {
    let said = match reply {
        Some(v) => if text_value(field_of(v, "message"@)) is Some {
            text_value(field_of(v, "message"@))->0
        } else if field_of(v, "fault"@) is Some && text_value(
            field_of(field_of(v, "fault"@)->0, "message"@),
        ) is Some {
            text_value(field_of(field_of(v, "fault"@)->0, "message"@))->0
        } else if text_value(field_of(v, "error"@)) is Some {
            text_value(field_of(v, "error"@))->0
        } else {
            body
        },
        None => body,
    };
    said + " (HTTP "@ + status + ")"@
}

/// Tell why a login failed. The reply is the body as far as it can be read.
pub fn login_failure(body: &str, reply: &Option<Json>, status: &str) -> (res: String)
    ensures
        res@ == login_failure_text(body@, *reply, status@),
{
    let mut said: &str = body;
    if let Some(v) = reply {
        if let Some(s) = get_text(get_field(v, "message")) {
            said = s;
        } else {
            let inner: Option<&str> = match get_field(v, "fault") {
                Some(f) => get_text(get_field(f, "message")),
                None => None,
            };
            if let Some(s) = inner {
                said = s;
            } else if let Some(s) = get_text(get_field(v, "error")) {
                said = s;
            }
        }
    }
    let mut out: String = said.to_string();
    out.append(" (HTTP ");
    out.append(status);
    out.append(")");
    out
}

// ---------------------------------------------------------------------------
// Calls
// ---------------------------------------------------------------------------

/// What a call carries.
#[derive(Debug)]
pub enum CallBody {
    Nothing,
    /// Fields that are sent as the form field `jData`.
    Form(Vec<(String, String)>),
    /// Fields that are sent as they are.
    Plain(Vec<(String, String)>),
}

/// What a [`CallBody`] says.
pub ghost enum CallBodyView {
    Nothing,
    Form(Seq<(Seq<char>, Seq<char>)>),
    Plain(Seq<(Seq<char>, Seq<char>)>),
}

impl View for CallBody {
    type V = CallBodyView;

    open spec fn view(&self) -> CallBodyView {
        match self {
            CallBody::Nothing => CallBodyView::Nothing,
            CallBody::Form(f) => CallBodyView::Form(fields_view(f@)),
            CallBody::Plain(f) => CallBodyView::Plain(fields_view(f@)),
        }
    }
}

/// A call to the broker.
#[derive(Debug)]
pub struct BrokerCall {
    /// Whether something is posted, rather than fetched.
    pub post: bool,
    pub url: String,
    pub headers: Vec<(String, String)>,
    pub body: CallBody,
}

/// What a [`BrokerCall`] says.
#[verifier::ext_equal]
pub ghost struct BrokerCallView {
    pub post: bool,
    pub url: Seq<char>,
    pub headers: Seq<(Seq<char>, Seq<char>)>,
    pub body: CallBodyView,
}

impl View for BrokerCall {
    type V = BrokerCallView;

    open spec fn view(&self) -> BrokerCallView {
        BrokerCallView {
            post: self.post,
            url: self.url@,
            headers: fields_view(self.headers@),
            body: self.body@,
        }
    }
}

/// A client of the broker. It knows what is to be sent, and what a reply means.
pub struct KotakClient {
    /// Where logins go.
    pub auth_base_url: String,
    /// The key that goes with every call.
    pub fin_key: String,
    pub access_token: String,
    pub session: Option<Session>,
    /// The address that the orders are said to come from.
    pub client_ip: Option<String>,
}

/// What a [`KotakClient`] says, with its texts as character sequences.
#[verifier::ext_equal]
pub ghost struct KotakClientView {
    pub auth_base_url: Seq<char>,
    pub fin_key: Seq<char>,
    pub access_token: Seq<char>,
    pub session: Option<SessionView>,
    pub client_ip: Option<Seq<char>>,
}

impl View for KotakClient {
    type V = KotakClientView;

    open spec fn view(&self) -> KotakClientView {
        KotakClientView {
            auth_base_url: self.auth_base_url@,
            fin_key: self.fin_key@,
            access_token: self.access_token@,
            session: match self.session {
                Some(s) => Some(s@),
                None => None,
            },
            client_ip: opt_text(self.client_ip),
        }
    }
}

impl Clone for KotakClient {
    fn clone(&self) -> (res: Self)
        ensures
            res@ == self@,
    {
        KotakClient {
            auth_base_url: self.auth_base_url.clone(),
            fin_key: self.fin_key.clone(),
            access_token: self.access_token.clone(),
            session: match &self.session {
                Some(s) => Some(s.clone()),
                None => None,
            },
            client_ip: clone_opt(&self.client_ip),
        }
    }
}

/// The headers of a call within a session.
pub open spec fn session_headers(c: KotakClientView) -> Seq<(Seq<char>, Seq<char>)> {
    let head = seq![
        ("Sid"@, c.session->0.sid),
        ("Auth"@, c.session->0.auth_token),
        ("neo-fin-key"@, c.fin_key),
    ];
    match c.client_ip {
        Some(ip) => head.push(("X-Forwarded-For"@, ip)),
        None => head,
    }
}

/// A call within a session.
pub open spec fn session_call(
    c: KotakClientView,
    post: bool,
    path: Seq<char>,
    body: CallBodyView,
) -> BrokerCallView {
    BrokerCallView {
        post,
        url: c.session->0.base_url + path,
        headers: session_headers(c),
        body,
    }
}

/// Whether `res` is the call `call`, or, for a client without a session, the error for that.
pub open spec fn called_if_authenticated(
    c: KotakClientView,
    res: Result<BrokerCall, KotakError>,
    call: BrokerCallView,
) -> bool {
    &&& res is Ok <==> c.session is Some
    &&& res matches Ok(b) ==> b@ == call
    &&& res matches Err(e) ==> e@ is NotAuthenticated
}

/// The fields that ask for the limits of an account.
pub open spec fn limit_fields() -> Seq<(Seq<char>, Seq<char>)> {
    seq![("seg"@, "ALL"@), ("exch"@, "ALL"@), ("prod"@, "ALL"@)]
}

/// What the broker hands out at a login.
#[derive(Debug)]
pub struct AuthData {
    pub token: String,
    pub sid: String,
    pub base_url: Option<String>,
    pub data_center: Option<String>,
}

impl KotakClient {
    /// A client without a session.
    pub fn new(auth_base_url: String, fin_key: String, access_token: String) -> (res: Self)
        ensures
            res@ == (KotakClientView {
                auth_base_url: auth_base_url@,
                fin_key: fin_key@,
                access_token: access_token@,
                session: None,
                client_ip: None,
            }),
    {
        KotakClient { auth_base_url, fin_key, access_token, session: None, client_ip: None }
    }

    /// The client, with an address that its orders are said to come from.
    pub fn with_client_ip(self, ip: String) -> (res: Self)
        ensures
            res@ == (KotakClientView { client_ip: Some(ip@), ..self@ }),
    {
        KotakClient {
            auth_base_url: self.auth_base_url,
            fin_key: self.fin_key,
            access_token: self.access_token,
            session: self.session,
            client_ip: Some(ip),
        }
    }

    /// Take up a session that was opened before.
    pub fn restore_session(&mut self, auth_token: String, sid: String, base_url: String)
        ensures
            final(self)@ == (KotakClientView {
                session: Some(
                    SessionView {
                        auth_token: auth_token@,
                        sid: sid@,
                        base_url: base_url@,
                        data_center: None,
                    },
                ),
                ..old(self)@
            }),
    {
        self.session = Some(Session { auth_token, sid, base_url, data_center: None });
    }

    /// Whether there is a session.
    pub fn is_authenticated(&self) -> (res: bool)
        ensures
            res == (self@.session is Some),
    {
        self.session.is_some()
    }

    /// The token and the number of the session.
    pub fn session_credentials(&self) -> (res: Option<(&str, &str)>)
        ensures
            res is Some <==> self@.session is Some,
            res matches Some(p) ==> p.0@ == self@.session->0.auth_token && p.1@
                == self@.session->0.sid,
    {
        match &self.session {
            Some(s) => Some((s.auth_token.as_str(), s.sid.as_str())),
            None => None,
        }
    }

    fn within_session(&self, post: bool, path: &str, body: CallBody) -> (res: Result<
        BrokerCall,
        KotakError,
    >)
        ensures
            called_if_authenticated(self@, res, session_call(self@, post, path@, body@)),
    {
        let s: &Session = match &self.session {
            Some(s) => s,
            None => {
                return Err(KotakError::NotAuthenticated);
            },
        };
        let mut headers: Vec<(String, String)> = Vec::new();
        push_field(&mut headers, "Sid", s.sid.clone());
        push_field(&mut headers, "Auth", s.auth_token.clone());
        push_field(&mut headers, "neo-fin-key", self.fin_key.clone());
        assert(fields_view(headers@) =~= seq![
            ("Sid"@, self@.session->0.sid),
            ("Auth"@, self@.session->0.auth_token),
            ("neo-fin-key"@, self@.fin_key),
        ]);
        if let Some(ip) = &self.client_ip {
            push_field(&mut headers, "X-Forwarded-For", ip.clone());
        }
        Ok(BrokerCall { post, url: join2(s.base_url.as_str(), path), headers, body })
    }

    /// The call that places an order.
    pub fn place_live_order(&self, order: &OrderRequest) -> (res: Result<BrokerCall, KotakError>)
        ensures
            called_if_authenticated(
                self@,
                res,
                session_call(
                    self@,
                    true,
                    "/quick/order/rule/ms/place"@,
                    CallBodyView::Form(order_fields(order@, "rt"@)),
                ),
            ),
    {
        self.within_session(
            true,
            "/quick/order/rule/ms/place",
            CallBody::Form(place_fields(order)),
        )
    }

    /// The call that modifies the order `order_no`.
    pub fn modify_order(&self, order: &OrderRequest, order_no: &str) -> (res: Result<
        BrokerCall,
        KotakError,
    >)
        ensures
            called_if_authenticated(
                self@,
                res,
                session_call(
                    self@,
                    true,
                    "/quick/order/vr/modify"@,
                    CallBodyView::Form(order_fields(order@, "vd"@).push(("no"@, order_no@))),
                ),
            ),
    {
        self.within_session(
            true,
            "/quick/order/vr/modify",
            CallBody::Form(modify_fields(order, order_no)),
        )
    }

    /// The call that cancels the order `order_no`.
    pub fn cancel_order(&self, order_no: &str, trading_symbol: Option<&str>) -> (res: Result<
        BrokerCall,
        KotakError,
    >)
        ensures
            called_if_authenticated(
                self@,
                res,
                session_call(
                    self@,
                    true,
                    "/quick/order/cancel"@,
                    CallBodyView::Form(cancel_field_list(order_no@, opt_piece(trading_symbol))),
                ),
            ),
    {
        self.within_session(
            true,
            "/quick/order/cancel",
            CallBody::Form(cancel_fields(order_no, trading_symbol)),
        )
    }

    /// The call that fetches the positions of the day.
    pub fn get_positions(&self) -> (res: Result<BrokerCall, KotakError>)
        ensures
            called_if_authenticated(
                self@,
                res,
                session_call(self@, false, "/quick/user/positions"@, CallBodyView::Nothing),
            ),
    {
        self.within_session(false, "/quick/user/positions", CallBody::Nothing)
    }

    /// The call that fetches the order book of the day.
    pub fn get_order_book(&self) -> (res: Result<BrokerCall, KotakError>)
        ensures
            called_if_authenticated(
                self@,
                res,
                session_call(self@, false, "/quick/user/orders"@, CallBodyView::Nothing),
            ),
    {
        self.within_session(false, "/quick/user/orders", CallBody::Nothing)
    }

    /// The call that fetches what the account can spend.
    pub fn get_limits(&self) -> (res: Result<BrokerCall, KotakError>)
        ensures
            called_if_authenticated(
                self@,
                res,
                session_call(
                    self@,
                    true,
                    "/quick/user/limits"@,
                    CallBodyView::Form(limit_fields()),
                ),
            ),
    {
        let mut fields: Vec<(String, String)> = Vec::new();
        push_field(&mut fields, "seg", "ALL".to_string());
        push_field(&mut fields, "exch", "ALL".to_string());
        push_field(&mut fields, "prod", "ALL".to_string());
        assert(fields_view(fields@) =~= limit_fields());
        self.within_session(true, "/quick/user/limits", CallBody::Form(fields))
    }

    /// The call that asks where the lists of contracts are.
    pub fn get_scrip_master_csv(&self) -> (res: Result<BrokerCall, KotakError>)
        ensures
            res is Ok <==> self@.session is Some,
            res matches Ok(b) ==> b@ == (BrokerCallView {
                post: false,
                url: self@.session->0.base_url + "/script-details/1.0/masterscrip/file-paths"@,
                headers: seq![("Authorization"@, trimmed(self@.access_token))],
                body: CallBodyView::Nothing,
            }),
            res matches Err(e) ==> e@ == (KotakErrorView::OrderRejected {
                status_code: 401,
                message: "Not logged in"@,
            }),
    {
        let s: &Session = match &self.session {
            Some(s) => s,
            None => {
                return Err(
                    KotakError::OrderRejected {
                        status_code: 401,
                        message: "Not logged in".to_string(),
                    },
                );
            },
        };
        let mut headers: Vec<(String, String)> = Vec::new();
        push_field(&mut headers, "Authorization", trim(self.access_token.as_str()));
        assert(fields_view(headers@) =~= seq![("Authorization"@, trimmed(self@.access_token))]);
        Ok(
            BrokerCall {
                post: false,
                url: join2(
                    s.base_url.as_str(),
                    "/script-details/1.0/masterscrip/file-paths",
                ),
                headers,
                body: CallBody::Nothing,
            },
        )
    }

    /// The first call of a login, with the one-time code.
    pub fn login_totp(&self, creds: &KotakCredentials) -> (res: BrokerCall)
        ensures
            res@ == (BrokerCallView {
                post: true,
                url: self@.auth_base_url + "/tradeApiLogin"@,
                headers: seq![
                    ("Authorization"@, trimmed(self@.access_token)),
                    ("neo-fin-key"@, self@.fin_key),
                    ("Content-Type"@, "application/json"@),
                ],
                body: CallBodyView::Plain(
                    seq![
                        ("mobileNumber"@, creds@.mobile_number),
                        ("ucc"@, creds@.ucc),
                        ("totp"@, creds@.totp),
                    ],
                ),
            }),
    {
        let mut headers: Vec<(String, String)> = Vec::new();
        push_field(&mut headers, "Authorization", trim(self.access_token.as_str()));
        push_field(&mut headers, "neo-fin-key", self.fin_key.clone());
        push_field(&mut headers, "Content-Type", "application/json".to_string());
        assert(fields_view(headers@) =~= seq![
            ("Authorization"@, trimmed(self@.access_token)),
            ("neo-fin-key"@, self@.fin_key),
            ("Content-Type"@, "application/json"@),
        ]);
        let mut fields: Vec<(String, String)> = Vec::new();
        push_field(&mut fields, "mobileNumber", creds.mobile_number.clone());
        push_field(&mut fields, "ucc", creds.ucc.clone());
        push_field(&mut fields, "totp", creds.totp.clone());
        assert(fields_view(fields@) =~= seq![
            ("mobileNumber"@, creds@.mobile_number),
            ("ucc"@, creds@.ucc),
            ("totp"@, creds@.totp),
        ]);
        BrokerCall {
            post: true,
            url: join2(self.auth_base_url.as_str(), "/tradeApiLogin"),
            headers,
            body: CallBody::Plain(fields),
        }
    }

    /// The second call of a login, with the trading code, on the strength of the first.
    pub fn validate_mpin(&self, view_token: &str, view_sid: &str, mpin: &str) -> (res: BrokerCall)
        ensures
            res@ == (BrokerCallView {
                post: true,
                url: self@.auth_base_url + "/tradeApiValidate"@,
                headers: seq![
                    ("Authorization"@, trimmed(self@.access_token)),
                    ("neo-fin-key"@, self@.fin_key),
                    ("sid"@, view_sid@),
                    ("Auth"@, view_token@),
                    ("Content-Type"@, "application/json"@),
                ],
                body: CallBodyView::Plain(seq![("mpin"@, mpin@)]),
            }),
    {
        let mut headers: Vec<(String, String)> = Vec::new();
        push_field(&mut headers, "Authorization", trim(self.access_token.as_str()));
        push_field(&mut headers, "neo-fin-key", self.fin_key.clone());
        push_field(&mut headers, "sid", view_sid.to_string());
        push_field(&mut headers, "Auth", view_token.to_string());
        push_field(&mut headers, "Content-Type", "application/json".to_string());
        assert(fields_view(headers@) =~= seq![
            ("Authorization"@, trimmed(self@.access_token)),
            ("neo-fin-key"@, self@.fin_key),
            ("sid"@, view_sid@),
            ("Auth"@, view_token@),
            ("Content-Type"@, "application/json"@),
        ]);
        let mut fields: Vec<(String, String)> = Vec::new();
        push_field(&mut fields, "mpin", mpin.to_string());
        assert(fields_view(fields@) =~= seq![("mpin"@, mpin@)]);
        BrokerCall {
            post: true,
            url: join2(self.auth_base_url.as_str(), "/tradeApiValidate"),
            headers,
            body: CallBody::Plain(fields),
        }
    }

    /// Open the session that the second call of a login handed out.
    pub fn open_session(&mut self, data: AuthData)
        ensures
            final(self)@ == (KotakClientView {
                session: Some(
                    SessionView {
                        auth_token: data.token@,
                        sid: data.sid@,
                        base_url: match data.base_url {
                            Some(u) => u@,
                            None => Seq::empty(),
                        },
                        data_center: opt_text(data.data_center),
                    },
                ),
                ..old(self)@
            }),
    {
        let base_url: String = match data.base_url {
            Some(u) => u,
            None => String::new(),
        };
        self.session = Some(
            Session {
                auth_token: data.token,
                sid: data.sid,
                base_url,
                data_center: data.data_center,
            },
        );
    }
}

// ---------------------------------------------------------------------------
// Replies
// ---------------------------------------------------------------------------

/// Whether a status says that a session is dead.
pub open spec fn session_over(status: int) -> bool {
    status == 401 || status == 403
}

/// Whether a status says that a session is dead.
pub fn session_check(status: u16) -> (res: Result<(), KotakError>)
    ensures
        res is Err <==> status == 401 || status == 403,
        res is Err <==> session_over(status as int),
        res matches Err(e) ==> e@ == (KotakErrorView::SessionExpired { status }),
{
    if status == 401 || status == 403 {
        Err(KotakError::SessionExpired { status })
    } else {
        Ok(())
    }
}

/// The address of the list of contracts of a segment in the reply of the broker.
pub fn scrip_master_url(reply: &Json, segment: &str) -> (res: Result<String, KotakError>)
    ensures
        res is Ok <==> csv_url(*reply, segment@) is Some,
        res matches Ok(s) ==> Some(s@) == csv_url(*reply, segment@),
        res matches Err(e) ==> e@ == (KotakErrorView::OrderRejected {
            status_code: 404,
            message: "CSV URL not found for "@ + segment@,
        }),
{
    match find_csv_url(reply, segment) {
        Some(s) => Ok(s),
        None => Err(
            KotakError::OrderRejected {
                status_code: 404,
                message: join2("CSV URL not found for ", segment),
            },
        ),
    }
}

/// The reply to an order.
#[derive(Debug)]
pub struct OrderReply {
    pub stat: String,
    pub st_code: i32,
    pub n_ord_no: Option<String>,
    pub emsg: Option<String>,
}

/// What the broker says went wrong.
pub open spec fn complaint(emsg: Option<Seq<char>>, stat: Seq<char>) -> Seq<char> {
    match emsg {
        Some(m) => m,
        None => stat,
    }
}

fn complaint_of(emsg: Option<String>, stat: String) -> (res: String)
    ensures
        res@ == complaint(opt_text(emsg), stat@),
{
    match emsg {
        Some(m) => m,
        None => stat,
    }
}

/// Whether the broker is content.
pub open spec fn content(stat: Seq<char>) -> bool {
    same_but_case(stat, "Ok"@)
}

/// What becomes of an order: its number, or `fallback` where the broker names none, and that
/// it is `status`. No charge is known yet.
pub open spec fn order_outcome(
    n_ord_no: Option<Seq<char>>,
    fallback: Seq<char>,
    status: Seq<char>,
    timestamp: Seq<char>,
) -> ExecutionResultView {
    ExecutionResultView {
        order_id: match n_ord_no {
            Some(id) => id,
            None => fallback,
        },
        status,
        gross_value: 0,
        brokerage: 0,
        stt_charge: 0,
        sebi_fee: 0,
        stamp_duty: 0,
        transaction_charge: 0,
        gst: 0,
        net_value: 0,
        timestamp,
    }
}

/// Whether `res` is what a reply to an order means.
pub open spec fn order_understood(
    reply: OrderReply,
    fallback: Seq<char>,
    status: Seq<char>,
    timestamp: Seq<char>,
    res: Result<ExecutionResult, KotakError>,
) -> bool {
    &&& res is Ok <==> content(reply.stat@)
    &&& res matches Ok(r) ==> r@ == order_outcome(
        opt_text(reply.n_ord_no),
        fallback,
        status,
        timestamp,
    )
    &&& res matches Err(e) ==> e@ == (KotakErrorView::OrderRejected {
        status_code: reply.st_code,
        message: complaint(opt_text(reply.emsg), reply.stat@),
    })
}

/// Understand the reply to an order, at the time `timestamp`.
pub fn order_answer(
    reply: OrderReply,
    fallback: &str,
    status: &str,
    timestamp: String,
) -> (res: Result<ExecutionResult, KotakError>)
    ensures
        order_understood(reply, fallback@, status@, timestamp@, res),
{
    if !eq_ignore_case(reply.stat.as_str(), "Ok") {
        return Err(
            KotakError::OrderRejected {
                status_code: reply.st_code,
                message: complaint_of(reply.emsg, reply.stat),
            },
        );
    }
    let order_id: String = match reply.n_ord_no {
        Some(id) => id,
        None => fallback.to_string(),
    };
    Ok(
        ExecutionResult {
            order_id,
            status: status.to_string(),
            gross_value: 0,
            brokerage: 0,
            stt_charge: 0,
            sebi_fee: 0,
            stamp_duty: 0,
            transaction_charge: 0,
            gst: 0,
            net_value: 0,
            timestamp,
        },
    )
}

/// Understand the reply to an order that was placed.
pub fn place_answer(reply: OrderReply) -> (res: Result<ExecutionResult, KotakError>)
    ensures
        exists|t: IstTime, s: Seq<char>| #[trigger]
            is_timestamp_of(s, t) && t.valid() && order_understood(
                reply,
                Seq::empty(),
                "COMPLETE"@,
                s,
                res,
            ),
{
    proof {
        reveal_strlit("");
    }
    assert(""@ =~= Seq::<char>::empty());
    let timestamp: String = current_ist_timestamp_string();
    let ghost said = timestamp@;
    let res: Result<ExecutionResult, KotakError> = order_answer(reply, "", "COMPLETE", timestamp);
    proof {
        let t = choose|t: IstTime| #[trigger] t.valid() && is_timestamp_of(said, t);
        assert(is_timestamp_of(said, t));
    }
    res
}

/// Understand the reply to a change of the order `order_no`.
pub fn modify_answer(reply: OrderReply, order_no: &str) -> (res: Result<
    ExecutionResult,
    KotakError,
>)
    ensures
        exists|t: IstTime, s: Seq<char>| #[trigger]
            is_timestamp_of(s, t) && t.valid() && order_understood(
                reply,
                order_no@,
                "COMPLETE"@,
                s,
                res,
            ),
{
    let timestamp: String = current_ist_timestamp_string();
    let ghost said = timestamp@;
    let res: Result<ExecutionResult, KotakError> = order_answer(
        reply,
        order_no,
        "COMPLETE",
        timestamp,
    );
    proof {
        let t = choose|t: IstTime| #[trigger] t.valid() && is_timestamp_of(said, t);
        assert(is_timestamp_of(said, t));
    }
    res
}

/// Understand the reply to a cancellation of the order `order_no`.
pub fn cancel_answer(reply: OrderReply, order_no: &str) -> (res: Result<
    ExecutionResult,
    KotakError,
>)
    ensures
        exists|t: IstTime, s: Seq<char>| #[trigger]
            is_timestamp_of(s, t) && t.valid() && order_understood(
                reply,
                order_no@,
                "CANCELLED"@,
                s,
                res,
            ),
{
    let timestamp: String = current_ist_timestamp_string();
    let ghost said = timestamp@;
    let res: Result<ExecutionResult, KotakError> = order_answer(
        reply,
        order_no,
        "CANCELLED",
        timestamp,
    );
    proof {
        let t = choose|t: IstTime| #[trigger] t.valid() && is_timestamp_of(said, t);
        assert(is_timestamp_of(said, t));
    }
    res
}

/// The code by which the broker says that there is nothing to show.
pub const NOTHING_TO_SHOW: i32 = 5_203;

/// Understand a reply that lists the positions of the day.
pub fn positions_answer(
    stat: String,
    st_code: i32,
    emsg: Option<String>,
    data: Vec<KotakPosition>,
) -> (res: Result<Vec<KotakPosition>, KotakError>)
    ensures
        res is Ok <==> content(stat@) || st_code == NOTHING_TO_SHOW,
        res matches Ok(v) ==> v@ == (if content(stat@) {
            data@
        } else {
            Seq::empty()
        }),
        res matches Err(e) ==> e@ == (KotakErrorView::ApiError {
            status_code: st_code,
            message: complaint(opt_text(emsg), stat@),
        }),
{
    if !eq_ignore_case(stat.as_str(), "Ok") {
        if st_code == NOTHING_TO_SHOW {
            return Ok(Vec::new());
        }
        return Err(
            KotakError::ApiError { status_code: st_code, message: complaint_of(emsg, stat) },
        );
    }
    Ok(data)
}

/// Whether a reply only says that there is no order yet, by its code or in words, given the
/// complaint in lower case.
pub open spec fn empty_book(st_code: i32, lower: Seq<char>) -> bool {
    st_code == NOTHING_TO_SHOW || has_text(lower, "no data"@)
}

/// Whether a reply only says that there is no order yet.
pub fn is_empty_book(st_code: i32, lower: &str) -> (res: bool)
    ensures
        res == empty_book(st_code, lower@),
{
    st_code == NOTHING_TO_SHOW || contains(lower, "no data")
}

/// Understand a reply that lists the orders of the day. That there is none yet is no error.
pub fn order_book_answer(
    stat: String,
    st_code: i32,
    emsg: Option<String>,
    data: Vec<KotakOrder>,
) -> (res: Result<Vec<KotakOrder>, KotakError>)
    ensures
        res is Ok <==> content(stat@) || empty_book(
            st_code,
            lowercased(complaint(opt_text(emsg), stat@)),
        ),
        res matches Ok(v) ==> v@ == (if content(stat@) {
            data@
        } else {
            Seq::empty()
        }),
        res matches Err(e) ==> e@ == (KotakErrorView::ApiError {
            status_code: st_code,
            message: complaint(opt_text(emsg), stat@),
        }),
{
    if !eq_ignore_case(stat.as_str(), "Ok") {
        let message: String = complaint_of(emsg, stat);
        if is_empty_book(st_code, to_lower(message.as_str()).as_str()) {
            return Ok(Vec::new());
        }
        return Err(KotakError::ApiError { status_code: st_code, message });
    }
    Ok(data)
}

/// A reply that tells the limits of an account.
#[derive(Debug)]
pub struct LimitsReply {
    pub stat: String,
    pub st_code: i32,
    pub net: String,
    pub margin_used: String,
    pub collateral_value: String,
    pub emsg: Option<String>,
}

/// Understand a reply that tells the limits of an account.
pub fn limits_answer(reply: LimitsReply) -> (res: Result<KotakLimits, KotakError>)
    ensures
        res is Ok <==> content(reply.stat@),
        res matches Ok(l) ==> l.net == loose_decimal(reply.net@) && l.margin_used == loose_decimal(
            reply.margin_used@,
        ) && l.collateral_value == loose_decimal(reply.collateral_value@),
        res matches Err(e) ==> e@ == (KotakErrorView::ApiError {
            status_code: reply.st_code,
            message: complaint(opt_text(reply.emsg), reply.stat@),
        }),
{
    if !eq_ignore_case(reply.stat.as_str(), "Ok") {
        return Err(
            KotakError::ApiError {
                status_code: reply.st_code,
                message: complaint_of(reply.emsg, reply.stat),
            },
        );
    }
    Ok(
        read_limits(
            reply.net.as_str(),
            reply.margin_used.as_str(),
            reply.collateral_value.as_str(),
        ),
    )
}

// ---------------------------------------------------------------------------
// Laws
// ---------------------------------------------------------------------------

/// Whether a text stands somewhere in a reply.
pub open spec fn holds_text(val: Json, s: Seq<char>) -> bool
    decreases val,
{
    match val {
        Json::Object(fields) => exists|i: int|
            0 <= i < fields@.len() && holds_text((#[trigger] fields@[i]).value, s),
        Json::List(values) => exists|i: int|
            0 <= i < values@.len() && holds_text(#[trigger] values@[i], s),
        Json::Text(t) => t@ == s,
        _ => false,
    }
}

proof fn lemma_found_in_fields(fields: Seq<JsonField>, segment: Seq<char>, from: int)
    requires
        0 <= from,
        csv_url_in_fields(fields, segment, from) is Some,
    ensures
        exists|i: int|
            0 <= i < fields.len() && holds_text(
                (#[trigger] fields[i]).value,
                csv_url_in_fields(fields, segment, from)->0,
            ),
    decreases fields, fields.len() - from,
{
    assert(decreases_to!(fields => fields[from]));
    assert(decreases_to!(fields[from] => fields[from].value));
    if csv_url(fields[from].value, segment) is Some {
        found_addresses_stand_in_the_reply(fields[from].value, segment);
        assert(holds_text(fields[from].value, csv_url(fields[from].value, segment)->0));
    } else {
        lemma_found_in_fields(fields, segment, from + 1);
    }
}

proof fn lemma_found_in_list(values: Seq<Json>, segment: Seq<char>, from: int)
    requires
        0 <= from,
        csv_url_in_list(values, segment, from) is Some,
    ensures
        exists|i: int|
            0 <= i < values.len() && holds_text(
                #[trigger] values[i],
                csv_url_in_list(values, segment, from)->0,
            ),
    decreases values, values.len() - from,
{
    if csv_url(values[from], segment) is Some {
        found_addresses_stand_in_the_reply(values[from], segment);
    } else {
        lemma_found_in_list(values, segment, from + 1);
    }
}

/// An address that is found is not made up: it stands in the reply.
pub proof fn found_addresses_stand_in_the_reply(val: Json, segment: Seq<char>)
    requires
        csv_url(val, segment) is Some,
    ensures
        holds_text(val, csv_url(val, segment)->0),
    decreases val, 0int,
{
    match val {
        Json::Object(fields) => {
            if text_value(field_of(val, segment)) is Some {
                let i = field_at(fields@, segment, 0);
                lemma_field_at(fields@, segment, 0);
                assert(holds_text(fields@[i].value, csv_url(val, segment)->0));
            } else {
                lemma_found_in_fields(fields@, segment, 0);
            }
        },
        Json::List(values) => {
            lemma_found_in_list(values@, segment, 0);
        },
        _ => {},
    }
}

proof fn lemma_field_at(fields: Seq<JsonField>, name: Seq<char>, from: int)
    requires
        0 <= from <= fields.len(),
    ensures
        from <= field_at(fields, name, from) <= fields.len(),
    decreases fields.len() - from,
{
    if from < fields.len() && fields[from].name@ != name {
        lemma_field_at(fields, name, from + 1);
    }
}

/// The order in which a list is walked decides: an address found in front is kept, whatever is
/// put behind it.
pub proof fn first_address_wins(
    front: Seq<Json>,
    back: Seq<Json>,
    segment: Seq<char>,
    from: int,
)
    requires
        0 <= from <= front.len(),
        csv_url_in_list(front, segment, from) is Some,
    ensures
        csv_url_in_list(front + back, segment, from) == csv_url_in_list(front, segment, from),
    decreases front.len() - from,
{
    if from < front.len() {
        assert((front + back)[from] == front[from]);
        if csv_url(front[from], segment) is None {
            first_address_wins(front, back, segment, from + 1);
        }
    }
}

/// Taking up a session gives a client that can make calls, and keeps everything else.
pub proof fn a_restored_session_authenticates(c: KotakClientView, s: SessionView)
    ensures
        ({
            let d = KotakClientView { session: Some(s), ..c };
            &&& d.session is Some
            &&& session_headers(d)[0] == ("Sid"@, s.sid)
            &&& session_headers(d)[1] == ("Auth"@, s.auth_token)
            &&& session_headers(d)[2] == ("neo-fin-key"@, c.fin_key)
        }),
{
}

/// A call within a session goes to the address of that session, carries its id, its token and
/// the key of the client, and says on whose behalf it comes where that is known.
pub proof fn session_calls_carry_the_session(
    c: KotakClientView,
    post: bool,
    path: Seq<char>,
    body: CallBodyView,
)
    requires
        c.session is Some,
    ensures
        ({
            let call = session_call(c, post, path, body);
            let s = c.session->0;
            &&& call.post == post && call.body == body
            &&& call.url == s.base_url + path
            &&& says(call.headers, "Sid"@, s.sid)
            &&& says(call.headers, "Auth"@, s.auth_token)
            &&& says(call.headers, "neo-fin-key"@, c.fin_key)
            &&& c.client_ip matches Some(ip) ==> says(call.headers, "X-Forwarded-For"@, ip)
                && call.headers.len() == 4
            &&& c.client_ip is None ==> call.headers.len() == 3
        }),
{
    let h = session_headers(c);
    reveal_strlit("Sid");
    reveal_strlit("Auth");
    reveal_strlit("neo-fin-key");
    reveal_strlit("X-Forwarded-For");
    assert("Sid"@.len() == 3 && "Auth"@.len() == 4 && "neo-fin-key"@.len() == 11
        && "X-Forwarded-For"@.len() == 15);
    assert(h[0].0 == "Sid"@ && h[1].0 == "Auth"@ && h[2].0 == "neo-fin-key"@);
    assert(c.client_ip is Some ==> h[3].0 == "X-Forwarded-For"@);
}

/// The limits are asked for on all segments, exchanges and products.
pub proof fn limits_are_asked_for_everything(f: Seq<(Seq<char>, Seq<char>)>)
    requires
        f == limit_fields(),
    ensures
        says(f, "seg"@, "ALL"@),
        says(f, "exch"@, "ALL"@),
        says(f, "prod"@, "ALL"@),
        f.len() == 3,
{
    assert(f[0].0 == "seg"@ && f[1].0 == "exch"@ && f[2].0 == "prod"@);
}

/// A field of a reply is found under its name, and the first of that name counts.
pub proof fn fields_are_found_by_name(fields: Vec<JsonField>, name: Seq<char>, i: int)
    requires
        0 <= i < fields@.len(),
        fields@[i].name@ == name,
        forall|j: int| 0 <= j < i ==> (#[trigger] fields@[j]).name@ != name,
    ensures
        field_of(Json::Object(fields), name) == Some(fields@[i].value),
{
    lemma_field_index(fields@, name, 0, i);
}

proof fn lemma_field_index(fields: Seq<JsonField>, name: Seq<char>, from: int, i: int)
    requires
        0 <= from <= i < fields.len(),
        fields[i].name@ == name,
        forall|j: int| from <= j < i ==> (#[trigger] fields[j]).name@ != name,
    ensures
        field_at(fields, name, from) == i,
    decreases i - from,
{
    if from < i {
        lemma_field_index(fields, name, from + 1, i);
    }
}

/// A field that is not there is not found, and only objects have fields.
pub proof fn missing_fields_are_not_found(val: Json, name: Seq<char>)
    requires
        val matches Json::Object(fields) ==> forall|j: int|
            0 <= j < fields@.len() ==> (#[trigger] fields@[j]).name@ != name,
    ensures
        field_of(val, name) is None,
{
    if let Json::Object(fields) = val {
        lemma_field_missing(fields@, name, 0);
    }
}

proof fn lemma_field_missing(fields: Seq<JsonField>, name: Seq<char>, from: int)
    requires
        0 <= from <= fields.len(),
        forall|j: int| from <= j < fields.len() ==> (#[trigger] fields[j]).name@ != name,
    ensures
        field_at(fields, name, from) == fields.len(),
    decreases fields.len() - from,
{
    if from < fields.len() {
        lemma_field_missing(fields, name, from + 1);
    }
}

/// An address is found in a list wherever one is found in an entry, and in an object wherever
/// its field of that name is a text or one is found in a field.
pub proof fn addresses_are_found_wherever_they_stand(
    values: Vec<Json>,
    fields: Vec<JsonField>,
    segment: Seq<char>,
)
    ensures
        csv_url(Json::List(values), segment) is Some <==> exists|i: int|
            0 <= i < values@.len() && csv_url(#[trigger] values@[i], segment) is Some,
        csv_url(Json::Object(fields), segment) is Some <==> text_value(
            field_of(Json::Object(fields), segment),
        ) is Some || exists|i: int|
            0 <= i < fields@.len() && csv_url((#[trigger] fields@[i]).value, segment) is Some,
        text_value(field_of(Json::Object(fields), segment)) matches Some(s) ==> csv_url(
            Json::Object(fields),
            segment,
        ) == Some(s),
{
    lemma_list_search(values@, segment, 0);
    lemma_field_search(fields@, segment, 0);
}

proof fn lemma_list_search(values: Seq<Json>, segment: Seq<char>, from: int)
    requires
        0 <= from <= values.len(),
    ensures
        csv_url_in_list(values, segment, from) is Some <==> exists|i: int|
            from <= i < values.len() && csv_url(#[trigger] values[i], segment) is Some,
    decreases values.len() - from,
{
    if from < values.len() {
        lemma_list_search(values, segment, from + 1);
    }
}

proof fn lemma_field_search(fields: Seq<JsonField>, segment: Seq<char>, from: int)
    requires
        0 <= from <= fields.len(),
    ensures
        csv_url_in_fields(fields, segment, from) is Some <==> exists|i: int|
            from <= i < fields.len() && csv_url((#[trigger] fields[i]).value, segment) is Some,
    decreases fields.len() - from,
{
    if from < fields.len() {
        lemma_field_search(fields, segment, from + 1);
    }
}

/// A text is the address of a segment only if it names the segment; one that names it as a
/// file, or with something after it, is.
pub proof fn addresses_name_their_segment(
    s: Seq<char>,
    segment: Seq<char>,
    a: Seq<char>,
    b: Seq<char>,
)
    ensures
        names_segment(s, segment) ==> has_text(s, segment),
        names_segment(a + (segment + ".csv"@) + b, segment),
        names_segment(a + (segment + "-"@) + b, segment),
        names_segment(a + segment + b + ".csv"@, segment),
{
    pieces_stand_in_their_text(a, segment + ".csv"@, b);
    pieces_stand_in_their_text(a, segment + "-"@, b);
    pieces_stand_in_their_text(a + segment + b, ".csv"@, Seq::empty());
    pieces_stand_in_their_text(a, segment, b + ".csv"@);
    assert(a + segment + (b + ".csv"@) =~= a + segment + b + ".csv"@);
    if has_text(s, segment + ".csv"@) {
        lemma_front_of_a_piece(s, segment, ".csv"@);
    }
    if has_text(s, segment + "-"@) {
        lemma_front_of_a_piece(s, segment, "-"@);
    }
}

proof fn lemma_front_of_a_piece(s: Seq<char>, a: Seq<char>, b: Seq<char>)
    requires
        has_text(s, a + b),
    ensures
        has_text(s, a),
{
    let at = choose|at: int| stands_at(s, a + b, at);
    assert(s.subrange(at, at + a.len()) =~= a) by {
        assert forall|i: int| 0 <= i < a.len() implies s[at + i] == a[i] by {
            assert(s.subrange(at, at + (a + b).len())[i] == (a + b)[i]);
        }
    }
    assert(stands_at(s, a, at));
}

/// The report of a failed login ends with the status and says the message of the reply, else
/// that of its fault, else its error, else the reply as it came.
pub proof fn login_failures_say_what_the_broker_said(
    body: Seq<char>,
    reply: Option<Json>,
    status: Seq<char>,
    fault: Json,
    said: Seq<char>,
)
    ensures
        ({
            let tail = " (HTTP "@ + status + ")"@;
            let v = reply->0;
            let m = text_value(field_of(v, "message"@));
            let f = text_value(field_of(fault, "message"@));
            let e = text_value(field_of(v, "error"@));
            let out = login_failure_text(body, reply, status);
            &&& reply is None ==> out == body + tail
            &&& reply is Some && m == Some(said) ==> out == said + tail
            &&& reply is Some && m is None && field_of(v, "fault"@) == Some(fault) && f == Some(
                said,
            ) ==> out == said + tail
            &&& reply is Some && m is None && (field_of(v, "fault"@) is None || (field_of(
                v,
                "fault"@,
            ) == Some(fault) && f is None)) && e == Some(said) ==> out == said + tail
            &&& reply is Some && m is None && field_of(v, "fault"@) is None && e is None ==> out
                == body + tail
        }),
{
    let out = login_failure_text(body, reply, status);
    let tail = " (HTTP "@ + status + ")"@;
    assert(said + " (HTTP "@ + status + ")"@ =~= said + tail);
    assert(body + " (HTTP "@ + status + ")"@ =~= body + tail);
}

/// What is made of the reply to an order: with a contented status it counts as taken, under the
/// number that the broker gave it or the one that was asked about, and at no cost yet; with any
/// other it counts as rejected, with the code of the broker and what it said.
pub proof fn orders_are_taken_where_the_broker_is_content(
    reply: OrderReply,
    fallback: Seq<char>,
    status: Seq<char>,
    timestamp: Seq<char>,
    res: Result<ExecutionResult, KotakError>,
)
    requires
        order_understood(reply, fallback, status, timestamp, res),
    ensures
        res is Ok <==> same_but_case(reply.stat@, "Ok"@),
        res matches Ok(r) ==> {
            &&& reply.n_ord_no matches Some(no) ==> r@.order_id == no@
            &&& reply.n_ord_no is None ==> r@.order_id == fallback
            &&& r@.status == status && r@.timestamp == timestamp
            &&& r@.gross_value == 0 && r@.net_value == 0 && r@.brokerage == 0
        },
        res matches Err(e) ==> {
            &&& e@ matches KotakErrorView::OrderRejected { status_code, message }
            &&& status_code == reply.st_code
            &&& reply.emsg matches Some(m) ==> message == m@
            &&& reply.emsg is None ==> message == reply.stat@
        },
{
}

/// A book is empty where the broker has nothing to show, by its code or in words.
pub proof fn nothing_to_show_is_no_failure(st_code: i32, front: Seq<char>, back: Seq<char>)
    ensures
        empty_book(5_203, front),
        empty_book(st_code, front + "no data"@ + back),
        empty_book(st_code, front) ==> st_code == 5_203 || has_text(front, "no data"@),
{
    pieces_stand_in_their_text(front, "no data"@, back);
}

/// Without a session no call is made, and that is the only reason; with one the call is the one
/// that was meant.
pub proof fn calls_need_a_session(
    c: KotakClientView,
    res: Result<BrokerCall, KotakError>,
    call: BrokerCallView,
)
    requires
        called_if_authenticated(c, res, call),
    ensures
        c.session is Some ==> (res matches Ok(b) && b@ == call),
        c.session is None ==> (res matches Err(e) && e@ == KotakErrorView::NotAuthenticated),
{
}

/// Only a refusal of the caller ends a session: no success, no redirection, no failure of the
/// broker and no other complaint about a call does.
pub proof fn only_a_refusal_ends_a_session(status: int)
    ensures
        session_over(status) ==> 401 <= status <= 403 && status != 402,
        status == 401 || status == 403 ==> session_over(status),
        status < 400 || status >= 500 ==> !session_over(status),
{
}

} // verus!
