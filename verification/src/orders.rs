//! Building orders, and the names they go by at the broker.
use vstd::prelude::*;

use crate::decimal::plain;
use crate::domain::{
    AmoFlag, ExchangeSegment, OrderRequest, OrderType, ProductCode, ScripRecord, TransactionType,
    Validity,
};
use crate::text::{i64_text, same_text};

#[allow(unused_imports)]
use crate::broker::KotakOrderView;

#[allow(unused_imports)]
use crate::decimal::{plain_text, printed_amounts_read_back, written_millionths};

#[allow(unused_imports)]
use crate::domain::{OrderRequestView, ScripRecordView};

#[allow(unused_imports)]
use crate::text::{
    ascii_lower, begins_with, finishes_with, int_text, is_white, nat_text, opt_piece,
    pieces_stand_in_their_text, printed_int_reads_back, trim_back, trim_front, trimmed, written_i32,
};

verus! {

// ---------------------------------------------------------------------------
// Orders
// ---------------------------------------------------------------------------

/// A market order on the contract of `base`, with `protection` percent of market price
/// protection.
pub open spec fn market_order(
    base: OrderRequestView,
    txn: TransactionType,
    qty: int,
    protection: int,
) -> OrderRequestView {
    OrderRequestView {
        quantity: int_text(qty),
        transaction_type: txn,
        order_type: OrderType::Market,
        price: "0"@,
        trigger_price: "0"@,
        market_protection: plain_text(protection),
        ..base
    }
}

/// A sale at market that is cancelled at once where it is not filled: the broker turns
/// market orders on options into limit orders, and one that rests would block the next exit.
pub open spec fn prompt_sale(base: OrderRequestView, qty: int) -> OrderRequestView {
    OrderRequestView {
        validity: Validity::Ioc,
        ..market_order(base, TransactionType::Sell, qty, 0)
    }
}

/// A market order on the contract of `base`.
pub fn build_market_order(base: &OrderRequest, txn: TransactionType, qty: i32, mp: i64) -> (res:
    OrderRequest)
    ensures
        res@ == market_order(base@, txn, qty as int, mp as int),
{
    let mut order: OrderRequest = base.clone();
    order.quantity = i64_text(qty as i64);
    order.transaction_type = txn;
    order.order_type = OrderType::Market;
    order.price = "0".to_string();
    order.trigger_price = "0".to_string();
    order.market_protection = plain(mp);
    order
}

/// A sale at market that is cancelled at once where it is not filled.
pub fn build_prompt_sale(base: &OrderRequest, qty: i32) -> (res: OrderRequest)
    ensures
        res@ == prompt_sale(base@, qty as int),
{
    let mut order: OrderRequest = build_market_order(base, TransactionType::Sell, qty, 0);
    order.validity = Validity::Ioc;
    order
}

/// The segment that a code of the list of contracts stands for.
pub open spec fn segment_of(code: Seq<char>) -> ExchangeSegment {
    if code == "bse_fo"@ {
        ExchangeSegment::BseFo
    } else if code == "nse_cm"@ {
        ExchangeSegment::NseCm
    } else {
        ExchangeSegment::NseFo
    }
}

/// An order for one lot of a contract. Orders to the broker are made out of it.
pub open spec fn contract_order(record: ScripRecordView) -> OrderRequestView {
    OrderRequestView {
        after_market_order: AmoFlag::No,
        disclosed_quantity: "0"@,
        exchange_segment: segment_of(record.exchange_segment_code),
        market_protection: "0"@,
        product_code: ProductCode::Nrml,
        portfolio_flag: "N"@,
        price: "0"@,
        order_type: OrderType::Limit,
        quantity: int_text(record.lot_size as int),
        validity: Validity::Day,
        trigger_price: "0"@,
        trading_symbol: record.trading_symbol,
        transaction_type: TransactionType::Buy,
    }
}

/// An order for one lot of a contract.
pub fn order_for_contract(record: &ScripRecord) -> (res: OrderRequest)
    ensures
        res@ == contract_order(record@),
{
    let code: &str = record.exchange_segment_code.as_str();
    let exchange_segment: ExchangeSegment = if same_text(code, "bse_fo") {
        ExchangeSegment::BseFo
    } else if same_text(code, "nse_cm") {
        ExchangeSegment::NseCm
    } else {
        ExchangeSegment::NseFo
    };
    OrderRequest {
        after_market_order: AmoFlag::No,
        disclosed_quantity: "0".to_string(),
        exchange_segment,
        market_protection: "0".to_string(),
        product_code: ProductCode::Nrml,
        portfolio_flag: "N".to_string(),
        price: "0".to_string(),
        order_type: OrderType::Limit,
        quantity: i64_text(record.lot_size as i64),
        validity: Validity::Day,
        trigger_price: "0".to_string(),
        trading_symbol: record.trading_symbol.clone(),
        transaction_type: TransactionType::Buy,
    }
}

/// The key of a contract in the price feed.
pub open spec fn feed_key(record: ScripRecordView) -> Seq<char> {
    record.exchange_segment_code + "|"@ + record.instrument_token
}

/// The key of a contract in the price feed.
pub fn scrip_key(record: &ScripRecord) -> (res: String)
    ensures
        res@ == feed_key(record@),
{
    let mut out: String = record.exchange_segment_code.clone();
    out.append("|");
    out.append(record.instrument_token.as_str());
    out
}

// ---------------------------------------------------------------------------
// Names at the broker
// ---------------------------------------------------------------------------

impl TransactionType {
    pub open spec fn code(self) -> Seq<char> {
        match self {
            TransactionType::Buy => "B"@,
            TransactionType::Sell => "S"@,
        }
    }

    /// The name of the direction at the broker.
    pub fn wire(self) -> (res: String)
        ensures
            res@ == self.code(),
    {
        match self {
            TransactionType::Buy => "B".to_string(),
            TransactionType::Sell => "S".to_string(),
        }
    }
}

impl ProductCode {
    pub open spec fn code(self) -> Seq<char> {
        match self {
            ProductCode::Nrml => "NRML"@,
            ProductCode::Cnc => "CNC"@,
            ProductCode::Mis => "MIS"@,
            ProductCode::Co => "CO"@,
            ProductCode::Bo => "BO"@,
            ProductCode::Mtf => "MTF"@,
        }
    }

    /// The name of the product at the broker.
    pub fn wire(self) -> (res: String)
        ensures
            res@ == self.code(),
    {
        match self {
            ProductCode::Nrml => "NRML".to_string(),
            ProductCode::Cnc => "CNC".to_string(),
            ProductCode::Mis => "MIS".to_string(),
            ProductCode::Co => "CO".to_string(),
            ProductCode::Bo => "BO".to_string(),
            ProductCode::Mtf => "MTF".to_string(),
        }
    }
}

impl OrderType {
    pub open spec fn code(self) -> Seq<char> {
        match self {
            OrderType::Limit => "L"@,
            OrderType::Market => "MKT"@,
            OrderType::StopLoss => "SL"@,
            OrderType::StopLossMarket => "SL-M"@,
        }
    }

    /// The name of the pricing at the broker.
    pub fn wire(self) -> (res: String)
        ensures
            res@ == self.code(),
    {
        match self {
            OrderType::Limit => "L".to_string(),
            OrderType::Market => "MKT".to_string(),
            OrderType::StopLoss => "SL".to_string(),
            OrderType::StopLossMarket => "SL-M".to_string(),
        }
    }
}

impl Validity {
    pub open spec fn code(self) -> Seq<char> {
        match self {
            Validity::Day => "DAY"@,
            Validity::Ioc => "IOC"@,
        }
    }

    /// The name of the validity at the broker.
    pub fn wire(self) -> (res: String)
        ensures
            res@ == self.code(),
    {
        match self {
            Validity::Day => "DAY".to_string(),
            Validity::Ioc => "IOC".to_string(),
        }
    }
}

impl ExchangeSegment {
    pub open spec fn code(self) -> Seq<char> {
        match self {
            ExchangeSegment::NseCm => "nse_cm"@,
            ExchangeSegment::BseCm => "bse_cm"@,
            ExchangeSegment::NseFo => "nse_fo"@,
            ExchangeSegment::BseFo => "bse_fo"@,
            ExchangeSegment::CdeFo => "cde_fo"@,
            ExchangeSegment::McxFo => "mcx_fo"@,
        }
    }

    /// The name of the segment at the broker.
    pub fn wire(self) -> (res: String)
        ensures
            res@ == self.code(),
    {
        match self {
            ExchangeSegment::NseCm => "nse_cm".to_string(),
            ExchangeSegment::BseCm => "bse_cm".to_string(),
            ExchangeSegment::NseFo => "nse_fo".to_string(),
            ExchangeSegment::BseFo => "bse_fo".to_string(),
            ExchangeSegment::CdeFo => "cde_fo".to_string(),
            ExchangeSegment::McxFo => "mcx_fo".to_string(),
        }
    }
}

impl AmoFlag {
    pub open spec fn code(self) -> Seq<char> {
        match self {
            AmoFlag::Yes => "YES"@,
            AmoFlag::No => "NO"@,
        }
    }

    /// The name of the flag at the broker.
    pub fn wire(self) -> (res: String)
        ensures
            res@ == self.code(),
    {
        match self {
            AmoFlag::Yes => "YES".to_string(),
            AmoFlag::No => "NO".to_string(),
        }
    }
}

/// Named fields, by what they say.
pub open spec fn fields_view(s: Seq<(String, String)>) -> Seq<(Seq<char>, Seq<char>)> {
    s.map_values(|f: (String, String)| (f.0@, f.1@))
}

/// Adds a named field to a list.
pub(crate) fn push_field(v: &mut Vec<(String, String)>, name: &str, value: String)
    ensures
        fields_view(final(v)@) == fields_view(old(v)@).push((name@, value@)),
{
    let ghost said = value@;
    v.push((name.to_string(), value));
    assert(fields_view(v@) =~= fields_view(old(v)@).push((name@, said)));
}

/// The fields of an order as the broker takes them, with `validity_key` as the name of the
/// validity.
pub open spec fn order_fields(o: OrderRequestView, validity_key: Seq<char>) -> Seq<
    (Seq<char>, Seq<char>),
> {
    seq![
        ("am"@, o.after_market_order.code()),
        ("dq"@, o.disclosed_quantity),
        ("es"@, o.exchange_segment.code()),
        ("mp"@, o.market_protection),
        ("pc"@, o.product_code.code()),
        ("pf"@, o.portfolio_flag),
        ("pr"@, o.price),
        ("pt"@, o.order_type.code()),
        ("qt"@, o.quantity),
        (validity_key, o.validity.code()),
        ("tp"@, o.trigger_price),
        ("ts"@, o.trading_symbol),
        ("tt"@, o.transaction_type.code()),
    ]
}

fn named_fields(o: &OrderRequest, validity_key: &str) -> (res: Vec<(String, String)>)
    ensures
        fields_view(res@) == order_fields(o@, validity_key@),
{
    let mut v: Vec<(String, String)> = Vec::new();
    push_field(&mut v, "am", o.after_market_order.wire());
    push_field(&mut v, "dq", o.disclosed_quantity.clone());
    push_field(&mut v, "es", o.exchange_segment.wire());
    push_field(&mut v, "mp", o.market_protection.clone());
    push_field(&mut v, "pc", o.product_code.wire());
    push_field(&mut v, "pf", o.portfolio_flag.clone());
    push_field(&mut v, "pr", o.price.clone());
    push_field(&mut v, "pt", o.order_type.wire());
    push_field(&mut v, "qt", o.quantity.clone());
    push_field(&mut v, validity_key, o.validity.wire());
    push_field(&mut v, "tp", o.trigger_price.clone());
    push_field(&mut v, "ts", o.trading_symbol.clone());
    push_field(&mut v, "tt", o.transaction_type.wire());
    assert(fields_view(v@) =~= order_fields(o@, validity_key@));
    v
}

/// The fields that place an order.
pub fn place_fields(o: &OrderRequest) -> (res: Vec<(String, String)>)
    ensures
        fields_view(res@) == order_fields(o@, "rt"@),
{
    named_fields(o, "rt")
}

/// The fields that modify the order `order_no`. The validity goes by another name here.
pub fn modify_fields(o: &OrderRequest, order_no: &str) -> (res: Vec<(String, String)>)
    ensures
        fields_view(res@) == order_fields(o@, "vd"@).push(("no"@, order_no@)),
{
    let mut v: Vec<(String, String)> = named_fields(o, "vd");
    push_field(&mut v, "no", order_no.to_string());
    v
}

/// The fields that cancel an order.
pub open spec fn cancel_field_list(order_no: Seq<char>, trading_symbol: Option<Seq<char>>) -> Seq<
    (Seq<char>, Seq<char>),
> {
    let head = seq![("on"@, order_no), ("am"@, "NO"@)];
    match trading_symbol {
        Some(ts) => head.push(("ts"@, ts)),
        None => head,
    }
}

/// The fields that cancel the order `order_no`.
pub fn cancel_fields(order_no: &str, trading_symbol: Option<&str>) -> (res: Vec<(String, String)>)
    ensures
        fields_view(res@) == cancel_field_list(order_no@, opt_piece(trading_symbol)),
{
    let mut v: Vec<(String, String)> = Vec::new();
    push_field(&mut v, "on", order_no.to_string());
    push_field(&mut v, "am", "NO".to_string());
    assert(fields_view(v@) =~= seq![("on"@, order_no@), ("am"@, "NO"@)]);
    if let Some(ts) = trading_symbol {
        push_field(&mut v, "ts", ts.to_string());
    }
    v
}

/// The symbol that goes with a cancellation: none where it is empty.
pub fn cancel_symbol(trading_symbol: &str) -> (res: Option<&str>)
    ensures
        opt_piece(res) == (if trading_symbol@.len() > 0 {
            Some(trading_symbol@)
        } else {
            None
        }),
{
    if trading_symbol.unicode_len() > 0 {
        Some(trading_symbol)
    } else {
        None
    }
}

/// A market order keeps the contract of the order it is made out of.
pub proof fn market_order_keeps_the_contract(
    base: OrderRequestView,
    txn: TransactionType,
    qty: int,
    protection: int,
)
    ensures
        market_order(base, txn, qty, protection).trading_symbol == base.trading_symbol,
        market_order(base, txn, qty, protection).exchange_segment == base.exchange_segment,
        market_order(base, txn, qty, protection).product_code == base.product_code,
{
}

/// The field `name` of a list of named fields says `value`, and no other field has that name.
pub open spec fn says(
    fields: Seq<(Seq<char>, Seq<char>)>,
    name: Seq<char>,
    value: Seq<char>,
) -> bool {
    &&& exists|i: int|
        0 <= i < fields.len() && (#[trigger] fields[i]).0 == name && fields[i].1 == value
    &&& forall|i: int|
        0 <= i < fields.len() && (#[trigger] fields[i]).0 == name ==> fields[i].1 == value
}

/// What is sent of an order says what the order says: how much, of what, at which price, which
/// way, and for how long.
pub proof fn sent_orders_say_what_they_are(o: OrderRequestView)
    ensures
        says(order_fields(o, "rt"@), "qt"@, o.quantity),
        says(order_fields(o, "rt"@), "ts"@, o.trading_symbol),
        says(order_fields(o, "rt"@), "pr"@, o.price),
        says(order_fields(o, "rt"@), "tp"@, o.trigger_price),
        says(order_fields(o, "rt"@), "mp"@, o.market_protection),
        says(order_fields(o, "rt"@), "dq"@, o.disclosed_quantity),
        says(order_fields(o, "rt"@), "pf"@, o.portfolio_flag),
        says(order_fields(o, "rt"@), "tt"@, o.transaction_type.code()),
        says(order_fields(o, "rt"@), "pt"@, o.order_type.code()),
        says(order_fields(o, "rt"@), "pc"@, o.product_code.code()),
        says(order_fields(o, "rt"@), "es"@, o.exchange_segment.code()),
        says(order_fields(o, "rt"@), "am"@, o.after_market_order.code()),
        says(order_fields(o, "rt"@), "rt"@, o.validity.code()),
        order_fields(o, "rt"@).len() == 13,
{
    let f = order_fields(o, "rt"@);
    reveal_strlit("am");
    reveal_strlit("dq");
    reveal_strlit("es");
    reveal_strlit("mp");
    reveal_strlit("pc");
    reveal_strlit("pf");
    reveal_strlit("pr");
    reveal_strlit("pt");
    reveal_strlit("qt");
    reveal_strlit("rt");
    reveal_strlit("tp");
    reveal_strlit("ts");
    reveal_strlit("tt");
    let names = seq![
        ('a', 'm'),
        ('d', 'q'),
        ('e', 's'),
        ('m', 'p'),
        ('p', 'c'),
        ('p', 'f'),
        ('p', 'r'),
        ('p', 't'),
        ('q', 't'),
        ('r', 't'),
        ('t', 'p'),
        ('t', 's'),
        ('t', 't'),
    ];
    assert forall|i: int| 0 <= i < 13 implies (#[trigger] f[i]).0.len() == 2 && f[i].0[0]
        == names[i].0 && f[i].0[1] == names[i].1 by {}
    assert forall|i: int, j: int| 0 <= i < j < 13 implies (#[trigger] f[i]).0 != (
    #[trigger] f[j]).0 by {
        assert(names[i] != names[j]);
    }
    assert(f[8].0 == "qt"@ && f[11].0 == "ts"@ && f[6].0 == "pr"@ && f[10].0 == "tp"@ && f[3].0
        == "mp"@ && f[1].0 == "dq"@ && f[5].0 == "pf"@ && f[12].0 == "tt"@ && f[7].0 == "pt"@
        && f[4].0 == "pc"@ && f[2].0 == "es"@ && f[0].0 == "am"@ && f[9].0 == "rt"@);
}

/// No two directions, products, pricings, validities, segments or flags go by one name.
pub proof fn names_at_the_broker_differ(
    a: TransactionType,
    b: TransactionType,
    p: ProductCode,
    q: ProductCode,
    s: OrderType,
    t: OrderType,
    v: Validity,
    w: Validity,
    d: ExchangeSegment,
    e: ExchangeSegment,
    f: AmoFlag,
    g: AmoFlag,
)
    ensures
        a.code() == b.code() ==> a == b,
        p.code() == q.code() ==> p == q,
        s.code() == t.code() ==> s == t,
        v.code() == w.code() ==> v == w,
        d.code() == e.code() ==> d == e,
        f.code() == g.code() ==> f == g,
{
    reveal_strlit("B");
    reveal_strlit("S");
    reveal_strlit("NRML");
    reveal_strlit("CNC");
    reveal_strlit("MIS");
    reveal_strlit("CO");
    reveal_strlit("BO");
    reveal_strlit("MTF");
    reveal_strlit("L");
    reveal_strlit("MKT");
    reveal_strlit("SL");
    reveal_strlit("SL-M");
    reveal_strlit("DAY");
    reveal_strlit("IOC");
    reveal_strlit("nse_cm");
    reveal_strlit("bse_cm");
    reveal_strlit("nse_fo");
    reveal_strlit("bse_fo");
    reveal_strlit("cde_fo");
    reveal_strlit("mcx_fo");
    reveal_strlit("YES");
    reveal_strlit("NO");
    assert("B"@[0] != "S"@[0]);
    assert("CNC"@[0] != "MIS"@[0] && "CNC"@[0] != "MTF"@[0] && "MIS"@[1] != "MTF"@[1]
        && "CO"@[0] != "BO"@[0] && "NRML"@.len() == 4 && "CO"@.len() == 2 && "BO"@.len() == 2
        && "CNC"@.len() == 3 && "MIS"@.len() == 3 && "MTF"@.len() == 3);
    assert("L"@.len() == 1 && "MKT"@.len() == 3 && "SL"@.len() == 2 && "SL-M"@.len() == 4);
    assert("DAY"@[0] != "IOC"@[0]);
    assert("nse_cm"@[0] == 'n' && "bse_cm"@[0] == 'b' && "nse_fo"@[0] == 'n' && "bse_fo"@[0] == 'b'
        && "cde_fo"@[0] == 'c' && "mcx_fo"@[0] == 'm' && "nse_cm"@[4] == 'c' && "bse_cm"@[4] == 'c'
        && "nse_fo"@[4] == 'f' && "bse_fo"@[4] == 'f');
    assert("YES"@.len() != "NO"@.len());
}

/// An order that was sent as a sale is read in the order book as one, and one that was sent as
/// a purchase is not.
pub proof fn sales_are_sales_at_the_broker(row: KotakOrderView, side: TransactionType)
    requires
        row.transaction_type == side.code(),
    ensures
        row.sells() <==> side == TransactionType::Sell,
{
    reveal_strlit("B");
    reveal_strlit("S");
    let c = side.code();
    assert(c.len() == 1 && !is_white(c[0]));
    reveal_with_fuel(trim_front, 2);
    reveal_with_fuel(trim_back, 2);
    assert(trimmed(c) == c);
    let low = |x: char| ascii_lower(x);
    assert("B"@.map_values(low)[0] == ascii_lower('B'));
    assert("S"@.map_values(low)[0] == ascii_lower('S'));
    assert(('B' as u32) + 32 == 98 && ('S' as u32) + 32 == 115);
    assert(ascii_lower('B') == 'b' && ascii_lower('S') == 's');
}

/// A cancellation names its order and, where it is known, the symbol.
pub proof fn cancellations_name_their_order(order_no: Seq<char>, symbol: Seq<char>)
    ensures
        says(cancel_field_list(order_no, Some(symbol)), "on"@, order_no),
        says(cancel_field_list(order_no, Some(symbol)), "ts"@, symbol),
        says(cancel_field_list(order_no, None), "on"@, order_no),
        cancel_field_list(order_no, None).len() == 2,
{
    reveal_strlit("on");
    reveal_strlit("am");
    reveal_strlit("ts");
    assert("on"@[0] == 'o' && "am"@[0] == 'a' && "ts"@[0] == 't');
    let f = cancel_field_list(order_no, Some(symbol));
    let g = cancel_field_list(order_no, None);
    assert(f[0].0 == "on"@ && f[1].0 == "am"@ && f[2].0 == "ts"@);
    assert(g[0].0 == "on"@ && g[1].0 == "am"@);
}

/// The order that stands for a contract is for one lot of it, on the segment that the list of
/// contracts has it under; it can be carried over night.
pub proof fn contract_orders_are_for_one_lot(record: ScripRecordView)
    ensures
        written_i32(contract_order(record).quantity) == Some(record.lot_size as int),
        contract_order(record).trading_symbol == record.trading_symbol,
        contract_order(record).product_code == ProductCode::Nrml,
        contract_order(record).validity == Validity::Day,
        contract_order(record).after_market_order == AmoFlag::No,
        record.exchange_segment_code == contract_order(record).exchange_segment.code() || (
        contract_order(record).exchange_segment == ExchangeSegment::NseFo),
        record.exchange_segment_code == "bse_fo"@ || record.exchange_segment_code == "nse_cm"@
            || record.exchange_segment_code == "nse_fo"@ ==> record.exchange_segment_code
            == contract_order(record).exchange_segment.code(),
{
    printed_int_reads_back(record.lot_size);
    reveal_strlit("bse_fo");
    reveal_strlit("nse_cm");
    reveal_strlit("nse_fo");
    assert("nse_cm"@[4] == 'c' && "nse_fo"@[4] == 'f' && "bse_fo"@[0] == 'b' && "nse_fo"@[0] == 'n'
        && "nse_cm"@[0] == 'n');
}

/// A sale that must not rest at the broker sells, at market, exactly what it is for, and is
/// cancelled at once where it is not filled; it stays on the contract that it is made out of.
pub proof fn prompt_sales_do_not_rest(base: OrderRequestView, qty: i32)
    ensures
        ({
            let o = prompt_sale(base, qty as int);
            &&& o.validity == Validity::Ioc
            &&& o.transaction_type == TransactionType::Sell
            &&& o.order_type == OrderType::Market
            &&& written_i32(o.quantity) == Some(qty as int)
            &&& o.trading_symbol == base.trading_symbol && o.exchange_segment
                == base.exchange_segment && o.product_code == base.product_code
        }),
{
    printed_int_reads_back(qty);
}

/// A market order goes the way and for the quantity that was asked, with the protection that was
/// asked and no price of its own.
pub proof fn market_orders_are_as_asked(
    base: OrderRequestView,
    side: TransactionType,
    qty: i32,
    protection: i64,
)
    ensures
        ({
            let o = market_order(base, side, qty as int, protection as int);
            &&& o.transaction_type == side
            &&& o.order_type == OrderType::Market
            &&& written_i32(o.quantity) == Some(qty as int)
            &&& written_millionths(o.market_protection) == Some(protection as int)
            &&& written_millionths(o.price) == Some(0int)
            &&& written_millionths(o.trigger_price) == Some(0int)
            &&& o.validity == base.validity
        }),
{
    printed_int_reads_back(qty);
    printed_amounts_read_back(protection);
    printed_amounts_read_back(0);
    reveal_strlit("0");
    reveal_with_fuel(nat_text, 2);
    assert(plain_text(0) =~= "0"@);
}

/// The key of a contract in the price feed is its segment and its token, with a bar between.
pub proof fn feed_keys_name_segment_and_token(record: ScripRecordView)
    ensures
        begins_with(feed_key(record), record.exchange_segment_code + "|"@),
        finishes_with(feed_key(record), record.instrument_token),
        feed_key(record).len() == record.exchange_segment_code.len() + 1
            + record.instrument_token.len(),
{
    reveal_strlit("|");
    pieces_stand_in_their_text(
        record.exchange_segment_code + "|"@,
        record.instrument_token,
        Seq::empty(),
    );
}

} // verus!
