//! The records that the rest of the library works on: settings, signals, positions, orders
//! and what is written down about them.
use vstd::prelude::*;

use crate::text::same_text;

#[allow(unused_imports)]
use crate::text::opt_text;

verus! {

// ---------------------------------------------------------------------------
// Copies
// ---------------------------------------------------------------------------

/// A copy of an optional text.
pub fn clone_opt(o: &Option<String>) -> (res: Option<String>)
    ensures
        opt_text(res) == opt_text(*o),
        res is Some == o is Some,
{
    match o {
        Some(s) => Some(s.clone()),
        None => None,
    }
}

/// A copy of a list of prices.
pub fn copy_prices(v: &Vec<i64>) -> (res: Vec<i64>)
    ensures
        res@ == v@,
{
    let mut out: Vec<i64> = Vec::new();
    let mut i: usize = 0;
    while i < v.len()
        invariant
            i <= v@.len(),
            out@ =~= v@.take(i as int),
        decreases v@.len() - i,
    {
        out.push(v[i]);
        i += 1;
    }
    assert(v@.take(v@.len() as int) =~= v@);
    out
}

// ---------------------------------------------------------------------------
// Orders as the broker takes them
// ---------------------------------------------------------------------------

/// Which way an order trades.
#[derive(Debug, Clone, Copy, PartialEq, Eq, Structural)]
pub enum TransactionType {
    Buy,
    Sell,
}

/// The product an order is placed under.
#[derive(Debug, Clone, Copy, PartialEq, Eq, Structural)]
pub enum ProductCode {
    Nrml,
    Cnc,
    Mis,
    /// Cover order; discontinued.
    Co,
    /// Bracket order; discontinued.
    Bo,
    Mtf,
}

/// How an order is priced.
#[derive(Debug, Clone, Copy, PartialEq, Eq, Structural)]
pub enum OrderType {
    Limit,
    Market,
    StopLoss,
    StopLossMarket,
}

/// How long an order stands.
#[derive(Debug, Clone, Copy, PartialEq, Eq, Structural)]
pub enum Validity {
    Day,
    Ioc,
}

/// The exchange segment of a contract.
#[derive(Debug, Clone, Copy, PartialEq, Eq, Structural)]
pub enum ExchangeSegment {
    NseCm,
    BseCm,
    NseFo,
    BseFo,
    CdeFo,
    McxFo,
}

/// Whether an order is placed outside market hours.
#[derive(Debug, Clone, Copy, PartialEq, Eq, Structural)]
pub enum AmoFlag {
    Yes,
    No,
}

/// An order to place.
#[derive(Debug)]
pub struct OrderRequest {
    pub after_market_order: AmoFlag,
    /// `"0"` discloses nothing.
    pub disclosed_quantity: String,
    pub exchange_segment: ExchangeSegment,
    /// Market price protection in percent; `"0"` is none.
    pub market_protection: String,
    pub product_code: ProductCode,
    /// Always `"N"` for ordinary orders.
    pub portfolio_flag: String,
    /// Limit price; `"0"` for market orders.
    pub price: String,
    pub order_type: OrderType,
    pub quantity: String,
    pub validity: Validity,
    /// `"0"` unless the order is a stop.
    pub trigger_price: String,
    /// The symbol of the contract at the broker.
    pub trading_symbol: String,
    pub transaction_type: TransactionType,
}

/// What a [`OrderRequest`] says, with its texts as character sequences.
#[verifier::ext_equal]
pub ghost struct OrderRequestView {
    pub after_market_order: AmoFlag,
    pub disclosed_quantity: Seq<char>,
    pub exchange_segment: ExchangeSegment,
    pub market_protection: Seq<char>,
    pub product_code: ProductCode,
    pub portfolio_flag: Seq<char>,
    pub price: Seq<char>,
    pub order_type: OrderType,
    pub quantity: Seq<char>,
    pub validity: Validity,
    pub trigger_price: Seq<char>,
    pub trading_symbol: Seq<char>,
    pub transaction_type: TransactionType,
}

impl View for OrderRequest {
    type V = OrderRequestView;

    open spec fn view(&self) -> OrderRequestView {
        OrderRequestView {
            after_market_order: self.after_market_order,
            disclosed_quantity: self.disclosed_quantity@,
            exchange_segment: self.exchange_segment,
            market_protection: self.market_protection@,
            product_code: self.product_code,
            portfolio_flag: self.portfolio_flag@,
            price: self.price@,
            order_type: self.order_type,
            quantity: self.quantity@,
            validity: self.validity,
            trigger_price: self.trigger_price@,
            trading_symbol: self.trading_symbol@,
            transaction_type: self.transaction_type,
        }
    }
}

impl Clone for OrderRequest {
    fn clone(&self) -> (res: Self)
        ensures
            res@ == self@,
    {
        OrderRequest {
            after_market_order: self.after_market_order,
            disclosed_quantity: self.disclosed_quantity.clone(),
            exchange_segment: self.exchange_segment,
            market_protection: self.market_protection.clone(),
            product_code: self.product_code,
            portfolio_flag: self.portfolio_flag.clone(),
            price: self.price.clone(),
            order_type: self.order_type,
            quantity: self.quantity.clone(),
            validity: self.validity,
            trigger_price: self.trigger_price.clone(),
            trading_symbol: self.trading_symbol.clone(),
            transaction_type: self.transaction_type,
        }
    }
}

// ---------------------------------------------------------------------------
// Settings
// ---------------------------------------------------------------------------

/// Lot counts by index name. No name occurs twice.
#[derive(Debug)]
pub struct LotTable {
    rows: Vec<(String, i32)>,
}

/// The first row of `rows` that names `key`, from `from` on, or the number of rows.
spec fn row_of(rows: Seq<(String, i32)>, key: Seq<char>, from: int) -> int
    decreases rows.len() - from,
{
    if from >= rows.len() {
        rows.len() as int
    } else if rows[from].0@ == key {
        from
    } else {
        row_of(rows, key, from + 1)
    }
}

proof fn lemma_row_of(rows: Seq<(String, i32)>, key: Seq<char>, from: int)
    requires
        0 <= from <= rows.len(),
    ensures
        from <= row_of(rows, key, from) <= rows.len(),
        row_of(rows, key, from) < rows.len() ==> rows[row_of(rows, key, from)].0@ == key,
        forall|j: int|
            from <= j < row_of(rows, key, from) ==> (#[trigger] rows[j]).0@ != key,
    decreases rows.len() - from,
{
    if from < rows.len() && rows[from].0@ != key {
        lemma_row_of(rows, key, from + 1);
    }
}

impl View for LotTable {
    type V = Map<Seq<char>, i32>;

    closed spec fn view(&self) -> Map<Seq<char>, i32> {
        Map::new(
            |k: Seq<char>| row_of(self.rows@, k, 0) < self.rows@.len(),
            |k: Seq<char>| self.rows@[row_of(self.rows@, k, 0)].1,
        )
    }
}

impl LotTable {
    #[verifier::type_invariant]
    spec fn names_differ(self) -> bool {
        forall|i: int, j: int|
            0 <= i < j < self.rows@.len() ==> (#[trigger] self.rows@[i]).0@ != (
            #[trigger] self.rows@[j]).0@
    }

    /// A table without rows.
    pub fn new() -> (res: Self)
        ensures
            res@ == Map::<Seq<char>, i32>::empty(),
    {
        let res = LotTable { rows: Vec::new() };
        assert(res@ =~= Map::<Seq<char>, i32>::empty()) by {
            assert forall|k: Seq<char>| !res@.contains_key(k) by {
                lemma_row_of(res.rows@, k, 0);
            }
        }
        res
    }

    fn position(&self, key: &str) -> (res: usize)
        ensures
            res == row_of(self.rows@, key@, 0),
            res <= self.rows@.len(),
    {
        let mut i: usize = 0;
        while i < self.rows.len()
            invariant
                i <= self.rows@.len(),
                row_of(self.rows@, key@, i as int) == row_of(self.rows@, key@, 0),
            decreases self.rows@.len() - i,
        {
            if same_text(&self.rows[i].0, key) {
                return i;
            }
            i += 1;
        }
        i
    }

    /// The lot count kept for `key`.
    pub fn get(&self, key: &str) -> (res: Option<i32>)
        ensures
            res == (if self@.contains_key(key@) {
                Some(self@[key@])
            } else {
                None
            }),
    {
        let i: usize = self.position(key);
        if i < self.rows.len() {
            Some(self.rows[i].1)
        } else {
            None
        }
    }

    /// Keeps `lots` for `key`, in place of what was kept for it.
    pub fn insert(&mut self, key: String, lots: i32)
        ensures
            final(self)@ == old(self)@.insert(key@, lots),
    {
        proof {
            use_type_invariant(&*self);
        }
        let ghost before = self.rows@;
        let ghost name = key@;
        let i: usize = self.position(key.as_str());
        proof {
            lemma_row_of(before, name, 0);
        }
        let mut rows: Vec<(String, i32)> = Vec::new();
        std::mem::swap(&mut rows, &mut self.rows);
        if i < rows.len() {
            rows.set(i, (key, lots));
        } else {
            rows.push((key, lots));
        }
        self.rows = rows;
        proof {
            let after = self.rows@;
            assert forall|k: Seq<char>| #![auto]
                row_of(after, k, 0) < after.len() <==> (k == name || row_of(before, k, 0)
                    < before.len()) by {
                lemma_row_of(after, k, 0);
                lemma_row_of(before, k, 0);
                if k == name {
                    assert(after[i as int].0@ == name);
                } else if row_of(before, k, 0) < before.len() {
                    assert(after[row_of(before, k, 0)].0@ == k);
                } else if row_of(after, k, 0) < after.len() {
                    let j = row_of(after, k, 0);
                    assert(after[j].0@ == k);
                    assert(j != i);
                    assert(before[j].0@ == k);
                }
            }
            assert forall|k: Seq<char>| row_of(after, k, 0) < after.len() implies after[row_of(
                after,
                k,
                0,
            )].1 == (if k == name {
                lots
            } else {
                before[row_of(before, k, 0)].1
            }) by {
                lemma_row_of(after, k, 0);
                lemma_row_of(before, k, 0);
                let j = row_of(after, k, 0);
                if k == name {
                    assert(after[i as int].0@ == name);
                    assert(j == i);
                } else {
                    assert(j != i);
                    assert(before[j].0@ == k);
                    let b = row_of(before, k, 0);
                    assert(after[b].0@ == k);
                    assert(j == b);
                }
            }
            assert(self@ =~= old(self)@.insert(name, lots));
        }
    }

    /// The rows of the table.
    pub fn entries(&self) -> (res: Vec<(String, i32)>)
        ensures
            forall|i: int|
                0 <= i < res@.len() ==> self@.contains_key((#[trigger] res@[i]).0@)
                    && self@[res@[i].0@] == res@[i].1,
            forall|k: Seq<char>|
                self@.contains_key(k) ==> exists|i: int|
                    0 <= i < res@.len() && (#[trigger] res@[i]).0@ == k,
    {
        proof {
            use_type_invariant(self);
        }
        let mut out: Vec<(String, i32)> = Vec::new();
        let mut i: usize = 0;
        while i < self.rows.len()
            invariant
                i <= self.rows@.len(),
                out@.len() == i,
                forall|j: int|
                    0 <= j < i ==> (#[trigger] out@[j]).0@ == self.rows@[j].0@ && out@[j].1
                        == self.rows@[j].1,
            decreases self.rows@.len() - i,
        {
            out.push((self.rows[i].0.clone(), self.rows[i].1));
            i += 1;
        }
        proof {
            assert forall|j: int| 0 <= j < out@.len() implies self@.contains_key(
                (#[trigger] out@[j]).0@,
            ) && self@[out@[j].0@] == out@[j].1 by {
                lemma_row_of(self.rows@, self.rows@[j].0@, 0);
                let r = row_of(self.rows@, self.rows@[j].0@, 0);
                assert(r == j);
            }
            assert forall|k: Seq<char>| self@.contains_key(k) implies exists|j: int|
                0 <= j < out@.len() && (#[trigger] out@[j]).0@ == k by {
                lemma_row_of(self.rows@, k, 0);
                assert(out@[row_of(self.rows@, k, 0)].0@ == k);
            }
        }
        out
    }
}

impl Clone for LotTable {
    fn clone(&self) -> (res: Self)
        ensures
            res@ == self@,
    {
        proof {
            use_type_invariant(self);
        }
        let mut rows: Vec<(String, i32)> = Vec::new();
        let mut i: usize = 0;
        while i < self.rows.len()
            invariant
                i <= self.rows@.len(),
                rows@.len() == i,
                forall|j: int|
                    0 <= j < i ==> (#[trigger] rows@[j]).0@ == self.rows@[j].0@ && rows@[j].1
                        == self.rows@[j].1,
            decreases self.rows@.len() - i,
        {
            rows.push((self.rows[i].0.clone(), self.rows[i].1));
            i += 1;
        }
        let res = LotTable { rows };
        proof {
            assert forall|k: Seq<char>| #[trigger] row_of(res.rows@, k, 0) == row_of(
                self.rows@,
                k,
                0,
            ) by {
                lemma_same_rows(res.rows@, self.rows@, k, 0);
            }
            assert forall|k: Seq<char>| #[trigger] self@.contains_key(k) implies res@[k]
                == self@[k] by {
                lemma_row_of(self.rows@, k, 0);
            }
            assert(res@ =~= self@);
        }
        res
    }
}

proof fn lemma_same_rows(a: Seq<(String, i32)>, b: Seq<(String, i32)>, k: Seq<char>, from: int)
    requires
        a.len() == b.len(),
        0 <= from,
        forall|j: int| 0 <= j < a.len() ==> (#[trigger] a[j]).0@ == b[j].0@,
    ensures
        row_of(a, k, from) == row_of(b, k, from),
    decreases a.len() - from,
{
    if from < a.len() {
        assert(a[from].0@ == b[from].0@);
        lemma_same_rows(a, b, k, from + 1);
    }
}

/// The settings that trading goes by. Amounts, percentages and factors are in millionths.
#[derive(Debug)]
pub struct TradingConfig {
    /// The most that one equity trade may cost.
    pub max_trade_amount_inr: i64,
    /// Lots to buy of an index that has no row of its own.
    pub index_lots: i32,
    /// Lots to buy of any other option.
    pub other_lots: i32,
    /// Lots to buy by index name.
    pub index_lots_by_symbol: LotTable,
    /// `"LIVE"` or `"PAPER"`.
    pub mode: String,
    /// Flat brokerage for each order.
    pub brokerage_per_order: i64,
    /// How much of a holding is sold at target 1.
    pub target_1_exit_pct: i64,
    /// How much of a holding is sold at target 2.
    pub target_2_exit_pct: i64,
    /// Market price protection of live entry orders, in percent.
    pub entry_market_protection: i64,
    /// Sell one lot at target 1 and let the rest run from rung to rung in place of a fixed
    /// target 2.
    pub dynamic_targeting: bool,
    /// How far the stop trails behind a rung, as a part of the way from entry to target 1.
    pub dynamic_targeting_trail_factor: i64,
    /// How far the next rung lies ahead, as a part of the way from entry to target 1.
    pub dynamic_targeting_extension_factor: i64,
    /// Trail the stop behind the highest price before target 1 is reached.
    pub pre_t1_trailing: bool,
    /// How much of the way to target 1 the highest price must have covered before the stop
    /// trails.
    pub pre_t1_trail_arm_pct: i64,
    /// How far the stop trails behind the highest price, as a part of the way from entry to
    /// target 1.
    pub pre_t1_trail_factor: i64,
    /// Take no entry and ignore new signals.
    pub kill_switch_active: bool,
}

/// What a [`TradingConfig`] says, with its texts as character sequences.
#[verifier::ext_equal]
pub ghost struct TradingConfigView {
    pub max_trade_amount_inr: i64,
    pub index_lots: i32,
    pub other_lots: i32,
    pub index_lots_by_symbol: Map<Seq<char>, i32>,
    pub mode: Seq<char>,
    pub brokerage_per_order: i64,
    pub target_1_exit_pct: i64,
    pub target_2_exit_pct: i64,
    pub entry_market_protection: i64,
    pub dynamic_targeting: bool,
    pub dynamic_targeting_trail_factor: i64,
    pub dynamic_targeting_extension_factor: i64,
    pub pre_t1_trailing: bool,
    pub pre_t1_trail_arm_pct: i64,
    pub pre_t1_trail_factor: i64,
    pub kill_switch_active: bool,
}

impl View for TradingConfig {
    type V = TradingConfigView;

    open spec fn view(&self) -> TradingConfigView {
        TradingConfigView {
            max_trade_amount_inr: self.max_trade_amount_inr,
            index_lots: self.index_lots,
            other_lots: self.other_lots,
            index_lots_by_symbol: self.index_lots_by_symbol@,
            mode: self.mode@,
            brokerage_per_order: self.brokerage_per_order,
            target_1_exit_pct: self.target_1_exit_pct,
            target_2_exit_pct: self.target_2_exit_pct,
            entry_market_protection: self.entry_market_protection,
            dynamic_targeting: self.dynamic_targeting,
            dynamic_targeting_trail_factor: self.dynamic_targeting_trail_factor,
            dynamic_targeting_extension_factor: self.dynamic_targeting_extension_factor,
            pre_t1_trailing: self.pre_t1_trailing,
            pre_t1_trail_arm_pct: self.pre_t1_trail_arm_pct,
            pre_t1_trail_factor: self.pre_t1_trail_factor,
            kill_switch_active: self.kill_switch_active,
        }
    }
}

impl Clone for TradingConfig {
    fn clone(&self) -> (res: Self)
        ensures
            res@ == self@,
    {
        TradingConfig {
            max_trade_amount_inr: self.max_trade_amount_inr,
            index_lots: self.index_lots,
            other_lots: self.other_lots,
            index_lots_by_symbol: self.index_lots_by_symbol.clone(),
            mode: self.mode.clone(),
            brokerage_per_order: self.brokerage_per_order,
            target_1_exit_pct: self.target_1_exit_pct,
            target_2_exit_pct: self.target_2_exit_pct,
            entry_market_protection: self.entry_market_protection,
            dynamic_targeting: self.dynamic_targeting,
            dynamic_targeting_trail_factor: self.dynamic_targeting_trail_factor,
            dynamic_targeting_extension_factor: self.dynamic_targeting_extension_factor,
            pre_t1_trailing: self.pre_t1_trailing,
            pre_t1_trail_arm_pct: self.pre_t1_trail_arm_pct,
            pre_t1_trail_factor: self.pre_t1_trail_factor,
            kill_switch_active: self.kill_switch_active,
        }
    }
}

// ---------------------------------------------------------------------------
// Signals and positions
// ---------------------------------------------------------------------------

/// A call to trade, as it came in. Prices are in millionths.
#[derive(Debug)]
pub struct TradeSignal {
    /// The underlying, such as `"NIFTY"`.
    pub instrument_name: String,
    /// Strike price of an option.
    pub strike: Option<i64>,
    /// `"CE"` or `"PE"` for an option.
    pub option_type: Option<String>,
    /// Expiry date as text.
    pub expiry: Option<String>,
    /// `"BUY"`, `"SELL"`, or a command on an earlier signal.
    pub action: String,
    /// `"ABOVE"` or `"BELOW"`: on which side of the entry price to enter.
    pub entry_condition: String,
    pub entry_price: i64,
    /// Price targets, nearest first.
    pub targets: Vec<i64>,
    pub stop_loss: i64,
    /// Where the signal came from.
    pub source: String,
    /// What later edits and replies refer to.
    pub signal_id: Option<String>,
    /// The message as received.
    pub raw_message: Option<String>,
}

/// What a [`TradeSignal`] says, with its texts as character sequences.
#[verifier::ext_equal]
pub ghost struct TradeSignalView {
    pub instrument_name: Seq<char>,
    pub strike: Option<i64>,
    pub option_type: Option<Seq<char>>,
    pub expiry: Option<Seq<char>>,
    pub action: Seq<char>,
    pub entry_condition: Seq<char>,
    pub entry_price: i64,
    pub targets: Seq<i64>,
    pub stop_loss: i64,
    pub source: Seq<char>,
    pub signal_id: Option<Seq<char>>,
    pub raw_message: Option<Seq<char>>,
}

impl View for TradeSignal {
    type V = TradeSignalView;

    open spec fn view(&self) -> TradeSignalView {
        TradeSignalView {
            instrument_name: self.instrument_name@,
            strike: self.strike,
            option_type: opt_text(self.option_type),
            expiry: opt_text(self.expiry),
            action: self.action@,
            entry_condition: self.entry_condition@,
            entry_price: self.entry_price,
            targets: self.targets@,
            stop_loss: self.stop_loss,
            source: self.source@,
            signal_id: opt_text(self.signal_id),
            raw_message: opt_text(self.raw_message),
        }
    }
}

impl Clone for TradeSignal {
    fn clone(&self) -> (res: Self)
        ensures
            res@ == self@,
    {
        TradeSignal {
            instrument_name: self.instrument_name.clone(),
            strike: self.strike,
            option_type: clone_opt(&self.option_type),
            expiry: clone_opt(&self.expiry),
            action: self.action.clone(),
            entry_condition: self.entry_condition.clone(),
            entry_price: self.entry_price,
            targets: copy_prices(&self.targets),
            stop_loss: self.stop_loss,
            source: self.source.clone(),
            signal_id: clone_opt(&self.signal_id),
            raw_message: clone_opt(&self.raw_message),
        }
    }
}

/// Where a position stands.
#[derive(Debug, Clone, Copy, PartialEq, Eq, Structural)]
pub enum TradeState {
    /// Waiting for the price to reach the entry.
    WaitingForEntry,
    /// Bought and watched.
    Active,
    /// Partly sold at target 1; the stop trails.
    Target1Hit,
    /// Over.
    Closed,
}

/// A position that is being watched. Prices are in millionths.
#[derive(Debug)]
pub struct MonitoredPosition {
    pub id: String,
    pub signal: TradeSignal,
    pub state: TradeState,
    /// When the position was made, in Indian time; empty if unknown.
    pub created_at: String,
    /// The stop as it stands.
    pub current_sl: i64,
    /// The highest price seen while active.
    pub peak_ltp: Option<i64>,
    /// The next rung of a dynamic runner.
    pub next_dynamic_target: Option<i64>,
    /// The rung of a dynamic runner that was hit last.
    pub last_dynamic_rung: Option<i64>,
    /// How many rungs were hit.
    pub dynamic_rung_number: i32,
    /// A partial sale that was asked for and not yet placed.
    pub manual_sell_qty: Option<i32>,
    /// Units held.
    pub executed_qty: i32,
    pub avg_buy_price: i64,
    /// Lots to buy in place of the configured number.
    pub override_qty: Option<i32>,
    /// An order for one lot of the contract.
    pub resolved_order: Option<OrderRequest>,
    /// Last traded price, filled in for display.
    pub ltp: Option<i64>,
    /// The key of the contract in the price feed.
    pub ws_scrip_key: Option<String>,
    /// Set to leave the position on the next tick, with the reason.
    pub force_exit: Option<String>,
    /// The price to book a forced exit at.
    pub override_exit_price: Option<i64>,
    /// The price step of the contract.
    pub tick_size: i64,
    /// The entry order that is working at the broker.
    pub entry_order_id: Option<String>,
    /// The stop order that is working at the broker.
    pub sl_order_id: Option<String>,
    /// What the stop order covers.
    pub sl_order_qty: i32,
    /// Where the stop order sits.
    pub sl_order_trigger: i64,
    /// Unused; kept for stored positions.
    pub target_order_id: Option<String>,
    /// A sale that was placed and is not settled.
    pub pending_exit_order_id: Option<String>,
    /// The quantity of that sale.
    pub pending_exit_qty: i32,
    /// The reason of that sale.
    pub pending_exit_reason: Option<String>,
    /// Whether the cancel of a partly filled entry went out.
    pub entry_cancel_sent: bool,
    /// Failed exits in a row.
    pub exit_attempts: i32,
    /// Why nothing more is done with this position by itself.
    pub live_halt: Option<String>,
}

/// What a [`MonitoredPosition`] says, with its texts as character sequences.
#[verifier::ext_equal]
pub ghost struct MonitoredPositionView {
    pub id: Seq<char>,
    pub signal: TradeSignalView,
    pub state: TradeState,
    pub created_at: Seq<char>,
    pub current_sl: i64,
    pub peak_ltp: Option<i64>,
    pub next_dynamic_target: Option<i64>,
    pub last_dynamic_rung: Option<i64>,
    pub dynamic_rung_number: i32,
    pub manual_sell_qty: Option<i32>,
    pub executed_qty: i32,
    pub avg_buy_price: i64,
    pub override_qty: Option<i32>,
    pub resolved_order: Option<OrderRequestView>,
    pub ltp: Option<i64>,
    pub ws_scrip_key: Option<Seq<char>>,
    pub force_exit: Option<Seq<char>>,
    pub override_exit_price: Option<i64>,
    pub tick_size: i64,
    pub entry_order_id: Option<Seq<char>>,
    pub sl_order_id: Option<Seq<char>>,
    pub sl_order_qty: i32,
    pub sl_order_trigger: i64,
    pub target_order_id: Option<Seq<char>>,
    pub pending_exit_order_id: Option<Seq<char>>,
    pub pending_exit_qty: i32,
    pub pending_exit_reason: Option<Seq<char>>,
    pub entry_cancel_sent: bool,
    pub exit_attempts: i32,
    pub live_halt: Option<Seq<char>>,
}

impl View for MonitoredPosition {
    type V = MonitoredPositionView;

    open spec fn view(&self) -> MonitoredPositionView {
        MonitoredPositionView {
            id: self.id@,
            signal: self.signal@,
            state: self.state,
            created_at: self.created_at@,
            current_sl: self.current_sl,
            peak_ltp: self.peak_ltp,
            next_dynamic_target: self.next_dynamic_target,
            last_dynamic_rung: self.last_dynamic_rung,
            dynamic_rung_number: self.dynamic_rung_number,
            manual_sell_qty: self.manual_sell_qty,
            executed_qty: self.executed_qty,
            avg_buy_price: self.avg_buy_price,
            override_qty: self.override_qty,
            resolved_order: match self.resolved_order {
                Some(x) => Some(x@),
                None => None,
            },
            ltp: self.ltp,
            ws_scrip_key: opt_text(self.ws_scrip_key),
            force_exit: opt_text(self.force_exit),
            override_exit_price: self.override_exit_price,
            tick_size: self.tick_size,
            entry_order_id: opt_text(self.entry_order_id),
            sl_order_id: opt_text(self.sl_order_id),
            sl_order_qty: self.sl_order_qty,
            sl_order_trigger: self.sl_order_trigger,
            target_order_id: opt_text(self.target_order_id),
            pending_exit_order_id: opt_text(self.pending_exit_order_id),
            pending_exit_qty: self.pending_exit_qty,
            pending_exit_reason: opt_text(self.pending_exit_reason),
            entry_cancel_sent: self.entry_cancel_sent,
            exit_attempts: self.exit_attempts,
            live_halt: opt_text(self.live_halt),
        }
    }
}

impl Clone for MonitoredPosition {
    fn clone(&self) -> (res: Self)
        ensures
            res@ == self@,
    {
        MonitoredPosition {
            id: self.id.clone(),
            signal: self.signal.clone(),
            state: self.state,
            created_at: self.created_at.clone(),
            current_sl: self.current_sl,
            peak_ltp: self.peak_ltp,
            next_dynamic_target: self.next_dynamic_target,
            last_dynamic_rung: self.last_dynamic_rung,
            dynamic_rung_number: self.dynamic_rung_number,
            manual_sell_qty: self.manual_sell_qty,
            executed_qty: self.executed_qty,
            avg_buy_price: self.avg_buy_price,
            override_qty: self.override_qty,
            resolved_order: match &self.resolved_order {
                Some(x) => Some(x.clone()),
                None => None,
            },
            ltp: self.ltp,
            ws_scrip_key: clone_opt(&self.ws_scrip_key),
            force_exit: clone_opt(&self.force_exit),
            override_exit_price: self.override_exit_price,
            tick_size: self.tick_size,
            entry_order_id: clone_opt(&self.entry_order_id),
            sl_order_id: clone_opt(&self.sl_order_id),
            sl_order_qty: self.sl_order_qty,
            sl_order_trigger: self.sl_order_trigger,
            target_order_id: clone_opt(&self.target_order_id),
            pending_exit_order_id: clone_opt(&self.pending_exit_order_id),
            pending_exit_qty: self.pending_exit_qty,
            pending_exit_reason: clone_opt(&self.pending_exit_reason),
            entry_cancel_sent: self.entry_cancel_sent,
            exit_attempts: self.exit_attempts,
            live_halt: clone_opt(&self.live_halt),
        }
    }
}

/// The positions of a list, each by what it says.
pub open spec fn views(s: Seq<MonitoredPosition>) -> Seq<MonitoredPositionView> {
    s.map_values(|p: MonitoredPosition| p@)
}

/// A contract of the exchange. Prices are in millionths.
#[derive(Debug)]
pub struct ScripRecord {
    pub trading_symbol: String,
    pub symbol_name: String,
    pub instrument_token: String,
    pub exchange_segment_code: String,
    /// `"CE"`, `"PE"`, or empty.
    pub option_type: String,
    pub strike_price: i64,
    /// The expiry day, counted from day one of the year one.
    pub expiry_date: i32,
    pub lot_size: i32,
    pub tick_size: i64,
}

/// What a [`ScripRecord`] says, with its texts as character sequences.
#[verifier::ext_equal]
pub ghost struct ScripRecordView {
    pub trading_symbol: Seq<char>,
    pub symbol_name: Seq<char>,
    pub instrument_token: Seq<char>,
    pub exchange_segment_code: Seq<char>,
    pub option_type: Seq<char>,
    pub strike_price: i64,
    pub expiry_date: i32,
    pub lot_size: i32,
    pub tick_size: i64,
}

impl View for ScripRecord {
    type V = ScripRecordView;

    open spec fn view(&self) -> ScripRecordView {
        ScripRecordView {
            trading_symbol: self.trading_symbol@,
            symbol_name: self.symbol_name@,
            instrument_token: self.instrument_token@,
            exchange_segment_code: self.exchange_segment_code@,
            option_type: self.option_type@,
            strike_price: self.strike_price,
            expiry_date: self.expiry_date,
            lot_size: self.lot_size,
            tick_size: self.tick_size,
        }
    }
}

impl Clone for ScripRecord {
    fn clone(&self) -> (res: Self)
        ensures
            res@ == self@,
    {
        ScripRecord {
            trading_symbol: self.trading_symbol.clone(),
            symbol_name: self.symbol_name.clone(),
            instrument_token: self.instrument_token.clone(),
            exchange_segment_code: self.exchange_segment_code.clone(),
            option_type: self.option_type.clone(),
            strike_price: self.strike_price,
            expiry_date: self.expiry_date,
            lot_size: self.lot_size,
            tick_size: self.tick_size,
        }
    }
}

// ---------------------------------------------------------------------------
// Comparing with the broker
// ---------------------------------------------------------------------------

/// How what is tracked compares with what the broker shows.
#[derive(Debug, Clone, Copy, PartialEq, Eq, Structural)]
pub enum ReconcileCategory {
    /// Both quantities agree.
    Matches,
    /// The broker holds less.
    QtyReduced,
    /// The broker holds none.
    QtyZero,
    /// The broker holds more.
    QtyIncreased,
    /// The broker holds a symbol that is not tracked.
    UnexplainedExposure,
    /// More than one position is tracked on the symbol.
    DuplicateAmbiguous,
}

/// What to do about a finding.
#[derive(Debug, Clone, Copy, PartialEq, Eq, Structural)]
pub enum ReconcileAction {
    /// Take over the quantity of the broker.
    AdoptQty,
    /// Close the position.
    Close,
    /// Change nothing.
    Ignore,
    /// Take over a holding that is not tracked, with the given stop and target. A buy price
    /// that is not positive stands for the average that the broker shows.
    AdoptManual { stop_loss: i64, target: i64, avg_buy_price: i64 },
}

/// One answer to a finding.
#[derive(Debug)]
pub struct ReconcileOption {
    pub action: ReconcileAction,
    pub label: String,
    pub recommended: bool,
}

/// What a [`ReconcileOption`] says, with its texts as character sequences.
#[verifier::ext_equal]
pub ghost struct ReconcileOptionView {
    pub action: ReconcileAction,
    pub label: Seq<char>,
    pub recommended: bool,
}

impl View for ReconcileOption {
    type V = ReconcileOptionView;

    open spec fn view(&self) -> ReconcileOptionView {
        ReconcileOptionView {
            action: self.action,
            label: self.label@,
            recommended: self.recommended,
        }
    }
}

impl Clone for ReconcileOption {
    fn clone(&self) -> (res: Self)
        ensures
            res@ == self@,
    {
        ReconcileOption {
            action: self.action,
            label: self.label.clone(),
            recommended: self.recommended,
        }
    }
}

/// One comparison of a position with what the broker shows.
#[derive(Debug)]
pub struct ReconcileFinding {
    /// `None` for a holding that is not tracked.
    pub position_id: Option<String>,
    pub trading_symbol: String,
    pub instrument: String,
    pub category: ReconcileCategory,
    pub engine_qty: i32,
    pub broker_qty: i32,
    pub broker_avg_price: i64,
    pub message: String,
    pub options: Vec<ReconcileOption>,
}

/// What a [`ReconcileFinding`] says, with its texts as character sequences.
#[verifier::ext_equal]
pub ghost struct ReconcileFindingView {
    pub position_id: Option<Seq<char>>,
    pub trading_symbol: Seq<char>,
    pub instrument: Seq<char>,
    pub category: ReconcileCategory,
    pub engine_qty: i32,
    pub broker_qty: i32,
    pub broker_avg_price: i64,
    pub message: Seq<char>,
    pub options: Seq<ReconcileOptionView>,
}

impl View for ReconcileFinding {
    type V = ReconcileFindingView;

    open spec fn view(&self) -> ReconcileFindingView {
        ReconcileFindingView {
            position_id: opt_text(self.position_id),
            trading_symbol: self.trading_symbol@,
            instrument: self.instrument@,
            category: self.category,
            engine_qty: self.engine_qty,
            broker_qty: self.broker_qty,
            broker_avg_price: self.broker_avg_price,
            message: self.message@,
            options: self.options@.map_values(|x: ReconcileOption| x@),
        }
    }
}

/// One answer that was chosen.
#[derive(Debug)]
pub struct ReconcileApplyItem {
    pub position_id: Option<String>,
    pub trading_symbol: String,
    pub action: ReconcileAction,
}

/// What a [`ReconcileApplyItem`] says, with its texts as character sequences.
#[verifier::ext_equal]
pub ghost struct ReconcileApplyItemView {
    pub position_id: Option<Seq<char>>,
    pub trading_symbol: Seq<char>,
    pub action: ReconcileAction,
}

impl View for ReconcileApplyItem {
    type V = ReconcileApplyItemView;

    open spec fn view(&self) -> ReconcileApplyItemView {
        ReconcileApplyItemView {
            position_id: opt_text(self.position_id),
            trading_symbol: self.trading_symbol@,
            action: self.action,
        }
    }
}

impl Clone for ReconcileApplyItem {
    fn clone(&self) -> (res: Self)
        ensures
            res@ == self@,
    {
        ReconcileApplyItem {
            position_id: clone_opt(&self.position_id),
            trading_symbol: self.trading_symbol.clone(),
            action: self.action,
        }
    }
}

// ---------------------------------------------------------------------------
// What is written down
// ---------------------------------------------------------------------------

/// The charges on an execution.
#[derive(Debug, Clone, Copy, PartialEq, Eq, Structural)]
pub struct ChargeBreakdown {
    pub gross_value: i64,
    pub brokerage: i64,
    pub stt_charge: i64,
    pub sebi_fee: i64,
    pub stamp_duty: i64,
    pub transaction_charge: i64,
    pub gst: i64,
    pub net_value: i64,
}

/// How an order came out.
#[derive(Debug)]
pub struct ExecutionResult {
    pub order_id: String,
    pub status: String,
    pub gross_value: i64,
    pub brokerage: i64,
    pub stt_charge: i64,
    pub sebi_fee: i64,
    pub stamp_duty: i64,
    pub transaction_charge: i64,
    pub gst: i64,
    pub net_value: i64,
    pub timestamp: String,
}

/// What a [`ExecutionResult`] says, with its texts as character sequences.
#[verifier::ext_equal]
pub ghost struct ExecutionResultView {
    pub order_id: Seq<char>,
    pub status: Seq<char>,
    pub gross_value: i64,
    pub brokerage: i64,
    pub stt_charge: i64,
    pub sebi_fee: i64,
    pub stamp_duty: i64,
    pub transaction_charge: i64,
    pub gst: i64,
    pub net_value: i64,
    pub timestamp: Seq<char>,
}

impl View for ExecutionResult {
    type V = ExecutionResultView;

    open spec fn view(&self) -> ExecutionResultView {
        ExecutionResultView {
            order_id: self.order_id@,
            status: self.status@,
            gross_value: self.gross_value,
            brokerage: self.brokerage,
            stt_charge: self.stt_charge,
            sebi_fee: self.sebi_fee,
            stamp_duty: self.stamp_duty,
            transaction_charge: self.transaction_charge,
            gst: self.gst,
            net_value: self.net_value,
            timestamp: self.timestamp@,
        }
    }
}

impl Clone for ExecutionResult {
    fn clone(&self) -> (res: Self)
        ensures
            res@ == self@,
    {
        ExecutionResult {
            order_id: self.order_id.clone(),
            status: self.status.clone(),
            gross_value: self.gross_value,
            brokerage: self.brokerage,
            stt_charge: self.stt_charge,
            sebi_fee: self.sebi_fee,
            stamp_duty: self.stamp_duty,
            transaction_charge: self.transaction_charge,
            gst: self.gst,
            net_value: self.net_value,
            timestamp: self.timestamp.clone(),
        }
    }
}

/// A message to the writer of the database.
#[derive(Debug)]
pub enum DbWriteMessage {
    Trade {
        ticker: String,
        action: String,
        qty: i32,
        executed_price: i64,
        gross_value: i64,
        brokerage: i64,
        stt_charge: i64,
        sebi_fee: i64,
        stamp_duty: i64,
        transaction_charge: i64,
        gst: i64,
        net_value: i64,
        signal_id: Option<String>,
        raw_message: Option<String>,
        exit_reason: Option<String>,
        mode: String,
    },
    Log { level: String, message: String },
    PositionsSnapshot { json: String },
}

} // verus!
