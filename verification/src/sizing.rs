//! How much to buy and how much to sell.
use vstd::prelude::*;

use crate::decimal::{div_down, div_up, max32, min32, to_i32};
use crate::domain::{MonitoredPosition, TradeSignal, TradingConfig};
use crate::text::{parse_i32, same_text, to_upper};

#[allow(unused_imports)]
use crate::decimal::{ceil_div, fit32, larger, smaller, UNIT};

#[allow(unused_imports)]
use crate::domain::{MonitoredPositionView, ScripRecordView, TradeSignalView, TradingConfigView};

#[allow(unused_imports)]
use crate::orders::contract_order;

#[allow(unused_imports)]
use crate::text::{
    finishes_with, pieces_stand_in_their_text, printed_int_reads_back, uppercased, written_i32,
};

verus! {

// ---------------------------------------------------------------------------
// Lots
// ---------------------------------------------------------------------------

/// Whether a name is that of an index whose options are traded by lots of their own. The
/// whole name counts: `"BANKNIFTY"` and `"NIFTY"` are two.
pub open spec fn index_name(s: Seq<char>) -> bool {
    ||| s == "NIFTY"@
    ||| s == "BANKNIFTY"@
    ||| s == "FINNIFTY"@
    ||| s == "MIDCPNIFTY"@
    ||| s == "SENSEX"@
    ||| s == "BANKEX"@
}

/// Whether a name is that of an index.
pub fn is_index_name(s: &str) -> (res: bool)
    ensures
        res == index_name(s@),
{
    same_text(s, "NIFTY") || same_text(s, "BANKNIFTY") || same_text(s, "FINNIFTY") || same_text(
        s,
        "MIDCPNIFTY",
    ) || same_text(s, "SENSEX") || same_text(s, "BANKEX")
}

/// The lots to buy of an instrument: for an index its own row if that is positive, else the
/// number for indices; for anything else the number for the rest. Zero means not to trade.
pub open spec fn lots_of(cfg: TradingConfigView, instrument: Seq<char>) -> int {
    let name = uppercased(instrument);
    if index_name(name) {
        if cfg.index_lots_by_symbol.contains_key(name) && cfg.index_lots_by_symbol[name] > 0 {
            cfg.index_lots_by_symbol[name] as int
        } else {
            larger(cfg.index_lots as int, 0)
        }
    } else {
        larger(cfg.other_lots as int, 0)
    }
}

/// The lots to buy of an instrument.
pub fn lots_for_instrument(cfg: &TradingConfig, instrument_name: &str) -> (res: i32)
    ensures
        res == lots_of(cfg@, instrument_name@),
        res >= 0,
{
    let name: String = to_upper(instrument_name);
    if is_index_name(name.as_str()) {
        match cfg.index_lots_by_symbol.get(name.as_str()) {
            Some(l) if l > 0 => l,
            _ => max32(cfg.index_lots, 0),
        }
    } else {
        max32(cfg.other_lots, 0)
    }
}

/// The lot size that a text gives; one if it gives none.
pub open spec fn lot_size_text(s: Seq<char>) -> int {
    match written_i32(s) {
        Some(v) if v > 0 => v,
        _ => 1,
    }
}

/// The lot size of a position: the quantity of its order, which is for one lot.
pub open spec fn lot_size(pos: MonitoredPositionView) -> int {
    match pos.resolved_order {
        Some(o) => lot_size_text(o.quantity),
        None => 1,
    }
}

/// The lot size of a position.
pub fn lot_size_of(pos: &MonitoredPosition) -> (res: i32)
    ensures
        res == lot_size(pos@),
        res >= 1,
{
    match &pos.resolved_order {
        Some(o) => match parse_i32(o.quantity.as_str()) {
            Some(v) if v > 0 => v,
            _ => 1,
        },
        None => 1,
    }
}

// ---------------------------------------------------------------------------
// Quantities
// ---------------------------------------------------------------------------

/// The largest whole number of lots in a positive number of units, and at least one lot.
pub open spec fn whole_lots(units: int, lot: int) -> int {
    if units < lot {
        lot
    } else {
        (units / lot) * lot
    }
}

/// How much to buy on an entry.
///
/// Lots that were asked for come first. An option is bought by the lots of its instrument.
/// Anything else is bought for as much as one trade may cost at the price `ltp`, in whole
/// lots, and for one lot where there is no price.
pub open spec fn entry_qty(
    signal: TradeSignalView,
    lot_size: int,
    override_qty: Option<i32>,
    cfg: TradingConfigView,
    ltp: Option<i64>,
) -> int {
    let lot = larger(lot_size, 1);
    match override_qty {
        Some(lots) => fit32(lots * lot),
        None => if signal.option_type is Some {
            fit32(lots_of(cfg, signal.instrument_name) * lot)
        } else if ltp is Some && ltp->0 > 0 {
            let affordable = fit32(cfg.max_trade_amount_inr as int / ltp->0 as int);
            whole_lots(larger(affordable, 1), lot)
        } else {
            lot
        },
    }
}

/// How much to buy on an entry.
pub fn compute_entry_qty(
    signal: &TradeSignal,
    lot_size: i32,
    override_qty: Option<i32>,
    cfg: &TradingConfig,
    ltp: Option<i64>,
) -> (res: i32)
    ensures
        res == entry_qty(signal@, lot_size as int, override_qty, cfg@, ltp),
{
    let lot: i32 = max32(lot_size, 1);
    if let Some(lots) = override_qty {
        proof {
            lemma_i32_product(lots as int, lot as int);
        }
        return to_i32(lots as i128 * lot as i128);
    }
    if signal.option_type.is_some() {
        let lots: i32 = lots_for_instrument(cfg, signal.instrument_name.as_str());
        proof {
            lemma_i32_product(lots as int, lot as int);
        }
        return to_i32(lots as i128 * lot as i128);
    }
    match ltp {
        Some(price) if price > 0 => {
            let affordable: i32 = to_i32(
                div_down(cfg.max_trade_amount_inr as i128, price as i128),
            );
            let raw: i32 = max32(affordable, 1);
            if raw < lot {
                lot
            } else {
                proof {
                    lemma_part_of(raw as int, lot as int);
                }
                (raw / lot) * lot
            }
        },
        _ => lot,
    }
}

proof fn lemma_i32_product(a: int, b: int)
    by (nonlinear_arith)
    requires
        i32::MIN <= a <= i32::MAX,
        0 <= b <= i32::MAX,
    ensures
        i32::MIN * 0x8000_0000 <= a * b <= i32::MAX * 0x8000_0000,
{
}

proof fn lemma_part_of(a: int, b: int)
    by (nonlinear_arith)
    requires
        0 <= a,
        0 < b,
    ensures
        0 <= (a / b) * b <= a,
        a - b < (a / b) * b,
{
}

/// What is bought always fits in 32 bits.
pub proof fn entry_qty_fits(
    signal: TradeSignalView,
    lot: int,
    override_qty: Option<i32>,
    cfg: TradingConfigView,
    ltp: Option<i64>,
)
    requires
        lot <= i32::MAX,
    ensures
        i32::MIN <= entry_qty(signal, lot, override_qty, cfg, ltp) <= i32::MAX,
{
    if ltp is Some && ltp->0 > 0 {
        let affordable = fit32(cfg.max_trade_amount_inr as int / ltp->0 as int);
        lemma_part_of(larger(affordable, 1), larger(lot, 1));
    }
}

/// How much of a holding to sell at target 1: the share `pct`, rounded up to whole lots, at
/// least one lot and at most what is held. What is no more than a lot is sold whole.
pub open spec fn slice_at_target1(held: int, lot_size: int, pct: int) -> int {
    let lot = larger(lot_size, 1);
    if held <= lot {
        held
    } else {
        let lots = larger(fit32(ceil_div(held * pct, 100 * UNIT * lot)), 1);
        smaller(lots * lot, held)
    }
}

/// How much of a holding to sell at target 1.
pub fn tgt1_slice_qty(held: i32, lot_size: i32, pct: i64) -> (res: i32)
    ensures
        res == slice_at_target1(held as int, lot_size as int, pct as int),
{
    let lot: i32 = max32(lot_size, 1);
    if held <= lot {
        return held;
    }
    proof {
        lemma_slice_product(held as int, pct as int);
        assert(100 * UNIT * lot == lot * 100_000_000) by (nonlinear_arith);
    }
    let lots: i32 = max32(to_i32(div_up(held as i128 * pct as i128, lot as i128 * 100_000_000)), 1);
    proof {
        lemma_i32_product(lots as int, lot as int);
    }
    let whole: i64 = lots as i64 * lot as i64;
    if whole < held as i64 {
        whole as i32
    } else {
        held
    }
}

proof fn lemma_slice_product(held: int, pct: int)
    by (nonlinear_arith)
    requires
        0 <= held <= i32::MAX,
        i64::MIN <= pct <= i64::MAX,
    ensures
        -0x8000_0000_0000_0000 * 0x8000_0000 <= held * pct <= 0x8000_0000_0000_0000 * 0x8000_0000,
{
}

/// The whole lots in a number of units, towards zero.
pub open spec fn lots_towards_zero(units: int, lot: int) -> int {
    if units >= 0 {
        (units / lot) * lot
    } else {
        -(((-units) / lot) * lot)
    }
}

/// How much of a simulated holding is sold at target 1: the share `pct`, rounded down to
/// whole lots; a lot where that leaves nothing, or the holding if it is less.
pub open spec fn paper_slice(held: int, lot: int, pct: int) -> int {
    let raw = smaller(larger(fit32((held * pct) / (100 * UNIT as int)), 1), held);
    let whole = lots_towards_zero(raw, lot);
    if whole != 0 {
        whole
    } else if held >= lot {
        lot
    } else {
        held
    }
}

/// How much of a simulated holding is sold at target 1.
pub fn paper_slice_qty(held: i32, lot: i32, pct: i64) -> (res: i32)
    requires
        lot >= 1,
    ensures
        res == paper_slice(held as int, lot as int, pct as int),
{
    proof {
        lemma_paper_product(held as int, pct as int);
    }
    let share: i32 = to_i32(div_down(held as i128 * pct as i128, 100_000_000));
    let raw: i32 = min32(max32(share, 1), held);
    let whole: i32 = if raw >= 0 {
        proof {
            lemma_part_of(raw as int, lot as int);
        }
        (raw / lot) * lot
    } else {
        let n: i64 = -(raw as i64);
        proof {
            lemma_part_of(n as int, lot as int);
        }
        (-((n / lot as i64) * lot as i64)) as i32
    };
    if whole != 0 {
        whole
    } else if held >= lot {
        lot
    } else {
        held
    }
}

proof fn lemma_paper_product(held: int, pct: int)
    by (nonlinear_arith)
    requires
        i32::MIN <= held <= i32::MAX,
        i64::MIN <= pct <= i64::MAX,
    ensures
        -0x8000_0000_0000_0000 * 0x8000_0000 <= held * pct <= 0x8000_0000_0000_0000 * 0x8000_0000,
{
}

// ---------------------------------------------------------------------------
// Laws of the quantities
// ---------------------------------------------------------------------------

/// Lots of zero, with no row for the index, mean that a class is not traded.
pub proof fn zero_lots_mean_no_trade(cfg: TradingConfigView, instrument: Seq<char>)
    requires
        cfg.index_lots <= 0,
        cfg.other_lots <= 0,
        !cfg.index_lots_by_symbol.contains_key(uppercased(instrument)),
    ensures
        lots_of(cfg, instrument) == 0,
{
}

/// A positive row for an index wins over the number for indices.
pub proof fn index_row_wins(cfg: TradingConfigView, instrument: Seq<char>)
    requires
        index_name(uppercased(instrument)),
        cfg.index_lots_by_symbol.contains_key(uppercased(instrument)),
        cfg.index_lots_by_symbol[uppercased(instrument)] > 0,
    ensures
        lots_of(cfg, instrument) == cfg.index_lots_by_symbol[uppercased(instrument)],
{
}

/// What is sold at target 1 is never more than what is held.
pub proof fn slice_fits_the_holding(held: i32, lot: i32, pct: i64)
    ensures
        slice_at_target1(held as int, lot as int, pct as int) <= held,
        held > 0 ==> slice_at_target1(held as int, lot as int, pct as int) > 0,
{
    let l = larger(lot as int, 1);
    if held > l {
        let lots = larger(fit32(ceil_div(held * pct, 100 * UNIT * l)), 1);
        assert(lots * l > 0) by (nonlinear_arith)
            requires
                lots >= 1,
                l >= 1,
        ;
    }
}

/// What is sold at target 1 is a whole number of lots wherever the holding is one, and
/// covers at least the share that was asked for unless it is the whole holding.
pub proof fn slice_is_whole_lots(lots_held: int, lot: i32, pct: i64)
    requires
        lot >= 1,
        0 <= lots_held * lot <= i32::MAX,
    ensures
        slice_at_target1(lots_held * lot, lot as int, pct as int) % (lot as int) == 0,
        ({
            let slice = slice_at_target1(lots_held * lot, lot as int, pct as int);
            slice == lots_held * lot || slice * 100 * UNIT >= lots_held * lot * pct
        }),
{
    let held = lots_held * lot;
    vstd::arithmetic::div_mod::lemma_mod_multiples_basic(lots_held, lot as int);
    if held > lot {
        let d = 100 * UNIT * lot;
        let need = ceil_div(held * pct, d);
        let lots = larger(fit32(need), 1);
        vstd::arithmetic::div_mod::lemma_mod_multiples_basic(lots, lot as int);
        if lots * lot < held {
            assert(lots <= i32::MAX) by (nonlinear_arith)
                requires
                    lots * lot < held,
                    held <= i32::MAX,
                    lot >= 1,
            ;
            if lots == i32::MAX {
                assert(lots * lot >= i32::MAX) by (nonlinear_arith)
                    requires
                        lots == i32::MAX,
                        lot >= 1,
                ;
            } else {
                assert(need <= lots);
                assert(d > 0) by (nonlinear_arith)
                    requires
                        d == 100 * UNIT * lot,
                        lot >= 1,
                ;
                assert(held * pct <= need * d) by {
                    lemma_ceil_covers(held * pct, d);
                }
                assert(need * d <= lots * d) by (nonlinear_arith)
                    requires
                        need <= lots,
                        d > 0,
                ;
                assert(lots * d == lots * lot * 100 * UNIT) by (nonlinear_arith)
                    requires
                        d == 100 * UNIT * lot,
                ;
            }
        }
    }
}

proof fn lemma_ceil_covers(a: int, b: int)
    by (nonlinear_arith)
    requires
        b > 0,
    ensures
        a <= ceil_div(a, b) * b,
{
}

/// The simulated sale at target 1 is never more than what is held.
pub proof fn paper_slice_fits_the_holding(held: i32, lot: i32, pct: i64)
    requires
        lot >= 1,
        held > 0,
    ensures
        0 < paper_slice(held as int, lot as int, pct as int) <= held,
{
    let raw = smaller(larger(fit32((held * pct) / (100 * UNIT as int)), 1), held as int);
    lemma_part_of(raw, lot as int);
}

/// Lots that were asked for are what is bought.
pub proof fn asked_lots_are_bought(
    signal: TradeSignalView,
    lot: int,
    lots: i32,
    cfg: TradingConfigView,
    ltp: Option<i64>,
)
    requires
        1 <= lot,
        i32::MIN <= lots * lot <= i32::MAX,
    ensures
        entry_qty(signal, lot, Some(lots), cfg, ltp) == lots * lot,
{
}

/// A purchase that is not of an option stays within what one trade may cost, unless a single
/// lot already costs more.
pub proof fn equity_purchase_is_affordable(
    signal: TradeSignalView,
    lot: int,
    cfg: TradingConfigView,
    ltp: i64,
)
    requires
        signal.option_type is None,
        ltp > 0,
        1 <= lot <= i32::MAX,
    ensures
        ({
            let q = entry_qty(signal, lot, None, cfg, Some(ltp));
            q == lot || q * ltp <= cfg.max_trade_amount_inr
        }),
{
    let q = entry_qty(signal, lot, None, cfg, Some(ltp));
    let affordable = fit32(cfg.max_trade_amount_inr as int / ltp as int);
    let raw = larger(affordable, 1);
    if raw >= lot {
        lemma_part_of(raw, lot);
        if lot > 1 || affordable >= 1 {
            if affordable >= 1 {
                assert(q <= cfg.max_trade_amount_inr as int / ltp as int);
                assert(q * ltp <= cfg.max_trade_amount_inr) by (nonlinear_arith)
                    requires
                        q <= cfg.max_trade_amount_inr as int / ltp as int,
                        ltp > 0,
                ;
            }
        } else {
            assert(q == 1);
        }
    }
}

/// The lot size of a position is the quantity that its order says, if that is a positive
/// number, and one otherwise; a position made of a contract has the lot size of that contract.
pub proof fn lot_size_is_that_of_the_contract(
    pos: MonitoredPositionView,
    record: ScripRecordView,
)
    ensures
        lot_size(pos) >= 1,
        pos.resolved_order is None ==> lot_size(pos) == 1,
        pos.resolved_order == Some(contract_order(record)) && record.lot_size > 0 ==> lot_size(pos)
            == record.lot_size,
        pos.resolved_order == Some(contract_order(record)) && record.lot_size <= 0 ==> lot_size(pos)
            == 1,
{
    printed_int_reads_back(record.lot_size);
}

/// The lots of an instrument: an index without a positive row of its own goes by the number for
/// indices, anything else by the number for the rest, and a negative number counts as none.
pub proof fn lots_go_by_class(cfg: TradingConfigView, instrument: Seq<char>)
    ensures
        ({
            let name = uppercased(instrument);
            let rows = cfg.index_lots_by_symbol;
            let own = rows.contains_key(name) && rows[name] > 0;
            &&& lots_of(cfg, instrument) >= 0
            &&& index_name(name) && !own && cfg.index_lots >= 0 ==> lots_of(cfg, instrument)
                == cfg.index_lots
            &&& index_name(name) && !own && cfg.index_lots < 0 ==> lots_of(cfg, instrument) == 0
            &&& !index_name(name) && cfg.other_lots >= 0 ==> lots_of(cfg, instrument)
                == cfg.other_lots
            &&& !index_name(name) && cfg.other_lots < 0 ==> lots_of(cfg, instrument) == 0
        }),
{
}

/// An option is bought by the lots of its instrument, at any price.
pub proof fn options_are_bought_by_the_lot(
    signal: TradeSignalView,
    lot: int,
    cfg: TradingConfigView,
    ltp: Option<i64>,
)
    requires
        signal.option_type is Some,
        1 <= lot,
        lots_of(cfg, signal.instrument_name) * lot <= i32::MAX,
    ensures
        entry_qty(signal, lot, None, cfg, ltp) == lots_of(cfg, signal.instrument_name) * lot,
{
    let lots = lots_of(cfg, signal.instrument_name);
    assert(0 <= lots * lot) by (nonlinear_arith)
        requires
            0 <= lots,
            1 <= lot,
    ;
}

/// A purchase that is not of an option is a whole number of lots, and another lot would cost
/// more than one trade may; without a price it is one lot.
pub proof fn equity_purchase_is_as_large_as_allowed(
    signal: TradeSignalView,
    lot: int,
    cfg: TradingConfigView,
    ltp: Option<i64>,
)
    requires
        signal.option_type is None,
        1 <= lot <= i32::MAX,
        ltp is Some && ltp->0 > 0 ==> cfg.max_trade_amount_inr as int / ltp->0 as int <= i32::MAX,
    ensures
        ({
            let q = entry_qty(signal, lot, None, cfg, ltp);
            &&& q >= lot && q % lot == 0
            &&& ltp is None || ltp->0 <= 0 ==> q == lot
            &&& ltp is Some && ltp->0 > 0 ==> (q + lot) * ltp->0 > cfg.max_trade_amount_inr
        }),
{
    let q = entry_qty(signal, lot, None, cfg, ltp);
    vstd::arithmetic::div_mod::lemma_mod_multiples_basic(1, lot);
    if ltp is Some && ltp->0 > 0 {
        let price = ltp->0 as int;
        let most = cfg.max_trade_amount_inr as int;
        let raw = larger(fit32(most / price), 1);
        lemma_part_of(raw, lot);
        vstd::arithmetic::div_mod::lemma_mod_multiples_basic(raw / lot, lot);
        assert(q + lot > raw);
        assert(raw >= most / price);
        assert((q + lot) * price > most) by (nonlinear_arith)
            requires
                q + lot >= most / price + 1,
                price > 0,
        ;
        if raw >= lot {
            assert(raw / lot >= 1) by (nonlinear_arith)
                requires
                    raw >= lot,
                    lot >= 1,
            ;
            assert((raw / lot) * lot >= lot) by (nonlinear_arith)
                requires
                    raw / lot >= 1,
                    lot >= 1,
            ;
        }
    }
}

/// A lot size that is not positive counts as one.
pub proof fn a_lot_has_at_least_one_unit(
    signal: TradeSignalView,
    lot: int,
    override_qty: Option<i32>,
    cfg: TradingConfigView,
    ltp: Option<i64>,
    held: int,
    pct: int,
)
    requires
        lot <= 0,
    ensures
        entry_qty(signal, lot, override_qty, cfg, ltp) == entry_qty(
            signal,
            1,
            override_qty,
            cfg,
            ltp,
        ),
        slice_at_target1(held, lot, pct) == slice_at_target1(held, 1, pct),
{
}

/// No more is sold at target 1 than the share that was asked for, rounded up to the next lot:
/// a lot less would not make up the share, unless a single lot or the whole holding is sold.
pub proof fn slice_is_no_larger_than_needed(held: i32, lot: i32, pct: i64)
    requires
        1 <= lot < held,
        pct >= 0,
    ensures
        ({
            let slice = slice_at_target1(held as int, lot as int, pct as int);
            slice == lot || slice == held || (slice - lot) * 100_000_000 < held * pct
        }),
{
    let d = 100 * UNIT * lot;
    let need = ceil_div(held * pct, d);
    let lots = larger(fit32(need), 1);
    assert(d > 0) by (nonlinear_arith)
        requires
            d == 100 * UNIT * lot,
            lot >= 1,
    ;
    lemma_ceil_is_least(held * pct, d);
    if lots > 1 && lots * lot < held {
        assert(lots < i32::MAX) by (nonlinear_arith)
            requires
                lots * lot < held,
                held <= i32::MAX,
                lot >= 1,
                lots > 1,
        ;
        assert(lots == need);
        assert((lots - 1) * d == (lots * lot - lot) * 100_000_000) by (nonlinear_arith)
            requires
                d == 100 * 1_000_000 * lot,
        ;
    }
    if lots == 1 {
        assert(lots * lot == lot);
    }
}

proof fn lemma_ceil_is_least(a: int, b: int)
    by (nonlinear_arith)
    requires
        b > 0,
    ensures
        (ceil_div(a, b) - 1) * b < a,
{
}

/// Everything is sold at target 1 where the share is the whole, or where no more than a lot is
/// held.
pub proof fn a_whole_share_sells_everything(held: i32, lot: i32, pct: i64)
    requires
        lot >= 1,
        held > 0,
    ensures
        held <= lot || pct >= 100_000_000 ==> slice_at_target1(
            held as int,
            lot as int,
            pct as int,
        ) == held,
{
    if held > lot && pct >= 100_000_000 {
        let d = 100 * UNIT * lot;
        assert(d > 0) by (nonlinear_arith)
            requires
                d == 100 * UNIT * lot,
                lot >= 1,
        ;
        let need = ceil_div(held * pct, d);
        lemma_ceil_covers(held * pct, d);
        assert(need * lot >= held) by (nonlinear_arith)
            requires
                held * pct <= need * d,
                d == 100 * 1_000_000 * lot,
                pct >= 100_000_000,
                held > 0,
                lot >= 1,
        ;
        let lots = larger(fit32(need), 1);
        if need > i32::MAX {
            assert(lots * lot >= held) by (nonlinear_arith)
                requires
                    lots == i32::MAX,
                    lot >= 1,
                    held <= i32::MAX,
            ;
        }
        assert(need >= 1) by (nonlinear_arith)
            requires
                need * lot >= held,
                held > 0,
                lot >= 1,
        ;
    }
}

/// A simulated sale at target 1 is the largest number of whole lots within the share that was
/// asked for, unless that is less than a lot: it is then a lot, or what is held if that is less.
pub proof fn paper_slice_is_the_share(held: i32, lot: i32, pct: i64)
    requires
        lot >= 1,
        held > 0,
        pct >= 0,
    ensures
        ({
            let s = paper_slice(held as int, lot as int, pct as int);
            let share = smaller(held * pct, held * 100_000_000);
            &&& share >= lot * 100_000_000 ==> s % (lot as int) == 0 && s * 100_000_000 <= share < (
            s + lot) * 100_000_000
            &&& share < lot * 100_000_000 && held >= lot ==> s == lot
            &&& held < lot ==> s == held
        }),
{
    let l = lot as int;
    let h = held as int;
    let p = held * pct;
    assert(p >= 0) by (nonlinear_arith)
        requires
            p == held * pct,
            held > 0,
            pct >= 0,
    ;
    let q = p / 100_000_000;
    let raw = smaller(larger(fit32(q), 1), h);
    lemma_part_of(raw, l);
    vstd::arithmetic::div_mod::lemma_mod_multiples_basic(raw / l, l);
    if raw < l {
        assert(raw / l == 0) by (nonlinear_arith)
            requires
                0 <= raw < l,
        ;
        assert((raw / l) * l == 0);
    } else {
        assert(raw / l >= 1) by (nonlinear_arith)
            requires
                raw >= l,
                l >= 1,
        ;
        assert((raw / l) * l >= l) by (nonlinear_arith)
            requires
                raw / l >= 1,
                l >= 1,
        ;
    }
    if raw == l {
        assert((raw / l) * l == l) by (nonlinear_arith)
            requires
                raw == l,
                l >= 1,
        ;
    }
}

/// The indices are the four whose name ends in `NIFTY`, and two others; a name that only holds
/// one of these is none.
pub proof fn four_nifties_and_two_others(prefix: Seq<char>, s: Seq<char>)
    ensures
        index_name(prefix + "NIFTY"@) <==> prefix.len() == 0 || prefix == "BANK"@ || prefix
            == "FIN"@ || prefix == "MIDCP"@,
        index_name(s) && !finishes_with(s, "NIFTY"@) ==> s == "SENSEX"@ || s == "BANKEX"@,
        s == "SENSEX"@ || s == "BANKEX"@ ==> index_name(s),
{
    reveal_strlit("NIFTY");
    reveal_strlit("BANKNIFTY");
    reveal_strlit("FINNIFTY");
    reveal_strlit("MIDCPNIFTY");
    reveal_strlit("SENSEX");
    reveal_strlit("BANKEX");
    reveal_strlit("BANK");
    reveal_strlit("FIN");
    reveal_strlit("MIDCP");
    let tail = "NIFTY"@;
    assert("BANKNIFTY"@ =~= "BANK"@ + tail);
    assert("FINNIFTY"@ =~= "FIN"@ + tail);
    assert("MIDCPNIFTY"@ =~= "MIDCP"@ + tail);
    let name = prefix + tail;
    assert(name.last() == 'Y' && "SENSEX"@.last() == 'X' && "BANKEX"@.last() == 'X');
    assert(name.take(prefix.len() as int) =~= prefix);
    assert(("BANK"@ + tail).take(4) =~= "BANK"@);
    assert(("FIN"@ + tail).take(3) =~= "FIN"@);
    assert(("MIDCP"@ + tail).take(5) =~= "MIDCP"@);
    if prefix.len() == 0 {
        assert(name =~= tail);
    }
    if index_name(s) {
        pieces_stand_in_their_text("BANK"@, tail, Seq::empty());
        pieces_stand_in_their_text("FIN"@, tail, Seq::empty());
        pieces_stand_in_their_text("MIDCP"@, tail, Seq::empty());
        pieces_stand_in_their_text(Seq::empty(), tail, Seq::empty());
        assert(Seq::<char>::empty() + tail =~= tail);
    }
}

} // verus!
