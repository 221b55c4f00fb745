//! The words in which things are reported.
use vstd::prelude::*;

use crate::decimal::{plain, round2, to_i64, two_place_text};
use crate::desk::{trade_profit, Notice, NoticeCode, TradeFill};
use crate::domain::ChargeBreakdown;
use crate::execute::FUNDS_BUFFER;
use crate::text::{i64_text, same_text};

#[allow(unused_imports)]
use crate::decimal::{fit64, plain_text, to_paise, two_places};
#[allow(unused_imports)]
use crate::desk::{profit, NoticeView, TradeFillView};
#[allow(unused_imports)]
use crate::text::{begins_with, finishes_with, int_text, pieces_stand_in_their_text};

verus! {

/// The value of the order that a report on missing funds is about.
pub open spec fn order_value(n: NoticeView) -> int {
    fit64(n.qty * n.price)
}

/// What the account must show for that order.
pub open spec fn funds_needed(n: NoticeView) -> int {
    fit64(n.qty * n.price + FUNDS_BUFFER)
}

proof fn lemma_value_fits(a: i64, b: i64)
    ensures
        -0x4000_0000_0000_0000_0000_0000_0000_0000 <= a * b
            <= 0x4000_0000_0000_0000_0000_0000_0000_0000,
{
    assert(-0x4000_0000_0000_0000_0000_0000_0000_0000 <= a * b
        <= 0x4000_0000_0000_0000_0000_0000_0000_0000) by (nonlinear_arith)
        requires
            -0x8000_0000_0000_0000 <= a <= 0x7fff_ffff_ffff_ffff,
            -0x8000_0000_0000_0000 <= b <= 0x7fff_ffff_ffff_ffff,
    ;
}

fn value_of(n: &Notice) -> (res: i64)
    ensures
        res == order_value(n@),
{
    proof {
        lemma_value_fits(n.qty, n.price);
    }
    to_i64(n.qty as i128 * n.price as i128)
}

fn funds_for(n: &Notice) -> (res: i64)
    ensures
        res == funds_needed(n@),
{
    proof {
        lemma_value_fits(n.qty, n.price);
    }
    to_i64(n.qty as i128 * n.price as i128 + FUNDS_BUFFER as i128)
}

/// The words of a report. Those that only name what happened have none.
pub open spec fn words(n: NoticeView) -> Seq<char> {
    match n.code {
        NoticeCode::EntryPriceMissing => "entry order "@ + n.order_id + " filled "@ + int_text(n.qty as int) + " but the broker reported no average price — booking it at the signal entry "@ + two_places(n.price as int) + ", verify against the contract note"@,
        NoticeCode::EntryPartlyFilled => "entry order "@ + n.order_id + " filled only "@ + int_text(n.qty as int) + " of "@ + int_text(n.other_qty as int) + " — running the position on the filled quantity"@,
        NoticeCode::EntryNotFilled => "entry order "@ + n.order_id + " came back "@ + n.detail + " ("@ + n.cause + ") with nothing filled — signal dropped"@,
        NoticeCode::StopWithoutFill => "stop-loss order "@ + n.order_id + " reports complete but gave no usable fill data (qty "@ + int_text(n.qty as int) + ", avg "@ + plain_text(n.price as int) + ") — reconcile the position manually"@,
        NoticeCode::StopGone => "stop-loss order "@ + n.order_id + " is "@ + n.detail + " at the broker ("@ + n.cause + ") — the position is unprotected and a new stop will be placed"@,
        NoticeCode::ExitUnfilled => "cancelled (IOC or manual) with 0 fill — retrying next tick"@,
        NoticeCode::ExitNotFilled => "exit order "@ + n.order_id + " ("@ + n.reason + ") came back "@ + n.detail + " ("@ + n.cause + ") with nothing sold"@,
        NoticeCode::ExitShort => "exit order "@ + n.order_id + " ("@ + n.reason + ") filled "@ + int_text(n.qty as int) + " of "@ + int_text(n.other_qty as int) + " — squaring off the remainder"@,
        NoticeCode::DuplicatePositions => "more than one open position is tracked on "@ + n.detail + " — the engine cannot tell whose quantity or stop is whose, so it will not act on any of them; resolve it at the broker terminal"@,
        NoticeCode::StaleEntryOrder => "stale entry order id cleared at startup"@,
        NoticeCode::NothingAtBroker => "the broker shows no open quantity for "@ + n.detail + " but the engine thought it held "@ + int_text(n.qty as int) + " — closing it here; check the contract note for the exit that went unrecorded"@,
        NoticeCode::QuantityAdopted => "engine held "@ + int_text(n.qty as int) + " of "@ + n.detail + " but the broker shows "@ + int_text(n.other_qty as int) + " — adopting the broker's quantity"@,
        NoticeCode::StopAdopted => "adopting sell order "@ + n.order_id + " ("@ + int_text(n.qty as int) + " @ trigger "@ + two_places(n.price as int) + ") as this position's stop — it was resting at the broker but missing from the engine's snapshot"@,
        NoticeCode::ManyRestingSales => int_text(n.qty as int) + " sell orders are resting against "@ + n.detail + " — the engine cannot tell which one is the stop, so it will not act on this position at all; resolve it at the broker terminal"@,
        NoticeCode::UntrackedHolding => "the broker holds "@ + int_text(n.qty as int) + " of "@ + n.instrument + " which the engine is not tracking — it will not be protected or squared off automatically"@,
        NoticeCode::UntrackedSale => "sell order "@ + n.order_id + " on "@ + n.instrument + " is working at the broker with no matching tracked position — left alone, cancel it manually if it is stale"@,
        NoticeCode::PositionsUnreadButIdle => "startup reconciliation could not read positions ("@ + n.detail + ") — proceeding anyway because nothing is currently tracked, so there is nothing to mis-protect; any broker-side holding this engine doesn't already know about will NOT be flagged until positions-read works again"@,
        NoticeCode::PositionsUnread => "startup reconciliation could not read positions ("@ + n.detail + ") — engine state is unverified against the broker, check the terminal before trading"@,
        NoticeCode::BookUnread => "startup reconciliation could not read the order book ("@ + n.detail + ") — resting orders are unverified, check the terminal before trading"@,
        NoticeCode::FundsShort => "not enough funds for "@ + int_text(n.qty as int) + " @ ~₹"@ + two_places(n.price as int) + ": needs ₹"@ + two_places(funds_needed(n)) + " (₹"@ + two_places(order_value(n)) + " order + ₹500 buffer) but only ₹"@ + two_places(n.level as int) + " is available — signal dropped"@,
        NoticeCode::FundsUnread => "could not read account limits ("@ + n.detail + ") — entry not placed because funds cannot be verified, signal dropped"@,
        NoticeCode::EntryRejected => "entry market buy for "@ + int_text(n.qty as int) + " was rejected: "@ + n.detail + " — signal dropped, it will not be retried"@,
        NoticeCode::EntryCancelFailed => "could not cancel in-flight entry order "@ + n.order_id + " ("@ + n.reason + "): "@ + n.detail + " — it may still fill, leaving the position open"@,
        NoticeCode::EntryRefused => "entry not taken — "@ + n.reason,
        NoticeCode::Target1Rejected => "target-1 sell of "@ + int_text(n.qty as int) + " was rejected: "@ + n.detail + " — still holding the full "@ + int_text(n.other_qty as int) + " at the trailed stop, squaring off at market"@,
        NoticeCode::ManualSellRejected => "manual sell of "@ + int_text(n.qty as int) + " was rejected: "@ + n.detail + " — still holding the full "@ + int_text(n.other_qty as int) + ", nothing changed, try again"@,
        NoticeCode::StopCancelFailed => "could not cancel stop-loss "@ + n.order_id + " before the "@ + n.reason + " exit ("@ + n.detail + ") — holding the market sell back so we cannot end up short"@,
        NoticeCode::StopAlreadyGone => "stop-loss "@ + n.order_id + " was already inactive at the broker ("@ + n.detail + ") — proceeding with the "@ + n.reason + " market exit"@,
        NoticeCode::ExitRejected => "market exit ("@ + n.reason + ") for "@ + int_text(n.qty as int) + " was rejected: "@ + n.detail + " — the position is unprotected until a new stop is placed"@,
        NoticeCode::OutcomeUnknown => "an order for "@ + int_text(n.qty as int) + " got no definite answer: "@ + n.detail + " — it may or may not have reached the broker, so no further orders will be sent for this position; check the broker terminal"@,
        NoticeCode::ExitsGivenUp => "giving up after 3 failed exit attempts — no further orders will be sent for this position, square it off manually"@,
        NoticeCode::ReconcileClosed => "manually reconciled: "@ + n.instrument + " marked closed (broker shows no open quantity)"@,
        NoticeCode::ReconcileAdopted => "manually reconciled: "@ + n.instrument + " executed_qty adopted from broker ("@ + int_text(n.qty as int) + ")"@,
        NoticeCode::AdoptAlreadyTracked => "manual adopt skipped: "@ + n.instrument + " is already a tracked position"@,
        NoticeCode::AdoptNotHeld => "manual adopt failed: "@ + n.instrument + " no longer shows an open quantity at the broker"@,
        NoticeCode::AdoptZero => "manual adopt skipped: "@ + n.instrument + " broker quantity is now zero"@,
        NoticeCode::AdoptNoContracts => "manual adopt failed: Scrip Master not loaded"@,
        NoticeCode::AdoptUnknownContract => "manual adopt failed: "@ + n.instrument + " not found in Scrip Master"@,
        NoticeCode::Adopted => "manually adopted "@ + n.instrument + " — qty "@ + int_text(n.qty as int) + " @ ₹"@ + two_places(n.price as int) + " ("@ + n.reason + "), SL ₹"@ + two_places(n.level as int) + ", target ₹"@ + two_places(n.target as int),
        NoticeCode::UpdateUnmatched => "SL update ignored — no open position for the replied-to signal (new_sl "@ + two_places(n.price as int) + ")"@,
        NoticeCode::ExitUnmatched => "Exit command ignored — no open position for the replied-to signal (exit "@ + two_places(n.price as int) + "); square off manually if you meant to be flat"@,
        NoticeCode::SignalWithoutStop => "Signal discarded — no stop-loss parsed; refusing to open an unprotected position"@,
        NoticeCode::SignalWithoutTarget => "Signal discarded — no target parsed; refusing to open an unprotected position"@,
        NoticeCode::SignalExpired => "Parsed expiry ("@ + n.detail + ") is in the past"@,
        NoticeCode::KillSwitchBlocked => "Signal dropped — kill switch is active"@,
        NoticeCode::LotsAreZero => "Signal skipped — lot count for "@ + n.instrument + " is 0; raise Index/Other Lots to trade it"@,
        NoticeCode::NoContracts => "Signal discarded — Scrip Master not loaded"@,
        NoticeCode::UnknownContract => "Could not resolve contract in Scrip Master"@,
        NoticeCode::AlreadyAtTarget => "Signal discarded — already at target 1 ("@ + two_places(n.price as int) + " ≥ "@ + two_places(n.level as int) + "), wrong contract or stale signal"@,
        NoticeCode::ShortNotSupported => "SELL/short signals not yet implemented"@,
        NoticeCode::TradeCancelled => "Trade cancelled: "@ + n.reason,
        _ => Seq::empty(),
    }
}

/// The words of a report.
pub fn notice_words(n: &Notice) -> (res: String)
    ensures
        res@ == words(n@),
{
    match n.code {
        NoticeCode::EntryPriceMissing => {
            let mut out: String = "entry order ".to_string();
            out.append(n.order_id.as_str());
            out.append(" filled ");
            out.append(i64_text(n.qty).as_str());
            out.append(" but the broker reported no average price — booking it at the signal entry ");
            out.append(two_place_text(n.price).as_str());
            out.append(", verify against the contract note");
            out
        },
        NoticeCode::EntryPartlyFilled => {
            let mut out: String = "entry order ".to_string();
            out.append(n.order_id.as_str());
            out.append(" filled only ");
            out.append(i64_text(n.qty).as_str());
            out.append(" of ");
            out.append(i64_text(n.other_qty).as_str());
            out.append(" — running the position on the filled quantity");
            out
        },
        NoticeCode::EntryNotFilled => {
            let mut out: String = "entry order ".to_string();
            out.append(n.order_id.as_str());
            out.append(" came back ");
            out.append(n.detail.as_str());
            out.append(" (");
            out.append(n.cause.as_str());
            out.append(") with nothing filled — signal dropped");
            out
        },
        NoticeCode::StopWithoutFill => {
            let mut out: String = "stop-loss order ".to_string();
            out.append(n.order_id.as_str());
            out.append(" reports complete but gave no usable fill data (qty ");
            out.append(i64_text(n.qty).as_str());
            out.append(", avg ");
            out.append(plain(n.price).as_str());
            out.append(") — reconcile the position manually");
            out
        },
        NoticeCode::StopGone => {
            let mut out: String = "stop-loss order ".to_string();
            out.append(n.order_id.as_str());
            out.append(" is ");
            out.append(n.detail.as_str());
            out.append(" at the broker (");
            out.append(n.cause.as_str());
            out.append(") — the position is unprotected and a new stop will be placed");
            out
        },
        NoticeCode::ExitUnfilled => "cancelled (IOC or manual) with 0 fill — retrying next tick".to_string(),
        NoticeCode::ExitNotFilled => {
            let mut out: String = "exit order ".to_string();
            out.append(n.order_id.as_str());
            out.append(" (");
            out.append(n.reason.as_str());
            out.append(") came back ");
            out.append(n.detail.as_str());
            out.append(" (");
            out.append(n.cause.as_str());
            out.append(") with nothing sold");
            out
        },
        NoticeCode::ExitShort => {
            let mut out: String = "exit order ".to_string();
            out.append(n.order_id.as_str());
            out.append(" (");
            out.append(n.reason.as_str());
            out.append(") filled ");
            out.append(i64_text(n.qty).as_str());
            out.append(" of ");
            out.append(i64_text(n.other_qty).as_str());
            out.append(" — squaring off the remainder");
            out
        },
        NoticeCode::DuplicatePositions => {
            let mut out: String = "more than one open position is tracked on ".to_string();
            out.append(n.detail.as_str());
            out.append(" — the engine cannot tell whose quantity or stop is whose, so it will not act on any of them; resolve it at the broker terminal");
            out
        },
        NoticeCode::StaleEntryOrder => "stale entry order id cleared at startup".to_string(),
        NoticeCode::NothingAtBroker => {
            let mut out: String = "the broker shows no open quantity for ".to_string();
            out.append(n.detail.as_str());
            out.append(" but the engine thought it held ");
            out.append(i64_text(n.qty).as_str());
            out.append(" — closing it here; check the contract note for the exit that went unrecorded");
            out
        },
        NoticeCode::QuantityAdopted => {
            let mut out: String = "engine held ".to_string();
            out.append(i64_text(n.qty).as_str());
            out.append(" of ");
            out.append(n.detail.as_str());
            out.append(" but the broker shows ");
            out.append(i64_text(n.other_qty).as_str());
            out.append(" — adopting the broker's quantity");
            out
        },
        NoticeCode::StopAdopted => {
            let mut out: String = "adopting sell order ".to_string();
            out.append(n.order_id.as_str());
            out.append(" (");
            out.append(i64_text(n.qty).as_str());
            out.append(" @ trigger ");
            out.append(two_place_text(n.price).as_str());
            out.append(") as this position's stop — it was resting at the broker but missing from the engine's snapshot");
            out
        },
        NoticeCode::ManyRestingSales => {
            let mut out: String = i64_text(n.qty);
            out.append(" sell orders are resting against ");
            out.append(n.detail.as_str());
            out.append(" — the engine cannot tell which one is the stop, so it will not act on this position at all; resolve it at the broker terminal");
            out
        },
        NoticeCode::UntrackedHolding => {
            let mut out: String = "the broker holds ".to_string();
            out.append(i64_text(n.qty).as_str());
            out.append(" of ");
            out.append(n.instrument.as_str());
            out.append(" which the engine is not tracking — it will not be protected or squared off automatically");
            out
        },
        NoticeCode::UntrackedSale => {
            let mut out: String = "sell order ".to_string();
            out.append(n.order_id.as_str());
            out.append(" on ");
            out.append(n.instrument.as_str());
            out.append(" is working at the broker with no matching tracked position — left alone, cancel it manually if it is stale");
            out
        },
        NoticeCode::PositionsUnreadButIdle => {
            let mut out: String = "startup reconciliation could not read positions (".to_string();
            out.append(n.detail.as_str());
            out.append(") — proceeding anyway because nothing is currently tracked, so there is nothing to mis-protect; any broker-side holding this engine doesn't already know about will NOT be flagged until positions-read works again");
            out
        },
        NoticeCode::PositionsUnread => {
            let mut out: String = "startup reconciliation could not read positions (".to_string();
            out.append(n.detail.as_str());
            out.append(") — engine state is unverified against the broker, check the terminal before trading");
            out
        },
        NoticeCode::BookUnread => {
            let mut out: String = "startup reconciliation could not read the order book (".to_string();
            out.append(n.detail.as_str());
            out.append(") — resting orders are unverified, check the terminal before trading");
            out
        },
        NoticeCode::FundsShort => {
            let mut out: String = "not enough funds for ".to_string();
            out.append(i64_text(n.qty).as_str());
            out.append(" @ ~₹");
            out.append(two_place_text(n.price).as_str());
            out.append(": needs ₹");
            out.append(two_place_text(funds_for(n)).as_str());
            out.append(" (₹");
            out.append(two_place_text(value_of(n)).as_str());
            out.append(" order + ₹500 buffer) but only ₹");
            out.append(two_place_text(n.level).as_str());
            out.append(" is available — signal dropped");
            out
        },
        NoticeCode::FundsUnread => {
            let mut out: String = "could not read account limits (".to_string();
            out.append(n.detail.as_str());
            out.append(") — entry not placed because funds cannot be verified, signal dropped");
            out
        },
        NoticeCode::EntryRejected => {
            let mut out: String = "entry market buy for ".to_string();
            out.append(i64_text(n.qty).as_str());
            out.append(" was rejected: ");
            out.append(n.detail.as_str());
            out.append(" — signal dropped, it will not be retried");
            out
        },
        NoticeCode::EntryCancelFailed => {
            let mut out: String = "could not cancel in-flight entry order ".to_string();
            out.append(n.order_id.as_str());
            out.append(" (");
            out.append(n.reason.as_str());
            out.append("): ");
            out.append(n.detail.as_str());
            out.append(" — it may still fill, leaving the position open");
            out
        },
        NoticeCode::EntryRefused => {
            let mut out: String = "entry not taken — ".to_string();
            out.append(n.reason.as_str());
            out
        },
        NoticeCode::Target1Rejected => {
            let mut out: String = "target-1 sell of ".to_string();
            out.append(i64_text(n.qty).as_str());
            out.append(" was rejected: ");
            out.append(n.detail.as_str());
            out.append(" — still holding the full ");
            out.append(i64_text(n.other_qty).as_str());
            out.append(" at the trailed stop, squaring off at market");
            out
        },
        NoticeCode::ManualSellRejected => {
            let mut out: String = "manual sell of ".to_string();
            out.append(i64_text(n.qty).as_str());
            out.append(" was rejected: ");
            out.append(n.detail.as_str());
            out.append(" — still holding the full ");
            out.append(i64_text(n.other_qty).as_str());
            out.append(", nothing changed, try again");
            out
        },
        NoticeCode::StopCancelFailed => {
            let mut out: String = "could not cancel stop-loss ".to_string();
            out.append(n.order_id.as_str());
            out.append(" before the ");
            out.append(n.reason.as_str());
            out.append(" exit (");
            out.append(n.detail.as_str());
            out.append(") — holding the market sell back so we cannot end up short");
            out
        },
        NoticeCode::StopAlreadyGone => {
            let mut out: String = "stop-loss ".to_string();
            out.append(n.order_id.as_str());
            out.append(" was already inactive at the broker (");
            out.append(n.detail.as_str());
            out.append(") — proceeding with the ");
            out.append(n.reason.as_str());
            out.append(" market exit");
            out
        },
        NoticeCode::ExitRejected => {
            let mut out: String = "market exit (".to_string();
            out.append(n.reason.as_str());
            out.append(") for ");
            out.append(i64_text(n.qty).as_str());
            out.append(" was rejected: ");
            out.append(n.detail.as_str());
            out.append(" — the position is unprotected until a new stop is placed");
            out
        },
        NoticeCode::OutcomeUnknown => {
            let mut out: String = "an order for ".to_string();
            out.append(i64_text(n.qty).as_str());
            out.append(" got no definite answer: ");
            out.append(n.detail.as_str());
            out.append(" — it may or may not have reached the broker, so no further orders will be sent for this position; check the broker terminal");
            out
        },
        NoticeCode::ExitsGivenUp => "giving up after 3 failed exit attempts — no further orders will be sent for this position, square it off manually".to_string(),
        NoticeCode::ReconcileClosed => {
            let mut out: String = "manually reconciled: ".to_string();
            out.append(n.instrument.as_str());
            out.append(" marked closed (broker shows no open quantity)");
            out
        },
        NoticeCode::ReconcileAdopted => {
            let mut out: String = "manually reconciled: ".to_string();
            out.append(n.instrument.as_str());
            out.append(" executed_qty adopted from broker (");
            out.append(i64_text(n.qty).as_str());
            out.append(")");
            out
        },
        NoticeCode::AdoptAlreadyTracked => {
            let mut out: String = "manual adopt skipped: ".to_string();
            out.append(n.instrument.as_str());
            out.append(" is already a tracked position");
            out
        },
        NoticeCode::AdoptNotHeld => {
            let mut out: String = "manual adopt failed: ".to_string();
            out.append(n.instrument.as_str());
            out.append(" no longer shows an open quantity at the broker");
            out
        },
        NoticeCode::AdoptZero => {
            let mut out: String = "manual adopt skipped: ".to_string();
            out.append(n.instrument.as_str());
            out.append(" broker quantity is now zero");
            out
        },
        NoticeCode::AdoptNoContracts => "manual adopt failed: Scrip Master not loaded".to_string(),
        NoticeCode::AdoptUnknownContract => {
            let mut out: String = "manual adopt failed: ".to_string();
            out.append(n.instrument.as_str());
            out.append(" not found in Scrip Master");
            out
        },
        NoticeCode::Adopted => {
            let mut out: String = "manually adopted ".to_string();
            out.append(n.instrument.as_str());
            out.append(" — qty ");
            out.append(i64_text(n.qty).as_str());
            out.append(" @ ₹");
            out.append(two_place_text(n.price).as_str());
            out.append(" (");
            out.append(n.reason.as_str());
            out.append("), SL ₹");
            out.append(two_place_text(n.level).as_str());
            out.append(", target ₹");
            out.append(two_place_text(n.target).as_str());
            out
        },
        NoticeCode::UpdateUnmatched => {
            let mut out: String = "SL update ignored — no open position for the replied-to signal (new_sl ".to_string();
            out.append(two_place_text(n.price).as_str());
            out.append(")");
            out
        },
        NoticeCode::ExitUnmatched => {
            let mut out: String = "Exit command ignored — no open position for the replied-to signal (exit ".to_string();
            out.append(two_place_text(n.price).as_str());
            out.append("); square off manually if you meant to be flat");
            out
        },
        NoticeCode::SignalWithoutStop => "Signal discarded — no stop-loss parsed; refusing to open an unprotected position".to_string(),
        NoticeCode::SignalWithoutTarget => "Signal discarded — no target parsed; refusing to open an unprotected position".to_string(),
        NoticeCode::SignalExpired => {
            let mut out: String = "Parsed expiry (".to_string();
            out.append(n.detail.as_str());
            out.append(") is in the past");
            out
        },
        NoticeCode::KillSwitchBlocked => "Signal dropped — kill switch is active".to_string(),
        NoticeCode::LotsAreZero => {
            let mut out: String = "Signal skipped — lot count for ".to_string();
            out.append(n.instrument.as_str());
            out.append(" is 0; raise Index/Other Lots to trade it");
            out
        },
        NoticeCode::NoContracts => "Signal discarded — Scrip Master not loaded".to_string(),
        NoticeCode::UnknownContract => "Could not resolve contract in Scrip Master".to_string(),
        NoticeCode::AlreadyAtTarget => {
            let mut out: String = "Signal discarded — already at target 1 (".to_string();
            out.append(two_place_text(n.price).as_str());
            out.append(" ≥ ");
            out.append(two_place_text(n.level).as_str());
            out.append("), wrong contract or stale signal");
            out
        },
        NoticeCode::ShortNotSupported => "SELL/short signals not yet implemented".to_string(),
        NoticeCode::TradeCancelled => {
            let mut out: String = "Trade cancelled: ".to_string();
            out.append(n.reason.as_str());
            out
        },
        _ => String::new(),
    }
}

/// The name by which a report goes. What only the server itself takes note of has none.
pub open spec fn event(code: NoticeCode) -> Seq<char> {
    match code {
        NoticeCode::ExitUnfilled => "EXIT_ORDER_UNFILLED"@,
        NoticeCode::StartupReconciled => "LIVE_STARTUP_RECONCILED"@,
        NoticeCode::EntryPlaced => "LIVE_ENTRY_PLACED"@,
        NoticeCode::EntryAbandoned => "ENTRY_ABANDONED"@,
        NoticeCode::StopTrailed => "SL_TRAILED"@,
        NoticeCode::ExitPlaced => "LIVE_EXIT_PLACED"@,
        NoticeCode::TrailArmed => "PRE_T1_TRAIL_ARMED"@,
        NoticeCode::ReconcileAck => "RECONCILE_ACK"@,
        NoticeCode::SignalUpdated => "SIGNAL_UPDATED"@,
        NoticeCode::SignalExited => "SIGNAL_EXITED"@,
        NoticeCode::KillSwitchBlocked => "KILL_SWITCH_BLOCKED"@,
        NoticeCode::UpdateUnmatched => "ERROR"@,
        NoticeCode::ExitUnmatched => "ERROR"@,
        NoticeCode::SignalWithoutStop => "ERROR"@,
        NoticeCode::SignalWithoutTarget => "ERROR"@,
        NoticeCode::SignalExpired => "ERROR"@,
        NoticeCode::LotsAreZero => "ERROR"@,
        NoticeCode::NoContracts => "ERROR"@,
        NoticeCode::UnknownContract => "ERROR"@,
        NoticeCode::AlreadyAtTarget => "ERROR"@,
        NoticeCode::TradeCancelled => "ERROR"@,
        NoticeCode::StaleEntryOrder => Seq::empty(),
        NoticeCode::ShortNotSupported => Seq::empty(),
        _ => "LIVE_ERROR"@,
    }
}

/// The name by which a report goes.
pub fn event_name(code: NoticeCode) -> (res: String)
    ensures
        res@ == event(code),
{
    match code {
        NoticeCode::ExitUnfilled => "EXIT_ORDER_UNFILLED".to_string(),
        NoticeCode::StartupReconciled => "LIVE_STARTUP_RECONCILED".to_string(),
        NoticeCode::EntryPlaced => "LIVE_ENTRY_PLACED".to_string(),
        NoticeCode::EntryAbandoned => "ENTRY_ABANDONED".to_string(),
        NoticeCode::StopTrailed => "SL_TRAILED".to_string(),
        NoticeCode::ExitPlaced => "LIVE_EXIT_PLACED".to_string(),
        NoticeCode::TrailArmed => "PRE_T1_TRAIL_ARMED".to_string(),
        NoticeCode::ReconcileAck => "RECONCILE_ACK".to_string(),
        NoticeCode::SignalUpdated => "SIGNAL_UPDATED".to_string(),
        NoticeCode::SignalExited => "SIGNAL_EXITED".to_string(),
        NoticeCode::KillSwitchBlocked => "KILL_SWITCH_BLOCKED".to_string(),
        NoticeCode::UpdateUnmatched => "ERROR".to_string(),
        NoticeCode::ExitUnmatched => "ERROR".to_string(),
        NoticeCode::SignalWithoutStop => "ERROR".to_string(),
        NoticeCode::SignalWithoutTarget => "ERROR".to_string(),
        NoticeCode::SignalExpired => "ERROR".to_string(),
        NoticeCode::LotsAreZero => "ERROR".to_string(),
        NoticeCode::NoContracts => "ERROR".to_string(),
        NoticeCode::UnknownContract => "ERROR".to_string(),
        NoticeCode::AlreadyAtTarget => "ERROR".to_string(),
        NoticeCode::TradeCancelled => "ERROR".to_string(),
        NoticeCode::StaleEntryOrder => String::new(),
        NoticeCode::ShortNotSupported => String::new(),
        _ => "LIVE_ERROR".to_string(),
    }
}

/// How grave a report is.
pub open spec fn level(n: NoticeView) -> Seq<char> {
    if n.loud {
        "ERROR"@
    } else if n.code == NoticeCode::KillSwitchBlocked {
        "WARN"@
    } else {
        "INFO"@
    }
}

/// How grave a report is.
pub fn level_name(n: &Notice) -> (res: String)
    ensures
        res@ == level(n@),
{
    if n.loud {
        "ERROR".to_string()
    } else if n.code == NoticeCode::KillSwitchBlocked {
        "WARN".to_string()
    } else {
        "INFO".to_string()
    }
}

/// The words for an order of a closed position that could not be cancelled.
pub fn orphan_words(order_id: &str, cause: &str) -> (res: String)
    ensures
        res@ == "order "@ + order_id@
            + " was still live on a closed position and could not be cancelled: "@ + cause@
            + " — check the broker terminal"@,
{
    let mut out: String = "order ".to_string();
    out.append(order_id);
    out.append(" was still live on a closed position and could not be cancelled: ");
    out.append(cause);
    out.append(" — check the broker terminal");
    out
}

/// The words for the rest of an entry that could not be cancelled.
pub fn remainder_words(order_id: &str, cause: &str) -> (res: String)
    ensures
        res@ == "could not cancel the unfilled remainder of entry order "@ + order_id@ + ": "@
            + cause@,
{
    let mut out: String = "could not cancel the unfilled remainder of entry order ".to_string();
    out.append(order_id);
    out.append(": ");
    out.append(cause);
    out
}

// ---------------------------------------------------------------------------
// Lines
// ---------------------------------------------------------------------------

/// A value in a line of the report.
#[derive(Debug)]
pub enum LineValue {
    Text(String),
    Number(i64),
    /// An amount of money, in millionths.
    Amount(i64),
    Flag(bool),
}

/// A named value in a line of the report.
#[derive(Debug)]
pub struct LineField {
    pub name: String,
    pub value: LineValue,
}

/// What a [`LineValue`] says.
pub ghost enum LineValueView {
    Text(Seq<char>),
    Number(i64),
    Amount(i64),
    Flag(bool),
}

/// What a [`LineField`] says.
#[verifier::ext_equal]
pub ghost struct LineFieldView {
    pub name: Seq<char>,
    pub value: LineValueView,
}

impl View for LineField {
    type V = LineFieldView;

    open spec fn view(&self) -> LineFieldView {
        LineFieldView {
            name: self.name@,
            value: match self.value {
                LineValue::Text(s) => LineValueView::Text(s@),
                LineValue::Number(v) => LineValueView::Number(v),
                LineValue::Amount(v) => LineValueView::Amount(v),
                LineValue::Flag(b) => LineValueView::Flag(b),
            },
        }
    }
}

/// The fields of a line, each by what it says.
pub open spec fn line_view(s: Seq<LineField>) -> Seq<LineFieldView> {
    s.map_values(|f: LineField| f@)
}

/// A field that holds a text.
pub open spec fn text_field(name: Seq<char>, s: Seq<char>) -> LineFieldView {
    LineFieldView { name, value: LineValueView::Text(s) }
}

/// A field that holds a number.
pub open spec fn number_field(name: Seq<char>, v: i64) -> LineFieldView {
    LineFieldView { name, value: LineValueView::Number(v) }
}

/// A field that holds an amount of money.
pub open spec fn amount_field(name: Seq<char>, v: i64) -> LineFieldView {
    LineFieldView { name, value: LineValueView::Amount(v) }
}

/// A field that holds a flag.
pub open spec fn flag_field(name: Seq<char>, b: bool) -> LineFieldView {
    LineFieldView { name, value: LineValueView::Flag(b) }
}

fn put(out: &mut Vec<LineField>, name: &str, value: LineValue)
    ensures
        final(out)@.len() == old(out)@.len() + 1,
        line_view(final(out)@) == line_view(old(out)@).push(final(out)@.last()@),
        final(out)@.last().name@ == name@,
        final(out)@.last().value == value,
{
    out.push(LineField { name: name.to_string(), value });
    assert(line_view(out@) =~= line_view(old(out)@).push(out@.last()@));
}

fn put_text(out: &mut Vec<LineField>, name: &str, s: &str)
    ensures
        line_view(final(out)@) == line_view(old(out)@).push(text_field(name@, s@)),
{
    put(out, name, LineValue::Text(s.to_string()));
}

fn put_number(out: &mut Vec<LineField>, name: &str, v: i64)
    ensures
        line_view(final(out)@) == line_view(old(out)@).push(number_field(name@, v)),
{
    put(out, name, LineValue::Number(v));
}

fn put_amount(out: &mut Vec<LineField>, name: &str, v: i64)
    ensures
        line_view(final(out)@) == line_view(old(out)@).push(amount_field(name@, v)),
{
    put(out, name, LineValue::Amount(v));
}

fn put_flag(out: &mut Vec<LineField>, name: &str, b: bool)
    ensures
        line_view(final(out)@) == line_view(old(out)@).push(flag_field(name@, b)),
{
    put(out, name, LineValue::Flag(b));
}

/// What the line on a report holds besides the name of the report and the mode.
pub open spec fn line_body(n: NoticeView, live: bool) -> Seq<LineFieldView> {
    match n.code {
        NoticeCode::StartupReconciled => seq![
            number_field("positions"@, n.qty),
            flag_field("positions_verified"@, n.other_qty == 1),
        ],
        NoticeCode::EntryPlaced => seq![
            text_field("instrument"@, n.instrument),
            text_field("order_id"@, n.order_id),
            number_field("qty"@, n.qty),
        ],
        NoticeCode::ExitPlaced => seq![
            text_field("instrument"@, n.instrument),
            text_field("order_id"@, n.order_id),
            number_field("qty"@, n.qty),
            text_field("reason"@, n.reason),
        ],
        NoticeCode::ExitUnfilled => seq![
            text_field("instrument"@, n.instrument),
            text_field("order_id"@, n.order_id),
            text_field("reason"@, n.reason),
            text_field("note"@, words(n)),
        ],
        NoticeCode::EntryAbandoned => seq![
            text_field("instrument"@, n.instrument),
            text_field("reason"@, n.reason),
        ],
        NoticeCode::TrailArmed => seq![
            text_field("instrument"@, n.instrument),
            amount_field("new_sl"@, fit64(to_paise(n.price as int)) as i64),
        ],
        NoticeCode::SignalUpdated => seq![
            text_field("instrument"@, n.instrument),
            amount_field("new_sl"@, n.price),
        ],
        NoticeCode::SignalExited => seq![
            text_field("instrument"@, n.instrument),
            amount_field("exit_price"@, fit64(to_paise(n.price as int)) as i64),
        ],
        NoticeCode::ReconcileAck => seq![
            text_field("instrument"@, n.instrument),
        ],
        NoticeCode::AlreadyAtTarget => seq![
            text_field("instrument"@, n.instrument),
            text_field("message"@, words(n)),
            amount_field("price"@, fit64(to_paise(n.price as int)) as i64),
        ],
        NoticeCode::StopTrailed => seq![
            text_field("instrument"@, n.instrument),
            amount_field(
                "new_sl"@,
                if live {
                    n.price
                } else {
                    fit64(to_paise(n.price as int)) as i64
                },
            ),
        ] + (if n.qty != 0 {
            seq![number_field("qty"@, n.qty)]
        } else {
            Seq::empty()
        }) + (if n.level != 0 {
            seq![amount_field("next_target"@, n.level)]
        } else {
            Seq::empty()
        }),
        _ => seq![text_field("instrument"@, n.instrument), text_field("message"@, words(n))],
    }
}

/// Whether the line on a report names the mode while trading live: one that went wrong does
/// not, nor one that is about a signal or an answer.
pub open spec fn names_mode(n: NoticeView) -> bool {
    !n.loud && n.code != NoticeCode::SignalUpdated && n.code != NoticeCode::SignalExited && n.code
        != NoticeCode::KillSwitchBlocked && n.code != NoticeCode::ReconcileAck
}

/// The line on a report.
pub open spec fn notice_line_of(n: NoticeView, live: bool) -> Seq<LineFieldView> {
    seq![text_field("event"@, event(n.code))] + line_body(n, live) + if live && names_mode(n) {
        seq![text_field("mode"@, "LIVE"@)]
    } else {
        Seq::empty()
    }
}

/// The line on a report.
pub fn notice_line(n: &Notice, live: bool) -> (res: Vec<LineField>)
    ensures
        line_view(res@) == notice_line_of(n@, live),
{
    let mut out: Vec<LineField> = Vec::new();
    assert(line_view(out@) =~= Seq::empty());
    put_text(&mut out, "event", event_name(n.code).as_str());
    match n.code {
        NoticeCode::StartupReconciled => {
            put_number(&mut out, "positions", n.qty);
            put_flag(&mut out, "positions_verified", n.other_qty == 1);
        },
        NoticeCode::EntryPlaced => {
            put_text(&mut out, "instrument", n.instrument.as_str());
            put_text(&mut out, "order_id", n.order_id.as_str());
            put_number(&mut out, "qty", n.qty);
        },
        NoticeCode::ExitPlaced => {
            put_text(&mut out, "instrument", n.instrument.as_str());
            put_text(&mut out, "order_id", n.order_id.as_str());
            put_number(&mut out, "qty", n.qty);
            put_text(&mut out, "reason", n.reason.as_str());
        },
        NoticeCode::ExitUnfilled => {
            put_text(&mut out, "instrument", n.instrument.as_str());
            put_text(&mut out, "order_id", n.order_id.as_str());
            put_text(&mut out, "reason", n.reason.as_str());
            put_text(&mut out, "note", notice_words(n).as_str());
        },
        NoticeCode::EntryAbandoned => {
            put_text(&mut out, "instrument", n.instrument.as_str());
            put_text(&mut out, "reason", n.reason.as_str());
        },
        NoticeCode::TrailArmed => {
            put_text(&mut out, "instrument", n.instrument.as_str());
            put_amount(&mut out, "new_sl", round2(n.price));
        },
        NoticeCode::SignalUpdated => {
            put_text(&mut out, "instrument", n.instrument.as_str());
            put_amount(&mut out, "new_sl", n.price);
        },
        NoticeCode::SignalExited => {
            put_text(&mut out, "instrument", n.instrument.as_str());
            put_amount(&mut out, "exit_price", round2(n.price));
        },
        NoticeCode::ReconcileAck => {
            put_text(&mut out, "instrument", n.instrument.as_str());
        },
        NoticeCode::AlreadyAtTarget => {
            put_text(&mut out, "instrument", n.instrument.as_str());
            put_text(&mut out, "message", notice_words(n).as_str());
            put_amount(&mut out, "price", round2(n.price));
        },
        NoticeCode::StopTrailed => {
            put_text(&mut out, "instrument", n.instrument.as_str());
            let stop: i64 = if live {
                n.price
            } else {
                round2(n.price)
            };
            put_amount(&mut out, "new_sl", stop);
            if n.qty != 0 {
                put_number(&mut out, "qty", n.qty);
            }
            if n.level != 0 {
                put_amount(&mut out, "next_target", n.level);
            }
        },
        _ => {
            put_text(&mut out, "instrument", n.instrument.as_str());
            put_text(&mut out, "message", notice_words(n).as_str());
        },
    }
    assert(line_view(out@) =~= seq![text_field("event"@, event(n.code))] + line_body(n@, live));
    let quiet: bool = match n.code {
        NoticeCode::SignalUpdated => true,
        NoticeCode::SignalExited => true,
        NoticeCode::KillSwitchBlocked => true,
        NoticeCode::ReconcileAck => true,
        _ => false,
    };
    if live && !n.loud && !quiet {
        put_text(&mut out, "mode", "LIVE");
    }
    assert(line_view(out@) =~= notice_line_of(n@, live));
    out
}

/// The line on a trade: what was paid for a purchase, what a sale brought in.
pub open spec fn trade_line_of(fill: TradeFillView, net_value: int) -> Seq<LineFieldView> {
    seq![
        text_field("event"@, fill.reason),
        text_field("instrument"@, fill.instrument),
        amount_field("price"@, fit64(to_paise(fill.price as int)) as i64),
        number_field("qty"@, fill.qty as i64),
        if fill.buy {
            amount_field("net_cost"@, fit64(to_paise(net_value)) as i64)
        } else {
            amount_field("pnl"@, fit64(to_paise(profit(fill, net_value))) as i64)
        },
    ] + if fill.mode == "LIVE"@ {
        seq![text_field("mode"@, "LIVE"@)]
    } else {
        Seq::empty()
    }
}

/// The line on a trade.
pub fn trade_line(fill: &TradeFill, charges: &ChargeBreakdown) -> (res: Vec<LineField>)
    ensures
        line_view(res@) == trade_line_of(fill@, charges.net_value as int),
{
    let mut out: Vec<LineField> = Vec::new();
    assert(line_view(out@) =~= Seq::empty());
    put_text(&mut out, "event", fill.reason.as_str());
    put_text(&mut out, "instrument", fill.instrument.as_str());
    put_amount(&mut out, "price", round2(fill.price));
    put_number(&mut out, "qty", fill.qty as i64);
    if fill.buy {
        put_amount(&mut out, "net_cost", round2(charges.net_value));
    } else {
        put_amount(&mut out, "pnl", round2(trade_profit(fill, charges)));
    }
    if same_text(fill.mode.as_str(), "LIVE") {
        put_text(&mut out, "mode", "LIVE");
    }
    assert(line_view(out@) =~= trade_line_of(fill@, charges.net_value as int));
    out
}

/// The line on something that went wrong with real money.
pub fn error_line(instrument: &str, message: &str) -> (res: Vec<LineField>)
    ensures
        line_view(res@) == seq![
            text_field("event"@, "LIVE_ERROR"@),
            text_field("instrument"@, instrument@),
            text_field("message"@, message@),
        ],
{
    let mut out: Vec<LineField> = Vec::new();
    assert(line_view(out@) =~= Seq::empty());
    put_text(&mut out, "event", "LIVE_ERROR");
    put_text(&mut out, "instrument", instrument);
    put_text(&mut out, "message", message);
    out
}

/// The line on an order of a closed position that was cancelled.
pub fn orphan_line(instrument: &str, order_id: &str) -> (res: Vec<LineField>)
    ensures
        line_view(res@) == seq![
            text_field("event"@, "ORPHAN_ORDER_CANCELLED"@),
            text_field("instrument"@, instrument@),
            text_field("order_id"@, order_id@),
            text_field("mode"@, "LIVE"@),
        ],
{
    let mut out: Vec<LineField> = Vec::new();
    assert(line_view(out@) =~= Seq::empty());
    put_text(&mut out, "event", "ORPHAN_ORDER_CANCELLED");
    put_text(&mut out, "instrument", instrument);
    put_text(&mut out, "order_id", order_id);
    put_text(&mut out, "mode", "LIVE");
    out
}

// ---------------------------------------------------------------------------
// Laws of the reports
// ---------------------------------------------------------------------------

/// Whether a line has the field `f`.
pub open spec fn has_field(line: Seq<LineFieldView>, f: LineFieldView) -> bool {
    exists|i: int| 0 <= i < line.len() && #[trigger] line[i] == f
}

/// The line of a trade says why, on which instrument, how much and at which price; of a purchase
/// it says the cost, of a sale what it brought in over its cost; and it says so where the money
/// was real.
pub proof fn trade_lines_say_what_was_traded(fill: TradeFillView, net_value: int)
    ensures
        ({
            let line = trade_line_of(fill, net_value);
            let cost = fill.avg_buy_price * fill.qty;
            &&& line[0] == (LineFieldView { name: "event"@, value: LineValueView::Text(fill.reason) })
            &&& has_field(
                line,
                LineFieldView { name: "instrument"@, value: LineValueView::Text(fill.instrument) },
            )
            &&& has_field(
                line,
                LineFieldView { name: "qty"@, value: LineValueView::Number(fill.qty as i64) },
            )
            &&& line[2].name == "price"@
            &&& line[2].value matches LineValueView::Amount(price)
            &&& i64::MIN + 10_000 <= fill.price <= i64::MAX - 10_000 ==> price as int % 10_000 == 0
                && -10_000 < price - fill.price < 10_000
            &&& line[4].value matches LineValueView::Amount(money)
            &&& fill.buy ==> line[4].name == "net_cost"@
            &&& !fill.buy ==> line[4].name == "pnl"@
            &&& fill.buy && i64::MIN + 10_000 <= net_value <= i64::MAX - 10_000 ==> -10_000 < money
                - net_value < 10_000
            &&& !fill.buy && i64::MIN + 10_000 <= net_value - cost <= i64::MAX - 10_000 ==> -10_000
                < money - (net_value - cost) < 10_000
            &&& fill.mode == "LIVE"@ ==> line.len() == 6 && line[5] == (LineFieldView {
                name: "mode"@,
                value: LineValueView::Text("LIVE"@),
            })
            &&& fill.mode != "LIVE"@ ==> line.len() == 5
        }),
{
    let line = trade_line_of(fill, net_value);
    assert(line[1] == text_field("instrument"@, fill.instrument));
    assert(line[3] == number_field("qty"@, fill.qty as i64));
}

/// Every line begins with its event; all but that of the start say the instrument, and what
/// needs a human says it in words.
pub proof fn notice_lines_say_what_happened(n: NoticeView, live: bool)
    ensures
        ({
            let line = notice_line_of(n, live);
            let needs_words = n.code == NoticeCode::EntryRejected || n.code == NoticeCode::ExitRejected ||
                n.code == NoticeCode::Target1Rejected || n.code ==
                NoticeCode::ManualSellRejected || n.code == NoticeCode::OutcomeUnknown ||
                n.code == NoticeCode::ExitsGivenUp || n.code == NoticeCode::StopCancelFailed
                || n.code == NoticeCode::StopGone || n.code == NoticeCode::FundsShort ||
                n.code == NoticeCode::FundsUnread || n.code == NoticeCode::NothingAtBroker ||
                n.code == NoticeCode::QuantityAdopted || n.code ==
                NoticeCode::UntrackedHolding || n.code == NoticeCode::PositionsUnread ||
                n.code == NoticeCode::BookUnread;
            &&& line.len() >= 2
            &&& line[0] == (LineFieldView {
                name: "event"@,
                value: LineValueView::Text(event(n.code)),
            })
            &&& n.code != NoticeCode::StartupReconciled ==> line[1] == (LineFieldView {
                name: "instrument"@,
                value: LineValueView::Text(n.instrument),
            })
            &&& n.code == NoticeCode::EntryPlaced || n.code == NoticeCode::ExitPlaced ==> line[2]
                == (LineFieldView {
                name: "order_id"@,
                value: LineValueView::Text(n.order_id),
            }) && line[3] == (LineFieldView {
                name: "qty"@,
                value: LineValueView::Number(n.qty),
            })
            &&& n.code == NoticeCode::ExitPlaced ==> line[4] == (LineFieldView {
                name: "reason"@,
                value: LineValueView::Text(n.reason),
            })
            &&& needs_words ==> event(n.code) == "LIVE_ERROR"@ && line[2] == (LineFieldView {
                name: "message"@,
                value: LineValueView::Text(words(n)),
            })
            &&& n.code == NoticeCode::StopTrailed && live ==> line[2] == (LineFieldView {
                name: "new_sl"@,
                value: LineValueView::Amount(n.price),
            })
        }),
{
}

/// A report is an error where it needs a human, a warning where the kill switch held a signal
/// back, and information otherwise.
pub proof fn levels_go_by_need(n: NoticeView)
    ensures
        n.loud ==> level(n) == "ERROR"@,
        !n.loud && n.code == NoticeCode::KillSwitchBlocked ==> level(n) == "WARN"@,
        !n.loud && n.code != NoticeCode::KillSwitchBlocked ==> level(n) == "INFO"@,
{
}

/// The funds that a report asks for are the value of the order and five hundred rupees.
pub proof fn funds_are_value_and_buffer(n: NoticeView)
    requires
        i64::MIN <= n.qty * n.price <= i64::MAX - 500_000_000,
    ensures
        order_value(n) == n.qty * n.price,
        funds_needed(n) == order_value(n) + 500_000_000,
{
}

/// Reports on quantities that differ say first what there is and then what there should be.
pub proof fn differing_quantities_are_said_in_order(n: NoticeView)
    ensures
        n.code == NoticeCode::EntryPartlyFilled ==> begins_with(
            words(n),
            "entry order "@ + n.order_id + " filled only "@ + int_text(n.qty as int) + " of "@
                + int_text(n.other_qty as int),
        ),
        n.code == NoticeCode::ExitShort ==> begins_with(
            words(n),
            "exit order "@ + n.order_id + " ("@ + n.reason + ") filled "@ + int_text(n.qty as int)
                + " of "@ + int_text(n.other_qty as int),
        ),
        n.code == NoticeCode::QuantityAdopted ==> begins_with(
            words(n),
            "engine held "@ + int_text(n.qty as int) + " of "@ + n.detail
                + " but the broker shows "@ + int_text(n.other_qty as int),
        ),
        n.code == NoticeCode::TradeCancelled ==> finishes_with(words(n), n.reason),
        n.code == NoticeCode::EntryRefused ==> finishes_with(words(n), n.reason),
{
    let a = "entry order "@ + n.order_id + " filled only "@ + int_text(n.qty as int) + " of "@
        + int_text(n.other_qty as int);
    pieces_stand_in_their_text(
        a,
        " — running the position on the filled quantity"@,
        Seq::empty(),
    );
    let b = "exit order "@ + n.order_id + " ("@ + n.reason + ") filled "@ + int_text(n.qty as int)
        + " of "@ + int_text(n.other_qty as int);
    pieces_stand_in_their_text(b, " — squaring off the remainder"@, Seq::empty());
    let c = "engine held "@ + int_text(n.qty as int) + " of "@ + n.detail
        + " but the broker shows "@ + int_text(n.other_qty as int);
    pieces_stand_in_their_text(c, " — adopting the broker's quantity"@, Seq::empty());
    pieces_stand_in_their_text("Trade cancelled: "@, n.reason, Seq::empty());
    pieces_stand_in_their_text("entry not taken — "@, n.reason, Seq::empty());
}

/// What a line says beside its event and its instrument, by what happened: a stop where it
/// stands now and, where there are any, what is kept and the next rung; an exit its price; an
/// entry that was given up its reason; the start how many positions there are and whether they
/// were compared.
pub proof fn lines_carry_their_numbers(n: NoticeView, live: bool)
    ensures
        ({
            let line = notice_line_of(n, live);
            let paise = fit64(to_paise(n.price as int)) as i64;
            &&& n.code == NoticeCode::StopTrailed && n.qty != 0 ==> has_field(
                line,
                LineFieldView { name: "qty"@, value: LineValueView::Number(n.qty) },
            )
            &&& n.code == NoticeCode::StopTrailed && n.level != 0 ==> has_field(
                line,
                LineFieldView { name: "next_target"@, value: LineValueView::Amount(n.level) },
            )
            &&& n.code == NoticeCode::StopTrailed && n.qty == 0 && n.level == 0 && !live
                ==> line.len() == 3
            &&& n.code == NoticeCode::StopTrailed && !live || n.code == NoticeCode::TrailArmed
                ==> has_field(
                line,
                LineFieldView { name: "new_sl"@, value: LineValueView::Amount(paise) },
            )
            &&& n.code == NoticeCode::SignalUpdated ==> has_field(
                line,
                LineFieldView { name: "new_sl"@, value: LineValueView::Amount(n.price) },
            )
            &&& n.code == NoticeCode::SignalExited ==> has_field(
                line,
                LineFieldView { name: "exit_price"@, value: LineValueView::Amount(paise) },
            )
            &&& n.code == NoticeCode::AlreadyAtTarget ==> has_field(
                line,
                LineFieldView { name: "price"@, value: LineValueView::Amount(paise) },
            )
            &&& n.code == NoticeCode::EntryAbandoned || n.code == NoticeCode::ExitUnfilled
                ==> has_field(
                line,
                LineFieldView { name: "reason"@, value: LineValueView::Text(n.reason) },
            )
            &&& n.code == NoticeCode::StartupReconciled ==> has_field(
                line,
                LineFieldView { name: "positions"@, value: LineValueView::Number(n.qty) },
            ) && has_field(
                line,
                LineFieldView {
                    name: "positions_verified"@,
                    value: LineValueView::Flag(n.other_qty == 1),
                },
            )
        }),
{
    let line = notice_line_of(n, live);
    let body = line_body(n, live);
    assert forall|i: int| 0 <= i < body.len() implies line[i + 1] == #[trigger] body[i] by {}
    assert(body.len() > 0 ==> line[1] == body[0]);
    assert(body.len() > 1 ==> line[2] == body[1]);
    assert(body.len() > 2 ==> line[3] == body[2]);
    assert(body.len() > 3 ==> line[4] == body[3]);
}

/// A line says that the money was real where trading is live, unless it needs a human or is
/// about a signal or an answer.
pub proof fn lines_name_the_mode(n: NoticeView, live: bool)
    ensures
        ({
            let line = notice_line_of(n, live);
            let plain = n.loud || n.code == NoticeCode::SignalUpdated || n.code
                == NoticeCode::SignalExited || n.code == NoticeCode::KillSwitchBlocked || n.code
                == NoticeCode::ReconcileAck;
            let mode = LineFieldView { name: "mode"@, value: LineValueView::Text("LIVE"@) };
            &&& live && !plain ==> line.last() == mode && line.len() == line_body(n, live).len() + 2
            &&& !live || plain ==> line.len() == line_body(n, live).len() + 1
        }),
{
}

/// More reports with several numbers say them in their order.
pub proof fn numbers_are_said_in_order(n: NoticeView)
    ensures
        n.code == NoticeCode::Target1Rejected ==> begins_with(
            words(n),
            "target-1 sell of "@ + int_text(n.qty as int) + " was rejected: "@ + n.detail
                + " — still holding the full "@ + int_text(n.other_qty as int),
        ),
        n.code == NoticeCode::ManualSellRejected ==> begins_with(
            words(n),
            "manual sell of "@ + int_text(n.qty as int) + " was rejected: "@ + n.detail
                + " — still holding the full "@ + int_text(n.other_qty as int),
        ),
        n.code == NoticeCode::AlreadyAtTarget ==> begins_with(
            words(n),
            "Signal discarded — already at target 1 ("@ + two_places(n.price as int) + " ≥ "@
                + two_places(n.level as int),
        ),
        n.code == NoticeCode::Adopted ==> begins_with(
            words(n),
            "manually adopted "@ + n.instrument + " — qty "@ + int_text(n.qty as int) + " @ ₹"@
                + two_places(n.price as int) + " ("@ + n.reason + "), SL ₹"@ + two_places(
                n.level as int,
            ),
        ) && finishes_with(words(n), two_places(n.target as int)),
        n.code == NoticeCode::FundsShort ==> begins_with(
            words(n),
            "not enough funds for "@ + int_text(n.qty as int) + " @ ~₹"@ + two_places(
                n.price as int,
            ) + ": needs ₹"@ + two_places(funds_needed(n)),
        ),
        n.code == NoticeCode::StopAdopted ==> begins_with(
            words(n),
            "adopting sell order "@ + n.order_id + " ("@ + int_text(n.qty as int)
                + " @ trigger "@ + two_places(n.price as int),
        ),
{
    let w = words(n);
    let a = "target-1 sell of "@ + int_text(n.qty as int) + " was rejected: "@ + n.detail
        + " — still holding the full "@ + int_text(n.other_qty as int);
    let b = "manual sell of "@ + int_text(n.qty as int) + " was rejected: "@ + n.detail
        + " — still holding the full "@ + int_text(n.other_qty as int);
    let c = "Signal discarded — already at target 1 ("@ + two_places(n.price as int) + " ≥ "@
        + two_places(n.level as int);
    let d = "manually adopted "@ + n.instrument + " — qty "@ + int_text(n.qty as int) + " @ ₹"@
        + two_places(n.price as int) + " ("@ + n.reason + "), SL ₹"@ + two_places(n.level as int);
    let e = "not enough funds for "@ + int_text(n.qty as int) + " @ ~₹"@ + two_places(
        n.price as int,
    ) + ": needs ₹"@ + two_places(funds_needed(n));
    let f = "adopting sell order "@ + n.order_id + " ("@ + int_text(n.qty as int) + " @ trigger "@
        + two_places(n.price as int);
    if n.code == NoticeCode::Target1Rejected {
        assert(w.subrange(0, a.len() as int) =~= a);
    } else if n.code == NoticeCode::ManualSellRejected {
        assert(w.subrange(0, b.len() as int) =~= b);
    } else if n.code == NoticeCode::AlreadyAtTarget {
        assert(w.subrange(0, c.len() as int) =~= c);
    } else if n.code == NoticeCode::Adopted {
        assert(w.subrange(0, d.len() as int) =~= d);
        let t = two_places(n.target as int);
        assert(w.subrange(w.len() - t.len(), w.len() as int) =~= t);
    } else if n.code == NoticeCode::FundsShort {
        assert(w.subrange(0, e.len() as int) =~= e);
    } else if n.code == NoticeCode::StopAdopted {
        assert(w.subrange(0, f.len() as int) =~= f);
    }
}

} // verus!
