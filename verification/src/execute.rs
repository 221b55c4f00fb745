//! Carrying out a live decision, one call to the broker at a time.
//!
//! A decision is begun with [`begin_action`]. Each step either ends it or asks for one call
//! to the broker, whose outcome is handed to the function that goes with it. Between two
//! calls the positions are free for others.
use vstd::prelude::*;

use crate::broker::{KotakError, KotakLimits, KotakOrder};
use crate::decide::{LiveAction, MAX_EXIT_ATTEMPTS};
use crate::decimal::to_i32;
use crate::desk::{
    find_position, forget_stop, notice, push_effect, Effect, Notice, NoticeCode,
};
use crate::domain::{
    clone_opt, MonitoredPosition, OrderRequest, TradeState, TradingConfig, TransactionType,
};
use crate::orders::{build_market_order, build_prompt_sale};
use crate::text::{i64_text, same_text, trim};

#[allow(unused_imports)]
use crate::broker::{book_view, error_text, KotakErrorView, KotakOrderView};

#[allow(unused_imports)]
use crate::clock::IstTime;

#[allow(unused_imports)]
use crate::decide::{decision, never_sells_more_than_held, sold_by, LiveActionView};

#[allow(unused_imports)]
use crate::decimal::{fit32, printed_amounts_read_back, written_millionths};

#[allow(unused_imports)]
use crate::desk::{
    bare_notice, effects_view, has_id, id_index, lemma_id_index, put_id, stop_forgotten, with_id,
    EffectView, NoticeView,
};

#[allow(unused_imports)]
use crate::domain::{
    views, MonitoredPositionView, OrderRequestView, OrderType, TradingConfigView, Validity,
};

#[allow(unused_imports)]
use crate::orders::{market_order, prompt_sale};

#[allow(unused_imports)]
use crate::settle::out_for_sale;

#[allow(unused_imports)]
use crate::text::{int_text, opt_text, printed_int_reads_back, trimmed, written_i32};

verus! {

/// What an account must have left after an entry, in millionths of a rupee.
pub const FUNDS_BUFFER: i64 = 500_000_000;

/// A decision on a position.
#[derive(Debug)]
pub struct LivePending {
    pub pos_id: String,
    pub action: LiveAction,
}

/// What talking to the broker needs to know of a position, taken down before the first call.
#[derive(Debug)]
pub struct LiveCtx {
    pub pos_id: String,
    pub instrument: String,
    pub base: OrderRequest,
    pub entry_order_id: Option<String>,
    pub entry_cancel_sent: bool,
    pub sl_order_id: Option<String>,
    pub executed_qty: i32,
}

/// What a [`LiveCtx`] says, with its texts as character sequences.
#[verifier::ext_equal]
pub ghost struct LiveCtxView {
    pub pos_id: Seq<char>,
    pub instrument: Seq<char>,
    pub base: OrderRequestView,
    pub entry_order_id: Option<Seq<char>>,
    pub entry_cancel_sent: bool,
    pub sl_order_id: Option<Seq<char>>,
    pub executed_qty: i32,
}

impl View for LiveCtx {
    type V = LiveCtxView;

    open spec fn view(&self) -> LiveCtxView {
        LiveCtxView {
            pos_id: self.pos_id@,
            instrument: self.instrument@,
            base: self.base@,
            entry_order_id: opt_text(self.entry_order_id),
            entry_cancel_sent: self.entry_cancel_sent,
            sl_order_id: opt_text(self.sl_order_id),
            executed_qty: self.executed_qty,
        }
    }
}

/// A decision that is being carried out.
#[derive(Debug)]
pub struct LiveRun {
    pub ctx: LiveCtx,
    /// The order that is being cancelled.
    pub order_id: String,
    pub qty: i32,
    pub price: i64,
    pub reason: String,
    pub loud: bool,
    /// Why a cancel failed.
    pub error: String,
}

/// What a [`LiveRun`] says, with its texts as character sequences.
#[verifier::ext_equal]
pub ghost struct LiveRunView {
    pub ctx: LiveCtxView,
    pub order_id: Seq<char>,
    pub qty: i32,
    pub price: i64,
    pub reason: Seq<char>,
    pub loud: bool,
    pub error: Seq<char>,
}

impl View for LiveRun {
    type V = LiveRunView;

    open spec fn view(&self) -> LiveRunView {
        LiveRunView {
            ctx: self.ctx@,
            order_id: self.order_id@,
            qty: self.qty,
            price: self.price,
            reason: self.reason@,
            loud: self.loud,
            error: self.error@,
        }
    }
}

/// What an order is placed for.
#[derive(Debug, Clone, Copy, PartialEq, Eq, Structural)]
pub enum PlacePurpose {
    Entry,
    Target1,
    Exit,
    Manual,
}

/// What an order is cancelled for.
#[derive(Debug, Clone, Copy, PartialEq, Eq, Structural)]
pub enum CancelPurpose {
    /// The entry is given up.
    Abandon,
    /// A sale is to follow.
    Stop,
}

/// What comes next.
#[derive(Debug)]
pub enum LiveStep {
    /// Nothing: the decision is carried out. `changed` says whether it came to anything.
    Done { changed: bool },
    /// Read the limits of the account, then go on with [`after_limits`].
    ReadLimits { run: LiveRun },
    /// Place an order, then go on with [`after_place`].
    Place { order: OrderRequest, purpose: PlacePurpose, run: LiveRun },
    /// Cancel the order of the run, then go on with [`after_cancel`].
    Cancel { aim: CancelPurpose, run: LiveRun },
    /// Read the order book, then go on with [`after_book`].
    ReadBook { run: LiveRun },
}

/// What a [`LiveStep`] says.
pub ghost enum LiveStepView {
    Done { changed: bool },
    ReadLimits { run: LiveRunView },
    Place { order: OrderRequestView, purpose: PlacePurpose, run: LiveRunView },
    Cancel { aim: CancelPurpose, run: LiveRunView },
    ReadBook { run: LiveRunView },
}

impl View for LiveStep {
    type V = LiveStepView;

    open spec fn view(&self) -> LiveStepView {
        match self {
            LiveStep::Done { changed } => LiveStepView::Done { changed: *changed },
            LiveStep::ReadLimits { run } => LiveStepView::ReadLimits { run: run@ },
            LiveStep::Place { order, purpose, run } => LiveStepView::Place {
                order: order@,
                purpose: *purpose,
                run: run@,
            },
            LiveStep::Cancel { aim, run } => LiveStepView::Cancel {
                aim: *aim,
                run: run@,
            },
            LiveStep::ReadBook { run } => LiveStepView::ReadBook { run: run@ },
        }
    }
}

/// The positions after a step, what comes next, and what there is to report.
pub ghost struct Turn {
    pub positions: Seq<MonitoredPositionView>,
    pub step: LiveStepView,
    pub effects: Seq<EffectView>,
}

/// The outcome of a step.
pub open spec fn turn(
    positions: Seq<MonitoredPosition>,
    res: (LiveStep, Vec<Effect>),
) -> Turn {
    Turn { positions: views(positions), step: res.0@, effects: effects_view(res.1@) }
}

/// The end of a decision that came to something, with one report.
pub open spec fn done_with(positions: Seq<MonitoredPositionView>, n: NoticeView) -> Turn {
    Turn {
        positions,
        step: LiveStepView::Done { changed: true },
        effects: seq![EffectView::Note(n)],
    }
}

/// A report on the position of a run.
pub open spec fn run_notice(code: NoticeCode, loud: bool, run: LiveRunView) -> NoticeView {
    bare_notice(code, loud, run.ctx.instrument)
}

// ---------------------------------------------------------------------------
// Failed exits
// ---------------------------------------------------------------------------

/// A position after one more exit has failed.
pub open spec fn exit_failed(p: MonitoredPositionView) -> MonitoredPositionView {
    let n = fit32(p.exit_attempts + 1);
    if n >= MAX_EXIT_ATTEMPTS {
        MonitoredPositionView {
            exit_attempts: n as i32,
            live_halt: Some("exit failed "@ + int_text(n) + " times"@),
            force_exit: None,
            ..p
        }
    } else {
        MonitoredPositionView { exit_attempts: n as i32, ..p }
    }
}

/// Whether one more failed exit is one too many.
pub open spec fn gives_up(ps: Seq<MonitoredPositionView>, id: Seq<char>) -> bool {
    has_id(ps, id) && fit32(with_id(ps, id).exit_attempts + 1) >= MAX_EXIT_ATTEMPTS
}

/// The report that a position is left alone, where it is.
pub open spec fn given_up_note(
    ps: Seq<MonitoredPositionView>,
    id: Seq<char>,
    instrument: Seq<char>,
) -> Seq<EffectView> {
    if gives_up(ps, id) {
        seq![EffectView::Note(bare_notice(NoticeCode::ExitsGivenUp, true, instrument))]
    } else {
        Seq::empty()
    }
}

/// Count a failed exit, and leave the position alone once there were too many.
fn bump_exit_attempts(
    positions: &mut Vec<MonitoredPosition>,
    effects: &mut Vec<Effect>,
    pos_id: &str,
    instrument: &str,
)
    ensures
        views(final(positions)@) == put_id(
            views(old(positions)@),
            pos_id@,
            exit_failed(with_id(views(old(positions)@), pos_id@)),
        ),
        effects_view(final(effects)@) == effects_view(old(effects)@) + given_up_note(
            views(old(positions)@),
            pos_id@,
            instrument@,
        ),
{
    let ghost ps = views(positions@);
    let ghost before = effects_view(effects@);
    if let Some(i) = find_position(positions, pos_id) {
        let p: &mut MonitoredPosition = &mut positions[i];
        p.exit_attempts = to_i32(p.exit_attempts as i128 + 1);
        let n: i32 = p.exit_attempts;
        if n >= MAX_EXIT_ATTEMPTS {
            let mut why: String = "exit failed ".to_string();
            why.append(i64_text(n as i64).as_str());
            why.append(" times");
            p.live_halt = Some(why);
            p.force_exit = None;
            push_effect(
                effects,
                Effect::Note(notice(NoticeCode::ExitsGivenUp, true, instrument)),
            );
        }
    }
    assert(views(positions@) =~= put_id(ps, pos_id@, exit_failed(with_id(ps, pos_id@))));
    assert(effects_view(effects@) =~= before + given_up_note(ps, pos_id@, instrument@));
}

// ---------------------------------------------------------------------------
// Giving up an entry
// ---------------------------------------------------------------------------

/// A position whose entry was given up.
pub open spec fn abandoned(p: MonitoredPositionView) -> MonitoredPositionView {
    MonitoredPositionView { state: TradeState::Closed, entry_order_id: None, ..p }
}

/// The end of an entry that is given up.
pub open spec fn abandon_turn(ps: Seq<MonitoredPositionView>, run: LiveRunView) -> Turn {
    done_with(
        put_id(ps, run.ctx.pos_id, abandoned(with_id(ps, run.ctx.pos_id))),
        NoticeView {
            reason: run.reason,
            ..run_notice(
                if run.loud {
                    NoticeCode::EntryRefused
                } else {
                    NoticeCode::EntryAbandoned
                },
                run.loud,
                run,
            )
        },
    )
}

fn abandon(positions: &mut Vec<MonitoredPosition>, run: LiveRun) -> (res: (LiveStep, Vec<Effect>))
    ensures
        turn(final(positions)@, res) == abandon_turn(views(old(positions)@), run@),
{
    let ghost ps = views(positions@);
    if let Some(i) = find_position(positions, run.ctx.pos_id.as_str()) {
        let p: &mut MonitoredPosition = &mut positions[i];
        p.state = TradeState::Closed;
        p.entry_order_id = None;
    }
    let code: NoticeCode = if run.loud {
        NoticeCode::EntryRefused
    } else {
        NoticeCode::EntryAbandoned
    };
    let mut n: Notice = notice(code, run.loud, run.ctx.instrument.as_str());
    n.reason = run.reason.clone();
    proof {
        assert(views(positions@) =~= abandon_turn(ps, run@).positions);
    }
    finish(n)
}

fn finish(n: Notice) -> (res: (LiveStep, Vec<Effect>))
    ensures
        res.0@ == (LiveStepView::Done { changed: true }),
        effects_view(res.1@) == seq![EffectView::Note(n@)],
{
    let mut effects: Vec<Effect> = Vec::new();
    push_effect(&mut effects, Effect::Note(n));
    assert(effects_view(effects@) =~= seq![EffectView::Note(n@)]);
    (LiveStep::Done { changed: true }, effects)
}

fn quiet(step: LiveStep) -> (res: (LiveStep, Vec<Effect>))
    ensures
        res.0@ == step@,
        effects_view(res.1@) == Seq::<EffectView>::empty(),
{
    let effects: Vec<Effect> = Vec::new();
    assert(effects_view(effects@) =~= Seq::<EffectView>::empty());
    (step, effects)
}

// ---------------------------------------------------------------------------
// Beginning
// ---------------------------------------------------------------------------

/// A position at target 1.
pub open spec fn at_target1(
    p: MonitoredPositionView,
    new_sl: i64,
    next_dynamic_target: Option<i64>,
    dynamic_rung: Option<i64>,
) -> MonitoredPositionView {
    MonitoredPositionView {
        current_sl: new_sl,
        next_dynamic_target,
        last_dynamic_rung: dynamic_rung,
        dynamic_rung_number: if dynamic_rung is Some {
            1
        } else {
            0
        },
        state: TradeState::Target1Hit,
        ..p
    }
}

/// A runner that has hit a rung.
pub open spec fn at_rung(
    p: MonitoredPositionView,
    new_sl: i64,
    next_target: i64,
    rung_hit: i64,
) -> MonitoredPositionView {
    MonitoredPositionView {
        current_sl: new_sl,
        next_dynamic_target: Some(next_target),
        last_dynamic_rung: Some(rung_hit),
        dynamic_rung_number: fit32(p.dynamic_rung_number + 1) as i32,
        ..p
    }
}

/// What is taken down of a position before the first call.
pub open spec fn ctx_of(p: MonitoredPositionView) -> LiveCtxView {
    LiveCtxView {
        pos_id: p.id,
        instrument: p.signal.instrument_name,
        base: p.resolved_order->0,
        entry_order_id: p.entry_order_id,
        entry_cancel_sent: p.entry_cancel_sent,
        sl_order_id: p.sl_order_id,
        executed_qty: p.executed_qty,
    }
}

/// A run that has only just begun.
pub open spec fn new_run(
    ctx: LiveCtxView,
    qty: i32,
    price: i64,
    reason: Seq<char>,
    loud: bool,
) -> LiveRunView {
    LiveRunView {
        ctx,
        order_id: Seq::empty(),
        qty,
        price,
        reason,
        loud,
        error: Seq::empty(),
    }
}

fn start_run(ctx: LiveCtx, qty: i32, price: i64, reason: &str, loud: bool) -> (res: LiveRun)
    ensures
        res@ == new_run(ctx@, qty, price, reason@, loud),
{
    LiveRun {
        ctx,
        order_id: String::new(),
        qty,
        price,
        reason: reason.to_string(),
        loud,
        error: String::new(),
    }
}

/// The sale of an exit, as the step that places it.
pub open spec fn exit_sale(run: LiveRunView) -> LiveStepView {
    LiveStepView::Place {
        order: prompt_sale(run.ctx.base, run.qty as int),
        purpose: PlacePurpose::Exit,
        run,
    }
}

fn place_exit(run: LiveRun) -> (res: LiveStep)
    ensures
        res@ == exit_sale(run@),
{
    let order: OrderRequest = build_prompt_sale(&run.ctx.base, run.qty);
    LiveStep::Place { order, purpose: PlacePurpose::Exit, run }
}

/// How a decision on a position begins.
pub open spec fn begun_on(
    ps: Seq<MonitoredPositionView>,
    id: Seq<char>,
    action: LiveActionView,
) -> Turn {
    let p = with_id(ps, id);
    let ctx = ctx_of(p);
    match action {
        LiveActionView::PlaceEntry { qty, ltp } => Turn {
            positions: ps,
            step: LiveStepView::ReadLimits { run: new_run(ctx, qty, ltp, Seq::empty(), false) },
            effects: Seq::empty(),
        },
        LiveActionView::AbandonEntry { reason, loud } => {
            let run = new_run(ctx, 0, 0, reason, loud);
            if p.entry_order_id is Some {
                Turn {
                    positions: ps,
                    step: if p.entry_cancel_sent {
                        LiveStepView::Done { changed: false }
                    } else {
                        LiveStepView::Cancel {
                            aim: CancelPurpose::Abandon,
                            run: LiveRunView { order_id: p.entry_order_id->0, ..run },
                        }
                    },
                    effects: Seq::empty(),
                }
            } else {
                abandon_turn(ps, run)
            }
        },
        LiveActionView::Target1 { slice, keep, new_sl, next_dynamic_target, dynamic_rung } => Turn {
            positions: put_id(ps, id, at_target1(p, new_sl, next_dynamic_target, dynamic_rung)),
            step: LiveStepView::Place {
                order: prompt_sale(ctx.base, slice as int),
                purpose: PlacePurpose::Target1,
                run: new_run(ctx, slice, 0, "TGT1_PARTIAL"@, false),
            },
            effects: seq![
                EffectView::Note(
                    NoticeView {
                        price: new_sl,
                        qty: keep as i64,
                        ..bare_notice(NoticeCode::StopTrailed, false, ctx.instrument)
                    },
                ),
            ],
        },
        LiveActionView::TrailDynamic { new_sl, next_target, rung_hit } => done_with(
            put_id(ps, id, at_rung(p, new_sl, next_target, rung_hit)),
            NoticeView {
                price: new_sl,
                level: next_target,
                ..bare_notice(NoticeCode::StopTrailed, false, ctx.instrument)
            },
        ),
        LiveActionView::ExitAll { qty, reason } => {
            let run = new_run(ctx, qty, 0, reason, false);
            Turn {
                positions: ps,
                step: if qty <= 0 {
                    LiveStepView::Done { changed: true }
                } else if p.sl_order_id is Some {
                    LiveStepView::Cancel {
                        aim: CancelPurpose::Stop,
                        run: LiveRunView { order_id: p.sl_order_id->0, ..run },
                    }
                } else {
                    exit_sale(run)
                },
                effects: Seq::empty(),
            }
        },
        LiveActionView::ManualSell { qty } => Turn {
            positions: put_id(ps, id, MonitoredPositionView { manual_sell_qty: None, ..p }),
            step: LiveStepView::Place {
                order: market_order(ctx.base, TransactionType::Sell, qty as int, 0),
                purpose: PlacePurpose::Manual,
                run: new_run(ctx, qty, 0, "MANUAL_SELL"@, false),
            },
            effects: Seq::empty(),
        },
    }
}

/// How a decision begins. Nothing comes of one on a position that is gone or whose contract
/// is not known.
pub open spec fn begun(
    ps: Seq<MonitoredPositionView>,
    id: Seq<char>,
    action: LiveActionView,
) -> Turn {
    if has_id(ps, id) && with_id(ps, id).resolved_order is Some {
        begun_on(ps, id, action)
    } else {
        Turn {
            positions: ps,
            step: LiveStepView::Done { changed: false },
            effects: Seq::empty(),
        }
    }
}

/// Begin to carry out a decision.
pub fn begin_action(positions: &mut Vec<MonitoredPosition>, pending: &LivePending) -> (res: (
    LiveStep,
    Vec<Effect>,
))
    ensures
        turn(final(positions)@, res) == begun(
            views(old(positions)@),
            pending.pos_id@,
            pending.action@,
        ),
{
    let ghost ps = views(positions@);
    let ghost id = pending.pos_id@;
    let i: usize = match find_position(positions, pending.pos_id.as_str()) {
        Some(i) => i,
        None => {
            return quiet(LiveStep::Done { changed: false });
        },
    };
    proof {
        lemma_id_index(ps, id, 0);
    }
    let base: OrderRequest = match &positions[i].resolved_order {
        Some(o) => o.clone(),
        None => {
            return quiet(LiveStep::Done { changed: false });
        },
    };
    let ctx: LiveCtx = LiveCtx {
        pos_id: positions[i].id.clone(),
        instrument: positions[i].signal.instrument_name.clone(),
        base,
        entry_order_id: clone_opt(&positions[i].entry_order_id),
        entry_cancel_sent: positions[i].entry_cancel_sent,
        sl_order_id: clone_opt(&positions[i].sl_order_id),
        executed_qty: positions[i].executed_qty,
    };
    assert(ctx@ == ctx_of(with_id(ps, id)));
    match &pending.action {
        LiveAction::PlaceEntry { qty, ltp } => {
            let run: LiveRun = start_run(ctx, *qty, *ltp, "", false);
            proof {
                reveal_strlit("");
                assert(""@ =~= Seq::<char>::empty());
            }
            quiet(LiveStep::ReadLimits { run })
        },
        LiveAction::AbandonEntry { reason, loud } => {
            let entry: Option<String> = clone_opt(&ctx.entry_order_id);
            let sent: bool = ctx.entry_cancel_sent;
            let mut run: LiveRun = start_run(ctx, 0, 0, reason.as_str(), *loud);
            match entry {
                Some(order_id) => {
                    if sent {
                        return quiet(LiveStep::Done { changed: false });
                    }
                    run.order_id = order_id;
                    quiet(LiveStep::Cancel { aim: CancelPurpose::Abandon, run })
                },
                None => abandon(positions, run),
            }
        },
        LiveAction::Target1 { slice, keep, new_sl, next_dynamic_target, dynamic_rung } => {
            let p: &mut MonitoredPosition = &mut positions[i];
            p.current_sl = *new_sl;
            p.next_dynamic_target = *next_dynamic_target;
            p.last_dynamic_rung = *dynamic_rung;
            p.dynamic_rung_number = if dynamic_rung.is_some() {
                1
            } else {
                0
            };
            p.state = TradeState::Target1Hit;
            let mut n: Notice = notice(NoticeCode::StopTrailed, false, ctx.instrument.as_str());
            n.price = *new_sl;
            n.qty = *keep as i64;
            let (_, effects): (LiveStep, Vec<Effect>) = finish(n);
            let order: OrderRequest = build_prompt_sale(&ctx.base, *slice);
            let run: LiveRun = start_run(ctx, *slice, 0, "TGT1_PARTIAL", false);
            proof {
                assert(views(positions@) =~= begun_on(ps, id, pending.action@).positions);
            }
            (LiveStep::Place { order, purpose: PlacePurpose::Target1, run }, effects)
        },
        LiveAction::TrailDynamic { new_sl, next_target, rung_hit } => {
            let p: &mut MonitoredPosition = &mut positions[i];
            p.current_sl = *new_sl;
            p.next_dynamic_target = Some(*next_target);
            p.last_dynamic_rung = Some(*rung_hit);
            p.dynamic_rung_number = to_i32(p.dynamic_rung_number as i128 + 1);
            let mut n: Notice = notice(NoticeCode::StopTrailed, false, ctx.instrument.as_str());
            n.price = *new_sl;
            n.level = *next_target;
            proof {
                assert(views(positions@) =~= begun_on(ps, id, pending.action@).positions);
            }
            finish(n)
        },
        LiveAction::ExitAll { qty, reason } => {
            let stop: Option<String> = clone_opt(&ctx.sl_order_id);
            let mut run: LiveRun = start_run(ctx, *qty, 0, reason.as_str(), false);
            if *qty <= 0 {
                return quiet(LiveStep::Done { changed: true });
            }
            match stop {
                Some(order_id) => {
                    run.order_id = order_id;
                    quiet(LiveStep::Cancel { aim: CancelPurpose::Stop, run })
                },
                None => quiet(place_exit(run)),
            }
        },
        LiveAction::ManualSell { qty } => {
            let p: &mut MonitoredPosition = &mut positions[i];
            p.manual_sell_qty = None;
            let order: OrderRequest = build_market_order(
                &ctx.base,
                TransactionType::Sell,
                *qty,
                0,
            );
            let run: LiveRun = start_run(ctx, *qty, 0, "MANUAL_SELL", false);
            proof {
                assert(views(positions@) =~= begun_on(ps, id, pending.action@).positions);
            }
            quiet(LiveStep::Place { order, purpose: PlacePurpose::Manual, run })
        },
    }
}

// ---------------------------------------------------------------------------
// Going on
// ---------------------------------------------------------------------------

/// What an entry takes: the price of the order and the buffer.
pub open spec fn funds_needed(qty: int, price: int) -> int {
    qty * price + FUNDS_BUFFER
}

/// A position that is over.
pub open spec fn closed(p: MonitoredPositionView) -> MonitoredPositionView {
    MonitoredPositionView { state: TradeState::Closed, ..p }
}

/// How an entry goes on once the limits of the account were read, or could not be read.
/// Funds that cannot be verified count as missing.
pub open spec fn limits_turn(
    ps: Seq<MonitoredPositionView>,
    cfg: TradingConfigView,
    run: LiveRunView,
    limits: Result<KotakLimits, Seq<char>>,
) -> Turn {
    let id = run.ctx.pos_id;
    match limits {
        Ok(l) => if l.net < funds_needed(run.qty as int, run.price as int) {
            done_with(
                put_id(ps, id, closed(with_id(ps, id))),
                NoticeView {
                    qty: run.qty as i64,
                    price: run.price,
                    level: l.net,
                    ..run_notice(NoticeCode::FundsShort, true, run)
                },
            )
        } else {
            Turn {
                positions: ps,
                step: LiveStepView::Place {
                    order: market_order(
                        run.ctx.base,
                        TransactionType::Buy,
                        run.qty as int,
                        cfg.entry_market_protection as int,
                    ),
                    purpose: PlacePurpose::Entry,
                    run,
                },
                effects: Seq::empty(),
            }
        },
        Err(e) => done_with(
            put_id(ps, id, closed(with_id(ps, id))),
            NoticeView { detail: e, ..run_notice(NoticeCode::FundsUnread, true, run) },
        ),
    }
}

/// What a reply of the broker says, with its error as text.
pub open spec fn reply_view<T>(r: Result<T, String>) -> Result<T, Seq<char>> {
    match r {
        Ok(v) => Ok(v),
        Err(e) => Err(e@),
    }
}

/// Why an order was not placed, or is not known to be.
#[derive(Debug)]
pub enum OrderFault {
    /// There is no session at the broker.
    NoSession,
    /// The call to the broker failed.
    Broker(KotakError),
}

/// What an [`OrderFault`] says.
pub ghost enum OrderFaultView {
    NoSession,
    Broker(KotakErrorView),
}

impl View for OrderFault {
    type V = OrderFaultView;

    open spec fn view(&self) -> OrderFaultView {
        match self {
            OrderFault::NoSession => OrderFaultView::NoSession,
            OrderFault::Broker(e) => OrderFaultView::Broker(e@),
        }
    }
}

/// The text of a fault.
pub open spec fn fault_text(f: OrderFaultView) -> Seq<char> {
    match f {
        OrderFaultView::NoSession => "no Kotak session"@,
        OrderFaultView::Broker(e) => error_text(e),
    }
}

/// Whether the broker may or may not have taken the order: the call failed before there was
/// an answer that could be read.
pub open spec fn outcome_unknown(f: OrderFaultView) -> bool {
    f matches OrderFaultView::Broker(e) && (e is Http || e is Json)
}

impl OrderFault {
    /// The text of the fault.
    pub fn message(&self) -> (res: String)
        ensures
            res@ == fault_text(self@),
    {
        match self {
            OrderFault::NoSession => "no Kotak session".to_string(),
            OrderFault::Broker(e) => e.message(),
        }
    }

    /// Whether the broker may or may not have taken the order.
    pub fn is_ambiguous(&self) -> (res: bool)
        ensures
            res == outcome_unknown(self@),
    {
        match self {
            OrderFault::NoSession => false,
            OrderFault::Broker(e) => e.is_ambiguous(),
        }
    }
}

/// A position with an order whose outcome is not known: it is kept as it is and left alone.
pub open spec fn outcome_awaited(p: MonitoredPositionView) -> MonitoredPositionView {
    MonitoredPositionView { live_halt: Some("outcome of an order is unknown"@), ..p }
}

/// What the reply to a new order says: its number, or a fault.
pub open spec fn placed_view(r: Result<String, OrderFault>) -> Result<Seq<char>, OrderFaultView> {
    match r {
        Ok(v) => Ok(v@),
        Err(e) => Err(e@),
    }
}

fn close_at(positions: &mut Vec<MonitoredPosition>, id: &str)
    ensures
        views(final(positions)@) == put_id(
            views(old(positions)@),
            id@,
            closed(with_id(views(old(positions)@), id@)),
        ),
{
    let ghost ps = views(positions@);
    if let Some(i) = find_position(positions, id) {
        let p: &mut MonitoredPosition = &mut positions[i];
        p.state = TradeState::Closed;
    }
    assert(views(positions@) =~= put_id(ps, id@, closed(with_id(ps, id@))));
}

/// Go on with an entry once the limits of the account were read.
pub fn after_limits(
    positions: &mut Vec<MonitoredPosition>,
    cfg: &TradingConfig,
    run: LiveRun,
    limits: Result<KotakLimits, String>,
) -> (res: (LiveStep, Vec<Effect>))
    ensures
        turn(final(positions)@, res) == limits_turn(
            views(old(positions)@),
            cfg@,
            run@,
            reply_view(limits),
        ),
{
    match limits {
        Ok(l) => {
            proof {
                lemma_order_value(run.qty as int, run.price as int);
            }
            let needed: i128 = run.qty as i128 * run.price as i128 + FUNDS_BUFFER as i128;
            if (l.net as i128) < needed {
                close_at(positions, run.ctx.pos_id.as_str());
                let mut n: Notice = notice(
                    NoticeCode::FundsShort,
                    true,
                    run.ctx.instrument.as_str(),
                );
                n.qty = run.qty as i64;
                n.price = run.price;
                n.level = l.net;
                finish(n)
            } else {
                let order: OrderRequest = build_market_order(
                    &run.ctx.base,
                    TransactionType::Buy,
                    run.qty,
                    cfg.entry_market_protection,
                );
                quiet(LiveStep::Place { order, purpose: PlacePurpose::Entry, run })
            }
        },
        Err(e) => {
            close_at(positions, run.ctx.pos_id.as_str());
            let mut n: Notice = notice(NoticeCode::FundsUnread, true, run.ctx.instrument.as_str());
            n.detail = e;
            finish(n)
        },
    }
}

proof fn lemma_order_value(qty: int, price: int)
    by (nonlinear_arith)
    requires
        i32::MIN <= qty <= i32::MAX,
        i64::MIN <= price <= i64::MAX,
    ensures
        -0x8000_0000_0000_0000 * 0x8000_0000 <= qty * price <= 0x8000_0000_0000_0000 * 0x8000_0000,
{
}

/// A position with a sale in flight.
pub open spec fn sale_pending(
    p: MonitoredPositionView,
    order_id: Seq<char>,
    qty: i32,
    reason: Seq<char>,
) -> MonitoredPositionView {
    MonitoredPositionView {
        pending_exit_order_id: Some(order_id),
        pending_exit_qty: qty,
        pending_exit_reason: Some(reason),
        ..p
    }
}

/// How a decision ends once its order was placed or rejected.
pub open spec fn place_turn(
    ps: Seq<MonitoredPositionView>,
    purpose: PlacePurpose,
    run: LiveRunView,
    reply: Result<Seq<char>, OrderFaultView>,
) -> Turn {
    let id = run.ctx.pos_id;
    let p = with_id(ps, id);
    match reply {
        Ok(order_id) => {
            let n = NoticeView {
                order_id,
                qty: run.qty as i64,
                reason: run.reason,
                ..run_notice(
                    if purpose == PlacePurpose::Entry {
                        NoticeCode::EntryPlaced
                    } else {
                        NoticeCode::ExitPlaced
                    },
                    false,
                    run,
                )
            };
            let q = match purpose {
                PlacePurpose::Entry => MonitoredPositionView {
                    entry_order_id: Some(order_id),
                    entry_cancel_sent: false,
                    ..p
                },
                PlacePurpose::Exit => MonitoredPositionView {
                    force_exit: None,
                    override_exit_price: None,
                    ..sale_pending(p, order_id, run.qty, run.reason)
                },
                _ => sale_pending(p, order_id, run.qty, run.reason),
            };
            done_with(put_id(ps, id, q), n)
        },
        Err(e) => {
            let code = if outcome_unknown(e) {
                NoticeCode::OutcomeUnknown
            } else {
                match purpose {
                    PlacePurpose::Entry => NoticeCode::EntryRejected,
                    PlacePurpose::Target1 => NoticeCode::Target1Rejected,
                    PlacePurpose::Exit => NoticeCode::ExitRejected,
                    PlacePurpose::Manual => NoticeCode::ManualSellRejected,
                }
            };
            let n = NoticeView {
                reason: run.reason,
                detail: fault_text(e),
                qty: run.qty as i64,
                other_qty: run.ctx.executed_qty as i64,
                ..run_notice(code, true, run)
            };
            if outcome_unknown(e) {
                done_with(put_id(ps, id, outcome_awaited(p)), n)
            } else {
                match purpose {
                    PlacePurpose::Entry => done_with(put_id(ps, id, closed(p)), n),
                    PlacePurpose::Target1 => done_with(
                        put_id(
                            ps,
                            id,
                            MonitoredPositionView { force_exit: Some("TGT1_EXIT_FAILED"@), ..p },
                        ),
                        n,
                    ),
                    PlacePurpose::Exit => Turn {
                        positions: put_id(ps, id, exit_failed(p)),
                        step: LiveStepView::Done { changed: true },
                        effects: seq![EffectView::Note(n)] + given_up_note(
                            ps,
                            id,
                            run.ctx.instrument,
                        ),
                    },
                    PlacePurpose::Manual => done_with(ps, n),
                }
            }
        },
    }
}

fn order_accepted(
    positions: &mut Vec<MonitoredPosition>,
    purpose: PlacePurpose,
    run: LiveRun,
    order_id: String,
) -> (res: (LiveStep, Vec<Effect>))
    ensures
        turn(final(positions)@, res) == place_turn(
            views(old(positions)@),
            purpose,
            run@,
            Ok(order_id@),
        ),
{
    let ghost ps = views(positions@);
    let code: NoticeCode = if purpose == PlacePurpose::Entry {
        NoticeCode::EntryPlaced
    } else {
        NoticeCode::ExitPlaced
    };
    let mut n: Notice = notice(code, false, run.ctx.instrument.as_str());
    n.order_id = order_id.clone();
    n.qty = run.qty as i64;
    n.reason = run.reason.clone();
    let ghost said = order_id@;
    if let Some(i) = find_position(positions, run.ctx.pos_id.as_str()) {
        let p: &mut MonitoredPosition = &mut positions[i];
        if purpose == PlacePurpose::Entry {
            p.entry_order_id = Some(order_id);
            p.entry_cancel_sent = false;
        } else {
            p.pending_exit_order_id = Some(order_id);
            p.pending_exit_qty = run.qty;
            p.pending_exit_reason = Some(run.reason.clone());
            if purpose == PlacePurpose::Exit {
                p.force_exit = None;
                p.override_exit_price = None;
            }
        }
    }
    proof {
        assert(views(positions@) =~= place_turn(ps, purpose, run@, Ok(said)).positions);
    }
    finish(n)
}

fn order_rejected(
    positions: &mut Vec<MonitoredPosition>,
    purpose: PlacePurpose,
    run: LiveRun,
    fault: OrderFault,
) -> (res: (LiveStep, Vec<Effect>))
    requires
        !outcome_unknown(fault@),
    ensures
        turn(final(positions)@, res) == place_turn(
            views(old(positions)@),
            purpose,
            run@,
            Err(fault@),
        ),
{
    let ghost ps = views(positions@);
    let ghost said = fault@;
    let code: NoticeCode = match purpose {
        PlacePurpose::Entry => NoticeCode::EntryRejected,
        PlacePurpose::Target1 => NoticeCode::Target1Rejected,
        PlacePurpose::Exit => NoticeCode::ExitRejected,
        PlacePurpose::Manual => NoticeCode::ManualSellRejected,
    };
    let mut n: Notice = notice(code, true, run.ctx.instrument.as_str());
    n.reason = run.reason.clone();
    n.detail = fault.message();
    n.qty = run.qty as i64;
    n.other_qty = run.ctx.executed_qty as i64;
    match purpose {
        PlacePurpose::Entry => {
            close_at(positions, run.ctx.pos_id.as_str());
            finish(n)
        },
        PlacePurpose::Target1 => {
            if let Some(i) = find_position(positions, run.ctx.pos_id.as_str()) {
                let p: &mut MonitoredPosition = &mut positions[i];
                p.force_exit = Some("TGT1_EXIT_FAILED".to_string());
            }
            proof {
                assert(views(positions@) =~= place_turn(ps, purpose, run@, Err(said)).positions);
            }
            finish(n)
        },
        PlacePurpose::Exit => {
            let (step, mut effects): (LiveStep, Vec<Effect>) = finish(n);
            bump_exit_attempts(
                positions,
                &mut effects,
                run.ctx.pos_id.as_str(),
                run.ctx.instrument.as_str(),
            );
            (step, effects)
        },
        PlacePurpose::Manual => finish(n),
    }
}

fn order_unanswered(
    positions: &mut Vec<MonitoredPosition>,
    purpose: PlacePurpose,
    run: LiveRun,
    fault: OrderFault,
) -> (res: (LiveStep, Vec<Effect>))
    requires
        outcome_unknown(fault@),
    ensures
        turn(final(positions)@, res) == place_turn(
            views(old(positions)@),
            purpose,
            run@,
            Err(fault@),
        ),
{
    let ghost ps = views(positions@);
    let mut n: Notice = notice(NoticeCode::OutcomeUnknown, true, run.ctx.instrument.as_str());
    n.reason = run.reason.clone();
    n.detail = fault.message();
    n.qty = run.qty as i64;
    n.other_qty = run.ctx.executed_qty as i64;
    if let Some(i) = find_position(positions, run.ctx.pos_id.as_str()) {
        let p: &mut MonitoredPosition = &mut positions[i];
        p.live_halt = Some("outcome of an order is unknown".to_string());
    }
    proof {
        assert(views(positions@) =~= place_turn(ps, purpose, run@, Err(fault@)).positions);
    }
    finish(n)
}

/// Go on with a decision once its order was placed, with the number of the order, was
/// rejected, or got no answer. An order without an answer is not taken for rejected: the
/// position is kept and left alone.
pub fn after_place(
    positions: &mut Vec<MonitoredPosition>,
    purpose: PlacePurpose,
    run: LiveRun,
    reply: Result<String, OrderFault>,
) -> (res: (LiveStep, Vec<Effect>))
    ensures
        turn(final(positions)@, res) == place_turn(
            views(old(positions)@),
            purpose,
            run@,
            placed_view(reply),
        ),
{
    match reply {
        Ok(order_id) => order_accepted(positions, purpose, run, order_id),
        Err(e) => if e.is_ambiguous() {
            order_unanswered(positions, purpose, run, e)
        } else {
            order_rejected(positions, purpose, run, e)
        },
    }
}

/// How a sale goes on once the stop in its way is gone.
pub open spec fn stop_gone_turn(
    ps: Seq<MonitoredPositionView>,
    run: LiveRunView,
    effects: Seq<EffectView>,
) -> Turn {
    Turn {
        positions: put_id(ps, run.ctx.pos_id, stop_forgotten(with_id(ps, run.ctx.pos_id))),
        step: exit_sale(run),
        effects,
    }
}

fn forget_stop_at(positions: &mut Vec<MonitoredPosition>, id: &str)
    ensures
        views(final(positions)@) == put_id(
            views(old(positions)@),
            id@,
            stop_forgotten(with_id(views(old(positions)@), id@)),
        ),
{
    let ghost ps = views(positions@);
    if let Some(i) = find_position(positions, id) {
        forget_stop(&mut positions[i]);
    }
    assert(views(positions@) =~= put_id(ps, id@, stop_forgotten(with_id(ps, id@))));
}

/// How a decision goes on once an order was cancelled, or could not be.
pub open spec fn cancel_turn(
    ps: Seq<MonitoredPositionView>,
    purpose: CancelPurpose,
    run: LiveRunView,
    reply: Result<(), Seq<char>>,
) -> Turn {
    let id = run.ctx.pos_id;
    match (purpose, reply) {
        (CancelPurpose::Abandon, Ok(_)) => abandon_turn(ps, run),
        (CancelPurpose::Abandon, Err(e)) => done_with(
            put_id(ps, id, MonitoredPositionView { entry_cancel_sent: true, ..with_id(ps, id) }),
            NoticeView {
                order_id: run.order_id,
                reason: run.reason,
                detail: e,
                ..run_notice(NoticeCode::EntryCancelFailed, true, run)
            },
        ),
        (CancelPurpose::Stop, Ok(_)) => stop_gone_turn(ps, run, Seq::empty()),
        (CancelPurpose::Stop, Err(e)) => Turn {
            positions: ps,
            step: LiveStepView::ReadBook { run: LiveRunView { error: e, ..run } },
            effects: Seq::empty(),
        },
    }
}

/// Go on with a decision once the order of the run was cancelled, or could not be.
pub fn after_cancel(
    positions: &mut Vec<MonitoredPosition>,
    purpose: CancelPurpose,
    run: LiveRun,
    reply: Result<(), String>,
) -> (res: (LiveStep, Vec<Effect>))
    ensures
        turn(final(positions)@, res) == cancel_turn(
            views(old(positions)@),
            purpose,
            run@,
            reply_view(reply),
        ),
{
    let ghost ps = views(positions@);
    match purpose {
        CancelPurpose::Abandon => match reply {
            Ok(_) => abandon(positions, run),
            Err(e) => {
                if let Some(i) = find_position(positions, run.ctx.pos_id.as_str()) {
                    let p: &mut MonitoredPosition = &mut positions[i];
                    p.entry_cancel_sent = true;
                }
                let mut n: Notice = notice(
                    NoticeCode::EntryCancelFailed,
                    true,
                    run.ctx.instrument.as_str(),
                );
                n.order_id = run.order_id.clone();
                n.reason = run.reason.clone();
                let ghost said = e@;
                n.detail = e;
                proof {
                    assert(views(positions@) =~= cancel_turn(
                        ps,
                        purpose,
                        run@,
                        Err(said),
                    ).positions);
                }
                finish(n)
            },
        },
        CancelPurpose::Stop => match reply {
            Ok(_) => {
                forget_stop_at(positions, run.ctx.pos_id.as_str());
                quiet(place_exit(run))
            },
            Err(e) => {
                let mut run: LiveRun = run;
                run.error = e;
                quiet(LiveStep::ReadBook { run })
            },
        },
    }
}

/// Whether the order `id` is still working, by the rows of the book from `from` on.
pub open spec fn still_working(book: Seq<KotakOrderView>, id: Seq<char>) -> bool {
    exists|i: int|
        0 <= i < book.len() && trimmed((#[trigger] book[i]).order_no) == trimmed(id)
            && !book[i].terminal()
}

fn is_still_working(book: &Vec<KotakOrder>, id: &str) -> (res: bool)
    ensures
        res == still_working(book_view(book@), id@),
{
    let wanted: String = trim(id);
    let ghost rows = book_view(book@);
    let mut i: usize = 0;
    while i < book.len()
        invariant
            i <= book@.len(),
            rows == book_view(book@),
            wanted@ == trimmed(id@),
            forall|j: int|
                0 <= j < i ==> !(trimmed((#[trigger] rows[j]).order_no) == trimmed(id@)
                    && !rows[j].terminal()),
        decreases book@.len() - i,
    {
        assert(rows[i as int] == book@[i as int]@);
        if same_text(trim(book[i].order_no.as_str()).as_str(), wanted.as_str())
            && !book[i].is_terminal() {
            return true;
        }
        i += 1;
    }
    false
}

/// How a sale goes on once the order book was read because the stop in its way could not be
/// cancelled. A stop that is not working cannot sell as well, so the sale goes on. A book
/// that could not be read leaves the stop standing.
pub open spec fn book_turn(
    ps: Seq<MonitoredPositionView>,
    run: LiveRunView,
    book: Option<Seq<KotakOrderView>>,
) -> Turn {
    let id = run.ctx.pos_id;
    let working = book is None || still_working(book->0, run.order_id);
    let n = NoticeView {
        order_id: run.order_id,
        reason: run.reason,
        detail: run.error,
        ..run_notice(
            if working {
                NoticeCode::StopCancelFailed
            } else {
                NoticeCode::StopAlreadyGone
            },
            true,
            run,
        )
    };
    if working {
        Turn {
            positions: put_id(ps, id, exit_failed(with_id(ps, id))),
            step: LiveStepView::Done { changed: true },
            effects: seq![EffectView::Note(n)] + given_up_note(ps, id, run.ctx.instrument),
        }
    } else {
        stop_gone_turn(ps, run, seq![EffectView::Note(n)])
    }
}

/// What an optional order book says.
pub open spec fn opt_book(book: Option<Vec<KotakOrder>>) -> Option<Seq<KotakOrderView>> {
    match book {
        Some(b) => Some(book_view(b@)),
        None => None,
    }
}

/// Go on with a sale once the order book was read, or could not be.
pub fn after_book(
    positions: &mut Vec<MonitoredPosition>,
    run: LiveRun,
    book: Option<Vec<KotakOrder>>,
) -> (res: (LiveStep, Vec<Effect>))
    ensures
        turn(final(positions)@, res) == book_turn(
            views(old(positions)@),
            run@,
            opt_book(book),
        ),
{
    let working: bool = match &book {
        Some(b) => is_still_working(b, run.order_id.as_str()),
        None => true,
    };
    let code: NoticeCode = if working {
        NoticeCode::StopCancelFailed
    } else {
        NoticeCode::StopAlreadyGone
    };
    let mut n: Notice = notice(code, true, run.ctx.instrument.as_str());
    n.order_id = run.order_id.clone();
    n.reason = run.reason.clone();
    n.detail = run.error.clone();
    let (done, mut effects): (LiveStep, Vec<Effect>) = finish(n);
    if working {
        bump_exit_attempts(
            positions,
            &mut effects,
            run.ctx.pos_id.as_str(),
            run.ctx.instrument.as_str(),
        );
        (done, effects)
    } else {
        forget_stop_at(positions, run.ctx.pos_id.as_str());
        (place_exit(run), effects)
    }
}

// ---------------------------------------------------------------------------
// Laws of carrying out
// ---------------------------------------------------------------------------

/// Whether a step places an order to leave a position as a whole.
pub open spec fn places_exit(step: LiveStepView) -> bool {
    step matches LiveStepView::Place { purpose: PlacePurpose::Exit, .. }
}

/// The sale of an exit is never placed while a stop of the position is on record: the stop is
/// cancelled first.
pub proof fn exit_waits_for_the_stop(
    ps: Seq<MonitoredPositionView>,
    id: Seq<char>,
    action: LiveActionView,
)
    requires
        has_id(ps, id),
        with_id(ps, id).sl_order_id is Some,
    ensures
        !places_exit(begun(ps, id, action).step),
{
}

/// Where a stop could not be cancelled, the sale of the exit is only placed if the order
/// book was read and shows the stop as no longer working.
pub proof fn no_sale_beside_a_working_stop(
    ps: Seq<MonitoredPositionView>,
    run: LiveRunView,
    book: Option<Seq<KotakOrderView>>,
    error: Seq<char>,
)
    ensures
        !places_exit(cancel_turn(ps, CancelPurpose::Stop, run, Err(error)).step),
        places_exit(book_turn(ps, run, book).step) ==> book is Some && !still_working(
            book->0,
            run.order_id,
        ),
{
}

/// An entry is only placed where the account has the price of the order and the buffer.
pub proof fn entries_are_paid_for(
    ps: Seq<MonitoredPositionView>,
    cfg: TradingConfigView,
    run: LiveRunView,
    limits: Result<KotakLimits, Seq<char>>,
)
    ensures
        limits_turn(ps, cfg, run, limits).step is Place ==> (limits matches Ok(l) && l.net
            >= run.qty * run.price + FUNDS_BUFFER),
        !(limits_turn(ps, cfg, run, limits).step is Place) && has_id(ps, run.ctx.pos_id) ==> (
        with_id(limits_turn(ps, cfg, run, limits).positions, run.ctx.pos_id).state
            == TradeState::Closed),
{
    let id = run.ctx.pos_id;
    lemma_id_index(ps, id, 0);
    let after = limits_turn(ps, cfg, run, limits).positions;
    if has_id(ps, id) {
        lemma_id_index(after, id, 0);
        lemma_put_keeps_index(ps, id, closed(with_id(ps, id)));
    }
}

proof fn lemma_put_keeps_index(
    ps: Seq<MonitoredPositionView>,
    id: Seq<char>,
    p: MonitoredPositionView,
)
    requires
        has_id(ps, id),
        p.id == id,
    ensures
        id_index(put_id(ps, id, p), id, 0) == id_index(ps, id, 0),
        has_id(put_id(ps, id, p), id),
        with_id(put_id(ps, id, p), id) == p,
{
    let i = id_index(ps, id, 0);
    let qs = put_id(ps, id, p);
    lemma_id_index(ps, id, 0);
    lemma_id_index(qs, id, 0);
    let j = id_index(qs, id, 0);
    assert(qs[i].id == id);
    if j < i {
        assert(qs[j] == ps[j]);
    }
}

/// After three failed exits in a row a position is halted, and a halted position keeps no
/// forced exit.
pub proof fn third_failure_halts(p: MonitoredPositionView)
    requires
        p.exit_attempts >= MAX_EXIT_ATTEMPTS - 1,
    ensures
        exit_failed(p).live_halt is Some,
        exit_failed(p).force_exit is None,
        exit_failed(p).exit_attempts >= MAX_EXIT_ATTEMPTS,
{
}

/// An order that got no definite answer is never taken for rejected: the position keeps all it
/// has and is left alone, whatever the order was for.
pub proof fn unanswered_orders_are_not_rejected(
    ps: Seq<MonitoredPositionView>,
    purpose: PlacePurpose,
    run: LiveRunView,
    fault: OrderFaultView,
)
    requires
        has_id(ps, run.ctx.pos_id),
        outcome_unknown(fault),
    ensures
        ({
            let p = with_id(ps, run.ctx.pos_id);
            let q = with_id(place_turn(ps, purpose, run, Err(fault)).positions, run.ctx.pos_id);
            &&& q.live_halt is Some
            &&& q == (MonitoredPositionView { live_halt: q.live_halt, ..p })
        }),
{
    let id = run.ctx.pos_id;
    lemma_id_index(ps, id, 0);
    lemma_put_keeps_index(ps, id, outcome_awaited(with_id(ps, id)));
}

/// A sale that was placed is on record with its quantity and reason, so that nothing more
/// is decided for the position until it is settled.
pub proof fn placed_sale_is_on_record(
    ps: Seq<MonitoredPositionView>,
    purpose: PlacePurpose,
    run: LiveRunView,
    order_id: Seq<char>,
)
    requires
        purpose != PlacePurpose::Entry,
        has_id(ps, run.ctx.pos_id),
    ensures
        ({
            let p = with_id(place_turn(ps, purpose, run, Ok(order_id)).positions, run.ctx.pos_id);
            &&& p.pending_exit_order_id == Some(order_id)
            &&& p.pending_exit_qty == run.qty
            &&& p.pending_exit_reason == Some(run.reason)
        }),
{
    lemma_placed_sale(ps, purpose, run, order_id);
}

/// The sale that a decision places is covered by what is held: no more is out for sale than
/// that, as long as a stop that rests at the broker leaves room for it.
pub proof fn placed_sales_are_covered(
    ps: Seq<MonitoredPositionView>,
    id: Seq<char>,
    ltp: Option<i64>,
    cfg: TradingConfigView,
    entry_cutoff: bool,
    retry_window: bool,
    now: IstTime,
    order_id: Seq<char>,
)
    requires
        has_id(ps, id),
        with_id(ps, id).sl_order_id is None || (decision(
            with_id(ps, id),
            ltp,
            cfg,
            entry_cutoff,
            retry_window,
            now,
        ) matches Some(a) ==> with_id(ps, id).sl_order_qty + sold_by(a) <= with_id(
            ps,
            id,
        ).executed_qty),
    ensures
        decision(with_id(ps, id), ltp, cfg, entry_cutoff, retry_window, now) matches Some(a) ==> (
        begun(ps, id, a).step matches LiveStepView::Place { purpose, run, .. } ==> {
            let p = with_id(
                place_turn(begun(ps, id, a).positions, purpose, run, Ok(order_id)).positions,
                id,
            );
            &&& p.pending_exit_order_id == Some(order_id)
            &&& p.pending_exit_qty > 0
            &&& out_for_sale(p) <= p.executed_qty
        }),
{
    let p = with_id(ps, id);
    lemma_id_index(ps, id, 0);
    never_sells_more_than_held(p, ltp, cfg, entry_cutoff, retry_window, now);
    if let Some(a) = decision(p, ltp, cfg, entry_cutoff, retry_window, now) {
        if let LiveStepView::Place { purpose, run, .. } = begun(ps, id, a).step {
            let qs = begun(ps, id, a).positions;
            if let LiveActionView::Target1 { new_sl, next_dynamic_target, dynamic_rung, .. } = a {
                lemma_put_keeps_index(ps, id, at_target1(p, new_sl, next_dynamic_target, dynamic_rung));
            }
            if a is ManualSell {
                lemma_put_keeps_index(ps, id, MonitoredPositionView { manual_sell_qty: None, ..p });
            }
            lemma_placed_sale(qs, purpose, run, order_id);
        }
    }
}

/// Where a stop of a position rests at the broker, leaving the position first withdraws it:
/// once it is withdrawn, the sale that is placed is all that is out for sale, and is covered by
/// what is held.
pub proof fn exits_replace_the_stop(
    ps: Seq<MonitoredPositionView>,
    id: Seq<char>,
    ltp: Option<i64>,
    cfg: TradingConfigView,
    entry_cutoff: bool,
    retry_window: bool,
    now: IstTime,
    order_id: Seq<char>,
)
    requires
        has_id(ps, id),
        with_id(ps, id).sl_order_id is Some,
    ensures
        decision(with_id(ps, id), ltp, cfg, entry_cutoff, retry_window, now) matches Some(a) ==> (
        a is ExitAll ==> {
            &&& begun(ps, id, a).step matches LiveStepView::Cancel { aim, run }
            &&& aim == CancelPurpose::Stop
            &&& Some(run.order_id) == with_id(ps, id).sl_order_id
            &&& cancel_turn(begun(ps, id, a).positions, aim, run, Ok(())).step
                matches LiveStepView::Place { purpose, run: sale, .. }
            &&& purpose == PlacePurpose::Exit
            &&& {
                let p = with_id(
                    place_turn(
                        cancel_turn(begun(ps, id, a).positions, aim, run, Ok(())).positions,
                        purpose,
                        sale,
                        Ok(order_id),
                    ).positions,
                    id,
                );
                &&& p.sl_order_id is None
                &&& p.pending_exit_order_id == Some(order_id)
                &&& 0 < out_for_sale(p) <= p.executed_qty
            }
        }),
{
    let p = with_id(ps, id);
    lemma_id_index(ps, id, 0);
    never_sells_more_than_held(p, ltp, cfg, entry_cutoff, retry_window, now);
    lemma_put_keeps_index(ps, id, stop_forgotten(p));
    if let Some(a) = decision(p, ltp, cfg, entry_cutoff, retry_window, now) {
        if let LiveStepView::Cancel { aim, run } = begun(ps, id, a).step {
            if aim == CancelPurpose::Stop {
                let t = cancel_turn(ps, aim, run, Ok(()));
                lemma_placed_sale(t.positions, PlacePurpose::Exit, run, order_id);
            }
        }
    }
}

/// What a placed sale changes of a position, as far as what is held and out for sale goes.
proof fn lemma_placed_sale(
    ps: Seq<MonitoredPositionView>,
    purpose: PlacePurpose,
    run: LiveRunView,
    order_id: Seq<char>,
)
    requires
        purpose != PlacePurpose::Entry,
        has_id(ps, run.ctx.pos_id),
    ensures
        ({
            let p = with_id(ps, run.ctx.pos_id);
            let q = with_id(place_turn(ps, purpose, run, Ok(order_id)).positions, run.ctx.pos_id);
            &&& q.pending_exit_order_id == Some(order_id)
            &&& q.pending_exit_qty == run.qty
            &&& q.pending_exit_reason == Some(run.reason)
            &&& q.executed_qty == p.executed_qty
            &&& q.sl_order_id == p.sl_order_id
            &&& q.sl_order_qty == p.sl_order_qty
        }),
{
    let id = run.ctx.pos_id;
    let p = with_id(ps, id);
    lemma_id_index(ps, id, 0);
    lemma_put_keeps_index(ps, id, sale_pending(p, order_id, run.qty, run.reason));
    lemma_put_keeps_index(
        ps,
        id,
        MonitoredPositionView {
            force_exit: None,
            override_exit_price: None,
            ..sale_pending(p, order_id, run.qty, run.reason)
        },
    );
}

/// Whether an order trades `qty` of the contract of `base` at market: its quantity, read as a
/// number, is `qty`, and it names no price.
pub open spec fn trades_at_market(
    o: OrderRequestView,
    base: OrderRequestView,
    side: TransactionType,
    qty: i32,
) -> bool {
    &&& written_i32(o.quantity) == Some(qty as int)
    &&& o.transaction_type == side
    &&& o.order_type == OrderType::Market
    &&& o.price == "0"@
    &&& o.trigger_price == "0"@
    &&& o.trading_symbol == base.trading_symbol
    &&& o.exchange_segment == base.exchange_segment
    &&& o.product_code == base.product_code
    &&& o.after_market_order == base.after_market_order
    &&& o.disclosed_quantity == base.disclosed_quantity
    &&& o.portfolio_flag == base.portfolio_flag
}

/// Every order that is placed says in its quantity what the run is for: read as a number, the
/// quantity is that of the run. An entry buys, anything else sells, and what leaves a position
/// does not rest at the broker.
pub proof fn orders_are_for_what_is_run(
    ps: Seq<MonitoredPositionView>,
    id: Seq<char>,
    action: LiveActionView,
    cfg: TradingConfigView,
    run: LiveRunView,
    limits: Result<KotakLimits, Seq<char>>,
    aim: CancelPurpose,
    reply: Result<(), Seq<char>>,
    book: Option<Seq<KotakOrderView>>,
)
    ensures
        begun(ps, id, action).step matches LiveStepView::Place { order, purpose, run: r } ==> {
            &&& purpose != PlacePurpose::Entry
            &&& trades_at_market(order, r.ctx.base, TransactionType::Sell, r.qty)
            &&& written_millionths(order.market_protection) == Some(0int)
            &&& purpose != PlacePurpose::Manual ==> order.validity == Validity::Ioc
            &&& purpose == PlacePurpose::Manual ==> order.validity == r.ctx.base.validity
        },
        limits_turn(ps, cfg, run, limits).step matches LiveStepView::Place { order, purpose, run: r }
            ==> {
            &&& purpose == PlacePurpose::Entry && r == run
            &&& trades_at_market(order, r.ctx.base, TransactionType::Buy, r.qty)
            &&& order.validity == r.ctx.base.validity
        },
        cancel_turn(ps, aim, run, reply).step matches LiveStepView::Place { order, purpose, run: r }
            ==> {
            &&& purpose == PlacePurpose::Exit && r == run
            &&& trades_at_market(order, r.ctx.base, TransactionType::Sell, r.qty)
            &&& written_millionths(order.market_protection) == Some(0int)
            &&& order.validity == Validity::Ioc
        },
        book_turn(ps, run, book).step matches LiveStepView::Place { order, purpose, run: r } ==> {
            &&& purpose == PlacePurpose::Exit && r == run
            &&& trades_at_market(order, r.ctx.base, TransactionType::Sell, r.qty)
            &&& written_millionths(order.market_protection) == Some(0int)
            &&& order.validity == Validity::Ioc
        },
{
    printed_int_reads_back(run.qty);
    printed_int_reads_back(sold_by(action) as i32);
    printed_amounts_read_back(0);
}

/// A decision to sell is carried out for the quantity that was decided on: that quantity is
/// what the order says, what the run keeps, and what is on record as in flight once the order
/// was taken. The order is on the contract of the position.
pub proof fn decided_sales_are_ordered(
    ps: Seq<MonitoredPositionView>,
    id: Seq<char>,
    action: LiveActionView,
    order_id: Seq<char>,
)
    requires
        has_id(ps, id),
        with_id(ps, id).resolved_order is Some,
        with_id(ps, id).sl_order_id is None || !(action is ExitAll),
        action matches LiveActionView::ExitAll { qty, .. } ==> qty > 0,
    ensures
        action matches LiveActionView::Target1 { slice, .. } ==> sells_on_record(
            ps,
            id,
            begun(ps, id, action),
            PlacePurpose::Target1,
            slice,
            "TGT1_PARTIAL"@,
            order_id,
        ),
        action matches LiveActionView::ManualSell { qty } ==> sells_on_record(
            ps,
            id,
            begun(ps, id, action),
            PlacePurpose::Manual,
            qty,
            "MANUAL_SELL"@,
            order_id,
        ),
        action matches LiveActionView::ExitAll { qty, reason } ==> sells_on_record(
            ps,
            id,
            begun(ps, id, action),
            PlacePurpose::Exit,
            qty,
            reason,
            order_id,
        ),
{
    let p = with_id(ps, id);
    lemma_id_index(ps, id, 0);
    printed_int_reads_back(sold_by(action) as i32);
    if let LiveActionView::Target1 { new_sl, next_dynamic_target, dynamic_rung, .. } = action {
        lemma_put_keeps_index(ps, id, at_target1(p, new_sl, next_dynamic_target, dynamic_rung));
    }
    if action is ManualSell {
        lemma_put_keeps_index(ps, id, MonitoredPositionView { manual_sell_qty: None, ..p });
    }
    if let LiveStepView::Place { purpose, run, .. } = begun(ps, id, action).step {
        lemma_placed_sale(begun(ps, id, action).positions, purpose, run, order_id);
    }
}

/// Whether a turn places a sale of `qty` on the contract of the position `id`, which goes on
/// record with that quantity and reason once it was taken.
pub open spec fn sells_on_record(
    ps: Seq<MonitoredPositionView>,
    id: Seq<char>,
    t: Turn,
    aim: PlacePurpose,
    qty: i32,
    reason: Seq<char>,
    order_id: Seq<char>,
) -> bool {
    &&& t.step matches LiveStepView::Place { order, purpose, run }
    &&& purpose == aim
    &&& run.qty == qty
    &&& trades_at_market(order, with_id(ps, id).resolved_order->0, TransactionType::Sell, qty)
    &&& {
        let q = with_id(place_turn(t.positions, purpose, run, Ok(order_id)).positions, id);
        &&& q.pending_exit_order_id == Some(order_id)
        &&& q.pending_exit_qty == qty
        &&& q.pending_exit_reason == Some(reason)
        &&& q.executed_qty == with_id(ps, id).executed_qty
    }
}

/// Where a stop rests at the broker, an exit first cancels that very order, and sells the
/// quantity that was decided on once it is gone: at once where the cancel went through, and
/// after the book showed it as ended where it did not.
pub proof fn exits_sell_once_the_stop_is_gone(
    ps: Seq<MonitoredPositionView>,
    id: Seq<char>,
    qty: i32,
    reason: Seq<char>,
    error: Seq<char>,
    book: Seq<KotakOrderView>,
    order_id: Seq<char>,
)
    requires
        has_id(ps, id),
        with_id(ps, id).resolved_order is Some,
        with_id(ps, id).sl_order_id is Some,
        qty > 0,
    ensures
        ({
            let t = begun(ps, id, LiveActionView::ExitAll { qty, reason });
            &&& t.positions == ps
            &&& t.step matches LiveStepView::Cancel { aim, run }
            &&& Some(run.order_id) == with_id(ps, id).sl_order_id
            &&& sells_on_record(
                ps,
                id,
                cancel_turn(ps, aim, run, Ok(())),
                PlacePurpose::Exit,
                qty,
                reason,
                order_id,
            )
            &&& cancel_turn(ps, aim, run, Err(error)).positions == ps
            &&& cancel_turn(ps, aim, run, Err(error)).step matches LiveStepView::ReadBook { run: r }
            &&& r.order_id == run.order_id && r.error == error
            &&& (forall|i: int|
                0 <= i < book.len() && trimmed((#[trigger] book[i]).order_no) == trimmed(
                    r.order_id,
                ) ==> book[i].terminal()) ==> sells_on_record(
                ps,
                id,
                book_turn(ps, r, Some(book)),
                PlacePurpose::Exit,
                qty,
                reason,
                order_id,
            )
        }),
{
    let p = with_id(ps, id);
    lemma_id_index(ps, id, 0);
    printed_int_reads_back(qty);
    lemma_put_keeps_index(ps, id, stop_forgotten(p));
    let run = LiveRunView {
        order_id: p.sl_order_id->0,
        ..new_run(ctx_of(p), qty, 0, reason, false)
    };
    let t = cancel_turn(ps, CancelPurpose::Stop, run, Ok(()));
    lemma_placed_sale(t.positions, PlacePurpose::Exit, run, order_id);
    lemma_placed_sale(
        t.positions,
        PlacePurpose::Exit,
        LiveRunView { error, ..run },
        order_id,
    );
}

/// Once the stop in the way of a sale is gone, no trace of it is left, and nothing else of the
/// position has changed.
pub proof fn a_gone_stop_leaves_no_trace(
    ps: Seq<MonitoredPositionView>,
    run: LiveRunView,
    book: Seq<KotakOrderView>,
)
    requires
        has_id(ps, run.ctx.pos_id),
    ensures
        ({
            let p = with_id(ps, run.ctx.pos_id);
            let q = with_id(
                cancel_turn(ps, CancelPurpose::Stop, run, Ok(())).positions,
                run.ctx.pos_id,
            );
            let r = with_id(book_turn(ps, run, Some(book)).positions, run.ctx.pos_id);
            &&& q.sl_order_id is None && q.sl_order_qty == 0 && q.sl_order_trigger == 0
            &&& q == (MonitoredPositionView {
                sl_order_id: None,
                sl_order_qty: 0,
                sl_order_trigger: 0,
                ..p
            })
            &&& (forall|i: int|
                0 <= i < book.len() && trimmed((#[trigger] book[i]).order_no) == trimmed(
                    run.order_id,
                ) ==> book[i].terminal()) ==> r == q
            &&& (exists|i: int|
                0 <= i < book.len() && trimmed((#[trigger] book[i]).order_no) == trimmed(
                    run.order_id,
                ) && !book[i].terminal()) ==> r.sl_order_id == p.sl_order_id
        }),
{
    let id = run.ctx.pos_id;
    lemma_id_index(ps, id, 0);
    lemma_put_keeps_index(ps, id, stop_forgotten(with_id(ps, id)));
    lemma_put_keeps_index(ps, id, exit_failed(with_id(ps, id)));
}

/// A decision to buy first asks for the funds and changes nothing. Where the account has what
/// the order takes and five hundred rupees more, exactly the quantity that was decided on is
/// bought, on the contract of the position; otherwise the position is over and nothing else of
/// it has changed.
pub proof fn decided_entries_are_ordered(
    ps: Seq<MonitoredPositionView>,
    id: Seq<char>,
    qty: i32,
    ltp: i64,
    cfg: TradingConfigView,
    l: KotakLimits,
    error: Seq<char>,
)
    requires
        has_id(ps, id),
        with_id(ps, id).resolved_order is Some,
    ensures
        ({
            let p = with_id(ps, id);
            let t = begun(ps, id, LiveActionView::PlaceEntry { qty, ltp });
            &&& t.positions == ps
            &&& t.effects.len() == 0
            &&& t.step matches LiveStepView::ReadLimits { run }
            &&& run.qty == qty && run.price == ltp && run.ctx.pos_id == id
            &&& {
                let u = limits_turn(ps, cfg, run, Ok(l));
                &&& l.net >= qty * ltp + 500_000_000 ==> {
                    &&& u.positions == ps
                    &&& u.step matches LiveStepView::Place { order, purpose, run: r }
                    &&& purpose == PlacePurpose::Entry && r == run
                    &&& trades_at_market(order, p.resolved_order->0, TransactionType::Buy, qty)
                    &&& written_millionths(order.market_protection) == Some(
                        cfg.entry_market_protection as int,
                    )
                }
                &&& l.net < qty * ltp + 500_000_000 ==> u.step is Done && with_id(
                    u.positions,
                    id,
                ) == (MonitoredPositionView { state: TradeState::Closed, ..p }) && is_loud(u)
            }
            &&& {
                let u = limits_turn(ps, cfg, run, Err(error));
                u.step is Done && with_id(u.positions, id) == (MonitoredPositionView {
                    state: TradeState::Closed,
                    ..p
                }) && is_loud(u)
            }
        }),
{
    lemma_id_index(ps, id, 0);
    printed_int_reads_back(qty);
    printed_amounts_read_back(cfg.entry_market_protection);
    lemma_put_keeps_index(ps, id, closed(with_id(ps, id)));
}

/// Whether a turn begins its report with something that needs a human.
pub open spec fn is_loud(t: Turn) -> bool {
    t.effects.len() > 0 && (t.effects[0] matches EffectView::Note(n) && n.loud)
}

/// An entry that was taken is on record under the number of its order, and nothing else of the
/// position has changed.
pub proof fn placed_entry_is_on_record(
    ps: Seq<MonitoredPositionView>,
    run: LiveRunView,
    order_id: Seq<char>,
)
    requires
        has_id(ps, run.ctx.pos_id),
    ensures
        with_id(
            place_turn(ps, PlacePurpose::Entry, run, Ok(order_id)).positions,
            run.ctx.pos_id,
        ) == (MonitoredPositionView {
            entry_order_id: Some(order_id),
            entry_cancel_sent: false,
            ..with_id(ps, run.ctx.pos_id)
        }),
{
    let id = run.ctx.pos_id;
    lemma_id_index(ps, id, 0);
    lemma_put_keeps_index(
        ps,
        id,
        MonitoredPositionView {
            entry_order_id: Some(order_id),
            entry_cancel_sent: false,
            ..with_id(ps, id)
        },
    );
}

/// A sale that was taken ends a forced exit if it was the exit, and leaves it alone otherwise.
pub proof fn a_placed_exit_ends_the_forced_one(
    ps: Seq<MonitoredPositionView>,
    purpose: PlacePurpose,
    run: LiveRunView,
    order_id: Seq<char>,
)
    requires
        purpose != PlacePurpose::Entry,
        has_id(ps, run.ctx.pos_id),
    ensures
        ({
            let p = with_id(ps, run.ctx.pos_id);
            let q = with_id(place_turn(ps, purpose, run, Ok(order_id)).positions, run.ctx.pos_id);
            &&& q == (MonitoredPositionView {
                pending_exit_order_id: Some(order_id),
                pending_exit_qty: run.qty,
                pending_exit_reason: Some(run.reason),
                force_exit: q.force_exit,
                override_exit_price: q.override_exit_price,
                ..p
            })
            &&& purpose == PlacePurpose::Exit ==> q.force_exit is None && q.override_exit_price
                is None
            &&& purpose != PlacePurpose::Exit ==> q.force_exit == p.force_exit
                && q.override_exit_price == p.override_exit_price
        }),
{
    let id = run.ctx.pos_id;
    let p = with_id(ps, id);
    lemma_id_index(ps, id, 0);
    lemma_put_keeps_index(ps, id, sale_pending(p, order_id, run.qty, run.reason));
    lemma_put_keeps_index(
        ps,
        id,
        MonitoredPositionView {
            force_exit: None,
            override_exit_price: None,
            ..sale_pending(p, order_id, run.qty, run.reason)
        },
    );
}

/// What an order that was definitely not taken leads to, beside a loud report: an entry ends
/// the position, a sale at target 1 forces the whole position out, an exit counts as one more
/// failure, and a sale by hand changes nothing.
pub proof fn refused_orders_have_their_consequence(
    ps: Seq<MonitoredPositionView>,
    purpose: PlacePurpose,
    run: LiveRunView,
    fault: OrderFaultView,
)
    requires
        has_id(ps, run.ctx.pos_id),
        !(fault matches OrderFaultView::Broker(e) && (e is Http || e is Json)),
    ensures
        ({
            let p = with_id(ps, run.ctx.pos_id);
            let t = place_turn(ps, purpose, run, Err(fault));
            let q = with_id(t.positions, run.ctx.pos_id);
            &&& is_loud(t) && t.step is Done
            &&& purpose == PlacePurpose::Entry ==> q == (MonitoredPositionView {
                state: TradeState::Closed,
                ..p
            })
            &&& purpose == PlacePurpose::Target1 ==> q.force_exit is Some && q == (
            MonitoredPositionView { force_exit: q.force_exit, ..p })
            &&& purpose == PlacePurpose::Exit ==> one_more_failure(p, q)
            &&& purpose == PlacePurpose::Manual ==> t.positions == ps
        }),
{
    let id = run.ctx.pos_id;
    let p = with_id(ps, id);
    lemma_id_index(ps, id, 0);
    lemma_put_keeps_index(ps, id, closed(p));
    lemma_put_keeps_index(ps, id, exit_failed(p));
    lemma_put_keeps_index(
        ps,
        id,
        MonitoredPositionView { force_exit: Some("TGT1_EXIT_FAILED"@), ..p },
    );
}

/// Whether `q` is `p` after one more failed exit: the failure is counted, and the third in a
/// row halts the position and drops its forced exit.
pub open spec fn one_more_failure(p: MonitoredPositionView, q: MonitoredPositionView) -> bool {
    &&& p.exit_attempts < i32::MAX ==> q.exit_attempts == p.exit_attempts + 1
    &&& p.exit_attempts + 1 >= 3 ==> q.live_halt is Some && q.force_exit is None && q == (
    MonitoredPositionView {
        exit_attempts: q.exit_attempts,
        live_halt: q.live_halt,
        force_exit: None,
        ..p
    })
    &&& p.exit_attempts + 1 < 3 ==> q == (MonitoredPositionView {
        exit_attempts: q.exit_attempts,
        ..p
    })
}

/// A stop that could not be cancelled and is not known to be gone counts as a failed exit,
/// with a loud report, and nothing is sold.
pub proof fn a_standing_stop_is_a_failed_exit(
    ps: Seq<MonitoredPositionView>,
    run: LiveRunView,
    book: Option<Seq<KotakOrderView>>,
    i: int,
)
    requires
        has_id(ps, run.ctx.pos_id),
        book is Some ==> 0 <= i < book->0.len() && trimmed(book->0[i].order_no) == trimmed(
            run.order_id,
        ) && !book->0[i].terminal(),
    ensures
        ({
            let t = book_turn(ps, run, book);
            &&& t.step is Done && is_loud(t)
            &&& one_more_failure(
                with_id(ps, run.ctx.pos_id),
                with_id(t.positions, run.ctx.pos_id),
            )
        }),
{
    let id = run.ctx.pos_id;
    lemma_id_index(ps, id, 0);
    lemma_put_keeps_index(ps, id, exit_failed(with_id(ps, id)));
}

/// Giving up an entry without an order at the broker ends the position. With an order, that
/// very order is cancelled first, and only once: where the cancel goes through the position is
/// over, where it fails the position is kept and the attempt is on record.
pub proof fn given_up_entries_are_cancelled_once(
    ps: Seq<MonitoredPositionView>,
    id: Seq<char>,
    reason: Seq<char>,
    loud: bool,
    error: Seq<char>,
)
    requires
        has_id(ps, id),
        with_id(ps, id).resolved_order is Some,
    ensures
        ({
            let p = with_id(ps, id);
            let t = begun(ps, id, LiveActionView::AbandonEntry { reason, loud });
            let over = MonitoredPositionView {
                state: TradeState::Closed,
                entry_order_id: None,
                ..p
            };
            &&& p.entry_order_id is None ==> t.step is Done && with_id(t.positions, id) == over
                && is_loud(t) == loud
            &&& p.entry_order_id is Some && p.entry_cancel_sent ==> t.positions == ps && t.step
                == (LiveStepView::Done { changed: false })
            &&& p.entry_order_id is Some && !p.entry_cancel_sent ==> {
                &&& t.positions == ps
                &&& t.step matches LiveStepView::Cancel { aim, run }
                &&& Some(run.order_id) == p.entry_order_id
                &&& {
                    let u = cancel_turn(ps, aim, run, Ok(()));
                    u.step is Done && with_id(u.positions, id) == over && is_loud(u) == loud
                }
                &&& {
                    let u = cancel_turn(ps, aim, run, Err(error));
                    u.step is Done && is_loud(u) && with_id(u.positions, id) == (
                    MonitoredPositionView { entry_cancel_sent: true, ..p })
                }
            }
        }),
{
    let p = with_id(ps, id);
    lemma_id_index(ps, id, 0);
    lemma_put_keeps_index(ps, id, abandoned(p));
    lemma_put_keeps_index(ps, id, MonitoredPositionView { entry_cancel_sent: true, ..p });
}

/// At target 1 and at each rung the position takes over the stop and the rungs that were
/// decided on, before anything is sold; the rungs are counted from one. What is held does not
/// change.
pub proof fn targets_move_the_stop(
    ps: Seq<MonitoredPositionView>,
    id: Seq<char>,
    slice: i32,
    keep: i32,
    new_sl: i64,
    next: Option<i64>,
    rung: Option<i64>,
    next_target: i64,
    rung_hit: i64,
)
    requires
        has_id(ps, id),
        with_id(ps, id).resolved_order is Some,
    ensures
        ({
            let p = with_id(ps, id);
            let t = begun(
                ps,
                id,
                LiveActionView::Target1 {
                    slice,
                    keep,
                    new_sl,
                    next_dynamic_target: next,
                    dynamic_rung: rung,
                },
            );
            let q = with_id(t.positions, id);
            &&& q.state == TradeState::Target1Hit && q.current_sl == new_sl
            &&& q.next_dynamic_target == next && q.last_dynamic_rung == rung
            &&& rung is Some ==> q.dynamic_rung_number == 1
            &&& rung is None ==> q.dynamic_rung_number == 0
            &&& q == (MonitoredPositionView {
                state: q.state,
                current_sl: q.current_sl,
                next_dynamic_target: q.next_dynamic_target,
                last_dynamic_rung: q.last_dynamic_rung,
                dynamic_rung_number: q.dynamic_rung_number,
                ..p
            })
        }),
        ({
            let p = with_id(ps, id);
            let t = begun(ps, id, LiveActionView::TrailDynamic { new_sl, next_target, rung_hit });
            let q = with_id(t.positions, id);
            &&& t.step is Done
            &&& q.current_sl == new_sl
            &&& q.next_dynamic_target == Some(next_target) && q.last_dynamic_rung == Some(rung_hit)
            &&& p.dynamic_rung_number < i32::MAX ==> q.dynamic_rung_number == p.dynamic_rung_number
                + 1
            &&& q == (MonitoredPositionView {
                current_sl: q.current_sl,
                next_dynamic_target: q.next_dynamic_target,
                last_dynamic_rung: q.last_dynamic_rung,
                dynamic_rung_number: q.dynamic_rung_number,
                ..p
            })
        }),
{
    let p = with_id(ps, id);
    lemma_id_index(ps, id, 0);
    lemma_put_keeps_index(ps, id, at_target1(p, new_sl, next, rung));
    lemma_put_keeps_index(ps, id, at_rung(p, new_sl, next_target, rung_hit));
}

/// A sale by hand is asked for once: the request is off the position as soon as the sale is
/// begun, and nothing else of the position has changed.
pub proof fn hand_sales_are_asked_for_once(
    ps: Seq<MonitoredPositionView>,
    id: Seq<char>,
    qty: i32,
)
    requires
        has_id(ps, id),
        with_id(ps, id).resolved_order is Some,
    ensures
        with_id(begun(ps, id, LiveActionView::ManualSell { qty }).positions, id) == (
        MonitoredPositionView { manual_sell_qty: None, ..with_id(ps, id) }),
{
    lemma_id_index(ps, id, 0);
    lemma_put_keeps_index(ps, id, MonitoredPositionView { manual_sell_qty: None, ..with_id(ps, id) });
}

/// Whether two lists differ in no position but the first with the id `id`, and there neither in
/// the holding nor in the contract.
pub open spec fn differ_only_at(
    ps: Seq<MonitoredPositionView>,
    qs: Seq<MonitoredPositionView>,
    id: Seq<char>,
) -> bool {
    &&& qs.len() == ps.len()
    &&& forall|j: int|
        0 <= j < ps.len() ==> {
            &&& (#[trigger] ps[j]).id != id ==> qs[j] == ps[j]
            &&& qs[j].id == ps[j].id
            &&& qs[j].executed_qty == ps[j].executed_qty
            &&& qs[j].avg_buy_price == ps[j].avg_buy_price
            &&& qs[j].signal == ps[j].signal
            &&& qs[j].resolved_order == ps[j].resolved_order
            &&& qs[j].tick_size == ps[j].tick_size
        }
}

/// Carrying out a decision touches no position but its own, and there neither the holding, nor
/// what it cost, nor the signal and the contract: only the book of the broker changes those.
pub proof fn turns_touch_one_position(
    ps: Seq<MonitoredPositionView>,
    id: Seq<char>,
    action: LiveActionView,
    cfg: TradingConfigView,
    run: LiveRunView,
    limits: Result<KotakLimits, Seq<char>>,
    purpose: PlacePurpose,
    placed: Result<Seq<char>, OrderFaultView>,
    aim: CancelPurpose,
    reply: Result<(), Seq<char>>,
    book: Option<Seq<KotakOrderView>>,
)
    ensures
        differ_only_at(ps, begun(ps, id, action).positions, id),
        differ_only_at(ps, limits_turn(ps, cfg, run, limits).positions, run.ctx.pos_id),
        differ_only_at(ps, place_turn(ps, purpose, run, placed).positions, run.ctx.pos_id),
        differ_only_at(ps, cancel_turn(ps, aim, run, reply).positions, run.ctx.pos_id),
        differ_only_at(ps, book_turn(ps, run, book).positions, run.ctx.pos_id),
{
    lemma_id_index(ps, id, 0);
    lemma_id_index(ps, run.ctx.pos_id, 0);
}

/// Nothing comes of a decision on a position that is gone, or whose contract is not known.
pub proof fn gone_positions_are_not_acted_on(
    ps: Seq<MonitoredPositionView>,
    id: Seq<char>,
    action: LiveActionView,
)
    requires
        forall|j: int|
            0 <= j < ps.len() && (#[trigger] ps[j]).id == id ==> ps[j].resolved_order is None,
    ensures
        begun(ps, id, action).positions == ps,
        begun(ps, id, action).effects.len() == 0,
        begun(ps, id, action).step == (LiveStepView::Done { changed: false }),
{
    lemma_id_index(ps, id, 0);
}

/// An order that was taken is reported with its number, its quantity and its reason, on the
/// instrument of the run, and needs no human; one that was refused or got no answer is reported
/// with what went wrong, what was to be traded and what is held.
pub proof fn placed_orders_are_reported(
    ps: Seq<MonitoredPositionView>,
    purpose: PlacePurpose,
    run: LiveRunView,
    order_id: Seq<char>,
    fault: OrderFaultView,
)
    ensures
        ({
            let t = place_turn(ps, purpose, run, Ok(order_id));
            &&& t.effects.len() == 1 && t.step == (LiveStepView::Done { changed: true })
            &&& t.effects[0] matches EffectView::Note(n)
            &&& !n.loud && n.order_id == order_id && n.qty == run.qty && n.reason == run.reason
                && n.instrument == run.ctx.instrument
            &&& purpose == PlacePurpose::Entry ==> n.code == NoticeCode::EntryPlaced
            &&& purpose != PlacePurpose::Entry ==> n.code == NoticeCode::ExitPlaced
        }),
        ({
            let t = place_turn(ps, purpose, run, Err(fault));
            let unknown = fault matches OrderFaultView::Broker(e) && (e is Http || e is Json);
            &&& t.effects.len() >= 1 && t.step == (LiveStepView::Done { changed: true })
            &&& t.effects[0] matches EffectView::Note(n)
            &&& n.loud && n.qty == run.qty && n.other_qty == run.ctx.executed_qty && n.instrument
                == run.ctx.instrument && n.reason == run.reason
            &&& fault matches OrderFaultView::Broker(e) ==> n.detail == error_text(e)
            &&& unknown ==> n.code == NoticeCode::OutcomeUnknown
            &&& !unknown && purpose == PlacePurpose::Entry ==> n.code == NoticeCode::EntryRejected
            &&& !unknown && purpose == PlacePurpose::Target1 ==> n.code
                == NoticeCode::Target1Rejected
            &&& !unknown && purpose == PlacePurpose::Exit ==> n.code == NoticeCode::ExitRejected
            &&& !unknown && purpose == PlacePurpose::Manual ==> n.code
                == NoticeCode::ManualSellRejected
        }),
{
}

/// The third failed exit in a row is reported as the last one, loudly, and no earlier one is.
pub proof fn the_last_failure_is_reported(
    ps: Seq<MonitoredPositionView>,
    run: LiveRunView,
    book: Option<Seq<KotakOrderView>>,
)
    requires
        has_id(ps, run.ctx.pos_id),
        book is None,
        with_id(ps, run.ctx.pos_id).exit_attempts < i32::MAX,
    ensures
        ({
            let t = book_turn(ps, run, book);
            let p = with_id(ps, run.ctx.pos_id);
            &&& p.exit_attempts >= 2 ==> t.effects.len() == 2 && (
            t.effects[1] matches EffectView::Note(n) && n.loud && n.code
                == NoticeCode::ExitsGivenUp && n.instrument == run.ctx.instrument)
            &&& p.exit_attempts < 2 ==> t.effects.len() == 1
            &&& t.effects[0] matches EffectView::Note(n)
            &&& n.code == NoticeCode::StopCancelFailed && n.order_id == run.order_id && n.detail
                == run.error
        }),
{
}

/// What is begun of a decision is taken down of its position: its contract, its orders and what
/// it holds.
pub proof fn runs_are_taken_down_of_their_position(
    ps: Seq<MonitoredPositionView>,
    id: Seq<char>,
    action: LiveActionView,
)
    requires
        has_id(ps, id),
        with_id(ps, id).resolved_order is Some,
    ensures
        ({
            let p = with_id(ps, id);
            let run = match begun(ps, id, action).step {
                LiveStepView::ReadLimits { run } => Some(run),
                LiveStepView::Place { run, .. } => Some(run),
                LiveStepView::Cancel { run, .. } => Some(run),
                LiveStepView::ReadBook { run } => Some(run),
                LiveStepView::Done { .. } => None,
            };
            run matches Some(r) ==> {
                &&& r.ctx.pos_id == id
                &&& r.ctx.instrument == p.signal.instrument_name
                &&& Some(r.ctx.base) == p.resolved_order
                &&& r.ctx.entry_order_id == p.entry_order_id
                &&& r.ctx.entry_cancel_sent == p.entry_cancel_sent
                &&& r.ctx.sl_order_id == p.sl_order_id
                &&& r.ctx.executed_qty == p.executed_qty
            }
        }),
{
    lemma_id_index(ps, id, 0);
}

/// What is begun, given up or held back is reported for what it is: a stop that was moved with
/// where it stands now, an entry that was given up with its reason, missing funds with the order
/// and what there is, and a cancel that failed with its order and what went wrong.
pub proof fn turns_are_reported(
    ps: Seq<MonitoredPositionView>,
    id: Seq<char>,
    slice: i32,
    keep: i32,
    new_sl: i64,
    next_target: i64,
    rung: i64,
    cfg: TradingConfigView,
    run: LiveRunView,
    l: KotakLimits,
    error: Seq<char>,
)
    requires
        has_id(ps, id),
        with_id(ps, id).resolved_order is Some,
    ensures
        ({
            let a = LiveActionView::Target1 {
                slice,
                keep,
                new_sl,
                next_dynamic_target: None,
                dynamic_rung: None,
            };
            &&& begun(ps, id, a).effects.len() == 1
            &&& begun(ps, id, a).effects[0] matches EffectView::Note(n)
            &&& n.code == NoticeCode::StopTrailed && !n.loud && n.price == new_sl && n.qty == keep
                && n.instrument == with_id(ps, id).signal.instrument_name
        }),
        ({
            let a = LiveActionView::TrailDynamic { new_sl, next_target, rung_hit: rung };
            &&& begun(ps, id, a).effects.len() == 1
            &&& begun(ps, id, a).effects[0] matches EffectView::Note(n)
            &&& n.code == NoticeCode::StopTrailed && !n.loud && n.price == new_sl && n.level
                == next_target && n.instrument == with_id(ps, id).signal.instrument_name
        }),
        ({
            let t = cancel_turn(ps, CancelPurpose::Abandon, run, Ok(()));
            &&& t.effects.len() == 1
            &&& t.effects[0] matches EffectView::Note(n)
            &&& n.reason == run.reason && n.instrument == run.ctx.instrument
            &&& n.code == (if run.loud {
                NoticeCode::EntryRefused
            } else {
                NoticeCode::EntryAbandoned
            })
        }),
        ({
            let t = cancel_turn(ps, CancelPurpose::Abandon, run, Err(error));
            &&& t.effects.len() == 1
            &&& t.effects[0] matches EffectView::Note(n)
            &&& n.code == NoticeCode::EntryCancelFailed && n.order_id == run.order_id && n.reason
                == run.reason && n.detail == error && n.instrument == run.ctx.instrument
        }),
        l.net < run.qty * run.price + 500_000_000 ==> {
            let t = limits_turn(ps, cfg, run, Ok(l));
            &&& t.effects.len() == 1
            &&& t.effects[0] matches EffectView::Note(n)
            &&& n.code == NoticeCode::FundsShort && n.qty == run.qty && n.price == run.price
                && n.level == l.net && n.instrument == run.ctx.instrument
        },
        ({
            let t = limits_turn(ps, cfg, run, Err(error));
            &&& t.effects.len() == 1
            &&& t.effects[0] matches EffectView::Note(n)
            &&& n.code == NoticeCode::FundsUnread && n.detail == error && n.instrument
                == run.ctx.instrument
        }),
        ({
            let t = book_turn(ps, run, Some(Seq::empty()));
            &&& t.effects.len() == 1
            &&& t.effects[0] matches EffectView::Note(n)
            &&& n.code == NoticeCode::StopAlreadyGone && n.loud && n.order_id == run.order_id
                && n.reason == run.reason && n.detail == run.error && n.instrument
                == run.ctx.instrument
        }),
{
    lemma_id_index(ps, id, 0);
}

/// A position that is halted for its failed exits says how many there were.
pub proof fn a_halt_counts_the_failures(p: MonitoredPositionView)
    requires
        2 <= p.exit_attempts < i32::MAX,
    ensures
        exit_failed(p).live_halt == Some(
            "exit failed "@ + int_text(exit_failed(p).exit_attempts as int) + " times"@,
        ),
{
}

} // verus!
