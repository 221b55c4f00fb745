//! Comparing what is watched with what the broker shows, once, before anything is traded.
//!
//! The broker is right throughout: its positions say what is held, its order book says what
//! rests. A resting sale that was forgotten is taken over, never doubled.
use vstd::prelude::*;

use crate::broker::{find_order, held_at_broker, KotakOrder, KotakPosition};
use crate::decimal::{max32, to_i32};
use crate::desk::{
    find_position, forget_stop, notice, push_effect, trading_symbol, Effect, Notice, NoticeCode,
};
use crate::domain::{clone_opt, MonitoredPosition, TradeState};
use crate::text::{same_text, trim};

#[allow(unused_imports)]
use crate::broker::{
    book_row, book_view, held_of, holdings_view, loose_decimal, the_book_is_read_by_number,
    KotakOrderView, KotakPositionView,
};

#[allow(unused_imports)]
use crate::decimal::{fit32, larger};

#[allow(unused_imports)]
use crate::desk::{
    bare_notice, desk, effects_view, has_id, id_index, lemma_id_index, put_id, stop_forgotten,
    symbol_of, with_id, Desk, EffectView, NoticeView,
};

#[allow(unused_imports)]
use crate::domain::{views, MonitoredPositionView};

#[allow(unused_imports)]
use crate::text::{int_text, opt_text, trimmed};

verus! {

// ---------------------------------------------------------------------------
// What is watched
// ---------------------------------------------------------------------------

/// What a comparison needs to know of a position, taken down before the broker is asked.
#[derive(Debug)]
pub struct Watched {
    pub pos_id: String,
    pub instrument: String,
    pub trading_symbol: String,
    pub is_open: bool,
    pub executed_qty: i32,
    pub entry_order_id: Option<String>,
    pub sl_order_id: Option<String>,
}

/// What a [`Watched`] says, with its texts as character sequences.
#[verifier::ext_equal]
pub ghost struct WatchedView {
    pub pos_id: Seq<char>,
    pub instrument: Seq<char>,
    pub trading_symbol: Seq<char>,
    pub is_open: bool,
    pub executed_qty: i32,
    pub entry_order_id: Option<Seq<char>>,
    pub sl_order_id: Option<Seq<char>>,
}

impl View for Watched {
    type V = WatchedView;

    open spec fn view(&self) -> WatchedView {
        WatchedView {
            pos_id: self.pos_id@,
            instrument: self.instrument@,
            trading_symbol: self.trading_symbol@,
            is_open: self.is_open,
            executed_qty: self.executed_qty,
            entry_order_id: opt_text(self.entry_order_id),
            sl_order_id: opt_text(self.sl_order_id),
        }
    }
}

/// What is watched, by what it says.
pub open spec fn watched_view(s: Seq<Watched>) -> Seq<WatchedView> {
    s.map_values(|t: Watched| t@)
}

/// What a comparison needs to know of a position.
pub open spec fn track(p: MonitoredPositionView) -> WatchedView {
    WatchedView {
        pos_id: p.id,
        instrument: p.signal.instrument_name,
        trading_symbol: symbol_of(p),
        is_open: p.state == TradeState::Active || p.state == TradeState::Target1Hit,
        executed_qty: p.executed_qty,
        entry_order_id: p.entry_order_id,
        sl_order_id: p.sl_order_id,
    }
}

/// What is tracked of the first `n` positions: those that are not closed.
pub open spec fn watched_of(ps: Seq<MonitoredPositionView>, n: int) -> Seq<WatchedView>
    decreases n,
{
    if n <= 0 {
        Seq::empty()
    } else if ps[n - 1].state == TradeState::Closed {
        watched_of(ps, n - 1)
    } else {
        watched_of(ps, n - 1).push(track(ps[n - 1]))
    }
}

/// What is tracked.
pub fn watched_positions(positions: &Vec<MonitoredPosition>) -> (res: Vec<Watched>)
    ensures
        watched_view(res@) == watched_of(views(positions@), positions@.len() as int),
{
    let ghost ps = views(positions@);
    let mut out: Vec<Watched> = Vec::new();
    let mut i: usize = 0;
    assert(watched_view(out@) =~= watched_of(ps, 0));
    while i < positions.len()
        invariant
            i <= positions@.len(),
            ps == views(positions@),
            watched_view(out@) == watched_of(ps, i as int),
        decreases positions@.len() - i,
    {
        let p: &MonitoredPosition = &positions[i];
        assert(ps[i as int] == p@);
        if p.state != TradeState::Closed {
            let t: Watched = Watched {
                pos_id: p.id.clone(),
                instrument: p.signal.instrument_name.clone(),
                trading_symbol: trading_symbol(p),
                is_open: p.state == TradeState::Active || p.state == TradeState::Target1Hit,
                executed_qty: p.executed_qty,
                entry_order_id: clone_opt(&p.entry_order_id),
                sl_order_id: clone_opt(&p.sl_order_id),
            };
            let ghost before = out@;
            out.push(t);
            assert(t@ == track(p@));
            assert(watched_view(out@) =~= watched_view(before).push(t@));
        }
        i += 1;
    }
    out
}

/// How many of the first `n` are open on the symbol `symbol`, which has no white space
/// around it. One without a symbol does not count.
pub open spec fn open_on(ts: Seq<WatchedView>, symbol: Seq<char>, n: int) -> int
    decreases n,
{
    if n <= 0 {
        0
    } else {
        let t = ts[n - 1];
        open_on(ts, symbol, n - 1) + if t.is_open && t.trading_symbol.len() > 0 && trimmed(
            t.trading_symbol,
        ) == symbol {
            1int
        } else {
            0
        }
    }
}

/// Whether more than one open position is tracked on a symbol.
pub open spec fn doubled(ts: Seq<WatchedView>, symbol: Seq<char>) -> bool {
    open_on(ts, trimmed(symbol), ts.len() as int) > 1
}

/// Whether more than one open position is tracked on a symbol.
pub fn is_doubled(watched: &Vec<Watched>, symbol: &str) -> (res: bool)
    ensures
        res == doubled(watched_view(watched@), symbol@),
{
    let wanted: String = trim(symbol);
    let ghost ts = watched_view(watched@);
    let mut count: usize = 0;
    let mut i: usize = 0;
    while i < watched.len()
        invariant
            i <= watched@.len(),
            ts == watched_view(watched@),
            wanted@ == trimmed(symbol@),
            count <= i,
            count == open_on(ts, trimmed(symbol@), i as int),
        decreases watched@.len() - i,
    {
        let t: &Watched = &watched[i];
        assert(ts[i as int] == t@);
        if t.is_open && t.trading_symbol.as_str().unicode_len() > 0 && same_text(
            trim(t.trading_symbol.as_str()).as_str(),
            wanted.as_str(),
        ) {
            count += 1;
        }
        i += 1;
    }
    count > 1
}

/// Whether a symbol is tracked. Names without a symbol do not count.
pub open spec fn is_watched(ts: Seq<WatchedView>, symbol: Seq<char>) -> bool {
    exists|i: int|
        0 <= i < ts.len() && trimmed((#[trigger] ts[i]).trading_symbol) == trimmed(symbol)
            && trimmed(symbol).len() > 0
}

/// Whether a symbol is tracked.
pub fn symbol_watched(watched: &Vec<Watched>, symbol: &str) -> (res: bool)
    ensures
        res == is_watched(watched_view(watched@), symbol@),
{
    let wanted: String = trim(symbol);
    let ghost ts = watched_view(watched@);
    if wanted.as_str().unicode_len() == 0 {
        return false;
    }
    let mut i: usize = 0;
    while i < watched.len()
        invariant
            i <= watched@.len(),
            ts == watched_view(watched@),
            wanted@ == trimmed(symbol@),
            wanted@.len() > 0,
            forall|j: int|
                0 <= j < i ==> trimmed((#[trigger] ts[j]).trading_symbol) != trimmed(symbol@),
        decreases watched@.len() - i,
    {
        assert(ts[i as int] == watched@[i as int]@);
        if same_text(trim(watched[i].trading_symbol.as_str()).as_str(), wanted.as_str()) {
            return true;
        }
        i += 1;
    }
    false
}

// ---------------------------------------------------------------------------
// One position
// ---------------------------------------------------------------------------

/// Whether a row of the book is a sale of a symbol that still works.
pub open spec fn rests_on(o: KotakOrderView, symbol: Seq<char>) -> bool {
    o.sells() && !o.terminal() && trimmed(o.trading_symbol) == trimmed(symbol)
}

/// The sales of a symbol that still work, among the first `n` rows of the book.
pub open spec fn resting(book: Seq<KotakOrderView>, symbol: Seq<char>, n: int) -> Seq<
    KotakOrderView,
>
    decreases n,
{
    if n <= 0 {
        Seq::empty()
    } else if rests_on(book[n - 1], symbol) {
        resting(book, symbol, n - 1).push(book[n - 1])
    } else {
        resting(book, symbol, n - 1)
    }
}

fn resting_rows(book: &Vec<KotakOrder>, symbol: &str) -> (res: Vec<usize>)
    ensures
        res@.len() == resting(book_view(book@), symbol@, book@.len() as int).len(),
        forall|i: int|
            0 <= i < res@.len() ==> (#[trigger] res@[i]) < book@.len() && book@[res@[i] as int]@
                == resting(book_view(book@), symbol@, book@.len() as int)[i],
{
    let wanted: String = trim(symbol);
    let ghost rows = book_view(book@);
    let mut out: Vec<usize> = Vec::new();
    let mut i: usize = 0;
    while i < book.len()
        invariant
            i <= book@.len(),
            rows == book_view(book@),
            wanted@ == trimmed(symbol@),
            out@.len() == resting(rows, symbol@, i as int).len(),
            forall|j: int|
                0 <= j < out@.len() ==> (#[trigger] out@[j]) < book@.len()
                    && book@[out@[j] as int]@ == resting(rows, symbol@, i as int)[j],
        decreases book@.len() - i,
    {
        assert(rows[i as int] == book@[i as int]@);
        let o: &KotakOrder = &book[i];
        if o.is_sell() && !o.is_terminal() && same_text(
            trim(o.trading_symbol.as_str()).as_str(),
            wanted.as_str(),
        ) {
            out.push(i);
        }
        i += 1;
    }
    out
}

/// A report on something tracked.
pub open spec fn watched_notice(code: NoticeCode, loud: bool, t: WatchedView) -> NoticeView {
    NoticeView { detail: t.trading_symbol, ..bare_notice(code, loud, t.instrument) }
}

fn symbol_notice(code: NoticeCode, loud: bool, t: &Watched) -> (res: Notice)
    ensures
        res@ == watched_notice(code, loud, t@),
{
    let mut n: Notice = notice(code, loud, t.instrument.as_str());
    n.detail = t.trading_symbol.clone();
    n
}

/// A position that is left alone because more than one is open on its symbol.
pub open spec fn halted_as_double(p: MonitoredPositionView) -> MonitoredPositionView {
    MonitoredPositionView {
        live_halt: Some("duplicate positions on one contract at startup"@),
        ..p
    }
}

/// A waiting position whose order number is of an earlier session.
pub open spec fn stale_order_dropped(p: MonitoredPositionView) -> MonitoredPositionView {
    MonitoredPositionView { entry_order_id: None, entry_cancel_sent: false, ..p }
}

/// A position of which the broker holds none.
pub open spec fn gone_at_broker(p: MonitoredPositionView) -> MonitoredPositionView {
    stop_forgotten(MonitoredPositionView { executed_qty: 0, state: TradeState::Closed, ..p })
}

/// A position with a resting sale taken over as its stop.
pub open spec fn stop_taken_over(p: MonitoredPositionView, o: KotakOrderView)
    -> MonitoredPositionView {
    MonitoredPositionView {
        sl_order_id: Some(trimmed(o.order_no)),
        sl_order_qty: larger(fit32(o.ordered() - o.filled()), 0) as i32,
        sl_order_trigger: loose_decimal(o.trigger_price) as i64,
        ..p
    }
}

/// The reason of a position that is left alone because several sales rest on it.
pub open spec fn many_sales_text(n: int) -> Seq<char> {
    int_text(n) + " resting sell orders found at startup"@
}

/// What becomes of the stop of a position, given the sales that rest on its symbol.
pub open spec fn adopt_resting(d: Desk, t: WatchedView, rows: Seq<KotakOrderView>) -> Desk {
    let p = with_id(d.positions, t.pos_id);
    if rows.len() == 0 {
        Desk { positions: put_id(d.positions, t.pos_id, stop_forgotten(p)), ..d }
    } else if rows.len() == 1 {
        let o = rows[0];
        let known = t.sl_order_id is Some && trimmed(t.sl_order_id->0) == trimmed(o.order_no);
        let q = stop_taken_over(p, o);
        Desk {
            positions: put_id(d.positions, t.pos_id, q),
            effects: if known {
                d.effects
            } else {
                d.effects.push(
                    EffectView::Note(
                        NoticeView {
                            order_id: trimmed(o.order_no),
                            qty: larger(fit32(o.ordered() - o.filled()), 0) as i64,
                            price: loose_decimal(o.trigger_price) as i64,
                            ..watched_notice(NoticeCode::StopAdopted, true, t)
                        },
                    ),
                )
            },
        }
    } else {
        Desk {
            positions: put_id(
                d.positions,
                t.pos_id,
                MonitoredPositionView {
                    live_halt: Some(many_sales_text(rows.len() as int)),
                    ..p
                },
            ),
            effects: d.effects.push(
                EffectView::Note(
                    NoticeView {
                        qty: rows.len() as i64,
                        ..watched_notice(NoticeCode::ManyRestingSales, true, t)
                    },
                ),
            ),
        }
    }
}

/// What becomes of an open position, given what the broker holds of its symbol.
pub open spec fn adopt_holding(
    d: Desk,
    t: WatchedView,
    held: int,
    rows: Seq<KotakOrderView>,
) -> Desk {
    let p = with_id(d.positions, t.pos_id);
    if held <= 0 {
        Desk {
            positions: put_id(d.positions, t.pos_id, gone_at_broker(p)),
            effects: d.effects.push(
                EffectView::Note(
                    NoticeView {
                        qty: t.executed_qty as i64,
                        ..watched_notice(NoticeCode::NothingAtBroker, true, t)
                    },
                ),
            ),
        }
    } else if held != t.executed_qty {
        adopt_resting(
            Desk {
                positions: put_id(
                    d.positions,
                    t.pos_id,
                    MonitoredPositionView { executed_qty: held as i32, ..p },
                ),
                effects: d.effects.push(
                    EffectView::Note(
                        NoticeView {
                            qty: t.executed_qty as i64,
                            other_qty: held as i64,
                            ..watched_notice(NoticeCode::QuantityAdopted, true, t)
                        },
                    ),
                ),
            },
            t,
            rows,
        )
    } else {
        adopt_resting(d, t, rows)
    }
}

/// What becomes of one that is tracked.
pub open spec fn compare_one(
    d: Desk,
    ts: Seq<WatchedView>,
    t: WatchedView,
    holdings: Seq<KotakPositionView>,
    book: Seq<KotakOrderView>,
) -> Desk {
    let p = with_id(d.positions, t.pos_id);
    if t.is_open && doubled(ts, t.trading_symbol) {
        Desk {
            positions: put_id(d.positions, t.pos_id, halted_as_double(p)),
            effects: d.effects.push(
                EffectView::Note(watched_notice(NoticeCode::DuplicatePositions, true, t)),
            ),
        }
    } else if !t.is_open {
        if t.entry_order_id is Some && book_row(book, t.entry_order_id->0) is None {
            Desk {
                positions: put_id(d.positions, t.pos_id, stale_order_dropped(p)),
                effects: d.effects.push(
                    EffectView::Note(
                        NoticeView {
                            order_id: t.entry_order_id->0,
                            ..watched_notice(NoticeCode::StaleEntryOrder, false, t)
                        },
                    ),
                ),
            }
        } else {
            d
        }
    } else {
        adopt_holding(
            d,
            t,
            held_of(holdings, t.trading_symbol),
            resting(book, t.trading_symbol, book.len() as int),
        )
    }
}

/// What becomes of the first `n` that are tracked.
pub open spec fn compared(
    d: Desk,
    ts: Seq<WatchedView>,
    holdings: Seq<KotakPositionView>,
    book: Seq<KotakOrderView>,
    n: int,
) -> Desk
    decreases n,
{
    if n <= 0 {
        d
    } else {
        compare_one(compared(d, ts, holdings, book, n - 1), ts, ts[n - 1], holdings, book)
    }
}

fn adopt_resting_sale(
    positions: &mut Vec<MonitoredPosition>,
    effects: &mut Vec<Effect>,
    t: &Watched,
    book: &Vec<KotakOrder>,
)
    ensures
        desk(final(positions)@, final(effects)@) == adopt_resting(
            desk(old(positions)@, old(effects)@),
            t@,
            resting(book_view(book@), t@.trading_symbol, book@.len() as int),
        ),
{
    let ghost d = desk(positions@, effects@);
    let ghost found = resting(book_view(book@), t@.trading_symbol, book@.len() as int);
    let rows: Vec<usize> = resting_rows(book, t.trading_symbol.as_str());
    if rows.len() == 0 {
        if let Some(i) = find_position(positions, t.pos_id.as_str()) {
            forget_stop(&mut positions[i]);
        }
        assert(views(positions@) =~= adopt_resting(d, t@, found).positions);
    } else if rows.len() == 1 {
        let at: usize = rows[0];
        let o: &KotakOrder = &book[at];
        assert(o@ == found[0]);
        let order_no: String = trim(o.order_no.as_str());
        let qty: i32 = max32(to_i32(o.ordered_qty() as i128 - o.filled_qty() as i128), 0);
        let trigger: i64 = o.trigger();
        let known: bool = match &t.sl_order_id {
            Some(s) => same_text(trim(s.as_str()).as_str(), order_no.as_str()),
            None => false,
        };
        if !known {
            let mut n: Notice = symbol_notice(NoticeCode::StopAdopted, true, t);
            n.order_id = order_no.clone();
            n.qty = qty as i64;
            n.price = trigger;
            push_effect(effects, Effect::Note(n));
        }
        if let Some(i) = find_position(positions, t.pos_id.as_str()) {
            let p: &mut MonitoredPosition = &mut positions[i];
            p.sl_order_id = Some(order_no);
            p.sl_order_qty = qty;
            p.sl_order_trigger = trigger;
        }
        assert(views(positions@) =~= adopt_resting(d, t@, found).positions);
    } else {
        let count: usize = rows.len();
        let mut n: Notice = symbol_notice(NoticeCode::ManyRestingSales, true, t);
        n.qty = count as i64;
        push_effect(effects, Effect::Note(n));
        let mut why: String = crate::text::u64_text(count as u64);
        why.append(" resting sell orders found at startup");
        if let Some(i) = find_position(positions, t.pos_id.as_str()) {
            let p: &mut MonitoredPosition = &mut positions[i];
            p.live_halt = Some(why);
        }
        assert(views(positions@) =~= adopt_resting(d, t@, found).positions);
    }
}

fn compare_watched(
    positions: &mut Vec<MonitoredPosition>,
    effects: &mut Vec<Effect>,
    watched: &Vec<Watched>,
    at: usize,
    holdings: &Vec<KotakPosition>,
    book: &Vec<KotakOrder>,
)
    requires
        at < watched@.len(),
    ensures
        desk(final(positions)@, final(effects)@) == compare_one(
            desk(old(positions)@, old(effects)@),
            watched_view(watched@),
            watched@[at as int]@,
            holdings_view(holdings@),
            book_view(book@),
        ),
{
    let t: &Watched = &watched[at];
    let ghost d = desk(positions@, effects@);
    let ghost after = compare_one(
        d,
        watched_view(watched@),
        t@,
        holdings_view(holdings@),
        book_view(book@),
    );
    if t.is_open && is_doubled(watched, t.trading_symbol.as_str()) {
        push_effect(
            effects,
            Effect::Note(symbol_notice(NoticeCode::DuplicatePositions, true, t)),
        );
        if let Some(i) = find_position(positions, t.pos_id.as_str()) {
            let p: &mut MonitoredPosition = &mut positions[i];
            p.live_halt = Some("duplicate positions on one contract at startup".to_string());
        }
        assert(views(positions@) =~= after.positions);
        return ;
    }
    if !t.is_open {
        if let Some(id) = &t.entry_order_id {
            if find_order(book, id.as_str()).is_none() {
                let mut n: Notice = symbol_notice(NoticeCode::StaleEntryOrder, false, t);
                n.order_id = id.clone();
                push_effect(effects, Effect::Note(n));
                if let Some(i) = find_position(positions, t.pos_id.as_str()) {
                    let p: &mut MonitoredPosition = &mut positions[i];
                    p.entry_order_id = None;
                    p.entry_cancel_sent = false;
                }
                assert(views(positions@) =~= after.positions);
            }
        }
        return ;
    }
    let held: i32 = held_at_broker(holdings, t.trading_symbol.as_str());
    if held <= 0 {
        let mut n: Notice = symbol_notice(NoticeCode::NothingAtBroker, true, t);
        n.qty = t.executed_qty as i64;
        push_effect(effects, Effect::Note(n));
        if let Some(i) = find_position(positions, t.pos_id.as_str()) {
            let p: &mut MonitoredPosition = &mut positions[i];
            p.executed_qty = 0;
            p.state = TradeState::Closed;
            forget_stop(p);
        }
        assert(views(positions@) =~= after.positions);
        return ;
    }
    if held != t.executed_qty {
        let mut n: Notice = symbol_notice(NoticeCode::QuantityAdopted, true, t);
        n.qty = t.executed_qty as i64;
        n.other_qty = held as i64;
        push_effect(effects, Effect::Note(n));
        if let Some(i) = find_position(positions, t.pos_id.as_str()) {
            let p: &mut MonitoredPosition = &mut positions[i];
            p.executed_qty = held;
        }
        proof {
            let mid = put_id(
                d.positions,
                t@.pos_id,
                MonitoredPositionView {
                    executed_qty: held,
                    ..with_id(d.positions, t@.pos_id)
                },
            );
            assert(views(positions@) =~= mid);
        }
    }
    adopt_resting_sale(positions, effects, t, book);
}

// ---------------------------------------------------------------------------
// What is not watched
// ---------------------------------------------------------------------------

/// The report on a holding that is not watched.
pub open spec fn holding_note(b: KotakPositionView) -> EffectView {
    EffectView::Note(
        NoticeView {
            qty: b.net() as i64,
            ..bare_notice(NoticeCode::UntrackedHolding, true, trimmed(b.trading_symbol))
        },
    )
}

/// The reports on the first `n` holdings of the broker: those that are not tracked.
pub open spec fn untracked_holdings(
    ts: Seq<WatchedView>,
    holdings: Seq<KotakPositionView>,
    n: int,
) -> Seq<EffectView>
    decreases n,
{
    if n <= 0 {
        Seq::empty()
    } else {
        let rest = untracked_holdings(ts, holdings, n - 1);
        let b = holdings[n - 1];
        if b.net() > 0 && !is_watched(ts, b.trading_symbol) {
            rest.push(holding_note(b))
        } else {
            rest
        }
    }
}

/// The report on a sale that is not tracked.
pub open spec fn sale_note(o: KotakOrderView) -> EffectView {
    EffectView::Note(
        NoticeView {
            order_id: o.order_no,
            ..bare_notice(NoticeCode::UntrackedSale, true, trimmed(o.trading_symbol))
        },
    )
}

/// The reports on the first `n` rows of the book: sales that work and are not tracked.
pub open spec fn untracked_sales(
    ts: Seq<WatchedView>,
    book: Seq<KotakOrderView>,
    n: int,
) -> Seq<EffectView>
    decreases n,
{
    if n <= 0 {
        Seq::empty()
    } else {
        let rest = untracked_sales(ts, book, n - 1);
        let o = book[n - 1];
        if o.sells() && !o.terminal() && !is_watched(ts, o.trading_symbol) {
            rest.push(sale_note(o))
        } else {
            rest
        }
    }
}

fn report_untracked(
    effects: &mut Vec<Effect>,
    watched: &Vec<Watched>,
    holdings: &Vec<KotakPosition>,
    book: &Vec<KotakOrder>,
)
    ensures
        effects_view(final(effects)@) == effects_view(old(effects)@) + untracked_holdings(
            watched_view(watched@),
            holdings_view(holdings@),
            holdings@.len() as int,
        ) + untracked_sales(watched_view(watched@), book_view(book@), book@.len() as int),
{
    let ghost first = effects_view(effects@);
    let ghost ts = watched_view(watched@);
    let ghost hs = holdings_view(holdings@);
    let ghost rows = book_view(book@);
    let mut i: usize = 0;
    assert(first + untracked_holdings(ts, hs, 0) =~= first);
    while i < holdings.len()
        invariant
            i <= holdings@.len(),
            ts == watched_view(watched@),
            hs == holdings_view(holdings@),
            effects_view(effects@) == first + untracked_holdings(ts, hs, i as int),
        decreases holdings@.len() - i,
    {
        let b: &KotakPosition = &holdings[i];
        assert(hs[i as int] == b@);
        let net: i32 = b.net_qty();
        if net > 0 && !symbol_watched(watched, b.trading_symbol.as_str()) {
            let symbol: String = trim(b.trading_symbol.as_str());
            let mut n: Notice = notice(NoticeCode::UntrackedHolding, true, symbol.as_str());
            n.qty = net as i64;
            let ghost rest = untracked_holdings(ts, hs, i as int);
            push_effect(effects, Effect::Note(n));
            assert(effects_view(effects@) =~= first + rest.push(holding_note(b@)));
        }
        i += 1;
    }
    let ghost second = effects_view(effects@);
    assert(second + untracked_sales(ts, rows, 0) =~= second);
    let mut j: usize = 0;
    while j < book.len()
        invariant
            j <= book@.len(),
            ts == watched_view(watched@),
            rows == book_view(book@),
            effects_view(effects@) == second + untracked_sales(ts, rows, j as int),
        decreases book@.len() - j,
    {
        let o: &KotakOrder = &book[j];
        assert(rows[j as int] == o@);
        if o.is_sell() && !o.is_terminal() && !symbol_watched(watched, o.trading_symbol.as_str()) {
            let symbol: String = trim(o.trading_symbol.as_str());
            let mut n: Notice = notice(NoticeCode::UntrackedSale, true, symbol.as_str());
            n.order_id = o.order_no.clone();
            let ghost rest = untracked_sales(ts, rows, j as int);
            push_effect(effects, Effect::Note(n));
            assert(effects_view(effects@) =~= second + rest.push(sale_note(o@)));
        }
        j += 1;
    }
}

// ---------------------------------------------------------------------------
// The whole comparison
// ---------------------------------------------------------------------------

/// What is said where the broker could not be read.
pub open spec fn unread_note(code: NoticeCode, error: Seq<char>) -> EffectView {
    EffectView::Note(NoticeView { detail: error, ..bare_notice(code, true, "SYSTEM"@) })
}

fn unread(code: NoticeCode, error: String) -> (res: Effect)
    ensures
        res@ == unread_note(code, error@),
{
    let mut n: Notice = notice(code, true, "SYSTEM");
    n.detail = error;
    Effect::Note(n)
}

/// The holdings of the broker as read, by what they say.
pub open spec fn holdings_read(r: Result<Vec<KotakPosition>, String>) -> Result<
    Seq<KotakPositionView>,
    Seq<char>,
> {
    match r {
        Ok(v) => Ok(holdings_view(v@)),
        Err(e) => Err(e@),
    }
}

/// The order book of the broker as read, by what it says.
pub open spec fn book_read(r: Result<Vec<KotakOrder>, String>) -> Result<
    Seq<KotakOrderView>,
    Seq<char>,
> {
    match r {
        Ok(v) => Ok(book_view(v@)),
        Err(e) => Err(e@),
    }
}

/// The end of a comparison: what was compared and what was not tracked.
pub open spec fn compared_all(
    ps: Seq<MonitoredPositionView>,
    effects: Seq<EffectView>,
    ts: Seq<WatchedView>,
    holdings: Seq<KotakPositionView>,
    book: Seq<KotakOrderView>,
    verified: bool,
) -> Desk {
    let d = compared(Desk { positions: ps, effects }, ts, holdings, book, ts.len() as int);
    Desk {
        positions: d.positions,
        effects: (d.effects + untracked_holdings(ts, holdings, holdings.len() as int)
            + untracked_sales(ts, book, book.len() as int)).push(
            EffectView::Note(
                NoticeView {
                    qty: d.positions.len() as i64,
                    other_qty: if verified {
                        1
                    } else {
                        0
                    },
                    ..bare_notice(NoticeCode::StartupReconciled, false, "SYSTEM"@)
                },
            ),
        ),
    }
}

/// What a comparison with the broker does, and whether trading may begin.
///
/// Positions that could not be read do not stop it where nothing is tracked: there is nothing
/// they could have been wrong about. An order book that could not be read does.
pub open spec fn startup(
    ps: Seq<MonitoredPositionView>,
    ts: Seq<WatchedView>,
    holdings: Result<Seq<KotakPositionView>, Seq<char>>,
    book: Result<Seq<KotakOrderView>, Seq<char>>,
) -> (bool, Desk) {
    let idle = ts.len() == 0;
    let first = match holdings {
        Ok(_) => Seq::empty(),
        Err(e) => seq![
            unread_note(
                if idle {
                    NoticeCode::PositionsUnreadButIdle
                } else {
                    NoticeCode::PositionsUnread
                },
                e,
            ),
        ],
    };
    if holdings is Err && !idle {
        (false, Desk { positions: ps, effects: first })
    } else {
        match book {
            Err(e) => (
                false,
                Desk { positions: ps, effects: first.push(unread_note(NoticeCode::BookUnread, e)) },
            ),
            Ok(b) => (
                true,
                compared_all(
                    ps,
                    first,
                    ts,
                    match holdings {
                        Ok(h) => h,
                        Err(_) => Seq::empty(),
                    },
                    b,
                    holdings is Ok,
                ),
            ),
        }
    }
}

/// Compare what is tracked with what the broker shows.
///
/// `watched` was taken down before the broker was asked. Gives back whether trading may
/// begin, and what there is to report; where it may not, no position was touched.
pub fn reconcile_on_startup(
    positions: &mut Vec<MonitoredPosition>,
    watched: &Vec<Watched>,
    holdings: Result<Vec<KotakPosition>, String>,
    book: Result<Vec<KotakOrder>, String>,
) -> (res: (bool, Vec<Effect>))
    ensures
        (res.0, desk(final(positions)@, res.1@)) == startup(
            views(old(positions)@),
            watched_view(watched@),
            holdings_read(holdings),
            book_read(book),
        ),
{
    let ghost ps = views(positions@);
    let ghost ts = watched_view(watched@);
    let ghost end = startup(ps, ts, holdings_read(holdings), book_read(book));
    let mut effects: Vec<Effect> = Vec::new();
    assert(effects_view(effects@) =~= Seq::<EffectView>::empty());
    let mut verified: bool = true;
    let rows: Vec<KotakPosition> = match holdings {
        Ok(v) => v,
        Err(e) => {
            if watched.len() > 0 {
                push_effect(&mut effects, unread(NoticeCode::PositionsUnread, e));
                assert(effects_view(effects@) =~= end.1.effects);
                return (false, effects);
            }
            verified = false;
            push_effect(&mut effects, unread(NoticeCode::PositionsUnreadButIdle, e));
            Vec::new()
        },
    };
    let orders: Vec<KotakOrder> = match book {
        Ok(v) => v,
        Err(e) => {
            push_effect(&mut effects, unread(NoticeCode::BookUnread, e));
            assert(effects_view(effects@) =~= end.1.effects);
            return (false, effects);
        },
    };
    let ghost first = effects_view(effects@);
    proof {
        let f = match holdings_read(holdings) {
            Ok(_) => Seq::empty(),
            Err(e) => seq![unread_note(NoticeCode::PositionsUnreadButIdle, e)],
        };
        assert(first =~= f);
        let h = match holdings_read(holdings) {
            Ok(h) => h,
            Err(_) => Seq::empty(),
        };
        assert(holdings_view(rows@) =~= h);
        assert(end == (
            true,
            compared_all(
                ps,
                first,
                ts,
                holdings_view(rows@),
                book_view(orders@),
                verified,
            ),
        ));
    }
    let mut i: usize = 0;
    let ghost start = Desk { positions: ps, effects: first };
    assert(desk(positions@, effects@) == start);
    while i < watched.len()
        invariant
            i <= watched@.len(),
            ts == watched_view(watched@),
            desk(positions@, effects@) == compared(
                start,
                ts,
                holdings_view(rows@),
                book_view(orders@),
                i as int,
            ),
        decreases watched@.len() - i,
    {
        assert(ts[i as int] == watched@[i as int]@);
        compare_watched(positions, &mut effects, watched, i, &rows, &orders);
        i += 1;
    }
    report_untracked(&mut effects, watched, &rows, &orders);
    let mut n: Notice = notice(NoticeCode::StartupReconciled, false, "SYSTEM");
    n.qty = positions.len() as i64;
    n.other_qty = if verified {
        1
    } else {
        0
    };
    push_effect(&mut effects, Effect::Note(n));
    assert(effects_view(effects@) =~= end.1.effects);
    assert(views(positions@) =~= end.1.positions);
    (true, effects)
}

// ---------------------------------------------------------------------------
// Laws of the comparison
// ---------------------------------------------------------------------------

/// Trading does not begin where the order book could not be read, nor where the positions
/// could not be read and something is tracked; and then no position was touched.
pub proof fn unread_broker_blocks_trading(
    ps: Seq<MonitoredPositionView>,
    ts: Seq<WatchedView>,
    holdings: Result<Seq<KotakPositionView>, Seq<char>>,
    book: Result<Seq<KotakOrderView>, Seq<char>>,
)
    ensures
        startup(ps, ts, holdings, book).0 <==> book is Ok && (holdings is Ok || ts.len() == 0),
        !startup(ps, ts, holdings, book).0 ==> startup(ps, ts, holdings, book).1.positions == ps,
{
}

proof fn lemma_put(ps: Seq<MonitoredPositionView>, id: Seq<char>, p: MonitoredPositionView)
    requires
        has_id(ps, id),
        p.id == id,
    ensures
        put_id(ps, id, p).len() == ps.len(),
        has_id(put_id(ps, id, p), id),
        id_index(put_id(ps, id, p), id, 0) == id_index(ps, id, 0),
        with_id(put_id(ps, id, p), id) == p,
        with_id(ps, id).id == id,
        forall|j: int|
            0 <= j < ps.len() && (#[trigger] ps[j]).id != id ==> put_id(ps, id, p)[j] == ps[j],
{
    let i = id_index(ps, id, 0);
    let qs = put_id(ps, id, p);
    lemma_id_index(ps, id, 0);
    lemma_id_index(qs, id, 0);
    let k = id_index(qs, id, 0);
    assert(qs[i].id == id);
    if k < i {
        assert(qs[k] == ps[k]);
    }
}

/// Two positions that are open on one symbol are halted, and nothing else is done to them.
pub proof fn doubles_are_halted(
    d: Desk,
    ts: Seq<WatchedView>,
    t: WatchedView,
    holdings: Seq<KotakPositionView>,
    book: Seq<KotakOrderView>,
)
    requires
        t.is_open,
        doubled(ts, t.trading_symbol),
        has_id(d.positions, t.pos_id),
    ensures
        ({
            let after = compare_one(d, ts, t, holdings, book).positions;
            let p = with_id(d.positions, t.pos_id);
            &&& with_id(after, t.pos_id) == halted_as_double(p)
            &&& with_id(after, t.pos_id).live_halt is Some
        }),
{
    lemma_id_index(d.positions, t.pos_id, 0);
    lemma_put(d.positions, t.pos_id, halted_as_double(with_id(d.positions, t.pos_id)));
}

/// An open position that was compared, and is not halted, holds what the broker holds, or is
/// closed where the broker holds none; its stop is the one sale that rests, or none.
pub proof fn broker_decides_what_is_held(
    d: Desk,
    ts: Seq<WatchedView>,
    t: WatchedView,
    holdings: Seq<KotakPositionView>,
    book: Seq<KotakOrderView>,
)
    requires
        t.is_open,
        !doubled(ts, t.trading_symbol),
        has_id(d.positions, t.pos_id),
        with_id(d.positions, t.pos_id).executed_qty == t.executed_qty,
    ensures
        ({
            let p = with_id(compare_one(d, ts, t, holdings, book).positions, t.pos_id);
            let held = held_of(holdings, t.trading_symbol);
            let rows = resting(book, t.trading_symbol, book.len() as int);
            &&& held <= 0 ==> p.executed_qty == 0 && p.state == TradeState::Closed
                && p.sl_order_id is None
            &&& held > 0 ==> p.executed_qty == held
            &&& held > 0 && rows.len() == 0 ==> p.sl_order_id is None
            &&& held > 0 && rows.len() == 1 ==> p.sl_order_id == Some(trimmed(rows[0].order_no))
            &&& held > 0 && rows.len() > 1 ==> p.live_halt is Some
        }),
{
    let id = t.pos_id;
    let p = with_id(d.positions, id);
    let held = held_of(holdings, t.trading_symbol);
    let rows = resting(book, t.trading_symbol, book.len() as int);
    lemma_id_index(d.positions, id, 0);
    lemma_put(d.positions, id, gone_at_broker(p));
    let q = if held != t.executed_qty {
        MonitoredPositionView { executed_qty: held as i32, ..p }
    } else {
        p
    };
    lemma_put(d.positions, id, q);
    let qs = if held != t.executed_qty {
        put_id(d.positions, id, q)
    } else {
        d.positions
    };
    lemma_id_index(qs, id, 0);
    lemma_put(qs, id, stop_forgotten(q));
    if rows.len() == 1 {
        lemma_put(qs, id, stop_taken_over(q, rows[0]));
    }
    lemma_put(
        qs,
        id,
        MonitoredPositionView { live_halt: Some(many_sales_text(rows.len() as int)), ..q },
    );
}

/// Comparing one that is tracked leaves every other position alone.
pub proof fn comparison_touches_one_position(
    d: Desk,
    ts: Seq<WatchedView>,
    t: WatchedView,
    holdings: Seq<KotakPositionView>,
    book: Seq<KotakOrderView>,
    j: int,
)
    requires
        0 <= j < d.positions.len(),
        d.positions[j].id != t.pos_id,
    ensures
        compare_one(d, ts, t, holdings, book).positions.len() == d.positions.len(),
        compare_one(d, ts, t, holdings, book).positions[j] == d.positions[j],
{
    let id = t.pos_id;
    let p = with_id(d.positions, id);
    let held = held_of(holdings, t.trading_symbol);
    lemma_id_index(d.positions, id, 0);
    if has_id(d.positions, id) {
        let q = MonitoredPositionView { executed_qty: held as i32, ..p };
        lemma_put(d.positions, id, q);
        let qs = put_id(d.positions, id, q);
        lemma_id_index(qs, id, 0);
    }
}

/// Every position that is not closed is compared with the broker, by what it is at that moment;
/// closed ones are not.
pub proof fn open_positions_are_compared(ps: Seq<MonitoredPositionView>, n: int)
    requires
        0 <= n < ps.len(),
    ensures
        ({
            let before = watched_of(ps, n);
            let after = watched_of(ps, n + 1);
            let p = ps[n];
            let t = after.last();
            &&& watched_of(ps, 0).len() == 0
            &&& p.state == TradeState::Closed ==> after == before
            &&& p.state != TradeState::Closed ==> {
                &&& after.len() == before.len() + 1 && after.drop_last() == before
                &&& t.pos_id == p.id && t.instrument == p.signal.instrument_name
                &&& p.resolved_order matches Some(o) ==> t.trading_symbol == o.trading_symbol
                &&& t.is_open == (p.state == TradeState::Active || p.state
                    == TradeState::Target1Hit)
                &&& t.executed_qty == p.executed_qty
                &&& t.entry_order_id == p.entry_order_id && t.sl_order_id == p.sl_order_id
            }
        }),
{
    if ps[n].state != TradeState::Closed {
        assert(watched_of(ps, n + 1).drop_last() =~= watched_of(ps, n));
    }
}

/// Whether a watched position is held on the symbol `symbol`, white space aside.
pub open spec fn held_on(t: WatchedView, symbol: Seq<char>) -> bool {
    t.is_open && t.trading_symbol.len() > 0 && trimmed(t.trading_symbol) == trimmed(symbol)
}

/// A symbol is doubled where two positions that are held are on it, and only there.
pub proof fn two_on_one_symbol_are_a_double(ts: Seq<WatchedView>, symbol: Seq<char>)
    ensures
        doubled(ts, symbol) <==> exists|i: int, j: int|
            0 <= i < j < ts.len() && #[trigger] held_on(ts[i], symbol) && #[trigger] held_on(
                ts[j],
                symbol,
            ),
{
    let n = ts.len() as int;
    lemma_count_doubles(ts, symbol, n);
    if doubled(ts, symbol) {
        let (i, j) = choose|i: int, j: int|
            0 <= i < j < n && #[trigger] held_on(ts[i], symbol) && #[trigger] held_on(ts[j], symbol);
        assert(held_on(ts[i], symbol) && held_on(ts[j], symbol));
    }
}

proof fn lemma_count_doubles(ts: Seq<WatchedView>, symbol: Seq<char>, n: int)
    requires
        0 <= n <= ts.len(),
    ensures
        open_on(ts, trimmed(symbol), n) >= 0,
        open_on(ts, trimmed(symbol), n) >= 1 <==> exists|i: int|
            0 <= i < n && #[trigger] held_on(ts[i], symbol),
        open_on(ts, trimmed(symbol), n) >= 2 <==> exists|i: int, j: int|
            0 <= i < j < n && #[trigger] held_on(ts[i], symbol) && #[trigger] held_on(
                ts[j],
                symbol,
            ),
    decreases n,
{
    if n > 0 {
        lemma_count_doubles(ts, symbol, n - 1);
        let c = open_on(ts, trimmed(symbol), n - 1);
        if held_on(ts[n - 1], symbol) {
            if c >= 1 {
                let i = choose|i: int| 0 <= i < n - 1 && #[trigger] held_on(ts[i], symbol);
                assert(held_on(ts[i], symbol) && held_on(ts[n - 1], symbol));
            }
        }
        if c >= 1 {
            let i = choose|i: int| 0 <= i < n - 1 && #[trigger] held_on(ts[i], symbol);
            assert(held_on(ts[i], symbol));
        }
        if c >= 2 {
            let (i, j) = choose|i: int, j: int|
                0 <= i < j < n - 1 && #[trigger] held_on(ts[i], symbol) && #[trigger] held_on(
                    ts[j],
                    symbol,
                );
            assert(held_on(ts[i], symbol) && held_on(ts[j], symbol));
        }
    }
}

/// The sales that rest on a symbol are the rows of the book that sell it and have not ended, in
/// the order of the book.
pub proof fn working_sales_rest(book: Seq<KotakOrderView>, symbol: Seq<char>, n: int)
    requires
        0 <= n < book.len(),
    ensures
        ({
            let before = resting(book, symbol, n);
            let after = resting(book, symbol, n + 1);
            let o = book[n];
            let rests = o.sells() && !o.terminal() && trimmed(o.trading_symbol) == trimmed(symbol);
            &&& resting(book, symbol, 0).len() == 0
            &&& rests ==> after.len() == before.len() + 1 && after.drop_last() == before
                && after.last() == o
            &&& !rests ==> after == before
        }),
{
    if rests_on(book[n], symbol) {
        assert(resting(book, symbol, n + 1).drop_last() =~= resting(book, symbol, n));
    }
}

/// What the broker holds of a symbol is taken over as it is, and what rests there decides about
/// the stop: none leaves no record of one, a single one is taken over with its number, what is
/// left of it and its trigger, and several halt the position. Nothing else of the position
/// changes; one of which the broker holds nothing is over.
pub proof fn the_broker_is_believed(
    d: Desk,
    ts: Seq<WatchedView>,
    t: WatchedView,
    holdings: Seq<KotakPositionView>,
    book: Seq<KotakOrderView>,
)
    requires
        t.is_open,
        !doubled(ts, t.trading_symbol),
        has_id(d.positions, t.pos_id),
        with_id(d.positions, t.pos_id).executed_qty == t.executed_qty,
    ensures
        ({
            let p = with_id(d.positions, t.pos_id);
            let q = with_id(compare_one(d, ts, t, holdings, book).positions, t.pos_id);
            let held = held_of(holdings, t.trading_symbol);
            let rows = resting(book, t.trading_symbol, book.len() as int);
            let o = rows[0];
            &&& held <= 0 ==> q == (MonitoredPositionView {
                executed_qty: 0,
                state: TradeState::Closed,
                sl_order_id: None,
                sl_order_qty: 0,
                sl_order_trigger: 0,
                ..p
            })
            &&& held > 0 && rows.len() == 0 ==> q.executed_qty == held && q == (
            MonitoredPositionView {
                executed_qty: q.executed_qty,
                sl_order_id: None,
                sl_order_qty: 0,
                sl_order_trigger: 0,
                ..p
            })
            &&& held > 0 && rows.len() == 1 ==> {
                &&& q.executed_qty == held
                &&& q.sl_order_id == Some(trimmed(o.order_no))
                &&& 0 <= o.filled() <= o.ordered() ==> q.sl_order_qty == o.ordered() - o.filled()
                &&& o.filled() > o.ordered() ==> q.sl_order_qty == 0
                &&& q.sl_order_trigger == loose_decimal(o.trigger_price)
                &&& q == (MonitoredPositionView {
                    executed_qty: q.executed_qty,
                    sl_order_id: q.sl_order_id,
                    sl_order_qty: q.sl_order_qty,
                    sl_order_trigger: q.sl_order_trigger,
                    ..p
                })
            }
            &&& held > 0 && rows.len() > 1 ==> q.executed_qty == held && q.live_halt is Some && q
                == (MonitoredPositionView {
                executed_qty: q.executed_qty,
                live_halt: q.live_halt,
                ..p
            })
        }),
{
    let id = t.pos_id;
    let p = with_id(d.positions, id);
    let held = held_of(holdings, t.trading_symbol);
    let rows = resting(book, t.trading_symbol, book.len() as int);
    lemma_id_index(d.positions, id, 0);
    lemma_put(d.positions, id, gone_at_broker(p));
    let q = if held != t.executed_qty {
        MonitoredPositionView { executed_qty: held as i32, ..p }
    } else {
        p
    };
    lemma_put(d.positions, id, q);
    let qs = if held != t.executed_qty {
        put_id(d.positions, id, q)
    } else {
        d.positions
    };
    lemma_id_index(qs, id, 0);
    lemma_put(qs, id, stop_forgotten(q));
    if rows.len() == 1 {
        lemma_put(qs, id, stop_taken_over(q, rows[0]));
    }
    lemma_put(
        qs,
        id,
        MonitoredPositionView { live_halt: Some(many_sales_text(rows.len() as int)), ..q },
    );
}

/// Where the broker holds another quantity than is on record, both are reported loudly; where it
/// holds nothing, that is.
pub proof fn differences_at_startup_are_loud(
    d: Desk,
    ts: Seq<WatchedView>,
    t: WatchedView,
    holdings: Seq<KotakPositionView>,
    book: Seq<KotakOrderView>,
)
    requires
        t.is_open,
        !doubled(ts, t.trading_symbol),
        held_of(holdings, t.trading_symbol) != t.executed_qty,
    ensures
        ({
            let after = compare_one(d, ts, t, holdings, book).effects;
            let held = held_of(holdings, t.trading_symbol);
            let k = d.effects.len() as int;
            &&& after.len() > k
            &&& after[k] matches EffectView::Note(n)
            &&& n.loud && n.instrument == t.instrument && n.qty == t.executed_qty
            &&& held > 0 ==> n.code == NoticeCode::QuantityAdopted && n.other_qty == held
            &&& held <= 0 ==> n.code == NoticeCode::NothingAtBroker
        }),
{
}

/// A waiting position whose entry order the book does not show is left without that order; any
/// other waiting position stays as it is.
pub proof fn lost_entry_orders_are_dropped(
    d: Desk,
    ts: Seq<WatchedView>,
    t: WatchedView,
    holdings: Seq<KotakPositionView>,
    book: Seq<KotakOrderView>,
)
    requires
        !t.is_open,
        has_id(d.positions, t.pos_id),
    ensures
        ({
            let after = compare_one(d, ts, t, holdings, book);
            let p = with_id(d.positions, t.pos_id);
            let lost = t.entry_order_id is Some && (forall|i: int|
                0 <= i < book.len() ==> trimmed((#[trigger] book[i]).order_no) != trimmed(
                    t.entry_order_id->0,
                ));
            &&& lost ==> with_id(after.positions, t.pos_id) == (MonitoredPositionView {
                entry_order_id: None,
                entry_cancel_sent: false,
                ..p
            })
            &&& !lost ==> after == d
        }),
{
    let p = with_id(d.positions, t.pos_id);
    lemma_id_index(d.positions, t.pos_id, 0);
    lemma_put(d.positions, t.pos_id, stale_order_dropped(p));
    if t.entry_order_id is Some {
        the_book_is_read_by_number(book, t.entry_order_id->0);
    }
}

/// Each watched position is compared once, after those before it, and where the broker could be
/// read that is what becomes of the positions.
pub proof fn all_are_compared_in_turn(
    ps: Seq<MonitoredPositionView>,
    ts: Seq<WatchedView>,
    holdings: Seq<KotakPositionView>,
    book: Seq<KotakOrderView>,
    d: Desk,
    n: int,
)
    requires
        0 <= n < ts.len(),
    ensures
        compared(d, ts, holdings, book, 0) == d,
        compared(d, ts, holdings, book, n + 1) == compare_one(
            compared(d, ts, holdings, book, n),
            ts,
            ts[n],
            holdings,
            book,
        ),
        startup(ps, ts, Ok(holdings), Ok(book)).1.positions == compared(
            Desk { positions: ps, effects: Seq::empty() },
            ts,
            holdings,
            book,
            ts.len() as int,
        ).positions,
{
}

/// What the broker holds, or has for sale, of a symbol that no position is on is reported
/// loudly, each with its symbol; nothing else is reported as untracked.
pub proof fn untracked_exposure_is_loud(
    ts: Seq<WatchedView>,
    holdings: Seq<KotakPositionView>,
    book: Seq<KotakOrderView>,
    n: int,
    m: int,
)
    requires
        0 <= n < holdings.len(),
        0 <= m < book.len(),
    ensures
        ({
            let before = untracked_holdings(ts, holdings, n);
            let after = untracked_holdings(ts, holdings, n + 1);
            let b = holdings[n];
            let known = exists|i: int|
                0 <= i < ts.len() && trimmed((#[trigger] ts[i]).trading_symbol) == trimmed(
                    b.trading_symbol,
                ) && trimmed(b.trading_symbol).len() > 0;
            &&& untracked_holdings(ts, holdings, 0).len() == 0
            &&& b.net() > 0 && !known ==> {
                &&& after.len() == before.len() + 1 && after.drop_last() == before
                &&& after.last() matches EffectView::Note(note)
                &&& note.loud && note.qty == b.net() && note.instrument == trimmed(
                    b.trading_symbol,
                ) && note.code == NoticeCode::UntrackedHolding
            }
            &&& b.net() <= 0 || known ==> after == before
        }),
        ({
            let before = untracked_sales(ts, book, m);
            let after = untracked_sales(ts, book, m + 1);
            let o = book[m];
            let known = exists|i: int|
                0 <= i < ts.len() && trimmed((#[trigger] ts[i]).trading_symbol) == trimmed(
                    o.trading_symbol,
                ) && trimmed(o.trading_symbol).len() > 0;
            &&& untracked_sales(ts, book, 0).len() == 0
            &&& o.sells() && !o.terminal() && !known ==> {
                &&& after.len() == before.len() + 1 && after.drop_last() == before
                &&& after.last() matches EffectView::Note(note)
                &&& note.loud && note.order_id == o.order_no && note.instrument == trimmed(
                    o.trading_symbol,
                ) && note.code == NoticeCode::UntrackedSale
            }
            &&& !o.sells() || o.terminal() || known ==> after == before
        }),
{
    let a = untracked_holdings(ts, holdings, n + 1);
    if holdings[n].net() > 0 && !is_watched(ts, holdings[n].trading_symbol) {
        assert(a.drop_last() =~= untracked_holdings(ts, holdings, n));
    }
    let b = untracked_sales(ts, book, m + 1);
    if book[m].sells() && !book[m].terminal() && !is_watched(ts, book[m].trading_symbol) {
        assert(b.drop_last() =~= untracked_sales(ts, book, m));
    }
}

/// Where the broker could not be read, that is reported loudly with its error, and where
/// nothing is compared nothing else is.
pub proof fn an_unread_broker_is_loud(
    ps: Seq<MonitoredPositionView>,
    ts: Seq<WatchedView>,
    holdings: Result<Seq<KotakPositionView>, Seq<char>>,
    book: Result<Seq<KotakOrderView>, Seq<char>>,
)
    ensures
        holdings matches Err(e) ==> {
            let after = startup(ps, ts, holdings, book).1.effects;
            &&& after.len() > 0
            &&& book is Err || ts.len() > 0 ==> (after[0] matches EffectView::Note(n) && n.loud
                && n.detail == e)
        },
        holdings is Ok ==> (book matches Err(e) ==> (startup(
            ps,
            ts,
            holdings,
            book,
        ).1.effects.last() matches EffectView::Note(n) && n.loud && n.detail == e)),
{
}

} // verus!
