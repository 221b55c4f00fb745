//! Looking for contracts.
use vstd::prelude::*;

use crate::domain::ScripRecord;
use crate::text::{contains, to_lower};

#[allow(unused_imports)]
use crate::domain::ScripRecordView;
#[allow(unused_imports)]
use crate::text::{has_text, lowercased};

verus! {

/// How many contracts a search gives back at most.
pub const MOST_RESULTS: usize = 50;

/// What to look for.
#[derive(Debug)]
pub struct ScripSearchParams {
    pub q: String,
}

/// The contracts of one underlying.
pub struct ScripGroup {
    pub symbol: String,
    pub records: Vec<ScripRecord>,
}

/// What a [`ScripGroup`] says.
#[verifier::ext_equal]
pub ghost struct ScripGroupView {
    pub symbol: Seq<char>,
    pub records: Seq<ScripRecordView>,
}

impl View for ScripGroup {
    type V = ScripGroupView;

    open spec fn view(&self) -> ScripGroupView {
        ScripGroupView { symbol: self.symbol@, records: record_views(self.records@) }
    }
}

/// Contracts, by what they say.
pub open spec fn record_views(s: Seq<ScripRecord>) -> Seq<ScripRecordView> {
    s.map_values(|r: ScripRecord| r@)
}

/// Groups, by what they say.
pub open spec fn group_views(s: Seq<ScripGroup>) -> Seq<ScripGroupView> {
    s.map_values(|g: ScripGroup| g@)
}

/// Whether one of three names, in lower case, holds what is looked for.
pub open spec fn one_name_holds(
    symbol: Seq<char>,
    token: Seq<char>,
    trading_symbol: Seq<char>,
    q: Seq<char>,
) -> bool {
    has_text(symbol, q) || has_text(token, q) || has_text(trading_symbol, q)
}

/// Whether one of three names, in lower case, holds what is looked for.
pub fn any_name_holds(symbol: &str, token: &str, trading_symbol: &str, q: &str) -> (res: bool)
    ensures
        res == one_name_holds(symbol@, token@, trading_symbol@, q@),
{
    contains(symbol, q) || contains(token, q) || contains(trading_symbol, q)
}

/// Whether a contract of the underlying `symbol` is looked for, the case of letters aside.
pub open spec fn is_wanted(symbol: Seq<char>, r: ScripRecordView, q: Seq<char>) -> bool {
    one_name_holds(
        lowercased(symbol),
        lowercased(r.instrument_token),
        lowercased(r.trading_symbol),
        lowercased(q),
    )
}

/// The contracts of a group that are looked for, among its first `n`.
pub open spec fn wanted_in(g: ScripGroupView, q: Seq<char>, n: int) -> Seq<ScripRecordView>
    decreases n,
{
    if n <= 0 {
        Seq::empty()
    } else if is_wanted(g.symbol, g.records[n - 1], q) {
        wanted_in(g, q, n - 1).push(g.records[n - 1])
    } else {
        wanted_in(g, q, n - 1)
    }
}

/// All contracts of the first `n` groups that are looked for.
pub open spec fn wanted(groups: Seq<ScripGroupView>, q: Seq<char>, n: int) -> Seq<ScripRecordView>
    decreases n,
{
    if n <= 0 {
        Seq::empty()
    } else {
        wanted(groups, q, n - 1) + wanted_in(
            groups[n - 1],
            q,
            groups[n - 1].records.len() as int,
        )
    }
}

/// The first of a list, as many as a search gives back at most.
pub open spec fn at_most_fifty(s: Seq<ScripRecordView>) -> Seq<ScripRecordView> {
    if s.len() > MOST_RESULTS {
        s.take(MOST_RESULTS as int)
    } else {
        s
    }
}

/// What a search gives back.
pub open spec fn search_result(groups: Seq<ScripGroupView>, q: Seq<char>) -> Seq<ScripRecordView> {
    at_most_fifty(wanted(groups, q, groups.len() as int))
}

proof fn lemma_wanted_in_grows(g: ScripGroupView, q: Seq<char>, n: int, m: int)
    requires
        0 <= n <= m,
    ensures
        wanted_in(g, q, n).len() <= wanted_in(g, q, m).len(),
        wanted_in(g, q, m).take(wanted_in(g, q, n).len() as int) == wanted_in(g, q, n),
    decreases m - n,
{
    let part = wanted_in(g, q, n);
    if n < m {
        lemma_wanted_in_grows(g, q, n, m - 1);
        let mid = wanted_in(g, q, m - 1);
        assert(wanted_in(g, q, m).take(part.len() as int) =~= mid.take(part.len() as int));
    } else {
        assert(part.take(part.len() as int) =~= part);
    }
}

proof fn lemma_wanted_grows(groups: Seq<ScripGroupView>, q: Seq<char>, n: int, m: int)
    requires
        0 <= n <= m,
    ensures
        wanted(groups, q, n).len() <= wanted(groups, q, m).len(),
        wanted(groups, q, m).take(wanted(groups, q, n).len() as int) == wanted(groups, q, n),
    decreases m - n,
{
    let part = wanted(groups, q, n);
    if n < m {
        lemma_wanted_grows(groups, q, n, m - 1);
        let mid = wanted(groups, q, m - 1);
        assert(wanted(groups, q, m).take(part.len() as int) =~= mid.take(part.len() as int));
    } else {
        assert(part.take(part.len() as int) =~= part);
    }
}

/// Look for contracts: those whose symbol, token or trading symbol holds the text, in the
/// order in which they come, up to fifty.
pub fn search_scrips(groups: &Vec<ScripGroup>, params: &ScripSearchParams) -> (res: Vec<
    ScripRecord,
>)
    ensures
        record_views(res@) == search_result(group_views(groups@), params.q@),
{
    let q: String = to_lower(params.q.as_str());
    let mut out: Vec<ScripRecord> = Vec::new();
    let ghost all = group_views(groups@);
    let ghost said = params.q@;
    let mut i: usize = 0;
    assert(record_views(out@) =~= Seq::<ScripRecordView>::empty());
    while i < groups.len()
        invariant
            i <= groups@.len(),
            all == group_views(groups@),
            said == params.q@,
            q@ == lowercased(said),
            record_views(out@) == wanted(all, said, i as int),
            out@.len() < MOST_RESULTS,
        decreases groups@.len() - i,
    {
        let g: &ScripGroup = &groups[i];
        let symbol: String = to_lower(g.symbol.as_str());
        let ghost gv = all[i as int];
        let ghost before = wanted(all, said, i as int);
        let mut j: usize = 0;
        assert(record_views(out@) =~= before + wanted_in(gv, said, 0));
        while j < g.records.len()
            invariant
                i < groups@.len(),
                j <= g.records@.len(),
                all == group_views(groups@),
                *g == groups@[i as int],
                gv == all[i as int],
                gv == g@,
                said == params.q@,
                symbol@ == lowercased(gv.symbol),
                q@ == lowercased(said),
                before == wanted(all, said, i as int),
                record_views(out@) == before + wanted_in(gv, said, j as int),
                out@.len() < MOST_RESULTS,
            decreases g.records@.len() - j,
        {
            let r: &ScripRecord = &g.records[j];
            assert(gv.records[j as int] == r@);
            let token: String = to_lower(r.instrument_token.as_str());
            let name: String = to_lower(r.trading_symbol.as_str());
            if any_name_holds(symbol.as_str(), token.as_str(), name.as_str(), q.as_str()) {
                let ghost old_out = out@;
                out.push(r.clone());
                assert(record_views(out@) =~= record_views(old_out).push(r@));
                assert(record_views(out@) =~= before + wanted_in(gv, said, j + 1));
                if out.len() >= MOST_RESULTS {
                    proof {
                        let n = gv.records.len() as int;
                        let part = before + wanted_in(gv, said, j + 1);
                        let whole = wanted(all, said, i + 1);
                        lemma_wanted_in_grows(gv, said, j + 1, n);
                        assert(whole == before + wanted_in(gv, said, n));
                        assert(whole.take(part.len() as int) =~= before + wanted_in(
                            gv,
                            said,
                            n,
                        ).take(wanted_in(gv, said, j + 1).len() as int));
                        assert(whole.take(part.len() as int) =~= part);
                        lemma_wanted_grows(all, said, i + 1, all.len() as int);
                        let total = wanted(all, said, all.len() as int);
                        assert(total.take(part.len() as int) =~= total.take(
                            whole.len() as int,
                        ).take(part.len() as int));
                        assert(record_views(out@).len() == out@.len());
                        assert(total.take(total.len() as int) =~= total);
                    }
                    return out;
                }
            }
            j += 1;
        }
        assert(j == gv.records.len());
        assert(record_views(out@) == wanted(all, said, i + 1));
        i += 1;
    }
    assert(record_views(out@).len() == out@.len());
    out
}

/// Whatever a search gives back was looked for, and no more than fifty contracts come back.
pub proof fn search_finds_what_was_asked(groups: Seq<ScripGroupView>, q: Seq<char>, k: int)
    requires
        0 <= k < search_result(groups, q).len(),
    ensures
        search_result(groups, q).len() <= 50,
        exists|i: int, j: int|
            0 <= i < groups.len() && 0 <= j < groups[i].records.len() && is_wanted(
                groups[i].symbol,
                #[trigger] groups[i].records[j],
                q,
            ) && search_result(groups, q)[k] == groups[i].records[j],
{
    lemma_wanted_sound(groups, q, groups.len() as int, k);
}

proof fn lemma_wanted_sound(groups: Seq<ScripGroupView>, q: Seq<char>, n: int, k: int)
    requires
        0 <= n <= groups.len(),
        0 <= k < wanted(groups, q, n).len(),
    ensures
        exists|i: int, j: int|
            0 <= i < groups.len() && 0 <= j < groups[i].records.len() && is_wanted(
                groups[i].symbol,
                #[trigger] groups[i].records[j],
                q,
            ) && wanted(groups, q, n)[k] == groups[i].records[j],
    decreases n,
{
    if n > 0 {
        let front = wanted(groups, q, n - 1);
        if k < front.len() {
            lemma_wanted_sound(groups, q, n - 1, k);
        } else {
            let g = groups[n - 1];
            let j = lemma_wanted_in_sound(g, q, g.records.len() as int, k - front.len());
            assert(wanted(groups, q, n)[k] == groups[n - 1].records[j]);
        }
    }
}

proof fn lemma_wanted_in_sound(g: ScripGroupView, q: Seq<char>, n: int, k: int) -> (j: int)
    requires
        0 <= n <= g.records.len(),
        0 <= k < wanted_in(g, q, n).len(),
    ensures
        0 <= j < g.records.len(),
        is_wanted(g.symbol, g.records[j], q),
        wanted_in(g, q, n)[k] == g.records[j],
    decreases n,
{
    if is_wanted(g.symbol, g.records[n - 1], q) && k == wanted_in(g, q, n - 1).len() {
        n - 1
    } else {
        lemma_wanted_in_sound(g, q, n - 1, k)
    }
}

/// A search finds every contract that was asked for, as long as there are no more than fifty:
/// one whose symbol, token or trading symbol holds what was asked for, in any case. Of more the
/// first fifty are given back.
pub proof fn search_misses_nothing(
    groups: Seq<ScripGroupView>,
    q: Seq<char>,
    i: int,
    j: int,
)
    requires
        0 <= i < groups.len(),
        0 <= j < groups[i].records.len(),
        has_text(lowercased(groups[i].symbol), lowercased(q)) || has_text(
            lowercased(groups[i].records[j].instrument_token),
            lowercased(q),
        ) || has_text(lowercased(groups[i].records[j].trading_symbol), lowercased(q)),
    ensures
        wanted(groups, q, groups.len() as int).contains(groups[i].records[j]),
        search_result(groups, q).len() < 50 ==> search_result(groups, q).contains(
            groups[i].records[j],
        ),
        search_result(groups, q) == wanted(groups, q, groups.len() as int).take(
            search_result(groups, q).len() as int,
        ),
{
    let all = wanted(groups, q, groups.len() as int);
    lemma_wanted_complete(groups, q, groups.len() as int, i, j);
    assert(all.take(all.len() as int) =~= all);
}

proof fn lemma_wanted_complete(
    groups: Seq<ScripGroupView>,
    q: Seq<char>,
    n: int,
    i: int,
    j: int,
)
    requires
        0 <= i < n <= groups.len(),
        0 <= j < groups[i].records.len(),
        is_wanted(groups[i].symbol, groups[i].records[j], q),
    ensures
        wanted(groups, q, n).contains(groups[i].records[j]),
    decreases n,
{
    let r = groups[i].records[j];
    let rest = wanted(groups, q, n - 1);
    let own = wanted_in(groups[n - 1], q, groups[n - 1].records.len() as int);
    if i < n - 1 {
        lemma_wanted_complete(groups, q, n - 1, i, j);
        let k = choose|k: int| 0 <= k < rest.len() && rest[k] == r;
        assert(wanted(groups, q, n)[k] == r);
    } else {
        lemma_wanted_in_complete(groups[i], q, groups[i].records.len() as int, j);
        let k = choose|k: int| 0 <= k < own.len() && own[k] == r;
        assert(wanted(groups, q, n)[rest.len() + k] == r);
    }
}

proof fn lemma_wanted_in_complete(g: ScripGroupView, q: Seq<char>, n: int, j: int)
    requires
        0 <= j < n <= g.records.len(),
        is_wanted(g.symbol, g.records[j], q),
    ensures
        wanted_in(g, q, n).contains(g.records[j]),
    decreases n,
{
    let own = wanted_in(g, q, n);
    let rest = wanted_in(g, q, n - 1);
    if j == n - 1 {
        assert(own[rest.len() as int] == g.records[j]);
    } else {
        lemma_wanted_in_complete(g, q, n - 1, j);
        let k = choose|k: int| 0 <= k < rest.len() && rest[k] == g.records[j];
        assert(own[k] == g.records[j]);
    }
}

/// What a search gives back holds what was asked for: no other contract is wanted.
pub proof fn search_wants_nothing_else(symbol: Seq<char>, r: ScripRecordView, q: Seq<char>)
    ensures
        is_wanted(symbol, r, q) <==> has_text(lowercased(symbol), lowercased(q)) || has_text(
            lowercased(r.instrument_token),
            lowercased(q),
        ) || has_text(lowercased(r.trading_symbol), lowercased(q)),
{
}

} // verus!
