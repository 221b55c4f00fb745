//! Defaults and limits of the settings.
use vstd::prelude::*;

use crate::decimal::{clamp, max32};
use crate::domain::{LotTable, TradingConfig};
use crate::sizing::is_index_name;
use crate::text::to_upper;

#[allow(unused_imports)]
use crate::decimal::{clamped, larger, UNIT};

#[allow(unused_imports)]
use crate::domain::TradingConfigView;

#[allow(unused_imports)]
use crate::sizing::index_name;

#[allow(unused_imports)]
use crate::text::uppercased;

verus! {

/// Half, in millionths.
pub const HALF: i64 = 500_000;

/// The smallest extension factor: the next rung must lie above the one just hit.
pub const LEAST_EXTENSION: i64 = 50_000;

/// The largest extension factor.
pub const MOST_EXTENSION: i64 = 5_000_000;

/// One hundred percent, in millionths.
pub const HUNDRED_PERCENT: i64 = 100_000_000;

/// The price step of a contract where none is on record: five paise.
pub const DEFAULT_TICK_SIZE: i64 = 50_000;

/// Market price protection of entries, where none is set: five percent.
pub fn default_entry_mp() -> (res: i64)
    ensures
        res == 5 * UNIT,
{
    5_000_000
}

/// How far a stop trails, where nothing is set: half the way.
pub fn default_trail_factor() -> (res: i64)
    ensures
        res == HALF,
{
    HALF
}

/// When the stop begins to trail before target 1, where nothing is set: at sixty percent.
pub fn default_pre_t1_arm_pct() -> (res: i64)
    ensures
        res == 60 * UNIT,
{
    60_000_000
}

/// How far the next rung lies ahead, where nothing is set: the whole way.
pub fn default_extension_factor() -> (res: i64)
    ensures
        res == UNIT,
{
    UNIT
}

/// The price step of a contract where none is on record.
pub fn default_tick_size() -> (res: i64)
    ensures
        res == DEFAULT_TICK_SIZE,
{
    DEFAULT_TICK_SIZE
}

/// The settings of a fresh installation: simulated, with one lot of everything.
pub open spec fn fresh_settings() -> TradingConfigView {
    TradingConfigView {
        max_trade_amount_inr: 10_000_000_000,
        index_lots: 1,
        other_lots: 1,
        index_lots_by_symbol: Map::empty(),
        mode: "PAPER"@,
        brokerage_per_order: 20_000_000,
        target_1_exit_pct: 50_000_000,
        target_2_exit_pct: HUNDRED_PERCENT,
        entry_market_protection: 5_000_000,
        dynamic_targeting: false,
        dynamic_targeting_trail_factor: HALF,
        dynamic_targeting_extension_factor: UNIT,
        pre_t1_trailing: false,
        pre_t1_trail_arm_pct: 60_000_000,
        pre_t1_trail_factor: HALF,
        kill_switch_active: false,
    }
}

/// The settings of a fresh installation.
pub fn default_config() -> (res: TradingConfig)
    ensures
        res@ == fresh_settings(),
{
    TradingConfig {
        max_trade_amount_inr: 10_000_000_000,
        index_lots: 1,
        other_lots: 1,
        index_lots_by_symbol: LotTable::new(),
        mode: "PAPER".to_string(),
        brokerage_per_order: 20_000_000,
        target_1_exit_pct: 50_000_000,
        target_2_exit_pct: HUNDRED_PERCENT,
        entry_market_protection: default_entry_mp(),
        dynamic_targeting: false,
        dynamic_targeting_trail_factor: default_trail_factor(),
        dynamic_targeting_extension_factor: default_extension_factor(),
        pre_t1_trailing: false,
        pre_t1_trail_arm_pct: default_pre_t1_arm_pct(),
        pre_t1_trail_factor: default_trail_factor(),
        kill_switch_active: false,
    }
}

/// Settings with their numbers held within their limits.
///
/// Lots are not negative; zero means not to trade. A trail factor above one would put the stop
/// below the entry of a position that already hit target 1, and an extension factor of zero
/// would hit the same rung on every tick.
pub open spec fn within_limits(cfg: TradingConfigView) -> TradingConfigView {
    TradingConfigView {
        index_lots: larger(cfg.index_lots as int, 0) as i32,
        other_lots: larger(cfg.other_lots as int, 0) as i32,
        dynamic_targeting_trail_factor: clamped(
            cfg.dynamic_targeting_trail_factor as int,
            0,
            UNIT as int,
        ) as i64,
        dynamic_targeting_extension_factor: clamped(
            cfg.dynamic_targeting_extension_factor as int,
            LEAST_EXTENSION as int,
            MOST_EXTENSION as int,
        ) as i64,
        pre_t1_trail_arm_pct: clamped(
            cfg.pre_t1_trail_arm_pct as int,
            0,
            HUNDRED_PERCENT as int,
        ) as i64,
        pre_t1_trail_factor: clamped(cfg.pre_t1_trail_factor as int, 0, UNIT as int) as i64,
        ..cfg
    }
}

/// Whether the numbers of the settings are within their limits.
pub open spec fn well_formed(cfg: TradingConfigView) -> bool {
    &&& cfg.index_lots >= 0
    &&& cfg.other_lots >= 0
    &&& 0 <= cfg.dynamic_targeting_trail_factor <= UNIT
    &&& LEAST_EXTENSION <= cfg.dynamic_targeting_extension_factor <= MOST_EXTENSION
    &&& 0 <= cfg.pre_t1_trail_arm_pct <= HUNDRED_PERCENT
    &&& 0 <= cfg.pre_t1_trail_factor <= UNIT
}

fn limit(cfg: &mut TradingConfig)
    ensures
        final(cfg)@ == within_limits(old(cfg)@),
{
    cfg.index_lots = max32(cfg.index_lots, 0);
    cfg.other_lots = max32(cfg.other_lots, 0);
    cfg.dynamic_targeting_trail_factor = clamp(cfg.dynamic_targeting_trail_factor, 0, UNIT);
    cfg.dynamic_targeting_extension_factor = clamp(
        cfg.dynamic_targeting_extension_factor,
        LEAST_EXTENSION,
        MOST_EXTENSION,
    );
    cfg.pre_t1_trail_arm_pct = clamp(cfg.pre_t1_trail_arm_pct, 0, HUNDRED_PERCENT);
    cfg.pre_t1_trail_factor = clamp(cfg.pre_t1_trail_factor, 0, UNIT);
}

/// Stored settings as they are taken up again.
pub open spec fn loaded(cfg: TradingConfigView) -> TradingConfigView {
    TradingConfigView { kill_switch_active: false, ..within_limits(cfg) }
}

/// Settings that were sent in as they are stored, with the table of lots `table`.
pub open spec fn stored(
    cfg: TradingConfigView,
    table: Map<Seq<char>, i32>,
    kill_switch_active: bool,
) -> TradingConfigView {
    TradingConfigView { index_lots_by_symbol: table, kill_switch_active, ..within_limits(cfg) }
}

/// The settings that were stored, within their limits, or those of a fresh installation. The
/// kill switch is not stored: it is off.
pub fn load_config(stored: Option<TradingConfig>) -> (res: TradingConfig)
    ensures
        res@ == match stored {
            Some(c) => (TradingConfigView { kill_switch_active: false, ..within_limits(c@) }),
            None => fresh_settings(),
        },
        stored matches Some(c) ==> res@ == loaded(c@),
{
    match stored {
        Some(c) => {
            let mut cfg: TradingConfig = c;
            limit(&mut cfg);
            cfg.kill_switch_active = false;
            cfg
        },
        None => default_config(),
    }
}

/// Whether a row of the table is kept: it names an index, in any case, and its lots are
/// positive.
pub open spec fn kept_row(table: Map<Seq<char>, i32>, name: Seq<char>) -> bool {
    table.contains_key(name) && table[name] > 0 && index_name(uppercased(name))
}

/// Whether `clean` is `table` with its names in upper case and without the rows that are not
/// kept. Of two names that differ in case alone either row may be the one that is kept.
pub open spec fn cleaned(table: Map<Seq<char>, i32>, clean: Map<Seq<char>, i32>) -> bool {
    &&& forall|k: Seq<char>| #[trigger]
        clean.contains_key(k) ==> exists|name: Seq<char>| #[trigger]
            kept_row(table, name) && uppercased(name) == k && table[name] == clean[k]
    &&& forall|name: Seq<char>| #[trigger]
        kept_row(table, name) ==> clean.contains_key(uppercased(name))
}

fn clean_table(table: &LotTable) -> (res: LotTable)
    ensures
        cleaned(table@, res@),
{
    let rows: Vec<(String, i32)> = table.entries();
    let mut out: LotTable = LotTable::new();
    let mut i: usize = 0;
    while i < rows.len()
        invariant
            i <= rows@.len(),
            forall|j: int|
                0 <= j < rows@.len() ==> table@.contains_key((#[trigger] rows@[j]).0@)
                    && table@[rows@[j].0@] == rows@[j].1,
            forall|k: Seq<char>| #[trigger]
                out@.contains_key(k) ==> exists|name: Seq<char>| #[trigger]
                    kept_row(table@, name) && uppercased(name) == k && table@[name] == out@[k],
            forall|j: int|
                0 <= j < i && kept_row(table@, (#[trigger] rows@[j]).0@) ==> out@.contains_key(
                    uppercased(rows@[j].0@),
                ),
        decreases rows@.len() - i,
    {
        let ghost before = out@;
        let ghost name = rows@[i as int].0@;
        let upper: String = to_upper(rows[i].0.as_str());
        let lots: i32 = rows[i].1;
        if lots > 0 && is_index_name(upper.as_str()) {
            assert(kept_row(table@, name));
            out.insert(upper, lots);
            assert forall|k: Seq<char>| #[trigger] out@.contains_key(k) implies exists|
                n: Seq<char>,
            | #[trigger]
                kept_row(table@, n) && uppercased(n) == k && table@[n] == out@[k] by {
                if k == uppercased(name) {
                    assert(kept_row(table@, name));
                } else {
                    assert(before.contains_key(k));
                }
            }
        }
        i += 1;
    }
    proof {
        assert forall|name: Seq<char>| #[trigger] kept_row(table@, name) implies out@.contains_key(
            uppercased(name),
        ) by {
            let j = choose|j: int| 0 <= j < rows@.len() && (#[trigger] rows@[j]).0@ == name;
            assert(rows@[j].0@ == name);
        }
    }
    out
}

/// Settings as they were sent in, made fit to be stored: numbers within their limits, the
/// table of lots without names that are no index, and the kill switch as it stands.
pub fn sanitize_config(cfg: TradingConfig, kill_switch_active: bool) -> (res: TradingConfig)
    ensures
        cleaned(cfg@.index_lots_by_symbol, res@.index_lots_by_symbol),
        res@ == (TradingConfigView {
            index_lots_by_symbol: res@.index_lots_by_symbol,
            kill_switch_active,
            ..within_limits(cfg@)
        }),
        res@ == self::stored(cfg@, res@.index_lots_by_symbol, kill_switch_active),
{
    let mut out: TradingConfig = cfg;
    out.index_lots_by_symbol = clean_table(&out.index_lots_by_symbol);
    limit(&mut out);
    out.kill_switch_active = kill_switch_active;
    out
}

// ---------------------------------------------------------------------------
// Laws of the settings
// ---------------------------------------------------------------------------

/// Settings within their limits are well formed, and stay as they are when limited again.
pub proof fn limits_hold_and_settle(cfg: TradingConfigView)
    ensures
        well_formed(within_limits(cfg)),
        within_limits(within_limits(cfg)) == within_limits(cfg),
        well_formed(cfg) ==> within_limits(cfg) == cfg,
{
}

/// The settings of a fresh installation are well formed, simulated, and have the kill switch
/// off.
pub proof fn fresh_settings_are_safe(cfg: TradingConfigView)
    requires
        cfg == fresh_settings(),
    ensures
        well_formed(cfg),
        cfg.mode == "PAPER"@,
        !cfg.kill_switch_active,
        within_limits(cfg) == cfg,
{
}

/// A cleaned table holds positive lots for indices and nothing else.
pub proof fn cleaned_table_is_sound(
    table: Map<Seq<char>, i32>,
    clean: Map<Seq<char>, i32>,
    k: Seq<char>,
)
    requires
        cleaned(table, clean),
        clean.contains_key(k),
    ensures
        index_name(k),
        clean[k] > 0,
{
    let name = choose|name: Seq<char>| #[trigger]
        kept_row(table, name) && uppercased(name) == k && table[name] == clean[k];
    assert(kept_row(table, name));
}

/// Whether `kept` is the number nearest to `v` between `lo` and `hi`.
pub open spec fn is_nearest(v: int, lo: int, hi: int, kept: int) -> bool {
    &&& lo <= kept <= hi
    &&& kept < v ==> kept == hi
    &&& kept > v ==> kept == lo
}

/// Limiting moves each number to the nearest one that is allowed, and changes nothing else:
/// lots from zero up, trail factors from nothing to the whole, the extension factor from a
/// twentieth to five, and the arming share from nothing to all.
pub proof fn limits_move_numbers_no_further_than_needed(cfg: TradingConfigView)
    ensures
        ({
            let c = within_limits(cfg);
            &&& is_nearest(cfg.index_lots as int, 0, i32::MAX as int, c.index_lots as int)
            &&& is_nearest(cfg.other_lots as int, 0, i32::MAX as int, c.other_lots as int)
            &&& is_nearest(
                cfg.dynamic_targeting_trail_factor as int,
                0,
                1_000_000,
                c.dynamic_targeting_trail_factor as int,
            )
            &&& is_nearest(
                cfg.dynamic_targeting_extension_factor as int,
                50_000,
                5_000_000,
                c.dynamic_targeting_extension_factor as int,
            )
            &&& is_nearest(
                cfg.pre_t1_trail_arm_pct as int,
                0,
                100_000_000,
                c.pre_t1_trail_arm_pct as int,
            )
            &&& is_nearest(
                cfg.pre_t1_trail_factor as int,
                0,
                1_000_000,
                c.pre_t1_trail_factor as int,
            )
            &&& c == (TradingConfigView {
                index_lots: c.index_lots,
                other_lots: c.other_lots,
                dynamic_targeting_trail_factor: c.dynamic_targeting_trail_factor,
                dynamic_targeting_extension_factor: c.dynamic_targeting_extension_factor,
                pre_t1_trail_arm_pct: c.pre_t1_trail_arm_pct,
                pre_t1_trail_factor: c.pre_t1_trail_factor,
                ..cfg
            })
        }),
{
}

/// A row of the table of lots that names an index and has positive lots is kept under its name
/// in upper case; of rows whose names differ in case alone one is kept.
pub proof fn index_rows_are_kept(
    table: Map<Seq<char>, i32>,
    clean: Map<Seq<char>, i32>,
    name: Seq<char>,
)
    requires
        cleaned(table, clean),
        table.contains_key(name),
        table[name] > 0,
        index_name(uppercased(name)),
        forall|other: Seq<char>|
            table.contains_key(other) && #[trigger] uppercased(other) == uppercased(name) ==> other
                == name,
    ensures
        clean.contains_key(uppercased(name)),
        clean[uppercased(name)] == table[name],
{
    assert(kept_row(table, name));
    let k = uppercased(name);
    assert(clean.contains_key(k));
    let other = choose|other: Seq<char>| #[trigger]
        kept_row(table, other) && uppercased(other) == k && table[other] == clean[k];
    assert(uppercased(other) == uppercased(name));
}

/// A fresh installation starts small: simulated, with one lot of everything and ten thousand
/// rupees a trade, half of a holding sold at target 1 and all of it at target 2, and nothing
/// automatic switched on.
pub proof fn a_fresh_installation_starts_small(cfg: TradingConfigView)
    requires
        cfg == fresh_settings(),
    ensures
        cfg.index_lots == 1 && cfg.other_lots == 1,
        forall|name: Seq<char>| !#[trigger] cfg.index_lots_by_symbol.contains_key(name),
        cfg.max_trade_amount_inr == 10_000 * UNIT,
        cfg.brokerage_per_order == 20 * UNIT,
        cfg.target_1_exit_pct == 50 * UNIT && cfg.target_2_exit_pct == 100 * UNIT,
        cfg.entry_market_protection == 5 * UNIT,
        !cfg.dynamic_targeting && !cfg.pre_t1_trailing,
        2 * cfg.dynamic_targeting_trail_factor == UNIT,
        cfg.dynamic_targeting_extension_factor == UNIT,
        2 * cfg.pre_t1_trail_factor == UNIT && cfg.pre_t1_trail_arm_pct == 60 * UNIT,
{
}

/// Settings that are taken up again or stored are within their limits, with all else as it was;
/// taken up again the kill switch is off, and stored it is as it stands.
pub proof fn stored_settings_are_fit(
    cfg: TradingConfigView,
    table: Map<Seq<char>, i32>,
    on: bool,
)
    ensures
        well_formed(loaded(cfg)),
        !loaded(cfg).kill_switch_active,
        loaded(cfg).mode == cfg.mode && loaded(cfg).index_lots_by_symbol
            == cfg.index_lots_by_symbol && loaded(cfg).max_trade_amount_inr
            == cfg.max_trade_amount_inr,
        well_formed(stored(cfg, table, on)),
        stored(cfg, table, on).kill_switch_active == on,
        stored(cfg, table, on).index_lots_by_symbol == table,
        stored(cfg, table, on).mode == cfg.mode && stored(cfg, table, on).target_1_exit_pct
            == cfg.target_1_exit_pct && stored(cfg, table, on).max_trade_amount_inr
            == cfg.max_trade_amount_inr,
        well_formed(cfg) ==> loaded(stored(cfg, table, false)) == stored(cfg, table, false),
{
}

} // verus!
