//! Prices, rates and percentages, held as whole numbers of millionths.
//!
//! `120.05` rupees is `120_050_000`, a factor of one half is `500_000` and 60 percent is
//! `60_000_000`. Sums and products are computed exactly; where a level is kept, a stop is
//! rounded down and a target is rounded up to the next millionth. A level that does not
//! fit in 64 bits is held at the nearest one that does.
use vstd::prelude::*;

use crate::text::{chars_of, u64_text};

#[allow(unused_imports)]
use crate::text::{
    digit_char, digit_value, digits_value, is_digit, is_number, lemma_digits_nonneg, nat_text,
    printed_nat_reads_back, written_int,
};

verus! {

/// One, in millionths.
pub const UNIT: i64 = 1_000_000;

// ---------------------------------------------------------------------------
// Keeping results in machine range
// ---------------------------------------------------------------------------

/// The 64-bit number nearest to `x`.
pub open spec fn fit64(x: int) -> int {
    if x < i64::MIN {
        i64::MIN as int
    } else if x > i64::MAX {
        i64::MAX as int
    } else {
        x
    }
}

/// The 32-bit number nearest to `x`.
pub open spec fn fit32(x: int) -> int {
    if x < i32::MIN {
        i32::MIN as int
    } else if x > i32::MAX {
        i32::MAX as int
    } else {
        x
    }
}

/// The 64-bit number nearest to `x`.
pub fn to_i64(x: i128) -> (res: i64)
    ensures
        res == fit64(x as int),
{
    if x < i64::MIN as i128 {
        i64::MIN
    } else if x > i64::MAX as i128 {
        i64::MAX
    } else {
        x as i64
    }
}

/// The 32-bit number nearest to `x`.
pub fn to_i32(x: i128) -> (res: i32)
    ensures
        res == fit32(x as int),
{
    if x < i32::MIN as i128 {
        i32::MIN
    } else if x > i32::MAX as i128 {
        i32::MAX
    } else {
        x as i32
    }
}

/// `v`, moved to the nearest end of `lo..=hi` when it lies outside.
pub open spec fn clamped(v: int, lo: int, hi: int) -> int {
    if v < lo {
        lo
    } else if v > hi {
        hi
    } else {
        v
    }
}

/// `v`, moved to the nearest end of `lo..=hi` when it lies outside.
pub fn clamp(v: i64, lo: i64, hi: i64) -> (res: i64)
    ensures
        res == clamped(v as int, lo as int, hi as int),
{
    if v < lo {
        lo
    } else if v > hi {
        hi
    } else {
        v
    }
}

/// The larger of two numbers.
pub open spec fn larger(a: int, b: int) -> int {
    if a >= b {
        a
    } else {
        b
    }
}

/// The smaller of two numbers.
pub open spec fn smaller(a: int, b: int) -> int {
    if a <= b {
        a
    } else {
        b
    }
}

/// The larger of two levels.
pub fn max64(a: i64, b: i64) -> (res: i64)
    ensures
        res == larger(a as int, b as int),
{
    if a >= b {
        a
    } else {
        b
    }
}

/// The larger of two quantities.
pub fn max32(a: i32, b: i32) -> (res: i32)
    ensures
        res == larger(a as int, b as int),
{
    if a >= b {
        a
    } else {
        b
    }
}

/// The smaller of two quantities.
pub fn min32(a: i32, b: i32) -> (res: i32)
    ensures
        res == smaller(a as int, b as int),
{
    if a <= b {
        a
    } else {
        b
    }
}

// ---------------------------------------------------------------------------
// Division
// ---------------------------------------------------------------------------

/// The quotient of `a` by `b`, rounded up.
pub open spec fn ceil_div(a: int, b: int) -> int {
    -((-a) / b)
}

/// The quotient of `a` by `b`, rounded down.
pub fn div_down(a: i128, b: i128) -> (res: i128)
    requires
        b > 0,
        a > i128::MIN,
    ensures
        res == a as int / b as int,
        a >= 0 ==> 0 <= res <= a,
        a < 0 ==> a <= res < 0,
{
    proof {
        lemma_quotient_bounds(a as int, b as int);
    }
    if a >= 0 {
        ((a as u128) / (b as u128)) as i128
    } else {
        let m: u128 = (-a) as u128;
        let d: u128 = b as u128;
        let q: u128 = (m + (d - 1)) / d;
        proof {
            lemma_floor_of_negative(a as int, b as int);
        }
        -(q as i128)
    }
}

/// The quotient of `a` by `b`, rounded up.
pub fn div_up(a: i128, b: i128) -> (res: i128)
    requires
        b > 0,
        a > i128::MIN,
    ensures
        res == ceil_div(a as int, b as int),
        a >= 0 ==> 0 <= res <= a,
        a < 0 ==> a <= res <= 0,
{
    -div_down(-a, b)
}

proof fn lemma_floor_of_negative(a: int, b: int)
    by (nonlinear_arith)
    requires
        a < 0,
        b > 0,
    ensures
        a / b == -((-a + b - 1) / b),
{
}

proof fn lemma_quotient_bounds(a: int, b: int)
    by (nonlinear_arith)
    requires
        b > 0,
    ensures
        a >= 0 ==> 0 <= a / b <= a,
        a < 0 ==> a <= a / b < 0,
{
}

// ---------------------------------------------------------------------------
// Levels
// ---------------------------------------------------------------------------

/// `x` in whole hundredths of a rupee, halves away from zero.
pub open spec fn to_paise(x: int) -> int {
    if x >= 0 {
        ((x + 5_000) / 10_000) * 10_000
    } else {
        -(((-x + 5_000) / 10_000) * 10_000)
    }
}

/// An amount rounded to two decimal places, halves away from zero.
pub fn round2(v: i64) -> (res: i64)
    ensures
        res == fit64(to_paise(v as int)),
{
    let x: i128 = v as i128;
    to_i64(
        if x >= 0 {
            ((x + 5_000) / 10_000) * 10_000
        } else {
            -(((-x + 5_000) / 10_000) * 10_000)
        },
    )
}

/// The largest whole multiple of `tick` that is not above `price`.
pub open spec fn tick_floor(price: int, tick: int) -> int {
    (price / tick) * tick
}

/// `price` rounded down to a whole multiple of `tick`; with a tick that is not positive,
/// `price` itself.
pub open spec fn tick_down(price: int, tick: int) -> int {
    if tick <= 0 {
        price
    } else {
        fit64(tick_floor(price, tick))
    }
}

/// Half way between two levels, rounded down to a whole multiple of `tick`.
pub open spec fn half_way(a: int, b: int, tick: int) -> int {
    tick_down((a + b) / 2, tick)
}

/// The stop behind a rung: `factor` times `diff` below it, rounded down to the tick grid, but
/// not further below it than `diff`.
pub open spec fn rung_stop(rung: int, diff: int, factor: int, tick: int) -> int {
    let level = tick_down(level_below(rung, diff, factor), tick);
    if diff > 0 {
        larger(level, fit64(rung - diff))
    } else {
        level
    }
}

/// A level `factor` times `diff` below `level`, rounded down.
pub open spec fn level_below(level: int, diff: int, factor: int) -> int {
    fit64((level * UNIT - diff * factor) / UNIT as int)
}

/// A level `factor` times `diff` above `level`, rounded up.
pub open spec fn level_above(level: int, diff: int, factor: int) -> int {
    fit64(ceil_div(level * UNIT + diff * factor, UNIT as int))
}

/// Round `price` down to a whole multiple of `tick`.
///
/// Every price sent to the broker goes through this: the exchange rejects orders that are
/// off the tick grid, and down is the direction for stops, targets and trailed stops alike.
pub fn round_down_tick(price: i64, tick: i64) -> (res: i64)
    ensures
        res == tick_down(price as int, tick as int),
{
    if tick <= 0 {
        return price;
    }
    let steps: i128 = div_down(price as i128, tick as i128);
    proof {
        lemma_product_bound(price as int, tick as int);
    }
    to_i64(steps * (tick as i128))
}

proof fn lemma_product_bound(price: int, tick: int)
    by (nonlinear_arith)
    requires
        tick > 0,
    ensures
        price - tick < (price / tick) * tick <= price,
{
}

/// A level `factor` times `diff` below `level`.
pub fn below(level: i64, diff: i128, factor: i64) -> (res: i64)
    requires
        -0xffff_ffff_ffff_ffff <= diff <= 0xffff_ffff_ffff_ffff,
    ensures
        res == level_below(level as int, diff as int, factor as int),
{
    proof {
        lemma_product_fits(diff as int, factor as int);
    }
    let p: i128 = diff * factor as i128;
    let q: i128 = div_up(p, 1_000_000);
    assert(-0x1000_0000_0000_0000_0000_0000_0000 <= q <= 0x1000_0000_0000_0000_0000_0000_0000);
    to_i64(level as i128 - q)
}

/// A level `factor` times `diff` above `level`.
pub fn above(level: i64, diff: i128, factor: i64) -> (res: i64)
    requires
        -0xffff_ffff_ffff_ffff <= diff <= 0xffff_ffff_ffff_ffff,
    ensures
        res == level_above(level as int, diff as int, factor as int),
{
    proof {
        lemma_product_fits(diff as int, factor as int);
    }
    let p: i128 = diff * factor as i128;
    let q: i128 = div_up(p, 1_000_000);
    assert(-0x1000_0000_0000_0000_0000_0000_0000 <= q <= 0x1000_0000_0000_0000_0000_0000_0000);
    to_i64(level as i128 + q)
}

/// Half way between two levels, rounded down to a whole multiple of `tick`.
pub fn half_way_down(a: i64, b: i64, tick: i64) -> (res: i64)
    ensures
        res == half_way(a as int, b as int, tick as int),
{
    round_down_tick(div_down(a as i128 + b as i128, 2) as i64, tick)
}

/// The stop behind a rung.
pub fn stop_behind(rung: i64, diff: i128, factor: i64, tick: i64) -> (res: i64)
    requires
        -0xffff_ffff_ffff_ffff <= diff <= 0xffff_ffff_ffff_ffff,
    ensures
        res == rung_stop(rung as int, diff as int, factor as int, tick as int),
{
    let level: i64 = round_down_tick(below(rung, diff, factor), tick);
    if diff > 0 {
        max64(level, to_i64(rung as i128 - diff))
    } else {
        level
    }
}

pub proof fn lemma_product_fits(diff: int, factor: int)
    requires
        -0xffff_ffff_ffff_ffff <= diff <= 0xffff_ffff_ffff_ffff,
        i64::MIN <= factor <= i64::MAX,
    ensures
        i128::MIN < diff * factor <= i128::MAX,
{
    assert(-0xffff_ffff_ffff_ffff * 0x8000_0000_0000_0000 <= diff * factor
        <= 0xffff_ffff_ffff_ffff * 0x8000_0000_0000_0000) by (nonlinear_arith)
        requires
            -0xffff_ffff_ffff_ffff <= diff <= 0xffff_ffff_ffff_ffff,
            -0x8000_0000_0000_0000 <= factor <= 0x8000_0000_0000_0000,
    ;
}

// ---------------------------------------------------------------------------
// Laws of the levels
// ---------------------------------------------------------------------------

/// A rounded price is on the tick grid, not above the price, and less than one tick below
/// it.
pub proof fn rounding_stays_on_the_grid(price: i64, tick: i64)
    requires
        tick > 0,
        price >= i64::MIN + tick,
    ensures
        tick_down(price as int, tick as int) % (tick as int) == 0,
        tick_down(price as int, tick as int) <= price,
        price - tick < tick_down(price as int, tick as int),
{
    lemma_product_bound(price as int, tick as int);
    vstd::arithmetic::div_mod::lemma_mod_multiples_basic(price as int / tick as int, tick as int);
}

/// A price that is already on the grid stays where it is.
pub proof fn rounding_keeps_grid_prices(steps: int, tick: i64)
    requires
        tick > 0,
        i64::MIN <= steps * tick <= i64::MAX,
    ensures
        tick_down(steps * tick, tick as int) == steps * tick,
{
    let p = steps * tick;
    vstd::arithmetic::div_mod::lemma_div_multiples_vanish(steps, tick as int);
    assert(p == (tick as int) * steps) by (nonlinear_arith)
        requires
            p == steps * tick,
    ;
}

/// Rounding down does not cross a level that is on the grid.
pub proof fn rounding_stops_at_grid_levels(price: i64, floor: i64, tick: i64)
    requires
        tick > 0,
        floor <= price,
        floor as int % tick as int == 0,
    ensures
        floor <= tick_down(price as int, tick as int),
{
    let a = floor as int / tick as int;
    let b = price as int / tick as int;
    vstd::arithmetic::div_mod::lemma_fundamental_div_mod(floor as int, tick as int);
    vstd::arithmetic::div_mod::lemma_div_is_ordered(floor as int, price as int, tick as int);
    assert(floor <= b * tick) by (nonlinear_arith)
        requires
            floor == tick * a,
            a <= b,
            tick > 0,
    ;
    lemma_product_bound(price as int, tick as int);
}

/// The stop behind a rung lies between the rung and the distance to target 1 below it, so
/// never below the entry.
pub proof fn rung_stop_lies_between_entry_and_rung(
    rung: int,
    entry: int,
    target: int,
    factor: int,
    tick: int,
)
    requires
        i64::MIN <= entry < target <= rung <= i64::MAX,
        0 <= factor,
    ensures
        rung - (target - entry) <= rung_stop(rung, target - entry, factor, tick) <= rung,
        entry <= rung_stop(rung, target - entry, factor, tick),
{
    let diff = target - entry;
    assert(0 <= diff * factor) by (nonlinear_arith)
        requires
            0 <= diff,
            0 <= factor,
    ;
    assert((rung * UNIT - diff * factor) / (UNIT as int) <= rung);
    let level = level_below(rung, diff, factor);
    if tick > 0 {
        lemma_product_bound(level, tick);
    }
}

/// An extension factor above zero puts the next rung above the one just hit.
pub proof fn next_rung_is_higher(rung: int, diff: int, factor: int)
    requires
        i64::MIN <= rung < i64::MAX,
        diff > 0,
        factor > 0,
    ensures
        level_above(rung, diff, factor) > rung,
{
    assert(diff * factor > 0) by (nonlinear_arith)
        requires
            diff > 0,
            factor > 0,
    ;
    assert(ceil_div(rung * UNIT + diff * factor, UNIT as int) >= rung + 1);
}

/// A level above another lies the factor times the distance above it, and less than a millionth
/// more; one below it lies so far below it, and less than a millionth more.
pub proof fn levels_keep_their_distance(level: i64, diff: int, factor: int)
    requires
        i64::MIN <= level + diff * factor / (UNIT as int) <= i64::MAX - 1,
        i64::MIN + 1 <= level - diff * factor / (UNIT as int) <= i64::MAX,
    ensures
        diff * factor <= (level_above(level as int, diff, factor) - level) * 1_000_000 < diff
            * factor + 1_000_000,
        diff * factor <= (level - level_below(level as int, diff, factor)) * 1_000_000 < diff
            * factor + 1_000_000,
{
}

/// The stop behind a rung is the factor times the distance below it, rounded down by less than
/// a tick, as long as that is not further below than the distance itself; it is the distance
/// below it otherwise.
pub proof fn rung_stops_keep_their_distance(rung: i64, diff: int, factor: int, tick: int)
    requires
        0 < diff,
        0 < tick,
        0 <= factor,
        i64::MIN + tick < rung - diff,
        i64::MIN + tick + 1 <= rung - diff * factor / (UNIT as int),
    ensures
        ({
            let stop = rung_stop(rung as int, diff, factor, tick);
            &&& stop >= rung - diff
            &&& stop > rung - diff ==> {
                &&& stop % tick == 0
                &&& stop * 1_000_000 <= rung * 1_000_000 - diff * factor
                &&& rung * 1_000_000 - diff * factor < (stop + tick + 1) * 1_000_000
            }
            &&& stop == rung - diff ==> (rung - diff) * 1_000_000 > rung * 1_000_000 - diff * factor
                - (tick + 1) * 1_000_000
        }),
{
    let level = level_below(rung as int, diff, factor);
    assert(diff * factor >= 0) by (nonlinear_arith)
        requires
            diff > 0,
            factor >= 0,
    ;
    lemma_product_bound(level, tick);
    vstd::arithmetic::div_mod::lemma_mod_multiples_basic(level / tick, tick);
}

/// Half way between two levels is on the tick grid, not above the middle, and less than a tick
/// and a millionth below it.
pub proof fn half_way_is_in_the_middle(a: i64, b: i64, tick: i64)
    requires
        tick > 0,
        a + b >= 2 * (i64::MIN + tick),
    ensures
        ({
            let h = half_way(a as int, b as int, tick as int);
            h % (tick as int) == 0 && 2 * h <= a + b < 2 * h + 2 * tick + 2
        }),
{
    rounding_stays_on_the_grid(((a + b) / 2) as i64, tick);
}

/// An amount in paise is the nearest whole number of paise; half a paisa is rounded away from
/// zero.
pub proof fn paise_are_nearest(x: int)
    ensures
        to_paise(x) % 10_000 == 0,
        x >= 0 ==> -10_000 < 2 * (x - to_paise(x)) < 10_000 || 2 * (to_paise(x) - x) == 10_000,
        x < 0 ==> -10_000 < 2 * (x - to_paise(x)) < 10_000 || 2 * (x - to_paise(x)) == 10_000,
        to_paise(-x) == -to_paise(x),
{
}

// ---------------------------------------------------------------------------
// Printing
// ---------------------------------------------------------------------------

/// The size of `v`.
pub open spec fn size_of_value(v: int) -> nat {
    if v < 0 {
        (-v) as nat
    } else {
        v as nat
    }
}

/// The sign that is printed in front of `v`.
pub open spec fn sign_text(v: int) -> Seq<char> {
    if v < 0 {
        seq!['-']
    } else {
        Seq::empty()
    }
}

/// A size in whole paise, ties to the even one.
pub open spec fn paise_even(m: nat) -> nat {
    let n = m / 10_000;
    let r = m % 10_000;
    if r > 5_000 || (r == 5_000 && n % 2 == 1) {
        n + 1
    } else {
        n
    }
}

/// `v` with two decimal places.
pub open spec fn two_places(v: int) -> Seq<char> {
    let p = paise_even(size_of_value(v));
    sign_text(v) + nat_text(p / 100) + seq![
        '.',
        digit_char(((p / 10) % 10) as int),
        digit_char((p % 10) as int),
    ]
}

/// The decimal places of `f`, whose first place is worth `scale`, up to the last one that
/// is not zero.
pub open spec fn places(f: nat, scale: nat) -> Seq<char>
    decreases scale,
{
    if f == 0 || scale == 0 {
        Seq::empty()
    } else {
        seq![digit_char((f / scale) as int)] + places(f % scale, scale / 10)
    }
}

/// `v` with as many decimal places as it has.
pub open spec fn plain_text(v: int) -> Seq<char> {
    let m = size_of_value(v);
    let f = m % (UNIT as nat);
    sign_text(v) + nat_text(m / (UNIT as nat)) + if f == 0 {
        Seq::empty()
    } else {
        seq!['.'] + places(f, 100_000)
    }
}

fn digit(d: u64) -> (res: char)
    requires
        d < 10,
    ensures
        res == digit_char(d as int),
{
    (48u8 + d as u8) as char
}

/// `v` with two decimal places.
pub fn two_place_text(v: i64) -> (res: String)
    ensures
        res@ == two_places(v as int),
{
    let m: u64 = if v < 0 {
        (-(v as i128)) as u64
    } else {
        v as u64
    };
    let n: u64 = m / 10_000;
    let r: u64 = m % 10_000;
    let p: u64 = if r > 5_000 || (r == 5_000 && n % 2 == 1) {
        n + 1
    } else {
        n
    };
    let mut out: String = String::new();
    if v < 0 {
        out.push('-');
    }
    assert(out@ =~= sign_text(v as int));
    out.append(u64_text(p / 100).as_str());
    out.push('.');
    out.push(digit((p / 10) % 10));
    out.push(digit(p % 10));
    assert(out@ =~= two_places(v as int));
    out
}

/// `v` with as many decimal places as it has.
pub fn plain(v: i64) -> (res: String)
    ensures
        res@ == plain_text(v as int),
{
    let m: u64 = if v < 0 {
        (-(v as i128)) as u64
    } else {
        v as u64
    };
    let mut out: String = String::new();
    if v < 0 {
        out.push('-');
    }
    assert(out@ =~= sign_text(v as int));
    out.append(u64_text(m / 1_000_000).as_str());
    let mut f: u64 = m % 1_000_000;
    let ghost f0 = f as nat;
    if f == 0 {
        assert(out@ =~= plain_text(v as int));
        return out;
    }
    out.push('.');
    let ghost head = out@;
    let mut scale: u64 = 100_000;
    while f != 0 && scale != 0
        invariant
            scale == 100_000 || scale == 10_000 || scale == 1_000 || scale == 100 || scale == 10
                || scale == 1 || scale == 0,
            scale > 0 ==> f < 10 * scale,
            out@ + places(f as nat, scale as nat) =~= head + places(f0, 100_000),
        decreases scale,
    {
        let d: u64 = f / scale;
        assert(d < 10 && f % scale < scale) by (nonlinear_arith)
            requires
                d == f / scale,
                scale > 0,
                f < 10 * scale,
        ;
        out.push(digit(d));
        f = f % scale;
        scale = scale / 10;
    }
    assert(out@ =~= plain_text(v as int));
    out
}

// ---------------------------------------------------------------------------
// Reading
// ---------------------------------------------------------------------------

/// An exponent that moves the decimal point further than any text is long.
pub const EXPONENT_CAP: i128 = 0x100_0000_0000_0000_0000;

/// Ten to the power of `k`.
pub open spec fn pow10(k: nat) -> int
    decreases k,
{
    if k == 0 {
        1
    } else {
        10 * pow10((k - 1) as nat)
    }
}

/// `d` with its decimal point moved `k` places to the right, cut off behind it.
pub open spec fn shifted(d: int, k: int) -> int {
    if k >= 0 {
        d * pow10(k as nat)
    } else {
        d / pow10((-k) as nat)
    }
}

/// The position of the first of the characters `a` and `b` in `s` from `from` on, or the
/// length of `s`.
pub open spec fn first_of(s: Seq<char>, a: char, b: char, from: int) -> int
    decreases s.len() - from,
{
    if from >= s.len() {
        s.len() as int
    } else if s[from] == a || s[from] == b {
        from
    } else {
        first_of(s, a, b, from + 1)
    }
}

/// The exponent that the text behind the marker writes; without a marker it is zero.
pub open spec fn written_exponent(s: Seq<char>) -> Option<int> {
    let m = first_of(s, 'e', 'E', 0);
    if m == s.len() {
        Some(0)
    } else {
        written_int(s.skip(m + 1))
    }
}

/// The number of millionths that an unsigned decimal number writes: digits with an
/// optional point among them, and an optional exponent.
pub open spec fn unsigned_millionths(s: Seq<char>) -> Option<int> {
    let m = first_of(s, 'e', 'E', 0);
    let body = s.take(m);
    let p = first_of(body, '.', '.', 0);
    let whole = body.take(p);
    let frac = if p < body.len() {
        body.skip(p + 1)
    } else {
        Seq::empty()
    };
    let digits = whole + frac;
    if is_number(digits) && written_exponent(s) is Some {
        Some(shifted(digits_value(digits), written_exponent(s)->0 + 6 - frac.len()))
    } else {
        None
    }
}

/// The number of millionths that a decimal number with an optional sign writes, cut off
/// towards zero.
pub open spec fn written_millionths(s: Seq<char>) -> Option<int> {
    if s.len() > 0 && (s[0] == '-' || s[0] == '+') {
        match unsigned_millionths(s.drop_first()) {
            Some(v) => Some(
                if s[0] == '-' {
                    -v
                } else {
                    v
                },
            ),
            None => None,
        }
    } else {
        unsigned_millionths(s)
    }
}

proof fn lemma_pow10_positive(k: nat)
    ensures
        pow10(k) >= 1,
    decreases k,
{
    if k > 0 {
        lemma_pow10_positive((k - 1) as nat);
    }
}

proof fn lemma_first_of(s: Seq<char>, a: char, b: char, from: int)
    requires
        0 <= from <= s.len(),
    ensures
        from <= first_of(s, a, b, from) <= s.len(),
    decreases s.len() - from,
{
    if from < s.len() && s[from] != a && s[from] != b {
        lemma_first_of(s, a, b, from + 1);
    }
}

/// Cutting digits off at the end divides by a power of ten.
proof fn lemma_prefix_is_quotient(s: Seq<char>, j: nat)
    requires
        forall|i: int| 0 <= i < s.len() ==> is_digit(#[trigger] s[i]),
        j <= s.len(),
    ensures
        digits_value(s.take(s.len() - j)) == digits_value(s) / pow10(j),
    decreases j,
{
    if j == 0 {
        assert(s.take(s.len() as int) =~= s);
        assert(pow10(0) == 1);
    } else {
        let t = s.drop_last();
        lemma_prefix_is_quotient(t, (j - 1) as nat);
        assert(t.take(t.len() - (j - 1)) =~= s.take(s.len() - j));
        let x = digits_value(t);
        assert(is_digit(s.last()));
        assert(digits_value(s) == x * 10 + digit_value(s.last()));
        lemma_digits_nonneg(t);
        lemma_pow10_positive((j - 1) as nat);
        assert(digits_value(s) / 10 == x);
        vstd::arithmetic::div_mod::lemma_div_denominator(
            digits_value(s),
            10,
            pow10((j - 1) as nat),
        );
    }
}

/// More digits than `s` has leave nothing.
proof fn lemma_small_quotient(s: Seq<char>, j: nat)
    requires
        forall|i: int| 0 <= i < s.len() ==> is_digit(#[trigger] s[i]),
        j >= s.len(),
    ensures
        digits_value(s) / pow10(j) == 0,
    decreases s.len(), j,
{
    lemma_digits_nonneg(s);
    lemma_digits_below_power(s);
    lemma_pow10_monotone(s.len(), j);
    vstd::arithmetic::div_mod::lemma_basic_div(digits_value(s), pow10(j));
}

proof fn lemma_digits_below_power(s: Seq<char>)
    requires
        forall|i: int| 0 <= i < s.len() ==> is_digit(#[trigger] s[i]),
    ensures
        digits_value(s) < pow10(s.len()),
    decreases s.len(),
{
    if s.len() > 0 {
        let t = s.drop_last();
        lemma_digits_below_power(t);
        assert(is_digit(s.last()));
    }
}

proof fn lemma_pow10_monotone(a: nat, b: nat)
    requires
        a <= b,
    ensures
        pow10(a) <= pow10(b),
    decreases b,
{
    lemma_pow10_positive(a);
    if a < b {
        lemma_pow10_monotone(a, (b - 1) as nat);
    }
}

proof fn lemma_prefix_not_larger(s: Seq<char>, k: int)
    requires
        forall|i: int| 0 <= i < s.len() ==> is_digit(#[trigger] s[i]),
        0 <= k <= s.len(),
    ensures
        0 <= digits_value(s.take(k)) <= digits_value(s),
    decreases s.len() - k,
{
    if k == s.len() {
        assert(s.take(k) =~= s);
        lemma_digits_nonneg(s);
    } else {
        lemma_prefix_not_larger(s, k + 1);
        assert(s.take(k + 1).drop_last() =~= s.take(k));
        assert(is_digit(s[k]));
        lemma_digits_nonneg(s.take(k));
    }
}

/// The value of the first `n` digits of `ds`, held at the largest 64-bit number.
fn leading_value(ds: &Vec<char>, n: usize) -> (res: i64)
    requires
        n <= ds@.len(),
        forall|i: int| 0 <= i < ds@.len() ==> is_digit(#[trigger] ds@[i]),
    ensures
        res == fit64(digits_value(ds@.take(n as int))),
{
    let mut acc: i128 = 0;
    let mut i: usize = 0;
    let ghost whole = ds@.take(n as int);
    assert(whole.take(0) =~= Seq::<char>::empty());
    while i < n
        invariant
            i <= n <= ds@.len(),
            whole == ds@.take(n as int),
            forall|k: int| 0 <= k < ds@.len() ==> is_digit(#[trigger] ds@[k]),
            acc == digits_value(whole.take(i as int)),
            0 <= acc <= i64::MAX,
        decreases n - i,
    {
        let c: char = ds[i];
        assert(is_digit(ds@[i as int]));
        assert(whole.take(i + 1).drop_last() =~= whole.take(i as int));
        assert(whole.take(i + 1).last() == c);
        acc = acc * 10 + ((c as u32) as i128 - 48);
        i += 1;
        if acc > i64::MAX as i128 {
            proof {
                assert forall|k: int| 0 <= k < whole.len() implies is_digit(
                    #[trigger] whole[k],
                ) by {
                    assert(is_digit(ds@[k]));
                }
                lemma_prefix_not_larger(whole, i as int);
            }
            return i64::MAX;
        }
    }
    assert(whole.take(n as int) =~= whole);
    proof {
        lemma_digits_nonneg(whole);
    }
    acc as i64
}

/// `v` times ten to the power of `k`, held at the largest 64-bit number.
fn scaled_up(v: i64, k: u128) -> (res: i64)
    requires
        v >= 0,
    ensures
        res == fit64(v * pow10(k as nat)),
{
    if v == 0 {
        return 0;
    }
    let mut acc: i128 = v as i128;
    let mut i: u128 = 0;
    assert(pow10(0) == 1);
    while i < k
        invariant
            i <= k,
            v > 0,
            acc == v * pow10(i as nat),
            0 < acc <= i64::MAX,
        decreases k - i,
    {
        assert(v * pow10((i + 1) as nat) == 10 * (v * pow10(i as nat))) by (nonlinear_arith)
            requires
                pow10((i + 1) as nat) == 10 * pow10(i as nat),
        ;
        acc = acc * 10;
        i += 1;
        if acc > i64::MAX as i128 {
            proof {
                lemma_pow10_monotone(i as nat, k as nat);
                assert(v * pow10(i as nat) <= v * pow10(k as nat)) by (nonlinear_arith)
                    requires
                        v > 0,
                        pow10(i as nat) <= pow10(k as nat),
                ;
            }
            return i64::MAX;
        }
    }
    acc as i64
}

fn find_first(v: &Vec<char>, a: char, b: char) -> (res: usize)
    ensures
        res == first_of(v@, a, b, 0),
        res <= v@.len(),
{
    let mut i: usize = 0;
    while i < v.len()
        invariant
            i <= v@.len(),
            first_of(v@, a, b, i as int) == first_of(v@, a, b, 0),
        decreases v@.len() - i,
    {
        if v[i] == a || v[i] == b {
            return i;
        }
        i += 1;
    }
    i
}

/// The value of the digits of `v` from `from` on, held at [`EXPONENT_CAP`], or `None` when
/// something else stands there.
fn capped_digits(v: &Vec<char>, from: usize) -> (res: Option<i128>)
    requires
        from <= v@.len(),
    ensures
        res == ({
            let d = v@.skip(from as int);
            if is_number(d) {
                Some(smaller(digits_value(d), EXPONENT_CAP as int) as i128)
            } else {
                None
            }
        }),
        res is Some ==> 0 <= res->0 <= EXPONENT_CAP,
{
    let ghost d = v@.skip(from as int);
    if from == v.len() {
        return None;
    }
    let mut acc: i128 = 0;
    let mut i: usize = from;
    assert(d.take(0) =~= Seq::<char>::empty());
    while i < v.len()
        invariant
            from <= i <= v@.len(),
            d == v@.skip(from as int),
            forall|k: int| 0 <= k < i - from ==> is_digit(#[trigger] d[k]),
            digits_value(d.take(i - from)) >= 0,
            acc == smaller(digits_value(d.take(i - from)), EXPONENT_CAP as int),
        decreases v@.len() - i,
    {
        let c: char = v[i];
        assert(d[i - from] == c);
        if !('0' <= c && c <= '9') {
            return None;
        }
        assert(d.take(i + 1 - from).drop_last() =~= d.take(i - from));
        assert(d.take(i + 1 - from).last() == c);
        acc = acc * 10 + ((c as u32) as i128 - 48);
        if acc > EXPONENT_CAP {
            acc = EXPONENT_CAP;
        }
        i += 1;
    }
    assert(d.take(i - from) =~= d);
    Some(acc)
}

fn exponent_of(v: &Vec<char>, m: usize) -> (res: Option<i128>)
    requires
        m == first_of(v@, 'e', 'E', 0),
        m <= v@.len(),
    ensures
        res is Some <==> written_exponent(v@) is Some,
        res is Some ==> res->0 == clamped(
            written_exponent(v@)->0,
            -(EXPONENT_CAP as int),
            EXPONENT_CAP as int,
        ),
{
    if m == v.len() {
        return Some(0);
    }
    let ghost t = v@.skip(m + 1);
    assert(t.len() > 0 ==> t[0] == v@[m + 1]);
    assert(t.len() > 0 ==> t.drop_first() =~= v@.skip(m + 2));
    assert(!is_digit('-') && !is_digit('+'));
    proof {
        if t.len() > 0 && is_number(t.drop_first()) {
            lemma_digits_nonneg(t.drop_first());
        }
        if is_number(t) {
            lemma_digits_nonneg(t);
        }
    }
    if m + 1 < v.len() && v[m + 1] == '-' {
        match capped_digits(v, m + 2) {
            Some(x) => Some(-x),
            None => None,
        }
    } else if m + 1 < v.len() && v[m + 1] == '+' {
        capped_digits(v, m + 2)
    } else {
        capped_digits(v, m + 1)
    }
}

/// A number other than zero leaves the 64-bit range with twenty places or more.
proof fn lemma_far_out_of_range(d: int, k: nat)
    requires
        d > 0,
        k >= 20,
    ensures
        d * pow10(k) > i64::MAX,
{
    reveal_with_fuel(pow10, 21);
    assert(pow10(20) > i64::MAX);
    lemma_pow10_monotone(20, k);
    assert(d * pow10(k) >= pow10(k)) by (nonlinear_arith)
        requires
            d > 0,
            pow10(k) > 0,
    ;
}

fn read_unsigned(v: &Vec<char>) -> (res: Option<i64>)
    ensures
        res is Some <==> unsigned_millionths(v@) is Some,
        res is Some ==> res->0 == fit64(unsigned_millionths(v@)->0) && res->0 >= 0,
{
    let m: usize = find_first(v, 'e', 'E');
    let e: i128 = match exponent_of(v, m) {
        Some(e) => e,
        None => {
            return None;
        },
    };
    let mut body: Vec<char> = Vec::new();
    let mut i: usize = 0;
    while i < m
        invariant
            i <= m <= v@.len(),
            body@ =~= v@.take(i as int),
        decreases m - i,
    {
        body.push(v[i]);
        i += 1;
    }
    let p: usize = find_first(&body, '.', '.');
    let ghost whole = body@.take(p as int);
    let ghost frac = if p < body@.len() {
        body@.skip(p + 1)
    } else {
        Seq::empty()
    };
    let ghost digits = whole + frac;
    let mut ds: Vec<char> = Vec::new();
    let mut j: usize = 0;
    while j < body.len()
        invariant
            j <= body@.len(),
            m == first_of(v@, 'e', 'E', 0),
            body@ == v@.take(m as int),
            p == first_of(body@, '.', '.', 0),
            p <= body@.len(),
            ds@ =~= if j <= p {
                body@.take(j as int)
            } else {
                body@.take(p as int) + body@.subrange(p + 1, j as int)
            },
            forall|k: int| 0 <= k < ds@.len() ==> is_digit(#[trigger] ds@[k]),
            whole == body@.take(p as int),
            frac == (if p < body@.len() {
                body@.skip(p + 1)
            } else {
                Seq::empty()
            }),
            digits == whole + frac,
        decreases body@.len() - j,
    {
        if j != p {
            let c: char = body[j];
            if !('0' <= c && c <= '9') {
                proof {
                    if j < p {
                        assert(digits[j as int] == c);
                    } else {
                        assert(digits[j - 1] == c);
                    }
                    assert(!is_number(digits));
                    assert(unsigned_millionths(v@) is None);
                }
                return None;
            }
            ds.push(c);
        }
        j += 1;
    }
    assert(ds@ =~= digits);
    if ds.len() == 0 {
        return None;
    }
    let frac_len: usize = if p < body.len() {
        body.len() - p - 1
    } else {
        0
    };
    let k: i128 = e + 6 - frac_len as i128;
    let ghost exact = written_exponent(v@)->0 + 6 - frac.len();
    let n: usize = ds.len();
    let ghost d = digits_value(digits);
    proof {
        lemma_digits_nonneg(digits);
    }
    if k >= 0 {
        let base: i64 = leading_value(&ds, n);
        assert(ds@.take(n as int) =~= ds@);
        let res: i64 = scaled_up(base, k as u128);
        proof {
            if exact != k {
                assert(exact >= 20 && k >= 20);
                if d > 0 {
                    lemma_far_out_of_range(d, exact as nat);
                    lemma_far_out_of_range(base as int, k as nat);
                } else {
                    vstd::arithmetic::mul::lemma_mul_basics(pow10(exact as nat));
                    vstd::arithmetic::mul::lemma_mul_basics(pow10(k as nat));
                }
            }
            lemma_pow10_positive(k as nat);
            if d > i64::MAX {
                assert(d * pow10(k as nat) >= d) by (nonlinear_arith)
                    requires
                        d > 0,
                        pow10(k as nat) >= 1,
                ;
                assert(i64::MAX * pow10(k as nat) >= i64::MAX) by (nonlinear_arith)
                    requires
                        pow10(k as nat) >= 1,
                ;
            }
            assert(d * pow10(k as nat) >= 0) by (nonlinear_arith)
                requires
                    d >= 0,
                    pow10(k as nat) >= 1,
            ;
        }
        Some(res)
    } else if -k >= n as i128 {
        proof {
            lemma_small_quotient(digits, (-exact) as nat);
        }
        Some(0)
    } else {
        let cut: usize = n - (-k) as usize;
        assert(exact == k);
        proof {
            lemma_prefix_is_quotient(digits, (-k) as nat);
            lemma_prefix_not_larger(digits, cut as int);
        }
        Some(leading_value(&ds, cut))
    }
}

/// The number of millionths that `s` writes, held within the 64-bit range, or `None` when it
/// writes no number.
pub fn parse_millionths(s: &str) -> (res: Option<i64>)
    ensures
        res is Some <==> written_millionths(s@) is Some,
        res is Some ==> res->0 == clamped(
            written_millionths(s@)->0,
            -(i64::MAX as int),
            i64::MAX as int,
        ),
{
    let v: Vec<char> = chars_of(s);
    if v.len() > 0 && (v[0] == '-' || v[0] == '+') {
        let mut rest: Vec<char> = Vec::new();
        let mut i: usize = 1;
        while i < v.len()
            invariant
                1 <= i <= v@.len(),
                rest@ =~= v@.subrange(1, i as int),
            decreases v@.len() - i,
        {
            rest.push(v[i]);
            i += 1;
        }
        assert(rest@ =~= s@.drop_first());
        match read_unsigned(&rest) {
            Some(x) => if v[0] == '-' {
                Some(-x)
            } else {
                Some(x)
            },
            None => None,
        }
    } else {
        read_unsigned(&v)
    }
}

// ---------------------------------------------------------------------------
// Laws of reading and printing
// ---------------------------------------------------------------------------

proof fn lemma_digits_joined(a: Seq<char>, b: Seq<char>)
    ensures
        digits_value(a + b) == digits_value(a) * pow10(b.len()) + digits_value(b),
    decreases b.len(),
{
    if b.len() == 0 {
        assert(a + b =~= a);
        assert(pow10(b.len()) == 1);
        assert(digits_value(b) == 0);
    } else {
        let c = b.drop_last();
        lemma_digits_joined(a, c);
        assert((a + b).drop_last() =~= a + c);
        assert((a + b).last() == b.last());
        let x = digits_value(a);
        let p = pow10(c.len());
        assert(pow10(b.len()) == 10 * p);
        assert((x * p + digits_value(c)) * 10 == x * (10 * p) + digits_value(c) * 10)
            by (nonlinear_arith);
    }
}

proof fn lemma_pow10_sum(a: nat, b: nat)
    ensures
        pow10(a + b) == pow10(a) * pow10(b),
    decreases a,
{
    if a > 0 {
        lemma_pow10_sum((a - 1) as nat, b);
        assert(10 * (pow10((a - 1) as nat) * pow10(b)) == (10 * pow10((a - 1) as nat)) * pow10(b))
            by (nonlinear_arith);
    }
}

/// What the decimal places of `f` are worth, read as digits.
proof fn lemma_places_value(f: nat, scale: nat, k: nat)
    requires
        scale == pow10(k),
        f < 10 * scale,
    ensures
        ({
            let s = places(f, scale);
            &&& s.len() <= k + 1
            &&& forall|i: int| 0 <= i < s.len() ==> is_digit(#[trigger] s[i])
            &&& digits_value(s) * pow10((k + 1 - s.len()) as nat) == f
        }),
    decreases k,
{
    let s = places(f, scale);
    lemma_pow10_positive(k);
    if f == 0 {
        assert(digits_value(s) == 0);
    } else {
        let d = f / scale;
        let r = f % scale;
        assert(d < 10 && r < scale && f == d * scale + r) by (nonlinear_arith)
            requires
                f < 10 * scale,
                scale >= 1,
                d == f / scale,
                r == f % scale,
        ;
        let first = seq![digit_char(d as int)];
        assert(first.drop_last() =~= Seq::<char>::empty());
        assert(digits_value(first) == d) by {
            assert(digits_value(first.drop_last()) == 0);
        }
        if k == 0 {
            assert(scale == 1);
            assert(r == 0);
            let rest = places(r, (scale / 10) as nat);
            assert(rest.len() == 0);
            assert(s =~= first);
            assert(pow10(0) == 1);
            assert(digits_value(s) * 1 == f);
        } else {
            let low = (scale / 10) as nat;
            assert(pow10(k) == 10 * pow10((k - 1) as nat));
            assert(low == pow10((k - 1) as nat));
            lemma_places_value(r, low, (k - 1) as nat);
            let rest = places(r, low);
            assert(s == first + rest);
            lemma_digits_joined(first, rest);
            let gap = (k - rest.len()) as nat;
            lemma_pow10_sum(rest.len(), gap);
            let x = digits_value(rest);
            let p = pow10(rest.len());
            let q = pow10(gap);
            assert(k + 1 - s.len() == gap);
            assert((d * p + x) * q == d * (p * q) + x * q) by (nonlinear_arith);
            assert(p * q == scale);
        }
    }
}

proof fn lemma_no_mark(s: Seq<char>, a: char, b: char, from: int)
    requires
        0 <= from <= s.len(),
        forall|i: int| from <= i < s.len() ==> (#[trigger] s[i]) != a && s[i] != b,
    ensures
        first_of(s, a, b, from) == s.len(),
    decreases s.len() - from,
{
    if from < s.len() {
        lemma_no_mark(s, a, b, from + 1);
    }
}

proof fn lemma_first_mark(s: Seq<char>, a: char, b: char, from: int)
    requires
        0 <= from <= s.len(),
    ensures
        first_of(s, a, b, from) < s.len() ==> s[first_of(s, a, b, from)] == a || s[first_of(
            s,
            a,
            b,
            from,
        )] == b,
        forall|i: int|
            from <= i < first_of(s, a, b, from) ==> (#[trigger] s[i]) != a && s[i] != b,
    decreases s.len() - from,
{
    if from < s.len() && s[from] != a && s[from] != b {
        lemma_first_mark(s, a, b, from + 1);
    }
}

proof fn lemma_mark_at(s: Seq<char>, a: char, b: char, from: int, at: int)
    requires
        0 <= from <= at < s.len(),
        s[at] == a || s[at] == b,
        forall|i: int| from <= i < at ==> (#[trigger] s[i]) != a && s[i] != b,
    ensures
        first_of(s, a, b, from) == at,
    decreases at - from,
{
    if from < at {
        lemma_mark_at(s, a, b, from + 1, at);
    }
}

/// Digits, a point and up to six more digits are read as the number that they write.
proof fn lemma_pointed_reads(whole: Seq<char>, frac: Seq<char>)
    requires
        is_number(whole),
        forall|i: int| 0 <= i < frac.len() ==> is_digit(#[trigger] frac[i]),
        frac.len() <= 6,
    ensures
        unsigned_millionths(whole + seq!['.'] + frac) == Some(
            digits_value(whole) * 1_000_000 + digits_value(frac) * pow10((6 - frac.len()) as nat),
        ),
        unsigned_millionths(whole) == Some(digits_value(whole) * 1_000_000),
{
    let s = whole + seq!['.'] + frac;
    let n = whole.len() as int;
    assert forall|i: int| 0 <= i < n implies is_digit(#[trigger] s[i]) by {
        assert(s[i] == whole[i]);
    }
    assert forall|i: int| n < i < s.len() implies is_digit(#[trigger] s[i]) by {
        assert(s[i] == frac[i - n - 1]);
    }
    lemma_no_mark(s, 'e', 'E', 0);
    assert(s.take(s.len() as int) =~= s);
    lemma_mark_at(s, '.', '.', 0, n);
    assert(s.take(n) =~= whole);
    assert(s.skip(n + 1) =~= frac);
    let digits = whole + frac;
    assert(is_number(digits)) by {
        assert forall|i: int| 0 <= i < digits.len() implies is_digit(#[trigger] digits[i]) by {
            if i < n {
                assert(digits[i] == whole[i]);
            } else {
                assert(digits[i] == frac[i - n]);
            }
        }
    }
    lemma_digits_joined(whole, frac);
    let gap = (6 - frac.len()) as nat;
    lemma_pow10_sum(frac.len(), gap);
    reveal_with_fuel(pow10, 7);
    assert(pow10(6) == 1_000_000);
    let w = digits_value(whole);
    let x = digits_value(frac);
    let p = pow10(frac.len());
    let q = pow10(gap);
    assert((w * p + x) * q == w * (p * q) + x * q) by (nonlinear_arith);
    lemma_no_mark(whole, 'e', 'E', 0);
    assert(whole.take(n) =~= whole);
    lemma_no_mark(whole, '.', '.', 0);
    assert(whole + Seq::<char>::empty() =~= whole);
}

/// An amount that was printed in full is read back as it was.
pub proof fn printed_amounts_read_back(v: i64)
    ensures
        written_millionths(plain_text(v as int)) == Some(v as int),
{
    let m = size_of_value(v as int);
    let w = m / 1_000_000;
    let f = m % 1_000_000;
    let whole = nat_text(w);
    printed_nat_reads_back(w);
    assert(is_digit(whole[0]));
    reveal_with_fuel(pow10, 7);
    assert(pow10(5) == 100_000);
    lemma_places_value(f, 100_000, 5);
    let frac = places(f, 100_000);
    lemma_pointed_reads(whole, frac);
    assert(m == w * 1_000_000 + f);
    let body = if f == 0 {
        whole
    } else {
        whole + seq!['.'] + frac
    };
    assert(unsigned_millionths(body) == Some(m as int));
    if v < 0 {
        assert(plain_text(v as int) =~= seq!['-'] + body);
        assert((seq!['-'] + body).drop_first() =~= body);
    } else {
        assert(plain_text(v as int) =~= body);
        assert(body[0] == whole[0]);
    }
}

/// An amount that was printed with two places is read back as the nearest whole number of
/// paise.
pub proof fn two_places_are_nearest(v: i64)
    ensures
        ({
            let r = written_millionths(two_places(v as int));
            &&& r is Some
            &&& r->0 % 10_000 == 0
            &&& -5_000 <= v - r->0 <= 5_000
        }),
{
    let p = paise_even(size_of_value(v as int));
    let whole = nat_text(p / 100);
    let d1 = ((p / 10) % 10) as int;
    let d2 = (p % 10) as int;
    let frac = seq![digit_char(d1), digit_char(d2)];
    printed_nat_reads_back(p / 100);
    assert(is_digit(whole[0]));
    lemma_pointed_reads(whole, frac);
    let one = seq![digit_char(d1)];
    assert(frac.drop_last() =~= one);
    assert(one.drop_last() =~= Seq::<char>::empty());
    assert(digits_value(one.drop_last()) == 0);
    assert(digits_value(one) == d1);
    assert(digits_value(frac) == d1 * 10 + d2);
    reveal_with_fuel(pow10, 7);
    assert(pow10(4) == 10_000);
    assert(frac.len() == 2);
    assert((6 - frac.len()) as nat == 4nat);
    assert(p == (p / 100) * 100 + d1 * 10 + d2);
    let body = whole + seq!['.'] + frac;
    assert(digits_value(frac) * pow10(4) == (d1 * 10 + d2) * 10_000);
    assert(unsigned_millionths(body) == Some(p as int * 10_000));
    let text = two_places(v as int);
    if v < 0 {
        assert(text =~= seq!['-'] + body);
        assert((seq!['-'] + body).drop_first() =~= body);
    } else {
        assert(text =~= body);
        assert(body[0] == whole[0]);
    }
}

/// Without a tick grid nothing is rounded: a price stays where it is, half way is the middle,
/// and the stop behind a rung is the level itself. Where target 1 is not above the entry, the
/// stop has no floor.
pub proof fn without_a_grid_nothing_is_rounded(
    a: i64,
    b: i64,
    tick: int,
    rung: int,
    diff: int,
    factor: int,
)
    requires
        tick <= 0,
    ensures
        tick_down(a as int, tick) == a,
        2 * half_way(a as int, b as int, tick) <= a + b < 2 * half_way(a as int, b as int, tick)
            + 2,
        diff <= 0 ==> rung_stop(rung, diff, factor, tick) == level_below(rung, diff, factor),
        diff > 0 && level_below(rung, diff, factor) >= rung - diff && i64::MIN <= rung - diff
            <= i64::MAX ==> rung_stop(rung, diff, factor, tick) == level_below(rung, diff, factor),
{
}

/// Digits, a mark and an exponent: the mark ends the digits, and the exponent stands behind it.
proof fn lemma_marked_reads(whole: Seq<char>, mark: char, tail: Seq<char>)
    requires
        is_number(whole),
        mark == 'e' || mark == 'E',
    ensures
        unsigned_millionths(whole + seq![mark] + tail) == match written_int(tail) {
            Some(k) => Some(shifted(digits_value(whole), k + 6)),
            None => None::<int>,
        },
{
    let s = whole + seq![mark] + tail;
    let n = whole.len() as int;
    assert forall|i: int| 0 <= i < n implies is_digit(#[trigger] s[i]) by {
        assert(s[i] == whole[i]);
    }
    lemma_mark_at(s, 'e', 'E', 0, n);
    assert(s.take(n) =~= whole);
    assert(s.skip(n + 1) =~= tail);
    lemma_no_mark(whole, '.', '.', 0);
    assert(whole.take(n) =~= whole);
    assert(whole + Seq::<char>::empty() =~= whole);
}

/// An exponent moves the decimal point by as many places as it says: to the right, or to the
/// left with a minus sign before it. What falls below a millionth is cut off. A mark that no
/// exponent follows is no number.
pub proof fn exponents_move_the_point(whole: Seq<char>, k: nat, mark: char)
    requires
        is_number(whole),
        mark == 'e' || mark == 'E',
    ensures
        unsigned_millionths(whole + seq![mark] + nat_text(k)) == Some(
            digits_value(whole) * (1_000_000 * pow10(k)),
        ),
        ({
            let r = unsigned_millionths(whole + seq![mark] + (seq!['-'] + nat_text(k)));
            &&& r is Some
            &&& r->0 * pow10(k) <= digits_value(whole) * 1_000_000 < (r->0 + 1) * pow10(k)
        }),
        unsigned_millionths(whole + seq![mark] + Seq::<char>::empty()) is None,
{
    let e = nat_text(k);
    let d = digits_value(whole);
    printed_nat_reads_back(k);
    assert(is_digit(e[0]));
    lemma_marked_reads(whole, mark, e);
    lemma_marked_reads(whole, mark, seq!['-'] + e);
    lemma_marked_reads(whole, mark, Seq::<char>::empty());
    assert((seq!['-'] + e).drop_first() =~= e);
    reveal_with_fuel(pow10, 7);
    assert(pow10(6) == 1_000_000);
    lemma_pow10_sum(6, k);
    lemma_pow10_positive(k);
    let p = pow10(k);
    let r = shifted(d, 6 - k);
    if k <= 6 {
        let g = (6 - k) as nat;
        lemma_pow10_sum(g, k);
        let q = pow10(g);
        assert(r == d * q);
        assert((d * q) * p == d * (q * p)) by (nonlinear_arith);
        assert((r + 1) * p == r * p + p) by (nonlinear_arith);
    } else {
        let g = (k - 6) as nat;
        lemma_pow10_sum(g, 6);
        lemma_pow10_positive(g);
        let q = pow10(g);
        assert(r == d / q);
        assert(p == q * 1_000_000);
        assert(r * q <= d < (r + 1) * q) by (nonlinear_arith)
            requires
                r == d / q,
                q >= 1,
        ;
        assert(r * (q * 1_000_000) == (r * q) * 1_000_000) by (nonlinear_arith);
        assert((r + 1) * (q * 1_000_000) == ((r + 1) * q) * 1_000_000) by (nonlinear_arith);
    }
}

/// A sign in front of a decimal number turns it round, or leaves it as it is.
pub proof fn amounts_take_one_sign(s: Seq<char>)
    requires
        s.len() > 0,
        s[0] != '-',
        s[0] != '+',
    ensures
        written_millionths(seq!['+'] + s) == written_millionths(s),
        written_millionths(seq!['-'] + s) is Some <==> written_millionths(s) is Some,
        written_millionths(s) is Some ==> written_millionths(seq!['-'] + s)->0
            == -(written_millionths(s)->0),
{
    assert((seq!['+'] + s).drop_first() =~= s);
    assert((seq!['-'] + s).drop_first() =~= s);
}

/// What is read as a number holds a digit before any exponent, and nothing there but digits
/// and a point.
pub proof fn amounts_are_made_of_digits(s: Seq<char>, i: int)
    requires
        unsigned_millionths(s) is Some,
        0 <= i < s.len(),
        forall|j: int| 0 <= j <= i ==> (#[trigger] s[j]) != 'e' && s[j] != 'E',
    ensures
        is_digit(s[i]) || s[i] == '.',
        s[i] == '.' ==> exists|j: int| 0 <= j < s.len() && is_digit(#[trigger] s[j]),
        s[i] == '.' ==> forall|j: int| 0 <= j < i ==> (#[trigger] s[j]) != '.',
{
    let m = first_of(s, 'e', 'E', 0);
    lemma_first_of(s, 'e', 'E', 0);
    lemma_first_mark(s, 'e', 'E', 0);
    assert(i < m);
    let body = s.take(m);
    let p = first_of(body, '.', '.', 0);
    lemma_first_of(body, '.', '.', 0);
    lemma_first_mark(body, '.', '.', 0);
    let whole = body.take(p);
    let frac = if p < body.len() {
        body.skip(p + 1)
    } else {
        Seq::empty()
    };
    let digits = whole + frac;
    assert(is_digit(digits[0]));
    if p > 0 {
        assert(digits[0] == s[0]);
    } else {
        assert(digits[0] == s[p + 1]);
    }
    if i < p {
        assert(digits[i] == s[i]);
        assert(is_digit(digits[i]));
    } else if i > p {
        assert(digits[i - 1] == s[i]);
        assert(is_digit(digits[i - 1]));
    } else {
        assert forall|j: int| 0 <= j < i implies (#[trigger] s[j]) != '.' by {
            assert(body[j] == s[j]);
        }
    }
}

} // verus!
