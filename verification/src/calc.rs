//! The pricing calculator: from a target net price and the prices the
//! marketplace shows now, the list price that yields the target.
//!
//! Prices are integers. A list price is in hundredths of the currency; the
//! marketplace turns a list price `b` into the net price
//! `floor(floor(b * part) * 0.97)`, where `part` is its discount fraction.

use vstd::prelude::*;
use crate::decimal::{dec_div, decimal_quotient, div_rem_floor, lemma_div_unique, pow10, round_half_even, round_half_even_exec, Dec, DecValue};

verus! {

/// The net price that the marketplace shows for the list price `b`.
pub open spec fn net_of(b: int, part: DecValue) -> int {
    (part.floor_times(b) * 97) / 100
}

/// `start` times 1000, rounded to an integer.
pub open spec fn thousandths(start: DecValue) -> int {
    round_half_even(start.mantissa * 1000, pow10(start.scale))
}

/// The fraction after snapping: where `start` rounds to a thousandth that
/// ends in 5, that thousandth; else `start` unchanged.
pub open spec fn snapped(start: DecValue) -> DecValue {
    let k = thousandths(start);
    if k >= 0 && k % 10 == 5 {
        DecValue { mantissa: k, scale: 3 }
    } else {
        start
    }
}

/// Whether `b` is where the search from `base` ends: `base` itself where it
/// gives the target; else the nearest price below it that no longer gives
/// more than the target, or the nearest above it that no longer gives less.
pub open spec fn is_refinement(base: int, part: DecValue, target: int, b: int) -> bool {
    if net_of(base, part) > target {
        &&& b < base
        &&& net_of(b, part) <= target
        &&& forall|x: int| b < x <= base ==> #[trigger] net_of(x, part) > target
    } else if net_of(base, part) < target {
        &&& b > base
        &&& net_of(b, part) >= target
        &&& forall|x: int| base <= x < b ==> #[trigger] net_of(x, part) < target
    } else {
        b == base
    }
}

/// Where the search from `base` ends, if it ends at a 32-bit price.
pub open spec fn refined(base: int, part: DecValue, target: int) -> Option<int> {
    if exists|b: int| i32::MIN <= b <= i32::MAX && is_refinement(base, part, target, b) {
        Some(choose|b: int| i32::MIN <= b <= i32::MAX && is_refinement(base, part, target, b))
    } else {
        None
    }
}

/// Whether a new list price is so low against the current one that it is
/// replaced: the new price over the current price in whole units is at most 0.3.
pub open spec fn clamp_applies(new_price: int, current_basic: int) -> bool
    recommends
        current_basic != 0,
{
    if current_basic > 0 {
        1000 * new_price <= 3 * current_basic
    } else {
        1000 * new_price >= 3 * current_basic
    }
}

/// The price that replaces one that is too low: 0.4 times the current list
/// price in whole units, rounded.
pub open spec fn clamp_price(current_basic: int) -> int {
    round_half_even(current_basic * 4, 1000)
}

/// An integer as a decimal value.
pub open spec fn int_value(n: int) -> DecValue {
    DecValue { mantissa: n, scale: 0 }
}

/// The fixed rebate factor 0.97 as a decimal value.
pub open spec fn rebate() -> DecValue {
    DecValue { mantissa: 97, scale: 2 }
}

/// The seed of the search: the quotient rounded, if it is a 32-bit integer.
pub open spec fn seed_of(quotient: DecValue) -> Option<int> {
    let r = quotient.round();
    if i32::MIN <= r <= i32::MAX {
        Some(r)
    } else {
        None
    }
}

/// The list price that the search from the seed ends at, before the clamp.
pub open spec fn refined_from_seed(target: int, part: DecValue, quotient: DecValue) -> Option<int> {
    match seed_of(quotient) {
        Some(seed) => refined(seed, part, target),
        None => None,
    }
}

/// The predicted net price (before the rebate) and the new list price, once
/// the discount fraction and the seed quotient are known.
pub open spec fn spec_price_from_seed(
    target: int,
    part: DecValue,
    quotient: DecValue,
    current_basic: int,
) -> Option<(int, int)> {
    match refined_from_seed(target, part, quotient) {
        Some(b) => {
            let new_price = if clamp_applies(b, current_basic) {
                clamp_price(current_basic)
            } else {
                b
            };
            let predicted = part.floor_times(new_price);
            if current_basic != 0 && i32::MIN <= predicted <= i32::MAX {
                Some((predicted, new_price))
            } else {
                None
            }
        },
        None => None,
    }
}

/// Whether the observed prices are those of a discount: the net price is
/// above zero and at most the list price.
pub open spec fn is_discount(current_discounted: int, current_basic: int) -> bool {
    0 < current_discounted <= current_basic
}

/// The discount fraction for an observed net and list price: their quotient,
/// snapped. For the prices of a discount the quotient is above zero and at
/// most one; one that is not is not used.
pub open spec fn spec_part(current_discounted: int, current_basic: int) -> Option<DecValue> {
    match decimal_quotient(int_value(current_discounted), int_value(current_basic)) {
        Some(raw) => if is_discount(current_discounted, current_basic)
            && !raw.is_unit_fraction() {
            None
        } else {
            spec_correct_part(raw)
        },
        None => None,
    }
}

/// The quotient that seeds the search: `target / 0.97 / part`.
pub open spec fn spec_seed_quotient(target: int, part: DecValue) -> Option<DecValue> {
    match decimal_quotient(int_value(target), rebate()) {
        Some(undiscounted) => decimal_quotient(undiscounted, part),
        None => None,
    }
}

/// What the calculator returns.
pub open spec fn spec_count_new_basic(
    target: int,
    current_discounted: int,
    current_basic: int,
) -> Option<(int, int)> {
    match spec_part(current_discounted, current_basic) {
        Some(part) => match spec_seed_quotient(target, part) {
            Some(quotient) => spec_price_from_seed(target, part, quotient, current_basic),
            None => None,
        },
        None => None,
    }
}

/// Whether the calculator replaced the refined price by the clamp price.
pub open spec fn clamp_triggered(target: int, current_discounted: int, current_basic: int) -> bool {
    match spec_part(current_discounted, current_basic) {
        Some(part) => match spec_seed_quotient(target, part) {
            Some(quotient) => match refined_from_seed(target, part, quotient) {
                Some(b) => clamp_applies(b, current_basic),
                None => false,
            },
            None => false,
        },
        None => false,
    }
}

/// The snapped fraction, where the thousandth it rounds to is a 64-bit
/// integer.
pub open spec fn spec_correct_part(start: DecValue) -> Option<DecValue> {
    if i64::MIN <= thousandths(start) <= i64::MAX {
        Some(snapped(start))
    } else {
        None
    }
}

/// A decimal as its mathematical value.
pub open spec fn as_value(r: Option<Dec>) -> Option<DecValue> {
    match r {
        Some(d) => Some(d@),
        None => None,
    }
}

/// A pair of 32-bit integers as mathematical integers.
pub open spec fn as_ints(r: Option<(i32, i32)>) -> Option<(int, int)> {
    match r {
        Some(p) => Some((p.0 as int, p.1 as int)),
        None => None,
    }
}

/// A 32-bit integer as a mathematical integer.
pub open spec fn as_int(r: Option<i32>) -> Option<int> {
    match r {
        Some(p) => Some(p as int),
        None => None,
    }
}

/// The search from one base ends at one price at most.
pub proof fn lemma_refinement_unique(base: int, part: DecValue, target: int, b1: int, b2: int)
    requires
        is_refinement(base, part, target, b1),
        is_refinement(base, part, target, b2),
    ensures
        b1 == b2,
{
    if net_of(base, part) > target {
        if b1 < b2 {
            assert(net_of(b2, part) > target);
        } else if b2 < b1 {
            assert(net_of(b1, part) > target);
        }
    } else if net_of(base, part) < target {
        if b1 < b2 {
            assert(net_of(b1, part) < target);
        } else if b2 < b1 {
            assert(net_of(b2, part) < target);
        }
    }
}

/// A 32-bit price at which the search ends is the refined price.
pub proof fn lemma_refined_is(base: int, part: DecValue, target: int, b: int)
    requires
        i32::MIN <= b <= i32::MAX,
        is_refinement(base, part, target, b),
    ensures
        refined(base, part, target) == Some(b),
{
    let c = choose|c: int| i32::MIN <= c <= i32::MAX && is_refinement(base, part, target, c);
    lemma_refinement_unique(base, part, target, b, c);
}

/// The net price that the marketplace shows for the list price `b`.
pub fn net_price(b: i32, part: &Dec) -> (n: i128)
    requires
        part.wf(),
    ensures
        n == net_of(b as int, part@),
{
    let f = part.floor_times(b);
    let (q, r) = div_rem_floor(f, 100);
    let (q2, r2) = div_rem_floor(97 * r, 100);
    proof {
        vstd::arithmetic::div_mod::lemma_fundamental_div_mod(f as int, 100);
        vstd::arithmetic::div_mod::lemma_fundamental_div_mod(97 * r as int, 100);
        lemma_div_unique(f * 97, 100, 97 * q + q2, r2 as int);
    }
    97 * q + q2
}

/// Searches from `base` for the list price that gives the target net price:
/// downwards while the net price is above the target, upwards while it is
/// below. `None` where the search leaves the 32-bit prices; with a fraction
/// that is not above zero it does so whenever `base` misses the target, and
/// that is answered at once.
pub fn correct(base: i32, part: &Dec, target: i32) -> (r: Option<i32>)
    requires
        part.wf(),
    ensures
        as_int(r) == refined(base as int, part@, target as int),
{
    let first = net_price(base, part);
    if part.mantissa <= 0 && first != target as i128 {
        proof {
            assert forall|c: int| i32::MIN <= c <= i32::MAX implies !is_refinement(
                base as int,
                part@,
                target as int,
                c,
            ) by {
                if c < base {
                    lemma_net_antitone(part@, c, base as int);
                } else {
                    lemma_net_antitone(part@, base as int, c);
                }
            }
        }
        return None;
    }
    if first > target as i128 {
        let mut b = base;
        loop
            invariant
                part.wf(),
                i32::MIN <= b <= base,
                net_of(base as int, part@) > target,
                forall|x: int| b <= x <= base ==> #[trigger] net_of(x, part@) > target,
            decreases b - i32::MIN,
        {
            if b == i32::MIN {
                proof {
                    assert forall|c: int| i32::MIN <= c <= i32::MAX implies !is_refinement(
                        base as int,
                        part@,
                        target as int,
                        c,
                    ) by {
                        if c < base {
                            assert(net_of(c, part@) > target);
                        }
                    }
                }
                return None;
            }
            b = b - 1;
            if net_price(b, part) <= target as i128 {
                proof {
                    lemma_refined_is(base as int, part@, target as int, b as int);
                }
                return Some(b);
            }
        }
    } else if first < target as i128 {
        let mut b = base;
        loop
            invariant
                part.wf(),
                base <= b <= i32::MAX,
                net_of(base as int, part@) < target,
                forall|x: int| base <= x <= b ==> #[trigger] net_of(x, part@) < target,
            decreases i32::MAX - b,
        {
            if b == i32::MAX {
                proof {
                    assert forall|c: int| i32::MIN <= c <= i32::MAX implies !is_refinement(
                        base as int,
                        part@,
                        target as int,
                        c,
                    ) by {
                        if c > base {
                            assert(net_of(c, part@) < target);
                        }
                    }
                }
                return None;
            }
            b = b + 1;
            if net_price(b, part) >= target as i128 {
                proof {
                    lemma_refined_is(base as int, part@, target as int, b as int);
                }
                return Some(b);
            }
        }
    } else {
        proof {
            lemma_refined_is(base as int, part@, target as int, base as int);
        }
        Some(base)
    }
}

/// Snaps the discount fraction: where it rounds to a thousandth that ends in
/// 5, it becomes that thousandth. `None` where the thousandth is no 64-bit
/// integer.
pub fn correct_part(start: Dec) -> (r: Option<Dec>)
    requires
        start.wf(),
    ensures
        as_value(r) == spec_correct_part(start@),
        r matches Some(d) ==> d.wf(),
{
    let p = crate::decimal::pow10_exec(start.scale);
    let k = round_half_even_exec(start.mantissa * 1000, p);
    if k < i64::MIN as i128 || k > i64::MAX as i128 {
        return None;
    }
    if k >= 0 && k % 10 == 5 {
        Some(Dec { mantissa: k, scale: 3 })
    } else {
        Some(start)
    }
}

/// The price that replaces one that is too low.
pub fn clamp_price_exec(current_basic: i32) -> (r: i32)
    ensures
        r == clamp_price(current_basic as int),
{
    let n: i128 = (current_basic as i128) * 4;
    proof {
        vstd::arithmetic::div_mod::lemma_fundamental_div_mod(n as int, 1000);
        vstd::arithmetic::div_mod::lemma_mod_bound(n as int, 1000);
    }
    let r = round_half_even_exec(n, 1000);
    r as i32
}

/// Everything after the two divisions: rounds the seed quotient, refines it,
/// applies the clamp and predicts the net price before the rebate. `None`
/// where the seed, the search or the prediction leaves the 32-bit integers,
/// or the current list price is zero.
pub fn price_from_seed(target: i32, part: &Dec, quotient: &Dec, current_basic: i32) -> (r: Option<
    (i32, i32),
>)
    requires
        part.wf(),
        quotient.wf(),
    ensures
        as_ints(r) == spec_price_from_seed(
            target as int,
            part@,
            quotient@,
            current_basic as int,
        ),
{
    let rounded = quotient.round();
    if rounded < i32::MIN as i128 || rounded > i32::MAX as i128 {
        return None;
    }
    let seed = rounded as i32;
    let refined = match correct(seed, part, target) {
        Some(b) => b,
        None => {
            return None;
        },
    };
    if current_basic == 0 {
        return None;
    }
    let too_low = if current_basic > 0 {
        1000 * (refined as i64) <= 3 * (current_basic as i64)
    } else {
        1000 * (refined as i64) >= 3 * (current_basic as i64)
    };
    let new_price = if too_low {
        clamp_price_exec(current_basic)
    } else {
        refined
    };
    let predicted = part.floor_times(new_price);
    if predicted < i32::MIN as i128 || predicted > i32::MAX as i128 {
        return None;
    }
    Some((predicted as i32, new_price))
}

/// Computes, for a target net price and the net and list price that the
/// marketplace shows now, the new list price and the net price predicted for
/// it before the rebate: `(predicted, new_list)`.
///
/// The discount fraction is the quotient of the two current prices, snapped;
/// the search starts at `target / 0.97 / fraction`, rounded. `None` where a
/// division has no result, the search finds no price, or a number leaves
/// its integer type; also where the prices are those of a discount and the
/// division gives a quotient that is not above zero and at most one.
pub fn count_new_basic(target_price: i32, current_discounted: i32, current_basic: i32) -> (r:
    Option<(i32, i32)>)
    ensures
        as_ints(r) == spec_count_new_basic(
            target_price as int,
            current_discounted as int,
            current_basic as int,
        ),
{
    let raw = match dec_div(Dec::from_i32(current_discounted), Dec::from_i32(current_basic)) {
        Some(q) => q,
        None => {
            return None;
        },
    };
    if 0 < current_discounted && current_discounted <= current_basic && !raw.is_unit_fraction() {
        return None;
    }
    let part = match correct_part(raw) {
        Some(p) => p,
        None => {
            return None;
        },
    };
    let undiscounted = match dec_div(Dec::from_i32(target_price), Dec::new(97, 2)) {
        Some(q) => q,
        None => {
            return None;
        },
    };
    let quotient = match dec_div(undiscounted, part) {
        Some(q) => q,
        None => {
            return None;
        },
    };
    price_from_seed(target_price, &part, &quotient, current_basic)
}

/// A fraction above zero and at most one rounds to between 0 and 1000
/// thousandths, and is still such a fraction after snapping.
pub proof fn lemma_snap_keeps_unit_fraction(start: DecValue)
    requires
        start.is_unit_fraction(),
    ensures
        0 <= thousandths(start) <= 1000,
        snapped(start).is_unit_fraction(),
{
    let p = pow10(start.scale);
    let n = start.mantissa * 1000;
    vstd::arithmetic::div_mod::lemma_fundamental_div_mod(n, p);
    vstd::arithmetic::div_mod::lemma_mod_bound(n, p);
    let q = n / p;
    let r = n % p;
    assert(0 <= q <= 1000 && (q == 1000 ==> r == 0)) by (nonlinear_arith)
        requires
            n == p * q + r,
            0 <= r < p,
            0 < n <= 1000 * p,
    ;
    reveal_with_fuel(pow10, 4);
    assert(pow10(3) == 1000);
}

/// With a fraction that is not negative, a higher list price never gives a
/// lower net price.
pub proof fn lemma_net_monotone(part: DecValue, b1: int, b2: int)
    requires
        0 <= part.mantissa,
        b1 <= b2,
    ensures
        part.floor_times(b1) <= part.floor_times(b2),
        net_of(b1, part) <= net_of(b2, part),
{
    let p = pow10(part.scale);
    lemma_pow10_positive(part.scale);
    assert(b1 * part.mantissa <= b2 * part.mantissa) by (nonlinear_arith)
        requires
            0 <= part.mantissa,
            b1 <= b2,
    ;
    vstd::arithmetic::div_mod::lemma_div_is_ordered(b1 * part.mantissa, b2 * part.mantissa, p);
    vstd::arithmetic::div_mod::lemma_div_is_ordered(
        part.floor_times(b1) * 97,
        part.floor_times(b2) * 97,
        100,
    );
}

/// With a fraction that is not above zero, a higher list price never gives a
/// higher net price.
pub proof fn lemma_net_antitone(part: DecValue, b1: int, b2: int)
    requires
        part.mantissa <= 0,
        b1 <= b2,
    ensures
        net_of(b1, part) >= net_of(b2, part),
{
    let p = pow10(part.scale);
    lemma_pow10_positive(part.scale);
    assert(b1 * part.mantissa >= b2 * part.mantissa) by (nonlinear_arith)
        requires
            part.mantissa <= 0,
            b1 <= b2,
    ;
    vstd::arithmetic::div_mod::lemma_div_is_ordered(b2 * part.mantissa, b1 * part.mantissa, p);
    vstd::arithmetic::div_mod::lemma_div_is_ordered(
        part.floor_times(b2) * 97,
        part.floor_times(b1) * 97,
        100,
    );
}

/// With a fraction between zero and one, one more hundredth of list price
/// gives at most one more unit of net price.
pub proof fn lemma_net_step(part: DecValue, b: int)
    requires
        0 <= part.mantissa <= pow10(part.scale),
    ensures
        part.floor_times(b + 1) <= part.floor_times(b) + 1,
        net_of(b + 1, part) <= net_of(b, part) + 1,
{
    let p = pow10(part.scale);
    let m = part.mantissa;
    lemma_pow10_positive(part.scale);
    assert((b + 1) * m == b * m + m) by (nonlinear_arith);
    vstd::arithmetic::div_mod::lemma_div_is_ordered((b + 1) * m, b * m + p, p);
    lemma_div_plus_divisor(b * m, p);
    let f0 = part.floor_times(b);
    let f1 = part.floor_times(b + 1);
    vstd::arithmetic::div_mod::lemma_div_is_ordered(f1 * 97, f0 * 97 + 100, 100);
    lemma_div_plus_divisor(f0 * 97, 100);
}

/// Adding the divisor to the dividend adds one to the quotient.
pub proof fn lemma_div_plus_divisor(a: int, d: int)
    requires
        d > 0,
    ensures
        (a + d) / d == a / d + 1,
{
    vstd::arithmetic::div_mod::lemma_fundamental_div_mod(a, d);
    vstd::arithmetic::div_mod::lemma_mod_bound(a, d);
    assert(d * (a / d + 1) == d * (a / d) + d) by (nonlinear_arith);
    lemma_div_unique(a + d, d, a / d + 1, a % d);
}

/// A power of ten is at least one.
pub proof fn lemma_pow10_positive(e: nat)
    ensures
        pow10(e) >= 1,
    decreases e,
{
    if e > 0 {
        lemma_pow10_positive((e - 1) as nat);
    }
}

/// With a fraction above zero and at most one, the search ends at a list
/// price that gives exactly the target.
pub proof fn lemma_refinement_hits_target(base: int, part: DecValue, target: int, b: int)
    requires
        part.is_unit_fraction(),
        is_refinement(base, part, target, b),
    ensures
        net_of(b, part) == target,
{
    if net_of(base, part) > target {
        assert(net_of(b + 1, part) > target);
        lemma_net_step(part, b);
    } else if net_of(base, part) < target {
        assert(net_of(b - 1, part) < target);
        lemma_net_step(part, b - 1);
    }
}

/// With a fraction above zero and at most one, the net price of a list price
/// is at most that list price where it is not negative, and is negative
/// where the list price is.
pub proof fn lemma_net_below_list(part: DecValue, b: int)
    requires
        part.is_unit_fraction(),
    ensures
        b >= 0 ==> net_of(b, part) <= b,
        b < 0 ==> net_of(b, part) < 0,
{
    let p = pow10(part.scale);
    let m = part.mantissa;
    let f = part.floor_times(b);
    vstd::arithmetic::div_mod::lemma_fundamental_div_mod(b * m, p);
    vstd::arithmetic::div_mod::lemma_mod_bound(b * m, p);
    let r = (b * m) % p;
    if b >= 0 {
        assert(f <= b) by (nonlinear_arith)
            requires
                b * m == p * f + r,
                0 <= r < p,
                0 < m <= p,
                b >= 0,
        ;
        assert(f >= 0) by (nonlinear_arith)
            requires
                b * m == p * f + r,
                0 <= r < p,
                0 < m <= p,
                b >= 0,
        ;
    } else {
        assert(f < 0) by (nonlinear_arith)
            requires
                b * m == p * f + r,
                0 <= r < p,
                0 < m <= p,
                b < 0,
        ;
    }
}

/// The calculator reaches the target: for the prices of a discount, a net
/// price above zero and at most the list price, whenever the calculator
/// returns a list price, the net price of that list price,
/// `floor(floor(new_list * part) * 0.97)` with `part` the snapped discount
/// fraction, is the target, unless the clamp replaced the price. Where the
/// clamp did and the current list price is above zero, the target over the
/// current list price in whole units is at most 0.3.
pub proof fn law_fixed_point(target: int, current_discounted: int, current_basic: int)
    requires
        is_discount(current_discounted, current_basic),
        spec_count_new_basic(target, current_discounted, current_basic) is Some,
    ensures
        spec_part(current_discounted, current_basic) is Some,
        net_of(
            spec_count_new_basic(target, current_discounted, current_basic).unwrap().1,
            spec_part(current_discounted, current_basic).unwrap(),
        ) == target || clamp_triggered(target, current_discounted, current_basic),
        clamp_triggered(target, current_discounted, current_basic) && current_basic > 0 ==> 1000
            * target <= 3 * current_basic,
{
    let raw = decimal_quotient(int_value(current_discounted), int_value(current_basic)).unwrap();
    lemma_snap_keeps_unit_fraction(raw);
    let part = spec_part(current_discounted, current_basic).unwrap();
    let quotient = spec_seed_quotient(target, part).unwrap();
    let seed = seed_of(quotient).unwrap();
    let b = refined(seed, part, target).unwrap();
    lemma_refinement_hits_target(seed, part, target, b);
    lemma_net_below_list(part, b);
}

/// The calculator is monotone in the target: for the same current prices,
/// those of a discount, a target that is not lower gives a list price that
/// is not lower, where the calculator returns for both and the clamp
/// replaces neither price.
pub proof fn law_monotone(t1: int, t2: int, current_discounted: int, current_basic: int)
    requires
        t1 <= t2,
        is_discount(current_discounted, current_basic),
        spec_count_new_basic(t1, current_discounted, current_basic) is Some,
        spec_count_new_basic(t2, current_discounted, current_basic) is Some,
        !clamp_triggered(t1, current_discounted, current_basic),
        !clamp_triggered(t2, current_discounted, current_basic),
    ensures
        spec_count_new_basic(t1, current_discounted, current_basic).unwrap().1
            <= spec_count_new_basic(t2, current_discounted, current_basic).unwrap().1,
{
    let part = spec_part(current_discounted, current_basic).unwrap();
    let l1 = spec_count_new_basic(t1, current_discounted, current_basic).unwrap().1;
    let l2 = spec_count_new_basic(t2, current_discounted, current_basic).unwrap().1;
    law_fixed_point(t1, current_discounted, current_basic);
    law_fixed_point(t2, current_discounted, current_basic);
    if l2 < l1 {
        lemma_net_monotone(part, l2, l1);
    }
}

} // verus!
