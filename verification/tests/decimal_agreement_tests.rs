use price_keeper::calc::{count_new_basic, net_price};
use price_keeper::decimal::Dec;
use rust_decimal::prelude::ToPrimitive;
use rust_decimal::Decimal;

fn dec(mantissa: i64, scale: u32) -> Decimal {
    Decimal::new(mantissa, scale)
}

fn net_with_decimals(b: i32, part: Decimal) -> Option<i32> {
    let discounted = Decimal::from(b).checked_mul(part)?.floor();
    discounted.checked_mul(dec(97, 2))?.floor().to_i32()
}

/// The calculation carried out in `Decimal` arithmetic from end to end.
fn with_decimals(target: i32, current_discounted: i32, current_basic: i32) -> Option<(i32, i32)> {
    let raw = Decimal::from(current_discounted).checked_div(Decimal::from(current_basic))?;
    let rounded = raw.checked_mul(dec(1000, 0))?.round();
    let part = if rounded.to_i64()? % 10 == 5 { rounded.checked_div(dec(1000, 0))? } else { raw };
    let undiscounted = Decimal::from(target).checked_div(dec(97, 2))?;
    let mut b = undiscounted.checked_div(part)?.round().to_i32()?;
    let first = net_with_decimals(b, part)?;
    if first > target {
        loop {
            b = b.checked_sub(1)?;
            if net_with_decimals(b, part)? <= target {
                break;
            }
        }
    } else if first < target {
        loop {
            b = b.checked_add(1)?;
            if net_with_decimals(b, part)? >= target {
                break;
            }
        }
    }
    let rub = Decimal::from(current_basic).checked_div(dec(100, 0))?;
    if Decimal::from(b).checked_div(rub)? <= dec(3, 1) {
        b = rub.checked_mul(dec(4, 1))?.round().to_i32()?;
    }
    let predicted = Decimal::from(b).checked_mul(part)?.floor().to_i32()?;
    Some((predicted, b))
}

#[test]
fn agrees_with_decimal_arithmetic_where_its_products_are_exact() {
    let mut compared = 0;
    for current_basic in [100, 999, 1000, 12345, 100000, 250000, 5000000] {
        for percent in [1, 3, 15, 50, 70, 97, 100] {
            let current_discounted = (current_basic as i64 * percent / 100) as i32;
            if current_discounted == 0 {
                continue;
            }
            for target in [1, 2, 7, 99, 100, 500, 1000, 4321, 99999] {
                let ours = count_new_basic(target, current_discounted, current_basic);
                let theirs = with_decimals(target, current_discounted, current_basic);
                assert_eq!(ours, theirs, "{} {} {}", target, current_discounted, current_basic);
                compared += 1;
            }
        }
    }
    assert!(compared > 300);
}

#[test]
fn arithmetic_on_the_fraction_is_exact() {
    // 2 / 7 has no finite expansion: the fraction is its first 28 digits,
    // and 350 times that fraction stays below 100. A product rounded to 28
    // digits would be 100.
    let part = Dec { mantissa: 2857142857142857142857142857, scale: 28 };
    assert_eq!(part.floor_times(350), 99);
    assert_eq!(part.floor_times(351), 100);
    assert_eq!(net_price(350, &part), 96);
    assert_eq!(net_price(351, &part), 97);
    assert_eq!(count_new_basic(97, 2, 7), Some((100, 351)));
    let rounded = Decimal::from(350).checked_mul(Decimal::from(2) / Decimal::from(7)).unwrap();
    assert_eq!(rounded, Decimal::from(100));
}

#[test]
fn agrees_with_decimal_arithmetic_on_snapped_fractions() {
    // Each of these fractions ends after a few digits; some of them snap to
    // a thousandth that ends in 5.
    let pairs = [(15, 1000), (153, 10000), (1049, 10000), (25, 1000), (9951, 100000), (1, 8)];
    for (current_discounted, current_basic) in pairs {
        for target in [1, 5, 50, 333, 1000, 20000] {
            let ours = count_new_basic(target, current_discounted, current_basic);
            let theirs = with_decimals(target, current_discounted, current_basic);
            assert!(ours.is_some());
            assert_eq!(ours, theirs, "{} {} {}", target, current_discounted, current_basic);
        }
    }
}
