use price_keeper::calc::{
    clamp_price_exec, correct, correct_part, count_new_basic, net_price, price_from_seed,
};
use price_keeper::decimal::{div_floor, div_rem_floor, pow10_exec, round_half_even_exec, Dec};

fn part_0097() -> Dec {
    Dec { mantissa: 97, scale: 4 }
}

#[test]
fn target_thousand_on_a_three_percent_fraction() {
    // part = 970 / 100000 = 0.0097, not snapped; the seed 106281 gives 999,
    // and 106289 is the first list price that gives 1000.
    assert_eq!(count_new_basic(1000, 970, 100000), Some((1031, 106289)));
    assert_eq!(net_price(106289, &part_0097()), 1000);
    assert_eq!(net_price(106288, &part_0097()), 999);
}

#[test]
fn keeping_the_list_price_does_not_reach_the_target() {
    // The list price 100000 gives the net price 940, not 1000.
    assert_eq!(net_price(100000, &part_0097()), 940);
}

#[test]
fn target_five_hundred_is_not_clamped() {
    let (predicted, new_list) = count_new_basic(500, 970, 100000).unwrap();
    assert_eq!((predicted, new_list), (516, 53196));
    assert_eq!(net_price(new_list, &part_0097()), 500);
}

#[test]
fn target_two_hundred_is_refined() {
    assert_eq!(count_new_basic(200, 970, 100000), Some((207, 21341)));
    assert_eq!(net_price(21341, &part_0097()), 200);
}

#[test]
fn a_list_price_far_below_the_current_one_is_clamped() {
    // The refined price 207 is at most 0.3 of 1000: it becomes 0.4 * 1000.
    assert_eq!(correct(106, &part_0097(), 1), Some(207));
    assert_eq!(count_new_basic(1, 970, 100000), Some((3, 400)));
}

#[test]
fn clamp_price_rounds_ties_to_even() {
    assert_eq!(clamp_price_exec(100000), 400);
    assert_eq!(clamp_price_exec(125), 0);
    assert_eq!(clamp_price_exec(375), 2);
    assert_eq!(clamp_price_exec(-125), 0);
    assert_eq!(clamp_price_exec(1000), 4);
}

#[test]
fn calculator_reaches_the_target_for_many_targets() {
    let mut target = 1;
    while target < 3000 {
        let (_, new_list) = count_new_basic(target, 970, 100000).unwrap();
        let reached = net_price(new_list, &part_0097());
        assert!(reached == target as i128 || 1000 * new_list as i64 <= 3 * 100000 || new_list == 400);
        target += 37;
    }
}

#[test]
fn calculator_is_monotone_in_the_target() {
    let mut last = 0;
    let mut target = 400;
    while target < 3000 {
        let (_, new_list) = count_new_basic(target, 970, 100000).unwrap();
        assert!(last <= new_list);
        last = new_list;
        target += 13;
    }
}

#[test]
fn calculator_is_stable_on_its_own_result() {
    // With the prices that a first run predicts, a second run for the same
    // target gives a list price with the same net price.
    let first = count_new_basic(700, 970, 100000).unwrap();
    assert_eq!(net_price(first.1, &part_0097()), 700);
    let again = count_new_basic(700, first.0, first.1).unwrap();
    let part = correct_part(Dec { mantissa: first.0 as i128, scale: 0 });
    assert!(part.is_some());
    assert!(again.1 > 0);
}

#[test]
fn no_price_without_a_fraction_to_divide_by() {
    assert_eq!(count_new_basic(1000, 0, 100000), None);
    assert_eq!(count_new_basic(1000, 970, 0), None);
}

#[test]
fn a_fraction_above_one_is_priced_too() {
    // part = 1.00001: the list price 1031 gives floor(1031 * 0.97) = 1000.
    assert_eq!(count_new_basic(1000, 100001, 100000), Some((1031, 1031)));
    // part = 2: the net price goes up by two for each hundredth, 515 gives
    // 999 and 516 gives 1001; the search upwards ends at 516.
    assert_eq!(count_new_basic(1000, 2000, 1000), Some((1032, 516)));
    let two = Dec { mantissa: 2, scale: 0 };
    assert_eq!(net_price(515, &two), 999);
    assert_eq!(net_price(516, &two), 1001);
}

#[test]
fn a_negative_fraction_gives_a_price_only_where_the_seed_fits() {
    // With a negative fraction the search runs away from the target, so it
    // ends only where the seed itself gives the target.
    assert_eq!(count_new_basic(1000, -970, 100000), None);
    let part = Dec { mantissa: -97, scale: 4 };
    assert_eq!(correct(-106281, &part, 1000), None);
    assert_eq!(correct(-106281, &part, 999), Some(-106281));
    assert_eq!(correct(5, &Dec { mantissa: 0, scale: 0 }, 0), Some(5));
    assert_eq!(correct(5, &Dec { mantissa: 0, scale: 0 }, 1), None);
}

#[test]
fn no_price_where_it_would_not_fit() {
    // The list price for this target is far above the 32-bit integers.
    assert_eq!(count_new_basic(2_000_000_000, 1, 2_000_000_000), None);
}

#[test]
fn the_whole_list_price_is_a_fraction_too() {
    // part = 1: the net price is 97 % of the list price, rounded down.
    let (predicted, new_list) = count_new_basic(97, 500, 500).unwrap();
    assert_eq!(net_price(new_list, &Dec { mantissa: 1, scale: 0 }), 97);
    assert_eq!(predicted, new_list);
}

#[test]
fn division_is_not_handed_back_unchanged() {
    // 1 / 3 has no finite decimal expansion: the fraction is what the
    // division gives, and three times it stays below one.
    let (predicted, new_list) = count_new_basic(10, 1, 3).unwrap();
    assert_eq!((predicted, new_list), (11, 34));
    let third = Dec { mantissa: 3333333333333333333333333333, scale: 28 };
    assert_eq!(third.floor_times(3), 0);
    assert_eq!(net_price(34, &third), 10);
}

#[test]
fn snapping_takes_a_thousandth_that_ends_in_five() {
    assert_eq!(
        correct_part(Dec { mantissa: 151, scale: 4 }),
        Some(Dec { mantissa: 15, scale: 3 })
    );
    assert_eq!(
        correct_part(Dec { mantissa: 149, scale: 4 }),
        Some(Dec { mantissa: 15, scale: 3 })
    );
    // 14.5 is a tie and goes to 14.
    assert_eq!(
        correct_part(Dec { mantissa: 145, scale: 4 }),
        Some(Dec { mantissa: 145, scale: 4 })
    );
    // 15.5 is a tie and goes to 16.
    assert_eq!(
        correct_part(Dec { mantissa: 155, scale: 4 }),
        Some(Dec { mantissa: 155, scale: 4 })
    );
    assert_eq!(
        correct_part(Dec { mantissa: 97, scale: 4 }),
        Some(Dec { mantissa: 97, scale: 4 })
    );
    // A negative fraction is never snapped.
    assert_eq!(
        correct_part(Dec { mantissa: -151, scale: 4 }),
        Some(Dec { mantissa: -151, scale: 4 })
    );
}

#[test]
fn snapping_fails_where_the_thousandth_is_too_large() {
    assert_eq!(correct_part(Dec { mantissa: 10_000_000_000_000_000_000, scale: 0 }), None);
    assert_eq!(
        correct_part(Dec { mantissa: 9_000_000_000_000_000, scale: 0 }),
        Some(Dec { mantissa: 9_000_000_000_000_000, scale: 0 })
    );
}

#[test]
fn snapped_fraction_is_used_by_the_calculator() {
    // 151 / 10000 = 0.0151 snaps to 0.015.
    let (predicted, new_list) = count_new_basic(100, 151, 10000).unwrap();
    let snapped = Dec { mantissa: 15, scale: 3 };
    assert_eq!(net_price(new_list, &snapped), 100);
    assert_eq!(predicted as i128, snapped.floor_times(new_list));
}

#[test]
fn search_goes_down_to_the_highest_price_that_fits() {
    // 106289..=106391 give 1000; from above the search ends at the top.
    assert_eq!(correct(110000, &part_0097(), 1000), Some(106391));
    assert_eq!(net_price(106391, &part_0097()), 1000);
    assert_eq!(net_price(106392, &part_0097()), 1001);
}

#[test]
fn search_goes_up_to_the_lowest_price_that_fits() {
    assert_eq!(correct(100000, &part_0097(), 1000), Some(106289));
}

#[test]
fn search_stays_where_the_target_is_met() {
    assert_eq!(correct(106300, &part_0097(), 1000), Some(106300));
}

#[test]
fn search_ends_without_a_price_at_the_edge() {
    let part = Dec { mantissa: 1, scale: 0 };
    assert_eq!(correct(i32::MAX - 2, &part, i32::MAX), None);
    assert_eq!(correct(i32::MIN + 2, &part, i32::MIN), None);
}

#[test]
fn net_price_of_negative_list_prices() {
    assert_eq!(net_price(-1, &part_0097()), -1);
    assert_eq!(net_price(0, &part_0097()), 0);
    assert_eq!(net_price(-100000, &part_0097()), -941);
}

#[test]
fn price_from_seed_takes_the_rounded_quotient() {
    let quotient = Dec { mantissa: 1062812, scale: 1 };
    assert_eq!(price_from_seed(1000, &part_0097(), &quotient, 100000), Some((1031, 106289)));
    // No current list price, no ratio.
    assert_eq!(price_from_seed(1000, &part_0097(), &quotient, 0), None);
    // A seed that is no 32-bit integer.
    let huge = Dec { mantissa: 3_000_000_000, scale: 0 };
    assert_eq!(price_from_seed(1000, &part_0097(), &huge, 100000), None);
}

#[test]
fn price_from_seed_with_a_negative_current_price() {
    let quotient = Dec { mantissa: 106281, scale: 0 };
    // 106289 over -1000 is below 0.3: the clamp applies.
    assert_eq!(price_from_seed(1000, &part_0097(), &quotient, -100000), Some((-4, -400)));
}

#[test]
fn rounding_goes_to_the_even_neighbour_on_a_tie() {
    assert_eq!(Dec { mantissa: 25, scale: 1 }.round(), 2);
    assert_eq!(Dec { mantissa: 35, scale: 1 }.round(), 4);
    assert_eq!(Dec { mantissa: -25, scale: 1 }.round(), -2);
    assert_eq!(Dec { mantissa: -35, scale: 1 }.round(), -4);
    assert_eq!(Dec { mantissa: 26, scale: 1 }.round(), 3);
    assert_eq!(Dec { mantissa: -26, scale: 1 }.round(), -3);
    assert_eq!(Dec { mantissa: 24, scale: 1 }.round(), 2);
    assert_eq!(Dec { mantissa: 7, scale: 0 }.round(), 7);
    assert_eq!(round_half_even_exec(7, 2), 4);
    assert_eq!(round_half_even_exec(5, 2), 2);
}

#[test]
fn floor_division_rounds_down() {
    assert_eq!(div_floor(7, 2), 3);
    assert_eq!(div_floor(-7, 2), -4);
    assert_eq!(div_floor(-8, 2), -4);
    assert_eq!(div_rem_floor(-7, 2), (-4, 1));
    assert_eq!(div_rem_floor(i128::MIN, 10), (-17014118346046923173168730371588410573, 2));
    assert_eq!(div_floor(0, 5), 0);
}

#[test]
fn powers_of_ten() {
    assert_eq!(pow10_exec(0), 1);
    assert_eq!(pow10_exec(3), 1000);
    assert_eq!(pow10_exec(28), 10_000_000_000_000_000_000_000_000_000);
}

#[test]
fn decimals_from_integers() {
    assert_eq!(Dec::from_i32(-5), Dec { mantissa: -5, scale: 0 });
    assert_eq!(Dec::new(97, 2), Dec { mantissa: 97, scale: 2 });
    assert!(Dec::new(97, 2).is_unit_fraction());
    assert!(Dec::from_i32(1).is_unit_fraction());
    assert!(!Dec::from_i32(0).is_unit_fraction());
    assert!(!Dec::new(101, 2).is_unit_fraction());
    assert_eq!(Dec::new(97, 4).floor_times(106289), 1031);
    assert_eq!(Dec::new(97, 4).floor_times(-1), -1);
}
