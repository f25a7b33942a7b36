use saimod::statistic::{isqrt, Stats, StatsConfig, StatsError};

fn level() -> StatsConfig {
    // two-sided critical values at the level 0.05 for 1 to 5 degrees of freedom
    StatsConfig { critical_values: vec![12_706_205, 4_302_653, 3_182_446, 2_776_445, 2_570_582] }
}

fn millionths(values: &[u128]) -> Vec<u128> {
    values.iter().map(|v| v * 1_000_000).collect()
}

#[test]
fn stats_of_one_to_five() {
    let stats = Stats::new(&millionths(&[1, 2, 3, 4, 5]), &level()).unwrap();
    assert_eq!(stats.mean, 3_000_000);
    assert_eq!(stats.std_dev, 1_581_138);
    assert_eq!(stats.t_stat, 2_776_445);
    assert_eq!(stats.size, 5);
}

#[test]
fn stats_of_a_single_observation_fail() {
    assert_eq!(Stats::new(&millionths(&[3]), &level()), Err(StatsError::InsufficientSample));
}

#[test]
fn stats_of_no_observation_fail() {
    assert_eq!(Stats::new(&Vec::new(), &level()), Err(StatsError::InsufficientSample));
}

#[test]
fn stats_of_two_observations() {
    let stats = Stats::new(&millionths(&[2, 4]), &level()).unwrap();
    assert_eq!(stats.mean, 3_000_000);
    // variance 2, deviation sqrt(2)
    assert_eq!(stats.std_dev, 1_414_213);
    assert_eq!(stats.t_stat, 12_706_205);
    assert_eq!(stats.size, 2);
}

#[test]
fn stats_of_equal_observations_have_no_deviation() {
    let stats = Stats::new(&millionths(&[7, 7, 7, 7]), &level()).unwrap();
    assert_eq!(stats.mean, 7_000_000);
    assert_eq!(stats.std_dev, 0);
    assert_eq!(stats.t_stat, 3_182_446);
}

#[test]
fn stats_beyond_the_table_take_its_last_entry() {
    let stats = Stats::new(&millionths(&[1, 2, 3, 4, 5, 6, 7, 8]), &level()).unwrap();
    assert_eq!(stats.t_stat, 2_570_582);
    assert_eq!(stats.mean, 4_500_000);
    // variance 6
    assert_eq!(stats.std_dev, 2_449_489);
}

#[test]
fn stats_mean_rounds_down() {
    let stats = Stats::new(&vec![1, 2], &level()).unwrap();
    assert_eq!(stats.mean, 1);
    assert_eq!(stats.std_dev, 0);
}

#[test]
fn stats_refuse_squares_beyond_the_range() {
    assert_eq!(Stats::new(&vec![u128::MAX, 1], &level()), Err(StatsError::Overflow));
    assert_eq!(Stats::new(&vec![1 << 64, 0], &level()), Err(StatsError::Overflow));
    // 2 * (2^63)^2 = 2^127 fits
    assert!(Stats::new(&vec![1 << 63, 0], &level()).is_ok());
    // 2 * 2 * (2^63)^2 = 2^128 does not
    assert_eq!(Stats::new(&vec![1 << 63, 1 << 63], &level()), Err(StatsError::Overflow));
}

#[test]
fn half_width_of_one_to_five() {
    let stats = Stats::new(&millionths(&[1, 2, 3, 4, 5]), &level()).unwrap();
    // 2.776445 * 1.581138 / sqrt(5), with sqrt(5) as 2236067 millionths
    assert_eq!(stats.half_width(), Some(2_776_445 * 1_581_138 / 2_236_067));
    assert_eq!(stats.half_width(), Some(1_963_242));
}

#[test]
fn margin_with_a_fixed_multiplier() {
    let stats = Stats::new(&millionths(&[1, 2, 3, 4, 5]), &level()).unwrap();
    assert_eq!(stats.margin(2_000_000), Some(1_414_213));
    assert_eq!(stats.margin(0), Some(0));
}

#[test]
fn margin_is_undefined_without_observations_or_beyond_the_range() {
    let empty = Stats { mean: 0, std_dev: 5, t_stat: 1, size: 0 };
    assert_eq!(empty.margin(1), None);
    assert_eq!(empty.half_width(), None);
    let wide = Stats { mean: 0, std_dev: u128::MAX, t_stat: 2, size: 4 };
    assert_eq!(wide.margin(2), None);
    assert_eq!(wide.margin(1), Some(u128::MAX / 2_000_000));
    assert_eq!(wide.half_width(), None);
}

#[test]
fn isqrt_rounds_down() {
    assert_eq!(isqrt(0), 0);
    assert_eq!(isqrt(1), 1);
    assert_eq!(isqrt(2), 1);
    assert_eq!(isqrt(3), 1);
    assert_eq!(isqrt(4), 2);
    assert_eq!(isqrt(99), 9);
    assert_eq!(isqrt(100), 10);
    assert_eq!(isqrt(2_500_000_000_000), 1_581_138);
    assert_eq!(isqrt(u128::MAX), u64::MAX as u128);
    assert_eq!(isqrt((u64::MAX as u128) * (u64::MAX as u128)), u64::MAX as u128);
    assert_eq!(isqrt((u64::MAX as u128) * (u64::MAX as u128) - 1), u64::MAX as u128 - 1);
}

#[test]
fn critical_value_is_looked_up_by_degrees_of_freedom() {
    let config = level();
    assert!(config.is_valid());
    assert_eq!(config.critical_value(1), 12_706_205);
    assert_eq!(config.critical_value(5), 2_570_582);
    assert_eq!(config.critical_value(6), 2_570_582);
    assert_eq!(config.critical_value(1000), 2_570_582);
    assert!(!StatsConfig { critical_values: Vec::new() }.is_valid());
}
