use staking::record::UserStake;

// 10% per year at the fixed-point scale of 10^8.
const TEN_PERCENT: u128 = 10_000_000;
// Seconds in one Julian year.
const ONE_YEAR: u64 = 31_557_600;

#[test]
fn new_record_holds_amount_and_no_interest() {
    let rec = UserStake::new(5, 100);
    assert_eq!(rec.amount, 5);
    assert_eq!(rec.interests_before, 0);
    assert_eq!(rec.date, 100);
}

#[test]
fn one_year_at_ten_percent_is_exact() {
    let rec = UserStake::new(1_000_000, 0);
    let interests = rec.calc_interests(TEN_PERCENT, ONE_YEAR);
    assert_eq!(interests, 100_000);
}

#[test]
fn zero_elapsed_time_contributes_nothing() {
    let mut rec = UserStake::new(1_000_000, 500);
    rec.interests_before = 77;
    assert_eq!(rec.calc_interests(TEN_PERCENT, 500), 77);
}

#[test]
fn fractional_interest_is_floored_to_zero() {
    // 10% of one unit over a year is below one whole unit: floored away.
    let rec = UserStake::new(1, 0);
    assert_eq!(rec.calc_interests(TEN_PERCENT, ONE_YEAR), 0);
}

#[test]
fn interest_is_monotonic_in_time() {
    let rec = UserStake::new(123_456_789, 1000);
    let early = rec.calc_interests(TEN_PERCENT, 1000 + ONE_YEAR / 3);
    let late = rec.calc_interests(TEN_PERCENT, 1000 + ONE_YEAR);
    assert!(early <= late);
}

#[test]
fn stake_then_unstake_at_same_timestamp_restores_record() {
    let mut rec = UserStake::new(100, 50);
    rec.stake(40, TEN_PERCENT, 50);
    rec.unstake(40, TEN_PERCENT, 50);
    assert_eq!(rec.amount, 100);
    assert_eq!(rec.interests_before, 0);
    assert_eq!(rec.date, 50);
}

#[test]
fn snapshot_locks_accrued_interest_in() {
    let mut rec = UserStake::new(1_000_000, 0);
    rec.stock_interests_before(TEN_PERCENT, ONE_YEAR);
    assert_eq!(rec.interests_before, 100_000);
    assert_eq!(rec.date, ONE_YEAR);
    assert_eq!(rec.amount, 1_000_000);
    // The locked-in part is counted exactly once.
    assert_eq!(rec.calc_interests(TEN_PERCENT, ONE_YEAR), 100_000);
}

#[test]
fn stake_preserves_interest_accrued_under_old_principal() {
    let mut rec = UserStake::new(1_000_000, 0);
    rec.stake(9_000_000, TEN_PERCENT, ONE_YEAR);
    assert_eq!(rec.amount, 10_000_000);
    // One year at 10% on the old principal, locked in before the increase.
    assert_eq!(rec.interests_before, 100_000);
    // A second year accrues on the new principal on top of the locked part.
    assert_eq!(rec.calc_interests(TEN_PERCENT, 2 * ONE_YEAR), 100_000 + 1_000_000);
}

#[test]
fn reset_clears_interest_and_advances_date() {
    let mut rec = UserStake::new(1_000_000, 0);
    rec.stock_interests_before(TEN_PERCENT, ONE_YEAR);
    rec.reset_interests(2 * ONE_YEAR);
    assert_eq!(rec.interests_before, 0);
    assert_eq!(rec.date, 2 * ONE_YEAR);
    assert_eq!(rec.amount, 1_000_000);
}
