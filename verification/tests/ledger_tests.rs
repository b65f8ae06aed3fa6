use staking::ledger::{Staking, StakingError, TransferOutcome};

// 10% per year at the fixed-point scale of 10^8.
const TEN_PERCENT: u128 = 10_000_000;
// Seconds in one Julian year.
const ONE_YEAR: u64 = 31_557_600;

fn token() -> String {
    String::from("token.test")
}

fn ledger() -> Staking {
    Staking::new(TEN_PERCENT, token())
}

fn deposit(ledger: &mut Staking, account: &str, amount: u128, now: u64) {
    let unused = ledger
        .ft_on_transfer(&token(), String::from(account), amount, &String::from("stake"), now)
        .unwrap();
    assert_eq!(unused, 0);
}

#[test]
fn missing_account_queries_as_zero() {
    let ledger = ledger();
    assert_eq!(ledger.staking_amount_of(&String::from("nobody")), 0);
    assert_eq!(ledger.staking_interests_of(&String::from("nobody"), 1000), 0);
}

#[test]
fn deposit_from_wrong_caller_is_rejected() {
    let mut ledger = ledger();
    let r = ledger.ft_on_transfer(
        &String::from("mallory.test"),
        String::from("alice"),
        1000,
        &String::from("stake"),
        10,
    );
    assert_eq!(r, Err(StakingError::WrongToken));
    assert_eq!(ledger.staking_amount_of(&String::from("alice")), 0);
}

#[test]
fn deposit_with_wrong_tag_is_rejected() {
    let mut ledger = ledger();
    let r = ledger.ft_on_transfer(
        &token(),
        String::from("alice"),
        1000,
        &String::from("lend"),
        10,
    );
    assert_eq!(r, Err(StakingError::WrongMessage));
    assert_eq!(ledger.staking_amount_of(&String::from("alice")), 0);
}

#[test]
fn deposit_is_staked_immediately() {
    let mut ledger = ledger();
    deposit(&mut ledger, "alice", 1000, 10);
    assert_eq!(ledger.staking_amount_of(&String::from("alice")), 1000);
    deposit(&mut ledger, "alice", 500, 10);
    assert_eq!(ledger.staking_amount_of(&String::from("alice")), 1500);
}

#[test]
fn withdraw_stake_roundtrip() {
    let mut ledger = ledger();
    deposit(&mut ledger, "alice", 1000, 10);
    assert_eq!(ledger.staking_amount_of(&String::from("alice")), 1000);

    let req = ledger.staking_withdraw_stake(String::from("alice"), 400).unwrap();
    assert_eq!(req.receiver_id, String::from("alice"));
    assert_eq!(req.amount, 400);
    // Nothing is decremented while the confirmation is outstanding.
    assert_eq!(ledger.staking_amount_of(&String::from("alice")), 1000);

    let r = ledger.callback_withdraw_stake(
        &String::from("alice"),
        400,
        TransferOutcome::Successful,
        10,
    );
    assert_eq!(r, Ok(()));
    assert_eq!(ledger.staking_amount_of(&String::from("alice")), 600);
}

#[test]
fn failed_transfer_leaves_stake_untouched() {
    let mut ledger = ledger();
    deposit(&mut ledger, "alice", 1000, 10);
    ledger.staking_withdraw_stake(String::from("alice"), 400).unwrap();
    let r = ledger.callback_withdraw_stake(
        &String::from("alice"),
        400,
        TransferOutcome::Failed,
        10,
    );
    assert_eq!(r, Err(StakingError::TransferFailed));
    assert_eq!(ledger.staking_amount_of(&String::from("alice")), 1000);
}

#[test]
fn withdraw_more_than_staked_is_rejected() {
    let mut ledger = ledger();
    deposit(&mut ledger, "alice", 1000, 10);
    let r = ledger.staking_withdraw_stake(String::from("alice"), 1001);
    assert!(matches!(r, Err(StakingError::InsufficientStake)));
    assert_eq!(ledger.staking_amount_of(&String::from("alice")), 1000);
}

#[test]
fn resolving_without_a_request_is_rejected() {
    let mut ledger = ledger();
    deposit(&mut ledger, "alice", 1000, 10);
    let r = ledger.callback_withdraw_stake(
        &String::from("alice"),
        400,
        TransferOutcome::Successful,
        10,
    );
    assert_eq!(r, Err(StakingError::UnknownRequest));
    assert_eq!(ledger.staking_amount_of(&String::from("alice")), 1000);
}

#[test]
fn resolving_the_same_request_twice_is_rejected() {
    let mut ledger = ledger();
    deposit(&mut ledger, "alice", 1000, 10);
    ledger.staking_withdraw_stake(String::from("alice"), 400).unwrap();
    let first = ledger.callback_withdraw_stake(
        &String::from("alice"),
        400,
        TransferOutcome::Successful,
        10,
    );
    assert_eq!(first, Ok(()));
    let second = ledger.callback_withdraw_stake(
        &String::from("alice"),
        400,
        TransferOutcome::Successful,
        10,
    );
    assert_eq!(second, Err(StakingError::UnknownRequest));
    assert_eq!(ledger.staking_amount_of(&String::from("alice")), 600);
}

#[test]
fn overlapping_withdrawals_both_validate_but_only_one_resolves() {
    // The principal is checked but not reserved at request time, so two
    // requests for the whole balance both pass validation. The second
    // resolution then fails checked instead of underflowing.
    let mut ledger = ledger();
    deposit(&mut ledger, "alice", 1000, 10);
    assert!(ledger.staking_withdraw_stake(String::from("alice"), 1000).is_ok());
    assert!(ledger.staking_withdraw_stake(String::from("alice"), 1000).is_ok());

    let first = ledger.callback_withdraw_stake(
        &String::from("alice"),
        1000,
        TransferOutcome::Successful,
        10,
    );
    assert_eq!(first, Ok(()));
    assert_eq!(ledger.staking_amount_of(&String::from("alice")), 0);

    let second = ledger.callback_withdraw_stake(
        &String::from("alice"),
        1000,
        TransferOutcome::Successful,
        10,
    );
    assert_eq!(second, Err(StakingError::InsufficientStake));
    assert_eq!(ledger.staking_amount_of(&String::from("alice")), 0);
}

#[test]
fn not_ready_resolution_changes_nothing() {
    let mut ledger = ledger();
    deposit(&mut ledger, "alice", 1000, 10);
    ledger.staking_withdraw_stake(String::from("alice"), 400).unwrap();
    let r = ledger.callback_withdraw_stake(
        &String::from("alice"),
        400,
        TransferOutcome::NotReady,
        10,
    );
    assert_eq!(r, Err(StakingError::TransferNotReady));
    assert_eq!(ledger.staking_amount_of(&String::from("alice")), 1000);
    // The request stays registered, so the real outcome can still resolve it.
    let settled = ledger.callback_withdraw_stake(
        &String::from("alice"),
        400,
        TransferOutcome::Successful,
        10,
    );
    assert_eq!(settled, Ok(()));
    assert_eq!(ledger.staking_amount_of(&String::from("alice")), 600);
}

#[test]
fn resolving_for_an_account_without_record_is_rejected() {
    let mut ledger = ledger();
    // A zero-amount request passes the balance check without any record.
    assert!(ledger.staking_withdraw_stake(String::from("ghost"), 0).is_ok());
    let r = ledger.callback_withdraw_stake(
        &String::from("ghost"),
        0,
        TransferOutcome::Successful,
        10,
    );
    assert_eq!(r, Err(StakingError::MissingRecord));
}

#[test]
fn withdrawing_no_interest_is_rejected() {
    let mut ledger = ledger();
    let r = ledger.staking_withdraw_interests(String::from("nobody"), 10);
    assert_eq!(r.err(), Some(StakingError::NothingToWithdraw));
    deposit(&mut ledger, "alice", 1000, 10);
    // No time elapsed: nothing has accrued yet.
    let r = ledger.staking_withdraw_interests(String::from("alice"), 10);
    assert_eq!(r.err(), Some(StakingError::NothingToWithdraw));
}

#[test]
fn interest_withdrawal_roundtrip() {
    let mut ledger = ledger();
    deposit(&mut ledger, "alice", 1_000_000, 0);
    let now = ONE_YEAR;
    assert_eq!(ledger.staking_interests_of(&String::from("alice"), now), 100_000);

    let req = ledger.staking_withdraw_interests(String::from("alice"), now).unwrap();
    assert_eq!(req.receiver_id, String::from("alice"));
    assert_eq!(req.amount, 100_000);
    // Still claimable while the confirmation is outstanding.
    assert_eq!(ledger.staking_interests_of(&String::from("alice"), now), 100_000);

    let r = ledger.callback_withdraw_interests(
        &String::from("alice"),
        TransferOutcome::Successful,
        now,
    );
    assert_eq!(r, Ok(()));
    assert_eq!(ledger.staking_interests_of(&String::from("alice"), now), 0);
    assert_eq!(ledger.staking_amount_of(&String::from("alice")), 1_000_000);
}

#[test]
fn failed_interest_transfer_keeps_interest_claimable() {
    let mut ledger = ledger();
    deposit(&mut ledger, "alice", 1_000_000, 0);
    let now = ONE_YEAR;
    ledger.staking_withdraw_interests(String::from("alice"), now).unwrap();
    let r = ledger.callback_withdraw_interests(
        &String::from("alice"),
        TransferOutcome::Failed,
        now,
    );
    assert_eq!(r, Err(StakingError::TransferFailed));
    assert_eq!(ledger.staking_interests_of(&String::from("alice"), now), 100_000);
}

#[test]
fn operations_on_one_account_leave_others_alone() {
    let mut ledger = ledger();
    deposit(&mut ledger, "alice", 1000, 10);
    deposit(&mut ledger, "bob", 2000, 10);
    ledger.staking_withdraw_stake(String::from("alice"), 400).unwrap();
    ledger
        .callback_withdraw_stake(&String::from("alice"), 400, TransferOutcome::Successful, 10)
        .unwrap();
    assert_eq!(ledger.staking_amount_of(&String::from("alice")), 600);
    assert_eq!(ledger.staking_amount_of(&String::from("bob")), 2000);
}
