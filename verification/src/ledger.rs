//! The ledger and its two-phase withdrawal protocol.
//!
//! The ledger maps each account to one accrual record and carries the pending
//! confirmations of the withdrawals whose external transfer is still in
//! flight. A withdrawal mutates nothing when it is requested: the request only
//! validates, registers a pending confirmation and hands the caller the
//! transfer to perform. Only the later resolution, carrying the asset
//! service's outcome, applies the suspended mutation (on success) or discards
//! it (on failure), so a transfer that fails or never completes leaves every
//! balance exactly as it was.

use crate::record::UserStake;
use vstd::prelude::*;
use vstd::string::StringExecFns;

verus! {

/// Outcome that the external asset-transfer service reports for one transfer.
#[derive(Clone, Copy, Debug, PartialEq, Eq, Structural)]
pub enum TransferOutcome {
    /// The transfer has not completed yet; resolving on it is a protocol bug.
    NotReady,
    /// The transfer failed; the suspended mutation must be discarded.
    Failed,
    /// The transfer succeeded; the suspended mutation must be applied.
    Successful,
}

/// Which suspended mutation a pending confirmation stands for.
#[derive(Clone, Copy, Debug, PartialEq, Eq, Structural)]
pub enum WithdrawKind {
    /// A withdrawal of staked principal.
    Stake,
    /// A withdrawal of accrued interest.
    Interests,
}

/// A registered, not-yet-resolved withdrawal: the correlation between a
/// request and the external outcome that will eventually resolve it.
pub struct PendingWithdrawal {
    /// Which mutation is suspended.
    pub kind: WithdrawKind,
    /// The account the withdrawal pays out to.
    pub account_id: String,
    /// The amount the external service was asked to transfer.
    pub amount: u128,
}

/// The one outbound call the ledger makes: ask the asset service to move
/// `amount` out of ledger custody to `receiver_id`.
pub struct TransferRequest {
    /// The account the asset service should pay.
    pub receiver_id: String,
    /// The amount to move.
    pub amount: u128,
}

/// Everything a ledger operation can reject or report.
#[derive(Clone, Copy, Debug, PartialEq, Eq, Structural)]
pub enum StakingError {
    /// A deposit notification came from some caller other than the configured
    /// token contract.
    WrongToken,
    /// A deposit notification carried a tag other than `"stake"`.
    WrongMessage,
    /// A withdrawal asked for more than the account's principal.
    InsufficientStake,
    /// An interest withdrawal found nothing claimable.
    NothingToWithdraw,
    /// A resolution arrived with no matching pending confirmation; it is
    /// either a duplicate of an already-resolved one or was never requested.
    UnknownRequest,
    /// A resolution names an account that has no record.
    MissingRecord,
    /// The asset service reported the transfer failed; the ledger is
    /// unchanged and the user may request again.
    TransferFailed,
    /// A resolver was invoked before the transfer completed: a protocol
    /// violation by the surrounding scheduler. The ledger is untouched.
    TransferNotReady,
}

/// Does pending entry `p` correlate with a stake withdrawal of `amount` to
/// `account`?
pub open spec fn spec_matches_stake(p: PendingWithdrawal, account: Seq<char>, amount: u128) -> bool {
    p.kind == WithdrawKind::Stake && p.account_id@ == account && p.amount == amount
}

/// Does pending entry `p` correlate with an interest withdrawal to `account`?
pub open spec fn spec_matches_interests(p: PendingWithdrawal, account: Seq<char>) -> bool {
    p.kind == WithdrawKind::Interests && p.account_id@ == account
}

/// The ledger: one accrual record per account, the global interest rate, the
/// identity of the asset-transfer collaborator, and the registry of pending
/// withdrawal confirmations.
pub struct Staking {
    /// Account records; keys are unique (`wf`), order carries no meaning.
    pub stakes: Vec<(String, UserStake)>,
    /// Fixed-point yearly interest rate, scale 10^8; immutable after `new`.
    pub interest_rate: u128,
    /// Account of the external token contract; immutable after `new`.
    pub token_account_id: String,
    /// Withdrawals whose external transfer has not been resolved yet.
    pub pending: Vec<PendingWithdrawal>,
}

impl Staking {
    /// Well-formedness: no account has two records.
    pub open spec fn wf(self) -> bool {
        forall|i: int, j: int|
            0 <= i < j < self.stakes@.len() ==> self.stakes@[i].0@ != self.stakes@[j].0@
    }

    /// Does a record exist for `account`?
    pub open spec fn spec_has_account(self, account: Seq<char>) -> bool {
        exists|i: int| 0 <= i < self.stakes@.len() && self.stakes@[i].0@ == account
    }

    /// Index of the record for `account`, where one exists.
    pub open spec fn spec_account_index(self, account: Seq<char>) -> int {
        choose|i: int| 0 <= i < self.stakes@.len() && self.stakes@[i].0@ == account
    }

    /// The record for `account`, where one exists.
    pub open spec fn spec_record_of(self, account: Seq<char>) -> UserStake {
        self.stakes@[self.spec_account_index(account)].1
    }

    /// The queryable principal: absence of a record means zero stake, not an
    /// error.
    pub open spec fn spec_stake_of(self, account: Seq<char>) -> u128 {
        if self.spec_has_account(account) {
            self.spec_record_of(account).amount
        } else {
            0
        }
    }

    /// The queryable interest at `now`: zero where no record exists.
    pub open spec fn spec_interests_of(self, account: Seq<char>, now: u64) -> int {
        if self.spec_has_account(account) {
            self.spec_record_of(account).spec_interests(self.interest_rate, now)
        } else {
            0
        }
    }

    /// `now` is not behind the account's last snapshot.
    pub open spec fn spec_time_ok(self, account: Seq<char>, now: u64) -> bool {
        self.spec_has_account(account) ==> self.spec_record_of(account).date <= now
    }

    /// The account's accrual can be computed at `now` without overflow.
    pub open spec fn record_ready(self, account: Seq<char>, now: u64) -> bool {
        self.spec_has_account(account) ==> {
            let rec = self.spec_record_of(account);
            rec.date <= now && rec.interests_fit(self.interest_rate, now)
        }
    }

    /// There is a pending stake withdrawal of `amount` to `account`.
    pub open spec fn spec_has_stake_pending(self, account: Seq<char>, amount: u128) -> bool {
        exists|i: int|
            0 <= i < self.pending@.len() && spec_matches_stake(self.pending@[i], account, amount)
    }

    /// There is a pending interest withdrawal to `account`.
    pub open spec fn spec_has_interests_pending(self, account: Seq<char>) -> bool {
        exists|i: int|
            0 <= i < self.pending@.len() && spec_matches_interests(self.pending@[i], account)
    }

    /// Any index that holds `account`'s record is the index the spec-level
    /// accessors denote: with unique keys they are all the same index.
    pub proof fn lemma_record_at_index(self, account: Seq<char>, i: int)
        requires
            self.wf(),
            0 <= i < self.stakes@.len(),
            self.stakes@[i].0@ == account,
        ensures
            self.spec_has_account(account),
            self.spec_account_index(account) == i,
            self.spec_record_of(account) == self.stakes@[i].1,
    {
        assert(self.spec_has_account(account));
        let j = self.spec_account_index(account);
        assert(0 <= j < self.stakes@.len() && self.stakes@[j].0@ == account);
        if i < j {
            assert(self.stakes@[i].0@ != self.stakes@[j].0@);
        } else if j < i {
            assert(self.stakes@[j].0@ != self.stakes@[i].0@);
        }
    }
}

/// Both ledgers hold exactly the same account records.
pub open spec fn spec_same_records(pre: Staking, post: Staking) -> bool {
    post.stakes == pre.stakes
}

/// `post` holds `rec` for `account` and the same records as `pre` everywhere
/// else; no record was lost and none appeared for any other account.
pub open spec fn spec_records_updated(
    pre: Staking,
    post: Staking,
    account: Seq<char>,
    rec: UserStake,
) -> bool {
    &&& post.spec_has_account(account)
    &&& post.spec_record_of(account) == rec
    &&& forall|a: Seq<char>|
        a != account ==> #[trigger] post.spec_has_account(a) == pre.spec_has_account(a)
    &&& forall|a: Seq<char>|
        a != account && pre.spec_has_account(a) ==> #[trigger] post.spec_record_of(a)
            == pre.spec_record_of(a)
}

/// `post`'s pending registry is `pre`'s with the first entry matching a stake
/// withdrawal of `amount` to `account` removed.
pub open spec fn spec_stake_pending_removed(
    pre: Staking,
    post: Staking,
    account: Seq<char>,
    amount: u128,
) -> bool {
    exists|i: int|
        0 <= i < pre.pending@.len() && spec_matches_stake(
            #[trigger] pre.pending@[i],
            account,
            amount,
        ) && (forall|j: int| 0 <= j < i ==> !spec_matches_stake(pre.pending@[j], account, amount))
            && post.pending@ == pre.pending@.remove(i)
}

/// `post`'s pending registry is `pre`'s with the first entry matching an
/// interest withdrawal to `account` removed.
pub open spec fn spec_interests_pending_removed(
    pre: Staking,
    post: Staking,
    account: Seq<char>,
) -> bool {
    exists|i: int|
        0 <= i < pre.pending@.len() && spec_matches_interests(#[trigger] pre.pending@[i], account)
            && (forall|j: int| 0 <= j < i ==> !spec_matches_interests(pre.pending@[j], account))
            && post.pending@ == pre.pending@.remove(i)
}

/// Index of the record for `account_id`, if any.
fn find_account(stakes: &Vec<(String, UserStake)>, account_id: &String) -> (r: Option<usize>)
    ensures
        match r {
            Some(i) => i < stakes@.len() && stakes@[i as int].0@ == account_id@,
            None => forall|j: int| 0 <= j < stakes@.len() ==> stakes@[j].0@ != account_id@,
        },
{
    let mut i: usize = 0;
    while i < stakes.len()
        invariant
            i <= stakes@.len(),
            forall|j: int| 0 <= j < i ==> stakes@[j].0@ != account_id@,
        decreases stakes@.len() - i,
    {
        if stakes[i].0 == *account_id {
            return Some(i);
        }
        i = i + 1;
    }
    None
}

/// Index of the first pending stake withdrawal of `amount` to `account_id`,
/// if any.
fn find_pending_stake(pending: &Vec<PendingWithdrawal>, account_id: &String, amount: u128) -> (r:
    Option<usize>)
    ensures
        match r {
            Some(i) => i < pending@.len() && spec_matches_stake(
                pending@[i as int],
                account_id@,
                amount,
            ) && (forall|j: int|
                0 <= j < i ==> !spec_matches_stake(pending@[j], account_id@, amount)),
            None => forall|j: int|
                0 <= j < pending@.len() ==> !spec_matches_stake(pending@[j], account_id@, amount),
        },
{
    let mut i: usize = 0;
    while i < pending.len()
        invariant
            i <= pending@.len(),
            forall|j: int| 0 <= j < i ==> !spec_matches_stake(pending@[j], account_id@, amount),
        decreases pending@.len() - i,
    {
        let p = &pending[i];
        if p.kind == WithdrawKind::Stake && p.account_id == *account_id && p.amount == amount {
            return Some(i);
        }
        i = i + 1;
    }
    None
}

/// Index of the first pending interest withdrawal to `account_id`, if any.
fn find_pending_interests(pending: &Vec<PendingWithdrawal>, account_id: &String) -> (r: Option<
    usize,
>)
    ensures
        match r {
            Some(i) => i < pending@.len() && spec_matches_interests(pending@[i as int], account_id@)
                && (forall|j: int| 0 <= j < i ==> !spec_matches_interests(pending@[j], account_id@)),
            None => forall|j: int|
                0 <= j < pending@.len() ==> !spec_matches_interests(pending@[j], account_id@),
        },
{
    let mut i: usize = 0;
    while i < pending.len()
        invariant
            i <= pending@.len(),
            forall|j: int| 0 <= j < i ==> !spec_matches_interests(pending@[j], account_id@),
        decreases pending@.len() - i,
    {
        let p = &pending[i];
        if p.kind == WithdrawKind::Interests && p.account_id == *account_id {
            return Some(i);
        }
        i = i + 1;
    }
    None
}

impl Staking {
    /// The account's record, copied out; `None` where none exists.
    fn get_record(&self, account_id: &String) -> (r: Option<UserStake>)
        requires
            self.wf(),
        ensures
            match r {
                Some(rec) => self.spec_has_account(account_id@) && rec == self.spec_record_of(
                    account_id@,
                ),
                None => !self.spec_has_account(account_id@),
            },
    {
        match find_account(&self.stakes, account_id) {
            Some(i) => {
                let rec = self.stakes[i].1;
                proof {
                    self.lemma_record_at_index(account_id@, i as int);
                }
                Some(rec)
            },
            None => {
                proof {
                    if self.spec_has_account(account_id@) {
                        let i = self.spec_account_index(account_id@);
                        assert(self.stakes@[i].0@ == account_id@);
                    }
                }
                None
            },
        }
    }

    /// Stores `record` under `account_id`, replacing an existing record or
    /// creating the account's first one.
    fn put_record(&mut self, account_id: String, record: UserStake)
        requires
            old(self).wf(),
        ensures
            final(self).wf(),
            spec_records_updated(*old(self), *final(self), account_id@, record),
            final(self).interest_rate == old(self).interest_rate,
            final(self).token_account_id == old(self).token_account_id,
            final(self).pending == old(self).pending,
    {
        match find_account(&self.stakes, &account_id) {
            Some(i) => {
                self.stakes[i].1 = record;
                proof {
                    let pre = *old(self);
                    let post = *self;
                    assert forall|k: int| 0 <= k < post.stakes@.len() implies post.stakes@[k].0@
                        == pre.stakes@[k].0@ by {}
                    assert(post.wf());
                    post.lemma_record_at_index(account_id@, i as int);
                    assert forall|a: Seq<char>| a != account_id@ implies #[trigger] post
                        .spec_has_account(a) == pre.spec_has_account(a) by {
                        if pre.spec_has_account(a) {
                            let k = pre.spec_account_index(a);
                            assert(post.stakes@[k].0@ == a);
                        }
                        if post.spec_has_account(a) {
                            let k = post.spec_account_index(a);
                            assert(pre.stakes@[k].0@ == a);
                        }
                    }
                    assert forall|a: Seq<char>| a != account_id@ && pre.spec_has_account(
                        a,
                    ) implies #[trigger] post.spec_record_of(a) == pre.spec_record_of(a) by {
                        let k = pre.spec_account_index(a);
                        pre.lemma_record_at_index(a, k);
                        assert(k != i as int);
                        post.lemma_record_at_index(a, k);
                    }
                }
            },
            None => {
                self.stakes.push((account_id, record));
                proof {
                    let pre = *old(self);
                    let post = *self;
                    let n = pre.stakes@.len() as int;
                    assert forall|i: int, j: int|
                        0 <= i < j < post.stakes@.len() implies post.stakes@[i].0@
                        != post.stakes@[j].0@ by {
                        if j < n {
                            assert(pre.stakes@[i].0@ != pre.stakes@[j].0@);
                        } else {
                            assert(pre.stakes@[i].0@ != account_id@);
                        }
                    }
                    post.lemma_record_at_index(account_id@, n);
                    assert forall|a: Seq<char>| a != account_id@ implies #[trigger] post
                        .spec_has_account(a) == pre.spec_has_account(a) by {
                        if pre.spec_has_account(a) {
                            let k = pre.spec_account_index(a);
                            assert(post.stakes@[k].0@ == a);
                        }
                        if post.spec_has_account(a) {
                            let k = post.spec_account_index(a);
                            assert(0 <= k < n);
                            assert(pre.stakes@[k].0@ == a);
                        }
                    }
                    assert forall|a: Seq<char>| a != account_id@ && pre.spec_has_account(
                        a,
                    ) implies #[trigger] post.spec_record_of(a) == pre.spec_record_of(a) by {
                        let k = pre.spec_account_index(a);
                        pre.lemma_record_at_index(a, k);
                        post.lemma_record_at_index(a, k);
                    }
                }
            },
        }
    }
}

impl Staking {
    /// A fresh ledger with no accounts and no pending withdrawal, paying
    /// `interest_rate` (scale 10^8, per Julian year) and trusting deposit
    /// notifications only from `token_account_id`.
    pub fn new(interest_rate: u128, token_account_id: String) -> (r: Staking)
        ensures
            r.wf(),
            r.stakes@ == Seq::<(String, UserStake)>::empty(),
            r.pending@ == Seq::<PendingWithdrawal>::empty(),
            r.interest_rate == interest_rate,
            r.token_account_id == token_account_id,
    {
        Staking { stakes: Vec::new(), interest_rate, token_account_id, pending: Vec::new() }
    }

    /// The account's staked principal; zero where no record exists.
    pub fn staking_amount_of(&self, account_id: &String) -> (r: u128)
        requires
            self.wf(),
        ensures
            r == self.spec_stake_of(account_id@),
    {
        match self.get_record(account_id) {
            Some(rec) => rec.amount,
            None => 0,
        }
    }

    /// The account's claimable interest at `now`, computed on demand; zero
    /// where no record exists. Mutates nothing.
    pub fn staking_interests_of(&self, account_id: &String, now: u64) -> (r: u128)
        requires
            self.wf(),
            self.record_ready(account_id@, now),
        ensures
            r == self.spec_interests_of(account_id@, now),
    {
        match self.get_record(account_id) {
            Some(rec) => rec.calc_interests(self.interest_rate, now),
            None => 0,
        }
    }

    /// The account's record, or the fresh record a first deposit at `now`
    /// would create.
    pub open spec fn spec_record_or_new(self, account: Seq<char>, now: u64) -> UserStake {
        if self.spec_has_account(account) {
            self.spec_record_of(account)
        } else {
            UserStake { amount: 0, interests_before: 0, date: now }
        }
    }

    /// Deposit notification: the asset service has already moved `amount`
    /// into ledger custody on behalf of `sender_id`, tagged by `msg`. The
    /// notification is trusted only when `caller_id` is the configured token
    /// contract and the tag is exactly `"stake"`; anything else is rejected
    /// with no state change. On success the deposit is staked immediately —
    /// the asset has arrived, so no confirmation is pending — and the unused
    /// remainder `0` is reported back.
    pub fn ft_on_transfer(
        &mut self,
        caller_id: &String,
        sender_id: String,
        amount: u128,
        msg: &String,
        now: u64,
    ) -> (r: Result<u128, StakingError>)
        requires
            old(self).wf(),
            caller_id@ == old(self).token_account_id@ && msg@ == "stake"@ ==> old(
                self,
            ).record_ready(sender_id@, now) && old(self).spec_stake_of(sender_id@) + amount
                <= u128::MAX,
        ensures
            final(self).wf(),
            final(self).interest_rate == old(self).interest_rate,
            final(self).token_account_id == old(self).token_account_id,
            final(self).pending == old(self).pending,
            match r {
                Ok(unused) => unused == 0 && caller_id@ == old(self).token_account_id@ && msg@
                    == "stake"@ && spec_records_updated(
                    *old(self),
                    *final(self),
                    sender_id@,
                    old(self).spec_record_or_new(sender_id@, now).spec_stake(
                        amount,
                        old(self).interest_rate,
                        now,
                    ),
                ),
                Err(e) => spec_same_records(*old(self), *final(self)) && ((e
                    == StakingError::WrongToken && caller_id@ != old(self).token_account_id@) || (e
                    == StakingError::WrongMessage && caller_id@ == old(self).token_account_id@
                    && msg@ != "stake"@)),
            },
    {
        if !(*caller_id == self.token_account_id) {
            return Err(StakingError::WrongToken);
        }
        let stake_tag = String::from_str("stake");
        if !(*msg == stake_tag) {
            return Err(StakingError::WrongMessage);
        }
        let mut record = match self.get_record(&sender_id) {
            Some(rec) => rec,
            None => UserStake::new(0, now),
        };
        proof {
            assert(caller_id@ == old(self).token_account_id@);
            assert(msg@ == "stake"@);
            if !old(self).spec_has_account(sender_id@) {
                assert(record.amount * (now - record.date) == 0) by (nonlinear_arith)
                    requires
                        record.amount == 0,
                ;
                assert(record.amount * (now - record.date) * self.interest_rate == 0)
                    by (nonlinear_arith)
                    requires
                        record.amount * (now - record.date) == 0,
                ;
                assert(record.interests_fit(self.interest_rate, now));
            }
        }
        record.stake(amount, self.interest_rate, now);
        self.put_record(sender_id, record);
        Ok(0)
    }

    /// Requests a withdrawal of `amount` of staked principal to `account_id`.
    /// Validates against the current principal but decrements nothing: it
    /// registers a pending confirmation and returns the transfer the caller
    /// must ask the asset service to perform. The principal is not reserved
    /// while the confirmation is outstanding, so overlapping requests can each
    /// pass this validation; the later resolution then fails checked (see
    /// `callback_withdraw_stake`).
    pub fn staking_withdraw_stake(&mut self, account_id: String, amount: u128) -> (r: Result<
        TransferRequest,
        StakingError,
    >)
        requires
            old(self).wf(),
        ensures
            final(self).wf(),
            spec_same_records(*old(self), *final(self)),
            final(self).interest_rate == old(self).interest_rate,
            final(self).token_account_id == old(self).token_account_id,
            match r {
                Ok(req) => amount <= old(self).spec_stake_of(account_id@) && req.receiver_id@
                    == account_id@ && req.amount == amount && final(self).pending@ == old(
                    self,
                ).pending@.push(
                    (PendingWithdrawal {
                        kind: WithdrawKind::Stake,
                        account_id: account_id,
                        amount: amount,
                    }),
                ),
                Err(e) => e == StakingError::InsufficientStake && amount > old(self).spec_stake_of(
                    account_id@,
                ) && final(self).pending == old(self).pending,
            },
    {
        let current = self.staking_amount_of(&account_id);
        if amount > current {
            return Err(StakingError::InsufficientStake);
        }
        let receiver_id = account_id.clone();
        self.pending.push(PendingWithdrawal { kind: WithdrawKind::Stake, account_id, amount });
        Ok(TransferRequest { receiver_id, amount })
    }

    /// Requests a withdrawal of all interest claimable at `now`. Nothing is
    /// claimable where no record exists or nothing has accrued; otherwise the
    /// claimable amount is fixed at request time, a pending confirmation is
    /// registered, and the transfer to perform is returned. The record itself
    /// is untouched until the confirmation resolves.
    pub fn staking_withdraw_interests(&mut self, account_id: String, now: u64) -> (r: Result<
        TransferRequest,
        StakingError,
    >)
        requires
            old(self).wf(),
            old(self).record_ready(account_id@, now),
        ensures
            final(self).wf(),
            spec_same_records(*old(self), *final(self)),
            final(self).interest_rate == old(self).interest_rate,
            final(self).token_account_id == old(self).token_account_id,
            match r {
                Ok(req) => old(self).spec_interests_of(account_id@, now) > 0 && req.amount == old(
                    self,
                ).spec_interests_of(account_id@, now) && req.receiver_id@ == account_id@
                    && final(self).pending@ == old(self).pending@.push(
                    (PendingWithdrawal {
                        kind: WithdrawKind::Interests,
                        account_id: account_id,
                        amount: req.amount,
                    }),
                ),
                Err(e) => e == StakingError::NothingToWithdraw && old(self).spec_interests_of(
                    account_id@,
                    now,
                ) == 0 && final(self).pending == old(self).pending,
            },
    {
        let amount = self.staking_interests_of(&account_id, now);
        if amount == 0 {
            return Err(StakingError::NothingToWithdraw);
        }
        let receiver_id = account_id.clone();
        self.pending.push(PendingWithdrawal { kind: WithdrawKind::Interests, account_id, amount });
        Ok(TransferRequest { receiver_id, amount })
    }
}

/// The record accessors of two ledgers with the same `stakes` agree, so an
/// update described against one holds against the other.
pub proof fn lemma_records_updated_same_pre(
    pre1: Staking,
    pre2: Staking,
    post: Staking,
    account: Seq<char>,
    rec: UserStake,
)
    requires
        pre1.wf(),
        pre1.stakes == pre2.stakes,
        spec_records_updated(pre2, post, account, rec),
    ensures
        spec_records_updated(pre1, post, account, rec),
{
    assert(pre2.wf());
    assert forall|a: Seq<char>| a != account implies #[trigger] post.spec_has_account(a)
        == pre1.spec_has_account(a) by {
        if pre1.spec_has_account(a) {
            let k = pre1.spec_account_index(a);
            assert(pre2.stakes@[k].0@ == a);
        }
        if pre2.spec_has_account(a) {
            let k = pre2.spec_account_index(a);
            assert(pre1.stakes@[k].0@ == a);
        }
    }
    assert forall|a: Seq<char>| a != account && pre1.spec_has_account(a) implies #[trigger] post
        .spec_record_of(a) == pre1.spec_record_of(a) by {
        let k = pre1.spec_account_index(a);
        pre1.lemma_record_at_index(a, k);
        assert(pre2.stakes@[k].0@ == a);
        pre2.lemma_record_at_index(a, k);
    }
}

impl Staking {
    /// Resolution of a pending stake withdrawal, carrying the asset service's
    /// outcome for the transfer that `staking_withdraw_stake` requested.
    ///
    /// The pending confirmation is looked up first: a resolution with no
    /// matching entry — a duplicate of an already-resolved request, or one
    /// never requested — is rejected untouched, so each registered request is
    /// applied at most once. On `Successful` the principal is decremented,
    /// the only point in the protocol where it ever decreases; because the
    /// principal was not reserved at request time, overlapping requests can
    /// resolve against less principal than they validated against, and that
    /// case fails checked with `InsufficientStake` rather than underflowing.
    /// On `Failed` the record is left untouched. A `NotReady` outcome is a
    /// protocol violation and changes nothing, the pending entry included.
    pub fn callback_withdraw_stake(
        &mut self,
        account_id: &String,
        amount: u128,
        outcome: TransferOutcome,
        now: u64,
    ) -> (r: Result<(), StakingError>)
        requires
            old(self).wf(),
            outcome == TransferOutcome::Successful ==> old(self).record_ready(account_id@, now),
        ensures
            final(self).wf(),
            final(self).interest_rate == old(self).interest_rate,
            final(self).token_account_id == old(self).token_account_id,
            match r {
                Ok(u) => outcome == TransferOutcome::Successful && old(self).spec_has_account(
                    account_id@,
                ) && amount <= old(self).spec_record_of(account_id@).amount
                    && spec_stake_pending_removed(*old(self), *final(self), account_id@, amount)
                    && spec_records_updated(
                    *old(self),
                    *final(self),
                    account_id@,
                    old(self).spec_record_of(account_id@).spec_unstake(
                        amount,
                        old(self).interest_rate,
                        now,
                    ),
                ),
                Err(e) => {
                    ||| (e == StakingError::UnknownRequest && !old(self).spec_has_stake_pending(
                        account_id@,
                        amount,
                    ) && *final(self) == *old(self))
                    ||| (e == StakingError::TransferNotReady && outcome
                        == TransferOutcome::NotReady && old(self).spec_has_stake_pending(
                        account_id@,
                        amount,
                    ) && *final(self) == *old(self))
                    ||| (e == StakingError::TransferFailed && outcome == TransferOutcome::Failed
                        && spec_stake_pending_removed(*old(self), *final(self), account_id@, amount)
                        && spec_same_records(*old(self), *final(self)))
                    ||| (e == StakingError::MissingRecord && outcome == TransferOutcome::Successful
                        && !old(self).spec_has_account(account_id@) && spec_stake_pending_removed(
                        *old(self),
                        *final(self),
                        account_id@,
                        amount,
                    ) && spec_same_records(*old(self), *final(self)))
                    ||| (e == StakingError::InsufficientStake && outcome
                        == TransferOutcome::Successful && old(self).spec_has_account(account_id@)
                        && amount > old(self).spec_record_of(account_id@).amount
                        && spec_stake_pending_removed(*old(self), *final(self), account_id@, amount)
                        && spec_same_records(*old(self), *final(self)))
                },
            },
    {
        let idx = match find_pending_stake(&self.pending, account_id, amount) {
            None => {
                return Err(StakingError::UnknownRequest);
            },
            Some(i) => i,
        };
        match outcome {
            TransferOutcome::NotReady => Err(StakingError::TransferNotReady),
            TransferOutcome::Failed => {
                self.pending.remove(idx);
                proof {
                    assert(spec_matches_stake(old(self).pending@[idx as int], account_id@, amount));
                    assert(spec_stake_pending_removed(*old(self), *self, account_id@, amount));
                }
                Err(StakingError::TransferFailed)
            },
            TransferOutcome::Successful => {
                let found = self.get_record(account_id);
                self.pending.remove(idx);
                proof {
                    assert(spec_matches_stake(old(self).pending@[idx as int], account_id@, amount));
                    assert(spec_stake_pending_removed(*old(self), *self, account_id@, amount));
                }
                match found {
                    None => Err(StakingError::MissingRecord),
                    Some(rec) => {
                        if amount > rec.amount {
                            Err(StakingError::InsufficientStake)
                        } else {
                            let ghost mid = *self;
                            let mut rec = rec;
                            rec.unstake(amount, self.interest_rate, now);
                            self.put_record(account_id.clone(), rec);
                            proof {
                                lemma_records_updated_same_pre(
                                    *old(self),
                                    mid,
                                    *self,
                                    account_id@,
                                    rec,
                                );
                            }
                            Ok(())
                        }
                    },
                }
            },
        }
    }

    /// Resolution of a pending interest withdrawal, carrying the asset
    /// service's outcome for the transfer that `staking_withdraw_interests`
    /// requested.
    ///
    /// As for stake withdrawals, the pending confirmation is consumed at most
    /// once. On `Successful` the locked-in interest is cleared — the payout
    /// left custody — while `Failed` leaves it claimable and `NotReady`
    /// changes nothing at all.
    pub fn callback_withdraw_interests(
        &mut self,
        account_id: &String,
        outcome: TransferOutcome,
        now: u64,
    ) -> (r: Result<(), StakingError>)
        requires
            old(self).wf(),
            outcome == TransferOutcome::Successful ==> old(self).spec_time_ok(account_id@, now),
        ensures
            final(self).wf(),
            final(self).interest_rate == old(self).interest_rate,
            final(self).token_account_id == old(self).token_account_id,
            match r {
                Ok(u) => outcome == TransferOutcome::Successful && old(self).spec_has_account(
                    account_id@,
                ) && spec_interests_pending_removed(*old(self), *final(self), account_id@)
                    && spec_records_updated(
                    *old(self),
                    *final(self),
                    account_id@,
                    old(self).spec_record_of(account_id@).spec_reset(now),
                ),
                Err(e) => {
                    ||| (e == StakingError::UnknownRequest && !old(
                        self,
                    ).spec_has_interests_pending(account_id@) && *final(self) == *old(self))
                    ||| (e == StakingError::TransferNotReady && outcome
                        == TransferOutcome::NotReady && old(self).spec_has_interests_pending(
                        account_id@,
                    ) && *final(self) == *old(self))
                    ||| (e == StakingError::TransferFailed && outcome == TransferOutcome::Failed
                        && spec_interests_pending_removed(*old(self), *final(self), account_id@)
                        && spec_same_records(*old(self), *final(self)))
                    ||| (e == StakingError::MissingRecord && outcome == TransferOutcome::Successful
                        && !old(self).spec_has_account(account_id@)
                        && spec_interests_pending_removed(*old(self), *final(self), account_id@)
                        && spec_same_records(*old(self), *final(self)))
                },
            },
    {
        let idx = match find_pending_interests(&self.pending, account_id) {
            None => {
                return Err(StakingError::UnknownRequest);
            },
            Some(i) => i,
        };
        match outcome {
            TransferOutcome::NotReady => Err(StakingError::TransferNotReady),
            TransferOutcome::Failed => {
                self.pending.remove(idx);
                proof {
                    assert(spec_matches_interests(old(self).pending@[idx as int], account_id@));
                    assert(spec_interests_pending_removed(*old(self), *self, account_id@));
                }
                Err(StakingError::TransferFailed)
            },
            TransferOutcome::Successful => {
                let found = self.get_record(account_id);
                self.pending.remove(idx);
                proof {
                    assert(spec_matches_interests(old(self).pending@[idx as int], account_id@));
                    assert(spec_interests_pending_removed(*old(self), *self, account_id@));
                }
                match found {
                    None => Err(StakingError::MissingRecord),
                    Some(rec) => {
                        let ghost mid = *self;
                        let mut rec = rec;
                        rec.reset_interests(now);
                        self.put_record(account_id.clone(), rec);
                        proof {
                            lemma_records_updated_same_pre(*old(self), mid, *self, account_id@, rec);
                        }
                        Ok(())
                    },
                }
            },
        }
    }
}

/// Exactly-once resolution: resolving a pending stake withdrawal consumes its
/// registry entry. When the registry held exactly one entry for the request,
/// none remains afterwards, so a second resolution of the same request finds
/// no entry and is rejected as `UnknownRequest` instead of being re-executed.
pub proof fn lemma_resolution_consumes_request(
    pre: Staking,
    post: Staking,
    account: Seq<char>,
    amount: u128,
)
    requires
        spec_stake_pending_removed(pre, post, account, amount),
        forall|i: int, j: int|
            #![trigger pre.pending@[i], pre.pending@[j]]
            0 <= i < pre.pending@.len() && 0 <= j < pre.pending@.len() && spec_matches_stake(
                pre.pending@[i],
                account,
                amount,
            ) && spec_matches_stake(pre.pending@[j], account, amount) ==> i == j,
    ensures
        !post.spec_has_stake_pending(account, amount),
{
    let i = choose|i: int|
        0 <= i < pre.pending@.len() && spec_matches_stake(
            #[trigger] pre.pending@[i],
            account,
            amount,
        ) && (forall|j: int| 0 <= j < i ==> !spec_matches_stake(pre.pending@[j], account, amount))
            && post.pending@ == pre.pending@.remove(i);
    pre.pending@.remove_ensures(i);
    if post.spec_has_stake_pending(account, amount) {
        let k = choose|k: int|
            0 <= k < post.pending@.len() && spec_matches_stake(
                #[trigger] post.pending@[k],
                account,
                amount,
            );
        if k < i {
            assert(post.pending@[k] == pre.pending@[k]);
        } else {
            assert(post.pending@[k] == pre.pending@[k + 1]);
        }
    }
}

} // verus!
