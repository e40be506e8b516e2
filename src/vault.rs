//! A vault: per-account balances whose mutating operations run under a
//! reentrancy guard.
//!
//! A withdrawal pays out through a value transfer that the vault does not
//! perform itself, and during which the vault may be called again. It is
//! therefore split in two steps: `withdraw_safe` (or `emergency_withdraw`)
//! checks the request, debits the books, keeps the guard entered and returns
//! the transfer to make; `finish_withdrawal` takes the transfer's outcome,
//! rolls the debit back where it failed and releases the guard. Any guarded
//! call that arrives between the two steps is rejected with `ReentrantCall`.
use vstd::prelude::*;
use crate::account::Account;
use crate::amount::{Amount, amount_bound};
use crate::ledger::{Rows, keys_unique, has_row, balance_in, sum_of, lemma_balance_at, lemma_update, lemma_push, lemma_balance_le_sum};
use crate::reentrancy::{GuardStatus, ReentrancyError, ReentrancyGuard};

verus! {

/// Errors of the vault's operations.
#[derive(Clone, Copy, Debug, PartialEq, Eq, Structural)]
pub enum VaultError {
    /// The amount asked for exceeds the account's balance.
    InsufficientBalance,
    /// The value transfer failed; the books were rolled back.
    WithdrawalFailed,
    /// Another guarded operation on this vault is still open.
    ReentrantCall,
    /// A deposit would take a balance or the total to 2^256 or beyond.
    BalanceOverflow,
    /// The total balance is smaller than what is being taken out of it: the
    /// books no longer add up, which only the unguarded withdrawal can cause.
    AccountingUnderflow,
}

impl From<ReentrancyError> for VaultError {
    fn from(e: ReentrancyError) -> (r: VaultError) {
        match e {
            ReentrancyError::ReentrantCall => VaultError::ReentrantCall,
        }
    }
}

impl vstd::std_specs::convert::FromSpecImpl<ReentrancyError> for VaultError {
    open spec fn obeys_from_spec() -> bool {
        true
    }

    open spec fn from_spec(e: ReentrancyError) -> VaultError {
        match e {
            ReentrancyError::ReentrantCall => VaultError::ReentrantCall,
        }
    }
}

/// What a vault notification reports.
#[derive(Clone, Copy, Debug, PartialEq, Eq, Structural)]
pub enum EventKind {
    Deposit,
    Withdrawal,
}

/// A notification that the vault emitted.
#[derive(Clone, Copy, Debug)]
pub struct VaultEvent {
    pub kind: EventKind,
    pub user: Account,
    pub amount: Amount,
}

/// A value transfer that the caller of a withdrawal must now make.
#[derive(Clone, Copy, Debug)]
pub struct Transfer {
    pub to: Account,
    pub amount: Amount,
}

/// A withdrawal whose transfer has not been reported back yet, with the
/// values that a rollback restores.
#[derive(Clone, Copy, Debug)]
struct PendingWithdrawal {
    account: Account,
    amount: Amount,
    prior_balance: Amount,
    prior_total: Amount,
}

#[derive(Clone, Copy, Debug)]
struct Entry {
    account: Account,
    amount: Amount,
}

/// The model of a withdrawal in flight.
pub struct InFlight {
    pub account: Seq<u8>,
    pub amount: nat,
    /// The account's balance before the debit.
    pub prior_balance: nat,
    /// The total balance before the debit.
    pub prior_total: nat,
}

/// The model of a vault.
pub struct VaultState {
    pub guard: GuardStatus,
    pub balances: Rows,
    pub total: nat,
    pub in_flight: Option<InFlight>,
    pub events: Seq<(EventKind, Seq<u8>, nat)>,
}

impl VaultState {
    /// What account `a` holds.
    pub open spec fn balance_of(self, a: Seq<u8>) -> nat {
        balance_in(self.balances, a)
    }

    /// The sum of all account balances.
    pub open spec fn balance_sum(self) -> nat {
        sum_of(self.balances)
    }

    /// The structural invariant: one row per account, and a withdrawal is in
    /// flight exactly while the guard is entered.
    pub open spec fn wf(self) -> bool {
        keys_unique(self.balances) && (self.in_flight is Some <==> self.guard
            == GuardStatus::Entered)
    }

    /// The books add up: the total is the sum of the balances, and a
    /// withdrawal in flight has taken its amount from both.
    pub open spec fn consistent(self) -> bool {
        &&& self.total == self.balance_sum()
        &&& match self.in_flight {
            Some(p) => self.balance_of(p.account) + p.amount == p.prior_balance && self.total
                + p.amount == p.prior_total,
            None => true,
        }
    }

    /// Everything but the guard is as in `other`.
    pub open spec fn same_books(self, other: VaultState) -> bool {
        &&& self.balances == other.balances
        &&& self.total == other.total
        &&& self.in_flight == other.in_flight
        &&& self.events == other.events
    }

    /// In `next`, account `a` holds `v` and every other account what it holds here.
    pub open spec fn balance_set(self, next: VaultState, a: Seq<u8>, v: nat) -> bool {
        forall|x: Seq<u8>| #[trigger]
            balance_in(next.balances, x) == if x == a {
                v
            } else {
                balance_in(self.balances, x)
            }
    }

    /// `next` and `r` are what a deposit of `amount` by `caller` gives.
    pub open spec fn deposited(
        self,
        caller: Seq<u8>,
        amount: nat,
        next: VaultState,
        r: Result<(), VaultError>,
    ) -> bool {
        if self.guard == GuardStatus::Entered {
            r == Err::<(), VaultError>(VaultError::ReentrantCall) && next == self
        } else if self.balance_of(caller) + amount >= amount_bound() || self.total + amount
            >= amount_bound() {
            &&& r == Err::<(), VaultError>(VaultError::BalanceOverflow)
            &&& next.guard == GuardStatus::NotEntered
            &&& next.same_books(self)
        } else {
            &&& r == Ok::<(), VaultError>(())
            &&& next.guard == GuardStatus::NotEntered
            &&& self.balance_set(next, caller, self.balance_of(caller) + amount)
            &&& next.total == self.total + amount
            &&& next.balance_sum() == self.balance_sum() + amount
            &&& next.in_flight == self.in_flight
            &&& next.events == self.events.push((EventKind::Deposit, caller, amount))
        }
    }

    /// `next` and `r` are what the first step of a guarded withdrawal of
    /// `amount` by `caller` gives; on success the transfer is still to be made.
    pub open spec fn withdrawal_started(
        self,
        caller: Seq<u8>,
        amount: nat,
        next: VaultState,
        r: Result<(), VaultError>,
    ) -> bool {
        if self.guard == GuardStatus::Entered {
            r == Err::<(), VaultError>(VaultError::ReentrantCall) && next == self
        } else if self.balance_of(caller) < amount {
            &&& r == Err::<(), VaultError>(VaultError::InsufficientBalance)
            &&& next.guard == GuardStatus::NotEntered
            &&& next.same_books(self)
        } else if self.total < amount {
            &&& r == Err::<(), VaultError>(VaultError::AccountingUnderflow)
            &&& next.guard == GuardStatus::NotEntered
            &&& next.same_books(self)
        } else {
            &&& r == Ok::<(), VaultError>(())
            &&& next.guard == GuardStatus::Entered
            &&& self.balance_set(next, caller, (self.balance_of(caller) - amount) as nat)
            &&& next.total == self.total - amount
            &&& next.balance_sum() + amount == self.balance_sum()
            &&& next.in_flight == Some(
                InFlight {
                    account: caller,
                    amount,
                    prior_balance: self.balance_of(caller),
                    prior_total: self.total,
                },
            )
            &&& next.events == self.events
        }
    }

    /// `next` and `r` are what reporting the outcome of the transfer of the
    /// withdrawal in flight gives.
    pub open spec fn withdrawal_finished(
        self,
        transfer_succeeded: bool,
        next: VaultState,
        r: Result<(), VaultError>,
    ) -> bool {
        let p = self.in_flight->Some_0;
        &&& next.guard == GuardStatus::NotEntered
        &&& next.in_flight is None
        &&& if transfer_succeeded {
            &&& r == Ok::<(), VaultError>(())
            &&& next.balances == self.balances
            &&& next.total == self.total
            &&& next.events == self.events.push((EventKind::Withdrawal, p.account, p.amount))
        } else {
            &&& r == Err::<(), VaultError>(VaultError::WithdrawalFailed)
            &&& self.balance_set(next, p.account, p.prior_balance)
            &&& next.balance_sum() + self.balance_of(p.account) == self.balance_sum()
                + p.prior_balance
            &&& next.total == p.prior_total
            &&& next.events == self.events
        }
    }
}

/// The model of the result of a withdrawal's first step.
pub open spec fn started_result(r: Result<Transfer, VaultError>) -> Result<(), VaultError> {
    match r {
        Ok(_) => Ok(()),
        Err(e) => Err(e),
    }
}

spec fn rows_of(s: Seq<Entry>) -> Rows {
    Seq::new(s.len(), |i: int| (s[i].account@, s[i].amount.value()))
}

spec fn events_of(s: Seq<VaultEvent>) -> Seq<(EventKind, Seq<u8>, nat)> {
    Seq::new(s.len(), |i: int| (s[i].kind, s[i].user@, s[i].amount.value()))
}

spec fn in_flight_of(p: Option<PendingWithdrawal>) -> Option<InFlight> {
    match p {
        Some(p) => Some(
            InFlight {
                account: p.account@,
                amount: p.amount.value(),
                prior_balance: p.prior_balance.value(),
                prior_total: p.prior_total.value(),
            },
        ),
        None => None,
    }
}

/// A vault of per-account balances, protected by a reentrancy guard.
pub struct VaultContract {
    guard: ReentrancyGuard,
    entries: Vec<Entry>,
    total_balance: Amount,
    pending: Option<PendingWithdrawal>,
    events: Vec<VaultEvent>,
}

impl View for VaultContract {
    type V = VaultState;

    closed spec fn view(&self) -> VaultState {
        VaultState {
            guard: self.guard@,
            balances: rows_of(self.entries@),
            total: self.total_balance.value(),
            in_flight: in_flight_of(self.pending),
            events: events_of(self.events@),
        }
    }
}

impl Default for VaultContract {
    /// An empty vault whose guard has not been initialized.
    fn default() -> (r: Self)
        ensures
            r@.wf(),
            r@.consistent(),
            r@.guard == GuardStatus::Uninitialized,
            r@.balances.len() == 0,
            r@.total == 0,
            r@.in_flight is None,
            r@.events.len() == 0,
    {
        let r = VaultContract {
            guard: ReentrancyGuard::default(),
            entries: Vec::new(),
            total_balance: Amount::zero(),
            pending: None,
            events: Vec::new(),
        };
        assert(r@.balances =~= Seq::<(Seq<u8>, nat)>::empty());
        assert(r@.events =~= Seq::<(EventKind, Seq<u8>, nat)>::empty());
        r
    }
}

impl VaultContract {
    /// An empty vault, ready for use.
    pub fn new() -> (r: Self)
        ensures
            r@.wf(),
            r@.consistent(),
            r@.guard == GuardStatus::NotEntered,
            r@.balances.len() == 0,
            r@.total == 0,
            r@.in_flight is None,
            r@.events.len() == 0,
    {
        let mut r = VaultContract::default();
        r.constructor();
        r
    }

    /// Initializes the guard and sets the total balance to zero; meant to be
    /// called once, on a fresh vault.
    pub fn constructor(&mut self)
        ensures
            final(self)@.wf() == keys_unique(old(self)@.balances),
            final(self)@.guard == GuardStatus::NotEntered,
            final(self)@.balances == old(self)@.balances,
            final(self)@.total == 0,
            final(self)@.in_flight is None,
            final(self)@.events == old(self)@.events,
            old(self)@.balances.len() == 0 ==> final(self)@.consistent(),
    {
        self.guard.init();
        self.total_balance = Amount::zero();
        self.pending = None;
    }

    /// The balance of `user`.
    pub fn get_balance(&self, user: Account) -> (r: Amount)
        requires
            self@.wf(),
        ensures
            r.value() == self@.balance_of(user@),
    {
        self.balance_at(&user)
    }

    fn balance_at(&self, user: &Account) -> (r: Amount)
        requires
            keys_unique(self@.balances),
        ensures
            r.value() == self@.balance_of(user@),
    {
        match self.find_entry(user) {
            Some(i) => {
                proof {
                    lemma_balance_at(self@.balances, i as int);
                }
                self.entries[i].amount
            },
            None => Amount::zero(),
        }
    }

    /// The total balance.
    pub fn get_total_balance(&self) -> (r: Amount)
        ensures
            r.value() == self@.total,
    {
        self.total_balance
    }

    /// Whether a guarded operation is open on this vault.
    pub fn is_reentrancy_guard_entered(&self) -> (r: bool)
        ensures
            r == (self@.guard == GuardStatus::Entered),
    {
        self.guard.reentrancy_guard_entered()
    }

    /// Whether a withdrawal waits for the outcome of its transfer.
    pub fn has_withdrawal_in_flight(&self) -> (r: bool)
        ensures
            r == self@.in_flight is Some,
    {
        self.pending.is_some()
    }

    /// The number of notifications emitted so far.
    pub fn event_count(&self) -> (r: usize)
        ensures
            r == self@.events.len(),
    {
        self.events.len()
    }

    /// The notification emitted `i`-th.
    pub fn event_at(&self, i: usize) -> (r: VaultEvent)
        requires
            i < self@.events.len(),
        ensures
            (r.kind, r.user@, r.amount.value()) == self@.events[i as int],
    {
        self.events[i]
    }

    /// Deposits `amount` into the account of `caller`, under the guard.
    ///
    /// Rejected with `ReentrantCall`, changing nothing, while another guarded
    /// operation is open; rejected with `BalanceOverflow` where the balance or
    /// the total would reach 2^256. On success both grow by `amount` and a
    /// deposit notification is emitted. The guard is released on every path
    /// that acquired it.
    pub fn deposit(&mut self, caller: Account, amount: Amount) -> (r: Result<(), VaultError>)
        requires
            old(self)@.wf(),
        ensures
            final(self)@.wf(),
            old(self)@.deposited(caller@, amount.value(), final(self)@, r),
            old(self)@.consistent() ==> final(self)@.consistent(),
    {
        if let Err(e) = self.guard.non_reentrant_before() {
            return Err(VaultError::from(e));
        }
        let current = self.balance_at(&caller);
        let new_balance = match current.checked_add(&amount) {
            Some(b) => b,
            None => {
                self.guard.non_reentrant_after();
                return Err(VaultError::BalanceOverflow);
            },
        };
        let new_total = match self.total_balance.checked_add(&amount) {
            Some(t) => t,
            None => {
                self.guard.non_reentrant_after();
                return Err(VaultError::BalanceOverflow);
            },
        };
        let ghost before = self@;
        self.set_balance(caller, new_balance);
        self.total_balance = new_total;
        let event = VaultEvent { kind: EventKind::Deposit, user: caller, amount };
        self.events.push(event);
        self.guard.non_reentrant_after();
        assert(self@.events =~= before.events.push((EventKind::Deposit, caller@, amount.value())));
        Ok(())
    }

    /// The first step of a guarded withdrawal of `amount` by `caller`.
    ///
    /// Rejected with `ReentrantCall`, changing nothing, while another guarded
    /// operation is open. Otherwise the guard is acquired; where the balance
    /// is short (`InsufficientBalance`) or the total is (`AccountingUnderflow`)
    /// it is released again and nothing else changes. On success the balance
    /// and the total are debited before any value leaves, the guard stays
    /// entered, and the transfer to make is returned; its outcome goes to
    /// `finish_withdrawal`.
    pub fn withdraw_safe(&mut self, caller: Account, amount: Amount) -> (r: Result<
        Transfer,
        VaultError,
    >)
        requires
            old(self)@.wf(),
        ensures
            final(self)@.wf(),
            old(self)@.withdrawal_started(caller@, amount.value(), final(self)@, started_result(r)),
            r matches Ok(t) ==> t.to@ == caller@ && t.amount.value() == amount.value(),
            old(self)@.consistent() ==> final(self)@.consistent(),
    {
        if let Err(e) = self.guard.non_reentrant_before() {
            return Err(VaultError::from(e));
        }
        match self.debit(caller, amount) {
            Ok(t) => Ok(t),
            Err(e) => {
                self.guard.non_reentrant_after();
                Err(e)
            },
        }
    }

    /// The first step of a withdrawal that acquires and releases the guard by
    /// hand on each of its paths; same contract as `withdraw_safe`.
    pub fn emergency_withdraw(&mut self, caller: Account, amount: Amount) -> (r: Result<
        Transfer,
        VaultError,
    >)
        requires
            old(self)@.wf(),
        ensures
            final(self)@.wf(),
            old(self)@.withdrawal_started(caller@, amount.value(), final(self)@, started_result(r)),
            r matches Ok(t) ==> t.to@ == caller@ && t.amount.value() == amount.value(),
            old(self)@.consistent() ==> final(self)@.consistent(),
    {
        if let Err(e) = self.guard.non_reentrant_before() {
            return Err(VaultError::from(e));
        }
        let balance = self.balance_at(&caller);
        if balance.lt(&amount) {
            self.guard.non_reentrant_after();
            return Err(VaultError::InsufficientBalance);
        }
        let new_balance = match balance.checked_sub(&amount) {
            Some(b) => b,
            None => {
                self.guard.non_reentrant_after();
                return Err(VaultError::InsufficientBalance);
            },
        };
        let new_total = match self.total_balance.checked_sub(&amount) {
            Some(t) => t,
            None => {
                self.guard.non_reentrant_after();
                return Err(VaultError::AccountingUnderflow);
            },
        };
        let prior_total = self.total_balance;
        proof {
            lemma_balance_le_sum(self@.balances, caller@);
        }
        self.set_balance(caller, new_balance);
        self.total_balance = new_total;
        self.pending = Some(
            PendingWithdrawal { account: caller, amount, prior_balance: balance, prior_total },
        );
        Ok(Transfer { to: caller, amount })
    }

    /// Checks and debits a withdrawal with the guard already entered; on
    /// failure nothing changes.
    fn debit(&mut self, caller: Account, amount: Amount) -> (r: Result<Transfer, VaultError>)
        requires
            keys_unique(old(self)@.balances),
            old(self)@.guard == GuardStatus::Entered,
            old(self)@.in_flight is None,
        ensures
            keys_unique(final(self)@.balances),
            final(self)@.guard == GuardStatus::Entered,
            r is Err ==> final(self)@ == old(self)@,
            old(self)@.balance_of(caller@) < amount.value() ==> r == Err::<Transfer, VaultError>(
                VaultError::InsufficientBalance,
            ),
            old(self)@.balance_of(caller@) >= amount.value() && old(self)@.total < amount.value()
                ==> r == Err::<Transfer, VaultError>(VaultError::AccountingUnderflow),
            old(self)@.balance_of(caller@) >= amount.value() && old(self)@.total >= amount.value()
                ==> {
                &&& r matches Ok(t) && t.to@ == caller@ && t.amount.value() == amount.value()
                &&& old(self)@.balance_set(
                    final(self)@,
                    caller@,
                    (old(self)@.balance_of(caller@) - amount.value()) as nat,
                )
                &&& final(self)@.total == old(self)@.total - amount.value()
                &&& final(self)@.in_flight == Some(
                    InFlight {
                        account: caller@,
                        amount: amount.value(),
                        prior_balance: old(self)@.balance_of(caller@),
                        prior_total: old(self)@.total,
                    },
                )
                &&& final(self)@.events == old(self)@.events
                &&& final(self)@.balance_sum() + amount.value() == old(self)@.balance_sum()
            },
    {
        let balance = self.balance_at(&caller);
        if balance.lt(&amount) {
            return Err(VaultError::InsufficientBalance);
        }
        let new_balance = match balance.checked_sub(&amount) {
            Some(b) => b,
            None => {
                return Err(VaultError::InsufficientBalance);
            },
        };
        let new_total = match self.total_balance.checked_sub(&amount) {
            Some(t) => t,
            None => {
                return Err(VaultError::AccountingUnderflow);
            },
        };
        let prior_total = self.total_balance;
        self.set_balance(caller, new_balance);
        self.total_balance = new_total;
        self.pending = Some(
            PendingWithdrawal { account: caller, amount, prior_balance: balance, prior_total },
        );
        Ok(Transfer { to: caller, amount })
    }

    /// The second step of a guarded withdrawal: reports whether its transfer
    /// succeeded.
    ///
    /// On success a withdrawal notification is emitted; on failure the
    /// account's balance and the total are restored to their values before
    /// the debit and the result is `WithdrawalFailed`. Either way the guard is
    /// released.
    pub fn finish_withdrawal(&mut self, transfer_succeeded: bool) -> (r: Result<(), VaultError>)
        requires
            old(self)@.wf(),
            old(self)@.in_flight is Some,
        ensures
            final(self)@.wf(),
            old(self)@.withdrawal_finished(transfer_succeeded, final(self)@, r),
            old(self)@.consistent() ==> final(self)@.consistent(),
    {
        let p = self.pending.unwrap();
        self.pending = None;
        if !transfer_succeeded {
            self.set_balance(p.account, p.prior_balance);
            self.total_balance = p.prior_total;
            self.guard.non_reentrant_after();
            return Err(VaultError::WithdrawalFailed);
        }
        let ghost before = self@;
        let event = VaultEvent { kind: EventKind::Withdrawal, user: p.account, amount: p.amount };
        self.events.push(event);
        self.guard.non_reentrant_after();
        assert(self@.events =~= before.events.push(
            (EventKind::Withdrawal, p.account@, p.amount.value()),
        ));
        Ok(())
    }


    /// The row of `account`, if it has one.
    fn find_entry(&self, account: &Account) -> (r: Option<usize>)
        ensures
            match r {
                Some(i) => i < self.entries@.len() && self@.balances[i as int].0 == account@,
                None => !has_row(self@.balances, account@),
            },
    {
        let mut i: usize = 0;
        while i < self.entries.len()
            invariant
                0 <= i <= self.entries@.len(),
                forall|j: int| 0 <= j < i ==> self@.balances[j].0 != account@,
            decreases self.entries@.len() - i,
        {
            if self.entries[i].account.same_as(account) {
                return Some(i);
            }
            i = i + 1;
        }
        None
    }

    /// Sets the balance of `account` to `value`, adding a row where it has none.
    fn set_balance(&mut self, account: Account, value: Amount)
        requires
            keys_unique(old(self)@.balances),
        ensures
            keys_unique(final(self)@.balances),
            old(self)@.balance_set(final(self)@, account@, value.value()),
            final(self)@.balance_sum() + old(self)@.balance_of(account@) == old(self)@.balance_sum()
                + value.value(),
            final(self).guard == old(self).guard,
            final(self).total_balance == old(self).total_balance,
            final(self).pending == old(self).pending,
            final(self).events == old(self).events,
    {
        let ghost rows = self@.balances;
        match self.find_entry(&account) {
            Some(i) => {
                proof {
                    lemma_balance_at(rows, i as int);
                    lemma_update(rows, i as int, value.value());
                }
                self.entries.set(i, Entry { account, amount: value });
                assert(self@.balances =~= rows.update(i as int, (rows[i as int].0, value.value())));
            },
            None => {
                proof {
                    lemma_push(rows, account@, value.value());
                }
                self.entries.push(Entry { account, amount: value });
                assert(self@.balances =~= rows.push((account@, value.value())));
            },
        }
    }
}

/// The unguarded withdrawal. It pays before it debits and takes no guard, so
/// a transfer that re-enters it sees the balance from before the payment; it
/// is kept to show the attack that the guarded withdrawal prevents, and is
/// not meant for use.
impl VaultContract {
    /// The check of an unguarded withdrawal, kept to show the attack that the
    /// guard stops: it returns the balance that it read, which the caller
    /// hands back to `complete_withdraw_vulnerable` after the transfer. Any
    /// number of such withdrawals may be open at once.
    pub fn withdraw_vulnerable(&self, caller: Account, amount: Amount) -> (r: Result<
        Amount,
        VaultError,
    >)
        requires
            self@.wf(),
        ensures
            r is Ok <==> amount.value() <= self@.balance_of(caller@),
            r matches Ok(b) ==> b.value() == self@.balance_of(caller@),
            r matches Err(e) ==> e == VaultError::InsufficientBalance,
    {
        let balance = self.balance_at(&caller);
        if balance.lt(&amount) {
            return Err(VaultError::InsufficientBalance);
        }
        Ok(balance)
    }

    /// The bookkeeping of an unguarded withdrawal after its transfer: the
    /// account's balance is set from the balance read before the transfer,
    /// which a reentrant withdrawal may have made stale, and the total is
    /// debited. Where the total is short it is set to zero and the result is
    /// `AccountingUnderflow`: more has been paid out than was deposited.
    pub fn complete_withdraw_vulnerable(
        &mut self,
        caller: Account,
        amount: Amount,
        observed_balance: Amount,
        transfer_succeeded: bool,
    ) -> (r: Result<(), VaultError>)
        requires
            old(self)@.wf(),
            amount.value() <= observed_balance.value(),
        ensures
            final(self)@.wf(),
            final(self)@.guard == old(self)@.guard,
            final(self)@.in_flight == old(self)@.in_flight,
            !transfer_succeeded ==> r == Err::<(), VaultError>(VaultError::WithdrawalFailed)
                && final(self)@ == old(self)@,
            transfer_succeeded ==> {
                &&& old(self)@.balance_set(
                    final(self)@,
                    caller@,
                    (observed_balance.value() - amount.value()) as nat,
                )
                &&& final(self)@.events == old(self)@.events.push(
                    (EventKind::Withdrawal, caller@, amount.value()),
                )
                &&& amount.value() <= old(self)@.total ==> r == Ok::<(), VaultError>(())
                    && final(self)@.total == old(self)@.total - amount.value()
                &&& old(self)@.total < amount.value() ==> r == Err::<(), VaultError>(
                    VaultError::AccountingUnderflow,
                ) && final(self)@.total == 0
            },
            old(self)@.consistent() && old(self)@.in_flight is None && transfer_succeeded
                && observed_balance.value() == old(self)@.balance_of(caller@)
                ==> final(self)@.consistent(),
    {
        if !transfer_succeeded {
            return Err(VaultError::WithdrawalFailed);
        }
        let new_balance = match observed_balance.checked_sub(&amount) {
            Some(b) => b,
            None => {
                return Err(VaultError::WithdrawalFailed);
            },
        };
        proof {
            lemma_balance_le_sum(self@.balances, caller@);
        }
        self.set_balance(caller, new_balance);
        let ghost before = self@;
        let event = VaultEvent { kind: EventKind::Withdrawal, user: caller, amount };
        self.events.push(event);
        assert(self@.events =~= before.events.push((EventKind::Withdrawal, caller@, amount.value())));
        match self.total_balance.checked_sub(&amount) {
            Some(t) => {
                self.total_balance = t;
                Ok(())
            },
            None => {
                self.total_balance = Amount::zero();
                Err(VaultError::AccountingUnderflow)
            },
        }
    }

}

/// A failed transfer undoes its withdrawal: on books that add up, a guarded
/// withdrawal of at most the account's balance starts; when its transfer is
/// then reported failed, the result is `WithdrawalFailed`, every balance, the
/// total and the notifications are as before the withdrawal, and the guard is
/// released.
pub proof fn lemma_failed_transfer_rolls_back(
    s0: VaultState,
    s1: VaultState,
    s2: VaultState,
    caller: Seq<u8>,
    amount: nat,
    r1: Result<(), VaultError>,
    r2: Result<(), VaultError>,
)
    requires
        s0.wf(),
        s0.consistent(),
        s0.guard != GuardStatus::Entered,
        amount <= s0.balance_of(caller),
        s0.withdrawal_started(caller, amount, s1, r1),
        s1.withdrawal_finished(false, s2, r2),
    ensures
        r1 == Ok::<(), VaultError>(()),
        r2 == Err::<(), VaultError>(VaultError::WithdrawalFailed),
        forall|a: Seq<u8>| #[trigger] s2.balance_of(a) == s0.balance_of(a),
        s2.total == s0.total,
        s2.events == s0.events,
        s2.guard == GuardStatus::NotEntered,
        s2.in_flight is None,
{
    lemma_balance_le_sum(s0.balances, caller);
    assert forall|a: Seq<u8>| #[trigger] s2.balance_of(a) == s0.balance_of(a) by {
        assert(balance_in(s2.balances, a) == balance_in(s0.balances, a));
    }
}

/// While a guarded withdrawal waits for its transfer, every guarded operation
/// that the transfer makes on the vault, by any account and for any amount, is
/// rejected with `ReentrantCall` and changes nothing.
pub proof fn lemma_in_flight_rejects_reentry(
    s0: VaultState,
    s1: VaultState,
    caller: Seq<u8>,
    amount: nat,
)
    requires
        s0.withdrawal_started(caller, amount, s1, Ok(())),
    ensures
        forall|c: Seq<u8>, a: nat, s2: VaultState, r: Result<(), VaultError>|
            #[trigger] s1.withdrawal_started(c, a, s2, r) ==> r == Err::<(), VaultError>(
                VaultError::ReentrantCall,
            ) && s2 == s1,
        forall|c: Seq<u8>, a: nat, s2: VaultState, r: Result<(), VaultError>|
            #[trigger] s1.deposited(c, a, s2, r) ==> r == Err::<(), VaultError>(
                VaultError::ReentrantCall,
            ) && s2 == s1,
{
}


/// One operation of the vault: a deposit, the first step of a guarded
/// withdrawal, or the report of the transfer of the withdrawal in flight.
pub open spec fn vault_step(s: VaultState, t: VaultState) -> bool {
    ||| exists|c: Seq<u8>, a: nat, r: Result<(), VaultError>| #[trigger] s.deposited(c, a, t, r)
    ||| exists|c: Seq<u8>, a: nat, r: Result<(), VaultError>|
        #[trigger] s.withdrawal_started(c, a, t, r)
    ||| s.in_flight is Some && exists|b: bool, r: Result<(), VaultError>|
        #[trigger] s.withdrawal_finished(b, t, r)
}

proof fn lemma_step_keeps_books(s: VaultState, t: VaultState)
    requires
        s.wf(),
        s.consistent(),
        vault_step(s, t),
    ensures
        t.consistent(),
{
    if exists|c: Seq<u8>, a: nat, r: Result<(), VaultError>| #[trigger] s.deposited(c, a, t, r) {
        let (c, a, r) = choose|c: Seq<u8>, a: nat, r: Result<(), VaultError>|
            #[trigger] s.deposited(c, a, t, r);
    } else if exists|c: Seq<u8>, a: nat, r: Result<(), VaultError>|
        #[trigger] s.withdrawal_started(c, a, t, r) {
        let (c, a, r) = choose|c: Seq<u8>, a: nat, r: Result<(), VaultError>|
            #[trigger] s.withdrawal_started(c, a, t, r);
    } else {
        let (b, r) = choose|b: bool, r: Result<(), VaultError>|
            #[trigger] s.withdrawal_finished(b, t, r);
    }
}

/// The books add up after every operation: along any run of deposits and
/// guarded withdrawals, with or without reentrant calls, that starts from
/// books that add up, the total is the sum of all balances at every step.
pub proof fn lemma_books_add_up(run: Seq<VaultState>)
    requires
        run.len() > 0,
        run[0].consistent(),
        forall|i: int| 0 <= i < run.len() ==> #[trigger] run[i].wf(),
        forall|i: int| 0 <= i < run.len() - 1 ==> #[trigger] vault_step(run[i], run[i + 1]),
    ensures
        forall|i: int| 0 <= i < run.len() ==> #[trigger] run[i].consistent(),
        forall|i: int| 0 <= i < run.len() ==> run[i].total == #[trigger] run[i].balance_sum(),
    decreases run.len(),
{
    if run.len() > 1 {
        let prefix = run.drop_last();
        assert forall|i: int| 0 <= i < prefix.len() implies #[trigger] prefix[i].wf() by {
            assert(prefix[i] == run[i]);
        }
        assert forall|i: int| 0 <= i < prefix.len() - 1 implies #[trigger] vault_step(
            prefix[i],
            prefix[i + 1],
        ) by {
            assert(prefix[i] == run[i] && prefix[i + 1] == run[i + 1]);
        }
        lemma_books_add_up(prefix);
        let n = run.len() - 1;
        let k = n - 1;
        assert(vault_step(run[k], run[k + 1]));
        assert(prefix[k] == run[k]);
        lemma_step_keeps_books(run[k], run[n]);
        assert forall|i: int| 0 <= i < run.len() implies #[trigger] run[i].consistent() by {
            if i < n {
                assert(prefix[i] == run[i]);
            }
        }
    }
    assert forall|i: int| 0 <= i < run.len() implies run[i].total == #[trigger] run[
        i
    ].balance_sum() by {
        assert(run[i].consistent());
    }
}

} // verus!
