//! One client's ledger and the rules by which a record changes it.

use crate::decimal::{append_decimal, append_fixed4, decimal, fixed4};
use crate::record::{Record, RecordType};
use std::collections::HashMap;
use vstd::prelude::*;

verus! {

broadcast use vstd::std_specs::hash::group_hash_axioms;

/// Whether a balance can be held: balances are signed 64-bit counts of
/// ten-thousandths.
pub open spec fn representable(balance: int) -> bool {
    i64::MIN <= balance <= i64::MAX
}

/// The mathematical content of an [`Account`].
pub struct AccountState {
    pub id: u16,
    pub available: int,
    pub held: int,
    pub locked: bool,
    pub transactions: Map<u16, Record>,
    pub disputes: Map<u16, Record>,
}

impl AccountState {
    /// The state of an account that has seen no record.
    pub open spec fn fresh(id: u16) -> AccountState {
        AccountState {
            id,
            available: 0,
            held: 0,
            locked: false,
            transactions: Map::empty(),
            disputes: Map::empty(),
        }
    }

    /// Whether both balances can be held, as those of every [`Account`] can.
    pub open spec fn bounded(self) -> bool {
        representable(self.available) && representable(self.held)
    }

    /// All the client's funds, free or held.
    pub open spec fn total(self) -> int {
        self.available + self.held
    }

    /// The amount on record for a transaction, if there is one.
    pub open spec fn recorded_amount(self, trx_id: u16) -> Option<u64> {
        if self.transactions.contains_key(trx_id) {
            self.transactions[trx_id].amount
        } else {
            None
        }
    }

    /// Whether a transaction is under dispute and not yet settled.
    pub open spec fn has_open_dispute(self, trx_id: u16) -> bool {
        self.disputes.contains_key(trx_id) && self.disputes[trx_id].record_type
            == RecordType::Dispute
    }

    /// Whether a transaction is on record as a deposit.
    pub open spec fn has_deposit(self, trx_id: u16) -> bool {
        self.transactions.contains_key(trx_id) && self.transactions[trx_id].record_type
            == RecordType::Deposit
    }

    /// A deposit needs an amount, and the new balance must be one that can
    /// be held.
    pub open spec fn deposit_accepted(self, record: Record) -> bool {
        record.amount is Some && representable(self.available + record.amount->0)
    }

    /// A withdrawal needs an amount that the available funds cover.
    pub open spec fn withdrawal_accepted(self, record: Record) -> bool {
        record.amount is Some && self.available - record.amount->0 >= 0
    }

    /// A dispute needs a deposit on record under the same transaction id;
    /// the moved amount must leave both balances ones that can be held.
    pub open spec fn dispute_accepted(self, record: Record) -> bool {
        &&& self.has_deposit(record.trx_id)
        &&& self.recorded_amount(record.trx_id) matches Some(amount)
        &&& representable(self.available - amount)
        &&& representable(self.held + amount)
    }

    /// A resolve needs an open dispute whose transaction is still on record
    /// with an amount; the moved amount must leave both balances ones that
    /// can be held.
    pub open spec fn resolve_accepted(self, record: Record) -> bool {
        &&& self.has_open_dispute(record.trx_id)
        &&& self.recorded_amount(record.trx_id) matches Some(amount)
        &&& representable(self.available + amount)
        &&& representable(self.held - amount)
    }

    /// A chargeback needs what a resolve needs of the dispute, and the held
    /// balance must stay one that can be held.
    pub open spec fn chargeback_accepted(self, record: Record) -> bool {
        &&& self.has_open_dispute(record.trx_id)
        &&& self.recorded_amount(record.trx_id) matches Some(amount)
        &&& representable(self.held - amount)
    }

    /// Whether the record's own rule lets it through, the lock left aside.
    pub open spec fn rule_accepts(self, record: Record) -> bool {
        match record.record_type {
            RecordType::Deposit => self.deposit_accepted(record),
            RecordType::Withdrawal => self.withdrawal_accepted(record),
            RecordType::Dispute => self.dispute_accepted(record),
            RecordType::Resolve => self.resolve_accepted(record),
            RecordType::Chargeback => self.chargeback_accepted(record),
            RecordType::Invalid => false,
            RecordType::Finished => false,
        }
    }

    /// Whether the record has any effect: the account is not locked and the
    /// record's own rule lets it through.
    pub open spec fn accepts(self, record: Record) -> bool {
        !self.locked && self.rule_accepts(record)
    }

    /// The balances and the lock after an accepted record; the two maps are
    /// as before.
    pub open spec fn moved(self, record: Record) -> AccountState {
        let amount: int = match record.record_type {
            RecordType::Deposit | RecordType::Withdrawal => record.amount->0 as int,
            _ => self.recorded_amount(record.trx_id)->0 as int,
        };
        match record.record_type {
            RecordType::Deposit => AccountState { available: self.available + amount, ..self },
            RecordType::Withdrawal => AccountState { available: self.available - amount, ..self },
            RecordType::Dispute => AccountState {
                available: self.available - amount,
                held: self.held + amount,
                ..self
            },
            RecordType::Resolve => AccountState {
                available: self.available + amount,
                held: self.held - amount,
                ..self
            },
            RecordType::Chargeback => AccountState {
                held: self.held - amount,
                locked: true,
                ..self
            },
            RecordType::Invalid => self,
            RecordType::Finished => self,
        }
    }

    /// The two maps after an accepted record: deposits and withdrawals go on
    /// record as transactions, disputes and resolves take the place of any
    /// earlier entry for the disputed transaction, a chargeback is not kept.
    pub open spec fn filed(self, record: Record) -> AccountState {
        match record.record_type {
            RecordType::Deposit | RecordType::Withdrawal => AccountState {
                transactions: self.transactions.insert(record.trx_id, record),
                ..self
            },
            RecordType::Dispute | RecordType::Resolve => AccountState {
                disputes: self.disputes.insert(record.trx_id, record),
                ..self
            },
            _ => self,
        }
    }

    /// The state after one record: unchanged where the record is not
    /// accepted, else with the funds moved and the record filed.
    pub open spec fn step(self, record: Record) -> AccountState {
        if self.accepts(record) {
            self.moved(record).filed(record)
        } else {
            self
        }
    }

    /// The state after a sequence of records, taken in order.
    pub open spec fn run(self, records: Seq<Record>) -> AccountState
        decreases records.len(),
    {
        if records.len() == 0 {
            self
        } else {
            self.run(records.drop_last()).step(records.last())
        }
    }

    /// The account as one line of a report: the client, the available, held
    /// and total funds with four digits behind the point, and the lock.
    pub open spec fn snapshot(self) -> Seq<char> {
        decimal(self.id as nat) + seq![',', ' '] + fixed4(self.available) + seq![',', ' ']
            + fixed4(self.held) + seq![',', ' '] + fixed4(self.total()) + seq![',', ' '] + (
        if self.locked {
            seq!['t', 'r', 'u', 'e']
        } else {
            seq!['f', 'a', 'l', 's', 'e']
        })
    }

    /// Every open dispute still finds its transaction on record with an
    /// amount.
    pub open spec fn consistent(self) -> bool {
        forall|trx_id: u16| #[trigger]
            self.has_open_dispute(trx_id) ==> self.recorded_amount(trx_id) is Some
    }
}

/// One client's ledger: free and held funds in ten-thousandths of a unit,
/// the lock, the deposits and withdrawals on record and the disputes raised
/// against them.
pub struct Account {
    pub id: u16,
    pub available: i64,
    pub held: i64,
    pub locked: bool,
    pub transactions: HashMap<u16, Record>,
    pub disputes: HashMap<u16, Record>,
}

impl View for Account {
    type V = AccountState;

    open spec fn view(&self) -> AccountState {
        AccountState {
            id: self.id,
            available: self.available as int,
            held: self.held as int,
            locked: self.locked,
            transactions: self.transactions@,
            disputes: self.disputes@,
        }
    }
}

impl Account {
    /// The balances of an account can be held, whatever it has been through.
    pub proof fn lemma_bounded(&self)
        ensures
            self@.bounded(),
    {
    }

    /// An account with no funds, no history and no lock.
    pub fn new(id: u16) -> (account: Account)
        ensures
            account@ == AccountState::fresh(id),
    {
        Account {
            id,
            available: 0,
            held: 0,
            locked: false,
            transactions: HashMap::<u16, Record>::new(),
            disputes: HashMap::<u16, Record>::new(),
        }
    }

    /// All the client's funds, free or held.
    pub fn total(&self) -> (total: i128)
        ensures
            total == self@.total(),
    {
        self.available as i128 + self.held as i128
    }

    /// The account as one line of a report.
    pub fn snapshot(&self) -> (line: String)
        ensures
            line@ == self@.snapshot(),
    {
        proof {
            reveal_strlit(", ");
            reveal_strlit("true");
            reveal_strlit("false");
        }
        let mut line = String::new();
        append_decimal(&mut line, self.id as u128);
        line.append(", ");
        append_fixed4(&mut line, self.available as i128);
        line.append(", ");
        append_fixed4(&mut line, self.held as i128);
        line.append(", ");
        append_fixed4(&mut line, self.total());
        line.append(", ");
        line.append(if self.locked { "true" } else { "false" });
        assert(line@ =~= self@.snapshot());
        line
    }

    /// Applies one record. A locked account ignores it, and so does an account
    /// whose rules reject it; an accepted record moves the funds and is filed.
    pub fn process(&mut self, record: Record)
        ensures
            final(self)@ == old(self)@.step(record),
    {
        if self.locked {
            return ;
        }
        if !self.process_record(&record) {
            return ;
        }
        match record.record_type {
            RecordType::Dispute | RecordType::Resolve => {
                self.disputes.insert(record.trx_id, record);
            },
            RecordType::Deposit | RecordType::Withdrawal => {
                self.transactions.insert(record.trx_id, record);
            },
            _ => {},
        }
    }

    /// Moves the funds as the record's kind asks and says whether the record
    /// was accepted; a rejected record moves nothing.
    pub fn process_record(&mut self, record: &Record) -> (accepted: bool)
        ensures
            accepted == old(self)@.rule_accepts(*record),
            final(self)@ == if accepted {
                old(self)@.moved(*record)
            } else {
                old(self)@
            },
    {
        match record.record_type {
            RecordType::Deposit => self.deposit(record),
            RecordType::Withdrawal => self.withdrawal(record),
            RecordType::Dispute => self.dispute(record),
            RecordType::Resolve => self.resolve(record),
            RecordType::Chargeback => self.chargeback(record),
            RecordType::Invalid => false,
            RecordType::Finished => false,
        }
    }

    /// The amount on record for a transaction, if there is one.
    pub fn recorded_amount(&self, trx_id: u16) -> (amount: Option<u64>)
        ensures
            amount == self@.recorded_amount(trx_id),
    {
        match self.transactions.get(&trx_id) {
            Some(recorded) => recorded.amount,
            None => None,
        }
    }

    /// Whether a transaction is on record as a deposit.
    pub fn has_deposit(&self, trx_id: u16) -> (found: bool)
        ensures
            found == self@.has_deposit(trx_id),
    {
        match self.transactions.get(&trx_id) {
            Some(recorded) => recorded.record_type == RecordType::Deposit,
            None => false,
        }
    }

    /// Whether a transaction is under dispute and not yet settled.
    pub fn has_open_dispute(&self, trx_id: u16) -> (found: bool)
        ensures
            found == self@.has_open_dispute(trx_id),
    {
        match self.disputes.get(&trx_id) {
            Some(disputed) => disputed.record_type == RecordType::Dispute,
            None => false,
        }
    }

    /// Adds the record's amount to the available funds.
    pub fn deposit(&mut self, record: &Record) -> (accepted: bool)
        ensures
            accepted == old(self)@.deposit_accepted(*record),
            accepted ==> final(self)@ == (AccountState {
                available: old(self)@.available + record.amount->0,
                ..old(self)@
            }),
            !accepted ==> final(self)@ == old(self)@,
    {
        let amount: u64 = match record.amount {
            Some(amount) => amount,
            None => { return false; },
        };
        let raised: i128 = self.available as i128 + amount as i128;
        if raised > i64::MAX as i128 {
            return false;
        }
        self.available = raised as i64;
        true
    }

    /// Takes the record's amount from the available funds, if they cover it.
    pub fn withdrawal(&mut self, record: &Record) -> (accepted: bool)
        ensures
            accepted == old(self)@.withdrawal_accepted(*record),
            accepted ==> final(self)@ == (AccountState {
                available: old(self)@.available - record.amount->0,
                ..old(self)@
            }),
            !accepted ==> final(self)@ == old(self)@,
    {
        let amount: u64 = match record.amount {
            Some(amount) => amount,
            None => { return false; },
        };
        let lowered: i128 = self.available as i128 - amount as i128;
        if lowered < 0 {
            return false;
        }
        self.available = lowered as i64;
        true
    }

    /// Moves the amount of a deposit on record from the available funds to
    /// the held ones.
    pub fn dispute(&mut self, record: &Record) -> (accepted: bool)
        ensures
            accepted == old(self)@.dispute_accepted(*record),
            accepted ==> final(self)@ == (AccountState {
                available: old(self)@.available - old(self)@.recorded_amount(record.trx_id)->0,
                held: old(self)@.held + old(self)@.recorded_amount(record.trx_id)->0,
                ..old(self)@
            }),
            !accepted ==> final(self)@ == old(self)@,
    {
        if !self.has_deposit(record.trx_id) {
            return false;
        }
        let amount: u64 = match self.recorded_amount(record.trx_id) {
            Some(amount) => amount,
            None => { return false; },
        };
        let lowered: i128 = self.available as i128 - amount as i128;
        let raised: i128 = self.held as i128 + amount as i128;
        if lowered < i64::MIN as i128 || raised > i64::MAX as i128 {
            return false;
        }
        self.available = lowered as i64;
        self.held = raised as i64;
        true
    }

    /// Moves the amount of a disputed transaction back from the held funds
    /// to the available ones.
    pub fn resolve(&mut self, record: &Record) -> (accepted: bool)
        ensures
            accepted == old(self)@.resolve_accepted(*record),
            accepted ==> final(self)@ == (AccountState {
                available: old(self)@.available + old(self)@.recorded_amount(record.trx_id)->0,
                held: old(self)@.held - old(self)@.recorded_amount(record.trx_id)->0,
                ..old(self)@
            }),
            !accepted ==> final(self)@ == old(self)@,
    {
        if !self.has_open_dispute(record.trx_id) {
            return false;
        }
        let amount: u64 = match self.recorded_amount(record.trx_id) {
            Some(amount) => amount,
            None => { return false; },
        };
        let raised: i128 = self.available as i128 + amount as i128;
        let lowered: i128 = self.held as i128 - amount as i128;
        if raised > i64::MAX as i128 || lowered < i64::MIN as i128 {
            return false;
        }
        self.available = raised as i64;
        self.held = lowered as i64;
        true
    }

    /// Takes the amount of a disputed transaction out of the held funds for
    /// good and locks the account.
    pub fn chargeback(&mut self, record: &Record) -> (accepted: bool)
        ensures
            accepted == old(self)@.chargeback_accepted(*record),
            accepted ==> final(self)@ == (AccountState {
                held: old(self)@.held - old(self)@.recorded_amount(record.trx_id)->0,
                locked: true,
                ..old(self)@
            }),
            !accepted ==> final(self)@ == old(self)@,
    {
        if !self.has_open_dispute(record.trx_id) {
            return false;
        }
        let amount: u64 = match self.recorded_amount(record.trx_id) {
            Some(amount) => amount,
            None => { return false; },
        };
        let lowered: i128 = self.held as i128 - amount as i128;
        if lowered < i64::MIN as i128 {
            return false;
        }
        self.held = lowered as i64;
        self.locked = true;
        true
    }
}

} // verus!
