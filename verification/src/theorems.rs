//! What holds of every account, proved from the rules in [`crate::account`].

use crate::account::{representable, AccountState};
use crate::calculator::{filed_by_client, ledger_of, routed, routed_all, Ledgers};
use crate::record::{Record, RecordType};
use vstd::prelude::*;

verus! {

impl AccountState {
    /// The sum of the deposits that were accepted when `records` ran from
    /// this state.
    pub open spec fn deposited(self, records: Seq<Record>) -> int
        decreases records.len(),
    {
        if records.len() == 0 {
            0
        } else {
            let before = self.run(records.drop_last());
            let last = records.last();
            self.deposited(records.drop_last()) + if last.record_type == RecordType::Deposit
                && before.accepts(last) {
                last.amount->0 as int
            } else {
                0
            }
        }
    }

    /// The sum of the withdrawals that were accepted when `records` ran from
    /// this state.
    pub open spec fn withdrawn(self, records: Seq<Record>) -> int
        decreases records.len(),
    {
        if records.len() == 0 {
            0
        } else {
            let before = self.run(records.drop_last());
            let last = records.last();
            self.withdrawn(records.drop_last()) + if last.record_type == RecordType::Withdrawal
                && before.accepts(last) {
                last.amount->0 as int
            } else {
                0
            }
        }
    }

    /// The sum of the amounts that accepted chargebacks removed when
    /// `records` ran from this state.
    pub open spec fn charged_back(self, records: Seq<Record>) -> int
        decreases records.len(),
    {
        if records.len() == 0 {
            0
        } else {
            let before = self.run(records.drop_last());
            let last = records.last();
            self.charged_back(records.drop_last()) + if last.record_type == RecordType::Chargeback
                && before.accepts(last) {
                before.recorded_amount(last.trx_id)->0 as int
            } else {
                0
            }
        }
    }
}

/// A dispute record for a transaction.
pub open spec fn dispute_of(client_id: u16, trx_id: u16) -> Record {
    Record { record_type: RecordType::Dispute, client_id, trx_id, amount: None }
}

/// A resolve record for a transaction.
pub open spec fn resolve_of(client_id: u16, trx_id: u16) -> Record {
    Record { record_type: RecordType::Resolve, client_id, trx_id, amount: None }
}

/// A chargeback record for a transaction.
pub open spec fn chargeback_of(client_id: u16, trx_id: u16) -> Record {
    Record { record_type: RecordType::Chargeback, client_id, trx_id, amount: None }
}

/// A record that is not accepted changes nothing, and an accepted one
/// changes the total by its amount only where it is a deposit (up), a
/// withdrawal (down) or a chargeback (down): disputes and resolves move funds
/// between the two balances and leave their sum alone.
pub proof fn lemma_step_total(state: AccountState, record: Record)
    ensures
        !state.accepts(record) ==> state.step(record) == state,
        state.accepts(record) ==> state.step(record).total() == state.total() + (
        match record.record_type {
            RecordType::Deposit => record.amount->0 as int,
            RecordType::Withdrawal => -(record.amount->0 as int),
            RecordType::Chargeback => -(state.recorded_amount(record.trx_id)->0 as int),
            _ => 0,
        }),
{
}

/// Money is neither made nor lost: after any sequence of records the total
/// is the total before, plus the accepted deposits, minus the accepted
/// withdrawals, minus what accepted chargebacks removed.
pub proof fn lemma_money_is_conserved(state: AccountState, records: Seq<Record>)
    ensures
        state.run(records).total() == state.total() + state.deposited(records) - state.withdrawn(
            records,
        ) - state.charged_back(records),
    decreases records.len(),
{
    if records.len() > 0 {
        lemma_money_is_conserved(state, records.drop_last());
        lemma_step_total(state.run(records.drop_last()), records.last());
    }
}

/// An account that starts empty holds exactly the accepted deposits, minus
/// the accepted withdrawals, minus what accepted chargebacks removed.
pub proof fn lemma_fresh_account_total(id: u16, records: Seq<Record>)
    ensures
        AccountState::fresh(id).run(records).total() == AccountState::fresh(id).deposited(records)
            - AccountState::fresh(id).withdrawn(records) - AccountState::fresh(id).charged_back(
            records,
        ),
{
    lemma_money_is_conserved(AccountState::fresh(id), records);
}

/// A withdrawal of more than the available funds is rejected, whatever else
/// holds: balances, lock, transactions and disputes stay as they were.
pub proof fn lemma_overdraft_is_rejected(state: AccountState, record: Record)
    requires
        record.record_type == RecordType::Withdrawal,
        record.amount matches Some(amount) && amount > state.available,
    ensures
        !state.accepts(record),
        state.step(record) == state,
{
}

/// A withdrawal never leaves the available funds below zero.
pub proof fn lemma_withdrawal_keeps_available_non_negative(state: AccountState, record: Record)
    requires
        record.record_type == RecordType::Withdrawal,
        state.accepts(record),
    ensures
        state.step(record).available >= 0,
        state.step(record).available == state.available - record.amount->0,
        state.step(record).held == state.held,
{
}

/// A dispute of a transaction that is not on record, or is on record as
/// anything but a deposit, is rejected and changes nothing.
pub proof fn lemma_dispute_needs_deposit(state: AccountState, record: Record)
    requires
        record.record_type == RecordType::Dispute,
        !state.transactions.contains_key(record.trx_id) || state.transactions[record.trx_id].record_type
            != RecordType::Deposit,
    ensures
        !state.accepts(record),
        state.step(record) == state,
{
}

/// A dispute followed at once by its resolve is accepted and puts both
/// balances back exactly where they were; the transactions on record and
/// the lock are untouched.
pub proof fn lemma_dispute_then_resolve(state: AccountState, client_id: u16, trx_id: u16)
    requires
        state.bounded(),
        state.accepts(dispute_of(client_id, trx_id)),
    ensures
        state.step(dispute_of(client_id, trx_id)).accepts(resolve_of(client_id, trx_id)),
        ({
            let after = state.step(dispute_of(client_id, trx_id)).step(
                resolve_of(client_id, trx_id),
            );
            &&& after.available == state.available
            &&& after.held == state.held
            &&& after.locked == state.locked
            &&& after.transactions == state.transactions
            &&& !after.has_open_dispute(trx_id)
        }),
{
}

/// A locked account takes no record of any kind.
pub proof fn lemma_locked_ignores(state: AccountState, record: Record)
    requires
        state.locked,
    ensures
        !state.accepts(record),
        state.step(record) == state,
{
}

/// A locked account is the same after any sequence of records.
pub proof fn lemma_locked_ignores_all(state: AccountState, records: Seq<Record>)
    requires
        state.locked,
    ensures
        state.run(records) == state,
    decreases records.len(),
{
    if records.len() > 0 {
        lemma_locked_ignores_all(state, records.drop_last());
    }
}

/// A dispute followed at once by its chargeback is accepted, locks the
/// account, takes the disputed amount out of the held funds and leaves the
/// available ones as the dispute left them; whatever records follow change
/// nothing.
pub proof fn lemma_dispute_then_chargeback(
    state: AccountState,
    client_id: u16,
    trx_id: u16,
    later: Seq<Record>,
)
    requires
        state.bounded(),
        state.accepts(dispute_of(client_id, trx_id)),
    ensures
        state.step(dispute_of(client_id, trx_id)).accepts(chargeback_of(client_id, trx_id)),
        ({
            let disputed = state.step(dispute_of(client_id, trx_id));
            let after = disputed.step(chargeback_of(client_id, trx_id));
            let amount = state.recorded_amount(trx_id)->0;
            &&& after.locked
            &&& disputed.held == state.held + amount
            &&& disputed.available == state.available - amount
            &&& after.held == disputed.held - amount
            &&& after.available == disputed.available
            &&& after.total() == state.total() - amount
            &&& after.run(later) == after
        }),
{
    let after = state.step(dispute_of(client_id, trx_id)).step(chargeback_of(client_id, trx_id));
    lemma_locked_ignores_all(after, later);
}

/// A resolve or a chargeback of a transaction with no open dispute (never
/// disputed, or already resolved) is rejected and changes nothing.
pub proof fn lemma_settlement_needs_open_dispute(state: AccountState, record: Record)
    requires
        record.record_type == RecordType::Resolve || record.record_type == RecordType::Chargeback,
        !state.disputes.contains_key(record.trx_id) || state.disputes[record.trx_id].record_type
            != RecordType::Dispute,
    ensures
        !state.accepts(record),
        state.step(record) == state,
{
}

/// Once a dispute is resolved it is no longer open: a second resolve, or a
/// chargeback, of the same transaction is rejected.
pub proof fn lemma_resolved_dispute_is_closed(state: AccountState, resolve: Record, again: Record)
    requires
        resolve.record_type == RecordType::Resolve,
        state.accepts(resolve),
        again.trx_id == resolve.trx_id,
        again.record_type == RecordType::Resolve || again.record_type == RecordType::Chargeback,
    ensures
        !state.step(resolve).accepts(again),
{
}

/// Every record keeps an account consistent: an open dispute always finds
/// its transaction on record with an amount.
pub proof fn lemma_step_keeps_consistent(state: AccountState, record: Record)
    requires
        state.consistent(),
    ensures
        state.step(record).consistent(),
{
    let after = state.step(record);
    assert forall|trx_id: u16| #[trigger] after.has_open_dispute(trx_id) implies after.recorded_amount(
        trx_id,
    ) is Some by {
        if state.accepts(record) {
            if trx_id != record.trx_id {
                assert(state.has_open_dispute(trx_id));
            } else {
                match record.record_type {
                    RecordType::Deposit | RecordType::Withdrawal | RecordType::Chargeback => {
                        assert(state.has_open_dispute(trx_id));
                    },
                    _ => {},
                }
            }
        }
    }
}

/// A consistent account whose balances can be held is so after any
/// sequence of records.
pub proof fn lemma_run_keeps_consistent(state: AccountState, records: Seq<Record>)
    requires
        state.consistent(),
        state.bounded(),
    ensures
        state.run(records).consistent(),
        state.run(records).bounded(),
    decreases records.len(),
{
    if records.len() > 0 {
        lemma_run_keeps_consistent(state, records.drop_last());
        lemma_step_keeps_consistent(state.run(records.drop_last()), records.last());
    }
}

/// In a consistent account a resolve of an open dispute is rejected only
/// where the result could not be held, and a chargeback likewise.
pub proof fn lemma_open_dispute_has_amount(state: AccountState, record: Record)
    requires
        state.consistent(),
        !state.locked,
        state.has_open_dispute(record.trx_id),
    ensures
        state.recorded_amount(record.trx_id) is Some,
        record.record_type == RecordType::Resolve ==> (state.accepts(record) <==> representable(
            state.available + state.recorded_amount(record.trx_id)->0,
        ) && representable(state.held - state.recorded_amount(record.trx_id)->0)),
        record.record_type == RecordType::Chargeback ==> (state.accepts(record) <==> representable(
            state.held - state.recorded_amount(record.trx_id)->0,
        )),
{
}

/// The records of a sequence that name a given client, in order.
pub open spec fn records_of(records: Seq<Record>, client_id: u16) -> Seq<Record>
    decreases records.len(),
{
    if records.len() == 0 {
        Seq::empty()
    } else {
        let earlier = records_of(records.drop_last(), client_id);
        if records.last().client_id == client_id {
            earlier.push(records.last())
        } else {
            earlier
        }
    }
}

/// A record that is no transaction opens no ledger and changes none.
pub proof fn lemma_sentinel_is_dropped(ledgers: Ledgers, record: Record)
    requires
        record.record_type == RecordType::Invalid || record.record_type == RecordType::Finished,
    ensures
        routed(ledgers, record) == ledgers,
{
}

/// A transaction opens the ledger of its client if there is none yet, and
/// changes it as the account's rules say; the ledgers of all other clients
/// are as before.
pub proof fn lemma_record_touches_its_client_only(ledgers: Ledgers, record: Record, other: u16)
    requires
        record.record_type.is_transaction(),
    ensures
        routed(ledgers, record).contains_key(record.client_id),
        routed(ledgers, record)[record.client_id] == ledger_of(ledgers, record.client_id).step(
            record,
        ),
        other != record.client_id ==> routed(ledgers, record).contains_key(other)
            == ledgers.contains_key(other),
        other != record.client_id && ledgers.contains_key(other) ==> routed(ledgers, record)[other]
            == ledgers[other],
{
}

/// No record closes a ledger: a client on file stays on file.
pub proof fn lemma_ledgers_stay(ledgers: Ledgers, records: Seq<Record>, client_id: u16)
    requires
        ledgers.contains_key(client_id),
    ensures
        routed_all(ledgers, records).contains_key(client_id),
    decreases records.len(),
{
    if records.len() > 0 {
        lemma_ledgers_stay(ledgers, records.drop_last(), client_id);
    }
}

/// Once a client's account is locked, no record for that client changes
/// anything.
pub proof fn lemma_locked_client_is_ignored(ledgers: Ledgers, record: Record)
    requires
        ledgers.contains_key(record.client_id),
        ledgers[record.client_id].locked,
    ensures
        routed(ledgers, record) == ledgers,
{
    assert(routed(ledgers, record) =~= ledgers);
}

/// Ledgers that are each filed under their own client stay so.
pub proof fn lemma_filing_is_kept(ledgers: Ledgers, records: Seq<Record>)
    requires
        filed_by_client(ledgers),
    ensures
        filed_by_client(routed_all(ledgers, records)),
    decreases records.len(),
{
    if records.len() > 0 {
        lemma_filing_is_kept(ledgers, records.drop_last());
        let before = routed_all(ledgers, records.drop_last());
        let after = routed(before, records.last());
        assert forall|client_id: u16| #[trigger] after.contains_key(client_id) implies after[client_id].id
            == client_id by {
            if records.last().record_type.is_transaction() && client_id == records.last().client_id {
                if !before.contains_key(client_id) {
                } else {
                    assert(before[client_id].id == client_id);
                }
            } else {
                assert(before.contains_key(client_id));
            }
        }
    }
}

/// Each client's ledger is what that client's own records make of it, taken
/// in arrival order: the records of other clients have no part in it.
pub proof fn lemma_clients_are_independent(ledgers: Ledgers, records: Seq<Record>, client_id: u16)
    ensures
        ledger_of(routed_all(ledgers, records), client_id) == ledger_of(ledgers, client_id).run(
            records_of(records, client_id),
        ),
    decreases records.len(),
{
    if records.len() > 0 {
        lemma_clients_are_independent(ledgers, records.drop_last(), client_id);
        let last = records.last();
        let earlier = records_of(records.drop_last(), client_id);
        if last.client_id == client_id {
            assert(earlier.push(last).drop_last() =~= earlier);
            assert(earlier.push(last).last() == last);
        }
    }
}

/// Across the whole engine money is conserved client by client: a client's
/// total is the total before, plus the client's accepted deposits, minus the
/// accepted withdrawals, minus what accepted chargebacks removed.
pub proof fn lemma_client_money_is_conserved(ledgers: Ledgers, records: Seq<Record>, client_id: u16)
    ensures
        ({
            let before = ledger_of(ledgers, client_id);
            let own = records_of(records, client_id);
            ledger_of(routed_all(ledgers, records), client_id).total() == before.total()
                + before.deposited(own) - before.withdrawn(own) - before.charged_back(own)
        }),
{
    lemma_clients_are_independent(ledgers, records, client_id);
    lemma_money_is_conserved(ledger_of(ledgers, client_id), records_of(records, client_id));
}

} // verus!
