//! The dispatcher: one ledger per client, fed by records in arrival order.

use crate::account::{Account, AccountState};
use crate::record::{Record, RecordType};
use std::collections::HashMap;
use vstd::prelude::*;

verus! {

broadcast use vstd::std_specs::hash::group_hash_axioms;

/// The ledgers of all clients seen so far, as mathematical content.
pub type Ledgers = Map<u16, AccountState>;

/// A client's ledger: the one on file, or an empty one for a client not yet
/// seen.
pub open spec fn ledger_of(ledgers: Ledgers, client_id: u16) -> AccountState {
    if ledgers.contains_key(client_id) {
        ledgers[client_id]
    } else {
        AccountState::fresh(client_id)
    }
}

/// The ledgers after one record: a transaction goes to its client's ledger,
/// which is opened if need be; the two sentinels touch nothing.
pub open spec fn routed(ledgers: Ledgers, record: Record) -> Ledgers {
    if record.record_type.is_transaction() {
        ledgers.insert(record.client_id, ledger_of(ledgers, record.client_id).step(record))
    } else {
        ledgers
    }
}

/// The ledgers after a sequence of records, taken in order.
pub open spec fn routed_all(ledgers: Ledgers, records: Seq<Record>) -> Ledgers
    decreases records.len(),
{
    if records.len() == 0 {
        ledgers
    } else {
        routed(routed_all(ledgers, records.drop_last()), records.last())
    }
}

/// Whether every ledger is filed under its own client.
pub open spec fn filed_by_client(ledgers: Ledgers) -> bool {
    forall|client_id: u16| #[trigger]
        ledgers.contains_key(client_id) ==> ledgers[client_id].id == client_id
}

/// The first line of every report.
pub open spec fn header() -> Seq<char> {
    "client, available, held, total, locked"@
}

/// The lines of the clients below `bound`, in ascending order of client.
pub open spec fn lines_below(ledgers: Ledgers, bound: nat) -> Seq<Seq<char>>
    decreases bound,
{
    if bound == 0 {
        Seq::empty()
    } else {
        let client_id = (bound - 1) as u16;
        let earlier = lines_below(ledgers, (bound - 1) as nat);
        if ledgers.contains_key(client_id) {
            earlier.push(ledgers[client_id].snapshot())
        } else {
            earlier
        }
    }
}

/// The report: the header, then one line for each client on file, in
/// ascending order of client.
pub open spec fn report(ledgers: Ledgers) -> Seq<Seq<char>> {
    seq![header()] + lines_below(ledgers, 65536)
}

/// The texts of a list of lines.
pub open spec fn texts(lines: Seq<String>) -> Seq<Seq<char>> {
    lines.map_values(|line: String| line@)
}

/// Whether `count` is where a run over `records` ends: at the first
/// `Finished` record, or behind the last record if there is none.
pub open spec fn ends_at(records: Seq<Record>, count: int) -> bool {
    &&& 0 <= count <= records.len()
    &&& forall|i: int| 0 <= i < count ==> (#[trigger] records[i]).record_type != RecordType::Finished
    &&& count < records.len() ==> records[count].record_type == RecordType::Finished
}

/// How many records a run over `records` takes in before it ends.
pub open spec fn taken(records: Seq<Record>) -> int {
    choose|count: int| ends_at(records, count)
}

/// A run ends in one place only.
pub proof fn lemma_ends_once(records: Seq<Record>, count: int)
    requires
        ends_at(records, count),
    ensures
        taken(records) == count,
{
    let other = taken(records);
    assert(ends_at(records, other));
    if other < count {
        assert(records[other].record_type != RecordType::Finished);
    } else if count < other {
        assert(records[count].record_type != RecordType::Finished);
    }
}

/// The dispatcher: it owns one account per client and routes each record to
/// the account of the client that the record names.
pub struct Calculator {
    pub accounts: HashMap<u16, Account>,
}

impl View for Calculator {
    type V = Ledgers;

    open spec fn view(&self) -> Ledgers {
        self.accounts@.map_values(|account: Account| account@)
    }
}

impl Calculator {
    /// A dispatcher with no account.
    pub fn new() -> (calculator: Calculator)
        ensures
            calculator@ == Ledgers::empty(),
    {
        let calculator = Calculator { accounts: HashMap::<u16, Account>::new() };
        assert(calculator@ =~= Ledgers::empty());
        calculator
    }

    /// Routes one record to the account of its client, opening the account
    /// if it is the client's first; a record that is no transaction is
    /// dropped.
    pub fn calculate(&mut self, record: Record)
        ensures
            final(self)@ == routed(old(self)@, record),
    {
        match record.record_type {
            RecordType::Invalid | RecordType::Finished => {
                return ;
            },
            _ => {},
        }
        let client_id = record.client_id;
        self.accounts.entry(client_id).or_insert(Account::new(client_id)).process(record);
        assert(self@ =~= routed(old(self)@, record));
    }

    /// The report on all accounts: the header, then each account's line, in
    /// ascending order of client.
    pub fn finish(&self) -> (lines: Vec<String>)
        ensures
            texts(lines@) == report(self@),
    {
        let mut lines: Vec<String> = Vec::new();
        lines.push(Self::print_header());
        assert(texts(lines@) =~= seq![header()]);
        let mut next: u32 = 0;
        while next < 65536
            invariant
                next <= 65536,
                texts(lines@) == seq![header()] + lines_below(self@, next as nat),
            decreases 65536 - next,
        {
            let client_id = next as u16;
            let ghost earlier = lines@;
            match self.accounts.get(&client_id) {
                Some(account) => {
                    let line = account.snapshot();
                    lines.push(line);
                    proof {
                        assert(self@.contains_key(client_id));
                        assert(self@[client_id] == account@);
                        assert(texts(lines@) =~= texts(earlier).push(line@));
                        assert(texts(lines@) =~= seq![header()] + lines_below(
                            self@,
                            (next + 1) as nat,
                        ));
                    }
                },
                None => {
                    proof {
                        assert(!self@.contains_key(client_id));
                    }
                },
            }
            next = next + 1;
        }
        lines
    }

    /// The first line of every report.
    pub fn print_header() -> (line: String)
        ensures
            line@ == header(),
    {
        String::from_str("client, available, held, total, locked")
    }

    /// Takes in one record. `Finished` brings the report on all accounts and
    /// changes nothing; any other record is routed and brings no report.
    pub fn accept(&mut self, record: Record) -> (lines: Option<Vec<String>>)
        ensures
            final(self)@ == routed(old(self)@, record),
            lines is Some <==> record.record_type == RecordType::Finished,
            lines matches Some(lines) ==> texts(lines@) == report(old(self)@),
    {
        match record.record_type {
            RecordType::Finished => Some(self.finish()),
            _ => {
                self.calculate(record);
                None
            },
        }
    }

    /// Takes in records in order until the first `Finished`, which brings the
    /// report on all accounts; what stands behind it is not looked at. Where
    /// no `Finished` comes, all records are routed and there is no report.
    pub fn run(&mut self, records: &Vec<Record>) -> (lines: Option<Vec<String>>)
        ensures
            final(self)@ == routed_all(old(self)@, records@.take(taken(records@))),
            lines is Some <==> taken(records@) < records.len(),
            lines matches Some(lines) ==> texts(lines@) == report(final(self)@),
    {
        let mut done: usize = 0;
        assert(records@.take(0) =~= Seq::empty());
        while done < records.len()
            invariant
                done <= records.len(),
                forall|i: int| 0 <= i < done ==> (#[trigger] records@[i]).record_type != RecordType::Finished,
                self@ == routed_all(old(self)@, records@.take(done as int)),
            decreases records.len() - done,
        {
            let record = records[done];
            let lines = self.accept(record);
            if lines.is_some() {
                proof {
                    lemma_ends_once(records@, done as int);
                }
                return lines;
            }
            proof {
                assert(records@.take(done + 1).drop_last() =~= records@.take(done as int));
            }
            done = done + 1;
        }
        proof {
            lemma_ends_once(records@, done as int);
        }
        None
    }
}

} // verus!
