//! The records that drive the engine.

use crate::decimal::{append_decimal, append_fixed4, decimal, fixed4};
use vstd::prelude::*;

verus! {

/// The kind of a record.
///
/// `Invalid` marks a row that could not be read and `Finished` marks the end
/// of the input; neither is a transaction.
#[derive(Clone, Copy, Debug, PartialEq, Eq, Structural)]
pub enum RecordType {
    Deposit,
    Withdrawal,
    Dispute,
    Resolve,
    Chargeback,
    Invalid,
    Finished,
}

/// One line of input: a kind, the client and transaction it names, and an
/// amount in ten-thousandths of a unit where the kind carries one.
#[derive(Clone, Copy, Debug, PartialEq, Eq)]
pub struct Record {
    pub record_type: RecordType,
    pub client_id: u16,
    pub trx_id: u16,
    pub amount: Option<u64>,
}

impl RecordType {
    /// Whether a record of this kind is a transaction, as opposed to one of
    /// the two sentinels.
    pub open spec fn is_transaction(self) -> bool {
        self != RecordType::Invalid && self != RecordType::Finished
    }

    /// The kind's name as it is written out.
    pub open spec fn spec_name(self) -> Seq<char> {
        match self {
            RecordType::Deposit => "Deposit"@,
            RecordType::Withdrawal => "Withdrawal"@,
            RecordType::Dispute => "Dispute"@,
            RecordType::Resolve => "Resolve"@,
            RecordType::Chargeback => "Chargeback"@,
            RecordType::Invalid => "Invalid"@,
            RecordType::Finished => "Finished"@,
        }
    }

    /// The kind's name as it is written out.
    pub fn name(&self) -> (text: &'static str)
        ensures
            text@ == self.spec_name(),
    {
        match self {
            RecordType::Deposit => "Deposit",
            RecordType::Withdrawal => "Withdrawal",
            RecordType::Dispute => "Dispute",
            RecordType::Resolve => "Resolve",
            RecordType::Chargeback => "Chargeback",
            RecordType::Invalid => "Invalid",
            RecordType::Finished => "Finished",
        }
    }
}

impl Record {
    /// The record that stands for an unreadable row.
    pub open spec fn spec_default() -> Record {
        Record {
            record_type: RecordType::Invalid,
            client_id: u16::MAX,
            trx_id: u16::MAX,
            amount: None,
        }
    }

    /// The record that ends the input.
    pub open spec fn spec_finished() -> Record {
        Record { record_type: RecordType::Finished, ..Record::spec_default() }
    }

    /// The record as a line of text: its kind, client and transaction, and
    /// its amount in units where it has one.
    pub open spec fn spec_text(self) -> Seq<char> {
        self.record_type.spec_name() + seq![',', ' '] + decimal(self.client_id as nat) + seq![
            ',',
            ' ',
        ] + decimal(self.trx_id as nat) + seq![',', ' '] + match self.amount {
            Some(amount) => seq!['S', 'o', 'm', 'e', '('] + fixed4(amount as int) + seq![')'],
            None => seq!['N', 'o', 'n', 'e'],
        }
    }

    /// The record as a line of text.
    pub fn text(&self) -> (line: String)
        ensures
            line@ == self.spec_text(),
    {
        proof {
            reveal_strlit(", ");
            reveal_strlit("Some(");
            reveal_strlit(")");
            reveal_strlit("None");
        }
        let mut line = String::from_str(self.record_type.name());
        line.append(", ");
        append_decimal(&mut line, self.client_id as u128);
        line.append(", ");
        append_decimal(&mut line, self.trx_id as u128);
        line.append(", ");
        match self.amount {
            Some(amount) => {
                line.append("Some(");
                append_fixed4(&mut line, amount as i128);
                line.append(")");
            },
            None => {
                line.append("None");
            },
        }
        assert(line@ =~= self.spec_text());
        line
    }

    /// The record that stands for an unreadable row.
    pub fn default() -> (record: Record)
        ensures
            record == Record::spec_default(),
    {
        Record {
            record_type: RecordType::Invalid,
            client_id: u16::MAX,
            trx_id: u16::MAX,
            amount: None,
        }
    }

    /// The record that ends the input.
    pub fn finished() -> (record: Record)
        ensures
            record == Record::spec_finished(),
    {
        Record { record_type: RecordType::Finished, ..Record::default() }
    }
}

} // verus!
