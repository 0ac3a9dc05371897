//! The record source: comma-separated text in, records out.
//!
//! The first row names the columns. Of the rows behind it, each one that can
//! be read gives a record; the others are dropped. A `Finished` record ends
//! the list.

use crate::field::{
    amount, bytes_of, kind_named, number, is_word, parse_amount, parse_kind, parse_number,
};
use crate::record::Record;
use vstd::prelude::*;

verus! {

/// The rows of a comma-separated text, in order, the first row included;
/// each row is its fields with the white space around them removed, or
/// `None` where the row could not be split or is not valid UTF-8.
pub uninterp spec fn csv_table(input: Seq<u8>) -> Seq<Option<Seq<Seq<u8>>>>;

/// Splits comma-separated text into rows of fields with `csv::Reader`, set
/// up by `csv::ReaderBuilder` to trim all fields and to hand out the first
/// row like any other. The rows come from `Reader::records`: a row that the
/// reader reports an error for stands as `None`. Trusted: that the outcome
/// depends on the text alone.
#[verifier::external_body]
fn read_table(input: &[u8]) -> (table: Vec<Option<Vec<Vec<u8>>>>)
    ensures
        table.deep_view() == csv_table(input@),
{
    let mut reader = csv::ReaderBuilder::new().trim(csv::Trim::All).has_headers(false).from_reader(
        input,
    );
    reader.records().map(
        |row| match row {
            Ok(fields) => Some(fields.iter().map(|field| field.as_bytes().to_vec()).collect()),
            Err(_) => None,
        },
    ).collect()
}

/// Whether `at` is where the first column named `word` stands in `header`,
/// or the length of `header` if there is none.
pub open spec fn is_column_at(header: Seq<Seq<u8>>, word: Seq<char>, at: int) -> bool {
    &&& 0 <= at <= header.len()
    &&& forall|i: int| 0 <= i < at ==> #[trigger] header[i] != bytes_of(word)
    &&& at < header.len() ==> header[at] == bytes_of(word)
}

/// Where the first column named `word` stands in `header`, or the length of
/// `header` if there is none.
pub open spec fn column(header: Seq<Seq<u8>>, word: Seq<char>) -> int {
    choose|at: int| is_column_at(header, word, at)
}

/// The first column of a name is one column only.
pub proof fn lemma_column(header: Seq<Seq<u8>>, word: Seq<char>, at: int)
    requires
        is_column_at(header, word, at),
    ensures
        column(header, word) == at,
{
    let other = column(header, word);
    assert(is_column_at(header, word, other));
    if other < at {
        assert(header[other] != bytes_of(word));
    } else if at < other {
        assert(header[at] != bytes_of(word));
    }
}

/// The fields of a row of bytes are the row's own bytes.
pub proof fn lemma_row_fields(row: &Vec<Vec<u8>>)
    ensures
        row.deep_view().len() == row@.len(),
        forall|i: int| 0 <= i < row@.len() ==> #[trigger] row.deep_view()[i] == row@[i]@,
{
    assert forall|i: int| 0 <= i < row@.len() implies #[trigger] row.deep_view()[i] == row@[i]@ by {
        assert(row@[i].deep_view() =~= row@[i]@);
    }
}

/// Where the columns that a record is read from stand in a row; a column
/// that the header does not name stands at `width`.
#[derive(Clone, Copy, Debug)]
pub struct Columns {
    pub width: usize,
    pub kind: usize,
    pub client: usize,
    pub trx: usize,
    pub amount: usize,
}

impl Columns {
    /// The columns that a header names: `type`, `client`, `tx`, `amount`.
    pub open spec fn of(header: Seq<Seq<u8>>) -> Columns {
        Columns {
            width: header.len() as usize,
            kind: column(header, "type"@) as usize,
            client: column(header, "client"@) as usize,
            trx: column(header, "tx"@) as usize,
            amount: column(header, "amount"@) as usize,
        }
    }

    /// The amount of a row: none where there is no such column or the field
    /// is empty.
    pub open spec fn amount_of(self, row: Seq<Seq<u8>>) -> Option<u64> {
        if self.amount < row.len() && row[self.amount as int].len() > 0 {
            amount(row[self.amount as int])
        } else {
            None
        }
    }

    /// Whether the amount of a row can be read: there is no such column, or
    /// the field is empty, or it writes an amount.
    pub open spec fn amount_is_readable(self, row: Seq<Seq<u8>>) -> bool {
        self.amount < row.len() && row[self.amount as int].len() > 0 ==> amount(
            row[self.amount as int],
        ) is Some
    }

    /// The record that a row gives, if the row can be read: it is as wide as
    /// the header, which names a kind, a client and a transaction, its kind
    /// has a name, its identifiers are numbers of 16 bits, and its amount,
    /// if it has one, can be read.
    pub open spec fn record(self, row: Seq<Seq<u8>>) -> Option<Record> {
        if row.len() == self.width && self.kind < self.width && self.client < self.width
            && self.trx < self.width && self.amount_is_readable(row) {
            match (
                kind_named(row[self.kind as int]),
                number(row[self.client as int], 65535),
                number(row[self.trx as int], 65535),
            ) {
                (Some(kind), Some(client_id), Some(trx_id)) => Some(
                    Record {
                        record_type: kind,
                        client_id: client_id as u16,
                        trx_id: trx_id as u16,
                        amount: self.amount_of(row),
                    },
                ),
                _ => None,
            }
        } else {
            None
        }
    }

    /// Finds the first column of a name in a header.
    pub fn find(header: &Vec<Vec<u8>>, word: &str) -> (at: usize)
        requires
            word.is_ascii(),
        ensures
            at == column(header.deep_view(), word@),
            at <= header.len(),
    {
        let mut at: usize = 0;
        proof {
            lemma_row_fields(header);
        }
        while at < header.len()
            invariant
                at <= header.len(),
                word.is_ascii(),
                header.deep_view().len() == header@.len(),
                forall|i: int| 0 <= i < header@.len() ==> #[trigger] header.deep_view()[i] == header@[i]@,
                forall|i: int| 0 <= i < at ==> #[trigger] header.deep_view()[i] != bytes_of(word@),
            decreases header.len() - at,
        {
            if is_word(header[at].as_slice(), word) {
                proof {
                    lemma_column(header.deep_view(), word@, at as int);
                }
                return at;
            }
            at = at + 1;
        }
        proof {
            lemma_column(header.deep_view(), word@, at as int);
        }
        at
    }

    /// Finds the columns that a header names.
    pub fn locate(header: &Vec<Vec<u8>>) -> (columns: Columns)
        ensures
            columns == Columns::of(header.deep_view()),
    {
        proof {
            reveal_strlit("type");
            reveal_strlit("client");
            reveal_strlit("tx");
            reveal_strlit("amount");
        }
        Columns {
            width: header.len(),
            kind: Columns::find(header, "type"),
            client: Columns::find(header, "client"),
            trx: Columns::find(header, "tx"),
            amount: Columns::find(header, "amount"),
        }
    }

    /// Reads the record of a row, if the row can be read.
    pub fn read(&self, row: &Vec<Vec<u8>>) -> (record: Option<Record>)
        ensures
            record == self.record(row.deep_view()),
    {
        proof {
            lemma_row_fields(row);
        }
        if row.len() != self.width || self.kind >= self.width || self.client >= self.width
            || self.trx >= self.width {
            return None;
        }
        let amount: Option<u64> = if self.amount < row.len() && row[self.amount].len() > 0 {
            match parse_amount(row[self.amount].as_slice()) {
                Some(amount) => Some(amount),
                None => { return None; },
            }
        } else {
            None
        };
        let kind = match parse_kind(row[self.kind].as_slice()) {
            Some(kind) => kind,
            None => { return None; },
        };
        let client_id = match parse_number(row[self.client].as_slice(), 65535) {
            Some(client_id) => client_id,
            None => { return None; },
        };
        let trx_id = match parse_number(row[self.trx].as_slice(), 65535) {
            Some(trx_id) => trx_id,
            None => { return None; },
        };
        Some(Record { record_type: kind, client_id: client_id as u16, trx_id: trx_id as u16, amount })
    }
}

/// The records of the rows of `table` from the second up to, but without,
/// row `upto`, read by the columns of `header`; rows that cannot be read
/// give none.
pub open spec fn records_upto(
    header: Seq<Seq<u8>>,
    table: Seq<Option<Seq<Seq<u8>>>>,
    upto: nat,
) -> Seq<Record>
    decreases upto,
{
    if upto <= 1 {
        Seq::empty()
    } else {
        let earlier = records_upto(header, table, (upto - 1) as nat);
        match table[upto - 1] {
            Some(row) => match Columns::of(header).record(row) {
                Some(record) => earlier.push(record),
                None => earlier,
            },
            None => earlier,
        }
    }
}

/// The records that a table gives: those of its readable rows, in order,
/// read by the columns that its first row names, and `Finished` at the end.
/// A table without a readable first row gives `Finished` alone.
pub open spec fn table_records(table: Seq<Option<Seq<Seq<u8>>>>) -> Seq<Record> {
    if table.len() > 0 && table[0] is Some {
        records_upto(table[0]->0, table, table.len()).push(Record::spec_finished())
    } else {
        seq![Record::spec_finished()]
    }
}

/// Reads the records of a table of rows.
pub fn records_of_table(table: &Vec<Option<Vec<Vec<u8>>>>) -> (records: Vec<Record>)
    ensures
        records@ == table_records(table.deep_view()),
{
    let mut records: Vec<Record> = Vec::new();
    if table.len() > 0 {
        if let Some(header) = &table[0] {
            let columns = Columns::locate(header);
            let mut next: usize = 1;
            while next < table.len()
                invariant
                    1 <= next <= table.len(),
                    table@[0] == Some(*header),
                    columns == Columns::of(header.deep_view()),
                    records@ == records_upto(header.deep_view(), table.deep_view(), next as nat),
                decreases table.len() - next,
            {
                if let Some(row) = &table[next] {
                    if let Some(record) = columns.read(row) {
                        records.push(record);
                    }
                }
                next = next + 1;
            }
        }
    }
    records.push(Record::finished());
    records
}

/// The record source: it holds comma-separated text and reads the records
/// out of it.
pub struct CSVParser {
    pub input: Vec<u8>,
}

impl CSVParser {
    /// A source for the given text.
    pub fn new(input: Vec<u8>) -> (parser: CSVParser)
        ensures
            parser.input == input,
    {
        CSVParser { input }
    }

    /// Reads all records of the text: one for each row behind the header
    /// that can be read, in order, and `Finished` at the end.
    pub fn parse_records(&self) -> (records: Vec<Record>)
        ensures
            records@ == table_records(csv_table(self.input@)),
    {
        let table = read_table(self.input.as_slice());
        records_of_table(&table)
    }
}

} // verus!
