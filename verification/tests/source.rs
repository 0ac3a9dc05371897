use payments_engine::csvparser::{records_of_table, CSVParser, Columns};
use payments_engine::decimal::{fixed4_text, UNIT};
use payments_engine::field::{find_first, is_word, parse_amount, parse_kind, parse_number, spells_word};
use payments_engine::record::{Record, RecordType};

fn parse(text: &str) -> Vec<Record> {
    CSVParser::new(text.as_bytes().to_vec()).parse_records()
}

fn row(fields: &[&str]) -> Vec<Vec<u8>> {
    fields.iter().map(|field| field.as_bytes().to_vec()).collect()
}

fn record(record_type: RecordType, client_id: u16, trx_id: u16, amount: Option<u64>) -> Record {
    Record { record_type, client_id, trx_id, amount }
}

#[test]
fn fixed4_text_values() {
    assert_eq!("0.0000", fixed4_text(0));
    assert_eq!("0.0001", fixed4_text(1));
    assert_eq!("0.0120", fixed4_text(120));
    assert_eq!("1.0000", fixed4_text(10_000));
    assert_eq!("100.0000", fixed4_text(1_000_000));
    assert_eq!("12345.6789", fixed4_text(123_456_789));
    assert_eq!("-0.0005", fixed4_text(-5));
    assert_eq!("-1.5000", fixed4_text(-15_000));
    assert_eq!("922337203685477.5807", fixed4_text(i64::MAX as i128));
    assert_eq!("-922337203685477.5808", fixed4_text(i64::MIN as i128));
    assert_eq!("17014118346046923173168730371588410.5727", fixed4_text(i128::MAX));
    assert_eq!("-17014118346046923173168730371588410.5728", fixed4_text(i128::MIN));
    assert_eq!(10_000, UNIT);
}

#[test]
fn parse_amount_values() {
    assert_eq!(Some(10_000), parse_amount(b"1"));
    assert_eq!(Some(10_000), parse_amount(b"1."));
    assert_eq!(Some(10_000), parse_amount(b"1.0"));
    assert_eq!(Some(15_000), parse_amount(b"1.5"));
    assert_eq!(Some(12_345), parse_amount(b"1.2345"));
    assert_eq!(Some(1), parse_amount(b"0.0001"));
    assert_eq!(Some(0), parse_amount(b"0"));
    assert_eq!(Some(70_100), parse_amount(b"007.01"));
    assert_eq!(Some(1_000_000), parse_amount(b"100.0000"));
    assert_eq!(Some(u64::MAX), parse_amount(b"1844674407370955.1615"));
    assert_eq!(None, parse_amount(b"1844674407370955.1616"));
    assert_eq!(None, parse_amount(b"99999999999999999999999999"));
    assert_eq!(None, parse_amount(b""));
    assert_eq!(None, parse_amount(b"."));
    assert_eq!(None, parse_amount(b".5"));
    assert_eq!(None, parse_amount(b"1.23456"));
    assert_eq!(None, parse_amount(b"1.2.3"));
    assert_eq!(None, parse_amount(b"-1"));
    assert_eq!(None, parse_amount(b"+1"));
    assert_eq!(None, parse_amount(b"1e3"));
    assert_eq!(None, parse_amount(b"1,5"));
    assert_eq!(None, parse_amount(b"1.5 "));
    assert_eq!(None, parse_amount(b"abc"));
}

#[test]
fn parse_number_values() {
    assert_eq!(Some(0), parse_number(b"0", 65535));
    assert_eq!(Some(42), parse_number(b"42", 65535));
    assert_eq!(Some(42), parse_number(b"00042", 65535));
    assert_eq!(Some(65535), parse_number(b"65535", 65535));
    assert_eq!(None, parse_number(b"65536", 65535));
    assert_eq!(None, parse_number(b"", 65535));
    assert_eq!(None, parse_number(b"4 2", 65535));
    assert_eq!(None, parse_number(b"-1", 65535));
    assert_eq!(None, parse_number(b"99999999999999999999999", u64::MAX));
    assert_eq!(Some(u64::MAX), parse_number(b"18446744073709551615", u64::MAX));
    assert_eq!(None, parse_number(b"18446744073709551616", u64::MAX));
    assert_eq!(None, parse_number(b"1", 0));
}

#[test]
fn parse_kind_ignores_case() {
    assert_eq!(Some(RecordType::Deposit), parse_kind(b"deposit"));
    assert_eq!(Some(RecordType::Deposit), parse_kind(b"Deposit"));
    assert_eq!(Some(RecordType::Deposit), parse_kind(b"DEPOSIT"));
    assert_eq!(Some(RecordType::Withdrawal), parse_kind(b"withdrawal"));
    assert_eq!(Some(RecordType::Dispute), parse_kind(b"dIsPuTe"));
    assert_eq!(Some(RecordType::Resolve), parse_kind(b"Resolve"));
    assert_eq!(Some(RecordType::Chargeback), parse_kind(b"CHARGEBACK"));
    assert_eq!(None, parse_kind(b"invalid"));
    assert_eq!(None, parse_kind(b"finished"));
    assert_eq!(None, parse_kind(b"Finished"));
    assert_eq!(None, parse_kind(b""));
    assert_eq!(None, parse_kind(b"deposits"));
    assert_eq!(None, parse_kind(b"deposi"));
    assert_eq!(None, parse_kind(b"DEPOSI\x54\x00"));
}

#[test]
fn words_and_bytes() {
    assert!(spells_word(b"TyPe", "type"));
    assert!(!spells_word(b"typ", "type"));
    assert!(!spells_word(b"t\x79pf", "type"));
    assert!(is_word(b"type", "type"));
    assert!(!is_word(b"Type", "type"));
    assert!(!is_word(b"typee", "type"));
    assert!(is_word(b"", ""));
    assert_eq!(1, find_first(b"1.5.2", b'.'));
    assert_eq!(3, find_first(b"125", b'.'));
    assert_eq!(0, find_first(b"", b'.'));
    assert_eq!(0, find_first(b".5", b'.'));
}

#[test]
fn columns_are_found_by_name() {
    let columns = Columns::locate(&row(&["tx", "amount", "note", "type", "client"]));
    assert_eq!(5, columns.width);
    assert_eq!(3, columns.kind);
    assert_eq!(4, columns.client);
    assert_eq!(0, columns.trx);
    assert_eq!(1, columns.amount);
    assert_eq!(
        Some(record(RecordType::Withdrawal, 8, 3, Some(25_000))),
        columns.read(&row(&["3", "2.5", "hello", "withdrawal", "8"]))
    );
    assert_eq!(2, Columns::find(&row(&["a", "b", "tx", "tx"]), "tx"));
    assert_eq!(3, Columns::find(&row(&["a", "b", "c"]), "tx"));
    assert_eq!(0, Columns::find(&row(&[]), "tx"));
}

#[test]
fn column_names_are_case_sensitive() {
    let columns = Columns::locate(&row(&["Type", "client", "tx", "amount"]));
    assert_eq!(4, columns.kind);
    assert_eq!(None, columns.read(&row(&["deposit", "1", "1", "1"])));
}

#[test]
fn amount_column_is_optional() {
    let columns = Columns::locate(&row(&["type", "client", "tx"]));
    assert_eq!(3, columns.amount);
    assert_eq!(
        Some(record(RecordType::Dispute, 1, 2, None)),
        columns.read(&row(&["dispute", "1", "2"]))
    );
    assert_eq!(
        Some(record(RecordType::Deposit, 1, 2, None)),
        columns.read(&row(&["deposit", "1", "2"]))
    );
}

#[test]
fn unreadable_rows_give_no_record() {
    let columns = Columns::locate(&row(&["type", "client", "tx", "amount"]));
    assert_eq!(
        Some(record(RecordType::Deposit, 1, 2, Some(30_000))),
        columns.read(&row(&["deposit", "1", "2", "3"]))
    );
    assert_eq!(
        Some(record(RecordType::Resolve, 65535, 0, None)),
        columns.read(&row(&["resolve", "65535", "0", ""]))
    );
    assert_eq!(None, columns.read(&row(&["deposit", "1", "2"])));
    assert_eq!(None, columns.read(&row(&["deposit", "1", "2", "3", "4"])));
    assert_eq!(None, columns.read(&row(&["gift", "1", "2", "3"])));
    assert_eq!(None, columns.read(&row(&["deposit", "65536", "2", "3"])));
    assert_eq!(None, columns.read(&row(&["deposit", "1", "-2", "3"])));
    assert_eq!(None, columns.read(&row(&["deposit", "1", "", "3"])));
    assert_eq!(None, columns.read(&row(&["deposit", "1", "2", "3.00001"])));
    assert_eq!(None, columns.read(&row(&["dispute", "1", "2", "x"])));
    assert_eq!(None, columns.read(&row(&["", "", "", ""])));
}

#[test]
fn table_without_readable_header_gives_finished_alone() {
    assert_eq!(vec![Record::finished()], records_of_table(&vec![]));
    assert_eq!(
        vec![Record::finished()],
        records_of_table(&vec![None, Some(row(&["deposit", "1", "1", "1"]))])
    );
    assert_eq!(
        vec![Record::finished()],
        records_of_table(&vec![
            Some(row(&["kind", "client", "tx", "amount"])),
            Some(row(&["deposit", "1", "1", "1"])),
        ])
    );
}

#[test]
fn table_rows_are_read_in_order() {
    let table = vec![
        Some(row(&["type", "client", "tx", "amount"])),
        Some(row(&["deposit", "1", "1", "1"])),
        None,
        Some(row(&["bogus", "1", "2", "1"])),
        Some(row(&["withdrawal", "1", "3", "0.5"])),
        Some(row(&["type", "client", "tx", "amount"])),
        Some(row(&["dispute", "1", "1", ""])),
    ];
    assert_eq!(
        vec![
            record(RecordType::Deposit, 1, 1, Some(10_000)),
            record(RecordType::Withdrawal, 1, 3, Some(5_000)),
            record(RecordType::Dispute, 1, 1, None),
            Record::finished(),
        ],
        records_of_table(&table)
    );
}

#[test]
fn text_is_split_trimmed_and_read() {
    let records = parse(
        "type,client,tx,amount\n\
         deposit,1,1,100\n\
         \x20 Withdrawal ,\t1 , 2,  1.25  \n\
         dispute,1,1,\n\
         resolve,1,1,\n\
         chargeback,2,7,\n",
    );
    assert_eq!(
        vec![
            record(RecordType::Deposit, 1, 1, Some(1_000_000)),
            record(RecordType::Withdrawal, 1, 2, Some(12_500)),
            record(RecordType::Dispute, 1, 1, None),
            record(RecordType::Resolve, 1, 1, None),
            record(RecordType::Chargeback, 2, 7, None),
            Record::finished(),
        ],
        records
    );
}

#[test]
fn quoted_fields_are_unquoted() {
    let records = parse("\"type\",client,tx,amount\r\n\"deposit\",\"1\",1,\"2.5\"\r\n");
    assert_eq!(
        vec![record(RecordType::Deposit, 1, 1, Some(25_000)), Record::finished()],
        records
    );
}

#[test]
fn rows_of_another_width_are_dropped() {
    let records = parse(
        "type,client,tx,amount\n\
         dispute,1,1\n\
         deposit,1,1,1,9\n\
         deposit,1,2,3\n",
    );
    assert_eq!(vec![record(RecordType::Deposit, 1, 2, Some(30_000)), Record::finished()], records);
}

#[test]
fn rows_that_are_not_text_are_dropped() {
    let mut input = b"type,client,tx,amount\ndeposit,1,1,1\n".to_vec();
    input.extend_from_slice(b"deposit,1,2,\xff\n");
    input.extend_from_slice(b"deposit,1,3,3\n");
    let records = CSVParser::new(input).parse_records();
    assert_eq!(
        vec![
            record(RecordType::Deposit, 1, 1, Some(10_000)),
            record(RecordType::Deposit, 1, 3, Some(30_000)),
            Record::finished(),
        ],
        records
    );
}

#[test]
fn empty_text_gives_finished_alone() {
    assert_eq!(vec![Record::finished()], parse(""));
    assert_eq!(vec![Record::finished()], parse("type,client,tx,amount\n"));
    assert_eq!(vec![Record::finished()], parse("deposit,1,1,1\n"));
}

#[test]
fn parser_keeps_its_input() {
    let parser = CSVParser::new(b"type,client,tx\n".to_vec());
    assert_eq!(b"type,client,tx\n".to_vec(), parser.input);
}
