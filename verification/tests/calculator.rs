use payments_engine::calculator::Calculator;
use payments_engine::csvparser::CSVParser;
use payments_engine::decimal::UNIT;
use payments_engine::record::{Record, RecordType};

const HEADER: &str = "client, available, held, total, locked";

fn deposit(client_id: u16, trx_id: u16, units: u64) -> Record {
    Record { record_type: RecordType::Deposit, client_id, trx_id, amount: Some(units * UNIT) }
}

fn withdrawal(client_id: u16, trx_id: u16, units: u64) -> Record {
    Record { record_type: RecordType::Withdrawal, client_id, trx_id, amount: Some(units * UNIT) }
}

fn dispute(client_id: u16, trx_id: u16) -> Record {
    Record { record_type: RecordType::Dispute, client_id, trx_id, amount: None }
}

fn resolve(client_id: u16, trx_id: u16) -> Record {
    Record { record_type: RecordType::Resolve, client_id, trx_id, amount: None }
}

fn chargeback(client_id: u16, trx_id: u16) -> Record {
    Record { record_type: RecordType::Chargeback, client_id, trx_id, amount: None }
}

fn report_of(mut records: Vec<Record>) -> Vec<String> {
    records.push(Record::finished());
    Calculator::new().run(&records).unwrap()
}

#[test]
fn scenario_single_deposit() {
    let lines = report_of(vec![deposit(1, 1, 100)]);
    assert_eq!(vec![HEADER, "1, 100.0000, 0.0000, 100.0000, false"], lines);
}

#[test]
fn scenario_overdraft_is_rejected() {
    let lines = report_of(vec![deposit(1, 1, 100), withdrawal(1, 2, 150)]);
    assert_eq!(vec![HEADER, "1, 100.0000, 0.0000, 100.0000, false"], lines);
}

#[test]
fn scenario_dispute_then_resolve() {
    let lines = report_of(vec![deposit(1, 1, 100), dispute(1, 1), resolve(1, 1)]);
    assert_eq!(vec![HEADER, "1, 100.0000, 0.0000, 100.0000, false"], lines);
}

#[test]
fn scenario_chargeback_locks_the_account() {
    let lines =
        report_of(vec![deposit(1, 1, 100), dispute(1, 1), chargeback(1, 1), deposit(1, 2, 50)]);
    assert_eq!(vec![HEADER, "1, 0.0000, 0.0000, 0.0000, true"], lines);
}

#[test]
fn empty_run_reports_the_header_only() {
    assert_eq!(vec![HEADER], report_of(vec![]));
    assert_eq!(HEADER, Calculator::print_header());
    assert_eq!(vec![HEADER], Calculator::new().finish());
}

#[test]
fn run_without_finished_brings_no_report() {
    let mut calculator = Calculator::new();
    assert_eq!(None, calculator.run(&vec![deposit(1, 1, 100), deposit(2, 2, 5)]));
    assert_eq!(2, calculator.accounts.len());
    assert_eq!(1_000_000, calculator.accounts[&1].available);
    assert_eq!(50_000, calculator.accounts[&2].available);
}

#[test]
fn run_stops_at_the_first_finished() {
    let mut calculator = Calculator::new();
    let lines = calculator
        .run(&vec![deposit(1, 1, 100), Record::finished(), deposit(1, 2, 50), Record::finished()])
        .unwrap();
    assert_eq!(vec![HEADER, "1, 100.0000, 0.0000, 100.0000, false"], lines);
    assert_eq!(1_000_000, calculator.accounts[&1].available);
}

#[test]
fn accounts_are_reported_in_ascending_order_of_client() {
    let lines = report_of(vec![
        deposit(300, 1, 3),
        deposit(2, 2, 2),
        deposit(65535, 3, 1),
        deposit(0, 4, 4),
        withdrawal(2, 5, 1),
    ]);
    assert_eq!(
        vec![
            HEADER,
            "0, 4.0000, 0.0000, 4.0000, false",
            "2, 1.0000, 0.0000, 1.0000, false",
            "300, 3.0000, 0.0000, 3.0000, false",
            "65535, 1.0000, 0.0000, 1.0000, false",
        ],
        lines
    );
}

#[test]
fn records_touch_their_own_client_only() {
    let mut calculator = Calculator::new();
    calculator.calculate(deposit(1, 1, 100));
    calculator.calculate(deposit(2, 1, 40));
    calculator.calculate(dispute(2, 1));
    calculator.calculate(chargeback(2, 1));
    calculator.calculate(withdrawal(1, 2, 30));
    assert_eq!(700_000, calculator.accounts[&1].available);
    assert!(!calculator.accounts[&1].locked);
    assert_eq!(0, calculator.accounts[&2].total());
    assert!(calculator.accounts[&2].locked);
    assert_eq!(1, calculator.accounts[&1].id);
    assert_eq!(2, calculator.accounts[&2].id);
}

#[test]
fn rejected_record_still_opens_the_account() {
    let lines = report_of(vec![dispute(5, 1), withdrawal(6, 2, 1)]);
    assert_eq!(
        vec![HEADER, "5, 0.0000, 0.0000, 0.0000, false", "6, 0.0000, 0.0000, 0.0000, false"],
        lines
    );
}

#[test]
fn sentinels_open_no_account() {
    let mut calculator = Calculator::new();
    calculator.calculate(Record::default());
    calculator.calculate(Record::finished());
    assert!(calculator.accounts.is_empty());
    assert_eq!(None, calculator.accept(Record::default()));
    assert!(calculator.accounts.is_empty());
    assert_eq!(Some(vec![HEADER.to_string()]), calculator.accept(Record::finished()));
    assert!(calculator.accounts.is_empty());
    let invalid = Record { record_type: RecordType::Invalid, client_id: 3, trx_id: 1, amount: Some(5) };
    assert_eq!(vec![HEADER], report_of(vec![invalid]));
}

#[test]
fn accept_routes_and_reports() {
    let mut calculator = Calculator::new();
    assert_eq!(None, calculator.accept(deposit(9, 1, 12)));
    assert_eq!(None, calculator.accept(dispute(9, 1)));
    let lines = calculator.accept(Record::finished()).unwrap();
    assert_eq!(vec![HEADER, "9, 0.0000, 12.0000, 12.0000, false"], lines);
    assert_eq!(None, calculator.accept(resolve(9, 1)));
    assert_eq!(vec![HEADER, "9, 12.0000, 0.0000, 12.0000, false"], calculator.finish());
}

#[test]
fn text_in_report_out() {
    let text = "type, client, tx, amount\n\
                deposit, 1, 1, 1.0\n\
                deposit, 2, 2, 2.0\n\
                deposit, 1, 3, 2.0\n\
                withdrawal, 1, 4, 1.5\n\
                withdrawal, 2, 5, 3.0\n\
                dispute, 1, 1,\n\
                chargeback, 1, 1,\n";
    let records = CSVParser::new(text.as_bytes().to_vec()).parse_records();
    assert_eq!(8, records.len());
    let lines = Calculator::new().run(&records).unwrap();
    assert_eq!(
        vec![HEADER, "1, 0.5000, 0.0000, 0.5000, true", "2, 2.0000, 0.0000, 2.0000, false"],
        lines
    );
}
