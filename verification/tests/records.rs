use compute_worker::json::{record_line, Json};
use compute_worker::protocol::{
    Account, ExpectedLog, ExpectedOutcomes, ExpectedReceipt, Mode, ParameterValue, Request,
    ResultError, ResultRecord, SampleSpec, Transaction, WorkloadCase,
};
use compute_worker::record::{failed, unsupported};
use compute_worker::sorted_map::SortedMap;

fn json<T: Json>(value: &T) -> String {
    let mut out = String::new();
    value.write_json(&mut out);
    out
}

fn request() -> Request {
    Request {
        schema_version: 2,
        workload_path: "w".to_owned(),
        session_id: "ses".to_owned(),
        mode: Mode::Performance,
        samples: vec![],
    }
}

fn sample() -> SampleSpec {
    SampleSpec {
        sample_id: "smp".to_owned(),
        case_id: "cas".to_owned(),
        repetition: 3,
        phase: "pilot".to_owned(),
    }
}

#[test]
fn strings_are_escaped_as_serde_json_does() {
    let text = "a\"b\\c\n\r\t\u{8}\u{c}\u{1}\u{1f}\u{7f}/\u{e9}\u{1f600}";
    assert_eq!(
        json(&text.to_owned()),
        "\"a\\\"b\\\\c\\n\\r\\t\\b\\f\\u0001\\u001f\u{7f}/\u{e9}\u{1f600}\""
    );
    assert_eq!(json(&text.to_owned()), serde_json::to_string(text).unwrap());
}

#[test]
fn values_are_written_as_serde_json_does() {
    let numbers = vec![Some(1u64), None, Some(u64::MAX)];
    assert_eq!(json(&numbers), serde_json::to_string(&numbers).unwrap());
    assert_eq!(json(&vec![true, false]), "[true,false]");
    assert_eq!(json(&Vec::<bool>::new()), "[]");
    let mut map: SortedMap<String, Vec<String>> = SortedMap::new();
    assert_eq!(json(&map), "{}");
    map.insert("b\n".to_owned(), vec![]);
    map.insert("a".to_owned(), vec!["x".to_owned(), "y".to_owned()]);
    assert_eq!(json(&map), "{\"a\":[\"x\",\"y\"],\"b\\n\":[]}");
}

#[test]
fn cases_are_written_in_field_order() {
    let mut parameters = SortedMap::new();
    parameters.insert("n".to_owned(), ParameterValue::Json("[1,null]".to_owned()));
    parameters.insert("m".to_owned(), ParameterValue::Text("[1]".to_owned()));
    let mut storage = SortedMap::new();
    storage.insert("0x1".to_owned(), "0x2".to_owned());
    let mut pre = SortedMap::new();
    pre.insert(
        "0xa".to_owned(),
        Account {
            balance: "0x1".to_owned(),
            nonce: "0x2".to_owned(),
            code: "0x".to_owned(),
            storage,
        },
    );
    let transaction = |secret_key: Option<String>| Transaction {
        sender: "s".to_owned(),
        secret_key,
        to: "t".to_owned(),
        data: "d".to_owned(),
        value: "v".to_owned(),
        gas_limit: 9,
    };
    let mut expected_storage = SortedMap::new();
    expected_storage.insert("0xa".to_owned(), SortedMap::new());
    let case = WorkloadCase {
        id: "i".to_owned(),
        status: "ready".to_owned(),
        family: None,
        target_operation: Some("ADD".to_owned()),
        parameters: Some(parameters),
        reason: None,
        pre: Some(pre),
        transactions: Some(vec![transaction(None), transaction(Some("k".to_owned()))]),
        expected: Some(ExpectedOutcomes {
            receipts: vec![ExpectedReceipt {
                success: true,
                logs: vec![ExpectedLog {
                    address: "0xa".to_owned(),
                    topics: vec!["0x1".to_owned()],
                    data: "0x".to_owned(),
                }],
            }],
            storage: expected_storage,
        }),
    };
    assert_eq!(
        json(&case),
        concat_lines(&[
            r#"{"id":"i","status":"ready","family":null,"target_operation":"ADD","#,
            r#""parameters":{"m":"[1]","n":[1,null]},"reason":null,"#,
            r#""pre":{"0xa":{"balance":"0x1","nonce":"0x2","code":"0x","storage":{"0x1":"0x2"}}},"#,
            r#""transactions":[{"sender":"s","to":"t","data":"d","value":"v","gas_limit":9},"#,
            r#"{"sender":"s","secret_key":"k","to":"t","data":"d","value":"v","gas_limit":9}],"#,
            r#""expected":{"receipts":[{"success":true,"logs":"#,
            r#"[{"address":"0xa","topics":["0x1"],"data":"0x"}]}],"storage":{"0xa":{}}}}"#,
        ])
    );
}

fn concat_lines(lines: &[&str]) -> String {
    lines.concat()
}

#[test]
fn failed_samples() {
    let record = failed(&request(), &sample(), "prepare", "no\n\"luck\"".to_owned());
    assert_eq!(record.status, "failed");
    assert!(!record.correctness_passed);
    let line = record_line(&record);
    assert_eq!(
        line,
        concat_lines(&[
            r#"{"schema_version":2,"session_id":"ses","sample_id":"smp","case_id":"cas","#,
            r#""repetition":3,"phase":"pilot","status":"failed","execution_duration_ns":null,"#,
            r#""execution_boundary":"evm2_transaction_execution","baseline_hash":null,"#,
            r#""prepared_hash":null,"commitment_hash":null,"correctness_passed":false,"#,
            r#""target_count":null,"opcode_counts":null,"declared_gas":null,"charged_gas":null,"#,
            r#""error":{"stage":"prepare","message":"no\n\"luck\""}}"#,
            "\n",
        ])
    );
    assert_eq!(line.matches('\n').count(), 1);
    assert!(serde_json::from_str::<serde_json::Value>(&line).is_ok());
}

#[test]
fn unsupported_samples() {
    let record = unsupported(&request(), &sample(), "no fork".to_owned());
    assert_eq!(record.status, "unsupported");
    let error = record.error.unwrap();
    assert_eq!(error.stage, "workload");
    assert_eq!(error.message, "no fork");
}

#[test]
fn full_records_leave_out_a_missing_error() {
    let mut counts = SortedMap::new();
    counts.insert("MUL".to_owned(), 2);
    counts.insert("ADD".to_owned(), 1);
    let record = ResultRecord {
        schema_version: 2,
        session_id: "a".to_owned(),
        sample_id: "b".to_owned(),
        case_id: "c".to_owned(),
        repetition: 0,
        phase: "d".to_owned(),
        status: "executed",
        execution_duration_ns: Some(7),
        execution_boundary: "e",
        baseline_hash: Some("f".to_owned()),
        prepared_hash: Some("g".to_owned()),
        commitment_hash: Some("h".to_owned()),
        correctness_passed: true,
        target_count: Some(1),
        opcode_counts: Some(counts),
        declared_gas: Some(8),
        charged_gas: Some(9),
        error: None::<ResultError>,
    };
    assert_eq!(
        record_line(&record),
        concat_lines(&[
            r#"{"schema_version":2,"session_id":"a","sample_id":"b","case_id":"c","#,
            r#""repetition":0,"phase":"d","status":"executed","execution_duration_ns":7,"#,
            r#""execution_boundary":"e","baseline_hash":"f","prepared_hash":"g","#,
            r#""commitment_hash":"h","correctness_passed":true,"target_count":1,"#,
            r#""opcode_counts":{"ADD":1,"MUL":2},"declared_gas":8,"charged_gas":9}"#,
            "\n",
        ])
    );
}
