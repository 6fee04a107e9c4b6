use compute_worker::execute::{
    charged_gas, duration_ns, execute_case, observed_log, target_count, Execution, ObservedLog,
    TransactionResult,
};
use compute_worker::inspector::{key_of_operation, ComputeInspector};
use compute_worker::outcomes::{stored_word, verify_outcomes};
use compute_worker::prepare::PreparedCase;
use compute_worker::primitives::{parse_address, Address, Word};
use compute_worker::protocol::{ExpectedLog, ExpectedOutcomes, ExpectedReceipt};
use compute_worker::sorted_map::SortedMap;
use compute_worker::state::{state_snapshot, DatabaseState};

const ALICE: &str = "0x00000000000000000000000000000000000000a1";

fn address() -> Address {
    parse_address(ALICE).unwrap()
}

fn small(n: u8) -> Word {
    let mut bytes = [0u8; 32];
    bytes[31] = n;
    Word { bytes }
}

fn database(slots: &[(u8, u8)]) -> DatabaseState {
    let mut map = SortedMap::new();
    for (slot, value) in slots {
        map.insert(small(*slot), small(*value));
    }
    let mut storage = SortedMap::new();
    storage.insert(address(), map);
    DatabaseState { accounts: SortedMap::new(), storage }
}

fn expectation(receipts: Vec<ExpectedReceipt>, slots: &[(&str, &str)]) -> ExpectedOutcomes {
    let mut map = SortedMap::new();
    for (slot, value) in slots {
        map.insert((*slot).to_owned(), (*value).to_owned());
    }
    let mut storage = SortedMap::new();
    storage.insert(ALICE.to_owned(), map);
    ExpectedOutcomes { receipts, storage }
}

fn receipt(success: bool) -> ExpectedReceipt {
    ExpectedReceipt { success, logs: vec![] }
}

fn result(gas_used: u64) -> TransactionResult {
    TransactionResult { status: true, logs: vec![], gas_used }
}

fn prepared(expected: ExpectedOutcomes) -> PreparedCase {
    PreparedCase {
        baseline: vec![],
        target_count_key: "ADD".to_owned(),
        transactions: vec![],
        expected,
        baseline_hash: "b".to_owned(),
        prepared_hash: "p".to_owned(),
        declared_gas: 0,
    }
}

fn counts(entries: &[(&str, u64)]) -> SortedMap<String, u64> {
    let mut counts = SortedMap::new();
    for (key, count) in entries {
        counts.insert((*key).to_owned(), *count);
    }
    counts
}

#[test]
fn operations_and_precompiles_are_counted() {
    let mut inspector = ComputeInspector::new(vec![address()], "MUL");
    assert_eq!(inspector.counts.len(), 1);
    inspector.step(Some("ADD".to_owned()));
    inspector.step(Some("SHA3".to_owned()));
    inspector.step(Some("KECCAK256".to_owned()));
    inspector.step(None);
    inspector.call(false, &address());
    inspector.call(true, &address());
    inspector.call(false, &Address { bytes: [7; 20] });
    let mut seen = Vec::new();
    for i in 0..inspector.counts.len() {
        seen.push((inspector.counts.key_at(i).as_str(), *inspector.counts.value_at(i)));
    }
    let precompile = format!("PRECOMPILE_{ALICE}");
    assert_eq!(
        seen,
        [("ADD", 1), ("KECCAK256", 2), ("MUL", 0), (precompile.as_str(), 1)]
    );
    assert_eq!(inspector.count(&"KECCAK256".to_owned()), 2);
    assert_eq!(inspector.count(&"SUB".to_owned()), 0);
    assert_eq!(key_of_operation("SHA3".to_owned()), "KECCAK256");
}

#[test]
fn logs_are_written_in_hexadecimal() {
    let mut topic = [0u8; 32];
    topic[31] = 0xee;
    let log = observed_log(&ObservedLog {
        address: address(),
        topics: vec![topic],
        data: vec![0x0a, 0xff],
    });
    assert_eq!(log.address, ALICE);
    assert_eq!(log.topics, [format!("0x{}ee", "0".repeat(62))]);
    assert_eq!(log.data, "0x0aff");
}

#[test]
fn durations_are_clamped() {
    assert_eq!(duration_ns(0), 1);
    assert_eq!(duration_ns(1), 1);
    assert_eq!(duration_ns(1234), 1234);
    assert_eq!(duration_ns(u64::MAX as u128), u64::MAX);
    assert_eq!(duration_ns(u128::MAX), u64::MAX);
}

#[test]
fn gas_is_summed() {
    assert_eq!(charged_gas(&vec![]), Ok(0));
    assert_eq!(charged_gas(&vec![result(21000), result(7)]), Ok(21007));
    assert_eq!(
        charged_gas(&vec![result(u64::MAX), result(1)]),
        Err("charged transaction gas sum overflows u64".to_owned())
    );
}

#[test]
fn missing_slots_hold_zero() {
    let database = database(&[(1, 42)]);
    assert_eq!(stored_word(&database, &address(), &small(1)), small(42));
    assert_eq!(stored_word(&database, &address(), &small(2)), small(0));
    assert_eq!(stored_word(&database, &Address { bytes: [0; 20] }, &small(1)), small(0));
}

#[test]
fn met_expectations() {
    let expected = expectation(vec![receipt(true)], &[("0x1", "0x2a"), ("0x2", "0x0")]);
    assert!(verify_outcomes(&expected, &vec![receipt(true)], &database(&[(1, 42)])).is_ok());
}

#[test]
fn an_execution_meets_its_own_snapshot() {
    let post = database(&[(1, 42), (9, 255)]);
    let expected =
        ExpectedOutcomes { receipts: vec![], storage: state_snapshot(&post).storage };
    assert!(verify_outcomes(&expected, &vec![], &post).is_ok());
}

#[test]
fn differing_receipts() {
    let log = ExpectedLog {
        address: "0xa".to_owned(),
        topics: vec!["0x1".to_owned(), "0x2".to_owned()],
        data: "0x".to_owned(),
    };
    let expected = expectation(
        vec![receipt(true), ExpectedReceipt { success: false, logs: vec![log] }],
        &[],
    );
    let observed = vec![receipt(false)];
    let problem = verify_outcomes(&expected, &observed, &database(&[])).unwrap_err();
    assert_eq!(
        problem,
        "receipt outcomes differ: expected [ExpectedReceipt { success: true, logs: [] }, \
         ExpectedReceipt { success: false, logs: [ExpectedLog { address: \"0xa\", \
         topics: [\"0x1\", \"0x2\"], data: \"0x\" }] }], got [ExpectedReceipt { success: false, \
         logs: [] }]"
    );
    assert_eq!(
        problem,
        format!(
            "receipt outcomes differ: expected {:?}, got {:?}",
            expected.receipts, observed
        )
    );
}

#[test]
fn differing_logs() {
    let with = |address: &str, topic: &str, data: &str| {
        vec![ExpectedReceipt {
            success: true,
            logs: vec![ExpectedLog {
                address: address.to_owned(),
                topics: vec![topic.to_owned()],
                data: data.to_owned(),
            }],
        }]
    };
    let check = |receipts: Vec<ExpectedReceipt>| {
        verify_outcomes(
            &expectation(with("a", "b", "c"), &[]),
            &receipts,
            &database(&[]),
        )
        .is_ok()
    };
    assert!(check(with("a", "b", "c")));
    assert!(!check(with("x", "b", "c")));
    assert!(!check(with("a", "x", "c")));
    assert!(!check(with("a", "b", "x")));
}

#[test]
fn differing_storage() {
    let check = |slots: &[(&str, &str)]| {
        verify_outcomes(&expectation(vec![], slots), &vec![], &database(&[(1, 42)])).unwrap_err()
    };
    assert_eq!(
        check(&[("0x1", "0x10")]),
        format!("storage mismatch at {ALICE}[0x1]: expected 0x10, got 0x2a")
    );
    assert_eq!(
        check(&[("0x0", "0x1")]),
        format!("storage mismatch at {ALICE}[0x0]: expected 0x1, got 0x0")
    );
    assert_eq!(check(&[("q", "0x1")]), "invalid hex quantity \"q\": invalid digit: q");
    assert_eq!(check(&[("0x1", "r")]), "invalid hex quantity \"r\": invalid digit: r");
    let mut storage = SortedMap::new();
    storage.insert("0x1".to_owned(), SortedMap::new());
    let expected = ExpectedOutcomes { receipts: vec![], storage };
    assert_eq!(
        verify_outcomes(&expected, &vec![], &database(&[])),
        Err("invalid address \"0x1\": odd number of digits".to_owned())
    );
}

#[test]
fn targets_are_counted_or_missing() {
    let prepared = prepared(expectation(vec![], &[]));
    assert_eq!(target_count(&prepared, &counts(&[("ADD", 3), ("MUL", 1)])), Ok(3));
    assert_eq!(
        target_count(&prepared, &counts(&[("MUL", 1)])),
        Err("diagnostic execution did not observe target operation ADD".to_owned())
    );
}

#[test]
fn performance_executions() {
    let prepared = prepared(expectation(vec![receipt(true)], &[("0x1", "0x2a")]));
    let execution = Execution {
        results: Ok(vec![result(21000)]),
        post: database(&[(1, 42)]),
        elapsed_nanos: 0,
        counts: Some(counts(&[("ADD", 1)])),
    };
    let observation = execute_case(&prepared, false, execution).unwrap();
    assert_eq!(observation.duration_ns, 1);
    assert_eq!(observation.charged_gas, 21000);
    assert!(observation.opcode_counts.is_none());
    assert_eq!(observation.target_count, None);
    assert_eq!(observation.correctness_error, None);
    assert_eq!(
        observation.commitment_hash,
        "5467d086147d14311e7cfd3ab20d6fe9911e6d03d7388f2ffbfb64b23a6fd889"
    );
}

#[test]
fn diagnostic_executions() {
    let run = |counts: Option<SortedMap<String, u64>>, slots: &[(&str, &str)]| {
        let execution = Execution {
            results: Ok(vec![result(5)]),
            post: database(&[(1, 42)]),
            elapsed_nanos: 77,
            counts,
        };
        execute_case(&prepared(expectation(vec![receipt(true)], slots)), true, execution)
    };
    let good = run(Some(counts(&[("ADD", 4)])), &[]).unwrap();
    assert_eq!(good.target_count, Some(4));
    assert_eq!(good.correctness_error, None);
    assert_eq!(good.opcode_counts.unwrap().len(), 1);
    let missing = run(Some(counts(&[("MUL", 4)])), &[]).unwrap();
    assert_eq!(missing.target_count, None);
    assert_eq!(
        missing.correctness_error.unwrap(),
        "diagnostic execution did not observe target operation ADD"
    );
    let both = run(Some(counts(&[])), &[("0x1", "0x0")]).unwrap();
    assert_eq!(
        both.correctness_error.unwrap(),
        format!(
            "storage mismatch at {ALICE}[0x1]: expected 0x0, got 0x2a; \
             diagnostic execution did not observe target operation ADD"
        )
    );
    assert_eq!(run(None, &[]).unwrap_err(), "diagnostic inspector was not installed");
}

#[test]
fn executions_without_an_observation() {
    let run = |results: Result<Vec<TransactionResult>, String>| {
        let execution =
            Execution { results, post: database(&[]), elapsed_nanos: 1, counts: None };
        execute_case(&prepared(expectation(vec![], &[])), false, execution).unwrap_err()
    };
    assert_eq!(run(Err("Nonce".to_owned())), "evm transaction failed: Nonce");
    assert_eq!(
        run(Ok(vec![result(u64::MAX), result(1)])),
        "charged transaction gas sum overflows u64"
    );
}

#[test]
fn time_shows_only_in_the_duration() {
    let prepared = prepared(expectation(vec![receipt(true)], &[("0x1", "0x2a")]));
    for diagnostic in [false, true] {
        let run = |elapsed_nanos: u128| {
            let execution = Execution {
                results: Ok(vec![result(7)]),
                post: database(&[(1, 42)]),
                elapsed_nanos,
                counts: Some(counts(&[("ADD", 2)])),
            };
            execute_case(&prepared, diagnostic, execution).unwrap()
        };
        let (fast, slow) = (run(10), run(2000));
        assert_eq!((fast.duration_ns, slow.duration_ns), (10, 2000));
        assert_eq!(fast.commitment_hash, slow.commitment_hash);
        assert_eq!(fast.commitment_hash.len(), 64);
        assert_eq!(fast.charged_gas, slow.charged_gas);
        assert_eq!(fast.target_count, slow.target_count);
        assert_eq!(fast.correctness_error, slow.correctness_error);
        assert_eq!(format!("{:?}", fast.opcode_counts), format!("{:?}", slow.opcode_counts));
    }
}

#[test]
fn counting_does_not_influence_correctness() {
    for slots in [&[("0x1", "0x2a")], &[("0x1", "0x2b")]] {
        let prepared = prepared(expectation(vec![receipt(true)], slots));
        let run = |diagnostic: bool, counts: Option<SortedMap<String, u64>>| {
            let execution = Execution {
                results: Ok(vec![result(7)]),
                post: database(&[(1, 42)]),
                elapsed_nanos: 5,
                counts,
            };
            execute_case(&prepared, diagnostic, execution).unwrap()
        };
        let counting = run(true, Some(counts(&[("ADD", 0), ("MUL", 3)])));
        let timed = run(false, None);
        assert_eq!(counting.commitment_hash, timed.commitment_hash);
        assert_eq!(counting.charged_gas, timed.charged_gas);
        assert_eq!(counting.correctness_error, timed.correctness_error);
        assert_eq!(counting.correctness_error.is_none(), slots[0].1 == "0x2a");
    }
}
