use compute_worker::execute::{Execution, TransactionResult};
use compute_worker::protocol::{
    ExpectedOutcomes, ExpectedReceipt, Generator, Mode, Request, ResultRecord, SampleSpec,
    Transaction, Workload, WorkloadCase,
};
use compute_worker::session::{Action, Event, Session};
use compute_worker::sorted_map::SortedMap;
use compute_worker::state::DatabaseState;

const ALICE: &str = "0x00000000000000000000000000000000000000aa";

fn sample(id: &str, case: &str) -> SampleSpec {
    SampleSpec {
        sample_id: id.to_owned(),
        case_id: case.to_owned(),
        repetition: 1,
        phase: "pilot".to_owned(),
    }
}

fn request(mode: Mode, samples: &[(&str, &str)]) -> Request {
    let mut list = Vec::new();
    for (id, case) in samples {
        list.push(sample(id, case));
    }
    Request {
        schema_version: 2,
        workload_path: "w".to_owned(),
        session_id: "s".to_owned(),
        mode,
        samples: list,
    }
}

fn case(id: &str, status: &str, reason: Option<&str>) -> WorkloadCase {
    WorkloadCase {
        id: id.to_owned(),
        status: status.to_owned(),
        family: None,
        target_operation: None,
        parameters: None,
        reason: reason.map(str::to_owned),
        pre: None,
        transactions: None,
        expected: None,
    }
}

fn workload(cases: Vec<WorkloadCase>) -> Result<Workload, String> {
    Ok(Workload {
        schema_version: 2,
        fork: "Osaka".to_owned(),
        generator: Generator { revision: "r".to_owned(), seed: 0 },
        cases,
    })
}

fn ready(id: &str) -> WorkloadCase {
    WorkloadCase {
        target_operation: Some("ADD".to_owned()),
        pre: Some(SortedMap::new()),
        transactions: Some(vec![Transaction {
            sender: ALICE.to_owned(),
            secret_key: None,
            to: ALICE.to_owned(),
            data: "0x".to_owned(),
            value: "0x0".to_owned(),
            gas_limit: 50,
        }]),
        expected: Some(ExpectedOutcomes {
            receipts: vec![ExpectedReceipt { success: true, logs: vec![] }],
            storage: SortedMap::new(),
        }),
        ..case(id, "ready", None)
    }
}

fn empty() -> DatabaseState {
    DatabaseState { accounts: SortedMap::new(), storage: SortedMap::new() }
}

fn execution(status: bool) -> Execution {
    Execution {
        results: Ok(vec![TransactionResult { status, logs: vec![], gas_used: 40 }]),
        post: empty(),
        elapsed_nanos: 99,
        counts: None,
    }
}

fn counted(key: &str) -> Execution {
    let mut counts = SortedMap::new();
    counts.insert(key.to_owned(), 6);
    Execution { counts: Some(counts), ..execution(true) }
}

fn written(action: Action) -> ResultRecord {
    match action {
        Action::Write(record) => record,
        other => panic!("not a record: {other:?}"),
    }
}

fn message(record: &ResultRecord) -> (&str, &str) {
    let error = record.error.as_ref().unwrap();
    (error.stage, error.message.as_str())
}

#[test]
fn every_sample_fails_without_a_workload() {
    let request = request(Mode::Performance, &[("a", "c"), ("b", "d")]);
    let (session, action) = Session::new(request, Err("gone".to_owned()));
    let first = written(action);
    assert_eq!(first.sample_id, "a");
    assert_eq!(message(&first), ("workload", "gone"));
    let (session, action) = session.step(Event::Written);
    let second = written(action.unwrap());
    assert_eq!(second.sample_id, "b");
    assert_eq!(message(&second), ("workload", "gone"));
    let (_, action) = session.step(Event::Written);
    assert!(matches!(action, Some(Action::Finish)));
}

#[test]
fn unknown_and_unsupported_cases() {
    let request = request(Mode::Performance, &[("a", "x\""), ("b", "u"), ("c", "v")]);
    let cases = vec![case("u", "unsupported", None), case("v", "unsupported", Some("old"))];
    let (session, action) = Session::new(request, workload(cases));
    let first = written(action);
    assert_eq!(first.status, "failed");
    assert_eq!(
        message(&first),
        ("workload", "sample references unknown workload case \"x\\\"\"")
    );
    let (session, action) = session.step(Event::Written);
    let second = written(action.unwrap());
    assert_eq!(second.status, "unsupported");
    assert_eq!(message(&second), ("workload", "case is unsupported"));
    let (_, action) = session.step(Event::Written);
    assert_eq!(message(&written(action.unwrap())), ("workload", "old"));
}

#[test]
fn cases_are_prepared_once_and_executed_for_each_sample() {
    let request = request(Mode::Performance, &[("a", "c"), ("b", "c"), ("d", "c")]);
    let (session, action) = Session::new(request, workload(vec![ready("c")]));
    assert!(matches!(action, Action::Load(0)));
    assert_eq!(session.accounts_to_load().unwrap().len(), 0);
    assert!(session.case_to_execute().is_none());
    let (session, action) = session.step(Event::Loaded(empty()));
    assert!(matches!(action, Some(Action::Execute(0))));
    assert!(session.accounts_to_load().is_none());
    let prepared = session.case_to_execute().unwrap();
    assert_eq!(prepared.target_count_key, "ADD");
    assert_eq!(prepared.transactions.len(), 1);
    let prepared_hash = prepared.prepared_hash.clone();

    let (session, action) = session.step(Event::Executed(execution(true)));
    let record = written(action.unwrap());
    assert_eq!(record.sample_id, "a");
    assert_eq!(record.status, "executed");
    assert!(record.correctness_passed);
    assert!(record.error.is_none());
    assert_eq!(record.execution_duration_ns, Some(99));
    assert_eq!(
        record.baseline_hash.as_deref(),
        Some("12b5decd7e75466f87445f2dabd05601eac609160e81d0e2ed8fd83c58f69b9e")
    );
    assert_eq!(record.prepared_hash, Some(prepared_hash));
    assert_eq!(record.declared_gas, Some(50));
    assert_eq!(record.charged_gas, Some(40));
    assert_eq!(record.target_count, None);
    assert!(record.opcode_counts.is_none());
    let commitment_hash = record.commitment_hash.unwrap();

    let (session, action) = session.step(Event::Written);
    assert!(matches!(action, Some(Action::Execute(0))));
    let (session, action) = session.step(Event::Executed(execution(false)));
    let record = written(action.unwrap());
    assert_eq!(record.sample_id, "b");
    assert_eq!(record.status, "failed");
    assert!(!record.correctness_passed);
    assert_eq!(
        message(&record),
        (
            "correctness",
            "receipt outcomes differ: \
             expected [ExpectedReceipt { success: true, logs: [] }], \
             got [ExpectedReceipt { success: false, logs: [] }]"
        )
    );
    assert_ne!(record.commitment_hash.unwrap(), commitment_hash);

    let (session, action) = session.step(Event::Written);
    assert!(matches!(action, Some(Action::Execute(0))));
    let refused = Execution { results: Err("Nonce".to_owned()), ..execution(true) };
    let (session, action) = session.step(Event::Executed(refused));
    let record = written(action.unwrap());
    assert_eq!(record.sample_id, "d");
    assert_eq!(message(&record), ("execute", "evm transaction failed: Nonce"));
    assert!(record.baseline_hash.is_some());
    assert!(record.prepared_hash.is_some());
    assert_eq!(record.declared_gas, Some(50));
    assert_eq!(record.commitment_hash, None);
    assert_eq!(record.charged_gas, None);
    let (_, action) = session.step(Event::Written);
    assert!(matches!(action, Some(Action::Finish)));
}

#[test]
fn a_failed_preparation_is_kept() {
    let request = request(Mode::Performance, &[("a", "c"), ("b", "c"), ("d", "e")]);
    let cases = vec![case("c", "ready", None), case("e", "draft", Some("later"))];
    let (session, action) = Session::new(request, workload(cases));
    let record = written(action);
    assert_eq!(message(&record), ("prepare", "ready case has no target_operation"));
    assert_eq!(record.baseline_hash, None);
    let (session, action) = session.step(Event::Written);
    let record = written(action.unwrap());
    assert_eq!(record.sample_id, "b");
    assert_eq!(message(&record), ("prepare", "ready case has no target_operation"));
    let (_, action) = session.step(Event::Written);
    assert_eq!(message(&written(action.unwrap())), ("prepare", "later"));
}

#[test]
fn diagnostic_sessions_count_and_record_no_duration() {
    let request = request(Mode::Diagnostic, &[("a", "c"), ("b", "c"), ("d", "c")]);
    let (session, _) = Session::new(request, workload(vec![ready("c")]));
    assert!(session.is_diagnostic());
    let (session, _) = session.step(Event::Loaded(empty()));
    let (session, action) = session.step(Event::Executed(counted("ADD")));
    let record = written(action.unwrap());
    assert!(record.correctness_passed);
    assert_eq!(record.execution_duration_ns, None);
    assert_eq!(record.target_count, Some(6));
    assert_eq!(record.opcode_counts.unwrap().len(), 1);
    let (session, _) = session.step(Event::Written);
    let (session, action) = session.step(Event::Executed(counted("MUL")));
    let record = written(action.unwrap());
    assert!(!record.correctness_passed);
    assert_eq!(
        message(&record),
        ("correctness", "diagnostic execution did not observe target operation ADD")
    );
    let (session, _) = session.step(Event::Written);
    let (_, action) = session.step(Event::Executed(execution(true)));
    assert_eq!(
        message(&written(action.unwrap())),
        ("execute", "diagnostic inspector was not installed")
    );
}

#[test]
fn unexpected_events_change_nothing() {
    let request = request(Mode::Performance, &[("a", "c")]);
    let (session, _) = Session::new(request, workload(vec![ready("c")]));
    let (session, action) = session.step(Event::Written);
    assert!(action.is_none());
    let (session, action) = session.step(Event::Executed(execution(true)));
    assert!(action.is_none());
    let (session, action) = session.step(Event::Loaded(empty()));
    assert!(matches!(action, Some(Action::Execute(0))));
    let (session, action) = session.step(Event::Loaded(empty()));
    assert!(action.is_none());
    let (session, _) = session.step(Event::Executed(execution(true)));
    let (session, action) = session.step(Event::Executed(execution(true)));
    assert!(action.is_none());
    let (session, action) = session.step(Event::Written);
    assert!(matches!(action, Some(Action::Finish)));
    let (_, action) = session.step(Event::Written);
    assert!(action.is_none());
}

#[test]
fn the_last_case_of_an_id_is_taken() {
    let request = request(Mode::Performance, &[("a", "c")]);
    let cases = vec![case("c", "unsupported", None), ready("c")];
    let (_, action) = Session::new(request, workload(cases));
    assert!(matches!(action, Action::Load(1)));
}

#[test]
fn repeated_samples_agree_and_are_taken_of_their_case() {
    let request = request(Mode::Performance, &[("a", "c"), ("b", "e"), ("d", "c")]);
    let (session, action) = Session::new(request, workload(vec![ready("e"), ready("c")]));
    assert!(matches!(action, Action::Load(1)));
    let (session, action) = session.step(Event::Loaded(empty()));
    assert!(matches!(action, Some(Action::Execute(1))));
    let (session, action) = session.step(Event::Executed(execution(true)));
    let first = written(action.unwrap());
    let (session, action) = session.step(Event::Written);
    assert!(matches!(action, Some(Action::Load(0))));
    let (session, action) = session.step(Event::Loaded(empty()));
    assert!(matches!(action, Some(Action::Execute(0))));
    let (session, action) = session.step(Event::Executed(execution(true)));
    let other = written(action.unwrap());
    let (session, action) = session.step(Event::Written);
    assert!(matches!(action, Some(Action::Execute(1))));
    let slow = Execution { elapsed_nanos: 4000, ..execution(true) };
    let (_, action) = session.step(Event::Executed(slow));
    let mut again = written(action.unwrap());

    assert_ne!(other.prepared_hash, first.prepared_hash);
    assert_eq!(again.sample_id, "d");
    assert_eq!(again.execution_duration_ns, Some(4000));
    again.sample_id = first.sample_id.clone();
    again.execution_duration_ns = first.execution_duration_ns;
    assert_eq!(format!("{again:?}"), format!("{first:?}"));
}
