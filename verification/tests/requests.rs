use compute_worker::protocol::{
    ExpectedOutcomes, Generator, Mode, Request, SampleSpec, Workload, WorkloadCase,
};
use compute_worker::request::{other, validate_request};
use compute_worker::sorted_map::SortedMap;
use compute_worker::workload::{load_workload, WorkloadSource};

fn sample(id: &str, case: &str, phase: &str) -> SampleSpec {
    SampleSpec {
        sample_id: id.to_owned(),
        case_id: case.to_owned(),
        repetition: 0,
        phase: phase.to_owned(),
    }
}

fn request(mode: Mode, samples: Vec<SampleSpec>) -> Request {
    Request {
        schema_version: 2,
        workload_path: "w.json".to_owned(),
        session_id: "s".to_owned(),
        mode,
        samples,
    }
}

fn refusal(request: &Request) -> String {
    validate_request(request).unwrap_err().message
}

fn case(id: &str) -> WorkloadCase {
    WorkloadCase {
        id: id.to_owned(),
        status: "ready".to_owned(),
        family: None,
        target_operation: None,
        parameters: None,
        reason: None,
        pre: None,
        transactions: None,
        expected: Some(ExpectedOutcomes { receipts: vec![], storage: SortedMap::new() }),
    }
}

fn workload(cases: Vec<WorkloadCase>) -> Workload {
    Workload {
        schema_version: 2,
        fork: "Osaka".to_owned(),
        generator: Generator { revision: "abc".to_owned(), seed: 1 },
        cases,
    }
}

fn problem(workload: Workload) -> String {
    let request = request(Mode::Diagnostic, vec![sample("a", "c", "diagnostic")]);
    load_workload(&request, WorkloadSource::Parsed(workload)).unwrap_err()
}

#[test]
fn accepted_requests() {
    let timing = vec![
        sample("a", "c", "pilot"),
        sample("b", "c", "warmup"),
        sample("d", "c", "qualification"),
    ];
    assert!(validate_request(&request(Mode::Performance, timing)).is_ok());
    let counting = vec![sample("a", "c", "diagnostic"), sample("b", "c", "diagnostic")];
    assert!(validate_request(&request(Mode::Diagnostic, counting)).is_ok());
}

#[test]
fn refused_versions() {
    let mut request = request(Mode::Diagnostic, vec![]);
    request.schema_version = 1;
    assert_eq!(refusal(&request), "request schema_version 1 is unsupported; expected 2");
}

#[test]
fn refused_gaps() {
    let message = "request requires workload_path, session_id, and at least one sample";
    assert_eq!(refusal(&request(Mode::Diagnostic, vec![])), message);
    let mut nameless = request(Mode::Diagnostic, vec![sample("a", "c", "diagnostic")]);
    nameless.session_id = String::new();
    assert_eq!(refusal(&nameless), message);
    let mut pathless = request(Mode::Diagnostic, vec![sample("a", "c", "diagnostic")]);
    pathless.workload_path = String::new();
    assert_eq!(refusal(&pathless), message);
}

#[test]
fn refused_samples() {
    let empty = "request samples require non-empty sample_id and case_id";
    assert_eq!(refusal(&request(Mode::Diagnostic, vec![sample("", "c", "diagnostic")])), empty);
    assert_eq!(refusal(&request(Mode::Diagnostic, vec![sample("a", "", "diagnostic")])), empty);
    let twice = vec![
        sample("a\"", "c", "diagnostic"),
        sample("b", "c", "diagnostic"),
        sample("a\"", "d", "nonsense"),
    ];
    assert_eq!(refusal(&request(Mode::Diagnostic, twice)), "duplicate sample_id \"a\\\"\"");
    assert_eq!(
        refusal(&request(Mode::Diagnostic, vec![sample("a", "c", "nonsense")])),
        "unknown sample phase \"nonsense\""
    );
    assert_eq!(
        refusal(&request(Mode::Diagnostic, vec![sample("a", "c", "pilot")])),
        "sample \"a\" phase \"pilot\" is incompatible with request mode Diagnostic"
    );
    assert_eq!(
        refusal(&request(Mode::Performance, vec![sample("a", "c", "diagnostic")])),
        "sample \"a\" phase \"diagnostic\" is incompatible with request mode Performance"
    );
}

#[test]
fn the_first_problem_is_reported() {
    let samples = vec![
        sample("a", "c", "diagnostic"),
        sample("b", "c", "other"),
        sample("", "c", "diagnostic"),
    ];
    assert_eq!(
        refusal(&request(Mode::Diagnostic, samples)),
        "unknown sample phase \"other\""
    );
    assert_eq!(other("why".to_owned()).message, "why");
}

#[test]
fn accepted_workloads() {
    let request = request(Mode::Diagnostic, vec![sample("a", "c", "diagnostic")]);
    let source = WorkloadSource::Parsed(workload(vec![case("c"), case("d")]));
    let loaded = load_workload(&request, source).unwrap();
    assert_eq!(loaded.cases.len(), 2);
    assert_eq!(loaded.cases[1].id, "d");
    assert_eq!(loaded.generator.seed, 1);
}

#[test]
fn missing_workloads() {
    let request = request(Mode::Diagnostic, vec![sample("a", "c", "diagnostic")]);
    assert_eq!(
        load_workload(&request, WorkloadSource::Unreadable("gone".to_owned())).unwrap_err(),
        "reading workload \"w.json\": gone"
    );
    assert_eq!(
        load_workload(&request, WorkloadSource::Unparsable("bad".to_owned())).unwrap_err(),
        "parsing workload \"w.json\": bad"
    );
}

#[test]
fn refused_workloads() {
    let mut old = workload(vec![case("c")]);
    old.schema_version = 12;
    assert_eq!(problem(old), "workload schema_version 12 is unsupported; expected 2");
    let mut fork = workload(vec![case("c")]);
    fork.fork = "osaka".to_owned();
    assert_eq!(problem(fork), "workload fork \"osaka\" is unsupported; expected \"Osaka\"");
    let mut blank = workload(vec![case("c")]);
    blank.generator.revision = " \n".to_owned();
    assert_eq!(problem(blank), "workload generator revision is empty");
    assert_eq!(problem(workload(vec![])), "workload contains no cases");
    assert_eq!(
        problem(workload(vec![case("c"), case("")])),
        "workload contains a case with an empty id"
    );
    assert_eq!(
        problem(workload(vec![case("c"), case("d"), case("c"), case("")])),
        "workload contains duplicate case id \"c\""
    );
}
