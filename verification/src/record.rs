//! The records that answer samples.

use crate::execute::ExecutionObservation;
use crate::prepare::PreparedCase;
use crate::protocol::{
    Mode, Request, ResultError, ResultRecord, SampleSpec, EXECUTION_BOUNDARY, SCHEMA_VERSION,
};
use vstd::prelude::*;

verus! {

/// The record of a sample that failed at `stage` for the reason in `message`: it names the session
/// and the sample, and holds nothing else.
pub open spec fn failed_record(
    request: Request,
    sample: SampleSpec,
    stage: Seq<char>,
    message: Seq<char>,
) -> crate::protocol::RecordModel {
    crate::protocol::RecordModel {
        schema_version: SCHEMA_VERSION,
        session_id: request.session_id@,
        sample_id: sample.sample_id@,
        case_id: sample.case_id@,
        repetition: sample.repetition,
        phase: sample.phase@,
        status: "failed"@,
        execution_duration_ns: None,
        execution_boundary: EXECUTION_BOUNDARY@,
        baseline_hash: None,
        prepared_hash: None,
        commitment_hash: None,
        correctness_passed: false,
        target_count: None,
        opcode_counts: None,
        declared_gas: None,
        charged_gas: None,
        error: Some((stage, message)),
    }
}

/// The record of a sample whose case is not supported for the reason in `message`.
pub open spec fn unsupported_record(
    request: Request,
    sample: SampleSpec,
    message: Seq<char>,
) -> crate::protocol::RecordModel {
    crate::protocol::RecordModel {
        status: "unsupported"@,
        ..failed_record(request, sample, "workload"@, message)
    }
}

/// The record of a sample that failed at `stage`.
pub fn failed(
    request: &Request,
    sample: &SampleSpec,
    stage: &'static str,
    message: String,
) -> (record: ResultRecord)
    ensures
        record@ == failed_record(*request, *sample, stage@, message@),
{
    ResultRecord {
        schema_version: SCHEMA_VERSION,
        session_id: request.session_id.clone(),
        sample_id: sample.sample_id.clone(),
        case_id: sample.case_id.clone(),
        repetition: sample.repetition,
        phase: sample.phase.clone(),
        status: "failed",
        execution_duration_ns: None,
        execution_boundary: EXECUTION_BOUNDARY,
        baseline_hash: None,
        prepared_hash: None,
        commitment_hash: None,
        correctness_passed: false,
        target_count: None,
        opcode_counts: None,
        declared_gas: None,
        charged_gas: None,
        error: Some(ResultError { stage, message }),
    }
}

/// The record of a sample whose case is not supported.
pub fn unsupported(request: &Request, sample: &SampleSpec, message: String) -> (record:
    ResultRecord)
    ensures
        record@ == unsupported_record(*request, *sample, message@),
{
    let mut record = failed(request, sample, "workload", message);
    record.status = "unsupported";
    record
}

/// The duration that a record gives: only sessions that measure time give one.
pub open spec fn recorded_duration(mode: Mode, duration_ns: u64) -> Option<u64> {
    if mode == Mode::Performance {
        Some(duration_ns)
    } else {
        None
    }
}

/// The record of a sample whose case was prepared, given what came of its execution. Where nothing
/// was observed it failed at the stage `execute`; where something was, it passed or it failed at
/// the stage `correctness`.
pub open spec fn execution_record(
    request: Request,
    sample: SampleSpec,
    prepared: crate::prepare::PreparedModel,
    outcome: Result<crate::execute::ObservationModel, Seq<char>>,
) -> crate::protocol::RecordModel {
    match outcome {
        Err(message) => crate::protocol::RecordModel {
            baseline_hash: Some(prepared.baseline_hash),
            prepared_hash: Some(prepared.prepared_hash),
            declared_gas: Some(prepared.plan.declared_gas as u64),
            ..failed_record(request, sample, "execute"@, message)
        },
        Ok(observation) => {
            let passed = observation.correctness_error is None;
            crate::protocol::RecordModel {
                schema_version: SCHEMA_VERSION,
                session_id: request.session_id@,
                sample_id: sample.sample_id@,
                case_id: sample.case_id@,
                repetition: sample.repetition,
                phase: sample.phase@,
                status: if passed {
                    "executed"@
                } else {
                    "failed"@
                },
                execution_duration_ns: recorded_duration(request.mode, observation.duration_ns),
                execution_boundary: EXECUTION_BOUNDARY@,
                baseline_hash: Some(prepared.baseline_hash),
                prepared_hash: Some(prepared.prepared_hash),
                commitment_hash: Some(observation.commitment_hash),
                correctness_passed: passed,
                target_count: observation.target_count,
                opcode_counts: observation.opcode_counts,
                declared_gas: Some(prepared.plan.declared_gas as u64),
                charged_gas: Some(observation.charged_gas as u64),
                error: match observation.correctness_error {
                    Some(message) => Some(("correctness"@, message)),
                    None => None,
                },
            }
        },
    }
}

/// The record of a sample whose case was prepared, given what came of its execution.
pub fn executed(
    request: &Request,
    sample: &SampleSpec,
    prepared: &PreparedCase,
    outcome: Result<ExecutionObservation, String>,
) -> (record: ResultRecord)
    ensures
        record@ == execution_record(
            *request,
            *sample,
            prepared@,
            crate::execute::outcome_view(outcome),
        ),
{
    let observation = match outcome {
        Ok(observation) => observation,
        Err(message) => {
            let mut record = failed(request, sample, "execute", message);
            record.baseline_hash = Some(prepared.baseline_hash.clone());
            record.prepared_hash = Some(prepared.prepared_hash.clone());
            record.declared_gas = Some(prepared.declared_gas);
            return record;
        },
    };
    let execution_duration_ns: Option<u64> = if request.mode == Mode::Performance {
        Some(observation.duration_ns)
    } else {
        None
    };
    let (status, correctness_passed, error): (&'static str, bool, Option<ResultError>) =
        match observation.correctness_error {
        Some(message) => ("failed", false, Some(ResultError { stage: "correctness", message })),
        None => ("executed", true, None),
    };
    ResultRecord {
        schema_version: SCHEMA_VERSION,
        session_id: request.session_id.clone(),
        sample_id: sample.sample_id.clone(),
        case_id: sample.case_id.clone(),
        repetition: sample.repetition,
        phase: sample.phase.clone(),
        status,
        execution_duration_ns,
        execution_boundary: EXECUTION_BOUNDARY,
        baseline_hash: Some(prepared.baseline_hash.clone()),
        prepared_hash: Some(prepared.prepared_hash.clone()),
        commitment_hash: Some(observation.commitment_hash),
        correctness_passed,
        target_count: observation.target_count,
        opcode_counts: observation.opcode_counts,
        declared_gas: Some(prepared.declared_gas),
        charged_gas: Some(observation.charged_gas),
        error,
    }
}

/// A record answers a sample of a session: it names both.
pub open spec fn answers(
    record: crate::protocol::RecordModel,
    request: Request,
    sample: SampleSpec,
) -> bool {
    &&& record.schema_version == SCHEMA_VERSION
    &&& record.session_id == request.session_id@
    &&& record.sample_id == sample.sample_id@
    &&& record.case_id == sample.case_id@
    &&& record.repetition == sample.repetition
    &&& record.phase == sample.phase@
    &&& record.execution_boundary == EXECUTION_BOUNDARY@
}

/// The parts of a record agree: it has passed exactly where its status is `executed` and exactly
/// where it has no error, and what has passed has all hashes and both sums of gas.
pub open spec fn is_consistent(record: crate::protocol::RecordModel) -> bool {
    &&& record.correctness_passed <==> record.status == "executed"@
    &&& record.correctness_passed <==> record.error is None
    &&& record.correctness_passed ==> {
        &&& record.baseline_hash is Some
        &&& record.prepared_hash is Some
        &&& record.commitment_hash is Some
        &&& record.declared_gas is Some
        &&& record.charged_gas is Some
    }
}

/// Every record that a sample can be answered with names the session and the sample, and its parts
/// agree.
pub proof fn law_records_are_consistent(
    request: Request,
    sample: SampleSpec,
    stage: Seq<char>,
    message: Seq<char>,
    prepared: crate::prepare::PreparedModel,
    outcome: Result<crate::execute::ObservationModel, Seq<char>>,
)
    ensures
        answers(failed_record(request, sample, stage, message), request, sample),
        answers(unsupported_record(request, sample, message), request, sample),
        answers(execution_record(request, sample, prepared, outcome), request, sample),
        is_consistent(failed_record(request, sample, stage, message)),
        is_consistent(unsupported_record(request, sample, message)),
        is_consistent(execution_record(request, sample, prepared, outcome)),
{
    reveal_strlit("executed");
    reveal_strlit("failed");
    reveal_strlit("unsupported");
    assert("executed"@.len() == 8);
    assert("failed"@.len() == 6);
    assert("unsupported"@.len() == 11);
}

/// Time is recorded only in a session that measures it.
pub proof fn law_diagnostic_records_no_duration(
    request: Request,
    sample: SampleSpec,
    prepared: crate::prepare::PreparedModel,
    outcome: Result<crate::execute::ObservationModel, Seq<char>>,
)
    requires
        request.mode == Mode::Diagnostic,
    ensures
        execution_record(request, sample, prepared, outcome).execution_duration_ns is None,
{
}

/// The record of a sample that failed before its case was prepared says which sample it was, at
/// which stage it failed and why, and nothing else.
pub proof fn law_failed_records(
    request: Request,
    sample: SampleSpec,
    stage: Seq<char>,
    message: Seq<char>,
)
    ensures
        ({
            let record = failed_record(request, sample, stage, message);
            &&& record.schema_version == 2
            &&& record.session_id == request.session_id@
            &&& record.sample_id == sample.sample_id@
            &&& record.case_id == sample.case_id@
            &&& record.repetition == sample.repetition
            &&& record.phase == sample.phase@
            &&& record.execution_boundary == "evm2_transaction_execution"@
            &&& record.execution_duration_ns is None
            &&& record.baseline_hash is None
            &&& record.prepared_hash is None
            &&& record.commitment_hash is None
            &&& !record.correctness_passed
            &&& record.target_count is None
            &&& record.opcode_counts is None
            &&& record.declared_gas is None
            &&& record.charged_gas is None
            &&& record.status == "failed"@
            &&& record.error == Some((stage, message))
        }),
{
}

/// The record of a sample whose case is not supported says so, and which sample it was.
pub proof fn law_unsupported_records(request: Request, sample: SampleSpec, message: Seq<char>)
    ensures
        ({
            let record = unsupported_record(request, sample, message);
            &&& record.schema_version == 2
            &&& record.session_id == request.session_id@
            &&& record.sample_id == sample.sample_id@
            &&& record.case_id == sample.case_id@
            &&& record.repetition == sample.repetition
            &&& record.phase == sample.phase@
            &&& record.execution_boundary == "evm2_transaction_execution"@
            &&& record.execution_duration_ns is None
            &&& record.baseline_hash is None
            &&& record.prepared_hash is None
            &&& record.commitment_hash is None
            &&& !record.correctness_passed
            &&& record.target_count is None
            &&& record.opcode_counts is None
            &&& record.declared_gas is None
            &&& record.charged_gas is None
            &&& record.status == "unsupported"@
            &&& record.error == Some(("workload"@, message))
        }),
{
}

/// The record of an execution that came to nothing has what was known before it, and why it came to
/// nothing.
pub proof fn law_records_of_executions_that_came_to_nothing(
    request: Request,
    sample: SampleSpec,
    prepared: crate::prepare::PreparedModel,
    message: Seq<char>,
)
    ensures
        ({
            let record = execution_record(request, sample, prepared, Err(message));
            &&& record.schema_version == 2
            &&& record.session_id == request.session_id@
            &&& record.sample_id == sample.sample_id@
            &&& record.case_id == sample.case_id@
            &&& record.repetition == sample.repetition
            &&& record.phase == sample.phase@
            &&& record.execution_boundary == "evm2_transaction_execution"@
            &&& record.baseline_hash == Some(prepared.baseline_hash)
            &&& record.prepared_hash == Some(prepared.prepared_hash)
            &&& 0 <= prepared.plan.declared_gas <= u64::MAX ==> record.declared_gas is Some
                && record.declared_gas->0 == prepared.plan.declared_gas
            &&& record.execution_duration_ns is None
            &&& record.commitment_hash is None
            &&& record.charged_gas is None
            &&& record.target_count is None
            &&& record.opcode_counts is None
            &&& !record.correctness_passed
            &&& record.status == "failed"@
            &&& record.error == Some(("execute"@, message))
        }),
{
}

/// The record of an execution has everything that was prepared and observed, each under its own
/// name, in either mode and whether or not the sample passed; only the duration depends on the
/// mode.
pub proof fn law_records_report_what_was_observed(
    request: Request,
    sample: SampleSpec,
    prepared: crate::prepare::PreparedModel,
    observation: crate::execute::ObservationModel,
)
    ensures
        ({
            let record = execution_record(request, sample, prepared, Ok(observation));
            &&& record.schema_version == 2
            &&& record.session_id == request.session_id@
            &&& record.sample_id == sample.sample_id@
            &&& record.case_id == sample.case_id@
            &&& record.repetition == sample.repetition
            &&& record.phase == sample.phase@
            &&& record.execution_boundary == "evm2_transaction_execution"@
            &&& record.baseline_hash == Some(prepared.baseline_hash)
            &&& record.prepared_hash == Some(prepared.prepared_hash)
            &&& record.commitment_hash == Some(observation.commitment_hash)
            &&& 0 <= prepared.plan.declared_gas <= u64::MAX ==> record.declared_gas is Some
                && record.declared_gas->0 == prepared.plan.declared_gas
            &&& 0 <= observation.charged_gas <= u64::MAX ==> record.charged_gas is Some
                && record.charged_gas->0 == observation.charged_gas
            &&& record.target_count == observation.target_count
            &&& record.opcode_counts == observation.opcode_counts
            &&& request.mode == Mode::Performance ==> record.execution_duration_ns == Some(
                observation.duration_ns,
            )
            &&& request.mode == Mode::Diagnostic ==> record.execution_duration_ns is None
            &&& observation.correctness_error is None ==> record.correctness_passed && record.status
                == "executed"@ && record.error is None
            &&& observation.correctness_error matches Some(message) ==> !record.correctness_passed
                && record.status == "failed"@ && record.error == Some(("correctness"@, message))
        }),
{
}

/// A sample that failed is answered with a record that names it, the stage and the reason, and has
/// nothing else.
pub proof fn law_failing_gives_the_reason(
    request: &Request,
    sample: &SampleSpec,
    stage: &'static str,
    message: String,
    record: ResultRecord,
)
    requires
        call_ensures(failed, (request, sample, stage, message), record),
    ensures
        record.schema_version == 2,
        record.session_id@ == request.session_id@,
        record.sample_id@ == sample.sample_id@,
        record.case_id@ == sample.case_id@,
        record.repetition == sample.repetition,
        record.phase@ == sample.phase@,
        record.execution_boundary@ == "evm2_transaction_execution"@,
        record.execution_duration_ns is None,
        record.baseline_hash is None,
        record.prepared_hash is None,
        record.commitment_hash is None,
        !record.correctness_passed,
        record.target_count is None,
        record.opcode_counts is None,
        record.declared_gas is None,
        record.charged_gas is None,
        record.error is Some,
        record.status@ == "failed"@,
        record.error->0.stage@ == stage@,
        record.error->0.message@ == message@,
{
    law_failed_records(*request, *sample, stage@, message@);
    crate::protocol::law_contents_of_records(record);
}

/// A sample of a case that is not supported is answered with a record that names it and says why,
/// and has nothing else.
pub proof fn law_not_supporting_gives_the_reason(
    request: &Request,
    sample: &SampleSpec,
    message: String,
    record: ResultRecord,
)
    requires
        call_ensures(unsupported, (request, sample, message), record),
    ensures
        record.schema_version == 2,
        record.session_id@ == request.session_id@,
        record.sample_id@ == sample.sample_id@,
        record.case_id@ == sample.case_id@,
        record.repetition == sample.repetition,
        record.phase@ == sample.phase@,
        record.execution_boundary@ == "evm2_transaction_execution"@,
        record.execution_duration_ns is None,
        record.baseline_hash is None,
        record.prepared_hash is None,
        record.commitment_hash is None,
        !record.correctness_passed,
        record.target_count is None,
        record.opcode_counts is None,
        record.declared_gas is None,
        record.charged_gas is None,
        record.error is Some,
        record.status@ == "unsupported"@,
        record.error->0.stage@ == "workload"@,
        record.error->0.message@ == message@,
{
    law_unsupported_records(*request, *sample, message@);
    crate::protocol::law_contents_of_records(record);
}

/// An executed sample is answered with a record that has what was prepared and what was observed,
/// each figure under its own name, in either mode and whether or not the sample passed.
pub proof fn law_executing_gives_what_was_observed(
    request: &Request,
    sample: &SampleSpec,
    prepared: &PreparedCase,
    observation: ExecutionObservation,
    record: ResultRecord,
)
    requires
        call_ensures(executed, (request, sample, prepared, Ok(observation)), record),
    ensures
        record.schema_version == 2,
        record.session_id@ == request.session_id@,
        record.sample_id@ == sample.sample_id@,
        record.case_id@ == sample.case_id@,
        record.repetition == sample.repetition,
        record.phase@ == sample.phase@,
        record.execution_boundary@ == "evm2_transaction_execution"@,
        record.baseline_hash is Some,
        record.baseline_hash->0@ == prepared.baseline_hash@,
        record.prepared_hash is Some,
        record.prepared_hash->0@ == prepared.prepared_hash@,
        record.commitment_hash is Some,
        record.commitment_hash->0@ == observation.commitment_hash@,
        record.declared_gas == Some(prepared.declared_gas),
        record.charged_gas == Some(observation.charged_gas),
        record.target_count == observation.target_count,
        record.opcode_counts is Some <==> observation.opcode_counts is Some,
        record.opcode_counts is Some ==> record.opcode_counts->0@
            == observation.opcode_counts->0@,
        request.mode == Mode::Performance ==> record.execution_duration_ns == Some(
            observation.duration_ns,
        ),
        request.mode == Mode::Diagnostic ==> record.execution_duration_ns is None,
        record.correctness_passed <==> observation.correctness_error is None,
        record.error is Some <==> observation.correctness_error is Some,
        record.error is None ==> record.status@ == "executed"@,
        record.error is Some ==> record.status@ == "failed"@ && record.error->0.stage@
            == "correctness"@ && record.error->0.message@ == observation.correctness_error->0@,
{
    law_records_report_what_was_observed(*request, *sample, prepared@, observation@);
    crate::protocol::law_contents_of_records(record);
    crate::prepare::law_contents_of_prepared_cases(*prepared, 0);
    crate::execute::law_contents_of_observations(observation);
}

/// A sample whose execution came to nothing is answered with a record that has what was prepared,
/// and why the execution came to nothing.
pub proof fn law_executing_gives_why_nothing_was_observed(
    request: &Request,
    sample: &SampleSpec,
    prepared: &PreparedCase,
    message: String,
    record: ResultRecord,
)
    requires
        call_ensures(executed, (request, sample, prepared, Err(message)), record),
    ensures
        record.schema_version == 2,
        record.session_id@ == request.session_id@,
        record.sample_id@ == sample.sample_id@,
        record.case_id@ == sample.case_id@,
        record.repetition == sample.repetition,
        record.phase@ == sample.phase@,
        record.execution_boundary@ == "evm2_transaction_execution"@,
        record.baseline_hash is Some,
        record.baseline_hash->0@ == prepared.baseline_hash@,
        record.prepared_hash is Some,
        record.prepared_hash->0@ == prepared.prepared_hash@,
        record.declared_gas == Some(prepared.declared_gas),
        record.execution_duration_ns is None,
        record.commitment_hash is None,
        record.charged_gas is None,
        record.target_count is None,
        record.opcode_counts is None,
        !record.correctness_passed,
        record.status@ == "failed"@,
        record.error is Some,
        record.error->0.stage@ == "execute"@,
        record.error->0.message@ == message@,
{
    law_records_of_executions_that_came_to_nothing(*request, *sample, prepared@, message@);
    crate::protocol::law_contents_of_records(record);
    crate::prepare::law_contents_of_prepared_cases(*prepared, 0);
}

} // verus!
