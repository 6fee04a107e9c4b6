//! From an execution to what is observed of it.

use crate::digest::hash_json;
use crate::json::Json;
use crate::outcomes::verify_outcomes;
use crate::prepare::PreparedCase;
use crate::primitives::{address_text, encode_hex, hash_text, Address};
use crate::protocol::{ExpectedLog, ExpectedReceipt};
use crate::sorted_map::SortedMap;
use crate::state::{state_snapshot, DatabaseState, StateSnapshot};
use vstd::prelude::*;

verus! {

/// A log that a transaction left.
#[derive(Debug)]
pub struct ObservedLog {
    pub address: Address,
    pub topics: Vec<[u8; 32]>,
    pub data: Vec<u8>,
}

/// What became of an executed transaction.
#[derive(Debug)]
pub struct TransactionResult {
    pub status: bool,
    pub logs: Vec<ObservedLog>,
    pub gas_used: u64,
}

/// What came of executing the transactions of a case one after the other.
#[derive(Debug)]
pub struct Execution {
    /// The result of each transaction, or the error that one was refused with.
    pub results: Result<Vec<TransactionResult>, String>,
    /// The state that the transactions left.
    pub post: DatabaseState,
    pub elapsed_nanos: u128,
    /// The counts of the inspector, where one was installed.
    pub counts: Option<SortedMap<String, u64>>,
}

/// What is observed of the execution of a case.
#[derive(Debug)]
pub struct ExecutionObservation {
    pub duration_ns: u64,
    pub commitment_hash: String,
    pub charged_gas: u64,
    pub opcode_counts: Option<SortedMap<String, u64>>,
    pub target_count: Option<u64>,
    pub correctness_error: Option<String>,
}

/// What the hash of an execution is taken of.
#[derive(Debug)]
pub struct Commitment<'a> {
    pub receipts: &'a Vec<ExpectedReceipt>,
    pub state: StateSnapshot,
}

/// An [`ExecutionObservation`] by its contents.
pub ghost struct ObservationModel {
    pub duration_ns: u64,
    pub commitment_hash: Seq<char>,
    pub charged_gas: int,
    pub opcode_counts: Option<Seq<(Seq<char>, u64)>>,
    pub target_count: Option<u64>,
    pub correctness_error: Option<Seq<char>>,
}

/// The entries of optional counts.
pub open spec fn counts_view(counts: Option<SortedMap<String, u64>>) -> Option<
    Seq<(Seq<char>, u64)>,
> {
    match counts {
        Some(counts) => Some(counts@),
        None => None,
    }
}

impl View for ExecutionObservation {
    type V = ObservationModel;

    open spec fn view(&self) -> ObservationModel {
        ObservationModel {
            duration_ns: self.duration_ns,
            commitment_hash: self.commitment_hash@,
            charged_gas: self.charged_gas as int,
            opcode_counts: counts_view(self.opcode_counts),
            target_count: self.target_count,
            correctness_error: crate::protocol::optional_text(self.correctness_error),
        }
    }
}

/// A log in hexadecimal notation.
pub open spec fn log_model(log: ObservedLog) -> crate::protocol::LogModel {
    crate::protocol::LogModel {
        address: crate::hex::prefixed_hex(log.address@),
        topics: log.topics@.map_values(|topic: [u8; 32]| crate::hex::prefixed_hex(topic@)),
        data: crate::hex::prefixed_hex(log.data@),
    }
}

/// The receipt of an executed transaction.
pub open spec fn receipt_model(result: TransactionResult) -> crate::protocol::ReceiptModel {
    crate::protocol::ReceiptModel {
        success: result.status,
        logs: result.logs@.map_values(|log: ObservedLog| log_model(log)),
    }
}

/// The receipts of executed transactions.
pub open spec fn receipts_model(results: Seq<TransactionResult>) -> Seq<
    crate::protocol::ReceiptModel,
> {
    results.map_values(|result: TransactionResult| receipt_model(result))
}

/// The sum of the gas that executed transactions used.
pub open spec fn gas_used(results: Seq<TransactionResult>) -> int
    decreases results.len(),
{
    if results.len() == 0 {
        0
    } else {
        gas_used(results.drop_last()) + results.last().gas_used
    }
}

/// The measured duration in nanoseconds: at least one, and at most what 64 bits hold.
pub open spec fn clamped(nanos: u128) -> u64 {
    if nanos > u64::MAX {
        u64::MAX
    } else if nanos == 0 {
        1
    } else {
        nanos as u64
    }
}

/// The notation of what the hash of an execution is taken of.
pub open spec fn commitment_json(
    receipts: Seq<crate::protocol::ReceiptModel>,
    post: DatabaseState,
) -> Seq<char> {
    "{\"receipts\":"@ + crate::json::receipts_json(receipts) + ",\"state\":"@
        + crate::state::snapshot_json(crate::state::snapshot_model(post)) + "}"@
}

/// How often the target was counted, or that it was not.
pub open spec fn target_count_of(key: Seq<char>, counts: Map<Seq<char>, u64>) -> Result<
    u64,
    Seq<char>,
> {
    if counts.contains_key(key) {
        Ok(counts[key])
    } else {
        Err("diagnostic execution did not observe target operation "@ + key)
    }
}

/// What is wrong with an execution: what is wrong with its outcomes, and that its target was not
/// counted.
pub open spec fn correctness_problem(
    outcomes: Option<Seq<char>>,
    target: Option<Result<u64, Seq<char>>>,
) -> Option<Seq<char>> {
    match target {
        Some(Err(missing)) => match outcomes {
            Some(problem) => Some(problem + "; "@ + missing),
            None => Some(missing),
        },
        _ => outcomes,
    }
}

/// What is observed of an execution whose transactions all had a result.
pub open spec fn observation_of(
    prepared: crate::prepare::PreparedModel,
    results: Seq<TransactionResult>,
    post: DatabaseState,
    elapsed_nanos: u128,
    counts: Option<SortedMap<String, u64>>,
) -> ObservationModel {
    let target = match counts {
        Some(counts) => Some(target_count_of(prepared.plan.target_count_key, counts.map())),
        None => None,
    };
    ObservationModel {
        duration_ns: clamped(elapsed_nanos),
        commitment_hash: crate::digest::json_hash(commitment_json(receipts_model(results), post)),
        charged_gas: gas_used(results),
        opcode_counts: counts_view(counts),
        target_count: match target {
            Some(Ok(count)) => Some(count),
            _ => None,
        },
        correctness_error: correctness_problem(
            crate::outcomes::outcome_problem(
                prepared.plan.expected,
                receipts_model(results),
                post,
            ),
            target,
        ),
    }
}

/// What is observed of an execution, or why nothing is: a transaction was refused, the inspector of
/// a diagnostic execution is missing, or the gas that was used does not fit 64 bits.
pub open spec fn execution_outcome(
    prepared: crate::prepare::PreparedModel,
    diagnostic: bool,
    execution: Execution,
) -> Result<ObservationModel, Seq<char>> {
    match execution.results {
        Err(error) => Err("evm transaction failed: "@ + error@),
        Ok(results) => if diagnostic && execution.counts is None {
            Err("diagnostic inspector was not installed"@)
        } else if gas_used(results@) > u64::MAX {
            Err("charged transaction gas sum overflows u64"@)
        } else {
            Ok(
                observation_of(
                    prepared,
                    results@,
                    execution.post,
                    execution.elapsed_nanos,
                    if diagnostic {
                        execution.counts
                    } else {
                        None
                    },
                ),
            )
        },
    }
}

impl<'a> Json for Commitment<'a> {
    open spec fn json(self) -> Seq<char> {
        "{\"receipts\":"@ + crate::json::receipts_json(
            crate::protocol::receipts_view(self.receipts@),
        ) + ",\"state\":"@ + crate::state::snapshot_json(self.state@) + "}"@
    }

    fn write_json(&self, out: &mut String) {
        let ghost start = out@;
        out.append("{\"receipts\":");
        self.receipts.write_json(out);
        out.append(",\"state\":");
        self.state.write_json(out);
        out.append("}");
        proof {
            crate::json::lemma_receipts_json(*self.receipts);
        }
        assert(out@ =~= start + self.json());
    }
}

/// The measured duration in nanoseconds: at least one, and at most what 64 bits hold.
pub fn duration_ns(nanos: u128) -> (duration: u64)
    ensures
        duration == clamped(nanos),
{
    if nanos > u64::MAX as u128 {
        u64::MAX
    } else if nanos == 0 {
        1
    } else {
        nanos as u64
    }
}

/// A log in hexadecimal notation.
pub fn observed_log(log: &ObservedLog) -> (observed: ExpectedLog)
    ensures
        observed@ == log_model(*log),
{
    let mut topics: Vec<String> = Vec::new();
    let mut i: usize = 0;
    while i < log.topics.len()
        invariant
            i <= log.topics@.len(),
            topics@.len() == i,
            forall|j: int|
                0 <= j < i ==> (#[trigger] topics@[j])@ == crate::hex::prefixed_hex(
                    log.topics@[j]@,
                ),
        decreases log.topics@.len() - i,
    {
        topics.push(hash_text(&log.topics[i]));
        i += 1;
    }
    let mut data = "0x".to_owned();
    data.append(encode_hex(log.data.as_slice()).as_str());
    let observed = ExpectedLog { address: address_text(&log.address), topics, data };
    proof {
        reveal_strlit("0x");
        assert(observed@.topics =~= log_model(*log).topics);
        assert(observed@.data =~= log_model(*log).data);
    }
    observed
}

fn observed_logs(logs: &Vec<ObservedLog>) -> (observed: Vec<ExpectedLog>)
    ensures
        observed@.len() == logs@.len(),
        forall|j: int| 0 <= j < logs@.len() ==> (#[trigger] observed@[j])@ == log_model(logs@[j]),
{
    let mut observed: Vec<ExpectedLog> = Vec::new();
    let mut i: usize = 0;
    while i < logs.len()
        invariant
            i <= logs@.len(),
            observed@.len() == i,
            forall|j: int| 0 <= j < i ==> (#[trigger] observed@[j])@ == log_model(logs@[j]),
        decreases logs@.len() - i,
    {
        observed.push(observed_log(&logs[i]));
        i += 1;
    }
    observed
}

/// The receipts of executed transactions.
pub fn observed_receipts(results: &Vec<TransactionResult>) -> (receipts: Vec<ExpectedReceipt>)
    ensures
        crate::protocol::receipts_view(receipts@) == receipts_model(results@),
{
    let mut receipts: Vec<ExpectedReceipt> = Vec::new();
    let mut i: usize = 0;
    while i < results.len()
        invariant
            i <= results@.len(),
            receipts@.len() == i,
            forall|j: int| 0 <= j < i ==> (#[trigger] receipts@[j])@ == receipt_model(results@[j]),
        decreases results@.len() - i,
    {
        let logs = observed_logs(&results[i].logs);
        let receipt = ExpectedReceipt { success: results[i].status, logs };
        assert(receipt@.logs =~= receipt_model(results@[i as int]).logs);
        receipts.push(receipt);
        i += 1;
    }
    assert(crate::protocol::receipts_view(receipts@) =~= receipts_model(results@));
    receipts
}

/// The sum of the gas that executed transactions used.
pub fn charged_gas(results: &Vec<TransactionResult>) -> (result: Result<u64, String>)
    ensures
        match result {
            Ok(gas) => gas == gas_used(results@),
            Err(problem) => {
                &&& gas_used(results@) > u64::MAX
                &&& problem@ == "charged transaction gas sum overflows u64"@
            },
        },
{
    let mut total: u64 = 0;
    let mut i: usize = 0;
    assert(results@.take(0) =~= Seq::empty());
    while i < results.len()
        invariant
            i <= results@.len(),
            total == gas_used(results@.take(i as int)),
        decreases results@.len() - i,
    {
        assert(results@.take(i + 1).drop_last() =~= results@.take(i as int));
        match total.checked_add(results[i].gas_used) {
            Some(sum) => {
                total = sum;
            },
            None => {
                proof {
                    lemma_gas_grows(results@, i + 1);
                }
                return Err("charged transaction gas sum overflows u64".to_owned());
            },
        }
        i += 1;
    }
    assert(results@.take(i as int) =~= results@);
    Ok(total)
}

proof fn lemma_gas_grows(results: Seq<TransactionResult>, n: int)
    requires
        0 <= n <= results.len(),
    ensures
        gas_used(results.take(n)) <= gas_used(results),
    decreases results.len() - n,
{
    if n == results.len() {
        assert(results.take(n) =~= results);
    } else {
        assert(results.take(n + 1).drop_last() =~= results.take(n));
        lemma_gas_grows(results, n + 1);
    }
}

/// How often the target of a case was counted.
pub fn target_count(prepared: &PreparedCase, counts: &SortedMap<String, u64>) -> (result: Result<
    u64,
    String,
>)
    ensures
        match result {
            Ok(count) => target_count_of(prepared.target_count_key@, counts.map()) == Ok::<
                u64,
                Seq<char>,
            >(count),
            Err(problem) => target_count_of(prepared.target_count_key@, counts.map()) == Err::<
                u64,
                Seq<char>,
            >(problem@),
        },
{
    match counts.get(&prepared.target_count_key) {
        Some(count) => Ok(*count),
        None => {
            let mut problem =
                "diagnostic execution did not observe target operation ".to_owned();
            problem.append(prepared.target_count_key.as_str());
            Err(problem)
        },
    }
}

/// What was observed of an execution, or why nothing was, by its contents.
pub open spec fn outcome_view(outcome: Result<ExecutionObservation, String>) -> Result<
    ObservationModel,
    Seq<char>,
> {
    match outcome {
        Ok(observation) => Ok(observation@),
        Err(problem) => Err(problem@),
    }
}

/// What is observed of the execution of a case.
pub fn execute_case(prepared: &PreparedCase, diagnostic: bool, execution: Execution) -> (result:
    Result<ExecutionObservation, String>)
    ensures
        outcome_view(result) == execution_outcome(prepared@, diagnostic, execution),
        result matches Ok(observation) ==> observation.commitment_hash@.len() == 64,
{
    let results = match execution.results {
        Ok(results) => results,
        Err(error) => {
            let mut problem = "evm transaction failed: ".to_owned();
            problem.append(error.as_str());
            return Err(problem);
        },
    };
    let counts = if diagnostic {
        match execution.counts {
            Some(counts) => Some(counts),
            None => {
                return Err("diagnostic inspector was not installed".to_owned());
            },
        }
    } else {
        None
    };
    let receipts = observed_receipts(&results);
    let mut correctness_error = match verify_outcomes(
        &prepared.expected,
        &receipts,
        &execution.post,
    ) {
        Ok(_) => None,
        Err(problem) => Some(problem),
    };
    let charged_gas: u64 = match charged_gas(&results) {
        Ok(gas) => gas,
        Err(problem) => {
            return Err(problem);
        },
    };
    let commitment_hash = hash_json(
        &Commitment { receipts: &receipts, state: state_snapshot(&execution.post) },
    );
    let mut observed_count: Option<u64> = None;
    if let Some(counts) = &counts {
        match target_count(prepared, counts) {
            Ok(count) => {
                observed_count = Some(count);
            },
            Err(missing) => {
                correctness_error = Some(
                    match correctness_error {
                        Some(existing) => {
                            let mut problem = existing;
                            problem.append("; ");
                            problem.append(missing.as_str());
                            problem
                        },
                        None => missing,
                    },
                );
            },
        }
    }
    Ok(
        ExecutionObservation {
            duration_ns: duration_ns(execution.elapsed_nanos),
            commitment_hash,
            charged_gas,
            opcode_counts: counts,
            target_count: observed_count,
            correctness_error,
        },
    )
}

/// The target of an execution that was counted from the start is never missing: where the counts
/// have an entry for it, the target count is that entry, and the correctness of the execution is
/// that of its outcomes.
pub proof fn law_counted_target_is_observed(
    prepared: crate::prepare::PreparedModel,
    results: Seq<TransactionResult>,
    post: DatabaseState,
    elapsed_nanos: u128,
    counts: SortedMap<String, u64>,
)
    requires
        counts.map().contains_key(prepared.plan.target_count_key),
    ensures
        ({
            let observation = observation_of(prepared, results, post, elapsed_nanos, Some(counts));
            &&& observation.target_count == Some(counts.map()[prepared.plan.target_count_key])
            &&& observation.correctness_error == crate::outcomes::outcome_problem(
                prepared.plan.expected,
                receipts_model(results),
                post,
            )
        }),
{
}

/// The results of executed transactions by their contents: the receipt and the gas of each, or the
/// error that one was refused with.
pub open spec fn results_view(results: Result<Vec<TransactionResult>, String>) -> Result<
    Seq<(crate::protocol::ReceiptModel, u64)>,
    Seq<char>,
> {
    match results {
        Ok(results) => Ok(
            results@.map_values(
                |result: TransactionResult| (receipt_model(result), result.gas_used),
            ),
        ),
        Err(error) => Err(error@),
    }
}

/// Two optional counts are the same.
pub open spec fn same_counts(
    a: Option<SortedMap<String, u64>>,
    b: Option<SortedMap<String, u64>>,
) -> bool {
    match (a, b) {
        (Some(a), Some(b)) => a.map() == b.map(),
        (None, None) => true,
        _ => false,
    }
}

/// Two executions gave the same results and left the same state.
pub open spec fn same_effects(a: Execution, b: Execution) -> bool {
    &&& results_view(a.results) == results_view(b.results)
    &&& crate::state::holds_same(a.post, b.post)
}

/// Two executions differ in nothing but the time that they took.
pub open spec fn same_but_for_time(a: Execution, b: Execution) -> bool {
    same_effects(a, b) && same_counts(a.counts, b.counts)
}

/// Every map of an execution is in order.
pub open spec fn is_valid(execution: Execution) -> bool {
    &&& crate::state::is_valid(execution.post)
    &&& execution.counts matches Some(counts) ==> counts.well_formed()
}

/// Two outcomes are the same error, or observations that differ at most in the duration.
pub open spec fn same_but_for_duration(
    a: Result<ObservationModel, Seq<char>>,
    b: Result<ObservationModel, Seq<char>>,
) -> bool {
    match (a, b) {
        (Ok(a), Ok(b)) => b == ObservationModel { duration_ns: b.duration_ns, ..a },
        (Err(a), Err(b)) => a == b,
        _ => false,
    }
}

proof fn lemma_gas_used(a: Seq<TransactionResult>, b: Seq<TransactionResult>)
    requires
        a.len() == b.len(),
        forall|i: int| 0 <= i < a.len() ==> (#[trigger] a[i]).gas_used == b[i].gas_used,
    ensures
        gas_used(a) == gas_used(b),
    decreases a.len(),
{
    if a.len() > 0 {
        let (s, t) = (a.drop_last(), b.drop_last());
        assert forall|i: int| 0 <= i < s.len() implies (#[trigger] s[i]).gas_used
            == t[i].gas_used by {
            assert(a[i].gas_used == b[i].gas_used);
        }
        lemma_gas_used(s, t);
        assert(a[a.len() - 1].gas_used == b[b.len() - 1].gas_used);
    }
}

/// Executions with the same effects have the same receipts, the same gas and the same snapshot, and
/// the same is wrong with their outcomes.
proof fn lemma_same_effects(prepared: crate::prepare::PreparedModel, a: Execution, b: Execution)
    requires
        crate::state::is_valid(a.post),
        crate::state::is_valid(b.post),
        same_effects(a, b),
        a.results is Ok,
    ensures
        b.results is Ok,
        receipts_model(a.results->Ok_0@) == receipts_model(b.results->Ok_0@),
        gas_used(a.results->Ok_0@) == gas_used(b.results->Ok_0@),
        crate::state::snapshot_model(a.post) == crate::state::snapshot_model(b.post),
        crate::outcomes::outcome_problem(
            prepared.plan.expected,
            receipts_model(a.results->Ok_0@),
            a.post,
        ) == crate::outcomes::outcome_problem(
            prepared.plan.expected,
            receipts_model(b.results->Ok_0@),
            b.post,
        ),
{
    let (s, t) = (a.results->Ok_0@, b.results->Ok_0@);
    let (u, v) = (results_view(a.results)->Ok_0, results_view(b.results)->Ok_0);
    assert(u == v);
    assert(u.len() == s.len() && v.len() == t.len());
    assert forall|i: int| 0 <= i < s.len() implies receipt_model(s[i]) == receipt_model(t[i])
        && (#[trigger] s[i]).gas_used == t[i].gas_used by {
        assert(u[i] == (receipt_model(s[i]), s[i].gas_used));
        assert(v[i] == (receipt_model(t[i]), t[i].gas_used));
    }
    lemma_gas_used(s, t);
    assert(receipts_model(s) =~= receipts_model(t));
    crate::state::law_snapshot_follows_from_contents(a.post, b.post);
    crate::outcomes::law_outcomes_follow_from_contents(
        prepared.plan.expected,
        receipts_model(s),
        a.post,
        b.post,
    );
}

/// The clock shows only in the duration: executions of a case that differ in nothing but the time
/// that they took come to the same error, or to observations that differ at most in the duration.
pub proof fn law_time_shows_only_in_the_duration(
    prepared: crate::prepare::PreparedModel,
    diagnostic: bool,
    a: Execution,
    b: Execution,
)
    requires
        is_valid(a),
        is_valid(b),
        same_but_for_time(a, b),
    ensures
        same_but_for_duration(
            execution_outcome(prepared, diagnostic, a),
            execution_outcome(prepared, diagnostic, b),
        ),
{
    if a.results is Ok {
        lemma_same_effects(prepared, a, b);
        if a.counts is Some {
            crate::sorted_map::law_entries_follow_from_map::<String, u64>(
                a.counts->0@,
                b.counts->0@,
            );
        }
    }
}

/// Counting does not influence correctness: where a diagnostic execution, with a count of the
/// target, and one that is only timed have the same effects, they come to the same error, or to
/// observations with the same commitment, the same gas and the same correctness.
pub proof fn law_counting_does_not_influence_correctness(
    prepared: crate::prepare::PreparedModel,
    counting: Execution,
    timed: Execution,
)
    requires
        crate::state::is_valid(counting.post),
        crate::state::is_valid(timed.post),
        same_effects(counting, timed),
        counting.counts is Some,
        counting.counts->0.map().contains_key(prepared.plan.target_count_key),
    ensures
        match (
            execution_outcome(prepared, true, counting),
            execution_outcome(prepared, false, timed),
        ) {
            (Ok(a), Ok(b)) => {
                &&& a.commitment_hash == b.commitment_hash
                &&& a.charged_gas == b.charged_gas
                &&& a.correctness_error == b.correctness_error
            },
            (Err(a), Err(b)) => a == b,
            _ => false,
        },
{
    if counting.results is Ok {
        lemma_same_effects(prepared, counting, timed);
    }
}

/// Executed transactions have a receipt each, in order, that says whether the transaction succeeded
/// and has a log for each that it left.
pub proof fn law_receipts_are_as_left(results: Seq<TransactionResult>, i: int)
    requires
        0 <= i < results.len(),
    ensures
        receipts_model(results).len() == results.len(),
        receipts_model(results)[i].success == results[i].status,
        receipts_model(results)[i].logs.len() == results[i].logs@.len(),
{
}

/// The log at each place of a receipt is the one that the transaction left there: reading its texts
/// back gives the address, each topic in order, and the data, and they are written in small digits.
pub proof fn law_logs_are_as_left(results: Seq<TransactionResult>, i: int, j: int)
    requires
        0 <= i < results.len(),
        0 <= j < results[i].logs@.len(),
    ensures
        ({
            let left = results[i].logs@[j];
            let log = receipts_model(results)[i].logs[j];
            &&& log.address == crate::hex::prefixed_hex(left.address@)
            &&& crate::primitives::address_of(log.address) == Ok::<Seq<u8>, Seq<char>>(
                left.address@,
            )
            &&& log.topics.len() == left.topics@.len()
            &&& forall|k: int|
                0 <= k < left.topics@.len() ==> #[trigger] log.topics[k]
                    == crate::hex::prefixed_hex(left.topics@[k]@) && crate::primitives::bytes_of(
                    log.topics[k],
                ) == Ok::<Seq<u8>, Seq<char>>(left.topics@[k]@)
            &&& log.data == crate::hex::prefixed_hex(left.data@)
            &&& crate::primitives::bytes_of(log.data) == Ok::<Seq<u8>, Seq<char>>(left.data@)
        }),
{
    let left = results[i].logs@[j];
    let log = receipts_model(results)[i].logs[j];
    assert(log == log_model(left));
    crate::primitives::law_address_round_trip(left.address);
    crate::primitives::law_bytes_round_trip(left.data@);
    assert forall|k: int| 0 <= k < left.topics@.len() implies #[trigger] log.topics[k]
        == crate::hex::prefixed_hex(left.topics@[k]@) && crate::primitives::bytes_of(log.topics[k])
        == Ok::<Seq<u8>, Seq<char>>(left.topics@[k]@) by {
        crate::primitives::law_bytes_round_trip(left.topics@[k]@);
    }
}

/// Receipts tell results apart: transactions with the same receipts succeeded alike and left the
/// same logs.
pub proof fn law_receipts_determine_logs(
    a: Seq<TransactionResult>,
    b: Seq<TransactionResult>,
    i: int,
    j: int,
)
    requires
        receipts_model(a) == receipts_model(b),
        0 <= i < a.len(),
        0 <= j < a[i].logs@.len(),
    ensures
        a.len() == b.len(),
        a[i].status == b[i].status,
        a[i].logs@.len() == b[i].logs@.len(),
        a[i].logs@[j].address@ == b[i].logs@[j].address@,
        a[i].logs@[j].data@ == b[i].logs@[j].data@,
        a[i].logs@[j].topics@.len() == b[i].logs@[j].topics@.len(),
        forall|k: int|
            0 <= k < a[i].logs@[j].topics@.len() ==> (#[trigger] a[i].logs@[j].topics@[k])@
                == b[i].logs@[j].topics@[k]@,
{
    law_receipts_are_as_left(a, i);
    assert(receipts_model(b).len() == b.len());
    law_receipts_are_as_left(b, i);
    law_logs_are_as_left(a, i, j);
    law_logs_are_as_left(b, i, j);
    let (s, t) = (a[i].logs@[j], b[i].logs@[j]);
    let log = receipts_model(a)[i].logs[j];
    assert forall|k: int| 0 <= k < s.topics@.len() implies (#[trigger] s.topics@[k])@
        == t.topics@[k]@ by {
        assert(crate::primitives::bytes_of(log.topics[k]) == Ok::<Seq<u8>, Seq<char>>(
            s.topics@[k]@,
        ));
        assert(crate::primitives::bytes_of(log.topics[k]) == Ok::<Seq<u8>, Seq<char>>(
            t.topics@[k]@,
        ));
    }
}

/// The sum of the gas that executed transactions used.
pub open spec fn total_gas(results: Seq<TransactionResult>) -> int {
    results.fold_left(0int, |sum: int, result: TransactionResult| sum + result.gas_used)
}

proof fn lemma_total_gas(results: Seq<TransactionResult>)
    ensures
        gas_used(results) == total_gas(results),
    decreases results.len(),
{
    reveal_with_fuel(Seq::fold_left, 2);
    if results.len() > 0 {
        lemma_total_gas(results.drop_last());
    }
}

/// An execution comes to nothing for exactly three reasons, in this order: a transaction was
/// refused, a diagnostic execution was not counted, or the sum of the gas does not fit 64 bits.
pub proof fn law_executions_that_come_to_nothing(
    prepared: crate::prepare::PreparedModel,
    diagnostic: bool,
    execution: Execution,
)
    ensures
        ({
            let outcome = execution_outcome(prepared, diagnostic, execution);
            let uncounted = diagnostic && execution.counts is None;
            &&& execution.results matches Err(error) ==> outcome == Err::<
                ObservationModel,
                Seq<char>,
            >("evm transaction failed: "@ + error@)
            &&& execution.results is Ok && uncounted ==> outcome == Err::<
                ObservationModel,
                Seq<char>,
            >("diagnostic inspector was not installed"@)
            &&& execution.results is Ok && !uncounted && total_gas(execution.results->Ok_0@)
                > u64::MAX ==> outcome == Err::<ObservationModel, Seq<char>>(
                "charged transaction gas sum overflows u64"@,
            )
            &&& execution.results is Ok && !uncounted && total_gas(execution.results->Ok_0@)
                <= u64::MAX ==> outcome is Ok
        }),
{
    if execution.results is Ok {
        lemma_total_gas(execution.results->Ok_0@);
    }
}

/// What is observed of an execution: the gas is the sum of what the transactions used, the hash is
/// the digest of the notation of receipts and state, and the duration is the time that was
/// measured, where it is at least a nanosecond and fits 64 bits.
pub proof fn law_observations_report_the_execution(
    prepared: crate::prepare::PreparedModel,
    diagnostic: bool,
    execution: Execution,
)
    requires
        execution_outcome(prepared, diagnostic, execution) is Ok,
    ensures
        ({
            let observation = execution_outcome(prepared, diagnostic, execution)->Ok_0;
            let nanos = execution.elapsed_nanos;
            &&& execution.results is Ok
            &&& observation.charged_gas == total_gas(execution.results->Ok_0@)
            &&& 0 <= observation.charged_gas <= u64::MAX
            &&& crate::hex::decoded(observation.commitment_hash) == crate::digest::sha256_digest(
                vstd::utf8::encode_utf8(
                    commitment_json(
                        receipts_model(execution.results->Ok_0@),
                        execution.post,
                    ),
                ),
            )
            &&& 1 <= nanos <= u64::MAX ==> observation.duration_ns == nanos
            &&& nanos == 0 ==> observation.duration_ns == 1
            &&& nanos > u64::MAX ==> observation.duration_ns == u64::MAX
        }),
{
    let results = execution.results->Ok_0@;
    lemma_total_gas(results);
    lemma_gas_grows(results, 0);
    assert(results.take(0) =~= Seq::empty());
    crate::hex::lemma_decoded_lower_hex(
        crate::digest::sha256_digest(
            vstd::utf8::encode_utf8(commitment_json(receipts_model(results), execution.post)),
        ),
    );
}

/// A diagnostic execution reports its counts, and the count of the target among them; another
/// reports none.
pub proof fn law_observations_report_the_counts(
    prepared: crate::prepare::PreparedModel,
    diagnostic: bool,
    execution: Execution,
)
    requires
        execution_outcome(prepared, diagnostic, execution) is Ok,
    ensures
        ({
            let observation = execution_outcome(prepared, diagnostic, execution)->Ok_0;
            let key = prepared.plan.target_count_key;
            &&& !diagnostic ==> observation.opcode_counts is None && observation.target_count
                is None
            &&& diagnostic ==> {
                let counts = execution.counts->0;
                &&& execution.counts is Some
                &&& observation.opcode_counts == Some(counts@)
                &&& counts.map().contains_key(key) ==> observation.target_count == Some(
                    counts.map()[key],
                )
                &&& !counts.map().contains_key(key) ==> observation.target_count is None
            }
        }),
{
}

/// What is wrong with an execution is what is wrong with its outcomes, and, where a diagnostic
/// execution did not count the target, that it did not.
pub proof fn law_observations_report_what_is_wrong(
    prepared: crate::prepare::PreparedModel,
    diagnostic: bool,
    execution: Execution,
)
    requires
        execution_outcome(prepared, diagnostic, execution) is Ok,
    ensures
        ({
            let observation = execution_outcome(prepared, diagnostic, execution)->Ok_0;
            let key = prepared.plan.target_count_key;
            let counted = diagnostic ==> execution.counts->0.map().contains_key(key);
            let missing = "diagnostic execution did not observe target operation "@ + key;
            let problem = crate::outcomes::outcome_problem(
                prepared.plan.expected,
                receipts_model(execution.results->Ok_0@),
                execution.post,
            );
            &&& counted ==> observation.correctness_error == problem
            &&& !counted && problem is None ==> observation.correctness_error == Some(missing)
            &&& !counted && problem is Some ==> observation.correctness_error == Some(
                problem->0 + "; "@ + missing,
            )
        }),
{
}

/// The text that is hashed of an execution determines what it did: executions with the same
/// notation have the same receipts and left the same state.
pub proof fn law_commitments_determine_receipts_and_state(
    a: Seq<crate::protocol::ReceiptModel>,
    b: Seq<crate::protocol::ReceiptModel>,
    post: DatabaseState,
    other: DatabaseState,
)
    requires
        commitment_json(a, post) == commitment_json(b, other),
    ensures
        a == b,
        crate::state::same_entries(post, other),
{
    crate::notation::lemma_commitment(a, b, post, other);
    crate::state::law_snapshots_determine_the_state(post, other);
}

/// The notation of a commitment is an object with the receipts and the state.
pub proof fn law_the_notation_of_a_commitment(
    receipts: Seq<crate::protocol::ReceiptModel>,
    post: DatabaseState,
)
    ensures
        commitment_json(receipts, post) == "{\"receipts\":"@ + crate::json::array_json(
            receipts,
            |receipt: crate::protocol::ReceiptModel| crate::json::receipt_json(receipt),
        ) + ",\"state\":"@ + crate::state::snapshot_json(crate::state::snapshot_model(post))
            + "}"@,
{
}

/// The contents of an observation are its members, each under its own name.
pub proof fn law_contents_of_observations(observation: ExecutionObservation)
    ensures
        observation@.duration_ns == observation.duration_ns,
        observation@.commitment_hash == observation.commitment_hash@,
        observation@.charged_gas == observation.charged_gas,
        observation.opcode_counts is Some ==> observation@.opcode_counts == Some(
            observation.opcode_counts->0@,
        ),
        observation.opcode_counts is None ==> observation@.opcode_counts is None,
        observation@.target_count == observation.target_count,
        observation.correctness_error is Some ==> observation@.correctness_error == Some(
            observation.correctness_error->0@,
        ),
        observation.correctness_error is None ==> observation@.correctness_error is None,
        outcome_view(Ok(observation)) == Ok::<ObservationModel, Seq<char>>(observation@),
{
}

/// The measured duration is the time in nanoseconds, but at least one and at most what 64 bits
/// hold; a longer time never has the shorter duration.
pub proof fn law_durations_follow_the_time(a: u128, b: u128)
    requires
        a <= b,
    ensures
        1 <= clamped(a) <= clamped(b),
        1 <= a <= u64::MAX ==> clamped(a) == a,
        a > u64::MAX ==> clamped(a) == u64::MAX,
{
}

/// Observing executed transactions gives a receipt each, with every log that the transaction left:
/// reading the texts of a log back gives its address and its data.
pub proof fn law_observing_keeps_the_receipts(
    results: &Vec<TransactionResult>,
    receipts: Vec<ExpectedReceipt>,
    i: int,
    j: int,
    k: int,
)
    requires
        call_ensures(observed_receipts, (results,), receipts),
        0 <= i < results@.len(),
    ensures
        receipts@.len() == results@.len(),
        receipts@[i].success == results@[i].status,
        receipts@[i].logs@.len() == results@[i].logs@.len(),
        0 <= j < results@[i].logs@.len() ==> {
            let left = results@[i].logs@[j];
            let log = receipts@[i].logs@[j];
            &&& log.address@ == crate::hex::prefixed_hex(left.address@)
            &&& crate::primitives::address_of(log.address@) == Ok::<Seq<u8>, Seq<char>>(
                left.address@,
            )
            &&& log.topics@.len() == left.topics@.len()
            &&& 0 <= k < left.topics@.len() ==> log.topics@[k]@ == crate::hex::prefixed_hex(
                left.topics@[k]@,
            ) && crate::primitives::bytes_of(log.topics@[k]@) == Ok::<Seq<u8>, Seq<char>>(
                left.topics@[k]@,
            )
            &&& log.data@ == crate::hex::prefixed_hex(left.data@)
            &&& crate::primitives::bytes_of(log.data@) == Ok::<Seq<u8>, Seq<char>>(left.data@)
        },
{
    let models = receipts_model(results@);
    assert(crate::protocol::receipts_view(receipts@).len() == receipts@.len());
    law_receipts_are_as_left(results@, i);
    assert(receipts@[i]@ == models[i]);
    crate::protocol::law_contents_of_receipts(receipts@[i], j);
    if 0 <= j < results@[i].logs@.len() {
        law_logs_are_as_left(results@, i, j);
        let log = receipts@[i].logs@[j];
        assert(log@ == models[i].logs[j]);
        crate::protocol::law_contents_of_logs(log, k);
        if 0 <= k < results@[i].logs@[j].topics@.len() {
            assert(log@.topics[k] == log.topics@[k]@);
        }
    }
}

/// Observing a log gives its address, its topics in order and its data, in small digits.
pub proof fn law_observing_keeps_a_log(log: &ObservedLog, observed: ExpectedLog, k: int)
    requires
        call_ensures(observed_log, (log,), observed),
    ensures
        observed.address@ == crate::hex::prefixed_hex(log.address@),
        observed.data@ == crate::hex::prefixed_hex(log.data@),
        observed.topics@.len() == log.topics@.len(),
        0 <= k < log.topics@.len() ==> observed.topics@[k]@ == crate::hex::prefixed_hex(
            log.topics@[k]@,
        ),
{
    crate::protocol::law_contents_of_logs(observed, k);
    if 0 <= k < log.topics@.len() {
        assert(observed@.topics[k] == crate::hex::prefixed_hex(log.topics@[k]@));
    }
}

/// The gas that is charged is the sum of the gas that the transactions used, where it fits 64 bits.
pub proof fn law_charging_adds_up(results: &Vec<TransactionResult>, result: Result<u64, String>)
    requires
        call_ensures(charged_gas, (results,), result),
    ensures
        result is Ok <==> total_gas(results@) <= u64::MAX,
        result is Ok ==> result->Ok_0 == total_gas(results@),
        result is Err ==> result->Err_0@ == "charged transaction gas sum overflows u64"@,
{
    lemma_total_gas(results@);
}

/// The duration is the measured time, but at least a nanosecond and at most what 64 bits hold.
pub proof fn law_timing_gives_the_time(nanos: u128, duration: u64)
    requires
        call_ensures(duration_ns, (nanos,), duration),
    ensures
        1 <= nanos <= u64::MAX ==> duration == nanos,
        nanos == 0 ==> duration == 1,
        nanos > u64::MAX ==> duration == u64::MAX,
{
}

/// The count of the target is the one under its key; where there is none, the key is named.
pub proof fn law_counting_finds_the_target(
    prepared: &PreparedCase,
    counts: &SortedMap<String, u64>,
    result: Result<u64, String>,
)
    requires
        call_ensures(target_count, (prepared, counts), result),
    ensures
        result is Ok <==> counts.map().contains_key(prepared.target_count_key@),
        result is Ok ==> result->Ok_0 == counts.map()[prepared.target_count_key@],
        result is Err ==> result->Err_0@
            == "diagnostic execution did not observe target operation "@
            + prepared.target_count_key@,
{
}

/// Observing an execution gives the sum of the gas that was used, the time, the counts of a
/// diagnostic execution, and the digest of the notation of receipts and state.
pub proof fn law_observing_an_execution(
    prepared: &PreparedCase,
    diagnostic: bool,
    execution: Execution,
    result: Result<ExecutionObservation, String>,
)
    requires
        call_ensures(execute_case, (prepared, diagnostic, execution), result),
    ensures
        result is Ok <==> execution.results is Ok && (diagnostic ==> execution.counts is Some)
            && total_gas(execution.results->Ok_0@) <= u64::MAX,
        execution.results is Err ==> result->Err_0@ == "evm transaction failed: "@
            + execution.results->Err_0@,
        execution.results is Ok && diagnostic && execution.counts is None ==> result->Err_0@
            == "diagnostic inspector was not installed"@,
        execution.results is Ok && (diagnostic ==> execution.counts is Some) && result is Err
            ==> result->Err_0@ == "charged transaction gas sum overflows u64"@,
        result is Ok ==> {
            let observation = result->Ok_0;
            let key = prepared.target_count_key@;
            let nanos = execution.elapsed_nanos;
            let problem = crate::outcomes::outcome_problem(
                prepared.expected@,
                receipts_model(execution.results->Ok_0@),
                execution.post,
            );
            &&& observation.charged_gas == total_gas(execution.results->Ok_0@)
            &&& crate::hex::decoded(observation.commitment_hash@) == crate::digest::sha256_digest(
                vstd::utf8::encode_utf8(
                    commitment_json(receipts_model(execution.results->Ok_0@), execution.post),
                ),
            )
            &&& 1 <= nanos <= u64::MAX ==> observation.duration_ns == nanos
            &&& nanos == 0 ==> observation.duration_ns == 1
            &&& nanos > u64::MAX ==> observation.duration_ns == u64::MAX
            &&& observation.opcode_counts is Some <==> diagnostic
            &&& diagnostic ==> observation.opcode_counts->0@ == execution.counts->0@
            &&& observation.target_count is Some <==> diagnostic
                && execution.counts->0.map().contains_key(key)
            &&& observation.target_count is Some ==> observation.target_count->0
                == execution.counts->0.map()[key]
            &&& observation.correctness_error is None <==> problem is None && (diagnostic
                ==> execution.counts->0.map().contains_key(key))
            &&& problem is Some && (diagnostic ==> execution.counts->0.map().contains_key(key))
                ==> observation.correctness_error->0@ == problem->0
            &&& problem is None && observation.correctness_error is Some
                ==> observation.correctness_error->0@
                == "diagnostic execution did not observe target operation "@ + key
            &&& problem is Some && diagnostic && !execution.counts->0.map().contains_key(key)
                ==> observation.correctness_error->0@ == problem->0 + "; "@ + (
            "diagnostic execution did not observe target operation "@ + key)
        },
{
    law_executions_that_come_to_nothing(prepared@, diagnostic, execution);
    crate::prepare::law_contents_of_prepared_cases(*prepared, 0);
    if result is Ok {
        law_observations_report_the_execution(prepared@, diagnostic, execution);
        law_observations_report_the_counts(prepared@, diagnostic, execution);
        law_observations_report_what_is_wrong(prepared@, diagnostic, execution);
        law_contents_of_observations(result->Ok_0);
    }
}

} // verus!
