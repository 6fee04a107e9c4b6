//! What a session is asked, and what it answers.

use crate::sorted_map::SortedMap;
use vstd::prelude::*;

verus! {

/// The version of the request, workload and record formats.
pub const SCHEMA_VERSION: u32 = 2;

/// The one fork that workloads may be for.
pub const OSAKA_FORK: &'static str = "Osaka";

/// What the measured duration covers.
pub const EXECUTION_BOUNDARY: &'static str = "evm2_transaction_execution";

/// A session: which samples to take of which workload.
#[derive(Debug)]
pub struct Request {
    pub schema_version: u32,
    pub workload_path: String,
    pub session_id: String,
    pub mode: Mode,
    pub samples: Vec<SampleSpec>,
}

/// Whether a session counts operations or measures time.
#[derive(Clone, Copy, Debug, PartialEq, Eq, Structural)]
pub enum Mode {
    Diagnostic,
    Performance,
}

/// One sample: one execution of one case.
#[derive(Debug)]
pub struct SampleSpec {
    pub sample_id: String,
    pub case_id: String,
    pub repetition: u64,
    pub phase: String,
}

/// The cases that samples can be taken of.
#[derive(Debug)]
pub struct Workload {
    pub schema_version: u32,
    pub fork: String,
    pub generator: Generator,
    pub cases: Vec<WorkloadCase>,
}

/// Where a workload comes from.
#[derive(Debug)]
pub struct Generator {
    pub revision: String,
    pub seed: u64,
}

/// Transactions to execute on a state, and what they should do.
#[derive(Debug)]
pub struct WorkloadCase {
    pub id: String,
    pub status: String,
    pub family: Option<String>,
    pub target_operation: Option<String>,
    pub parameters: Option<SortedMap<String, ParameterValue>>,
    pub reason: Option<String>,
    pub pre: Option<SortedMap<String, Account>>,
    pub transactions: Option<Vec<Transaction>>,
    pub expected: Option<ExpectedOutcomes>,
}

/// The value of a parameter: a JSON string by its text, or any other JSON value as it is written
/// without white space.
#[derive(Debug)]
pub enum ParameterValue {
    Text(String),
    Json(String),
}

/// An account before the first transaction.
#[derive(Debug)]
pub struct Account {
    pub balance: String,
    pub nonce: String,
    pub code: String,
    pub storage: SortedMap<String, String>,
}

/// A call from one account to another.
#[derive(Debug)]
pub struct Transaction {
    pub sender: String,
    /// Signing key for workers that sign real transactions. This one executes recovered intent, so
    /// it accepts and ignores this field.
    pub secret_key: Option<String>,
    pub to: String,
    pub data: String,
    pub value: String,
    pub gas_limit: u64,
}

/// What the transactions of a case should do: a receipt for each, and storage after the last.
#[derive(Debug)]
pub struct ExpectedOutcomes {
    pub receipts: Vec<ExpectedReceipt>,
    pub storage: SortedMap<String, SortedMap<String, String>>,
}

/// What became of a transaction.
#[derive(Debug)]
pub struct ExpectedReceipt {
    pub success: bool,
    pub logs: Vec<ExpectedLog>,
}

/// A log that a transaction left, in hexadecimal notation.
#[derive(Debug)]
pub struct ExpectedLog {
    pub address: String,
    pub topics: Vec<String>,
    pub data: String,
}

/// The answer to one sample.
#[derive(Debug)]
pub struct ResultRecord {
    pub schema_version: u32,
    pub session_id: String,
    pub sample_id: String,
    pub case_id: String,
    pub repetition: u64,
    pub phase: String,
    pub status: &'static str,
    pub execution_duration_ns: Option<u64>,
    pub execution_boundary: &'static str,
    pub baseline_hash: Option<String>,
    pub prepared_hash: Option<String>,
    pub commitment_hash: Option<String>,
    pub correctness_passed: bool,
    pub target_count: Option<u64>,
    pub opcode_counts: Option<SortedMap<String, u64>>,
    pub declared_gas: Option<u64>,
    pub charged_gas: Option<u64>,
    pub error: Option<ResultError>,
}

/// At which stage a sample failed, and why.
#[derive(Debug)]
pub struct ResultError {
    pub stage: &'static str,
    pub message: String,
}

/// An [`ExpectedLog`] by its texts.
pub ghost struct LogModel {
    pub address: Seq<char>,
    pub topics: Seq<Seq<char>>,
    pub data: Seq<char>,
}

/// An [`ExpectedReceipt`] by its contents.
pub ghost struct ReceiptModel {
    pub success: bool,
    pub logs: Seq<LogModel>,
}

/// An [`ExpectedOutcomes`] by its contents.
pub ghost struct OutcomesModel {
    pub receipts: Seq<ReceiptModel>,
    pub storage: Seq<(Seq<char>, Seq<(Seq<char>, Seq<char>)>)>,
}

/// A [`ResultRecord`] by its contents.
pub ghost struct RecordModel {
    pub schema_version: u32,
    pub session_id: Seq<char>,
    pub sample_id: Seq<char>,
    pub case_id: Seq<char>,
    pub repetition: u64,
    pub phase: Seq<char>,
    pub status: Seq<char>,
    pub execution_duration_ns: Option<u64>,
    pub execution_boundary: Seq<char>,
    pub baseline_hash: Option<Seq<char>>,
    pub prepared_hash: Option<Seq<char>>,
    pub commitment_hash: Option<Seq<char>>,
    pub correctness_passed: bool,
    pub target_count: Option<u64>,
    pub opcode_counts: Option<Seq<(Seq<char>, u64)>>,
    pub declared_gas: Option<u64>,
    pub charged_gas: Option<u64>,
    pub error: Option<(Seq<char>, Seq<char>)>,
}

/// The contents of texts.
pub open spec fn texts(items: Seq<String>) -> Seq<Seq<char>> {
    items.map_values(|item: String| item@)
}

/// The contents of an optional text.
pub open spec fn optional_text(item: Option<String>) -> Option<Seq<char>> {
    match item {
        Some(text) => Some(text@),
        None => None,
    }
}

/// The entries of a map from texts to texts, by their contents.
pub open spec fn text_entries(entries: Seq<(Seq<char>, String)>) -> Seq<(Seq<char>, Seq<char>)> {
    entries.map_values(|entry: (Seq<char>, String)| (entry.0, entry.1@))
}

/// The entries of a map of storage, by their contents.
pub open spec fn storage_entries(
    entries: Seq<(Seq<char>, SortedMap<String, String>)>,
) -> Seq<(Seq<char>, Seq<(Seq<char>, Seq<char>)>)> {
    entries.map_values(
        |entry: (Seq<char>, SortedMap<String, String>)| (entry.0, text_entries(entry.1@)),
    )
}

impl View for ExpectedLog {
    type V = LogModel;

    open spec fn view(&self) -> LogModel {
        LogModel { address: self.address@, topics: texts(self.topics@), data: self.data@ }
    }
}

impl View for ExpectedReceipt {
    type V = ReceiptModel;

    open spec fn view(&self) -> ReceiptModel {
        ReceiptModel {
            success: self.success,
            logs: self.logs@.map_values(|log: ExpectedLog| log@),
        }
    }
}

/// The contents of receipts.
pub open spec fn receipts_view(receipts: Seq<ExpectedReceipt>) -> Seq<ReceiptModel> {
    receipts.map_values(|receipt: ExpectedReceipt| receipt@)
}

impl View for ExpectedOutcomes {
    type V = OutcomesModel;

    open spec fn view(&self) -> OutcomesModel {
        OutcomesModel {
            receipts: receipts_view(self.receipts@),
            storage: storage_entries(self.storage@),
        }
    }
}

impl View for ResultRecord {
    type V = RecordModel;

    open spec fn view(&self) -> RecordModel {
        RecordModel {
            schema_version: self.schema_version,
            session_id: self.session_id@,
            sample_id: self.sample_id@,
            case_id: self.case_id@,
            repetition: self.repetition,
            phase: self.phase@,
            status: self.status@,
            execution_duration_ns: self.execution_duration_ns,
            execution_boundary: self.execution_boundary@,
            baseline_hash: optional_text(self.baseline_hash),
            prepared_hash: optional_text(self.prepared_hash),
            commitment_hash: optional_text(self.commitment_hash),
            correctness_passed: self.correctness_passed,
            target_count: self.target_count,
            opcode_counts: match self.opcode_counts {
                Some(counts) => Some(counts@),
                None => None,
            },
            declared_gas: self.declared_gas,
            charged_gas: self.charged_gas,
            error: match self.error {
                Some(error) => Some((error.stage@, error.message@)),
                None => None,
            },
        }
    }
}

/// The contents of a log are its address, its topics in order, and its data.
pub proof fn law_contents_of_logs(log: ExpectedLog, k: int)
    ensures
        log@.address == log.address@,
        log@.data == log.data@,
        log@.topics.len() == log.topics@.len(),
        0 <= k < log.topics@.len() ==> log@.topics[k] == log.topics@[k]@,
{
}

/// The contents of a receipt are whether it is of a success, and its logs in order.
pub proof fn law_contents_of_receipts(receipt: ExpectedReceipt, k: int)
    ensures
        receipt@.success == receipt.success,
        receipt@.logs.len() == receipt.logs@.len(),
        0 <= k < receipt.logs@.len() ==> receipt@.logs[k] == receipt.logs@[k]@,
{
}

/// The contents of outcomes are their receipts in order, and their storage by address and slot.
pub proof fn law_contents_of_outcomes(outcomes: ExpectedOutcomes, k: int, m: int)
    ensures
        outcomes@.receipts.len() == outcomes.receipts@.len(),
        0 <= k < outcomes.receipts@.len() ==> outcomes@.receipts[k] == outcomes.receipts@[k]@,
        outcomes@.storage.len() == outcomes.storage@.len(),
        0 <= k < outcomes.storage@.len() ==> {
            &&& outcomes@.storage[k].0 == outcomes.storage@[k].0
            &&& outcomes@.storage[k].1.len() == outcomes.storage@[k].1@.len()
            &&& 0 <= m < outcomes.storage@[k].1@.len() ==> outcomes@.storage[k].1[m].0
                == outcomes.storage@[k].1@[m].0 && outcomes@.storage[k].1[m].1
                == outcomes.storage@[k].1@[m].1@
        },
{
}

/// The contents of a record are its members, each under its own name.
pub proof fn law_contents_of_records(record: ResultRecord)
    ensures
        record@.schema_version == record.schema_version,
        record@.session_id == record.session_id@,
        record@.sample_id == record.sample_id@,
        record@.case_id == record.case_id@,
        record@.repetition == record.repetition,
        record@.phase == record.phase@,
        record@.status == record.status@,
        record@.execution_duration_ns == record.execution_duration_ns,
        record@.execution_boundary == record.execution_boundary@,
        record.baseline_hash is Some ==> record@.baseline_hash == Some(record.baseline_hash->0@),
        record.baseline_hash is None ==> record@.baseline_hash is None,
        record.prepared_hash is Some ==> record@.prepared_hash == Some(record.prepared_hash->0@),
        record.prepared_hash is None ==> record@.prepared_hash is None,
        record.commitment_hash is Some ==> record@.commitment_hash == Some(
            record.commitment_hash->0@,
        ),
        record.commitment_hash is None ==> record@.commitment_hash is None,
        record@.correctness_passed == record.correctness_passed,
        record@.target_count == record.target_count,
        record.opcode_counts is Some ==> record@.opcode_counts == Some(record.opcode_counts->0@),
        record.opcode_counts is None ==> record@.opcode_counts is None,
        record@.declared_gas == record.declared_gas,
        record@.charged_gas == record.charged_gas,
        record.error is Some ==> record@.error == Some(
            (record.error->0.stage@, record.error->0.message@),
        ),
        record.error is None ==> record@.error is None,
{
}

} // verus!
