//! The JSON notation of requests' cases, snapshots and records, without white space.

use crate::protocol::{
    Account, ExpectedLog, ExpectedOutcomes, ExpectedReceipt, ParameterValue, ResultError,
    ResultRecord, Transaction, WorkloadCase,
};
use crate::sorted_map::SortedMap;
use crate::text::decimal;
use vstd::prelude::*;

verus! {

/// `c` as it stands inside a JSON string.
pub open spec fn escaped(c: char) -> Seq<char> {
    if c == '"' || c == '\\' {
        seq!['\\', c]
    } else if c == '\n' {
        seq!['\\', 'n']
    } else if c == '\r' {
        seq!['\\', 'r']
    } else if c == '\t' {
        seq!['\\', 't']
    } else if c == '\u{8}' {
        seq!['\\', 'b']
    } else if c == '\u{c}' {
        seq!['\\', 'f']
    } else if (c as int) < 0x20 {
        seq![
            '\\',
            'u',
            '0',
            '0',
            crate::hex::hex_digit(c as int / 16),
            crate::hex::hex_digit(c as int % 16),
        ]
    } else {
        seq![c]
    }
}

/// `text` as it stands inside a JSON string.
pub open spec fn escaped_text(text: Seq<char>) -> Seq<char>
    decreases text.len(),
{
    if text.len() == 0 {
        Seq::empty()
    } else {
        escaped_text(text.drop_last()) + escaped(text.last())
    }
}

/// The JSON string for `text`.
pub open spec fn string_json(text: Seq<char>) -> Seq<char> {
    seq!['"'] + escaped_text(text) + seq!['"']
}

/// Calls `serde_json::to_string` on a text: the JSON string for it, in which quotation marks,
/// backslashes and the control characters below U+0020 are escaped, the latter by their short
/// escapes where there are such. It does not fail on a text.
#[verifier::external_body]
fn json_string(text: &str) -> (json: String)
    ensures
        json@ == string_json(text@),
{
    serde_json::to_string(text).unwrap()
}

/// A value with a JSON notation.
pub trait Json: Sized {
    /// The notation.
    spec fn json(self) -> Seq<char>;

    /// Adds the notation at the end of `out`.
    fn write_json(&self, out: &mut String)
        ensures
            final(out)@ == old(out)@ + self.json(),
    ;
}

/// Adds the JSON string for `text` at the end of `out`.
fn write_string(text: &str, out: &mut String)
    ensures
        final(out)@ == old(out)@ + string_json(text@),
{
    out.append(json_string(text).as_str());
}

impl Json for String {
    open spec fn json(self) -> Seq<char> {
        string_json(self@)
    }

    fn write_json(&self, out: &mut String) {
        write_string(self.as_str(), out);
    }
}

impl Json for u64 {
    open spec fn json(self) -> Seq<char> {
        crate::text::decimal_text(self as nat)
    }

    fn write_json(&self, out: &mut String) {
        out.append(decimal(*self).as_str());
    }
}

impl Json for u32 {
    open spec fn json(self) -> Seq<char> {
        crate::text::decimal_text(self as nat)
    }

    fn write_json(&self, out: &mut String) {
        out.append(decimal(*self as u64).as_str());
    }
}

impl Json for &'static str {
    open spec fn json(self) -> Seq<char> {
        string_json(self@)
    }

    fn write_json(&self, out: &mut String) {
        write_string(self, out);
    }
}

impl Json for bool {
    open spec fn json(self) -> Seq<char> {
        if self {
            "true"@
        } else {
            "false"@
        }
    }

    fn write_json(&self, out: &mut String) {
        if *self {
            out.append("true");
        } else {
            out.append("false");
        }
    }
}

impl<T: Json> Json for Option<T> {
    open spec fn json(self) -> Seq<char> {
        match self {
            Some(item) => item.json(),
            None => "null"@,
        }
    }

    fn write_json(&self, out: &mut String) {
        match self {
            Some(item) => item.write_json(out),
            None => out.append("null"),
        }
    }
}

/// What `notation` gives for each of `items`, with `separator` between.
pub open spec fn joined<T>(
    items: Seq<T>,
    separator: Seq<char>,
    notation: spec_fn(T) -> Seq<char>,
) -> Seq<char>
    decreases items.len(),
{
    if items.len() == 0 {
        Seq::empty()
    } else if items.len() == 1 {
        notation(items[0])
    } else {
        joined(items.drop_last(), separator, notation) + separator + notation(items.last())
    }
}

/// The array of what `notation` gives for each of `items`.
pub open spec fn array_json<T>(items: Seq<T>, notation: spec_fn(T) -> Seq<char>) -> Seq<char> {
    "["@ + joined(items, ","@, notation) + "]"@
}

/// The object that has for each of `entries` a member with what `notation` gives for its value.
pub open spec fn object_json<T>(
    entries: Seq<(Seq<char>, T)>,
    notation: spec_fn(T) -> Seq<char>,
) -> Seq<char> {
    "{"@ + joined(
        entries,
        ","@,
        |entry: (Seq<char>, T)| string_json(entry.0) + ":"@ + notation(entry.1),
    ) + "}"@
}

/// The notations of items are joined alike whether they are taken of the items or of their images.
pub proof fn lemma_joined_of_images<T, U>(
    items: Seq<T>,
    separator: Seq<char>,
    image: spec_fn(T) -> U,
    notation: spec_fn(T) -> Seq<char>,
    image_notation: spec_fn(U) -> Seq<char>,
)
    requires
        forall|i: int|
            0 <= i < items.len() ==> notation(#[trigger] items[i]) == image_notation(
                image(items[i]),
            ),
    ensures
        joined(items, separator, notation) == joined(
            items.map_values(image),
            separator,
            image_notation,
        ),
    decreases items.len(),
{
    let images = items.map_values(image);
    if items.len() == 1 {
        assert(images[0] == image(items[0]));
    } else if items.len() > 1 {
        let front = items.drop_last();
        assert forall|i: int| 0 <= i < front.len() implies notation(#[trigger] front[i])
            == image_notation(image(front[i])) by {
            assert(front[i] == items[i]);
        }
        lemma_joined_of_images(front, separator, image, notation, image_notation);
        assert(images.drop_last() =~= front.map_values(image));
        assert(items.last() == items[items.len() - 1]);
    }
}

impl<T: Json> Json for Vec<T> {
    open spec fn json(self) -> Seq<char> {
        array_json(self@, |item: T| item.json())
    }

    fn write_json(&self, out: &mut String) {
        let ghost start = out@;
        let ghost notation = |item: T| item.json();
        out.append("[");
        let mut i: usize = 0;
        assert(self@.take(0) =~= Seq::<T>::empty());
        assert(out@ =~= start + "["@ + joined(self@.take(0), ","@, notation));
        while i < self.len()
            invariant
                i <= self@.len(),
                notation == (|item: T| item.json()),
                out@ == start + "["@ + joined(self@.take(i as int), ","@, notation),
            decreases self@.len() - i,
        {
            if i > 0 {
                out.append(",");
            }
            self[i].write_json(out);
            assert(self@.take(i + 1).drop_last() =~= self@.take(i as int));
            assert(out@ =~= start + "["@ + joined(self@.take(i + 1), ","@, notation));
            i += 1;
        }
        assert(self@.take(i as int) =~= self@);
        out.append("]");
        assert(out@ =~= start + self.json());
    }
}

impl<T: Json> Json for SortedMap<String, T> {
    open spec fn json(self) -> Seq<char> {
        object_json(self@, |item: T| item.json())
    }

    fn write_json(&self, out: &mut String) {
        let ghost start = out@;
        let ghost value_notation = |item: T| item.json();
        let ghost notation = |entry: (Seq<char>, T)|
            string_json(entry.0) + ":"@ + value_notation(entry.1);
        out.append("{");
        let mut i: usize = 0;
        assert(self@.take(0) =~= Seq::<(Seq<char>, T)>::empty());
        assert(out@ =~= start + "{"@ + joined(self@.take(0), ","@, notation));
        while i < self.len()
            invariant
                i <= self@.len(),
                value_notation == (|item: T| item.json()),
                notation == (|entry: (Seq<char>, T)|
                    string_json(entry.0) + ":"@ + value_notation(entry.1)),
                out@ == start + "{"@ + joined(self@.take(i as int), ","@, notation),
            decreases self@.len() - i,
        {
            if i > 0 {
                out.append(",");
            }
            write_string(self.key_at(i).as_str(), out);
            out.append(":");
            self.value_at(i).write_json(out);
            assert(self@.take(i + 1).drop_last() =~= self@.take(i as int));
            assert(out@ =~= start + "{"@ + joined(self@.take(i + 1), ","@, notation));
            i += 1;
        }
        assert(self@.take(i as int) =~= self@);
        out.append("}");
        assert(out@ =~= start + self.json());
    }
}

/// Adds `lead` and the notation of `value` at the end of `out`, which holds `done` after `start`.
fn write_after<T: Json>(
    lead: &str,
    value: &T,
    out: &mut String,
    start: Ghost<Seq<char>>,
    done: Ghost<Seq<char>>,
) -> (added: Ghost<Seq<char>>)
    requires
        old(out)@ == start@ + done@,
    ensures
        added@ == done@ + lead@ + value.json(),
        final(out)@ == start@ + added@,
{
    out.append(lead);
    value.write_json(out);
    let added: Ghost<Seq<char>> = Ghost(done@ + lead@ + value.json());
    assert(out@ =~= start@ + added@);
    added
}

/// Adds `lead` at the end of `out`, which holds `done` after `start`.
fn write_lead(
    lead: &str,
    out: &mut String,
    start: Ghost<Seq<char>>,
    done: Ghost<Seq<char>>,
) -> (added: Ghost<Seq<char>>)
    requires
        old(out)@ == start@ + done@,
    ensures
        added@ == done@ + lead@,
        final(out)@ == start@ + added@,
{
    out.append(lead);
    let added: Ghost<Seq<char>> = Ghost(done@ + lead@);
    assert(out@ =~= start@ + added@);
    added
}

impl Json for ParameterValue {
    open spec fn json(self) -> Seq<char> {
        match self {
            ParameterValue::Text(text) => text.json(),
            ParameterValue::Json(json) => json@,
        }
    }

    fn write_json(&self, out: &mut String) {
        match self {
            ParameterValue::Text(text) => text.write_json(out),
            ParameterValue::Json(json) => out.append(json.as_str()),
        }
    }
}

impl Json for Account {
    open spec fn json(self) -> Seq<char> {
        "{\"balance\":"@ + self.balance.json() + ",\"nonce\":"@ + self.nonce.json()
            + ",\"code\":"@ + self.code.json() + ",\"storage\":"@ + self.storage.json() + "}"@
    }

    fn write_json(&self, out: &mut String) {
        let ghost start = out@;
        out.append("{\"balance\":");
        self.balance.write_json(out);
        out.append(",\"nonce\":");
        self.nonce.write_json(out);
        out.append(",\"code\":");
        self.code.write_json(out);
        out.append(",\"storage\":");
        self.storage.write_json(out);
        out.append("}");
        assert(out@ =~= start + self.json());
    }
}

/// The member for the secret key of a transaction, which is left out where there is none.
pub open spec fn secret_key_json(key: Option<String>) -> Seq<char> {
    match key {
        Some(key) => ",\"secret_key\":"@ + key.json(),
        None => Seq::empty(),
    }
}

impl Json for Transaction {
    open spec fn json(self) -> Seq<char> {
        "{\"sender\":"@ + self.sender.json() + secret_key_json(self.secret_key) + ",\"to\":"@
            + self.to.json() + ",\"data\":"@ + self.data.json() + ",\"value\":"@
            + self.value.json() + ",\"gas_limit\":"@ + self.gas_limit.json() + "}"@
    }

    fn write_json(&self, out: &mut String) {
        let ghost start = out@;
        out.append("{\"sender\":");
        self.sender.write_json(out);
        match &self.secret_key {
            Some(key) => {
                out.append(",\"secret_key\":");
                key.write_json(out);
            },
            None => {},
        }
        assert(out@ =~= start + "{\"sender\":"@ + self.sender.json() + secret_key_json(
            self.secret_key,
        ));
        out.append(",\"to\":");
        self.to.write_json(out);
        out.append(",\"data\":");
        self.data.write_json(out);
        out.append(",\"value\":");
        self.value.write_json(out);
        out.append(",\"gas_limit\":");
        self.gas_limit.write_json(out);
        out.append("}");
        assert(out@ =~= start + self.json());
    }
}

/// The notation of a log.
pub open spec fn log_json(log: crate::protocol::LogModel) -> Seq<char> {
    "{\"address\":"@ + string_json(log.address) + ",\"topics\":"@ + array_json(
        log.topics,
        |topic: Seq<char>| string_json(topic),
    ) + ",\"data\":"@ + string_json(log.data) + "}"@
}

impl Json for ExpectedLog {
    open spec fn json(self) -> Seq<char> {
        log_json(self@)
    }

    fn write_json(&self, out: &mut String) {
        let ghost start = out@;
        out.append("{\"address\":");
        self.address.write_json(out);
        out.append(",\"topics\":");
        self.topics.write_json(out);
        out.append(",\"data\":");
        self.data.write_json(out);
        out.append("}");
        proof {
            lemma_joined_of_images(
                self.topics@,
                ","@,
                |topic: String| topic@,
                |topic: String| topic.json(),
                |topic: Seq<char>| string_json(topic),
            );
        }
        assert(out@ =~= start + self.json());
    }
}

/// The notation of a receipt.
pub open spec fn receipt_json(receipt: crate::protocol::ReceiptModel) -> Seq<char> {
    "{\"success\":"@ + receipt.success.json() + ",\"logs\":"@ + array_json(
        receipt.logs,
        |log: crate::protocol::LogModel| log_json(log),
    ) + "}"@
}

impl Json for ExpectedReceipt {
    open spec fn json(self) -> Seq<char> {
        receipt_json(self@)
    }

    fn write_json(&self, out: &mut String) {
        let ghost start = out@;
        out.append("{\"success\":");
        self.success.write_json(out);
        out.append(",\"logs\":");
        self.logs.write_json(out);
        out.append("}");
        proof {
            lemma_joined_of_images(
                self.logs@,
                ","@,
                |log: ExpectedLog| log@,
                |log: ExpectedLog| log.json(),
                |log: crate::protocol::LogModel| log_json(log),
            );
        }
        assert(out@ =~= start + self.json());
    }
}

/// The notation of receipts.
pub open spec fn receipts_json(receipts: Seq<crate::protocol::ReceiptModel>) -> Seq<char> {
    array_json(receipts, |receipt: crate::protocol::ReceiptModel| receipt_json(receipt))
}

/// The notation of receipts is that of their contents.
pub proof fn lemma_receipts_json(receipts: Vec<ExpectedReceipt>)
    ensures
        receipts.json() == receipts_json(crate::protocol::receipts_view(receipts@)),
{
    lemma_joined_of_images(
        receipts@,
        ","@,
        |receipt: ExpectedReceipt| receipt@,
        |receipt: ExpectedReceipt| receipt.json(),
        |receipt: crate::protocol::ReceiptModel| receipt_json(receipt),
    );
}

impl Json for ExpectedOutcomes {
    open spec fn json(self) -> Seq<char> {
        "{\"receipts\":"@ + self.receipts.json() + ",\"storage\":"@ + self.storage.json() + "}"@
    }

    fn write_json(&self, out: &mut String) {
        let ghost start = out@;
        out.append("{\"receipts\":");
        self.receipts.write_json(out);
        out.append(",\"storage\":");
        self.storage.write_json(out);
        out.append("}");
        assert(out@ =~= start + self.json());
    }
}

impl Json for WorkloadCase {
    open spec fn json(self) -> Seq<char> {
        "{\"id\":"@ + self.id.json() + ",\"status\":"@ + self.status.json() + ",\"family\":"@
            + self.family.json() + ",\"target_operation\":"@ + self.target_operation.json()
            + ",\"parameters\":"@ + self.parameters.json() + ",\"reason\":"@ + self.reason.json()
            + ",\"pre\":"@ + self.pre.json() + ",\"transactions\":"@ + self.transactions.json()
            + ",\"expected\":"@ + self.expected.json() + "}"@
    }

    fn write_json(&self, out: &mut String) {
        let start: Ghost<Seq<char>> = Ghost(out@);
        out.append("{\"id\":");
        self.id.write_json(out);
        let done: Ghost<Seq<char>> = Ghost("{\"id\":"@ + self.id.json());
        assert(out@ =~= start@ + done@);
        let done = write_after(",\"status\":", &self.status, out, start, done);
        let done = write_after(",\"family\":", &self.family, out, start, done);
        let done = write_after(",\"target_operation\":", &self.target_operation, out, start, done);
        let done = write_after(",\"parameters\":", &self.parameters, out, start, done);
        let done = write_after(",\"reason\":", &self.reason, out, start, done);
        let done = write_after(",\"pre\":", &self.pre, out, start, done);
        let done = write_after(",\"transactions\":", &self.transactions, out, start, done);
        let done = write_after(",\"expected\":", &self.expected, out, start, done);
        let _ = write_lead("}", out, start, done);
    }
}

/// The notation of an optional text.
pub open spec fn optional_text_json(text: Option<Seq<char>>) -> Seq<char> {
    match text {
        Some(text) => string_json(text),
        None => "null"@,
    }
}

/// The notation of optional counts.
pub open spec fn optional_counts_json(counts: Option<Seq<(Seq<char>, u64)>>) -> Seq<char> {
    match counts {
        Some(counts) => object_json(counts, |count: u64| count.json()),
        None => "null"@,
    }
}

/// The member for the error of a record, which is left out where there is none.
pub open spec fn error_json(error: Option<(Seq<char>, Seq<char>)>) -> Seq<char> {
    match error {
        Some(error) => ",\"error\":{\"stage\":"@ + string_json(error.0) + ",\"message\":"@
            + string_json(error.1) + "}"@,
        None => Seq::empty(),
    }
}

/// The notation of a record.
pub open spec fn record_json(record: crate::protocol::RecordModel) -> Seq<char> {
    "{\"schema_version\":"@ + record.schema_version.json() + ",\"session_id\":"@ + string_json(
        record.session_id,
    ) + ",\"sample_id\":"@ + string_json(record.sample_id) + ",\"case_id\":"@ + string_json(
        record.case_id,
    ) + ",\"repetition\":"@ + record.repetition.json() + ",\"phase\":"@ + string_json(
        record.phase,
    ) + ",\"status\":"@ + string_json(record.status) + ",\"execution_duration_ns\":"@
        + record.execution_duration_ns.json() + ",\"execution_boundary\":"@ + string_json(
        record.execution_boundary,
    ) + ",\"baseline_hash\":"@ + optional_text_json(record.baseline_hash)
        + ",\"prepared_hash\":"@ + optional_text_json(record.prepared_hash)
        + ",\"commitment_hash\":"@ + optional_text_json(record.commitment_hash)
        + ",\"correctness_passed\":"@ + record.correctness_passed.json()
        + ",\"target_count\":"@ + record.target_count.json() + ",\"opcode_counts\":"@
        + optional_counts_json(record.opcode_counts) + ",\"declared_gas\":"@
        + record.declared_gas.json() + ",\"charged_gas\":"@ + record.charged_gas.json()
        + error_json(record.error) + "}"@
}

/// Adds the member for the error of a record at the end of `out`, or nothing where there is none.
fn write_error(error: &Option<ResultError>, out: &mut String)
    ensures
        final(out)@ == old(out)@ + error_json(
            match *error {
                Some(error) => Some((error.stage@, error.message@)),
                None => None,
            },
        ),
{
    let ghost start = out@;
    match error {
        Some(error) => {
            out.append(",\"error\":{\"stage\":");
            error.stage.write_json(out);
            out.append(",\"message\":");
            error.message.write_json(out);
            out.append("}");
        },
        None => {},
    }
    assert(out@ =~= start + error_json(
        match *error {
            Some(error) => Some((error.stage@, error.message@)),
            None => None,
        },
    ));
}

impl Json for ResultRecord {
    open spec fn json(self) -> Seq<char> {
        record_json(self@)
    }

    fn write_json(&self, out: &mut String) {
        let start: Ghost<Seq<char>> = Ghost(out@);
        out.append("{\"schema_version\":");
        self.schema_version.write_json(out);
        let done: Ghost<Seq<char>> = Ghost(
            "{\"schema_version\":"@ + self.schema_version.json(),
        );
        assert(out@ =~= start@ + done@);
        let done = write_after(",\"session_id\":", &self.session_id, out, start, done);
        let done = write_after(",\"sample_id\":", &self.sample_id, out, start, done);
        let done = write_after(",\"case_id\":", &self.case_id, out, start, done);
        let done = write_after(",\"repetition\":", &self.repetition, out, start, done);
        let done = write_after(",\"phase\":", &self.phase, out, start, done);
        let done = write_after(",\"status\":", &self.status, out, start, done);
        let done = write_after(
            ",\"execution_duration_ns\":",
            &self.execution_duration_ns,
            out,
            start,
            done,
        );
        let done = write_after(
            ",\"execution_boundary\":",
            &self.execution_boundary,
            out,
            start,
            done,
        );
        let done = write_after(",\"baseline_hash\":", &self.baseline_hash, out, start, done);
        let done = write_after(",\"prepared_hash\":", &self.prepared_hash, out, start, done);
        let done = write_after(",\"commitment_hash\":", &self.commitment_hash, out, start, done);
        let done = write_after(
            ",\"correctness_passed\":",
            &self.correctness_passed,
            out,
            start,
            done,
        );
        let done = write_after(",\"target_count\":", &self.target_count, out, start, done);
        let done = write_after(",\"opcode_counts\":", &self.opcode_counts, out, start, done);
        let done = write_after(",\"declared_gas\":", &self.declared_gas, out, start, done);
        let done = write_after(",\"charged_gas\":", &self.charged_gas, out, start, done);
        write_error(&self.error, out);
        let done: Ghost<Seq<char>> = Ghost(done@ + error_json(self@.error));
        assert(out@ =~= start@ + done@);
        let _ = write_lead("}", out, start, done);
    }
}

/// The line of the ledger for a record: its notation and a line feed.
pub open spec fn line_text(record: crate::protocol::RecordModel) -> Seq<char> {
    record_json(record) + seq!['\n']
}

/// The line of the ledger for a record.
pub fn record_line(record: &ResultRecord) -> (line: String)
    ensures
        line@ == line_text(record@),
{
    let mut line = String::new();
    record.write_json(&mut line);
    line.push('\n');
    assert(line@ =~= line_text(record@));
    line
}

/// `text` holds no line feed.
#[verifier::opaque]
pub open spec fn one_line(text: Seq<char>) -> bool {
    forall|i: int| 0 <= i < text.len() ==> #[trigger] text[i] != '\n'
}

proof fn lemma_escaped_one_line(c: char)
    ensures
        one_line(escaped(c)),
{
    reveal(one_line);
    if (c as int) < 0x20 {
        crate::hex::lemma_hex_digit(c as int / 16);
        crate::hex::lemma_hex_digit(c as int % 16);
    }
}

proof fn lemma_string_one_line(text: Seq<char>)
    ensures
        one_line(escaped_text(text)),
        one_line(string_json(text)),
    decreases text.len(),
{
    reveal(one_line);
    if text.len() > 0 {
        lemma_string_one_line(text.drop_last());
        lemma_escaped_one_line(text.last());
    }
}

proof fn lemma_decimal_one_line(n: nat)
    ensures
        one_line(crate::text::decimal_text(n)),
    decreases n,
{
    reveal(one_line);
    if n >= 10 {
        lemma_decimal_one_line(n / 10);
    }
}

proof fn lemma_joined_one_line<T>(items: Seq<T>, notation: spec_fn(T) -> Seq<char>)
    requires
        forall|item: T| one_line(#[trigger] notation(item)),
    ensures
        one_line(joined(items, ","@, notation)),
    decreases items.len(),
{
    reveal(one_line);
    reveal_strlit(",");
    if items.len() > 1 {
        lemma_joined_one_line(items.drop_last(), notation);
        assert(one_line(notation(items.last())));
    } else if items.len() == 1 {
        assert(one_line(notation(items[0])));
    }
}

proof fn lemma_optional_number_one_line(n: Option<u64>)
    ensures
        one_line(n.json()),
{
    reveal(one_line);
    reveal_strlit("null");
    match n {
        Some(n) => lemma_decimal_one_line(n as nat),
        None => {},
    }
}

proof fn lemma_optional_text_one_line(text: Option<Seq<char>>)
    ensures
        one_line(optional_text_json(text)),
{
    reveal(one_line);
    reveal_strlit("null");
    match text {
        Some(text) => lemma_string_one_line(text),
        None => {},
    }
}

proof fn lemma_optional_counts_one_line(counts: Option<Seq<(Seq<char>, u64)>>)
    ensures
        one_line(optional_counts_json(counts)),
{
    reveal(one_line);
    reveal_strlit("null");
    reveal_strlit("{");
    reveal_strlit("}");
    reveal_strlit(":");
    match counts {
        Some(counts) => {
            let value_notation = |count: u64| count.json();
            let notation = |entry: (Seq<char>, u64)|
                string_json(entry.0) + ":"@ + value_notation(entry.1);
            assert forall|entry: (Seq<char>, u64)| one_line(#[trigger] notation(entry)) by {
                lemma_string_one_line(entry.0);
                lemma_decimal_one_line(entry.1 as nat);
            }
            lemma_joined_one_line(counts, notation);
        },
        None => {},
    }
}

proof fn lemma_error_one_line(error: Option<(Seq<char>, Seq<char>)>)
    ensures
        one_line(error_json(error)),
{
    reveal(one_line);
    reveal_strlit(",\"error\":{\"stage\":");
    reveal_strlit(",\"message\":");
    reveal_strlit("}");
    match error {
        Some(error) => {
            lemma_string_one_line(error.0);
            lemma_string_one_line(error.1);
        },
        None => {},
    }
}

broadcast proof fn lemma_one_line_concat(a: Seq<char>, b: Seq<char>)
    requires
        one_line(a),
        one_line(b),
    ensures
        #[trigger] one_line(a + b),
{
    reveal(one_line);
}

proof fn lemma_leads_one_line()
    ensures
        one_line("{\"schema_version\":"@),
        one_line(",\"session_id\":"@),
        one_line(",\"sample_id\":"@),
        one_line(",\"case_id\":"@),
        one_line(",\"repetition\":"@),
        one_line(",\"phase\":"@),
        one_line(",\"status\":"@),
        one_line(",\"execution_duration_ns\":"@),
        one_line(",\"execution_boundary\":"@),
        one_line(",\"baseline_hash\":"@),
        one_line(",\"prepared_hash\":"@),
        one_line(",\"commitment_hash\":"@),
        one_line(",\"correctness_passed\":"@),
        one_line(",\"target_count\":"@),
        one_line(",\"opcode_counts\":"@),
        one_line(",\"declared_gas\":"@),
        one_line(",\"charged_gas\":"@),
        one_line("}"@),
        one_line("true"@),
        one_line("false"@),
{
    reveal(one_line);
    reveal_strlit("{\"schema_version\":");
    reveal_strlit(",\"session_id\":");
    reveal_strlit(",\"sample_id\":");
    reveal_strlit(",\"case_id\":");
    reveal_strlit(",\"repetition\":");
    reveal_strlit(",\"phase\":");
    reveal_strlit(",\"status\":");
    reveal_strlit(",\"execution_duration_ns\":");
    reveal_strlit(",\"execution_boundary\":");
    reveal_strlit(",\"baseline_hash\":");
    reveal_strlit(",\"prepared_hash\":");
    reveal_strlit(",\"commitment_hash\":");
    reveal_strlit(",\"correctness_passed\":");
    reveal_strlit(",\"target_count\":");
    reveal_strlit(",\"opcode_counts\":");
    reveal_strlit(",\"declared_gas\":");
    reveal_strlit(",\"charged_gas\":");
    reveal_strlit("}");
    reveal_strlit("true");
    reveal_strlit("false");
}

/// A record takes one line of the ledger: its line ends with the one line feed in it.
pub proof fn law_record_takes_one_line(record: crate::protocol::RecordModel)
    ensures
        one_line(line_text(record).drop_last()),
        line_text(record).last() == '\n',
{
    broadcast use lemma_one_line_concat;

    lemma_leads_one_line();
    lemma_decimal_one_line(record.schema_version as nat);
    lemma_decimal_one_line(record.repetition as nat);
    lemma_string_one_line(record.session_id);
    lemma_string_one_line(record.sample_id);
    lemma_string_one_line(record.case_id);
    lemma_string_one_line(record.phase);
    lemma_string_one_line(record.status);
    lemma_string_one_line(record.execution_boundary);
    lemma_optional_number_one_line(record.execution_duration_ns);
    lemma_optional_text_one_line(record.baseline_hash);
    lemma_optional_text_one_line(record.prepared_hash);
    lemma_optional_text_one_line(record.commitment_hash);
    lemma_optional_number_one_line(record.target_count);
    lemma_optional_counts_one_line(record.opcode_counts);
    lemma_optional_number_one_line(record.declared_gas);
    lemma_optional_number_one_line(record.charged_gas);
    lemma_error_one_line(record.error);
    assert(one_line(record_json(record)));
    assert(line_text(record).drop_last() =~= record_json(record));
}

/// A text without quotation marks, backslashes and control characters stands in its JSON string as
/// it is.
pub proof fn lemma_plain_string(text: Seq<char>)
    requires
        forall|i: int|
            0 <= i < text.len() ==> ' ' <= #[trigger] text[i] && text[i] != '"' && text[i] != '\\',
    ensures
        escaped_text(text) == text,
        string_json(text) == seq!['"'] + text + seq!['"'],
    decreases text.len(),
{
    if text.len() > 0 {
        lemma_plain_string(text.drop_last());
        let c = text[text.len() - 1];
        assert(escaped(c) == seq![c]);
        assert(text =~= text.drop_last() + seq![c]);
    } else {
        assert(escaped_text(text) =~= text);
    }
}

/// The line of a record is its notation and a line feed.
pub proof fn law_lines_are_notations(record: crate::protocol::RecordModel)
    ensures
        line_text(record).len() == record_json(record).len() + 1,
        line_text(record).drop_last() == record_json(record),
        line_text(record).last() == '\n',
{
    assert(line_text(record).drop_last() =~= record_json(record));
}

/// The notations of numbers, truth values and what is missing.
pub proof fn law_the_notation_of_simple_values(n: u64, m: u32)
    ensures
        n.json() == crate::text::decimal_text(n as nat),
        m.json() == crate::text::decimal_text(m as nat),
        true.json() == "true"@,
        false.json() == "false"@,
        Some(n).json() == crate::text::decimal_text(n as nat),
        None::<u64>.json() == "null"@,
        optional_text_json(None) == "null"@,
        optional_counts_json(None) == "null"@,
{
}

/// Arrays are written in brackets, with their items in order and commas between.
pub proof fn law_arrays_are_written_item_by_item<T>(
    items: Seq<T>,
    item: T,
    notation: spec_fn(T) -> Seq<char>,
)
    ensures
        array_json(Seq::<T>::empty(), notation) == "["@ + "]"@,
        array_json(seq![item], notation) == "["@ + notation(item) + "]"@,
        items.len() > 0 ==> array_json(items.push(item), notation) == array_json(
            items,
            notation,
        ).drop_last() + ","@ + notation(item) + "]"@,
{
    reveal_strlit("]");
    assert("["@ + Seq::<char>::empty() + "]"@ =~= "["@ + "]"@);
    if items.len() > 0 {
        assert(items.push(item).drop_last() =~= items);
        assert(array_json(items, notation).drop_last() =~= "["@ + joined(items, ","@, notation));
        assert(array_json(items.push(item), notation) =~= array_json(items, notation).drop_last()
            + ","@ + notation(item) + "]"@);
    }
}

/// Objects are written in braces, with their members in order, each key as a string before its
/// value, and commas between.
pub proof fn law_objects_are_written_member_by_member<T>(
    entries: Seq<(Seq<char>, T)>,
    key: Seq<char>,
    value: T,
    notation: spec_fn(T) -> Seq<char>,
)
    ensures
        object_json(Seq::<(Seq<char>, T)>::empty(), notation) == "{"@ + "}"@,
        object_json(seq![(key, value)], notation) == "{"@ + (string_json(key) + ":"@ + notation(
            value,
        )) + "}"@,
        entries.len() > 0 ==> object_json(entries.push((key, value)), notation) == object_json(
            entries,
            notation,
        ).drop_last() + ","@ + (string_json(key) + ":"@ + notation(value)) + "}"@,
{
    reveal_strlit("}");
    assert("{"@ + Seq::<char>::empty() + "}"@ =~= "{"@ + "}"@);
    let entry_notation = |entry: (Seq<char>, T)|
        string_json(entry.0) + ":"@ + notation(entry.1);
    if entries.len() > 0 {
        let more = entries.push((key, value));
        assert(more.drop_last() =~= entries);
        assert(joined(more, ","@, entry_notation) == joined(entries, ","@, entry_notation) + ","@
            + entry_notation((key, value)));
        assert(object_json(entries, notation).drop_last() =~= "{"@ + joined(
            entries,
            ","@,
            entry_notation,
        ));
        assert(object_json(more, notation) =~= object_json(entries, notation).drop_last() + ","@ + (
        string_json(key) + ":"@ + notation(value)) + "}"@);
    }
}

} // verus!
