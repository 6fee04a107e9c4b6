//! Whether an execution did what it should.

use crate::primitives::{address_text, parse_address, parse_u256, short_text, Address, Word};
use crate::protocol::{ExpectedLog, ExpectedOutcomes, ExpectedReceipt};
use crate::sorted_map::SortedMap;
use crate::state::DatabaseState;
use crate::text::{quoted, same_text};
use vstd::prelude::*;

verus! {

/// Texts as messages list them.
pub open spec fn topics_debug(topics: Seq<Seq<char>>) -> Seq<char> {
    "["@ + crate::json::joined(
        topics,
        ", "@,
        |topic: Seq<char>| crate::text::debug_text(topic),
    ) + "]"@
}

/// A log as messages show it.
pub open spec fn log_debug(log: crate::protocol::LogModel) -> Seq<char> {
    "ExpectedLog { address: "@ + crate::text::debug_text(log.address) + ", topics: "@
        + topics_debug(log.topics) + ", data: "@ + crate::text::debug_text(log.data) + " }"@
}

/// Logs as messages list them.
pub open spec fn logs_debug(logs: Seq<crate::protocol::LogModel>) -> Seq<char> {
    "["@ + crate::json::joined(
        logs,
        ", "@,
        |log: crate::protocol::LogModel| log_debug(log),
    ) + "]"@
}

/// Whether a transaction succeeded, as messages show it.
pub open spec fn success_debug(success: bool) -> Seq<char> {
    if success {
        "true"@
    } else {
        "false"@
    }
}

/// A receipt as messages show it.
pub open spec fn receipt_debug(receipt: crate::protocol::ReceiptModel) -> Seq<char> {
    "ExpectedReceipt { success: "@ + success_debug(receipt.success) + ", logs: "@ + logs_debug(
        receipt.logs,
    ) + " }"@
}

/// Receipts as messages list them.
pub open spec fn receipts_debug(receipts: Seq<crate::protocol::ReceiptModel>) -> Seq<char> {
    "["@ + crate::json::joined(
        receipts,
        ", "@,
        |receipt: crate::protocol::ReceiptModel| receipt_debug(receipt),
    ) + "]"@
}

/// The number that a database holds at a slot of an account: zero where it holds nothing.
pub open spec fn stored(database: DatabaseState, address: Seq<u8>, slot: int) -> int {
    let storage = database.storage.map();
    let key = crate::hex::number_bytes(slot, 32);
    if storage.contains_key(address) && storage[address].map().contains_key(key) {
        storage[address].map()[key].value() as int
    } else {
        0
    }
}

/// A word that holds `n`, as messages show it.
pub open spec fn number_debug(n: int) -> Seq<char> {
    crate::hex::short_hex(crate::hex::number_bytes(n, 32))
}

/// What is wrong with what a database holds at a slot, where `slot` and `value` are what texts say.
pub open spec fn slot_problem(
    database: DatabaseState,
    address: Seq<u8>,
    slot: Seq<char>,
    value: Seq<char>,
) -> Option<Seq<char>> {
    match crate::primitives::quantity_of(slot) {
        Err(problem) => Some(problem),
        Ok(slot) => match crate::primitives::quantity_of(value) {
            Err(problem) => Some(problem),
            Ok(value) => if stored(database, address, slot) != value {
                Some(
                    "storage mismatch at "@ + crate::hex::prefixed_hex(address) + "["@
                        + number_debug(slot) + "]: expected "@ + number_debug(value) + ", got "@
                        + number_debug(stored(database, address, slot)),
                )
            } else {
                None
            },
        },
    }
}

/// What is wrong with the first of `slots` that something is wrong with.
pub open spec fn slots_problem(
    database: DatabaseState,
    address: Seq<u8>,
    slots: Seq<(Seq<char>, Seq<char>)>,
) -> Option<Seq<char>>
    decreases slots.len(),
{
    if slots.len() == 0 {
        None
    } else {
        match slots_problem(database, address, slots.drop_last()) {
            Some(problem) => Some(problem),
            None => slot_problem(database, address, slots.last().0, slots.last().1),
        }
    }
}

/// What is wrong with the storage of an account.
pub open spec fn account_problem(
    database: DatabaseState,
    address: Seq<char>,
    slots: Seq<(Seq<char>, Seq<char>)>,
) -> Option<Seq<char>> {
    match crate::primitives::address_of(address) {
        Err(problem) => Some(problem),
        Ok(address) => slots_problem(database, address, slots),
    }
}

/// What is wrong with the first of the accounts whose storage something is wrong with.
pub open spec fn storage_problem(
    database: DatabaseState,
    storage: Seq<(Seq<char>, Seq<(Seq<char>, Seq<char>)>)>,
) -> Option<Seq<char>>
    decreases storage.len(),
{
    if storage.len() == 0 {
        None
    } else {
        match storage_problem(database, storage.drop_last()) {
            Some(problem) => Some(problem),
            None => account_problem(database, storage.last().0, storage.last().1),
        }
    }
}

/// What is wrong with what an execution did: with the receipts, or else with the storage.
pub open spec fn outcome_problem(
    expected: crate::protocol::OutcomesModel,
    receipts: Seq<crate::protocol::ReceiptModel>,
    post: DatabaseState,
) -> Option<Seq<char>> {
    if expected.receipts != receipts {
        Some(
            "receipt outcomes differ: expected "@ + receipts_debug(expected.receipts) + ", got "@
                + receipts_debug(receipts),
        )
    } else {
        storage_problem(post, expected.storage)
    }
}

fn write_topics(topics: &Vec<String>, out: &mut String)
    ensures
        final(out)@ == old(out)@ + topics_debug(crate::protocol::texts(topics@)),
{
    let ghost start = out@;
    let ghost models = crate::protocol::texts(topics@);
    let ghost notation = |topic: Seq<char>| crate::text::debug_text(topic);
    out.append("[");
    let mut i: usize = 0;
    assert(models.take(0) =~= Seq::empty());
    assert(out@ =~= start + "["@ + crate::json::joined(models.take(0), ", "@, notation));
    while i < topics.len()
        invariant
            i <= topics@.len(),
            models == crate::protocol::texts(topics@),
            notation == (|topic: Seq<char>| crate::text::debug_text(topic)),
            out@ == start + "["@ + crate::json::joined(models.take(i as int), ", "@, notation),
        decreases topics@.len() - i,
    {
        if i > 0 {
            out.append(", ");
        }
        out.append(quoted(topics[i].as_str()).as_str());
        assert(models.take(i + 1).drop_last() =~= models.take(i as int));
        assert(out@ =~= start + "["@ + crate::json::joined(models.take(i + 1), ", "@, notation));
        i += 1;
    }
    assert(models.take(i as int) =~= models);
    out.append("]");
    assert(out@ =~= start + topics_debug(models));
}

fn write_log(log: &ExpectedLog, out: &mut String)
    ensures
        final(out)@ == old(out)@ + log_debug(log@),
{
    let ghost start = out@;
    out.append("ExpectedLog { address: ");
    out.append(quoted(log.address.as_str()).as_str());
    out.append(", topics: ");
    write_topics(&log.topics, out);
    out.append(", data: ");
    out.append(quoted(log.data.as_str()).as_str());
    out.append(" }");
    assert(out@ =~= start + log_debug(log@));
}

fn write_logs(logs: &Vec<ExpectedLog>, out: &mut String)
    ensures
        final(out)@ == old(out)@ + logs_debug(logs@.map_values(|log: ExpectedLog| log@)),
{
    let ghost start = out@;
    let ghost models = logs@.map_values(|log: ExpectedLog| log@);
    let ghost notation = |log: crate::protocol::LogModel| log_debug(log);
    out.append("[");
    let mut i: usize = 0;
    assert(models.take(0) =~= Seq::empty());
    assert(out@ =~= start + "["@ + crate::json::joined(models.take(0), ", "@, notation));
    while i < logs.len()
        invariant
            i <= logs@.len(),
            models == logs@.map_values(|log: ExpectedLog| log@),
            notation == (|log: crate::protocol::LogModel| log_debug(log)),
            out@ == start + "["@ + crate::json::joined(models.take(i as int), ", "@, notation),
        decreases logs@.len() - i,
    {
        if i > 0 {
            out.append(", ");
        }
        write_log(&logs[i], out);
        assert(models.take(i + 1).drop_last() =~= models.take(i as int));
        assert(out@ =~= start + "["@ + crate::json::joined(models.take(i + 1), ", "@, notation));
        i += 1;
    }
    assert(models.take(i as int) =~= models);
    out.append("]");
    assert(out@ =~= start + logs_debug(models));
}

fn write_receipt(receipt: &ExpectedReceipt, out: &mut String)
    ensures
        final(out)@ == old(out)@ + receipt_debug(receipt@),
{
    let ghost start = out@;
    out.append("ExpectedReceipt { success: ");
    if receipt.success {
        out.append("true");
    } else {
        out.append("false");
    }
    out.append(", logs: ");
    write_logs(&receipt.logs, out);
    out.append(" }");
    assert(out@ =~= start + receipt_debug(receipt@));
}

fn write_receipts(receipts: &Vec<ExpectedReceipt>, out: &mut String)
    ensures
        final(out)@ == old(out)@ + receipts_debug(crate::protocol::receipts_view(receipts@)),
{
    let ghost start = out@;
    let ghost models = crate::protocol::receipts_view(receipts@);
    let ghost notation = |receipt: crate::protocol::ReceiptModel| receipt_debug(receipt);
    out.append("[");
    let mut i: usize = 0;
    assert(models.take(0) =~= Seq::empty());
    assert(out@ =~= start + "["@ + crate::json::joined(models.take(0), ", "@, notation));
    while i < receipts.len()
        invariant
            i <= receipts@.len(),
            models == crate::protocol::receipts_view(receipts@),
            notation == (|receipt: crate::protocol::ReceiptModel| receipt_debug(receipt)),
            out@ == start + "["@ + crate::json::joined(models.take(i as int), ", "@, notation),
        decreases receipts@.len() - i,
    {
        if i > 0 {
            out.append(", ");
        }
        write_receipt(&receipts[i], out);
        assert(models.take(i + 1).drop_last() =~= models.take(i as int));
        assert(out@ =~= start + "["@ + crate::json::joined(models.take(i + 1), ", "@, notation));
        i += 1;
    }
    assert(models.take(i as int) =~= models);
    out.append("]");
    assert(out@ =~= start + receipts_debug(models));
}

fn same_texts(a: &Vec<String>, b: &Vec<String>) -> (same: bool)
    ensures
        same == (crate::protocol::texts(a@) == crate::protocol::texts(b@)),
{
    let ghost (s, t) = (crate::protocol::texts(a@), crate::protocol::texts(b@));
    if a.len() != b.len() {
        assert(s.len() != t.len());
        return false;
    }
    let mut i: usize = 0;
    while i < a.len()
        invariant
            i <= a@.len(),
            a@.len() == b@.len(),
            s == crate::protocol::texts(a@),
            t == crate::protocol::texts(b@),
            forall|j: int| 0 <= j < i ==> s[j] == t[j],
        decreases a@.len() - i,
    {
        if !same_text(a[i].as_str(), b[i].as_str()) {
            assert(s[i as int] != t[i as int]);
            return false;
        }
        i += 1;
    }
    assert(s =~= t);
    true
}

fn same_logs(a: &Vec<ExpectedLog>, b: &Vec<ExpectedLog>) -> (same: bool)
    ensures
        same == (a@.map_values(|log: ExpectedLog| log@) == b@.map_values(
            |log: ExpectedLog| log@,
        )),
{
    let ghost (s, t) = (
        a@.map_values(|log: ExpectedLog| log@),
        b@.map_values(|log: ExpectedLog| log@),
    );
    if a.len() != b.len() {
        assert(s.len() != t.len());
        return false;
    }
    let mut i: usize = 0;
    while i < a.len()
        invariant
            i <= a@.len(),
            a@.len() == b@.len(),
            s == a@.map_values(|log: ExpectedLog| log@),
            t == b@.map_values(|log: ExpectedLog| log@),
            forall|j: int| 0 <= j < i ==> s[j] == t[j],
        decreases a@.len() - i,
    {
        let (x, y) = (&a[i], &b[i]);
        assert(s[i as int] == x@ && t[i as int] == y@);
        if !same_text(x.address.as_str(), y.address.as_str()) || !same_texts(&x.topics, &y.topics)
            || !same_text(x.data.as_str(), y.data.as_str()) {
            assert(s[i as int] != t[i as int]);
            return false;
        }
        i += 1;
    }
    assert(s =~= t);
    true
}

fn same_receipts(a: &Vec<ExpectedReceipt>, b: &Vec<ExpectedReceipt>) -> (same: bool)
    ensures
        same == (crate::protocol::receipts_view(a@) == crate::protocol::receipts_view(b@)),
{
    let ghost (s, t) = (crate::protocol::receipts_view(a@), crate::protocol::receipts_view(b@));
    if a.len() != b.len() {
        assert(s.len() != t.len());
        return false;
    }
    let mut i: usize = 0;
    while i < a.len()
        invariant
            i <= a@.len(),
            a@.len() == b@.len(),
            s == crate::protocol::receipts_view(a@),
            t == crate::protocol::receipts_view(b@),
            forall|j: int| 0 <= j < i ==> s[j] == t[j],
        decreases a@.len() - i,
    {
        let (x, y) = (&a[i], &b[i]);
        assert(s[i as int] == x@ && t[i as int] == y@);
        if x.success != y.success || !same_logs(&x.logs, &y.logs) {
            assert(s[i as int] != t[i as int]);
            return false;
        }
        i += 1;
    }
    assert(s =~= t);
    true
}

/// The word that a database holds at a slot of an account.
pub fn stored_word(database: &DatabaseState, address: &Address, slot: &Word) -> (word: Word)
    ensures
        word.value() == stored(*database, address@, slot.value() as int),
{
    proof {
        crate::hex::lemma_number_bytes(slot@);
    }
    match database.storage.get(address) {
        Some(slots) => match slots.get(slot) {
            Some(word) => *word,
            None => Word::zero(),
        },
        None => Word::zero(),
    }
}

fn check_slot(database: &DatabaseState, address: &Address, slot: &str, value: &str) -> (result:
    Result<(), String>)
    ensures
        match result {
            Ok(_) => slot_problem(*database, address@, slot@, value@) is None,
            Err(problem) => slot_problem(*database, address@, slot@, value@) == Some(problem@),
        },
{
    let slot = match parse_u256(slot) {
        Ok(slot) => slot,
        Err(problem) => {
            return Err(problem);
        },
    };
    let expected = match parse_u256(value) {
        Ok(expected) => expected,
        Err(problem) => {
            return Err(problem);
        },
    };
    let actual = stored_word(database, address, &slot);
    if !actual.same(&expected) {
        let mut problem = "storage mismatch at ".to_owned();
        problem.append(address_text(address).as_str());
        problem.append("[");
        problem.append(short_text(&slot).as_str());
        problem.append("]: expected ");
        problem.append(short_text(&expected).as_str());
        problem.append(", got ");
        problem.append(short_text(&actual).as_str());
        proof {
            crate::hex::lemma_number_bytes(slot@);
            crate::hex::lemma_number_bytes(expected@);
            crate::hex::lemma_number_bytes(actual@);
        }
        return Err(problem);
    }
    Ok(())
}

proof fn lemma_slots_fail(
    database: DatabaseState,
    address: Seq<u8>,
    slots: Seq<(Seq<char>, Seq<char>)>,
    n: int,
)
    requires
        0 <= n <= slots.len(),
        slots_problem(database, address, slots.take(n)) is Some,
    ensures
        slots_problem(database, address, slots) == slots_problem(database, address, slots.take(n)),
    decreases slots.len() - n,
{
    if n == slots.len() {
        assert(slots.take(n) =~= slots);
    } else {
        assert(slots.take(n + 1).drop_last() =~= slots.take(n));
        lemma_slots_fail(database, address, slots, n + 1);
    }
}

fn check_slots(database: &DatabaseState, address: &Address, slots: &SortedMap<
    String,
    String,
>) -> (result: Result<(), String>)
    ensures
        match result {
            Ok(_) => slots_problem(
                *database,
                address@,
                crate::protocol::text_entries(slots@),
            ) is None,
            Err(problem) => slots_problem(
                *database,
                address@,
                crate::protocol::text_entries(slots@),
            ) == Some(problem@),
        },
{
    let ghost models = crate::protocol::text_entries(slots@);
    let mut i: usize = 0;
    assert(models.take(0) =~= Seq::empty());
    while i < slots.len()
        invariant
            i <= slots@.len(),
            models == crate::protocol::text_entries(slots@),
            slots_problem(*database, address@, models.take(i as int)) is None,
        decreases slots@.len() - i,
    {
        assert(models.take(i + 1).drop_last() =~= models.take(i as int));
        match check_slot(
            database,
            address,
            slots.key_at(i).as_str(),
            slots.value_at(i).as_str(),
        ) {
            Ok(_) => {},
            Err(problem) => {
                proof {
                    lemma_slots_fail(*database, address@, models, i + 1);
                }
                return Err(problem);
            },
        }
        i += 1;
    }
    assert(models.take(i as int) =~= models);
    Ok(())
}

proof fn lemma_storage_fails(
    database: DatabaseState,
    storage: Seq<(Seq<char>, Seq<(Seq<char>, Seq<char>)>)>,
    n: int,
)
    requires
        0 <= n <= storage.len(),
        storage_problem(database, storage.take(n)) is Some,
    ensures
        storage_problem(database, storage) == storage_problem(database, storage.take(n)),
    decreases storage.len() - n,
{
    if n == storage.len() {
        assert(storage.take(n) =~= storage);
    } else {
        assert(storage.take(n + 1).drop_last() =~= storage.take(n));
        lemma_storage_fails(database, storage, n + 1);
    }
}

fn check_storage(database: &DatabaseState, storage: &SortedMap<
    String,
    SortedMap<String, String>,
>) -> (result: Result<(), String>)
    ensures
        match result {
            Ok(_) => storage_problem(
                *database,
                crate::protocol::storage_entries(storage@),
            ) is None,
            Err(problem) => storage_problem(
                *database,
                crate::protocol::storage_entries(storage@),
            ) == Some(problem@),
        },
{
    let ghost models = crate::protocol::storage_entries(storage@);
    let mut i: usize = 0;
    assert(models.take(0) =~= Seq::empty());
    while i < storage.len()
        invariant
            i <= storage@.len(),
            models == crate::protocol::storage_entries(storage@),
            storage_problem(*database, models.take(i as int)) is None,
        decreases storage@.len() - i,
    {
        assert(models.take(i + 1).drop_last() =~= models.take(i as int));
        let address = match parse_address(storage.key_at(i).as_str()) {
            Ok(address) => address,
            Err(problem) => {
                proof {
                    lemma_storage_fails(*database, models, i + 1);
                }
                return Err(problem);
            },
        };
        match check_slots(database, &address, storage.value_at(i)) {
            Ok(_) => {},
            Err(problem) => {
                proof {
                    lemma_storage_fails(*database, models, i + 1);
                }
                return Err(problem);
            },
        }
        i += 1;
    }
    assert(models.take(i as int) =~= models);
    Ok(())
}

/// Holds what an execution did against what it should do.
pub fn verify_outcomes(
    expected: &ExpectedOutcomes,
    receipts: &Vec<ExpectedReceipt>,
    post: &DatabaseState,
) -> (result: Result<(), String>)
    ensures
        match result {
            Ok(_) => outcome_problem(
                expected@,
                crate::protocol::receipts_view(receipts@),
                *post,
            ) is None,
            Err(problem) => outcome_problem(
                expected@,
                crate::protocol::receipts_view(receipts@),
                *post,
            ) == Some(problem@),
        },
{
    if !same_receipts(&expected.receipts, receipts) {
        let mut problem = "receipt outcomes differ: expected ".to_owned();
        write_receipts(&expected.receipts, &mut problem);
        problem.append(", got ");
        write_receipts(receipts, &mut problem);
        return Err(problem);
    }
    check_storage(post, &expected.storage)
}

proof fn lemma_own_slots(
    database: DatabaseState,
    address: Seq<u8>,
    slots: SortedMap<Word, Word>,
    n: int,
)
    requires
        database.storage.map().contains_key(address),
        database.storage.map()[address] == slots,
        slots.well_formed(),
        0 <= n <= slots@.len(),
    ensures
        slots_problem(database, address, crate::state::slots_model(slots@).take(n)) is None,
    decreases n,
{
    let models = crate::state::slots_model(slots@);
    if n > 0 {
        lemma_own_slots(database, address, slots, n - 1);
        assert(models.take(n).drop_last() =~= models.take(n - 1));
        slots.lemma_keys_are_views(n - 1);
        let slot = choose|slot: Word| #[trigger] slot@ == slots@[n - 1].0;
        let value = slots@[n - 1].1;
        assert(models.take(n).last() == (
            crate::hex::prefixed_hex(slot@),
            crate::hex::prefixed_hex(value@),
        ));
        crate::primitives::law_quantity_round_trip(slot);
        crate::primitives::law_quantity_round_trip(value);
        crate::hex::lemma_number_bytes(slot@);
        crate::sorted_map::lemma_as_map_at::<Word, Word>(slots@, n - 1);
    }
}

proof fn lemma_own_storage(database: DatabaseState, n: int)
    requires
        crate::state::is_valid(database),
        0 <= n <= database.storage@.len(),
    ensures
        storage_problem(
            database,
            crate::state::storage_model(database.storage@).take(n),
        ) is None,
    decreases n,
{
    let models = crate::state::storage_model(database.storage@);
    if n > 0 {
        lemma_own_storage(database, n - 1);
        assert(models.take(n).drop_last() =~= models.take(n - 1));
        database.storage.lemma_keys_are_views(n - 1);
        let address = choose|address: Address| #[trigger] address@ == database.storage@[n - 1].0;
        let slots = database.storage@[n - 1].1;
        assert(models.take(n).last() == (
            crate::hex::prefixed_hex(address@),
            crate::state::slots_model(slots@),
        ));
        crate::primitives::law_address_round_trip(address);
        crate::sorted_map::lemma_as_map_at::<Address, SortedMap<Word, Word>>(
            database.storage@,
            n - 1,
        );
        lemma_own_slots(database, address@, slots, slots@.len() as int);
        assert(crate::state::slots_model(slots@).take(slots@.len() as int)
            =~= crate::state::slots_model(slots@));
    }
}

/// An execution meets the expectation that is made of its own receipts and of the storage in the
/// snapshot of its own state.
pub proof fn law_own_outcomes_are_met(
    receipts: Seq<crate::protocol::ReceiptModel>,
    post: DatabaseState,
)
    requires
        crate::state::is_valid(post),
    ensures
        outcome_problem(
            crate::protocol::OutcomesModel {
                receipts,
                storage: crate::state::snapshot_model(post).storage,
            },
            receipts,
            post,
        ) is None,
{
    let models = crate::state::storage_model(post.storage@);
    lemma_own_storage(post, models.len() as int);
    assert(models.take(models.len() as int) =~= models);
}

proof fn lemma_slots_met(
    database: DatabaseState,
    address: Seq<u8>,
    slots: Seq<(Seq<char>, Seq<char>)>,
    i: int,
)
    requires
        slots_problem(database, address, slots) is None,
        0 <= i < slots.len(),
    ensures
        slot_problem(database, address, slots[i].0, slots[i].1) is None,
    decreases slots.len(),
{
    if i < slots.len() - 1 {
        lemma_slots_met(database, address, slots.drop_last(), i);
    }
}

proof fn lemma_storage_met(
    database: DatabaseState,
    storage: Seq<(Seq<char>, Seq<(Seq<char>, Seq<char>)>)>,
    i: int,
)
    requires
        storage_problem(database, storage) is None,
        0 <= i < storage.len(),
    ensures
        account_problem(database, storage[i].0, storage[i].1) is None,
    decreases storage.len(),
{
    if i < storage.len() - 1 {
        lemma_storage_met(database, storage.drop_last(), i);
    }
}

/// The number that `value` stands for is the one that a database holds at the slot that `slot`
/// stands for.
pub open spec fn slot_holds(
    database: DatabaseState,
    address: Seq<char>,
    slot: Seq<char>,
    value: Seq<char>,
) -> bool {
    &&& crate::primitives::address_of(address) is Ok
    &&& crate::primitives::quantity_of(slot) is Ok
    &&& crate::primitives::quantity_of(value) == Ok::<int, Seq<char>>(
        stored(
            database,
            crate::primitives::address_of(address)->Ok_0,
            crate::primitives::quantity_of(slot)->Ok_0,
        ),
    )
}

/// An execution that is found correct left the expected receipts, and the expected number at every
/// slot that the expectation names.
pub proof fn law_met_outcomes_hold(
    expected: crate::protocol::OutcomesModel,
    receipts: Seq<crate::protocol::ReceiptModel>,
    post: DatabaseState,
)
    requires
        outcome_problem(expected, receipts, post) is None,
    ensures
        expected.receipts == receipts,
        forall|i: int, j: int|
            0 <= i < expected.storage.len() && 0 <= j < expected.storage[i].1.len() ==> slot_holds(
                post,
                expected.storage[i].0,
                (#[trigger] expected.storage[i].1[j]).0,
                expected.storage[i].1[j].1,
            ),
{
    assert forall|i: int, j: int|
        0 <= i < expected.storage.len() && 0 <= j < expected.storage[i].1.len() implies slot_holds(
        post,
        expected.storage[i].0,
        (#[trigger] expected.storage[i].1[j]).0,
        expected.storage[i].1[j].1,
    ) by {
        lemma_storage_met(post, expected.storage, i);
        let address = crate::primitives::address_of(expected.storage[i].0)->Ok_0;
        lemma_slots_met(post, address, expected.storage[i].1, j);
    }
}

proof fn lemma_slots_problem_same(
    a: DatabaseState,
    b: DatabaseState,
    address: Seq<u8>,
    slots: Seq<(Seq<char>, Seq<char>)>,
)
    requires
        crate::state::holds_same(a, b),
    ensures
        slots_problem(a, address, slots) == slots_problem(b, address, slots),
    decreases slots.len(),
{
    if slots.len() > 0 {
        lemma_slots_problem_same(a, b, address, slots.drop_last());
        assert(a.storage.map().dom().contains(address) == b.storage.map().dom().contains(address));
        assert forall|slot: int| #[trigger]
            stored(a, address, slot) == stored(b, address, slot) by {}
    }
}

proof fn lemma_storage_problem_same(
    a: DatabaseState,
    b: DatabaseState,
    storage: Seq<(Seq<char>, Seq<(Seq<char>, Seq<char>)>)>,
)
    requires
        crate::state::holds_same(a, b),
    ensures
        storage_problem(a, storage) == storage_problem(b, storage),
    decreases storage.len(),
{
    if storage.len() > 0 {
        lemma_storage_problem_same(a, b, storage.drop_last());
        if let Ok(address) = crate::primitives::address_of(storage.last().0) {
            lemma_slots_problem_same(a, b, address, storage.last().1);
        }
    }
}

/// What is wrong with outcomes follows from what the database holds, however it was filled.
pub proof fn law_outcomes_follow_from_contents(
    expected: crate::protocol::OutcomesModel,
    receipts: Seq<crate::protocol::ReceiptModel>,
    a: DatabaseState,
    b: DatabaseState,
)
    requires
        crate::state::holds_same(a, b),
    ensures
        outcome_problem(expected, receipts, a) == outcome_problem(expected, receipts, b),
{
    lemma_storage_problem_same(a, b, expected.storage);
}

/// A database holds at a slot of an account what its storage maps the slot to, and zero where it
/// maps it to nothing.
pub proof fn law_stored_numbers_are_those_of_the_storage(
    database: DatabaseState,
    address: Seq<u8>,
    slot: Word,
)
    ensures
        ({
            let storage = database.storage.map();
            let known = storage.contains_key(address) && storage[address].map().contains_key(slot@);
            &&& known ==> stored(database, address, slot.value() as int)
                == storage[address].map()[slot@].value()
            &&& !known ==> stored(database, address, slot.value() as int) == 0
        }),
{
    crate::hex::lemma_number_bytes(slot@);
}

proof fn lemma_slots_hold(
    database: DatabaseState,
    address: Seq<char>,
    slots: Seq<(Seq<char>, Seq<char>)>,
)
    requires
        crate::primitives::address_of(address) is Ok,
        forall|j: int|
            0 <= j < slots.len() ==> slot_holds(
                database,
                address,
                (#[trigger] slots[j]).0,
                slots[j].1,
            ),
    ensures
        slots_problem(database, crate::primitives::address_of(address)->Ok_0, slots) is None,
    decreases slots.len(),
{
    if slots.len() > 0 {
        let front = slots.drop_last();
        assert forall|j: int| 0 <= j < front.len() implies slot_holds(
            database,
            address,
            (#[trigger] front[j]).0,
            front[j].1,
        ) by {
            assert(front[j] == slots[j]);
        }
        lemma_slots_hold(database, address, front);
        assert(slots.last() == slots[slots.len() - 1]);
    }
}

/// The storage of the first `n` accounts that an expectation names is as it should be.
pub open spec fn storage_holds(
    database: DatabaseState,
    storage: Seq<(Seq<char>, Seq<(Seq<char>, Seq<char>)>)>,
    n: int,
) -> bool {
    &&& forall|i: int|
        0 <= i < n ==> crate::primitives::address_of((#[trigger] storage[i]).0) is Ok
    &&& forall|i: int, j: int|
        0 <= i < n && 0 <= j < storage[i].1.len() ==> slot_holds(
            database,
            storage[i].0,
            (#[trigger] storage[i].1[j]).0,
            storage[i].1[j].1,
        )
}

proof fn lemma_storage_holds(
    database: DatabaseState,
    storage: Seq<(Seq<char>, Seq<(Seq<char>, Seq<char>)>)>,
    n: int,
)
    requires
        0 <= n <= storage.len(),
        storage_holds(database, storage, n),
    ensures
        storage_problem(database, storage.take(n)) is None,
    decreases n,
{
    if n > 0 {
        lemma_storage_holds(database, storage, n - 1);
        assert(storage.take(n).drop_last() =~= storage.take(n - 1));
        assert(storage.take(n).last() == storage[n - 1]);
        let (address, slots) = storage[n - 1];
        assert forall|j: int| 0 <= j < slots.len() implies slot_holds(
            database,
            address,
            (#[trigger] slots[j]).0,
            slots[j].1,
        ) by {
            assert(storage[n - 1].1[j] == slots[j]);
        }
        lemma_slots_hold(database, address, slots);
    }
}

/// An execution that left the expected receipts, and the expected number at every slot that the
/// expectation names, is found correct, whatever else it left.
pub proof fn law_holding_outcomes_are_met(
    expected: crate::protocol::OutcomesModel,
    receipts: Seq<crate::protocol::ReceiptModel>,
    post: DatabaseState,
)
    requires
        expected.receipts == receipts,
        storage_holds(post, expected.storage, expected.storage.len() as int),
    ensures
        outcome_problem(expected, receipts, post) is None,
{
    lemma_storage_holds(post, expected.storage, expected.storage.len() as int);
    assert(expected.storage.take(expected.storage.len() as int) =~= expected.storage);
}

/// Where the receipts differ, the message shows those that were expected and those that came.
pub proof fn law_differing_receipts_are_shown(
    expected: crate::protocol::OutcomesModel,
    receipts: Seq<crate::protocol::ReceiptModel>,
    post: DatabaseState,
)
    requires
        expected.receipts != receipts,
    ensures
        outcome_problem(expected, receipts, post) == Some(
            "receipt outcomes differ: expected "@ + receipts_debug(expected.receipts) + ", got "@
                + receipts_debug(receipts),
        ),
{
}

/// The first account of the expectation whose address is no address, or the first of its slots that
/// is no number, should hold what is no number, or does not hold what it should, is what an
/// execution with the expected receipts fails for.
pub proof fn law_the_first_mismatch_is_named(
    expected: crate::protocol::OutcomesModel,
    receipts: Seq<crate::protocol::ReceiptModel>,
    post: DatabaseState,
    n: int,
    m: int,
)
    requires
        expected.receipts == receipts,
        0 <= n < expected.storage.len(),
        storage_holds(post, expected.storage, n),
        0 <= m < expected.storage[n].1.len(),
        forall|j: int|
            0 <= j < m ==> slot_holds(
                post,
                expected.storage[n].0,
                (#[trigger] expected.storage[n].1[j]).0,
                expected.storage[n].1[j].1,
            ),
    ensures
        ({
            let address = crate::primitives::address_of(expected.storage[n].0);
            let slot = crate::primitives::quantity_of(expected.storage[n].1[m].0);
            let value = crate::primitives::quantity_of(expected.storage[n].1[m].1);
            let actual = stored(post, address->Ok_0, slot->Ok_0);
            &&& address is Err ==> outcome_problem(expected, receipts, post) == Some(
                address->Err_0,
            )
            &&& address is Ok && slot is Err ==> outcome_problem(expected, receipts, post) == Some(
                slot->Err_0,
            )
            &&& address is Ok && slot is Ok && value is Err ==> outcome_problem(
                expected,
                receipts,
                post,
            ) == Some(value->Err_0)
            &&& address is Ok && slot is Ok && value is Ok && value->Ok_0 != actual
                ==> outcome_problem(expected, receipts, post) == Some(
                "storage mismatch at "@ + crate::hex::prefixed_hex(address->Ok_0) + "["@
                    + crate::hex::short_hex(crate::hex::number_bytes(slot->Ok_0, 32))
                    + "]: expected "@ + crate::hex::short_hex(
                    crate::hex::number_bytes(value->Ok_0, 32),
                ) + ", got "@ + crate::hex::short_hex(crate::hex::number_bytes(actual, 32)),
            )
        }),
{
    let storage = expected.storage;
    let slots = storage[n].1;
    lemma_storage_holds(post, storage, n);
    assert(storage.take(n + 1).drop_last() =~= storage.take(n));
    assert(storage.take(n + 1).last() == storage[n]);
    if crate::primitives::address_of(storage[n].0) is Ok {
        let address = crate::primitives::address_of(storage[n].0)->Ok_0;
        let good = slots.take(m);
        assert forall|j: int| 0 <= j < good.len() implies slot_holds(
            post,
            storage[n].0,
            (#[trigger] good[j]).0,
            good[j].1,
        ) by {
            assert(good[j] == storage[n].1[j]);
        }
        lemma_slots_hold(post, storage[n].0, good);
        assert(slots.take(m + 1).drop_last() =~= good);
        assert(slots.take(m + 1).last() == slots[m]);
        if slots_problem(post, address, slots.take(m + 1)) is Some {
            lemma_slots_fail(post, address, slots, m + 1);
        }
    }
    if storage_problem(post, storage.take(n + 1)) is Some {
        lemma_storage_fails(post, storage, n + 1);
    }
}

/// Lists are shown in brackets, with their items in order and commas between.
pub proof fn law_lists_are_shown_item_by_item(
    receipts: Seq<crate::protocol::ReceiptModel>,
    logs: Seq<crate::protocol::LogModel>,
    topics: Seq<Seq<char>>,
)
    ensures
        receipts.len() == 0 ==> receipts_debug(receipts) == "["@ + "]"@,
        logs.len() == 0 ==> logs_debug(logs) == "["@ + "]"@,
        topics.len() == 0 ==> topics_debug(topics) == "["@ + "]"@,
        receipts.len() == 1 ==> receipts_debug(receipts) == "["@ + receipt_debug(receipts[0])
            + "]"@,
        logs.len() == 1 ==> logs_debug(logs) == "["@ + log_debug(logs[0]) + "]"@,
        topics.len() == 1 ==> topics_debug(topics) == "["@ + crate::text::debug_text(topics[0])
            + "]"@,
        receipts.len() > 1 ==> receipts_debug(receipts) == receipts_debug(
            receipts.drop_last(),
        ).drop_last() + ", "@ + receipt_debug(receipts.last()) + "]"@,
        logs.len() > 1 ==> logs_debug(logs) == logs_debug(logs.drop_last()).drop_last()
            + ", "@ + log_debug(logs.last()) + "]"@,
        topics.len() > 1 ==> topics_debug(topics) == topics_debug(topics.drop_last()).drop_last()
            + ", "@ + crate::text::debug_text(topics.last()) + "]"@,
{
    reveal_strlit("[");
    reveal_strlit("]");
    assert("["@ + Seq::<char>::empty() + "]"@ =~= "["@ + "]"@);
    if receipts.len() > 1 {
        assert(receipts_debug(receipts) =~= receipts_debug(receipts.drop_last()).drop_last() + ", "@
            + receipt_debug(receipts.last()) + "]"@);
    }
    if logs.len() > 1 {
        assert(logs_debug(logs) =~= logs_debug(logs.drop_last()).drop_last() + ", "@ + log_debug(
            logs.last(),
        ) + "]"@);
    }
    if topics.len() > 1 {
        assert(topics_debug(topics) =~= topics_debug(topics.drop_last()).drop_last() + ", "@
            + crate::text::debug_text(topics.last()) + "]"@);
    }
}

/// Receipts and logs are shown member by member.
pub proof fn law_receipts_are_shown_member_by_member(
    receipt: crate::protocol::ReceiptModel,
    log: crate::protocol::LogModel,
)
    ensures
        receipt.success ==> receipt_debug(receipt) == "ExpectedReceipt { success: "@ + "true"@
            + ", logs: "@ + logs_debug(receipt.logs) + " }"@,
        !receipt.success ==> receipt_debug(receipt) == "ExpectedReceipt { success: "@ + "false"@
            + ", logs: "@ + logs_debug(receipt.logs) + " }"@,
        log_debug(log) == "ExpectedLog { address: "@ + crate::text::debug_text(log.address)
            + ", topics: "@ + topics_debug(log.topics) + ", data: "@ + crate::text::debug_text(
            log.data,
        ) + " }"@,
{
}

/// The first address of the expectation that is no address is what an execution with the expected
/// receipts fails for, whether or not slots are named under it.
pub proof fn law_the_first_bad_address_is_named(
    expected: crate::protocol::OutcomesModel,
    receipts: Seq<crate::protocol::ReceiptModel>,
    post: DatabaseState,
    n: int,
)
    requires
        expected.receipts == receipts,
        0 <= n < expected.storage.len(),
        storage_holds(post, expected.storage, n),
        crate::primitives::address_of(expected.storage[n].0) is Err,
    ensures
        outcome_problem(expected, receipts, post) == Some(
            crate::primitives::address_of(expected.storage[n].0)->Err_0,
        ),
{
    let storage = expected.storage;
    lemma_storage_holds(post, storage, n);
    assert(storage.take(n + 1).drop_last() =~= storage.take(n));
    assert(storage.take(n + 1).last() == storage[n]);
    lemma_storage_fails(post, storage, n + 1);
}

/// Outcomes are found correct exactly where the receipts are those that were expected, and every
/// slot that the expectation names holds what it should.
pub proof fn law_verifying_compares_receipts_and_storage(
    expected: &ExpectedOutcomes,
    receipts: &Vec<ExpectedReceipt>,
    post: &DatabaseState,
    result: Result<(), String>,
)
    requires
        call_ensures(verify_outcomes, (expected, receipts, post), result),
    ensures
        result is Ok <==> crate::protocol::receipts_view(expected.receipts@)
            == crate::protocol::receipts_view(receipts@) && storage_holds(
            *post,
            crate::protocol::storage_entries(expected.storage@),
            expected.storage@.len() as int,
        ),
        crate::protocol::receipts_view(expected.receipts@) != crate::protocol::receipts_view(
            receipts@,
        ) ==> result->Err_0@ == "receipt outcomes differ: expected "@ + receipts_debug(
            crate::protocol::receipts_view(expected.receipts@),
        ) + ", got "@ + receipts_debug(crate::protocol::receipts_view(receipts@)),
        result is Err ==> outcome_problem(
            expected@,
            crate::protocol::receipts_view(receipts@),
            *post,
        ) == Some(result->Err_0@),
{
    let models = crate::protocol::receipts_view(receipts@);
    let storage = expected@.storage;
    if result is Ok {
        law_met_outcomes_hold(expected@, models, *post);
        assert forall|i: int| 0 <= i < storage.len() implies crate::primitives::address_of(
            (#[trigger] storage[i]).0,
        ) is Ok by {
            lemma_storage_met(*post, storage, i);
        }
    } else if expected@.receipts == models && storage_holds(*post, storage, storage.len() as int) {
        law_holding_outcomes_are_met(expected@, models, *post);
    }
}

} // verus!
