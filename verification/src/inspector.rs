//! Counting what an execution does.

use crate::primitives::{address_text, Address};
use crate::sorted_map::SortedMap;
use crate::text::same_text;
use vstd::prelude::*;

verus! {

/// Counts the operations and the calls of precompiles that it is told of.
#[derive(Debug)]
pub struct ComputeInspector {
    pub precompiles: Vec<Address>,
    pub counts: SortedMap<String, u64>,
}

/// The key under which an operation is counted.
pub open spec fn operation_key(name: Seq<char>) -> Seq<char> {
    if name == "SHA3"@ {
        "KECCAK256"@
    } else {
        name
    }
}

/// The key under which calls of the precompile at `address` are counted.
pub open spec fn precompile_key(address: Seq<u8>) -> Seq<char> {
    "PRECOMPILE_"@ + crate::hex::prefixed_hex(address)
}

/// One of `precompiles` has the address `address`.
pub open spec fn is_precompile(precompiles: Seq<Address>, address: Seq<u8>) -> bool {
    exists|i: int| 0 <= i < precompiles.len() && (#[trigger] precompiles[i])@ == address
}

/// How often `key` was counted.
pub open spec fn count_in(counts: Map<Seq<char>, u64>, key: Seq<char>) -> u64 {
    if counts.contains_key(key) {
        counts[key]
    } else {
        0
    }
}

/// `counts` with one more for `key`.
pub open spec fn counted(counts: Map<Seq<char>, u64>, key: Seq<char>) -> Map<Seq<char>, u64> {
    counts.insert(key, (count_in(counts, key) + 1) as u64)
}

/// The key under which an execution step is counted; a step whose operation has no name is not.
pub open spec fn step_key(opcode: Option<String>) -> Option<Seq<char>> {
    match opcode {
        Some(name) => Some(operation_key(name@)),
        None => None,
    }
}

/// The key under which a call is counted; only calls that reach a precompile are.
pub open spec fn call_key(
    precompiles: Seq<Address>,
    disable_precompiles: bool,
    code_address: Seq<u8>,
) -> Option<Seq<char>> {
    if !disable_precompiles && is_precompile(precompiles, code_address) {
        Some(precompile_key(code_address))
    } else {
        None
    }
}

/// `counts` after what is counted under `key`, where it is counted.
pub open spec fn counted_if(counts: Map<Seq<char>, u64>, key: Option<Seq<char>>) -> Map<
    Seq<char>,
    u64,
> {
    match key {
        Some(key) => counted(counts, key),
        None => counts,
    }
}

/// The key under which an operation is counted: its name, but for the old name of one.
pub fn key_of_operation(name: String) -> (key: String)
    ensures
        key@ == operation_key(name@),
{
    if same_text(name.as_str(), "SHA3") {
        "KECCAK256".to_owned()
    } else {
        name
    }
}

/// The key under which calls of the precompile at `address` are counted.
pub fn key_of_precompile(address: &Address) -> (key: String)
    ensures
        key@ == precompile_key(address@),
{
    let mut key = "PRECOMPILE_".to_owned();
    key.append(address_text(address).as_str());
    key
}

impl ComputeInspector {
    /// An inspector that has counted nothing; the count of the target is there from the start.
    pub fn new(precompiles: Vec<Address>, target_count_key: &str) -> (inspector: Self)
        ensures
            inspector.precompiles == precompiles,
            inspector.counts@ == seq![(target_count_key@, 0u64)],
    {
        let mut counts: SortedMap<String, u64> = SortedMap::new();
        counts.insert(target_count_key.to_owned(), 0);
        assert(counts@ =~= seq![(target_count_key@, 0u64)]);
        ComputeInspector { precompiles, counts }
    }

    /// How often `key` was counted.
    pub fn count(&self, key: &String) -> (count: u64)
        ensures
            count == count_in(self.counts.map(), key@),
    {
        match self.counts.get(key) {
            Some(count) => *count,
            None => 0,
        }
    }

    fn add_one(&mut self, key: String)
        requires
            count_in(old(self).counts.map(), key@) < u64::MAX,
        ensures
            final(self).precompiles == old(self).precompiles,
            final(self).counts.map() == counted(old(self).counts.map(), key@),
    {
        let count: u64 = self.count(&key);
        self.counts.insert(key, count + 1);
    }

    /// Counts an execution step, given the name of its operation where it has one.
    pub fn step(&mut self, opcode: Option<String>)
        requires
            match step_key(opcode) {
                Some(key) => count_in(old(self).counts.map(), key) < u64::MAX,
                None => true,
            },
        ensures
            final(self).precompiles == old(self).precompiles,
            final(self).counts.map() == counted_if(old(self).counts.map(), step_key(opcode)),
            opcode is None ==> final(self).counts.map() == old(self).counts.map(),
            opcode matches Some(name) ==> {
                let key = if name@ == "SHA3"@ {
                    "KECCAK256"@
                } else {
                    name@
                };
                final(self).counts.map() == old(self).counts.map().insert(
                    key,
                    (count_in(old(self).counts.map(), key) + 1) as u64,
                )
            },
    {
        match opcode {
            Some(name) => self.add_one(key_of_operation(name)),
            None => {},
        }
    }

    /// Whether there is a precompile at `address`.
    pub fn knows(&self, address: &Address) -> (known: bool)
        ensures
            known == is_precompile(self.precompiles@, address@),
    {
        let mut i: usize = 0;
        while i < self.precompiles.len()
            invariant
                i <= self.precompiles@.len(),
                forall|j: int| 0 <= j < i ==> (#[trigger] self.precompiles@[j])@ != address@,
            decreases self.precompiles@.len() - i,
        {
            if self.precompiles[i].same(address) {
                return true;
            }
            i += 1;
        }
        false
    }

    /// Counts a call, where it reaches a precompile.
    pub fn call(&mut self, disable_precompiles: bool, code_address: &Address)
        requires
            match call_key(old(self).precompiles@, disable_precompiles, code_address@) {
                Some(key) => count_in(old(self).counts.map(), key) < u64::MAX,
                None => true,
            },
        ensures
            final(self).precompiles == old(self).precompiles,
            final(self).counts.map() == counted_if(
                old(self).counts.map(),
                call_key(old(self).precompiles@, disable_precompiles, code_address@),
            ),
            disable_precompiles ==> final(self).counts.map() == old(self).counts.map(),
            !is_precompile(old(self).precompiles@, code_address@) ==> final(self).counts.map()
                == old(self).counts.map(),
            !disable_precompiles && is_precompile(old(self).precompiles@, code_address@) ==> {
                let key = "PRECOMPILE_"@ + crate::hex::prefixed_hex(code_address@);
                final(self).counts.map() == old(self).counts.map().insert(
                    key,
                    (count_in(old(self).counts.map(), key) + 1) as u64,
                )
            },
    {
        if !disable_precompiles && self.knows(code_address) {
            self.add_one(key_of_precompile(code_address));
        }
    }
}

/// The counts after all that is counted under `keys`, one after the other.
pub open spec fn counts_after(counts: Map<Seq<char>, u64>, keys: Seq<Option<Seq<char>>>) -> Map<
    Seq<char>,
    u64,
>
    decreases keys.len(),
{
    if keys.len() == 0 {
        counts
    } else {
        counted_if(counts_after(counts, keys.drop_last()), keys.last())
    }
}

/// How often `key` occurs in `keys`.
pub open spec fn times(keys: Seq<Option<Seq<char>>>, key: Seq<char>) -> nat
    decreases keys.len(),
{
    if keys.len() == 0 {
        0
    } else {
        times(keys.drop_last(), key) + if keys.last() == Some(key) {
            1nat
        } else {
            0nat
        }
    }
}

/// A count goes up by the number of times that its key was counted, and a key that has a count
/// keeps one. So an inspector that was made for a target has its count whatever is executed.
pub proof fn law_counts_add_up(
    counts: Map<Seq<char>, u64>,
    keys: Seq<Option<Seq<char>>>,
    key: Seq<char>,
)
    requires
        count_in(counts, key) + times(keys, key) <= u64::MAX,
    ensures
        count_in(counts_after(counts, keys), key) == count_in(counts, key) + times(keys, key),
        counts.contains_key(key) ==> counts_after(counts, keys).contains_key(key),
    decreases keys.len(),
{
    if keys.len() > 0 {
        law_counts_add_up(counts, keys.drop_last(), key);
    }
}

proof fn lemma_digit_lower(c: char)
    requires
        crate::hex::digit_value(c) >= 0,
    ensures
        crate::hex::hex_digit(crate::hex::digit_value(c)) == crate::text::ascii_lower(c),
        crate::hex::digit_value(c) < 16,
{
}

/// A case that names a precompile by its address, with the prefix and with digits of either case,
/// has as its target the key under which calls of that precompile are counted.
pub proof fn law_target_precompile_is_counted(
    case: crate::protocol::WorkloadCase,
    text: String,
    address: Address,
    operation: Seq<char>,
)
    requires
        case.parameters is Some,
        case.parameters->0.map().contains_key("precompile_address"@),
        case.parameters->0.map()["precompile_address"@] == crate::protocol::ParameterValue::Text(
            text,
        ),
        crate::primitives::address_of(text@) == Ok::<Seq<u8>, Seq<char>>(address@),
        text@.len() == 42,
    ensures
        crate::prepare::target_key(case, operation) == precompile_key(address@),
{
    let digits = crate::hex::hex_digits(text@);
    let bytes = address@;
    let lower = crate::text::lower_text(text@);
    let written = crate::hex::prefixed_hex(bytes);
    assert(digits.len() == 40);
    assert(digits =~= text@.skip(2));
    assert forall|i: int| 0 <= i < 42 implies lower[i] == written[i] by {
        if i >= 2 {
            let k = (i - 2) / 2;
            let (high, low) = (digits[2 * k], digits[2 * k + 1]);
            lemma_digit_lower(high);
            lemma_digit_lower(low);
            let (h, l) = (crate::hex::digit_value(high), crate::hex::digit_value(low));
            assert(bytes[k] == (16 * h + l) as u8);
            assert(0 <= 16 * h + l < 256);
            assert(bytes[k] as int / 16 == h && bytes[k] as int % 16 == l);
            assert(text@[i] == digits[i - 2]);
            if (i - 2) % 2 == 0 {
                assert(i - 2 == 2 * k);
            } else {
                assert(i - 2 == 2 * k + 1);
            }
        }
    }
    assert(lower =~= written);
}

/// A step with a named operation adds one to the count of that operation and leaves all others as
/// they were; `SHA3` is counted as `KECCAK256`, and a step without a name changes nothing.
pub proof fn law_steps_are_counted(
    counts: Map<Seq<char>, u64>,
    opcode: Option<String>,
    key: Seq<char>,
)
    requires
        count_in(counts, key) < u64::MAX,
    ensures
        ({
            let after = counted_if(counts, step_key(opcode));
            &&& opcode is None ==> after == counts
            &&& opcode is Some ==> {
                let name = opcode->0@;
                let counts_here = if name == "SHA3"@ {
                    key == "KECCAK256"@
                } else {
                    key == name
                };
                &&& counts_here ==> after.contains_key(key) && after[key] == 1 + (
                if counts.contains_key(key) {
                    counts[key] as int
                } else {
                    0
                })
                &&& !counts_here ==> (after.contains_key(key) <==> counts.contains_key(key)) && (
                counts.contains_key(key) ==> after[key] == counts[key])
            }
        }),
{
}

/// A call that reaches a precompile, while precompiles are not disabled, adds one to the count of
/// that precompile, under its address in small digits, and leaves all others as they were; any
/// other call changes nothing.
pub proof fn law_calls_of_precompiles_are_counted(
    counts: Map<Seq<char>, u64>,
    precompiles: Seq<Address>,
    disable_precompiles: bool,
    code_address: Seq<u8>,
    key: Seq<char>,
)
    requires
        count_in(counts, key) < u64::MAX,
    ensures
        ({
            let after = counted_if(
                counts,
                call_key(precompiles, disable_precompiles, code_address),
            );
            let reached = !disable_precompiles && exists|i: int|
                0 <= i < precompiles.len() && (#[trigger] precompiles[i])@ == code_address;
            &&& !reached ==> after == counts
            &&& reached && key == "PRECOMPILE_"@ + crate::hex::prefixed_hex(code_address)
                ==> after.contains_key(key) && after[key] == 1 + (if counts.contains_key(key) {
                counts[key] as int
            } else {
                0
            })
            &&& reached && key != "PRECOMPILE_"@ + crate::hex::prefixed_hex(code_address) ==> (
            after.contains_key(key) <==> counts.contains_key(key)) && (counts.contains_key(key)
                ==> after[key] == counts[key])
        }),
{
}

/// A new inspector knows the precompiles that it is given and has counted nothing but the target,
/// which it has counted no time.
pub proof fn law_new_inspectors_have_counted_nothing(
    precompiles: Vec<Address>,
    target: &str,
    inspector: ComputeInspector,
    key: Seq<char>,
)
    requires
        call_ensures(ComputeInspector::new, (precompiles, target), inspector),
    ensures
        inspector.precompiles@ == precompiles@,
        inspector.counts.map().contains_key(key) <==> key == target@,
        count_in(inspector.counts.map(), key) == 0,
{
    let entries = inspector.counts@;
    assert(entries[0] == (target@, 0u64));
    assert(crate::sorted_map::has_key::<String, u64>(entries, target@));
}

/// Operations are counted under their names, but `SHA3` under `KECCAK256`; precompiles under their
/// addresses in small digits; and an inspector knows the precompiles that it was given.
pub proof fn law_keys_of_counts(
    name: String,
    operation: String,
    address: &Address,
    precompile: String,
    inspector: &ComputeInspector,
    known: bool,
    key: &String,
    count: u64,
)
    requires
        call_ensures(key_of_operation, (name,), operation),
        call_ensures(key_of_precompile, (address,), precompile),
        call_ensures(ComputeInspector::knows, (inspector, address), known),
        call_ensures(ComputeInspector::count, (inspector, key), count),
    ensures
        name@ == "SHA3"@ ==> operation@ == "KECCAK256"@,
        name@ != "SHA3"@ ==> operation@ == name@,
        precompile@ == "PRECOMPILE_"@ + crate::hex::prefixed_hex(address@),
        known <==> exists|i: int|
            0 <= i < inspector.precompiles@.len() && (#[trigger] inspector.precompiles@[i])@
                == address@,
        inspector.counts.map().contains_key(key@) ==> count == inspector.counts.map()[key@],
        !inspector.counts.map().contains_key(key@) ==> count == 0,
{
}

} // verus!
