//! The state of a database, and snapshots of it.

use crate::json::Json;
use crate::primitives::{address_text, full_text, hash_text, Address, Word};
use crate::sorted_map::SortedMap;
use vstd::prelude::*;

verus! {

/// An account as a database holds it.
#[derive(Clone, Copy, Debug)]
pub struct AccountState {
    pub balance: Word,
    pub nonce: u64,
    pub code_hash: [u8; 32],
}

/// The accounts and the storage that a database holds. An account that it knows to be missing is
/// there without a state.
#[derive(Debug)]
pub struct DatabaseState {
    pub accounts: SortedMap<Address, Option<AccountState>>,
    pub storage: SortedMap<Address, SortedMap<Word, Word>>,
}

/// An account in a snapshot.
#[derive(Debug)]
pub struct AccountSnapshot {
    pub balance: String,
    pub nonce: u64,
    pub code_hash: String,
}

/// A database state in hexadecimal notation, in the order of its keys.
#[derive(Debug)]
pub struct StateSnapshot {
    pub accounts: SortedMap<String, Option<AccountSnapshot>>,
    pub storage: SortedMap<String, SortedMap<String, String>>,
}

/// An [`AccountSnapshot`] by its contents.
pub ghost struct AccountModel {
    pub balance: Seq<char>,
    pub nonce: u64,
    pub code_hash: Seq<char>,
}

/// A [`StateSnapshot`] by its contents.
pub ghost struct SnapshotModel {
    pub accounts: Seq<(Seq<char>, Option<AccountModel>)>,
    pub storage: Seq<(Seq<char>, Seq<(Seq<char>, Seq<char>)>)>,
}

/// The contents of an account in a snapshot, where it has a state.
pub open spec fn account_view(account: Option<AccountSnapshot>) -> Option<AccountModel> {
    match account {
        Some(account) => Some(
            AccountModel {
                balance: account.balance@,
                nonce: account.nonce,
                code_hash: account.code_hash@,
            },
        ),
        None => None,
    }
}

/// The contents of the accounts in a snapshot.
pub open spec fn accounts_view(
    entries: Seq<(Seq<char>, Option<AccountSnapshot>)>,
) -> Seq<(Seq<char>, Option<AccountModel>)> {
    entries.map_values(
        |entry: (Seq<char>, Option<AccountSnapshot>)| (entry.0, account_view(entry.1)),
    )
}

impl View for StateSnapshot {
    type V = SnapshotModel;

    open spec fn view(&self) -> SnapshotModel {
        SnapshotModel {
            accounts: accounts_view(self.accounts@),
            storage: crate::protocol::storage_entries(self.storage@),
        }
    }
}

/// What a snapshot holds for an account: the balance with all its digits, the nonce, and the hash
/// of the code.
pub open spec fn account_model(account: Option<AccountState>) -> Option<AccountModel> {
    match account {
        Some(account) => Some(
            AccountModel {
                balance: crate::hex::prefixed_hex(account.balance@),
                nonce: account.nonce,
                code_hash: crate::hex::prefixed_hex(account.code_hash@),
            },
        ),
        None => None,
    }
}

/// What a snapshot holds for accounts.
pub open spec fn accounts_model(
    accounts: Seq<(Seq<u8>, Option<AccountState>)>,
) -> Seq<(Seq<char>, Option<AccountModel>)> {
    accounts.map_values(
        |entry: (Seq<u8>, Option<AccountState>)|
            (crate::hex::prefixed_hex(entry.0), account_model(entry.1)),
    )
}

/// What a snapshot holds for the slots of an account: slot and value, each with all its digits.
pub open spec fn slots_model(slots: Seq<(Seq<u8>, Word)>) -> Seq<(Seq<char>, Seq<char>)> {
    slots.map_values(
        |entry: (Seq<u8>, Word)|
            (crate::hex::prefixed_hex(entry.0), crate::hex::prefixed_hex(entry.1@)),
    )
}

/// What a snapshot holds for storage.
pub open spec fn storage_model(
    storage: Seq<(Seq<u8>, SortedMap<Word, Word>)>,
) -> Seq<(Seq<char>, Seq<(Seq<char>, Seq<char>)>)> {
    storage.map_values(
        |entry: (Seq<u8>, SortedMap<Word, Word>)|
            (crate::hex::prefixed_hex(entry.0), slots_model(entry.1@)),
    )
}

/// The snapshot of a database state.
pub open spec fn snapshot_model(database: DatabaseState) -> SnapshotModel {
    SnapshotModel {
        accounts: accounts_model(database.accounts@),
        storage: storage_model(database.storage@),
    }
}

fn account_snapshot(account: &Option<AccountState>) -> (snapshot: Option<AccountSnapshot>)
    ensures
        account_view(snapshot) == account_model(*account),
{
    match account {
        Some(account) => Some(
            AccountSnapshot {
                balance: full_text(&account.balance),
                nonce: account.nonce,
                code_hash: hash_text(&account.code_hash),
            },
        ),
        None => None,
    }
}

fn accounts_snapshot(accounts: &SortedMap<Address, Option<AccountState>>) -> (snapshot: SortedMap<
    String,
    Option<AccountSnapshot>,
>)
    ensures
        accounts_view(snapshot@) == accounts_model(accounts@),
{
    proof {
        use_type_invariant(accounts);
    }
    let mut snapshot: SortedMap<String, Option<AccountSnapshot>> = SortedMap::new();
    let mut i: usize = 0;
    while i < accounts.len()
        invariant
            i <= accounts@.len(),
            crate::sorted_map::ascending::<Address, Option<AccountState>>(accounts@),
            snapshot@.len() == i,
            forall|j: int|
                0 <= j < i ==> (#[trigger] snapshot@[j]).0 == crate::hex::prefixed_hex(
                    accounts@[j].0,
                ) && account_view(snapshot@[j].1) == account_model(accounts@[j].1),
        decreases accounts@.len() - i,
    {
        let key = address_text(accounts.key_at(i));
        let account = account_snapshot(accounts.value_at(i));
        let ghost before = snapshot@;
        proof {
            assert forall|j: int| 0 <= j < before.len() implies crate::order::precedes(
                crate::order::text_code((#[trigger] before[j]).0),
                crate::order::text_code(key@),
            ) by {
                crate::hex::lemma_prefixed_hex_keeps_order(accounts@[j].0, accounts@[i as int].0);
            }
        }
        snapshot.insert(key, account);
        i += 1;
    }
    assert(accounts_view(snapshot@) =~= accounts_model(accounts@));
    snapshot
}

fn slots_snapshot(slots: &SortedMap<Word, Word>) -> (snapshot: SortedMap<String, String>)
    ensures
        crate::protocol::text_entries(snapshot@) == slots_model(slots@),
{
    proof {
        use_type_invariant(slots);
    }
    let mut snapshot: SortedMap<String, String> = SortedMap::new();
    let mut i: usize = 0;
    while i < slots.len()
        invariant
            i <= slots@.len(),
            crate::sorted_map::ascending::<Word, Word>(slots@),
            snapshot@.len() == i,
            forall|j: int|
                0 <= j < i ==> (#[trigger] snapshot@[j]).0 == crate::hex::prefixed_hex(
                    slots@[j].0,
                ) && snapshot@[j].1@ == crate::hex::prefixed_hex(slots@[j].1@),
        decreases slots@.len() - i,
    {
        let key = full_text(slots.key_at(i));
        let value = full_text(slots.value_at(i));
        let ghost before = snapshot@;
        proof {
            assert forall|j: int| 0 <= j < before.len() implies crate::order::precedes(
                crate::order::text_code((#[trigger] before[j]).0),
                crate::order::text_code(key@),
            ) by {
                crate::hex::lemma_prefixed_hex_keeps_order(slots@[j].0, slots@[i as int].0);
            }
        }
        snapshot.insert(key, value);
        i += 1;
    }
    assert(crate::protocol::text_entries(snapshot@) =~= slots_model(slots@));
    snapshot
}

fn storage_snapshot(storage: &SortedMap<Address, SortedMap<Word, Word>>) -> (snapshot: SortedMap<
    String,
    SortedMap<String, String>,
>)
    ensures
        crate::protocol::storage_entries(snapshot@) == storage_model(storage@),
{
    proof {
        use_type_invariant(storage);
    }
    let mut snapshot: SortedMap<String, SortedMap<String, String>> = SortedMap::new();
    let mut i: usize = 0;
    while i < storage.len()
        invariant
            i <= storage@.len(),
            crate::sorted_map::ascending::<Address, SortedMap<Word, Word>>(storage@),
            snapshot@.len() == i,
            forall|j: int|
                0 <= j < i ==> (#[trigger] snapshot@[j]).0 == crate::hex::prefixed_hex(
                    storage@[j].0,
                ) && crate::protocol::text_entries(snapshot@[j].1@) == slots_model(
                    storage@[j].1@,
                ),
        decreases storage@.len() - i,
    {
        let key = address_text(storage.key_at(i));
        let slots = slots_snapshot(storage.value_at(i));
        let ghost before = snapshot@;
        proof {
            assert forall|j: int| 0 <= j < before.len() implies crate::order::precedes(
                crate::order::text_code((#[trigger] before[j]).0),
                crate::order::text_code(key@),
            ) by {
                crate::hex::lemma_prefixed_hex_keeps_order(storage@[j].0, storage@[i as int].0);
            }
        }
        snapshot.insert(key, slots);
        i += 1;
    }
    assert(crate::protocol::storage_entries(snapshot@) =~= storage_model(storage@));
    snapshot
}

/// A snapshot of a database state.
pub fn state_snapshot(database: &DatabaseState) -> (snapshot: StateSnapshot)
    ensures
        snapshot@ == snapshot_model(*database),
{
    StateSnapshot {
        accounts: accounts_snapshot(&database.accounts),
        storage: storage_snapshot(&database.storage),
    }
}

/// The notation of an account in a snapshot.
pub open spec fn account_json(account: Option<AccountModel>) -> Seq<char> {
    match account {
        Some(account) => "{\"balance\":"@ + crate::json::string_json(account.balance)
            + ",\"nonce\":"@ + account.nonce.json() + ",\"code_hash\":"@
            + crate::json::string_json(account.code_hash) + "}"@,
        None => "null"@,
    }
}

/// The notation of storage.
pub open spec fn storage_json(
    storage: Seq<(Seq<char>, Seq<(Seq<char>, Seq<char>)>)>,
) -> Seq<char> {
    crate::json::object_json(
        storage,
        |slots: Seq<(Seq<char>, Seq<char>)>|
            crate::json::object_json(slots, |value: Seq<char>| crate::json::string_json(value)),
    )
}

/// The notation of a snapshot.
pub open spec fn snapshot_json(snapshot: SnapshotModel) -> Seq<char> {
    "{\"accounts\":"@ + crate::json::object_json(
        snapshot.accounts,
        |account: Option<AccountModel>| account_json(account),
    ) + ",\"storage\":"@ + storage_json(snapshot.storage) + "}"@
}

impl Json for AccountSnapshot {
    open spec fn json(self) -> Seq<char> {
        account_json(account_view(Some(self)))
    }

    fn write_json(&self, out: &mut String) {
        let ghost start = out@;
        out.append("{\"balance\":");
        self.balance.write_json(out);
        out.append(",\"nonce\":");
        self.nonce.write_json(out);
        out.append(",\"code_hash\":");
        self.code_hash.write_json(out);
        out.append("}");
        assert(out@ =~= start + self.json());
    }
}

proof fn lemma_accounts_json(accounts: SortedMap<String, Option<AccountSnapshot>>)
    ensures
        accounts.json() == crate::json::object_json(
            accounts_view(accounts@),
            |account: Option<AccountModel>| account_json(account),
        ),
{
    let notation = |account: Option<AccountSnapshot>| account.json();
    let model_notation = |account: Option<AccountModel>| account_json(account);
    crate::json::lemma_joined_of_images(
        accounts@,
        ","@,
        |entry: (Seq<char>, Option<AccountSnapshot>)| (entry.0, account_view(entry.1)),
        |entry: (Seq<char>, Option<AccountSnapshot>)|
            crate::json::string_json(entry.0) + ":"@ + notation(entry.1),
        |entry: (Seq<char>, Option<AccountModel>)|
            crate::json::string_json(entry.0) + ":"@ + model_notation(entry.1),
    );
}

/// The notation of a map of texts is that of its contents.
pub proof fn lemma_slots_json(slots: SortedMap<String, String>)
    ensures
        slots.json() == crate::json::object_json(
            crate::protocol::text_entries(slots@),
            |value: Seq<char>| crate::json::string_json(value),
        ),
{
    let notation = |value: String| value.json();
    let model_notation = |value: Seq<char>| crate::json::string_json(value);
    crate::json::lemma_joined_of_images(
        slots@,
        ","@,
        |entry: (Seq<char>, String)| (entry.0, entry.1@),
        |entry: (Seq<char>, String)|
            crate::json::string_json(entry.0) + ":"@ + notation(entry.1),
        |entry: (Seq<char>, Seq<char>)|
            crate::json::string_json(entry.0) + ":"@ + model_notation(entry.1),
    );
}

/// The notation of storage is that of its contents.
pub proof fn lemma_storage_json(storage: SortedMap<String, SortedMap<String, String>>)
    ensures
        storage.json() == storage_json(crate::protocol::storage_entries(storage@)),
{
    let notation = |slots: SortedMap<String, String>| slots.json();
    let model_notation = |slots: Seq<(Seq<char>, Seq<char>)>|
        crate::json::object_json(slots, |value: Seq<char>| crate::json::string_json(value));
    assert forall|slots: SortedMap<String, String>|
        #[trigger] notation(slots) == model_notation(crate::protocol::text_entries(slots@)) by {
        lemma_slots_json(slots);
    }
    crate::json::lemma_joined_of_images(
        storage@,
        ","@,
        |entry: (Seq<char>, SortedMap<String, String>)|
            (entry.0, crate::protocol::text_entries(entry.1@)),
        |entry: (Seq<char>, SortedMap<String, String>)|
            crate::json::string_json(entry.0) + ":"@ + notation(entry.1),
        |entry: (Seq<char>, Seq<(Seq<char>, Seq<char>)>)|
            crate::json::string_json(entry.0) + ":"@ + model_notation(entry.1),
    );
}

impl Json for StateSnapshot {
    open spec fn json(self) -> Seq<char> {
        snapshot_json(self@)
    }

    fn write_json(&self, out: &mut String) {
        let ghost start = out@;
        out.append("{\"accounts\":");
        self.accounts.write_json(out);
        out.append(",\"storage\":");
        self.storage.write_json(out);
        out.append("}");
        proof {
            lemma_accounts_json(self.accounts);
            lemma_storage_json(self.storage);
        }
        assert(out@ =~= start + self.json());
    }
}

/// Every map of a database state is in order.
pub open spec fn is_valid(database: DatabaseState) -> bool {
    &&& database.accounts.well_formed()
    &&& database.storage.well_formed()
    &&& forall|i: int|
        0 <= i < database.storage@.len() ==> (#[trigger] database.storage@[i]).1.well_formed()
}

/// Two databases hold the same accounts and the same slots.
pub open spec fn holds_same(a: DatabaseState, b: DatabaseState) -> bool {
    &&& a.accounts.map() == b.accounts.map()
    &&& a.storage.map().dom() == b.storage.map().dom()
    &&& forall|address: Seq<u8>| #[trigger]
        a.storage.map().contains_key(address) ==> a.storage.map()[address].map()
            == b.storage.map()[address].map()
}

/// The snapshot of a database follows from what it maps to what: two databases that hold the same
/// accounts and the same slots have the same snapshot, however they were filled.
pub proof fn law_snapshot_follows_from_contents(a: DatabaseState, b: DatabaseState)
    requires
        is_valid(a),
        is_valid(b),
        holds_same(a, b),
    ensures
        snapshot_model(a) == snapshot_model(b),
{
    crate::sorted_map::law_entries_follow_from_map::<Address, Option<AccountState>>(
        a.accounts@,
        b.accounts@,
    );
    let (s, t) = (a.storage@, b.storage@);
    assert forall|key: Seq<u8>| #[trigger]
        crate::sorted_map::has_key::<Address, SortedMap<Word, Word>>(s, key)
            <==> crate::sorted_map::has_key::<Address, SortedMap<Word, Word>>(t, key) by {
        assert(a.storage.map().dom().contains(key) <==> crate::sorted_map::has_key::<
            Address,
            SortedMap<Word, Word>,
        >(s, key));
        assert(b.storage.map().dom().contains(key) <==> crate::sorted_map::has_key::<
            Address,
            SortedMap<Word, Word>,
        >(t, key));
    }
    crate::sorted_map::lemma_keys_determined::<
        Address,
        SortedMap<Word, Word>,
        SortedMap<Word, Word>,
    >(s, t);
    assert forall|i: int| 0 <= i < s.len() implies s[i].0 == t[i].0 && s[i].1@ == t[i].1@ by {
        crate::sorted_map::lemma_as_map_at::<Address, SortedMap<Word, Word>>(s, i);
        crate::sorted_map::lemma_as_map_at::<Address, SortedMap<Word, Word>>(t, i);
        assert(s[i].0 == t[i].0);
        assert(a.storage.map().contains_key(s[i].0));
        crate::sorted_map::law_entries_follow_from_map::<Word, Word>(s[i].1@, t[i].1@);
    }
    assert(storage_model(s) =~= storage_model(t));
}

/// Two accounts have the same balance, nonce and code.
pub open spec fn same_account(a: Option<AccountState>, b: Option<AccountState>) -> bool {
    match (a, b) {
        (Some(a), Some(b)) => {
            &&& a.balance@ == b.balance@
            &&& a.nonce == b.nonce
            &&& a.code_hash@ == b.code_hash@
        },
        (None, None) => true,
        _ => false,
    }
}

/// Two databases hold the same accounts and the same slots, entry by entry.
pub open spec fn same_entries(a: DatabaseState, b: DatabaseState) -> bool {
    &&& a.accounts@.len() == b.accounts@.len()
    &&& forall|i: int|
        0 <= i < a.accounts@.len() ==> (#[trigger] a.accounts@[i]).0 == b.accounts@[i].0
            && same_account(a.accounts@[i].1, b.accounts@[i].1)
    &&& a.storage@.len() == b.storage@.len()
    &&& forall|i: int|
        0 <= i < a.storage@.len() ==> (#[trigger] a.storage@[i]).0 == b.storage@[i].0
            && a.storage@[i].1@.len() == b.storage@[i].1@.len()
    &&& forall|i: int, j: int|
        0 <= i < a.storage@.len() && 0 <= j < a.storage@[i].1@.len() ==> (
        #[trigger] a.storage@[i].1@[j]).0 == b.storage@[i].1@[j].0 && a.storage@[i].1@[j].1@
            == b.storage@[i].1@[j].1@
}

proof fn lemma_hex_injective(a: Seq<u8>, b: Seq<u8>)
    requires
        crate::hex::prefixed_hex(a) == crate::hex::prefixed_hex(b),
    ensures
        a == b,
{
    crate::hex::lemma_decoded_lower_hex(a);
    crate::hex::lemma_decoded_lower_hex(b);
}

/// A snapshot determines the state: databases with the same snapshot hold the same accounts, with
/// the balance, the nonce and the code of each, and the same slots.
pub proof fn law_snapshots_determine_the_state(a: DatabaseState, b: DatabaseState)
    requires
        snapshot_model(a) == snapshot_model(b),
    ensures
        same_entries(a, b),
{
    let (s, t) = (snapshot_model(a), snapshot_model(b));
    assert(s.accounts.len() == a.accounts@.len() && t.accounts.len() == b.accounts@.len());
    assert(s.storage.len() == a.storage@.len() && t.storage.len() == b.storage@.len());
    assert forall|i: int| 0 <= i < a.accounts@.len() implies (#[trigger] a.accounts@[i]).0
        == b.accounts@[i].0 && same_account(a.accounts@[i].1, b.accounts@[i].1) by {
        let (x, y) = (a.accounts@[i], b.accounts@[i]);
        assert(s.accounts[i] == (crate::hex::prefixed_hex(x.0), account_model(x.1)));
        assert(t.accounts[i] == (crate::hex::prefixed_hex(y.0), account_model(y.1)));
        lemma_hex_injective(x.0, y.0);
        assert(x.1 is Some <==> account_model(x.1) is Some);
        assert(y.1 is Some <==> account_model(y.1) is Some);
        if x.1 is Some {
            lemma_hex_injective(x.1->0.balance@, y.1->0.balance@);
            lemma_hex_injective(x.1->0.code_hash@, y.1->0.code_hash@);
        }
    }
    assert forall|i: int| 0 <= i < a.storage@.len() implies (#[trigger] a.storage@[i]).0
        == b.storage@[i].0 && a.storage@[i].1@.len() == b.storage@[i].1@.len() by {
        let (x, y) = (a.storage@[i], b.storage@[i]);
        assert(s.storage[i] == (crate::hex::prefixed_hex(x.0), slots_model(x.1@)));
        assert(t.storage[i] == (crate::hex::prefixed_hex(y.0), slots_model(y.1@)));
        lemma_hex_injective(x.0, y.0);
        assert(slots_model(x.1@).len() == x.1@.len() && slots_model(y.1@).len() == y.1@.len());
    }
    assert forall|i: int, j: int|
        0 <= i < a.storage@.len() && 0 <= j < a.storage@[i].1@.len() implies (
    #[trigger] a.storage@[i].1@[j]).0 == b.storage@[i].1@[j].0 && a.storage@[i].1@[j].1@
        == b.storage@[i].1@[j].1@ by {
        let (x, y) = (a.storage@[i], b.storage@[i]);
        assert(s.storage[i] == (crate::hex::prefixed_hex(x.0), slots_model(x.1@)));
        assert(t.storage[i] == (crate::hex::prefixed_hex(y.0), slots_model(y.1@)));
        let (u, v) = (x.1@[j], y.1@[j]);
        assert(x.1@.len() == y.1@.len());
        assert(slots_model(x.1@)[j] == (
            crate::hex::prefixed_hex(u.0),
            crate::hex::prefixed_hex(u.1@),
        ));
        assert(slots_model(y.1@)[j] == (
            crate::hex::prefixed_hex(v.0),
            crate::hex::prefixed_hex(v.1@),
        ));
        lemma_hex_injective(u.0, v.0);
        lemma_hex_injective(u.1@, v.1@);
    }
}

/// The text that is hashed of a state determines it: databases with the same notation hold the same
/// accounts, with the balance, the nonce and the code of each, and the same slots.
pub proof fn law_notations_determine_the_state(a: DatabaseState, b: DatabaseState)
    requires
        snapshot_json(snapshot_model(a)) == snapshot_json(snapshot_model(b)),
    ensures
        same_entries(a, b),
{
    crate::notation::lemma_snapshot(snapshot_model(a), snapshot_model(b));
    law_snapshots_determine_the_state(a, b);
}

/// A snapshot has an entry for each account and each slot, under the address or slot in small
/// digits: reading the texts back gives the balance, the code hash and the numbers in the slots.
pub proof fn law_snapshots_are_of_the_state(database: DatabaseState, i: int)
    ensures
        ({
            let snapshot = snapshot_model(database);
            &&& snapshot.accounts.len() == database.accounts@.len()
            &&& snapshot.storage.len() == database.storage@.len()
            &&& 0 <= i < database.accounts@.len() ==> {
                let (address, account) = database.accounts@[i];
                &&& snapshot.accounts[i].0 == crate::hex::prefixed_hex(address)
                &&& account is None ==> snapshot.accounts[i].1 is None
                &&& account is Some ==> {
                    let model = snapshot.accounts[i].1->0;
                    &&& snapshot.accounts[i].1 is Some
                    &&& model.nonce == account->0.nonce
                    &&& model.balance.len() == 66
                    &&& crate::primitives::quantity_of(model.balance) == Ok::<int, Seq<char>>(
                        account->0.balance.value() as int,
                    )
                    &&& crate::primitives::bytes_of(model.code_hash) == Ok::<Seq<u8>, Seq<char>>(
                        account->0.code_hash@,
                    )
                }
            }
            &&& 0 <= i < database.storage@.len() ==> {
                let (address, slots) = database.storage@[i];
                &&& snapshot.storage[i].0 == crate::hex::prefixed_hex(address)
                &&& snapshot.storage[i].1.len() == slots@.len()
                &&& forall|j: int|
                    0 <= j < slots@.len() ==> (#[trigger] snapshot.storage[i].1[j]).0
                        == crate::hex::prefixed_hex(slots@[j].0) && snapshot.storage[i].1[j].1.len()
                        == 66 && crate::primitives::quantity_of(snapshot.storage[i].1[j].1) == Ok::<
                        int,
                        Seq<char>,
                    >(slots@[j].1.value() as int)
            }
        }),
{
    let snapshot = snapshot_model(database);
    if 0 <= i < database.accounts@.len() {
        if let Some(account) = database.accounts@[i].1 {
            crate::primitives::law_quantity_round_trip(account.balance);
            crate::primitives::law_bytes_round_trip(account.code_hash@);
        }
    }
    if 0 <= i < database.storage@.len() {
        let slots = database.storage@[i].1;
        assert(snapshot.storage[i].1 == slots_model(slots@));
        assert forall|j: int| 0 <= j < slots@.len() implies (
        #[trigger] snapshot.storage[i].1[j]).0 == crate::hex::prefixed_hex(slots@[j].0)
            && snapshot.storage[i].1[j].1.len() == 66 && crate::primitives::quantity_of(
            snapshot.storage[i].1[j].1,
        ) == Ok::<int, Seq<char>>(slots@[j].1.value() as int) by {
            crate::primitives::law_quantity_round_trip(slots@[j].1);
        }
    }
}

/// The notation of a state with one account, member by member.
pub proof fn law_the_notation_of_an_account(
    database: DatabaseState,
    address: Seq<u8>,
    account: AccountState,
)
    requires
        database.accounts@ == seq![(address, Some(account))],
        database.storage@.len() == 0,
    ensures
        snapshot_json(snapshot_model(database)) == "{\"accounts\":{"@ + crate::json::string_json(
            crate::hex::prefixed_hex(address),
        ) + ":{\"balance\":"@ + crate::json::string_json(
            crate::hex::prefixed_hex(account.balance@),
        ) + ",\"nonce\":"@ + crate::text::decimal_text(account.nonce as nat)
            + ",\"code_hash\":"@ + crate::json::string_json(
            crate::hex::prefixed_hex(account.code_hash@),
        ) + "}},\"storage\":{}}"@,
{
    reveal_strlit("{\"accounts\":{");
    reveal_strlit("{\"accounts\":");
    reveal_strlit(":{\"balance\":");
    reveal_strlit("{\"balance\":");
    reveal_strlit(":");
    reveal_strlit("{");
    reveal_strlit("}");
    reveal_strlit(",\"storage\":");
    reveal_strlit("}},\"storage\":{}}");
    let snapshot = snapshot_model(database);
    let entry = (crate::hex::prefixed_hex(address), account_model(Some(account)));
    assert(snapshot.accounts =~= seq![entry]);
    assert(snapshot.storage =~= Seq::empty());
    let notation = |account: Option<AccountModel>| account_json(account);
    let entry_notation = |entry: (Seq<char>, Option<AccountModel>)|
        crate::json::string_json(entry.0) + ":"@ + notation(entry.1);
    assert(crate::json::joined(snapshot.accounts, ","@, entry_notation) == entry_notation(entry));
    assert(crate::json::object_json(snapshot.accounts, notation) == "{"@ + entry_notation(entry)
        + "}"@);
    assert(storage_json(snapshot.storage) =~= "{"@ + "}"@);
    assert(snapshot_json(snapshot) =~= "{\"accounts\":{"@ + crate::json::string_json(
        crate::hex::prefixed_hex(address),
    ) + ":{\"balance\":"@ + crate::json::string_json(
        crate::hex::prefixed_hex(account.balance@),
    ) + ",\"nonce\":"@ + crate::text::decimal_text(account.nonce as nat) + ",\"code_hash\":"@
        + crate::json::string_json(crate::hex::prefixed_hex(account.code_hash@))
        + "}},\"storage\":{}}"@);
}

/// The contents of a snapshot are its accounts and its storage, each entry under its own key.
pub proof fn law_contents_of_snapshots(snapshot: StateSnapshot, k: int, m: int)
    ensures
        snapshot@.accounts.len() == snapshot.accounts@.len(),
        0 <= k < snapshot.accounts@.len() ==> {
            let (key, account) = snapshot.accounts@[k];
            &&& snapshot@.accounts[k].0 == key
            &&& account is None ==> snapshot@.accounts[k].1 is None
            &&& account is Some ==> {
                &&& snapshot@.accounts[k].1 is Some
                &&& snapshot@.accounts[k].1->0.balance == account->0.balance@
                &&& snapshot@.accounts[k].1->0.nonce == account->0.nonce
                &&& snapshot@.accounts[k].1->0.code_hash == account->0.code_hash@
            }
        },
        snapshot@.storage.len() == snapshot.storage@.len(),
        0 <= k < snapshot.storage@.len() ==> {
            &&& snapshot@.storage[k].0 == snapshot.storage@[k].0
            &&& snapshot@.storage[k].1.len() == snapshot.storage@[k].1@.len()
            &&& 0 <= m < snapshot.storage@[k].1@.len() ==> snapshot@.storage[k].1[m].0
                == snapshot.storage@[k].1@[m].0 && snapshot@.storage[k].1[m].1
                == snapshot.storage@[k].1@[m].1@
        },
{
}

/// The snapshot that is taken of a database has the address, the balance, the nonce and the code
/// hash of each account, and each slot with its value, in order.
pub proof fn law_taking_a_snapshot(
    database: &DatabaseState,
    snapshot: StateSnapshot,
    i: int,
    j: int,
)
    requires
        call_ensures(state_snapshot, (database,), snapshot),
    ensures
        snapshot.accounts@.len() == database.accounts@.len(),
        0 <= i < database.accounts@.len() ==> {
            let (address, account) = database.accounts@[i];
            let (key, taken) = snapshot.accounts@[i];
            &&& key == crate::hex::prefixed_hex(address)
            &&& taken is Some <==> account is Some
            &&& account is Some ==> {
                &&& taken->0.balance@ == crate::hex::prefixed_hex(account->0.balance@)
                &&& taken->0.nonce == account->0.nonce
                &&& taken->0.code_hash@ == crate::hex::prefixed_hex(account->0.code_hash@)
            }
        },
        snapshot.storage@.len() == database.storage@.len(),
        0 <= i < database.storage@.len() ==> {
            let (address, slots) = database.storage@[i];
            let (key, taken) = snapshot.storage@[i];
            &&& key == crate::hex::prefixed_hex(address)
            &&& taken@.len() == slots@.len()
            &&& 0 <= j < slots@.len() ==> taken@[j].0 == crate::hex::prefixed_hex(slots@[j].0)
                && taken@[j].1@ == crate::hex::prefixed_hex(slots@[j].1@)
        },
{
    law_contents_of_snapshots(snapshot, i, j);
    let model = snapshot_model(*database);
    assert(model.accounts.len() == database.accounts@.len());
    assert(model.storage.len() == database.storage@.len());
    if 0 <= i < database.accounts@.len() {
        let (address, account) = database.accounts@[i];
        assert(model.accounts[i] == (crate::hex::prefixed_hex(address), account_model(account)));
    }
    if 0 <= i < database.storage@.len() {
        let (address, slots) = database.storage@[i];
        assert(model.storage[i] == (crate::hex::prefixed_hex(address), slots_model(slots@)));
        assert(slots_model(slots@).len() == slots@.len());
        if 0 <= j < slots@.len() {
            assert(slots_model(slots@)[j] == (
                crate::hex::prefixed_hex(slots@[j].0),
                crate::hex::prefixed_hex(slots@[j].1@),
            ));
        }
    }
}

/// Hashing the snapshot of a state gives the digest of a notation that determines the state.
pub proof fn law_hashing_a_state(
    database: &DatabaseState,
    snapshot: StateSnapshot,
    hash: String,
)
    requires
        call_ensures(state_snapshot, (database,), snapshot),
        call_ensures(crate::digest::hash_json::<StateSnapshot>, (&snapshot,), hash),
    ensures
        crate::hex::decoded(hash@) == crate::digest::sha256_digest(
            vstd::utf8::encode_utf8(snapshot_json(snapshot_model(*database))),
        ),
        hash@.len() == 64,
{
    crate::digest::law_hashes_are_digests(snapshot_json(snapshot_model(*database)));
}

} // verus!
