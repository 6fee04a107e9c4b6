use compute_worker::digest::{digest_text, hash_json};
use compute_worker::inspector::key_of_precompile;
use compute_worker::prepare::{complete_case, prepare_case, CasePlan};
use compute_worker::primitives::{parse_address, Address, Word};
use compute_worker::protocol::{
    Account, ExpectedLog, ExpectedOutcomes, ExpectedReceipt, ParameterValue, Transaction,
    WorkloadCase,
};
use compute_worker::sorted_map::SortedMap;
use compute_worker::state::{state_snapshot, AccountState, DatabaseState};

const ALICE: &str = "0x00000000000000000000000000000000000000a1";
const BOB: &str = "0x00000000000000000000000000000000000000b2";

fn account(nonce: &str, code: &str, slots: &[(&str, &str)]) -> Account {
    let mut storage = SortedMap::new();
    for (slot, value) in slots {
        storage.insert((*slot).to_owned(), (*value).to_owned());
    }
    Account {
        balance: "0xff".to_owned(),
        nonce: nonce.to_owned(),
        code: code.to_owned(),
        storage,
    }
}

fn transaction(sender: &str, gas_limit: u64) -> Transaction {
    Transaction {
        sender: sender.to_owned(),
        secret_key: None,
        to: BOB.to_owned(),
        data: "0xbeef".to_owned(),
        value: "0x2".to_owned(),
        gas_limit,
    }
}

fn receipts(n: usize) -> ExpectedOutcomes {
    let mut receipts = Vec::new();
    for _ in 0..n {
        receipts.push(ExpectedReceipt { success: true, logs: vec![] });
    }
    ExpectedOutcomes { receipts, storage: SortedMap::new() }
}

fn case(transactions: Vec<Transaction>) -> WorkloadCase {
    let mut pre = SortedMap::new();
    pre.insert(ALICE.to_owned(), account("0x5", "0x", &[]));
    pre.insert(BOB.to_owned(), account("0x0", "0x6001", &[("0x1", "0x2a"), ("0x0", "0x7")]));
    let expected = receipts(transactions.len());
    WorkloadCase {
        id: "c".to_owned(),
        status: "ready".to_owned(),
        family: None,
        target_operation: Some("ADD".to_owned()),
        parameters: None,
        reason: None,
        pre: Some(pre),
        transactions: Some(transactions),
        expected: Some(expected),
    }
}

fn plan(case: &WorkloadCase) -> CasePlan {
    prepare_case(case).unwrap()
}

fn problem(case: &WorkloadCase) -> String {
    prepare_case(case).unwrap_err()
}

fn small(n: u8) -> Word {
    let mut bytes = [0u8; 32];
    bytes[31] = n;
    Word { bytes }
}

fn address(text: &str) -> Address {
    parse_address(text).unwrap()
}

#[test]
fn a_case_comes_to_a_plan() {
    let case = case(vec![transaction(ALICE, 10), transaction(BOB, 20), transaction(ALICE, 30)]);
    let plan = plan(&case);
    assert_eq!(plan.target_count_key, "ADD");
    assert_eq!(plan.declared_gas, 60);
    assert_eq!(plan.expected.receipts.len(), 3);
    assert_eq!(plan.baseline.len(), 2);
    assert_eq!(plan.baseline[0].address, address(ALICE));
    assert_eq!(plan.baseline[0].balance, small(255));
    assert_eq!(plan.baseline[0].nonce, 5);
    assert!(plan.baseline[0].code.is_empty());
    assert_eq!(plan.baseline[1].code, [0x60, 0x01]);
    assert_eq!(plan.baseline[1].storage, [(small(0), small(7)), (small(1), small(42))]);
    let first = &plan.transactions[0];
    assert_eq!(first.sender, address(ALICE));
    assert_eq!(first.to, address(BOB));
    assert_eq!(first.chain_id, Some(1));
    assert_eq!(first.gas_price, 0);
    assert_eq!(first.gas_limit, 10);
    assert_eq!(first.value, small(2));
    assert_eq!(first.input, [0xbe, 0xef]);
}

#[test]
fn nonces_run_on_for_each_sender() {
    let stranger = "0x00000000000000000000000000000000000000c3";
    let case = case(vec![
        transaction(ALICE, 1),
        transaction(stranger, 1),
        transaction(ALICE, 1),
        transaction(BOB, 1),
        transaction(stranger, 1),
        transaction(ALICE, 1),
    ]);
    let mut nonces = Vec::new();
    for transaction in &plan(&case).transactions {
        nonces.push(transaction.nonce);
    }
    assert_eq!(nonces, [5, 0, 6, 0, 1, 7]);
}

#[test]
fn the_last_account_of_an_address_counts() {
    let mut case = case(vec![transaction(ALICE, 1)]);
    let mut pre = SortedMap::new();
    pre.insert(ALICE.to_uppercase().replace("0X", "0x"), account("0x1", "0x", &[]));
    pre.insert(ALICE.to_owned(), account("0x9", "0x", &[]));
    case.pre = Some(pre);
    let plan = plan(&case);
    assert_eq!(plan.baseline.len(), 2);
    assert_eq!(plan.transactions[0].nonce, 9);
}

#[test]
fn cases_that_are_not_ready() {
    let mut case = case(vec![]);
    case.status = "pending".to_owned();
    assert_eq!(problem(&case), "case is not ready");
    case.reason = Some("later".to_owned());
    assert_eq!(problem(&case), "later");
}

#[test]
fn cases_with_gaps() {
    let mut no_target = case(vec![]);
    no_target.target_operation = None;
    assert_eq!(problem(&no_target), "ready case has no target_operation");
    no_target.target_operation = Some(String::new());
    assert_eq!(problem(&no_target), "ready case has no target_operation");
    let mut no_pre = case(vec![]);
    no_pre.pre = None;
    assert_eq!(problem(&no_pre), "ready case has no prestate");
    let mut no_transactions = case(vec![]);
    no_transactions.transactions = None;
    assert_eq!(problem(&no_transactions), "ready case has no transactions");
    let mut no_expected = case(vec![]);
    no_expected.expected = None;
    assert_eq!(problem(&no_expected), "ready case has no expected outcomes");
    let mut uneven = case(vec![transaction(ALICE, 1)]);
    uneven.expected = Some(receipts(12));
    assert_eq!(problem(&uneven), "case declares 1 transactions but 12 expected receipts");
}

#[test]
fn accounts_that_cannot_be_read() {
    let bad = |address: &str, account: Account| {
        let mut case = case(vec![]);
        let mut pre = SortedMap::new();
        pre.insert(address.to_owned(), account);
        case.pre = Some(pre);
        problem(&case)
    };
    assert_eq!(
        bad("0x1", account("z", "z", &[])),
        "invalid address \"0x1\": odd number of digits"
    );
    let mut poor = account("z", "z", &[]);
    poor.balance = "0xzz".to_owned();
    assert_eq!(bad(ALICE, poor), "invalid hex quantity \"0xzz\": invalid digit: z");
    assert_eq!(
        bad(ALICE, account("0x10000000000000000", "z", &[])),
        "hex quantity \"0x10000000000000000\" overflows u64"
    );
    assert_eq!(
        bad(ALICE, account("0x1", "z", &[("x", "y")])),
        "invalid byte string \"z\": odd number of digits"
    );
    assert_eq!(
        bad(ALICE, account("0x1", "0x", &[("x", "y")])),
        "invalid hex quantity \"x\": invalid digit: x"
    );
    assert_eq!(
        bad(ALICE, account("0x1", "0x", &[("0x1", "y")])),
        "invalid hex quantity \"y\": invalid digit: y"
    );
}

#[test]
fn transactions_that_cannot_be_read() {
    let mut bad = transaction("0x2", 1);
    bad.to = "0x4".to_owned();
    assert_eq!(problem(&case(vec![bad])), "invalid address \"0x2\": odd number of digits");
    let mut bad = transaction(ALICE, 1);
    bad.to = "0x4".to_owned();
    bad.value = "q".to_owned();
    assert_eq!(problem(&case(vec![bad])), "invalid address \"0x4\": odd number of digits");
    let mut bad = transaction(ALICE, 1);
    bad.value = "q".to_owned();
    bad.data = "r".to_owned();
    assert_eq!(problem(&case(vec![bad])), "invalid hex quantity \"q\": invalid digit: q");
    let mut bad = transaction(ALICE, 1);
    bad.data = "r".to_owned();
    assert_eq!(problem(&case(vec![bad])), "invalid byte string \"r\": odd number of digits");
}

#[test]
fn sums_that_do_not_fit() {
    let mut case_at_end = case(vec![transaction(ALICE, 1), transaction(ALICE, 1)]);
    let mut pre = SortedMap::new();
    pre.insert(ALICE.to_owned(), account("0xfffffffffffffffe", "0x", &[]));
    case_at_end.pre = Some(pre);
    assert_eq!(problem(&case_at_end), format!("sender {ALICE} nonce overflows u64"));
    let heavy = case(vec![transaction(ALICE, u64::MAX), transaction(ALICE, 1)]);
    assert_eq!(problem(&heavy), "declared transaction gas sum overflows u64");
    assert_eq!(plan(&case(vec![transaction(ALICE, u64::MAX)])).declared_gas, u64::MAX);
}

#[test]
fn precompiles_as_targets() {
    let mut case = case(vec![]);
    let mut parameters = SortedMap::new();
    let text = "0x00000000000000000000000000000000000000AB";
    parameters.insert("precompile_address".to_owned(), ParameterValue::Text(text.to_owned()));
    case.parameters = Some(parameters);
    let key = plan(&case).target_count_key;
    assert_eq!(key, "PRECOMPILE_0x00000000000000000000000000000000000000ab");
    assert_eq!(key, key_of_precompile(&address(text)));
    let mut parameters = SortedMap::new();
    parameters.insert("precompile_address".to_owned(), ParameterValue::Json("5".to_owned()));
    case.parameters = Some(parameters);
    assert_eq!(plan(&case).target_count_key, "ADD");
}

#[test]
fn secret_keys_change_nothing_but_the_identity() {
    let plain = case(vec![transaction(ALICE, 10)]);
    let mut signed_transaction = transaction(ALICE, 10);
    signed_transaction.secret_key = Some("0x01".to_owned());
    let signed = case(vec![signed_transaction]);
    let (a, b) = (plan(&plain), plan(&signed));
    assert_eq!(format!("{a:?}"), format!("{b:?}"));
    let database = DatabaseState { accounts: SortedMap::new(), storage: SortedMap::new() };
    let a = complete_case(&plain, a, &database);
    let b = complete_case(&signed, b, &database);
    assert_eq!(a.baseline_hash, b.baseline_hash);
    assert_ne!(a.prepared_hash, b.prepared_hash);
}

#[test]
fn hashes_identify_state_and_case() {
    let case = WorkloadCase {
        id: "c".to_owned(),
        status: "ready".to_owned(),
        family: Some("arith".to_owned()),
        target_operation: Some("ADD".to_owned()),
        parameters: None,
        reason: None,
        pre: Some(SortedMap::new()),
        transactions: Some(vec![]),
        expected: Some(receipts(0)),
    };
    let database = DatabaseState { accounts: SortedMap::new(), storage: SortedMap::new() };
    let prepared = complete_case(&case, plan(&case), &database);
    assert_eq!(
        prepared.baseline_hash,
        "12b5decd7e75466f87445f2dabd05601eac609160e81d0e2ed8fd83c58f69b9e"
    );
    assert_eq!(
        prepared.prepared_hash,
        "2b1908a338fb088966c6210359ec0ecb3a2026264c0941295efe939bffe3dd6c"
    );
    assert_eq!(prepared.target_count_key, "ADD");
    assert_eq!(prepared.declared_gas, 0);
}

#[test]
fn digests_are_small_hexadecimal() {
    assert_eq!(digest_text(&[0x00, 0xab, 0x1f]), "00ab1f");
    assert_eq!(
        hash_json(&"".to_owned()),
        "12ae32cb1ec02d01eda3581b127c1fee3b0dc53572ed6baf239721a03d82e126"
    );
}

#[test]
fn snapshots_do_not_depend_on_the_order_of_filling() {
    let alice = address(ALICE);
    let bob = address(BOB);
    let state = AccountState { balance: small(3), nonce: 4, code_hash: [0xcd; 32] };
    let fill = |reversed: bool| {
        let mut accounts = SortedMap::new();
        let mut storage = SortedMap::new();
        let mut slots = SortedMap::new();
        if reversed {
            slots.insert(small(2), small(20));
            slots.insert(small(1), small(10));
            accounts.insert(bob, None);
            accounts.insert(alice, Some(state));
        } else {
            accounts.insert(alice, Some(state));
            accounts.insert(bob, None);
            slots.insert(small(1), small(10));
            slots.insert(small(2), small(20));
        }
        storage.insert(alice, slots);
        state_snapshot(&DatabaseState { accounts, storage })
    };
    let snapshot = fill(false);
    assert_eq!(snapshot.accounts.len(), 2);
    assert_eq!(snapshot.accounts.key_at(0), ALICE);
    let account = snapshot.accounts.value_at(0).as_ref().unwrap();
    assert_eq!(account.balance, format!("0x{}3", "0".repeat(63)));
    assert_eq!(account.nonce, 4);
    assert_eq!(account.code_hash, format!("0x{}", "cd".repeat(32)));
    assert!(snapshot.accounts.value_at(1).is_none());
    let slots = snapshot.storage.value_at(0);
    assert_eq!(slots.key_at(0), &format!("0x{}1", "0".repeat(63)));
    assert_eq!(slots.value_at(1), &format!("0x{}14", "0".repeat(62)));
    assert_eq!(hash_json(&snapshot), hash_json(&fill(true)));
}

#[test]
fn expected_outcomes_are_copied() {
    let mut case = case(vec![transaction(ALICE, 1)]);
    let mut slots = SortedMap::new();
    slots.insert("0x1".to_owned(), "0x2".to_owned());
    let mut storage = SortedMap::new();
    storage.insert(BOB.to_owned(), slots);
    case.expected = Some(ExpectedOutcomes {
        receipts: vec![ExpectedReceipt {
            success: false,
            logs: vec![ExpectedLog {
                address: BOB.to_owned(),
                topics: vec!["0x01".to_owned(), "0x02".to_owned()],
                data: "0x".to_owned(),
            }],
        }],
        storage,
    });
    let plan = plan(&case);
    assert_eq!(format!("{:?}", plan.expected), format!("{:?}", case.expected.unwrap()));
}
