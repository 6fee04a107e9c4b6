//! From a case to the state and the transactions that it describes.

use crate::digest::hash_json;
use crate::json::Json;
use crate::primitives::{parse_address, parse_bytes, parse_u256, parse_u64, Address, Word};
use crate::protocol::{
    Account, ExpectedLog, ExpectedOutcomes, ExpectedReceipt, ParameterValue, Transaction,
    WorkloadCase, EXECUTION_BOUNDARY, OSAKA_FORK,
};
use crate::sorted_map::SortedMap;
use crate::state::{state_snapshot, DatabaseState};
use crate::text::{decimal, same_text};
use vstd::prelude::*;

verus! {

/// What executes the transactions.
pub const BACKEND_IDENTITY: &'static str = "evm2-osaka-interpreter";

/// An account to put into the database before the first transaction, with its storage.
#[derive(Debug)]
pub struct BaselineAccount {
    pub address: Address,
    pub balance: Word,
    pub nonce: u64,
    pub code: Vec<u8>,
    pub storage: Vec<(Word, Word)>,
}

/// A legacy call transaction, with the sender that it is taken to be signed by.
#[derive(Debug)]
pub struct PreparedTransaction {
    pub sender: Address,
    pub chain_id: Option<u64>,
    pub nonce: u64,
    pub gas_price: u128,
    pub gas_limit: u64,
    pub to: Address,
    pub value: Word,
    pub input: Vec<u8>,
}

/// What a case comes to, before its accounts are in a database.
#[derive(Debug)]
pub struct CasePlan {
    pub target_count_key: String,
    /// The accounts in the order in which they go into the database.
    pub baseline: Vec<BaselineAccount>,
    pub transactions: Vec<PreparedTransaction>,
    pub expected: ExpectedOutcomes,
    pub declared_gas: u64,
}

/// A case that is ready to be executed.
#[derive(Debug)]
pub struct PreparedCase {
    pub baseline: Vec<BaselineAccount>,
    pub target_count_key: String,
    pub transactions: Vec<PreparedTransaction>,
    pub expected: ExpectedOutcomes,
    pub baseline_hash: String,
    pub prepared_hash: String,
    pub declared_gas: u64,
}

/// What the hash of a prepared case is taken of.
#[derive(Debug)]
pub struct PreparedIdentity<'a> {
    pub fork: &'static str,
    pub backend: &'static str,
    pub execution_boundary: &'static str,
    pub case: &'a WorkloadCase,
}

/// A [`BaselineAccount`] by its contents.
pub ghost struct BaselineModel {
    pub address: Seq<u8>,
    pub balance: int,
    pub nonce: int,
    pub code: Seq<u8>,
    pub storage: Seq<(int, int)>,
}

/// A [`PreparedTransaction`] by its contents.
pub ghost struct TransactionModel {
    pub sender: Seq<u8>,
    pub chain_id: Option<u64>,
    pub nonce: int,
    pub gas_price: int,
    pub gas_limit: int,
    pub to: Seq<u8>,
    pub value: int,
    pub input: Seq<u8>,
}

/// A [`CasePlan`] by its contents.
pub ghost struct PlanModel {
    pub target_count_key: Seq<char>,
    pub baseline: Seq<BaselineModel>,
    pub transactions: Seq<TransactionModel>,
    pub expected: crate::protocol::OutcomesModel,
    pub declared_gas: int,
}

/// A [`PreparedCase`] by its contents.
pub ghost struct PreparedModel {
    pub plan: PlanModel,
    pub baseline_hash: Seq<char>,
    pub prepared_hash: Seq<char>,
}

/// Slots and values by their numbers.
pub open spec fn slots_view(slots: Seq<(Word, Word)>) -> Seq<(int, int)> {
    slots.map_values(|slot: (Word, Word)| (slot.0.value() as int, slot.1.value() as int))
}

impl View for BaselineAccount {
    type V = BaselineModel;

    open spec fn view(&self) -> BaselineModel {
        BaselineModel {
            address: self.address@,
            balance: self.balance.value() as int,
            nonce: self.nonce as int,
            code: self.code@,
            storage: slots_view(self.storage@),
        }
    }
}

impl View for PreparedTransaction {
    type V = TransactionModel;

    open spec fn view(&self) -> TransactionModel {
        TransactionModel {
            sender: self.sender@,
            chain_id: self.chain_id,
            nonce: self.nonce as int,
            gas_price: self.gas_price as int,
            gas_limit: self.gas_limit as int,
            to: self.to@,
            value: self.value.value() as int,
            input: self.input@,
        }
    }
}

/// The contents of baseline accounts.
pub open spec fn baseline_view(baseline: Seq<BaselineAccount>) -> Seq<BaselineModel> {
    baseline.map_values(|account: BaselineAccount| account@)
}

/// The contents of prepared transactions.
pub open spec fn transactions_view(
    transactions: Seq<PreparedTransaction>,
) -> Seq<TransactionModel> {
    transactions.map_values(|transaction: PreparedTransaction| transaction@)
}

impl View for CasePlan {
    type V = PlanModel;

    open spec fn view(&self) -> PlanModel {
        PlanModel {
            target_count_key: self.target_count_key@,
            baseline: baseline_view(self.baseline@),
            transactions: transactions_view(self.transactions@),
            expected: self.expected@,
            declared_gas: self.declared_gas as int,
        }
    }
}

impl View for PreparedCase {
    type V = PreparedModel;

    open spec fn view(&self) -> PreparedModel {
        PreparedModel {
            plan: PlanModel {
                target_count_key: self.target_count_key@,
                baseline: baseline_view(self.baseline@),
                transactions: transactions_view(self.transactions@),
                expected: self.expected@,
                declared_gas: self.declared_gas as int,
            },
            baseline_hash: self.baseline_hash@,
            prepared_hash: self.prepared_hash@,
        }
    }
}

/// The slots and values that texts stand for, or what is wrong with the first that stands for none.
pub open spec fn storage_of(entries: Seq<(Seq<char>, String)>) -> Result<
    Seq<(int, int)>,
    Seq<char>,
>
    decreases entries.len(),
{
    if entries.len() == 0 {
        Ok(Seq::empty())
    } else {
        match storage_of(entries.drop_last()) {
            Err(problem) => Err(problem),
            Ok(slots) => match crate::primitives::quantity_of(entries.last().0) {
                Err(problem) => Err(problem),
                Ok(slot) => match crate::primitives::quantity_of(entries.last().1@) {
                    Err(problem) => Err(problem),
                    Ok(value) => Ok(slots.push((slot, value))),
                },
            },
        }
    }
}

/// The account that texts stand for, or what is wrong with the first that stands for nothing: the
/// address, then balance, nonce and code, then the storage.
pub open spec fn account_of(address: Seq<char>, account: Account) -> Result<
    BaselineModel,
    Seq<char>,
> {
    match crate::primitives::address_of(address) {
        Err(problem) => Err(problem),
        Ok(address) => match crate::primitives::quantity_of(account.balance@) {
            Err(problem) => Err(problem),
            Ok(balance) => match crate::primitives::small_quantity_of(account.nonce@) {
                Err(problem) => Err(problem),
                Ok(nonce) => match crate::primitives::bytes_of(account.code@) {
                    Err(problem) => Err(problem),
                    Ok(code) => match storage_of(account.storage@) {
                        Err(problem) => Err(problem),
                        Ok(storage) => Ok(
                            BaselineModel { address, balance, nonce, code, storage },
                        ),
                    },
                },
            },
        },
    }
}

/// The accounts that the prestate of a case describes, in order, or what is wrong with the first
/// that something is wrong with.
pub open spec fn baseline_of(entries: Seq<(Seq<char>, Account)>) -> Result<
    Seq<BaselineModel>,
    Seq<char>,
>
    decreases entries.len(),
{
    if entries.len() == 0 {
        Ok(Seq::empty())
    } else {
        match baseline_of(entries.drop_last()) {
            Err(problem) => Err(problem),
            Ok(accounts) => match account_of(entries.last().0, entries.last().1) {
                Err(problem) => Err(problem),
                Ok(account) => Ok(accounts.push(account)),
            },
        }
    }
}

/// The nonce of an account once all of `baseline` are in the database: that of the last one with
/// this address, and zero for an address that has none.
pub open spec fn nonce_in(baseline: Seq<BaselineModel>, address: Seq<u8>) -> int
    decreases baseline.len(),
{
    if baseline.len() == 0 {
        0
    } else if baseline.last().address == address {
        baseline.last().nonce
    } else {
        nonce_in(baseline.drop_last(), address)
    }
}

/// How many of `transactions` have the sender `sender`.
pub open spec fn sent_by(transactions: Seq<TransactionModel>, sender: Seq<u8>) -> nat
    decreases transactions.len(),
{
    if transactions.len() == 0 {
        0
    } else {
        sent_by(transactions.drop_last(), sender) + if transactions.last().sender == sender {
            1nat
        } else {
            0nat
        }
    }
}

/// The sum of the gas limits of `transactions`.
pub open spec fn gas_of(transactions: Seq<TransactionModel>) -> int
    decreases transactions.len(),
{
    if transactions.len() == 0 {
        0
    } else {
        gas_of(transactions.drop_last()) + transactions.last().gas_limit
    }
}

/// The transaction that texts stand for after `earlier` ones, or what is wrong with it: with the
/// sender, then the receiver, the value and the data, then with the nonce, then with the sum of
/// the gas limits.
pub open spec fn transaction_of(
    transaction: Transaction,
    baseline: Seq<BaselineModel>,
    earlier: Seq<TransactionModel>,
) -> Result<TransactionModel, Seq<char>> {
    match crate::primitives::address_of(transaction.sender@) {
        Err(problem) => Err(problem),
        Ok(sender) => match crate::primitives::address_of(transaction.to@) {
            Err(problem) => Err(problem),
            Ok(to) => match crate::primitives::quantity_of(transaction.value@) {
                Err(problem) => Err(problem),
                Ok(value) => match crate::primitives::bytes_of(transaction.data@) {
                    Err(problem) => Err(problem),
                    Ok(input) => {
                        let nonce = nonce_in(baseline, sender) + sent_by(earlier, sender);
                        if nonce + 1 > u64::MAX {
                            Err("sender "@ + transaction.sender@ + " nonce overflows u64"@)
                        } else if gas_of(earlier) + transaction.gas_limit > u64::MAX {
                            Err("declared transaction gas sum overflows u64"@)
                        } else {
                            Ok(
                                TransactionModel {
                                    sender,
                                    chain_id: Some(1),
                                    nonce,
                                    gas_price: 0,
                                    gas_limit: transaction.gas_limit as int,
                                    to,
                                    value,
                                    input,
                                },
                            )
                        }
                    },
                },
            },
        },
    }
}

/// The transactions of a case, or what is wrong with the first that something is wrong with.
pub open spec fn transactions_of(
    transactions: Seq<Transaction>,
    baseline: Seq<BaselineModel>,
) -> Result<Seq<TransactionModel>, Seq<char>>
    decreases transactions.len(),
{
    if transactions.len() == 0 {
        Ok(Seq::empty())
    } else {
        match transactions_of(transactions.drop_last(), baseline) {
            Err(problem) => Err(problem),
            Ok(earlier) => match transaction_of(transactions.last(), baseline, earlier) {
                Err(problem) => Err(problem),
                Ok(transaction) => Ok(earlier.push(transaction)),
            },
        }
    }
}

/// The key under which the target operation of a case is counted: that of the precompile at the
/// address that the parameters name, or else the operation itself.
pub open spec fn target_key(case: WorkloadCase, operation: Seq<char>) -> Seq<char> {
    match case.parameters {
        Some(parameters) => if parameters.map().contains_key("precompile_address"@) {
            match parameters.map()["precompile_address"@] {
                ParameterValue::Text(address) => "PRECOMPILE_"@ + crate::text::lower_text(address@),
                ParameterValue::Json(_) => operation,
            }
        } else {
            operation
        },
        None => operation,
    }
}

/// Why a case is not ready.
pub open spec fn not_ready(case: WorkloadCase) -> Seq<char> {
    match case.reason {
        Some(reason) => reason@,
        None => "case is not ready"@,
    }
}

/// What a case comes to, or the first thing that is wrong with it.
pub open spec fn plan_of(case: WorkloadCase) -> Result<PlanModel, Seq<char>> {
    if case.status@ != "ready"@ {
        Err(not_ready(case))
    } else if case.target_operation is None || case.target_operation->0@.len() == 0 {
        Err("ready case has no target_operation"@)
    } else if case.pre is None {
        Err("ready case has no prestate"@)
    } else if case.transactions is None {
        Err("ready case has no transactions"@)
    } else if case.expected is None {
        Err("ready case has no expected outcomes"@)
    } else if case.expected->0.receipts@.len() != case.transactions->0@.len() {
        Err(
            "case declares "@ + crate::text::decimal_text(case.transactions->0@.len())
                + " transactions but "@ + crate::text::decimal_text(
                case.expected->0.receipts@.len(),
            ) + " expected receipts"@,
        )
    } else {
        match baseline_of(case.pre->0@) {
            Err(problem) => Err(problem),
            Ok(baseline) => match transactions_of(case.transactions->0@, baseline) {
                Err(problem) => Err(problem),
                Ok(transactions) => Ok(
                    PlanModel {
                        target_count_key: target_key(case, case.target_operation->0@),
                        baseline,
                        transactions,
                        expected: case.expected->0@,
                        declared_gas: gas_of(transactions),
                    },
                ),
            },
        }
    }
}

proof fn lemma_storage_fails(entries: Seq<(Seq<char>, String)>, n: int)
    requires
        0 <= n <= entries.len(),
        storage_of(entries.take(n)) is Err,
    ensures
        storage_of(entries) == storage_of(entries.take(n)),
    decreases entries.len() - n,
{
    if n == entries.len() {
        assert(entries.take(n) =~= entries);
    } else {
        assert(entries.take(n + 1).drop_last() =~= entries.take(n));
        lemma_storage_fails(entries, n + 1);
    }
}

proof fn lemma_baseline_fails(entries: Seq<(Seq<char>, Account)>, n: int)
    requires
        0 <= n <= entries.len(),
        baseline_of(entries.take(n)) is Err,
    ensures
        baseline_of(entries) == baseline_of(entries.take(n)),
    decreases entries.len() - n,
{
    if n == entries.len() {
        assert(entries.take(n) =~= entries);
    } else {
        assert(entries.take(n + 1).drop_last() =~= entries.take(n));
        lemma_baseline_fails(entries, n + 1);
    }
}

proof fn lemma_transactions_fail(
    transactions: Seq<Transaction>,
    baseline: Seq<BaselineModel>,
    n: int,
)
    requires
        0 <= n <= transactions.len(),
        transactions_of(transactions.take(n), baseline) is Err,
    ensures
        transactions_of(transactions, baseline) == transactions_of(transactions.take(n), baseline),
    decreases transactions.len() - n,
{
    if n == transactions.len() {
        assert(transactions.take(n) =~= transactions);
    } else {
        assert(transactions.take(n + 1).drop_last() =~= transactions.take(n));
        lemma_transactions_fail(transactions, baseline, n + 1);
    }
}

/// The slots and values of an account.
fn parse_storage(storage: &SortedMap<String, String>) -> (result: Result<
    Vec<(Word, Word)>,
    String,
>)
    ensures
        match result {
            Ok(slots) => storage_of(storage@) == Ok::<Seq<(int, int)>, Seq<char>>(
                slots_view(slots@),
            ),
            Err(problem) => storage_of(storage@) == Err::<Seq<(int, int)>, Seq<char>>(problem@),
        },
{
    let mut slots: Vec<(Word, Word)> = Vec::new();
    let mut i: usize = 0;
    assert(storage@.take(0) =~= Seq::empty());
    assert(slots_view(slots@) =~= Seq::empty());
    while i < storage.len()
        invariant
            i <= storage@.len(),
            storage_of(storage@.take(i as int)) == Ok::<Seq<(int, int)>, Seq<char>>(
                slots_view(slots@),
            ),
        decreases storage@.len() - i,
    {
        let ghost next = storage@.take(i + 1);
        assert(next.drop_last() =~= storage@.take(i as int));
        let slot = match parse_u256(storage.key_at(i).as_str()) {
            Ok(slot) => slot,
            Err(problem) => {
                proof {
                    lemma_storage_fails(storage@, i + 1);
                }
                return Err(problem);
            },
        };
        let value = match parse_u256(storage.value_at(i).as_str()) {
            Ok(value) => value,
            Err(problem) => {
                proof {
                    lemma_storage_fails(storage@, i + 1);
                }
                return Err(problem);
            },
        };
        let ghost before = slots@;
        slots.push((slot, value));
        assert(slots_view(slots@) =~= slots_view(before).push(
            (slot.value() as int, value.value() as int),
        ));
        i += 1;
    }
    assert(storage@.take(i as int) =~= storage@);
    Ok(slots)
}

/// An account of the prestate.
fn parse_account(address: &str, account: &Account) -> (result: Result<BaselineAccount, String>)
    ensures
        match result {
            Ok(parsed) => account_of(address@, *account) == Ok::<BaselineModel, Seq<char>>(parsed@),
            Err(problem) => account_of(address@, *account) == Err::<BaselineModel, Seq<char>>(
                problem@,
            ),
        },
{
    let address = match parse_address(address) {
        Ok(address) => address,
        Err(problem) => {
            return Err(problem);
        },
    };
    let balance = match parse_u256(account.balance.as_str()) {
        Ok(balance) => balance,
        Err(problem) => {
            return Err(problem);
        },
    };
    let nonce: u64 = match parse_u64(account.nonce.as_str()) {
        Ok(nonce) => nonce,
        Err(problem) => {
            return Err(problem);
        },
    };
    let code = match parse_bytes(account.code.as_str()) {
        Ok(code) => code,
        Err(problem) => {
            return Err(problem);
        },
    };
    match parse_storage(&account.storage) {
        Ok(storage) => Ok(BaselineAccount { address, balance, nonce, code, storage }),
        Err(problem) => Err(problem),
    }
}

/// The accounts of a prestate.
fn parse_baseline(pre: &SortedMap<String, Account>) -> (result: Result<
    Vec<BaselineAccount>,
    String,
>)
    ensures
        match result {
            Ok(accounts) => baseline_of(pre@) == Ok::<Seq<BaselineModel>, Seq<char>>(
                baseline_view(accounts@),
            ),
            Err(problem) => baseline_of(pre@) == Err::<Seq<BaselineModel>, Seq<char>>(problem@),
        },
{
    let mut accounts: Vec<BaselineAccount> = Vec::new();
    let mut i: usize = 0;
    assert(pre@.take(0) =~= Seq::empty());
    assert(baseline_view(accounts@) =~= Seq::empty());
    while i < pre.len()
        invariant
            i <= pre@.len(),
            baseline_of(pre@.take(i as int)) == Ok::<Seq<BaselineModel>, Seq<char>>(
                baseline_view(accounts@),
            ),
        decreases pre@.len() - i,
    {
        assert(pre@.take(i + 1).drop_last() =~= pre@.take(i as int));
        let account = match parse_account(pre.key_at(i).as_str(), pre.value_at(i)) {
            Ok(account) => account,
            Err(problem) => {
                proof {
                    lemma_baseline_fails(pre@, i + 1);
                }
                return Err(problem);
            },
        };
        let ghost before = accounts@;
        let ghost model = account@;
        accounts.push(account);
        assert(baseline_view(accounts@) =~= baseline_view(before).push(model));
        i += 1;
    }
    assert(pre@.take(i as int) =~= pre@);
    Ok(accounts)
}

/// The nonce of an account once all of `baseline` are in the database.
fn baseline_nonce(baseline: &Vec<BaselineAccount>, address: &Address) -> (nonce: u64)
    ensures
        nonce == nonce_in(baseline_view(baseline@), address@),
{
    let ghost models = baseline_view(baseline@);
    let mut n: usize = baseline.len();
    assert(models.take(n as int) =~= models);
    while n > 0
        invariant
            n <= baseline@.len(),
            models == baseline_view(baseline@),
            nonce_in(models, address@) == nonce_in(models.take(n as int), address@),
        decreases n,
    {
        assert(models.take(n as int).drop_last() =~= models.take(n - 1));
        assert(models.take(n as int).last() == baseline@[n - 1]@);
        if baseline[n - 1].address.same(address) {
            return baseline[n - 1].nonce;
        }
        n -= 1;
    }
    0
}

/// The nonces that senders of `transactions` use next are in `next`, and no others.
spec fn tracks_nonces(
    next: Map<Seq<u8>, u64>,
    baseline: Seq<BaselineModel>,
    transactions: Seq<TransactionModel>,
) -> bool {
    forall|sender: Seq<u8>|
        #![trigger next.contains_key(sender)]
        #![trigger sent_by(transactions, sender)]
        if next.contains_key(sender) {
            next[sender] == nonce_in(baseline, sender) + sent_by(transactions, sender)
        } else {
            sent_by(transactions, sender) == 0
        }
}

/// A transaction of a case, after those whose senders use the nonces in `next`.
fn parse_transaction(
    transaction: &Transaction,
    baseline: &Vec<BaselineAccount>,
    next: &SortedMap<Address, u64>,
    declared_gas: u64,
    earlier: Ghost<Seq<TransactionModel>>,
) -> (result: Result<PreparedTransaction, String>)
    requires
        tracks_nonces(next.map(), baseline_view(baseline@), earlier@),
        declared_gas == gas_of(earlier@),
    ensures
        match result {
            Ok(parsed) => transaction_of(*transaction, baseline_view(baseline@), earlier@) == Ok::<
                TransactionModel,
                Seq<char>,
            >(parsed@),
            Err(problem) => transaction_of(*transaction, baseline_view(baseline@), earlier@)
                == Err::<TransactionModel, Seq<char>>(problem@),
        },
{
    let sender = match parse_address(transaction.sender.as_str()) {
        Ok(sender) => sender,
        Err(problem) => {
            return Err(problem);
        },
    };
    let nonce: u64 = match next.get(&sender) {
        Some(nonce) => *nonce,
        None => baseline_nonce(baseline, &sender),
    };
    assert(nonce == nonce_in(baseline_view(baseline@), sender@) + sent_by(earlier@, sender@));
    let to = match parse_address(transaction.to.as_str()) {
        Ok(to) => to,
        Err(problem) => {
            return Err(problem);
        },
    };
    let value = match parse_u256(transaction.value.as_str()) {
        Ok(value) => value,
        Err(problem) => {
            return Err(problem);
        },
    };
    let input = match parse_bytes(transaction.data.as_str()) {
        Ok(input) => input,
        Err(problem) => {
            return Err(problem);
        },
    };
    if nonce.checked_add(1).is_none() {
        let mut problem = "sender ".to_owned();
        problem.append(transaction.sender.as_str());
        problem.append(" nonce overflows u64");
        return Err(problem);
    }
    if declared_gas.checked_add(transaction.gas_limit).is_none() {
        return Err("declared transaction gas sum overflows u64".to_owned());
    }
    Ok(
        PreparedTransaction {
            sender,
            chain_id: Some(1),
            nonce,
            gas_price: 0,
            gas_limit: transaction.gas_limit,
            to,
            value,
            input,
        },
    )
}

/// The transactions of a case, and the sum of their gas limits.
fn parse_transactions(transactions: &Vec<Transaction>, baseline: &Vec<BaselineAccount>) -> (result:
    Result<(Vec<PreparedTransaction>, u64), String>)
    ensures
        match result {
            Ok((parsed, gas)) => {
                &&& transactions_of(transactions@, baseline_view(baseline@)) == Ok::<
                    Seq<TransactionModel>,
                    Seq<char>,
                >(transactions_view(parsed@))
                &&& gas == gas_of(transactions_view(parsed@))
            },
            Err(problem) => transactions_of(transactions@, baseline_view(baseline@)) == Err::<
                Seq<TransactionModel>,
                Seq<char>,
            >(problem@),
        },
{
    let ghost models = baseline_view(baseline@);
    let mut parsed: Vec<PreparedTransaction> = Vec::new();
    let mut next: SortedMap<Address, u64> = SortedMap::new();
    let mut declared_gas: u64 = 0;
    let mut i: usize = 0;
    assert(transactions@.take(0) =~= Seq::empty());
    assert(transactions_view(parsed@) =~= Seq::empty());
    while i < transactions.len()
        invariant
            i <= transactions@.len(),
            models == baseline_view(baseline@),
            transactions_of(transactions@.take(i as int), models) == Ok::<
                Seq<TransactionModel>,
                Seq<char>,
            >(transactions_view(parsed@)),
            tracks_nonces(next.map(), models, transactions_view(parsed@)),
            declared_gas == gas_of(transactions_view(parsed@)),
        decreases transactions@.len() - i,
    {
        let ghost earlier = transactions_view(parsed@);
        assert(transactions@.take(i + 1).drop_last() =~= transactions@.take(i as int));
        let transaction = match parse_transaction(
            &transactions[i],
            baseline,
            &next,
            declared_gas,
            Ghost(earlier),
        ) {
            Ok(transaction) => transaction,
            Err(problem) => {
                proof {
                    lemma_transactions_fail(transactions@, models, i + 1);
                }
                return Err(problem);
            },
        };
        let ghost model = transaction@;
        let ghost known = next.map();
        declared_gas = declared_gas + transaction.gas_limit;
        next.insert(transaction.sender, transaction.nonce + 1);
        parsed.push(transaction);
        proof {
            let now = transactions_view(parsed@);
            assert(now =~= earlier.push(model));
            assert(now.drop_last() =~= earlier);
            assert forall|sender: Seq<u8>|
                #![trigger next.map().contains_key(sender)]
                #![trigger sent_by(now, sender)]
                if next.map().contains_key(sender) {
                    next.map()[sender] == nonce_in(models, sender) + sent_by(now, sender)
                } else {
                    sent_by(now, sender) == 0
                } by {
                assert(known.contains_key(sender) || sent_by(earlier, sender) == 0);
            }
        }
        i += 1;
    }
    assert(transactions@.take(i as int) =~= transactions@);
    Ok((parsed, declared_gas))
}

/// The key under which the target operation of a case is counted.
fn count_key(case: &WorkloadCase, operation: &String) -> (key: String)
    ensures
        key@ == target_key(*case, operation@),
{
    match &case.parameters {
        Some(parameters) => match parameters.get(&"precompile_address".to_owned()) {
            Some(ParameterValue::Text(address)) => {
                let mut key = "PRECOMPILE_".to_owned();
                key.append(address.as_str().to_ascii_lowercase().as_str());
                key
            },
            _ => operation.clone(),
        },
        None => operation.clone(),
    }
}

fn copy_texts(texts: &Vec<String>) -> (copy: Vec<String>)
    ensures
        crate::protocol::texts(copy@) == crate::protocol::texts(texts@),
{
    let mut copy: Vec<String> = Vec::new();
    let mut i: usize = 0;
    while i < texts.len()
        invariant
            i <= texts@.len(),
            copy@ == texts@.take(i as int),
        decreases texts@.len() - i,
    {
        copy.push(texts[i].clone());
        assert(texts@.take(i + 1) =~= texts@.take(i as int).push(texts@[i as int]));
        i += 1;
    }
    assert(texts@.take(i as int) =~= texts@);
    copy
}

fn copy_logs(logs: &Vec<ExpectedLog>) -> (copy: Vec<ExpectedLog>)
    ensures
        copy@.len() == logs@.len(),
        forall|j: int| 0 <= j < logs@.len() ==> (#[trigger] copy@[j])@ == logs@[j]@,
{
    let mut copy: Vec<ExpectedLog> = Vec::new();
    let mut i: usize = 0;
    while i < logs.len()
        invariant
            i <= logs@.len(),
            copy@.len() == i,
            forall|j: int| 0 <= j < i ==> (#[trigger] copy@[j])@ == logs@[j]@,
        decreases logs@.len() - i,
    {
        let log = &logs[i];
        copy.push(
            ExpectedLog {
                address: log.address.clone(),
                topics: copy_texts(&log.topics),
                data: log.data.clone(),
            },
        );
        i += 1;
    }
    copy
}

fn copy_receipts(receipts: &Vec<ExpectedReceipt>) -> (copy: Vec<ExpectedReceipt>)
    ensures
        crate::protocol::receipts_view(copy@) == crate::protocol::receipts_view(receipts@),
{
    let mut copy: Vec<ExpectedReceipt> = Vec::new();
    let mut i: usize = 0;
    while i < receipts.len()
        invariant
            i <= receipts@.len(),
            copy@.len() == i,
            forall|j: int| 0 <= j < i ==> (#[trigger] copy@[j])@ == receipts@[j]@,
        decreases receipts@.len() - i,
    {
        let receipt = &receipts[i];
        let logs = copy_logs(&receipt.logs);
        assert(logs@.map_values(|log: ExpectedLog| log@) =~= receipt.logs@.map_values(
            |log: ExpectedLog| log@,
        ));
        copy.push(ExpectedReceipt { success: receipt.success, logs });
        i += 1;
    }
    assert(crate::protocol::receipts_view(copy@) =~= crate::protocol::receipts_view(receipts@));
    copy
}

fn copy_slots(slots: &SortedMap<String, String>) -> (copy: SortedMap<String, String>)
    ensures
        copy@ == slots@,
{
    proof {
        use_type_invariant(slots);
    }
    let mut copy: SortedMap<String, String> = SortedMap::new();
    let mut i: usize = 0;
    while i < slots.len()
        invariant
            i <= slots@.len(),
            crate::sorted_map::ascending::<String, String>(slots@),
            copy@ == slots@.take(i as int),
        decreases slots@.len() - i,
    {
        copy.insert(slots.key_at(i).clone(), slots.value_at(i).clone());
        assert(slots@.take(i + 1) =~= slots@.take(i as int).push(slots@[i as int]));
        i += 1;
    }
    assert(slots@.take(i as int) =~= slots@);
    copy
}

fn copy_storage(storage: &SortedMap<String, SortedMap<String, String>>) -> (copy: SortedMap<
    String,
    SortedMap<String, String>,
>)
    ensures
        crate::protocol::storage_entries(copy@) == crate::protocol::storage_entries(storage@),
{
    proof {
        use_type_invariant(storage);
    }
    let mut copy: SortedMap<String, SortedMap<String, String>> = SortedMap::new();
    let mut i: usize = 0;
    while i < storage.len()
        invariant
            i <= storage@.len(),
            crate::sorted_map::ascending::<String, SortedMap<String, String>>(storage@),
            copy@.len() == i,
            forall|j: int|
                0 <= j < i ==> (#[trigger] copy@[j]).0 == storage@[j].0 && copy@[j].1@
                    == storage@[j].1@,
        decreases storage@.len() - i,
    {
        let slots = copy_slots(storage.value_at(i));
        copy.insert(storage.key_at(i).clone(), slots);
        i += 1;
    }
    assert(crate::protocol::storage_entries(copy@) =~= crate::protocol::storage_entries(storage@));
    copy
}

/// A copy of expected outcomes.
fn copy_outcomes(outcomes: &ExpectedOutcomes) -> (copy: ExpectedOutcomes)
    ensures
        copy@ == outcomes@,
{
    ExpectedOutcomes {
        receipts: copy_receipts(&outcomes.receipts),
        storage: copy_storage(&outcomes.storage),
    }
}

/// Works out what a case comes to: the accounts to start from, the transactions to execute, the
/// operation to count and the gas that the transactions may use.
pub fn prepare_case(case: &WorkloadCase) -> (result: Result<CasePlan, String>)
    ensures
        match result {
            Ok(plan) => plan_of(*case) == Ok::<PlanModel, Seq<char>>(plan@),
            Err(problem) => plan_of(*case) == Err::<PlanModel, Seq<char>>(problem@),
        },
{
    if !same_text(case.status.as_str(), "ready") {
        return Err(
            match &case.reason {
                Some(reason) => reason.clone(),
                None => "case is not ready".to_owned(),
            },
        );
    }
    let target_operation = match &case.target_operation {
        Some(operation) => operation,
        None => {
            return Err("ready case has no target_operation".to_owned());
        },
    };
    if target_operation.as_str().is_empty() {
        return Err("ready case has no target_operation".to_owned());
    }
    let target_count_key = count_key(case, target_operation);
    let pre = match &case.pre {
        Some(pre) => pre,
        None => {
            return Err("ready case has no prestate".to_owned());
        },
    };
    let transactions = match &case.transactions {
        Some(transactions) => transactions,
        None => {
            return Err("ready case has no transactions".to_owned());
        },
    };
    let expected = match &case.expected {
        Some(expected) => expected,
        None => {
            return Err("ready case has no expected outcomes".to_owned());
        },
    };
    if expected.receipts.len() != transactions.len() {
        let mut problem = "case declares ".to_owned();
        problem.append(decimal(transactions.len() as u64).as_str());
        problem.append(" transactions but ");
        problem.append(decimal(expected.receipts.len() as u64).as_str());
        problem.append(" expected receipts");
        return Err(problem);
    }
    let baseline = match parse_baseline(pre) {
        Ok(baseline) => baseline,
        Err(problem) => {
            return Err(problem);
        },
    };
    match parse_transactions(transactions, &baseline) {
        Ok((transactions, declared_gas)) => Ok(
            CasePlan {
                target_count_key,
                baseline,
                transactions,
                expected: copy_outcomes(expected),
                declared_gas,
            },
        ),
        Err(problem) => Err(problem),
    }
}

/// The notation of what the hash of a prepared case is taken of.
pub open spec fn identity_json(case: WorkloadCase) -> Seq<char> {
    "{\"fork\":"@ + crate::json::string_json(OSAKA_FORK@) + ",\"backend\":"@
        + crate::json::string_json(BACKEND_IDENTITY@) + ",\"execution_boundary\":"@
        + crate::json::string_json(EXECUTION_BOUNDARY@) + ",\"case\":"@ + case.json() + "}"@
}

impl<'a> Json for PreparedIdentity<'a> {
    open spec fn json(self) -> Seq<char> {
        "{\"fork\":"@ + self.fork.json() + ",\"backend\":"@ + self.backend.json()
            + ",\"execution_boundary\":"@ + self.execution_boundary.json() + ",\"case\":"@
            + self.case.json() + "}"@
    }

    fn write_json(&self, out: &mut String) {
        let ghost start = out@;
        out.append("{\"fork\":");
        self.fork.write_json(out);
        out.append(",\"backend\":");
        self.backend.write_json(out);
        out.append(",\"execution_boundary\":");
        self.execution_boundary.write_json(out);
        out.append(",\"case\":");
        self.case.write_json(out);
        out.append("}");
        assert(out@ =~= start + self.json());
    }
}

/// The prepared case that the plan of `case` becomes once its accounts are in a database with the
/// state `database`: the hashes identify this state, and the case with what executes it.
pub open spec fn completed(
    case: WorkloadCase,
    plan: PlanModel,
    database: DatabaseState,
) -> PreparedModel {
    PreparedModel {
        plan,
        baseline_hash: crate::digest::json_hash(
            crate::state::snapshot_json(crate::state::snapshot_model(database)),
        ),
        prepared_hash: crate::digest::json_hash(identity_json(case)),
    }
}

/// Completes the plan of a case once its accounts are in a database.
pub fn complete_case(case: &WorkloadCase, plan: CasePlan, database: &DatabaseState) -> (prepared:
    PreparedCase)
    ensures
        prepared@ == completed(*case, plan@, *database),
        prepared.baseline_hash@.len() == 64,
        prepared.prepared_hash@.len() == 64,
{
    let baseline_hash = hash_json(&state_snapshot(database));
    let prepared_hash = hash_json(
        &PreparedIdentity {
            fork: OSAKA_FORK,
            backend: BACKEND_IDENTITY,
            execution_boundary: EXECUTION_BOUNDARY,
            case,
        },
    );
    PreparedCase {
        baseline: plan.baseline,
        target_count_key: plan.target_count_key,
        transactions: plan.transactions,
        expected: plan.expected,
        baseline_hash,
        prepared_hash,
        declared_gas: plan.declared_gas,
    }
}

/// What `transactions_of` gives has a transaction for each, with the fields that do not depend on
/// the others, and the nonces that run on from the accounts'.
proof fn lemma_transactions(transactions: Seq<Transaction>, baseline: Seq<BaselineModel>, i: int)
    requires
        transactions_of(transactions, baseline) is Ok,
        0 <= i < transactions.len(),
    ensures
        ({
            let parsed = transactions_of(transactions, baseline)->Ok_0;
            &&& parsed.len() == transactions.len()
            &&& transaction_of(transactions[i], baseline, parsed.take(i)) == Ok::<
                TransactionModel,
                Seq<char>,
            >(parsed[i])
        }),
    decreases transactions.len(),
{
    let parsed = transactions_of(transactions, baseline)->Ok_0;
    let front = transactions.drop_last();
    let earlier = transactions_of(front, baseline)->Ok_0;
    assert(parsed.drop_last() =~= earlier);
    if front.len() > 0 {
        lemma_transactions(front, baseline, 0);
    } else {
        assert(earlier.len() == 0);
    }
    if i < front.len() {
        lemma_transactions(front, baseline, i);
        assert(parsed.take(i) =~= earlier.take(i));
    } else {
        assert(parsed.take(i) =~= earlier);
    }
}

proof fn lemma_sent_by_grows(transactions: Seq<TransactionModel>, sender: Seq<u8>, i: int, j: int)
    requires
        0 <= i < j <= transactions.len(),
    ensures
        sent_by(transactions.take(j), sender) >= sent_by(transactions.take(i + 1), sender),
        sent_by(transactions.take(i + 1), sender) == sent_by(transactions.take(i), sender) + if (
        transactions[i].sender == sender) {
            1int
        } else {
            0int
        },
    decreases j,
{
    assert(transactions.take(i + 1).drop_last() =~= transactions.take(i));
    assert(transactions.take(j).drop_last() =~= transactions.take(j - 1));
    if i < j - 1 {
        lemma_sent_by_grows(transactions, sender, i, j - 1);
    }
}

/// A prepared case has one transaction for each that the case declares, and one expected receipt.
pub proof fn law_one_transaction_each(case: WorkloadCase)
    requires
        plan_of(case) is Ok,
    ensures
        case.transactions is Some,
        plan_of(case)->Ok_0.transactions.len() == case.transactions->0@.len(),
        plan_of(case)->Ok_0.expected.receipts.len() == case.transactions->0@.len(),
{
    let transactions = case.transactions->0@;
    let baseline = plan_of(case)->Ok_0.baseline;
    if transactions.len() > 0 {
        lemma_transactions(transactions, baseline, 0);
    }
}

/// The nonces of a sender start with that of its account and go up by one with each of its
/// transactions.
pub proof fn law_nonces_run_on(case: WorkloadCase, i: int)
    requires
        plan_of(case) is Ok,
        0 <= i < plan_of(case)->Ok_0.transactions.len(),
    ensures
        ({
            let plan = plan_of(case)->Ok_0;
            let sender = plan.transactions[i].sender;
            plan.transactions[i].nonce == nonce_in(plan.baseline, sender) + sent_by(
                plan.transactions.take(i),
                sender,
            )
        }),
{
    law_one_transaction_each(case);
    lemma_transactions(case.transactions->0@, plan_of(case)->Ok_0.baseline, i);
}

/// No two transactions of a sender have the same nonce, and a later one has the higher nonce.
pub proof fn law_nonces_go_up(case: WorkloadCase, i: int, j: int)
    requires
        plan_of(case) is Ok,
        0 <= i < j < plan_of(case)->Ok_0.transactions.len(),
        plan_of(case)->Ok_0.transactions[i].sender == plan_of(case)->Ok_0.transactions[j].sender,
    ensures
        plan_of(case)->Ok_0.transactions[i].nonce < plan_of(case)->Ok_0.transactions[j].nonce,
{
    let transactions = plan_of(case)->Ok_0.transactions;
    law_nonces_run_on(case, i);
    law_nonces_run_on(case, j);
    lemma_sent_by_grows(transactions, transactions[i].sender, i, j);
}

/// The gas that a prepared case declares is the sum of the gas limits of its transactions, and fits
/// 64 bits.
pub proof fn law_declared_gas(case: WorkloadCase)
    requires
        plan_of(case) is Ok,
    ensures
        plan_of(case)->Ok_0.declared_gas == gas_of(plan_of(case)->Ok_0.transactions),
        0 <= plan_of(case)->Ok_0.declared_gas <= u64::MAX,
{
    let transactions = case.transactions->0@;
    let baseline = plan_of(case)->Ok_0.baseline;
    lemma_gas_fits(transactions, baseline);
}

proof fn lemma_gas_fits(transactions: Seq<Transaction>, baseline: Seq<BaselineModel>)
    requires
        transactions_of(transactions, baseline) is Ok,
    ensures
        0 <= gas_of(transactions_of(transactions, baseline)->Ok_0) <= u64::MAX,
    decreases transactions.len(),
{
    if transactions.len() > 0 {
        lemma_gas_fits(transactions.drop_last(), baseline);
        let parsed = transactions_of(transactions, baseline)->Ok_0;
        assert(parsed.drop_last() =~= transactions_of(transactions.drop_last(), baseline)->Ok_0);
    }
}

/// Two transactions differ in nothing but their secret keys.
pub open spec fn same_but_for_key(a: Transaction, b: Transaction) -> bool {
    &&& a.sender@ == b.sender@
    &&& a.to@ == b.to@
    &&& a.data@ == b.data@
    &&& a.value@ == b.value@
    &&& a.gas_limit == b.gas_limit
}

proof fn lemma_keys_ignored(
    a: Seq<Transaction>,
    b: Seq<Transaction>,
    baseline: Seq<BaselineModel>,
)
    requires
        a.len() == b.len(),
        forall|i: int| 0 <= i < a.len() ==> same_but_for_key(#[trigger] a[i], b[i]),
    ensures
        transactions_of(a, baseline) == transactions_of(b, baseline),
    decreases a.len(),
{
    if a.len() > 0 {
        assert forall|i: int| 0 <= i < a.drop_last().len() implies same_but_for_key(
            #[trigger] a.drop_last()[i],
            b.drop_last()[i],
        ) by {
            assert(same_but_for_key(a[i], b[i]));
        }
        lemma_keys_ignored(a.drop_last(), b.drop_last(), baseline);
        assert(same_but_for_key(a[a.len() - 1], b[b.len() - 1]));
    }
}

/// Secret keys are accepted and ignored: cases that differ in nothing else come to the same.
pub proof fn law_secret_keys_are_ignored(a: WorkloadCase, b: WorkloadCase)
    requires
        a.status == b.status,
        a.reason == b.reason,
        a.target_operation == b.target_operation,
        a.parameters == b.parameters,
        a.pre == b.pre,
        a.expected == b.expected,
        a.transactions is Some,
        b.transactions is Some,
        a.transactions->0@.len() == b.transactions->0@.len(),
        forall|i: int|
            0 <= i < a.transactions->0@.len() ==> same_but_for_key(
                #[trigger] a.transactions->0@[i],
                b.transactions->0@[i],
            ),
    ensures
        plan_of(a) == plan_of(b),
{
    if a.pre is Some && baseline_of(a.pre->0@) is Ok {
        lemma_keys_ignored(a.transactions->0@, b.transactions->0@, baseline_of(a.pre->0@)->Ok_0);
    }
}

/// Each prepared transaction is the declared one at its place, whatever comes before it: sender,
/// receiver, value and input are what its own texts stand for, the gas limit is its own, and it is
/// a transaction of chain 1 at no price.
pub proof fn law_transactions_are_as_declared(case: WorkloadCase, i: int)
    requires
        plan_of(case) is Ok,
        0 <= i < case.transactions->0@.len(),
    ensures
        ({
            let declared = case.transactions->0@[i];
            let prepared = plan_of(case)->Ok_0.transactions[i];
            &&& plan_of(case)->Ok_0.transactions.len() == case.transactions->0@.len()
            &&& crate::primitives::address_of(declared.sender@) == Ok::<Seq<u8>, Seq<char>>(
                prepared.sender,
            )
            &&& crate::primitives::address_of(declared.to@) == Ok::<Seq<u8>, Seq<char>>(
                prepared.to,
            )
            &&& crate::primitives::quantity_of(declared.value@) == Ok::<int, Seq<char>>(
                prepared.value,
            )
            &&& crate::primitives::bytes_of(declared.data@) == Ok::<Seq<u8>, Seq<char>>(
                prepared.input,
            )
            &&& prepared.gas_limit == declared.gas_limit
            &&& prepared.chain_id == Some(1u64)
            &&& prepared.gas_price == 0
        }),
{
    law_one_transaction_each(case);
    lemma_transactions(case.transactions->0@, plan_of(case)->Ok_0.baseline, i);
}

proof fn lemma_storage(entries: Seq<(Seq<char>, String)>, i: int)
    requires
        storage_of(entries) is Ok,
        0 <= i < entries.len(),
    ensures
        storage_of(entries)->Ok_0.len() == entries.len(),
        crate::primitives::quantity_of(entries[i].0) == Ok::<int, Seq<char>>(
            storage_of(entries)->Ok_0[i].0,
        ),
        crate::primitives::quantity_of(entries[i].1@) == Ok::<int, Seq<char>>(
            storage_of(entries)->Ok_0[i].1,
        ),
    decreases entries.len(),
{
    let front = entries.drop_last();
    if front.len() > 0 {
        lemma_storage(front, 0);
    } else {
        assert(storage_of(front)->Ok_0.len() == 0);
    }
    if i < front.len() {
        lemma_storage(front, i);
    }
}

proof fn lemma_baseline(entries: Seq<(Seq<char>, Account)>, i: int)
    requires
        baseline_of(entries) is Ok,
        0 <= i < entries.len(),
    ensures
        baseline_of(entries)->Ok_0.len() == entries.len(),
        account_of(entries[i].0, entries[i].1) == Ok::<BaselineModel, Seq<char>>(
            baseline_of(entries)->Ok_0[i],
        ),
    decreases entries.len(),
{
    let front = entries.drop_last();
    if front.len() > 0 {
        lemma_baseline(front, 0);
    } else {
        assert(baseline_of(front)->Ok_0.len() == 0);
    }
    if i < front.len() {
        lemma_baseline(front, i);
    }
}

/// Each account to start from is the one of the prestate at its place: address, balance, nonce and
/// code are what its own texts stand for.
pub proof fn law_accounts_are_as_declared(case: WorkloadCase, i: int)
    requires
        plan_of(case) is Ok,
        0 <= i < case.pre->0@.len(),
    ensures
        ({
            let (address, declared) = case.pre->0@[i];
            let account = plan_of(case)->Ok_0.baseline[i];
            &&& plan_of(case)->Ok_0.baseline.len() == case.pre->0@.len()
            &&& crate::primitives::address_of(address) == Ok::<Seq<u8>, Seq<char>>(account.address)
            &&& crate::primitives::quantity_of(declared.balance@) == Ok::<int, Seq<char>>(
                account.balance,
            )
            &&& crate::primitives::quantity_of(declared.nonce@) == Ok::<int, Seq<char>>(
                account.nonce,
            )
            &&& account.nonce <= u64::MAX
            &&& crate::primitives::bytes_of(declared.code@) == Ok::<Seq<u8>, Seq<char>>(
                account.code,
            )
            &&& account.storage.len() == declared.storage@.len()
        }),
{
    lemma_baseline(case.pre->0@, i);
    let declared = case.pre->0@[i].1;
    if declared.storage@.len() > 0 {
        lemma_storage(declared.storage@, 0);
    }
}

/// Each slot of an account to start from is the one of the prestate at its place.
pub proof fn law_slots_are_as_declared(case: WorkloadCase, i: int, j: int)
    requires
        plan_of(case) is Ok,
        0 <= i < case.pre->0@.len(),
        0 <= j < case.pre->0@[i].1.storage@.len(),
    ensures
        ({
            let (slot, value) = case.pre->0@[i].1.storage@[j];
            let stored = plan_of(case)->Ok_0.baseline[i].storage[j];
            &&& crate::primitives::quantity_of(slot) == Ok::<int, Seq<char>>(stored.0)
            &&& crate::primitives::quantity_of(value@) == Ok::<int, Seq<char>>(stored.1)
        }),
{
    lemma_baseline(case.pre->0@, i);
    lemma_storage(case.pre->0@[i].1.storage@, j);
}

proof fn lemma_last_nonce(baseline: Seq<BaselineModel>, address: Seq<u8>, k: int)
    requires
        0 <= k < baseline.len(),
        baseline[k].address == address,
        forall|j: int| k < j < baseline.len() ==> (#[trigger] baseline[j]).address != address,
    ensures
        nonce_in(baseline, address) == baseline[k].nonce,
    decreases baseline.len(),
{
    if k < baseline.len() - 1 {
        assert(baseline[baseline.len() - 1].address != address);
        lemma_last_nonce(baseline.drop_last(), address, k);
    }
}

proof fn lemma_no_nonce(baseline: Seq<BaselineModel>, address: Seq<u8>)
    requires
        forall|j: int| 0 <= j < baseline.len() ==> (#[trigger] baseline[j]).address != address,
    ensures
        nonce_in(baseline, address) == 0,
    decreases baseline.len(),
{
    if baseline.len() > 0 {
        assert(baseline[baseline.len() - 1].address != address);
        lemma_no_nonce(baseline.drop_last(), address);
    }
}

/// The earlier of `transactions` than the one at `i` that have the same sender.
pub open spec fn earlier_of_sender(transactions: Seq<TransactionModel>, i: int) -> Seq<
    TransactionModel,
> {
    transactions.take(i).filter(
        |transaction: TransactionModel| transaction.sender == transactions[i].sender,
    )
}

proof fn lemma_sent_by_filter(transactions: Seq<TransactionModel>, sender: Seq<u8>)
    ensures
        sent_by(transactions, sender) == transactions.filter(
            |transaction: TransactionModel| transaction.sender == sender,
        ).len(),
    decreases transactions.len(),
{
    reveal(Seq::filter);
    if transactions.len() > 0 {
        lemma_sent_by_filter(transactions.drop_last(), sender);
    }
}

/// The nonce of a transaction of a sender with an account to start from is the nonce of that
/// account and one for each earlier transaction of the sender. Of accounts with the same address
/// the last counts.
pub proof fn law_nonces_start_from_the_account(case: WorkloadCase, i: int, k: int)
    requires
        plan_of(case) is Ok,
        0 <= i < plan_of(case)->Ok_0.transactions.len(),
        0 <= k < plan_of(case)->Ok_0.baseline.len(),
        plan_of(case)->Ok_0.baseline[k].address == plan_of(case)->Ok_0.transactions[i].sender,
        forall|j: int|
            k < j < plan_of(case)->Ok_0.baseline.len() ==> (
            #[trigger] plan_of(case)->Ok_0.baseline[j]).address
                != plan_of(case)->Ok_0.transactions[i].sender,
    ensures
        plan_of(case)->Ok_0.transactions[i].nonce == plan_of(case)->Ok_0.baseline[k].nonce
            + earlier_of_sender(plan_of(case)->Ok_0.transactions, i).len(),
{
    let plan = plan_of(case)->Ok_0;
    law_nonces_run_on(case, i);
    lemma_last_nonce(plan.baseline, plan.transactions[i].sender, k);
    lemma_sent_by_filter(plan.transactions.take(i), plan.transactions[i].sender);
}

/// The nonces of a sender without an account to start from count its transactions from zero.
pub proof fn law_nonces_of_unknown_senders_start_from_zero(case: WorkloadCase, i: int)
    requires
        plan_of(case) is Ok,
        0 <= i < plan_of(case)->Ok_0.transactions.len(),
        forall|j: int|
            0 <= j < plan_of(case)->Ok_0.baseline.len() ==> (
            #[trigger] plan_of(case)->Ok_0.baseline[j]).address
                != plan_of(case)->Ok_0.transactions[i].sender,
    ensures
        plan_of(case)->Ok_0.transactions[i].nonce == earlier_of_sender(
            plan_of(case)->Ok_0.transactions,
            i,
        ).len(),
{
    let plan = plan_of(case)->Ok_0;
    law_nonces_run_on(case, i);
    lemma_no_nonce(plan.baseline, plan.transactions[i].sender);
    lemma_sent_by_filter(plan.transactions.take(i), plan.transactions[i].sender);
}

/// The sum of the gas limits that a case declares.
pub open spec fn declared_limits(transactions: Seq<Transaction>) -> int {
    transactions.fold_left(0int, |sum: int, transaction: Transaction| sum + transaction.gas_limit)
}

proof fn lemma_declared_limits(transactions: Seq<Transaction>, baseline: Seq<BaselineModel>)
    requires
        transactions_of(transactions, baseline) is Ok,
    ensures
        gas_of(transactions_of(transactions, baseline)->Ok_0) == declared_limits(transactions),
    decreases transactions.len(),
{
    reveal_with_fuel(Seq::fold_left, 2);
    if transactions.len() > 0 {
        lemma_declared_limits(transactions.drop_last(), baseline);
        let parsed = transactions_of(transactions, baseline)->Ok_0;
        assert(parsed.drop_last() =~= transactions_of(transactions.drop_last(), baseline)->Ok_0);
    }
}

/// A prepared case declares the sum of the gas limits of the case, and expects what the case
/// expects.
pub proof fn law_gas_and_outcomes_are_as_declared(case: WorkloadCase)
    requires
        plan_of(case) is Ok,
    ensures
        plan_of(case)->Ok_0.declared_gas == declared_limits(case.transactions->0@),
        plan_of(case)->Ok_0.expected.receipts == crate::protocol::receipts_view(
            case.expected->0.receipts@,
        ),
        plan_of(case)->Ok_0.expected.storage == crate::protocol::storage_entries(
            case.expected->0.storage@,
        ),
{
    lemma_declared_limits(case.transactions->0@, plan_of(case)->Ok_0.baseline);
}

/// The target of a prepared case is counted under the precompile that its parameters name by a
/// text, with small letters, and otherwise under the operation that the case names.
pub proof fn law_targets_are_as_declared(case: WorkloadCase)
    requires
        plan_of(case) is Ok,
    ensures
        ({
            let key = plan_of(case)->Ok_0.target_count_key;
            let named = case.parameters is Some && case.parameters->0.map().contains_key(
                "precompile_address"@,
            );
            let value = case.parameters->0.map()["precompile_address"@];
            &&& case.target_operation is Some
            &&& case.target_operation->0@.len() > 0
            &&& named && value is Text ==> {
                let address = value->Text_0@;
                &&& key.len() == 11 + address.len()
                &&& key.take(11) == "PRECOMPILE_"@
                &&& forall|i: int|
                    #![trigger key[11 + i]]
                    #![trigger address[i]]
                    0 <= i < address.len() ==> if 'A' <= address[i] <= 'Z' {
                        key[11 + i] as int == address[i] as int + 32
                    } else {
                        key[11 + i] == address[i]
                    }
            }
            &&& !(named && value is Text) ==> key == case.target_operation->0@
        }),
{
    reveal_strlit("PRECOMPILE_");
    assert("PRECOMPILE_"@.len() == 11);
    let key = plan_of(case)->Ok_0.target_count_key;
    if case.parameters is Some && case.parameters->0.map().contains_key("precompile_address"@) {
        let value = case.parameters->0.map()["precompile_address"@];
        if let ParameterValue::Text(address) = value {
            assert(key == "PRECOMPILE_"@ + crate::text::lower_text(address@));
            assert(key.take(11) =~= "PRECOMPILE_"@);
            assert forall|i: int| 0 <= i < address@.len() implies key[11 + i]
                == crate::text::ascii_lower(#[trigger] address@[i]) by {}
        }
    }
}

/// A transaction of a case can be prepared: its texts stand for something, and its sender has a
/// nonce left.
pub open spec fn is_good_transaction(case: WorkloadCase, i: int) -> bool {
    let transactions = case.transactions->0@;
    let sender = crate::primitives::address_of(transactions[i].sender@);
    let baseline = baseline_of(case.pre->0@)->Ok_0;
    &&& sender is Ok
    &&& crate::primitives::address_of(transactions[i].to@) is Ok
    &&& crate::primitives::quantity_of(transactions[i].value@) is Ok
    &&& crate::primitives::bytes_of(transactions[i].data@) is Ok
    &&& nonce_in(baseline, sender->Ok_0) + transactions.take(i).filter(
        |earlier: Transaction| crate::primitives::address_of(earlier.sender@) == sender,
    ).len() < u64::MAX
}

/// An account of the prestate can be prepared: its texts stand for something, and its nonce fits 64
/// bits.
pub open spec fn is_good_account(address: Seq<char>, account: Account) -> bool {
    &&& crate::primitives::address_of(address) is Ok
    &&& crate::primitives::quantity_of(account.balance@) is Ok
    &&& crate::primitives::quantity_of(account.nonce@) is Ok
    &&& crate::primitives::quantity_of(account.nonce@)->Ok_0 <= u64::MAX
    &&& crate::primitives::bytes_of(account.code@) is Ok
    &&& forall|j: int|
        0 <= j < account.storage@.len() ==> crate::primitives::quantity_of(
            (#[trigger] account.storage@[j]).0,
        ) is Ok && crate::primitives::quantity_of(account.storage@[j].1@) is Ok
}

proof fn lemma_good_storage(entries: Seq<(Seq<char>, String)>)
    requires
        forall|j: int|
            0 <= j < entries.len() ==> crate::primitives::quantity_of(
                (#[trigger] entries[j]).0,
            ) is Ok && crate::primitives::quantity_of(entries[j].1@) is Ok,
    ensures
        storage_of(entries) is Ok,
    decreases entries.len(),
{
    if entries.len() > 0 {
        let front = entries.drop_last();
        assert forall|j: int| 0 <= j < front.len() implies crate::primitives::quantity_of(
            (#[trigger] front[j]).0,
        ) is Ok && crate::primitives::quantity_of(front[j].1@) is Ok by {
            assert(front[j] == entries[j]);
        }
        lemma_good_storage(front);
        assert(entries.last() == entries[entries.len() - 1]);
    }
}

proof fn lemma_good_baseline(entries: Seq<(Seq<char>, Account)>)
    requires
        forall|j: int|
            0 <= j < entries.len() ==> is_good_account(
                (#[trigger] entries[j]).0,
                entries[j].1,
            ),
    ensures
        baseline_of(entries) is Ok,
    decreases entries.len(),
{
    if entries.len() > 0 {
        let front = entries.drop_last();
        assert forall|j: int| 0 <= j < front.len() implies is_good_account(
            (#[trigger] front[j]).0,
            front[j].1,
        ) by {
            assert(front[j] == entries[j]);
        }
        lemma_good_baseline(front);
        assert(entries.last() == entries[entries.len() - 1]);
        lemma_good_storage(entries.last().1.storage@);
    }
}

proof fn lemma_limits_grow(transactions: Seq<Transaction>, n: int)
    requires
        0 <= n <= transactions.len(),
    ensures
        0 <= declared_limits(transactions.take(n)) <= declared_limits(transactions),
    decreases transactions.len(),
{
    reveal_with_fuel(Seq::fold_left, 2);
    if n == transactions.len() {
        assert(transactions.take(n) =~= transactions);
        if n > 0 {
            lemma_limits_grow(transactions.drop_last(), n - 1);
            assert(transactions.drop_last().take(n - 1) =~= transactions.drop_last());
        }
    } else {
        lemma_limits_grow(transactions.drop_last(), n);
        assert(transactions.drop_last().take(n) =~= transactions.take(n));
    }
}

proof fn lemma_sent_by_declared(
    transactions: Seq<Transaction>,
    baseline: Seq<BaselineModel>,
    sender: Seq<u8>,
)
    requires
        transactions_of(transactions, baseline) is Ok,
    ensures
        sent_by(transactions_of(transactions, baseline)->Ok_0, sender) == transactions.filter(
            |earlier: Transaction|
                crate::primitives::address_of(earlier.sender@) == Ok::<Seq<u8>, Seq<char>>(sender),
        ).len(),
    decreases transactions.len(),
{
    reveal(Seq::filter);
    if transactions.len() > 0 {
        lemma_sent_by_declared(transactions.drop_last(), baseline, sender);
        let parsed = transactions_of(transactions, baseline)->Ok_0;
        assert(parsed.drop_last() =~= transactions_of(transactions.drop_last(), baseline)->Ok_0);
    }
}

proof fn lemma_good_transactions(case: WorkloadCase, n: int)
    requires
        case.transactions is Some,
        0 <= n <= case.transactions->0@.len(),
        declared_limits(case.transactions->0@.take(n)) <= u64::MAX,
        forall|i: int| 0 <= i < n ==> #[trigger] is_good_transaction(case, i),
    ensures
        transactions_of(
            case.transactions->0@.take(n),
            baseline_of(case.pre->0@)->Ok_0,
        ) is Ok,
    decreases n,
{
    let transactions = case.transactions->0@;
    let baseline = baseline_of(case.pre->0@)->Ok_0;
    if n > 0 {
        lemma_limits_grow(transactions.take(n), n - 1);
        assert(transactions.take(n).take(n - 1) =~= transactions.take(n - 1));
        lemma_good_transactions(case, n - 1);
        let front = transactions.take(n - 1);
        assert(transactions.take(n).drop_last() =~= front);
        assert(transactions.take(n).last() == transactions[n - 1]);
        assert(is_good_transaction(case, n - 1));
        let sender = crate::primitives::address_of(transactions[n - 1].sender@);
        lemma_sent_by_declared(front, baseline, sender->Ok_0);
        assert((|earlier: Transaction| crate::primitives::address_of(earlier.sender@) == sender)
            =~= (|earlier: Transaction|
            crate::primitives::address_of(earlier.sender@) == Ok::<Seq<u8>, Seq<char>>(
                sender->Ok_0,
            )));
        lemma_declared_limits(front, baseline);
        reveal_with_fuel(Seq::fold_left, 2);
    }
}

/// A case has nothing wrong with it: it is ready, names a target, and has a prestate, transactions
/// and outcomes with a receipt for each; its texts stand for something; and nonces and the sum of
/// the gas limits fit 64 bits.
pub open spec fn is_good_case(case: WorkloadCase) -> bool {
    &&& case.status@ == "ready"@
    &&& case.target_operation is Some
    &&& case.target_operation->0@.len() > 0
    &&& case.pre is Some
    &&& case.transactions is Some
    &&& case.expected is Some
    &&& case.expected->0.receipts@.len() == case.transactions->0@.len()
    &&& forall|i: int|
        0 <= i < case.pre->0@.len() ==> is_good_account(
            (#[trigger] case.pre->0@[i]).0,
            case.pre->0@[i].1,
        )
    &&& forall|i: int|
        0 <= i < case.transactions->0@.len() ==> #[trigger] is_good_transaction(case, i)
    &&& declared_limits(case.transactions->0@) <= u64::MAX
}

/// A case with nothing wrong is prepared, whatever else it holds.
pub proof fn law_good_cases_are_prepared(case: WorkloadCase)
    requires
        is_good_case(case),
    ensures
        plan_of(case) is Ok,
{
    let transactions = case.transactions->0@;
    lemma_good_baseline(case.pre->0@);
    assert(transactions.take(transactions.len() as int) =~= transactions);
    lemma_good_transactions(case, transactions.len() as int);
}

/// An incomplete case is refused for the first thing that it lacks.
pub proof fn law_incomplete_cases_say_what_they_lack(case: WorkloadCase)
    ensures
        case.status@ != "ready"@ ==> plan_of(case) == Err::<PlanModel, Seq<char>>(
            match case.reason {
                Some(reason) => reason@,
                None => "case is not ready"@,
            },
        ),
        case.status@ == "ready"@ ==> {
            let named = case.target_operation is Some && case.target_operation->0@.len() > 0;
            &&& !named ==> plan_of(case) == Err::<PlanModel, Seq<char>>(
                "ready case has no target_operation"@,
            )
            &&& named && case.pre is None ==> plan_of(case) == Err::<PlanModel, Seq<char>>(
                "ready case has no prestate"@,
            )
            &&& named && case.pre is Some && case.transactions is None ==> plan_of(case) == Err::<
                PlanModel,
                Seq<char>,
            >("ready case has no transactions"@)
            &&& named && case.pre is Some && case.transactions is Some && case.expected is None
                ==> plan_of(case) == Err::<PlanModel, Seq<char>>(
                "ready case has no expected outcomes"@,
            )
            &&& named && case.pre is Some && case.transactions is Some && case.expected is Some
                && case.expected->0.receipts@.len() != case.transactions->0@.len() ==> plan_of(
                case,
            ) == Err::<PlanModel, Seq<char>>(
                "case declares "@ + crate::text::decimal_text(case.transactions->0@.len())
                    + " transactions but "@ + crate::text::decimal_text(
                    case.expected->0.receipts@.len(),
                ) + " expected receipts"@,
            )
        },
{
}

/// A complete case whose accounts can all be prepared is refused for its first faulty transaction:
/// for a text, of the sender, the receiver, the value and the data in this order, then for a sender
/// without a nonce left, and then for the sum of the gas limits.
pub proof fn law_the_first_faulty_transaction_is_named(case: WorkloadCase, n: int)
    requires
        case.status@ == "ready"@,
        case.target_operation is Some,
        case.target_operation->0@.len() > 0,
        case.pre is Some,
        case.transactions is Some,
        case.expected is Some,
        case.expected->0.receipts@.len() == case.transactions->0@.len(),
        forall|i: int|
            0 <= i < case.pre->0@.len() ==> is_good_account(
                (#[trigger] case.pre->0@[i]).0,
                case.pre->0@[i].1,
            ),
        0 <= n < case.transactions->0@.len(),
        forall|i: int| 0 <= i < n ==> #[trigger] is_good_transaction(case, i),
        declared_limits(case.transactions->0@.take(n)) <= u64::MAX,
    ensures
        ({
            let transaction = case.transactions->0@[n];
            let sender = crate::primitives::address_of(transaction.sender@);
            let to = crate::primitives::address_of(transaction.to@);
            let value = crate::primitives::quantity_of(transaction.value@);
            let input = crate::primitives::bytes_of(transaction.data@);
            let readable = sender is Ok && to is Ok && value is Ok && input is Ok;
            &&& sender is Err ==> plan_of(case) == Err::<PlanModel, Seq<char>>(sender->Err_0)
            &&& sender is Ok && to is Err ==> plan_of(case) == Err::<PlanModel, Seq<char>>(
                to->Err_0,
            )
            &&& sender is Ok && to is Ok && value is Err ==> plan_of(case) == Err::<
                PlanModel,
                Seq<char>,
            >(value->Err_0)
            &&& sender is Ok && to is Ok && value is Ok && input is Err ==> plan_of(case) == Err::<
                PlanModel,
                Seq<char>,
            >(input->Err_0)
            &&& readable && !is_good_transaction(case, n) ==> plan_of(case) == Err::<
                PlanModel,
                Seq<char>,
            >("sender "@ + transaction.sender@ + " nonce overflows u64"@)
            &&& is_good_transaction(case, n) && declared_limits(
                case.transactions->0@.take(n + 1),
            ) > u64::MAX ==> plan_of(case) == Err::<PlanModel, Seq<char>>(
                "declared transaction gas sum overflows u64"@,
            )
        }),
{
    let transactions = case.transactions->0@;
    let baseline = baseline_of(case.pre->0@)->Ok_0;
    let front = transactions.take(n);
    lemma_good_baseline(case.pre->0@);
    lemma_good_transactions(case, n);
    assert(transactions.take(n + 1).drop_last() =~= front);
    assert(transactions.take(n + 1).last() == transactions[n]);
    let sender = crate::primitives::address_of(transactions[n].sender@);
    if sender is Ok {
        lemma_sent_by_declared(front, baseline, sender->Ok_0);
        assert((|earlier: Transaction| crate::primitives::address_of(earlier.sender@) == sender)
            =~= (|earlier: Transaction|
            crate::primitives::address_of(earlier.sender@) == Ok::<Seq<u8>, Seq<char>>(
                sender->Ok_0,
            )));
    }
    lemma_declared_limits(front, baseline);
    reveal_with_fuel(Seq::fold_left, 2);
    if transactions_of(transactions.take(n + 1), baseline) is Err {
        lemma_transactions_fail(transactions, baseline, n + 1);
    }
}

/// A complete case is refused for its first faulty account: for the text of the address, the
/// balance, the nonce and the code in this order.
pub proof fn law_the_first_faulty_account_is_named(case: WorkloadCase, n: int)
    requires
        case.status@ == "ready"@,
        case.target_operation is Some,
        case.target_operation->0@.len() > 0,
        case.pre is Some,
        case.transactions is Some,
        case.expected is Some,
        case.expected->0.receipts@.len() == case.transactions->0@.len(),
        0 <= n < case.pre->0@.len(),
        forall|i: int|
            0 <= i < n ==> is_good_account(
                (#[trigger] case.pre->0@[i]).0,
                case.pre->0@[i].1,
            ),
    ensures
        ({
            let (text, account) = case.pre->0@[n];
            let address = crate::primitives::address_of(text);
            let balance = crate::primitives::quantity_of(account.balance@);
            let nonce = crate::primitives::quantity_of(account.nonce@);
            let code = crate::primitives::bytes_of(account.code@);
            &&& address is Err ==> plan_of(case) == Err::<PlanModel, Seq<char>>(address->Err_0)
            &&& address is Ok && balance is Err ==> plan_of(case) == Err::<PlanModel, Seq<char>>(
                balance->Err_0,
            )
            &&& address is Ok && balance is Ok && nonce is Err ==> plan_of(case) == Err::<
                PlanModel,
                Seq<char>,
            >(nonce->Err_0)
            &&& address is Ok && balance is Ok && nonce is Ok && nonce->Ok_0 > u64::MAX ==> plan_of(
                case,
            ) == Err::<PlanModel, Seq<char>>(
                "hex quantity "@ + crate::text::debug_text(account.nonce@) + " overflows u64"@,
            )
            &&& address is Ok && balance is Ok && nonce is Ok && nonce->Ok_0 <= u64::MAX
                && code is Err ==> plan_of(case) == Err::<PlanModel, Seq<char>>(code->Err_0)
        }),
{
    let entries = case.pre->0@;
    let front = entries.take(n);
    assert forall|j: int| 0 <= j < front.len() implies is_good_account(
        (#[trigger] front[j]).0,
        front[j].1,
    ) by {
        assert(front[j] == entries[j]);
    }
    lemma_good_baseline(front);
    assert(entries.take(n + 1).drop_last() =~= front);
    assert(entries.take(n + 1).last() == entries[n]);
    if baseline_of(entries.take(n + 1)) is Err {
        lemma_baseline_fails(entries, n + 1);
    }
}

/// A complete case is refused for the first text of the storage of an account that stands for no
/// number, where nothing is wrong with the account and those before it otherwise.
pub proof fn law_the_first_faulty_slot_is_named(case: WorkloadCase, n: int, m: int)
    requires
        case.status@ == "ready"@,
        case.target_operation is Some,
        case.target_operation->0@.len() > 0,
        case.pre is Some,
        case.transactions is Some,
        case.expected is Some,
        case.expected->0.receipts@.len() == case.transactions->0@.len(),
        0 <= n < case.pre->0@.len(),
        forall|i: int|
            0 <= i < n ==> is_good_account(
                (#[trigger] case.pre->0@[i]).0,
                case.pre->0@[i].1,
            ),
        crate::primitives::address_of(case.pre->0@[n].0) is Ok,
        crate::primitives::quantity_of(case.pre->0@[n].1.balance@) is Ok,
        crate::primitives::quantity_of(case.pre->0@[n].1.nonce@) is Ok,
        crate::primitives::quantity_of(case.pre->0@[n].1.nonce@)->Ok_0 <= u64::MAX,
        crate::primitives::bytes_of(case.pre->0@[n].1.code@) is Ok,
        0 <= m < case.pre->0@[n].1.storage@.len(),
        forall|j: int|
            0 <= j < m ==> crate::primitives::quantity_of(
                (#[trigger] case.pre->0@[n].1.storage@[j]).0,
            ) is Ok && crate::primitives::quantity_of(case.pre->0@[n].1.storage@[j].1@) is Ok,
    ensures
        ({
            let slot = crate::primitives::quantity_of(case.pre->0@[n].1.storage@[m].0);
            let value = crate::primitives::quantity_of(case.pre->0@[n].1.storage@[m].1@);
            &&& slot is Err ==> plan_of(case) == Err::<PlanModel, Seq<char>>(slot->Err_0)
            &&& slot is Ok && value is Err ==> plan_of(case) == Err::<PlanModel, Seq<char>>(
                value->Err_0,
            )
        }),
{
    let entries = case.pre->0@;
    let front = entries.take(n);
    assert forall|j: int| 0 <= j < front.len() implies is_good_account(
        (#[trigger] front[j]).0,
        front[j].1,
    ) by {
        assert(front[j] == entries[j]);
    }
    lemma_good_baseline(front);
    assert(entries.take(n + 1).drop_last() =~= front);
    assert(entries.take(n + 1).last() == entries[n]);
    let slots = entries[n].1.storage@;
    let good = slots.take(m);
    assert forall|j: int| 0 <= j < good.len() implies crate::primitives::quantity_of(
        (#[trigger] good[j]).0,
    ) is Ok && crate::primitives::quantity_of(good[j].1@) is Ok by {
        assert(good[j] == slots[j]);
    }
    lemma_good_storage(good);
    assert(slots.take(m + 1).drop_last() =~= good);
    assert(slots.take(m + 1).last() == slots[m]);
    if storage_of(slots.take(m + 1)) is Err {
        lemma_storage_fails(slots, m + 1);
        lemma_baseline_fails(entries, n + 1);
    }
}

/// The hashes of a prepared case are the digests of the notation of the state and of the notation
/// of the case, two digits a byte; the plan is what it was.
pub proof fn law_prepared_hashes_are_digests(
    case: WorkloadCase,
    plan: PlanModel,
    database: DatabaseState,
)
    ensures
        completed(case, plan, database).plan == plan,
        crate::hex::decoded(completed(case, plan, database).baseline_hash)
            == crate::digest::sha256_digest(
            vstd::utf8::encode_utf8(
                crate::state::snapshot_json(crate::state::snapshot_model(database)),
            ),
        ),
        crate::hex::decoded(completed(case, plan, database).prepared_hash)
            == crate::digest::sha256_digest(
            vstd::utf8::encode_utf8(
                "{\"fork\":\"Osaka\",\"backend\":\"evm2-osaka-interpreter\","@
                    + "\"execution_boundary\":\"evm2_transaction_execution\",\"case\":"@
                    + case.json() + "}"@,
            ),
        ),
{
    crate::hex::lemma_decoded_lower_hex(
        crate::digest::sha256_digest(
            vstd::utf8::encode_utf8(
                crate::state::snapshot_json(crate::state::snapshot_model(database)),
            ),
        ),
    );
    crate::hex::lemma_decoded_lower_hex(
        crate::digest::sha256_digest(vstd::utf8::encode_utf8(identity_json(case))),
    );
    lemma_identity_text(case);
}

proof fn lemma_identity_text(case: WorkloadCase)
    ensures
        identity_json(case) == "{\"fork\":\"Osaka\",\"backend\":\"evm2-osaka-interpreter\","@
            + "\"execution_boundary\":\"evm2_transaction_execution\",\"case\":"@ + case.json()
            + "}"@,
{
    reveal_strlit("Osaka");
    reveal_strlit("evm2-osaka-interpreter");
    reveal_strlit("evm2_transaction_execution");
    reveal_strlit("{\"fork\":");
    reveal_strlit(",\"backend\":");
    reveal_strlit(",\"execution_boundary\":");
    reveal_strlit(",\"case\":");
    reveal_strlit("{\"fork\":\"Osaka\",\"backend\":\"evm2-osaka-interpreter\",");
    reveal_strlit("\"execution_boundary\":\"evm2_transaction_execution\",\"case\":");
    crate::json::lemma_plain_string("Osaka"@);
    crate::json::lemma_plain_string("evm2-osaka-interpreter"@);
    crate::json::lemma_plain_string("evm2_transaction_execution"@);
    assert(identity_json(case)
        =~= "{\"fork\":\"Osaka\",\"backend\":\"evm2-osaka-interpreter\","@
        + "\"execution_boundary\":\"evm2_transaction_execution\",\"case\":"@ + case.json()
        + "}"@);
}

/// The contents of an account to start from are its members, each under its own name.
pub proof fn law_contents_of_accounts(account: BaselineAccount, k: int)
    ensures
        account@.address == account.address@,
        account@.balance == account.balance.value(),
        account@.nonce == account.nonce,
        account@.code == account.code@,
        account@.storage.len() == account.storage@.len(),
        0 <= k < account.storage@.len() ==> account@.storage[k].0
            == account.storage@[k].0.value() && account@.storage[k].1
            == account.storage@[k].1.value(),
{
}

/// The contents of a prepared transaction are its members, each under its own name.
pub proof fn law_contents_of_transactions(transaction: PreparedTransaction)
    ensures
        transaction@.sender == transaction.sender@,
        transaction@.chain_id == transaction.chain_id,
        transaction@.nonce == transaction.nonce,
        transaction@.gas_price == transaction.gas_price,
        transaction@.gas_limit == transaction.gas_limit,
        transaction@.to == transaction.to@,
        transaction@.value == transaction.value.value(),
        transaction@.input == transaction.input@,
{
}

/// The contents of a plan are its members, each under its own name and in order.
pub proof fn law_contents_of_plans(plan: CasePlan, k: int)
    ensures
        plan@.target_count_key == plan.target_count_key@,
        plan@.baseline.len() == plan.baseline@.len(),
        0 <= k < plan.baseline@.len() ==> plan@.baseline[k] == plan.baseline@[k]@,
        plan@.transactions.len() == plan.transactions@.len(),
        0 <= k < plan.transactions@.len() ==> plan@.transactions[k] == plan.transactions@[k]@,
        plan@.expected == plan.expected@,
        plan@.declared_gas == plan.declared_gas,
{
}

/// The contents of a prepared case are its members, each under its own name and in order.
pub proof fn law_contents_of_prepared_cases(prepared: PreparedCase, k: int)
    ensures
        prepared@.plan.target_count_key == prepared.target_count_key@,
        prepared@.plan.baseline.len() == prepared.baseline@.len(),
        0 <= k < prepared.baseline@.len() ==> prepared@.plan.baseline[k] == prepared.baseline@[k]@,
        prepared@.plan.transactions.len() == prepared.transactions@.len(),
        0 <= k < prepared.transactions@.len() ==> prepared@.plan.transactions[k]
            == prepared.transactions@[k]@,
        prepared@.plan.expected == prepared.expected@,
        prepared@.plan.declared_gas == prepared.declared_gas,
        prepared@.baseline_hash == prepared.baseline_hash@,
        prepared@.prepared_hash == prepared.prepared_hash@,
{
}

/// A prepared case has nothing wrong with it.
pub proof fn law_prepared_cases_have_no_fault(case: WorkloadCase)
    requires
        plan_of(case) is Ok,
    ensures
        is_good_case(case),
{
    let entries = case.pre->0@;
    let transactions = case.transactions->0@;
    let baseline = plan_of(case)->Ok_0.baseline;
    let parsed = plan_of(case)->Ok_0.transactions;
    assert forall|i: int| 0 <= i < entries.len() implies is_good_account(
        (#[trigger] entries[i]).0,
        entries[i].1,
    ) by {
        lemma_baseline(entries, i);
        let account = entries[i].1;
        assert forall|j: int|
            0 <= j < account.storage@.len() implies crate::primitives::quantity_of(
            (#[trigger] account.storage@[j]).0,
        ) is Ok && crate::primitives::quantity_of(account.storage@[j].1@) is Ok by {
            lemma_storage(account.storage@, j);
        }
    }
    assert forall|i: int| 0 <= i < transactions.len() implies #[trigger] is_good_transaction(
        case,
        i,
    ) by {
        lemma_transactions(transactions, baseline, i);
        lemma_transactions_front(transactions, baseline, i);
        let front = transactions.take(i);
        let sender = crate::primitives::address_of(transactions[i].sender@);
        lemma_sent_by_declared(front, baseline, sender->Ok_0);
        assert((|earlier: Transaction| crate::primitives::address_of(earlier.sender@) == sender)
            =~= (|earlier: Transaction|
            crate::primitives::address_of(earlier.sender@) == Ok::<Seq<u8>, Seq<char>>(
                sender->Ok_0,
            )));
    }
    lemma_declared_limits(transactions, baseline);
    lemma_gas_fits(transactions, baseline);
}

proof fn lemma_transactions_front(
    transactions: Seq<Transaction>,
    baseline: Seq<BaselineModel>,
    n: int,
)
    requires
        transactions_of(transactions, baseline) is Ok,
        0 <= n <= transactions.len(),
    ensures
        transactions_of(transactions.take(n), baseline) == Ok::<Seq<TransactionModel>, Seq<char>>(
            transactions_of(transactions, baseline)->Ok_0.take(n),
        ),
    decreases transactions.len(),
{
    let parsed = transactions_of(transactions, baseline)->Ok_0;
    if transactions.len() > 0 {
        lemma_transactions(transactions, baseline, 0);
    }
    if n == transactions.len() {
        assert(transactions.take(n) =~= transactions);
        assert(parsed.take(n) =~= parsed);
    } else {
        let front = transactions.drop_last();
        lemma_transactions_front(front, baseline, n);
        assert(front.take(n) =~= transactions.take(n));
        assert(parsed.drop_last() =~= transactions_of(front, baseline)->Ok_0);
        assert(parsed.take(n) =~= parsed.drop_last().take(n));
    }
}

/// Preparing a case gives a transaction for each that the case declares, each with what its own
/// texts stand for, whatever comes before it.
pub proof fn law_preparing_keeps_the_transactions(case: &WorkloadCase, plan: CasePlan, i: int)
    requires
        call_ensures(prepare_case, (case,), Ok(plan)),
        0 <= i < case.transactions->0@.len(),
    ensures
        plan.transactions@.len() == case.transactions->0@.len(),
        ({
            let declared = case.transactions->0@[i];
            let prepared = plan.transactions@[i];
            &&& crate::primitives::address_of(declared.sender@) == Ok::<Seq<u8>, Seq<char>>(
                prepared.sender@,
            )
            &&& crate::primitives::address_of(declared.to@) == Ok::<Seq<u8>, Seq<char>>(
                prepared.to@,
            )
            &&& crate::primitives::quantity_of(declared.value@) == Ok::<int, Seq<char>>(
                prepared.value.value() as int,
            )
            &&& crate::primitives::bytes_of(declared.data@) == Ok::<Seq<u8>, Seq<char>>(
                prepared.input@,
            )
            &&& prepared.gas_limit == declared.gas_limit
            &&& prepared.chain_id == Some(1u64)
            &&& prepared.gas_price == 0
        }),
{
    law_transactions_are_as_declared(*case, i);
    law_contents_of_plans(plan, i);
    law_contents_of_transactions(plan.transactions@[i]);
}

/// Preparing a case gives an account for each of the prestate, each with what its own texts stand
/// for.
pub proof fn law_preparing_keeps_the_accounts(case: &WorkloadCase, plan: CasePlan, i: int, j: int)
    requires
        call_ensures(prepare_case, (case,), Ok(plan)),
        0 <= i < case.pre->0@.len(),
    ensures
        plan.baseline@.len() == case.pre->0@.len(),
        ({
            let (address, declared) = case.pre->0@[i];
            let account = plan.baseline@[i];
            &&& crate::primitives::address_of(address) == Ok::<Seq<u8>, Seq<char>>(
                account.address@,
            )
            &&& crate::primitives::quantity_of(declared.balance@) == Ok::<int, Seq<char>>(
                account.balance.value() as int,
            )
            &&& crate::primitives::quantity_of(declared.nonce@) == Ok::<int, Seq<char>>(
                account.nonce as int,
            )
            &&& crate::primitives::bytes_of(declared.code@) == Ok::<Seq<u8>, Seq<char>>(
                account.code@,
            )
            &&& account.storage@.len() == declared.storage@.len()
            &&& 0 <= j < declared.storage@.len() ==> crate::primitives::quantity_of(
                declared.storage@[j].0,
            ) == Ok::<int, Seq<char>>(account.storage@[j].0.value() as int)
                && crate::primitives::quantity_of(declared.storage@[j].1@) == Ok::<int, Seq<char>>(
                account.storage@[j].1.value() as int,
            )
        }),
{
    law_accounts_are_as_declared(*case, i);
    law_contents_of_plans(plan, i);
    law_contents_of_accounts(plan.baseline@[i], j);
    if 0 <= j < case.pre->0@[i].1.storage@.len() {
        law_slots_are_as_declared(*case, i, j);
    }
}

/// Preparing a case gives the sum of its gas limits, the outcomes that it expects, and the key of
/// its target.
pub proof fn law_preparing_keeps_gas_outcomes_and_target(case: &WorkloadCase, plan: CasePlan)
    requires
        call_ensures(prepare_case, (case,), Ok(plan)),
    ensures
        plan.declared_gas == declared_limits(case.transactions->0@),
        plan.expected@ == case.expected->0@,
        case.parameters is None || !case.parameters->0.map().contains_key("precompile_address"@)
            || case.parameters->0.map()["precompile_address"@] is Json ==> plan.target_count_key@
            == case.target_operation->0@,
        case.parameters is Some && case.parameters->0.map().contains_key("precompile_address"@)
            && case.parameters->0.map()["precompile_address"@] is Text
            ==> plan.target_count_key@.len() == 11
            + case.parameters->0.map()["precompile_address"@]->Text_0@.len()
            && plan.target_count_key@.take(11) == "PRECOMPILE_"@,
{
    law_gas_and_outcomes_are_as_declared(*case);
    law_targets_are_as_declared(*case);
    law_contents_of_plans(plan, 0);
}

/// Preparing numbers the transactions of a sender from the nonce of its account, or from zero.
pub proof fn law_preparing_numbers_the_transactions(case: &WorkloadCase, plan: CasePlan, i: int)
    requires
        call_ensures(prepare_case, (case,), Ok(plan)),
        0 <= i < plan.transactions@.len(),
    ensures
        forall|k: int|
            0 <= k < plan.baseline@.len() && (#[trigger] plan.baseline@[k]).address@
                == plan.transactions@[i].sender@ && (forall|j: int|
                k < j < plan.baseline@.len() ==> (#[trigger] plan.baseline@[j]).address@
                    != plan.transactions@[i].sender@) ==> plan.transactions@[i].nonce
                == plan.baseline@[k].nonce + earlier_of_sender(plan@.transactions, i).len(),
        (forall|j: int|
            0 <= j < plan.baseline@.len() ==> (#[trigger] plan.baseline@[j]).address@
                != plan.transactions@[i].sender@) ==> plan.transactions@[i].nonce
            == earlier_of_sender(plan@.transactions, i).len(),
{
    law_contents_of_plans(plan, i);
    let models = plan@.baseline;
    let sender = plan.transactions@[i].sender@;
    assert forall|k: int|
        0 <= k < plan.baseline@.len() && (#[trigger] plan.baseline@[k]).address@ == sender && (
        forall|j: int|
            k < j < plan.baseline@.len() ==> (#[trigger] plan.baseline@[j]).address@
                != sender) implies plan.transactions@[i].nonce == plan.baseline@[k].nonce
        + earlier_of_sender(plan@.transactions, i).len() by {
        assert forall|j: int| k < j < models.len() implies (#[trigger] models[j]).address
            != sender by {
            assert(plan.baseline@[j].address@ != sender);
        }
        assert(models[k].address == sender);
        law_nonces_start_from_the_account(*case, i, k);
    }
    if forall|j: int|
        0 <= j < plan.baseline@.len() ==> (#[trigger] plan.baseline@[j]).address@ != sender {
        assert forall|j: int| 0 <= j < models.len() implies (#[trigger] models[j]).address
            != sender by {
            assert(plan.baseline@[j].address@ != sender);
        }
        law_nonces_of_unknown_senders_start_from_zero(*case, i);
    }
}

/// Preparing succeeds exactly for cases with nothing wrong.
pub proof fn law_preparing_succeeds_for_good_cases(
    case: &WorkloadCase,
    result: Result<CasePlan, String>,
)
    requires
        call_ensures(prepare_case, (case,), result),
    ensures
        result is Ok <==> is_good_case(*case),
        result is Err && case.status@ != "ready"@ ==> result->Err_0@ == match case.reason {
            Some(reason) => reason@,
            None => "case is not ready"@,
        },
        result is Err ==> plan_of(*case) == Err::<PlanModel, Seq<char>>(result->Err_0@),
{
    if result is Ok {
        law_prepared_cases_have_no_fault(*case);
    } else {
        if is_good_case(*case) {
            law_good_cases_are_prepared(*case);
        }
        law_incomplete_cases_say_what_they_lack(*case);
    }
}

/// Completing a plan adds the hashes of the state and of the case, and changes nothing else.
pub proof fn law_completing_adds_the_hashes(
    case: &WorkloadCase,
    plan: CasePlan,
    database: &DatabaseState,
    prepared: PreparedCase,
    k: int,
)
    requires
        call_ensures(complete_case, (case, plan, database), prepared),
    ensures
        prepared.target_count_key@ == plan.target_count_key@,
        prepared.baseline@.len() == plan.baseline@.len(),
        0 <= k < plan.baseline@.len() ==> prepared.baseline@[k]@ == plan.baseline@[k]@,
        prepared.transactions@.len() == plan.transactions@.len(),
        0 <= k < plan.transactions@.len() ==> prepared.transactions@[k]@ == plan.transactions@[k]@,
        prepared.expected@ == plan.expected@,
        prepared.declared_gas == plan.declared_gas,
        crate::hex::decoded(prepared.baseline_hash@) == crate::digest::sha256_digest(
            vstd::utf8::encode_utf8(
                crate::state::snapshot_json(crate::state::snapshot_model(*database)),
            ),
        ),
        crate::hex::decoded(prepared.prepared_hash@) == crate::digest::sha256_digest(
            vstd::utf8::encode_utf8(
                "{\"fork\":\"Osaka\",\"backend\":\"evm2-osaka-interpreter\","@
                    + "\"execution_boundary\":\"evm2_transaction_execution\",\"case\":"@
                    + case.json() + "}"@,
            ),
        ),
{
    law_prepared_hashes_are_digests(*case, plan@, *database);
    law_contents_of_plans(plan, k);
    law_contents_of_prepared_cases(prepared, k);
}

} // verus!
