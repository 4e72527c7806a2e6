//! What holds of the module as a whole.

use vstd::prelude::*;
use evm::ExitReason;
use crate::account_id::truncated;
use crate::execution::{Error, Outcome, ReturnedView, Setting, Task, TransactionView};
use crate::config::{config_of, smaller, RuntimeConfig};
use crate::executor::{
    account_change, basics, changed_address, distinct_addresses, held, may_give, no_answer, nonce_of, succeeded,
    Answers, Precompiles,
};
use crate::module::{runs, DispatchError, ModuleView, Trait};
use crate::primitives::{zero_word, H160, H256, U256};
use crate::state::{no_account, Basic, Change, GenesisAccount, Ledger};
use crate::storage::{distinct_keys, entries_map, Slot};
use crate::supply::{balance_of, lemma_supply_insert, lemma_supply_remove, supply};

verus! {

/// After an account has been removed, nothing is left at its address, and every other address
/// keeps all it had.
pub proof fn law_removal_is_local(ledger: Ledger, address: H160, other: H160)
    ensures
        ({
            let after = ledger.remove_account(address);
            &&& !after.holds(address)
            &&& after.is_account_empty(address)
            &&& other != address ==> after.contract(other) == ledger.contract(other)
        }),
{
    let after = ledger.remove_account(address);
    if other != address {
        assert(after.contract(other).storage =~= ledger.contract(other).storage);
    }
}

/// Removing an account if it is empty changes no nonce, no balance and no code that can be read,
/// whatever the address; and where the account is not empty it changes nothing.
pub proof fn law_cleanup_keeps_accounts(ledger: Ledger, address: H160, other: H160)
    ensures
        ({
            let after = ledger.remove_account_if_empty(address);
            &&& after.account(other) == ledger.account(other)
            &&& after.code(other) == ledger.code(other)
            &&& !ledger.is_account_empty(address) ==> after == ledger
        }),
{
    if ledger.is_account_empty(address) && other == address {
        assert(ledger.code(address) =~= Seq::empty());
    }
}

/// Removing an account if it is empty twice is the same as doing so once.
pub proof fn law_cleanup_idempotent(ledger: Ledger, address: H160)
    ensures
        ledger.remove_account_if_empty(address).remove_account_if_empty(address)
            == ledger.remove_account_if_empty(address),
{
    let once = ledger.remove_account_if_empty(address);
    if ledger.is_account_empty(address) {
        assert(once.remove_account(address) =~= once);
    }
}

/// Removing an account if it is empty keeps the supply.
pub proof fn law_cleanup_keeps_supply(ledger: Ledger, address: H160)
    requires
        ledger.accounts.dom().finite(),
    ensures
        supply(ledger.remove_account_if_empty(address).accounts) == supply(ledger.accounts),
{
    if ledger.is_account_empty(address) {
        if ledger.accounts.contains_key(address) {
            lemma_supply_remove(ledger.accounts, address);
        } else {
            assert(ledger.accounts.remove(address) =~= ledger.accounts);
        }
    }
}

/// One change leaves every other address as it is.
pub proof fn law_change_is_local(
    ledger: Ledger,
    change: Change,
    delete_empty: bool,
    address: H160,
)
    requires
        changed_address(change) != address,
    ensures
        ledger.apply_change(change, delete_empty).contract(address) == ledger.contract(address),
        ledger.apply_change(change, delete_empty).holds(address) == ledger.holds(address),
{
    let after = ledger.apply_change(change, delete_empty);
    assert forall|index: H256|
        after.storages.contains_key(Slot { address, index }) == ledger.storages.contains_key(
            Slot { address, index },
        ) && (ledger.storages.contains_key(Slot { address, index }) ==> after.storages[Slot {
            address,
            index,
        }] == ledger.storages[Slot { address, index }]) by {}
    assert(after.contract(address).storage =~= ledger.contract(address).storage);
    if after.holds(address) && !ledger.accounts.contains_key(address)
        && !ledger.codes.contains_key(address) {
        let index = choose|index: H256| #[trigger]
            after.storages.contains_key(Slot { address, index });
        assert(ledger.storages.contains_key(Slot { address, index }));
    }
    if ledger.holds(address) && !ledger.accounts.contains_key(address)
        && !ledger.codes.contains_key(address) {
        let index = choose|index: H256| #[trigger]
            ledger.storages.contains_key(Slot { address, index });
        assert(after.storages.contains_key(Slot { address, index }));
    }
}

/// What a change writes is read back: where it does not delete the account for being empty, the
/// address has the nonce and balance that the change gives, the code if it gives one, the storage
/// values that it writes, and apart from those its old storage, unless that is wiped.
pub proof fn law_change_is_read_back(
    ledger: Ledger,
    address: H160,
    basic: Basic,
    code: Option<Seq<u8>>,
    storage: Seq<(H256, H256)>,
    reset_storage: bool,
    delete_empty: bool,
    index: H256,
)
    requires
        !(delete_empty && basic == no_account() && match code {
            Some(code) => code.len() == 0,
            None => ledger.code(address).len() == 0,
        }),
    ensures
        ({
            let change = Change::Modify { address, basic, code, storage, reset_storage };
            let after = ledger.apply_change(change, delete_empty);
            let written = entries_map(storage);
            &&& after.account(address) == basic
            &&& after.code(address) == match code {
                Some(code) => code,
                None => ledger.code(address),
            }
            &&& after.storage(address, index) == if written.contains_key(index) {
                written[index]
            } else if reset_storage {
                zero_word()
            } else {
                ledger.storage(address, index)
            }
        }),
{
}

/// The changes of an execution leave every address that they do not mention as it is.
pub proof fn law_apply_is_local(
    ledger: Ledger,
    changes: Seq<Change>,
    delete_empty: bool,
    address: H160,
)
    requires
        forall|i: int|
            0 <= i < changes.len() ==> changed_address(#[trigger] changes[i]) != address,
    ensures
        ledger.apply(changes, delete_empty).contract(address) == ledger.contract(address),
        ledger.apply(changes, delete_empty).holds(address) == ledger.holds(address),
    decreases changes.len(),
{
    if changes.len() > 0 {
        let rest = changes.drop_last();
        assert(changes[changes.len() - 1] == changes.last());
        assert forall|i: int| 0 <= i < rest.len() implies changed_address(#[trigger] rest[i])
            != address by {
            assert(rest[i] == changes[i]);
        }
        law_apply_is_local(ledger, rest, delete_empty, address);
        law_change_is_local(
            ledger.apply(rest, delete_empty),
            changes.last(),
            delete_empty,
            address,
        );
    }
}

/// Of changes that are each for another address, any one is made on what the store held at its
/// address before, and what it makes stays.
proof fn lemma_change_in_place(
    ledger: Ledger,
    changes: Seq<Change>,
    delete_empty: bool,
    i: int,
)
    requires
        distinct_addresses(changes),
        0 <= i < changes.len(),
    ensures
        ({
            let address = changed_address(changes[i]);
            let before = ledger.apply(changes.take(i), delete_empty);
            let made = before.apply_change(changes[i], delete_empty);
            let after = ledger.apply(changes, delete_empty);
            &&& before.contract(address) == ledger.contract(address)
            &&& after.contract(address) == made.contract(address)
            &&& after.holds(address) == made.holds(address)
        }),
    decreases changes.len(),
{
    let address = changed_address(changes[i]);
    let rest = changes.drop_last();
    assert(changes[changes.len() - 1] == changes.last());
    if i == changes.len() - 1 {
        assert(changes.take(i) =~= rest);
        assert forall|j: int| 0 <= j < rest.len() implies changed_address(#[trigger] rest[j])
            != address by {
            assert(rest[j] == changes[j]);
        }
        law_apply_is_local(ledger, rest, delete_empty, address);
    } else {
        assert(distinct_addresses(rest)) by {
            assert forall|j: int, k: int| 0 <= j < k < rest.len() implies changed_address(
                #[trigger] rest[j],
            ) != changed_address(#[trigger] rest[k]) by {
                assert(rest[j] == changes[j] && rest[k] == changes[k]);
            }
        }
        assert(rest[i] == changes[i]);
        assert(rest.take(i) =~= changes.take(i));
        lemma_change_in_place(ledger, rest, delete_empty, i);
        law_change_is_local(
            ledger.apply(rest, delete_empty),
            changes.last(),
            delete_empty,
            address,
        );
    }
}

/// What the changes of an execution write is read back: an address that one of them modifies has
/// the nonce and balance that it gives, the code if it gives one, the storage values that it
/// writes, and apart from those its old storage, unless that is wiped. This leaves out an account
/// that is deleted for being empty, whose storage is wiped too.
pub proof fn law_changes_are_read_back(
    ledger: Ledger,
    changes: Seq<Change>,
    delete_empty: bool,
    i: int,
    index: H256,
)
    requires
        distinct_addresses(changes),
        0 <= i < changes.len(),
        changes[i] matches Change::Modify { address, basic, code, .. } && !(delete_empty && basic
            == no_account() && match code {
            Some(code) => code.len() == 0,
            None => ledger.code(address).len() == 0,
        }),
    ensures
        changes[i] matches Change::Modify { address, basic, code, storage, reset_storage } && {
            let after = ledger.apply(changes, delete_empty);
            let written = entries_map(storage);
            &&& after.account(address) == basic
            &&& after.code(address) == match code {
                Some(code) => code,
                None => ledger.code(address),
            }
            &&& after.storage(address, index) == if written.contains_key(index) {
                written[index]
            } else if reset_storage {
                zero_word()
            } else {
                ledger.storage(address, index)
            }
        },
{
    lemma_change_in_place(ledger, changes, delete_empty, i);
    let before = ledger.apply(changes.take(i), delete_empty);
    let made = before.apply_change(changes[i], delete_empty);
    let after = ledger.apply(changes, delete_empty);
    if let Change::Modify { address, basic, code, storage, reset_storage } = changes[i] {
        assert(before.contract(address).code == ledger.contract(address).code);
        lemma_storage_read(before, address, index);
        lemma_storage_read(ledger, address, index);
        lemma_storage_read(made, address, index);
        lemma_storage_read(after, address, index);
        law_change_is_read_back(
            before,
            address,
            basic,
            code,
            storage,
            reset_storage,
            delete_empty,
            index,
        );
    }
}

/// A storage value is read from all that belongs to its address.
proof fn lemma_storage_read(ledger: Ledger, address: H160, index: H256)
    ensures
        ledger.storage(address, index) == {
            let storage = ledger.contract(address).storage;
            if storage.contains_key(index) {
                storage[index]
            } else {
                zero_word()
            }
        },
{
}

/// Where empty accounts are deleted, an address that the changes mention and whose account is
/// empty afterwards holds nothing at all.
pub proof fn law_no_empty_account_is_left(ledger: Ledger, changes: Seq<Change>, address: H160)
    requires
        exists|i: int|
            0 <= i < changes.len() && changed_address(#[trigger] changes[i]) == address,
        ledger.apply(changes, true).is_account_empty(address),
    ensures
        !ledger.apply(changes, true).holds(address),
    decreases changes.len(),
{
    let rest = changes.drop_last();
    let before = ledger.apply(rest, true);
    assert(changes[changes.len() - 1] == changes.last());
    if changed_address(changes.last()) != address {
        law_change_is_local(before, changes.last(), true, address);
        assert(before.contract(address) == ledger.apply(changes, true).contract(address));
        let i = choose|i: int|
            0 <= i < changes.len() && changed_address(#[trigger] changes[i]) == address;
        assert(rest[i] == changes[i]);
        law_no_empty_account_is_left(ledger, rest, address);
    }
}

/// A genesis configuration in which no address occurs twice is read back from the store that it
/// has been built in: every account that it names is there, and nothing else.
pub proof fn law_genesis_is_read_back(
    accounts: Seq<(H160, GenesisAccount)>,
    address: H160,
    index: H256,
)
    requires
        distinct_keys(accounts),
    ensures
        ({
            let built = Ledger::empty().build(accounts);
            let config = entries_map(accounts);
            if config.contains_key(address) {
                &&& built.account(address) == config[address].basic
                &&& built.code(address) == config[address].code
                &&& built.storage(address, index) == if config[address].storage.contains_key(
                    index,
                ) {
                    config[address].storage[index]
                } else {
                    zero_word()
                }
            } else {
                !built.holds(address)
            }
        }),
    decreases accounts.len(),
{
    if accounts.len() > 0 {
        let rest = accounts.drop_last();
        let built = Ledger::empty().build(accounts);
        let before = Ledger::empty().build(rest);
        let last = accounts.last();
        assert(distinct_keys(rest));
        law_genesis_is_read_back(rest, address, index);
        if address == last.0 {
            assert(!entries_map(rest).contains_key(address)) by {
                crate::storage::lemma_entries_domain(rest, address);
                if entries_map(rest).contains_key(address) {
                    let j = choose|j: int|
                        0 <= j < rest.len() && (#[trigger] rest[j]).0 == address;
                    assert(accounts[j].0 != accounts[accounts.len() - 1].0);
                }
            }
            assert(!before.storages.contains_key(Slot { address, index }));
        } else {
            if built.holds(address) && !before.accounts.contains_key(address)
                && !before.codes.contains_key(address) {
                let i = choose|i: H256| #[trigger]
                    built.storages.contains_key(Slot { address, index: i });
                assert(before.storages.contains_key(Slot { address, index: i }));
            }
        }
    }
}

/// A transaction that is refused leaves the module as it is.
pub proof fn law_refused_transaction_changes_nothing<A>(
    before: ModuleView<A>,
    after: ModuleView<A>,
    config: RuntimeConfig,
    precompiles: Answers,
    transaction: TransactionView,
    apply_state: bool,
    result: Result<(ExitReason, ReturnedView, nat), Error>,
)
    requires
        before.executes(after, config, precompiles, transaction, apply_state, result),
        result is Err,
    ensures
        after == before,
{
}

/// A transaction whose state is not to be applied leaves the module as it is.
pub proof fn law_dry_run_changes_nothing<A>(
    before: ModuleView<A>,
    after: ModuleView<A>,
    config: RuntimeConfig,
    precompiles: Answers,
    transaction: TransactionView,
    result: Result<(ExitReason, ReturnedView, nat), Error>,
)
    requires
        before.executes(after, config, precompiles, transaction, false, result),
    ensures
        after == before,
{
}

/// Whether its state is applied or not, a transaction on the same module gives the same result.
pub proof fn law_dry_run_tells_the_result<A>(
    before: ModuleView<A>,
    after: ModuleView<A>,
    dry: ModuleView<A>,
    config: RuntimeConfig,
    precompiles: Answers,
    transaction: TransactionView,
    result: Result<(ExitReason, ReturnedView, nat), Error>,
    dry_result: Result<(ExitReason, ReturnedView, nat), Error>,
)
    requires
        before.executes(after, config, precompiles, transaction, true, result),
        before.executes(dry, config, precompiles, transaction, false, dry_result),
    ensures
        dry_result == result,
{
}

/// Whether two chains give the same configuration, whenever they are asked. Of one chain with
/// itself, that it always gives the same.
pub open spec fn same_config<T: Trait, U: Trait>() -> bool {
    forall|config: evm::Config, other: evm::Config| #[trigger]
        call_ensures(T::config, (), config) && #[trigger] call_ensures(U::config, (), other)
            ==> config_of(config) == config_of(other)
}

/// Whether the precompiles of two types give the same answers in any two runs. Of one type with
/// itself, that its answers depend on nothing but what they are asked.
pub open spec fn same_answers<P: Precompiles, Q: Precompiles>() -> bool {
    forall|answers: Answers, other: Answers| #[trigger]
        may_give::<P>(answers) && #[trigger] may_give::<Q>(other) ==> answers == other
}

/// Where there are no precompiles, the answers are always the same.
pub proof fn law_no_precompiles_answer_alike()
    ensures
        same_answers::<(), ()>(),
{
    assert forall|answers: Answers, other: Answers| #[trigger]
        may_give::<()>(answers) && #[trigger] may_give::<()>(other) implies answers == other by {
        assert forall|asked: nat, address: H160, input: Seq<u8>, target_gas: Option<usize>|
            #[trigger] answers(asked, address, input, target_gas) == other(
                asked,
                address,
                input,
                target_gas,
            ) by {
            assert(<() as Precompiles>::may_answer(address, input, target_gas, None));
        }
        assert(answers =~= other);
    }
}

/// On a chain that always gives the same configuration and answers, the same transaction on the
/// same module gives the same result, and leads to the same module.
pub proof fn law_execution_is_repeatable<T: Trait>(
    module: ModuleView<T::AccountId>,
    first: ModuleView<T::AccountId>,
    second: ModuleView<T::AccountId>,
    transaction: TransactionView,
    apply_state: bool,
    first_result: Result<(ExitReason, ReturnedView, nat), Error>,
    second_result: Result<(ExitReason, ReturnedView, nat), Error>,
)
    requires
        same_config::<T, T>(),
        same_answers::<T::Precompiles, T::Precompiles>(),
        runs::<T>(module, first, transaction, apply_state, first_result),
        runs::<T>(module, second, transaction, apply_state, second_result),
    ensures
        second_result == first_result,
        second == first,
{
}

/// On a chain that always gives the same configuration and answers, a transaction that is refused,
/// or whose state is not to be applied, gives the same result when it is made again, and the module
/// is the same before, between and after.
pub proof fn law_idle_run_is_repeatable<T: Trait>(
    before: ModuleView<T::AccountId>,
    between: ModuleView<T::AccountId>,
    after: ModuleView<T::AccountId>,
    transaction: TransactionView,
    apply_state: bool,
    first_result: Result<(ExitReason, ReturnedView, nat), Error>,
    second_result: Result<(ExitReason, ReturnedView, nat), Error>,
)
    requires
        same_config::<T, T>(),
        same_answers::<T::Precompiles, T::Precompiles>(),
        runs::<T>(before, between, transaction, apply_state, first_result),
        runs::<T>(between, after, transaction, apply_state, second_result),
        !apply_state || first_result is Err,
    ensures
        between == before,
        after == before,
        second_result == first_result,
{
}

/// On a chain that always gives the same configuration and answers, a transaction that gives the
/// nonce of its source does the same as one that gives none.
pub proof fn law_matching_nonce_changes_nothing<T: Trait>(
    module: ModuleView<T::AccountId>,
    unchecked: ModuleView<T::AccountId>,
    checked: ModuleView<T::AccountId>,
    transaction: TransactionView,
    apply_state: bool,
    unchecked_result: Result<(ExitReason, ReturnedView, nat), Error>,
    checked_result: Result<(ExitReason, ReturnedView, nat), Error>,
)
    requires
        same_config::<T, T>(),
        same_answers::<T::Precompiles, T::Precompiles>(),
        runs::<T>(
            module,
            unchecked,
            TransactionView { nonce: None, ..transaction },
            apply_state,
            unchecked_result,
        ),
        runs::<T>(
            module,
            checked,
            TransactionView {
                nonce: Some(module.ledger.account(transaction.source).nonce),
                ..transaction
            },
            apply_state,
            checked_result,
        ),
    ensures
        checked_result == unchecked_result,
        checked == unchecked,
{
    let without = TransactionView { nonce: None, ..transaction };
    let with = TransactionView {
        nonce: Some(module.ledger.account(transaction.source).nonce),
        ..transaction
    };
    assert forall|config: RuntimeConfig, answers: Answers| #[trigger]
        module.setting(config, answers).outcome(with) == module.setting(config, answers).outcome(
            without,
        ) by {
        law_given_nonce_is_only_checked(module.setting(config, answers), transaction);
    }
}

/// What comes of a transaction that gives the nonce of its source is what comes of one that gives
/// none.
pub proof fn law_given_nonce_is_only_checked(setting: Setting, transaction: TransactionView)
    ensures
        setting.outcome(
            TransactionView {
                nonce: Some(setting.ledger.account(transaction.source).nonce),
                ..transaction
            },
        ) == setting.outcome(TransactionView { nonce: None, ..transaction }),
{
    let without = TransactionView { nonce: None, ..transaction };
    let with = TransactionView {
        nonce: Some(setting.ledger.account(transaction.source).nonce),
        ..transaction
    };
    assert(setting.opened(with) == setting.opened(without));
    assert(with.step() == without.step());
}

/// No transaction is refused for its gas price, whatever the minimal one is; and two chains that
/// give the same configuration and precompiles run it in the same way, whatever minimal gas prices
/// they ask for.
pub proof fn law_minimal_price_is_not_asked<T: Trait, U: Trait<AccountId = T::AccountId>>(
    module: ModuleView<T::AccountId>,
    after: ModuleView<T::AccountId>,
    other: ModuleView<T::AccountId>,
    transaction: TransactionView,
    apply_state: bool,
    result: Result<(ExitReason, ReturnedView, nat), Error>,
    other_result: Result<(ExitReason, ReturnedView, nat), Error>,
)
    requires
        same_config::<T, U>(),
        same_answers::<T::Precompiles, U::Precompiles>(),
        runs::<T>(module, after, transaction, apply_state, result),
        runs::<U>(module, other, transaction, apply_state, other_result),
    ensures
        result != Err::<(ExitReason, ReturnedView, nat), Error>(Error::GasPriceTooLow),
        other_result == result,
        other == after,
{
}

/// A request that fails leaves the module as it is.
pub proof fn law_failed_request_changes_nothing<A>(
    before: ModuleView<A>,
    after: ModuleView<A>,
    min_gas_price: U256,
    config: RuntimeConfig,
    precompiles: Answers,
    source: Option<H160>,
    task: Task,
    value: U256,
    gas_limit: u32,
    gas_price: U256,
    nonce: Option<U256>,
    result: Result<(), DispatchError>,
)
    requires
        before.dispatches(
            after,
            min_gas_price,
            config,
            precompiles,
            source,
            task,
            value,
            gas_limit,
            gas_price,
            nonce,
            result,
        ),
        result is Err,
    ensures
        after == before,
{
}

/// A request keeps all events that were there before it, in their order.
pub proof fn law_request_keeps_events<A>(
    before: ModuleView<A>,
    after: ModuleView<A>,
    min_gas_price: U256,
    config: RuntimeConfig,
    precompiles: Answers,
    source: Option<H160>,
    task: Task,
    value: U256,
    gas_limit: u32,
    gas_price: U256,
    nonce: Option<U256>,
    result: Result<(), DispatchError>,
)
    requires
        before.dispatches(
            after,
            min_gas_price,
            config,
            precompiles,
            source,
            task,
            value,
            gas_limit,
            gas_price,
            nonce,
            result,
        ),
    ensures
        before.events.is_prefix_of(after.events),
        result is Ok ==> before.events.len() < after.events.len(),
{
}

/// A transaction uses no more gas than it may, and takes at least the price of that gas out of the
/// supply: no balance is made.
pub proof fn law_transaction_burns_its_fee<A>(
    before: ModuleView<A>,
    after: ModuleView<A>,
    config: RuntimeConfig,
    precompiles: Answers,
    transaction: TransactionView,
    result: Result<(ExitReason, ReturnedView, nat), Error>,
)
    requires
        before.executes(after, config, precompiles, transaction, true, result),
    ensures
        result matches Ok((_, _, used_gas)) ==> used_gas <= transaction.gas_limit && supply(
            after.ledger.accounts,
        ) + used_gas * transaction.gas_price <= supply(before.ledger.accounts),
{
}

/// Whether one of a list of changes deletes an address.
pub open spec fn deletes(changes: Seq<Change>, address: H160) -> bool {
    changes.contains(Change::Delete { address })
}

/// The source of a transaction is left with what was held for it when the transaction had run, and
/// with the refund of the gas that was not used, unless it destroys itself. So where the
/// transaction moves none of its balance, it has paid the price of the gas that was used, and
/// nothing more.
pub proof fn law_unused_gas_is_refunded<A>(
    before: ModuleView<A>,
    after: ModuleView<A>,
    config: RuntimeConfig,
    precompiles: Answers,
    transaction: TransactionView,
    result: Result<(ExitReason, ReturnedView, nat), Error>,
)
    requires
        before.executes(after, config, precompiles, transaction, true, result),
        result is Ok,
        !deletes(
            before.setting(config, precompiles).outcome(transaction)->Ok_0.changes,
            transaction.source,
        ),
    ensures
        ({
            let setting = before.setting(config, precompiles);
            let source = transaction.source;
            let used_gas = result->Ok_0.2;
            let charged = held(setting.charged(transaction));
            let ran = held(setting.ran(transaction));
            &&& after.ledger.account(source) == (Basic {
                nonce: nonce_of(ran, source),
                balance: balance_of(ran, source) + transaction.refund(used_gas),
            })
            &&& balance_of(ran, source) == balance_of(charged, source)
                ==> after.ledger.account(source).balance + used_gas * transaction.gas_price
                == before.ledger.account(source).balance
        }),
{
    let setting = before.setting(config, precompiles);
    let outcome = setting.outcome(transaction)->Ok_0;
    let changes = outcome.changes;
    let source = transaction.source;
    let i = choose|i: int|
        0 <= i < changes.len() && changed_address(#[trigger] changes[i]) == source;
    assert(changes[i] is Modify) by {
        if changes[i] is Delete {
            assert(changes[i] == Change::Delete { address: source });
        }
    }
    lemma_change_in_place(before.ledger, changes, true, i);
    law_fee_is_price_of_used_gas(transaction, outcome.used_gas);
}

/// A transaction that succeeds counts up the nonce of its source, unless the source destroys
/// itself. So it cannot be made again: with the nonce that it gave it is refused from then on.
pub proof fn law_applied_transaction_is_not_repeated<A>(
    before: ModuleView<A>,
    after: ModuleView<A>,
    config: RuntimeConfig,
    precompiles: Answers,
    transaction: TransactionView,
    result: Result<(ExitReason, ReturnedView, nat), Error>,
    later_config: RuntimeConfig,
    later_precompiles: Answers,
)
    requires
        before.executes(after, config, precompiles, transaction, true, result),
        result matches Ok((reason, _, _)) && succeeded(reason),
        !deletes(
            before.setting(config, precompiles).outcome(transaction)->Ok_0.changes,
            transaction.source,
        ),
    ensures
        after.ledger.account(transaction.source).nonce > before.ledger.account(
            transaction.source,
        ).nonce,
        transaction.nonce is Some ==> after.setting(later_config, later_precompiles).outcome(
            transaction,
        ) is Err,
{
    law_unused_gas_is_refunded(before, after, config, precompiles, transaction, result);
}

/// A call that succeeds at an address without code moves its value there, counts up the nonce of
/// the source, and takes the price of the used gas from it. Nothing else changes: no other address,
/// and no code.
pub proof fn law_call_without_code_moves_value<A>(
    before: ModuleView<A>,
    after: ModuleView<A>,
    config: RuntimeConfig,
    precompiles: Answers,
    transaction: TransactionView,
    target: H160,
    input: Seq<u8>,
    result: Result<(ExitReason, ReturnedView, nat), Error>,
    other: H160,
)
    requires
        before.executes(after, config, precompiles, transaction, true, result),
        transaction.task == (Task::Call { target, input }),
        before.ledger.code(target).len() == 0,
        result matches Ok((reason, _, _)) && succeeded(reason),
    ensures
        ({
            let source = transaction.source;
            let paid = result->Ok_0.2 * transaction.gas_price;
            let payer = before.ledger.account(source);
            let receiver = before.ledger.account(target);
            &&& after.ledger.account(source) == (Basic {
                nonce: payer.nonce + 1,
                balance: (payer.balance - paid - if target == source {
                    0
                } else {
                    transaction.value
                }) as nat,
            })
            &&& target != source ==> after.ledger.account(target) == (Basic {
                balance: receiver.balance + transaction.value,
                ..receiver
            })
            &&& other != source && other != target ==> after.ledger.contract(other)
                == before.ledger.contract(other)
            &&& after.ledger.code(other) == before.ledger.code(other)
        }),
{
    let setting = before.setting(config, precompiles);
    let outcome = setting.outcome(transaction)->Ok_0;
    let changes = outcome.changes;
    let source = transaction.source;
    let settled = held(setting.closed(transaction));
    assert forall|i: int| 0 <= i < changes.len() implies (#[trigger] changes[i]) == account_change(
        source,
        settled[source],
    ) || changes[i] == account_change(target, settled[target]) by {}
    assert(!deletes(changes, source)) by {
        if deletes(changes, source) {
            let i = choose|i: int|
                0 <= i < changes.len() && changes[i] == (Change::Delete { address: source });
            assert(changes[i] is Modify);
        }
    }
    law_unused_gas_is_refunded(before, after, config, precompiles, transaction, result);
    law_fee_is_price_of_used_gas(transaction, outcome.used_gas);
    lemma_account_changes(before.ledger, changes, settled, source, target, other);
    lemma_account_changes(before.ledger, changes, settled, source, target, target);
    let j = choose|j: int|
        0 <= j < changes.len() && changed_address(#[trigger] changes[j]) == target;
    lemma_change_in_place(before.ledger, changes, true, j);
    let start = basics(before.ledger.contracts());
    assert(target != source ==> nonce_of(start, target) == before.ledger.account(target).nonce
        && balance_of(start, target) == before.ledger.account(target).balance) by {
        assert(before.ledger.accounts.contains_key(target) ==> before.ledger.holds(target));
    }
}

/// Changes of the nonces and balances of two addresses leave every code as it is, and every other
/// address.
proof fn lemma_account_changes(
    ledger: Ledger,
    changes: Seq<Change>,
    settled: Map<H160, Basic>,
    source: H160,
    target: H160,
    other: H160,
)
    requires
        forall|i: int|
            0 <= i < changes.len() ==> (#[trigger] changes[i]) == account_change(
                source,
                settled[source],
            ) || changes[i] == account_change(target, settled[target]),
    ensures
        ledger.apply(changes, true).code(other) == ledger.code(other),
        other != source && other != target ==> ledger.apply(changes, true).contract(other)
            == ledger.contract(other),
    decreases changes.len(),
{
    if changes.len() > 0 {
        let rest = changes.drop_last();
        let last = changes.last();
        assert(changes[changes.len() - 1] == last);
        assert forall|i: int| 0 <= i < rest.len() implies (#[trigger] rest[i]) == account_change(
            source,
            settled[source],
        ) || rest[i] == account_change(target, settled[target]) by {
            assert(rest[i] == changes[i]);
        }
        lemma_account_changes(ledger, rest, settled, source, target, other);
        let before = ledger.apply(rest, true);
        let after = before.apply_change(last, true);
        if changed_address(last) == other {
            assert(after.code(other) =~= before.code(other));
        } else {
            law_change_is_local(before, last, true, other);
            assert(after.contract(other).code == before.contract(other).code);
        }
    }
}

/// A call to an address without code or precompile succeeds wherever its gas pays for the
/// transaction, costs that gas and no more, and returns nothing.
pub proof fn law_plain_call_succeeds<A>(
    before: ModuleView<A>,
    after: ModuleView<A>,
    config: RuntimeConfig,
    precompiles: Answers,
    transaction: TransactionView,
    target: H160,
    input: Seq<u8>,
    apply_state: bool,
    result: Result<(ExitReason, ReturnedView, nat), Error>,
)
    requires
        before.executes(after, config, precompiles, transaction, apply_state, result),
        transaction.task == (Task::Call { target, input }),
        before.ledger.code(target).len() == 0,
        no_answer(precompiles, target, input),
    ensures
        result matches Ok((reason, returned, used_gas)) ==> {
            let cost = config.call_cost(input);
            &&& succeeded(reason) <==> cost <= transaction.gas_limit
            &&& used_gas == smaller(cost, transaction.gas_limit as nat)
            &&& returned == (ReturnedView::Output { target, output: Seq::empty() })
        },
{
}

/// Of a transaction that fails, nothing stays but that its source has paid for the gas that was
/// used, and that its nonce may have been counted up.
pub proof fn law_failed_transaction_only_pays<A>(
    before: ModuleView<A>,
    after: ModuleView<A>,
    config: RuntimeConfig,
    precompiles: Answers,
    transaction: TransactionView,
    result: Result<(ExitReason, ReturnedView, nat), Error>,
)
    requires
        before.executes(after, config, precompiles, transaction, true, result),
    ensures
        result matches Ok((reason, _, used_gas)) ==> !succeeded(reason) ==> {
            ||| after.ledger == transaction.paid(before.ledger, used_gas, false)
            ||| after.ledger == transaction.paid(before.ledger, used_gas, true)
        },
{
}

/// A request whose transaction fails leaves an event that says so as the last one, and nothing in
/// the store but that the source has paid for the gas that was used, and that its nonce may have
/// been counted up.
pub proof fn law_failure_is_told<A>(
    before: ModuleView<A>,
    after: ModuleView<A>,
    min_gas_price: U256,
    config: RuntimeConfig,
    precompiles: Answers,
    source: H160,
    task: Task,
    value: U256,
    gas_limit: u32,
    gas_price: U256,
    nonce: Option<U256>,
)
    requires
        before.dispatches(
            after,
            min_gas_price,
            config,
            precompiles,
            Some(source),
            task,
            value,
            gas_limit,
            gas_price,
            nonce,
            Ok(()),
        ),
    ensures
        ({
            let transaction = TransactionView::of(source, task, value, gas_limit, gas_price, nonce);
            let outcome = before.setting(config, precompiles).outcome(transaction)->Ok_0;
            &&& after.events.len() > 0
            &&& (after.events.last() is ExecutedFailed || after.events.last() is CreatedFailed)
                <==> !succeeded(outcome.reason)
            &&& (after.events.last() is ExecutedFailed || after.events.last() is CreatedFailed)
                ==> {
                ||| after.ledger == transaction.paid(before.ledger, outcome.used_gas, false)
                ||| after.ledger == transaction.paid(before.ledger, outcome.used_gas, true)
            }
        }),
{
}

/// Of a transaction that fails, every address but its source keeps all it had.
pub proof fn law_payment_is_local(
    transaction: TransactionView,
    ledger: Ledger,
    used_gas: nat,
    counted: bool,
    other: H160,
)
    requires
        other != transaction.source,
    ensures
        transaction.paid(ledger, used_gas, counted).contract(other) == ledger.contract(other),
{
    let after = transaction.paid(ledger, used_gas, counted);
    assert(after.contract(other).storage =~= ledger.contract(other).storage);
}

/// A creation that succeeds gives code to the address that it hands back, and that code is read
/// back once the changes have been made, unless the new contract has destroyed itself.
pub proof fn law_created_contract_has_its_code(setting: Setting, transaction: TransactionView)
    requires
        setting.accounts_for(transaction),
    ensures
        setting.outcome(transaction) matches Ok(outcome) ==> succeeded(outcome.reason) ==> (
        outcome.returned matches ReturnedView::Address(address) ==> exists|i: int|
            0 <= i < outcome.changes.len() && changed_address(#[trigger] outcome.changes[i])
                == address && match outcome.changes[i] {
                Change::Modify { code, .. } => code == Some(
                    setting.ledger.apply(outcome.changes, true).code(address),
                ),
                Change::Delete { .. } => !setting.ledger.apply(outcome.changes, true).holds(
                    address,
                ),
            }),
{
    if let Ok(outcome) = setting.outcome(transaction) {
        if let ReturnedView::Address(address) = outcome.returned {
            if succeeded(outcome.reason) {
                let changes = outcome.changes;
                let i = choose|i: int|
                    0 <= i < changes.len() && changed_address(#[trigger] changes[i]) == address
                        && (changes[i] matches Change::Modify { code, .. } ==> code is Some);
                lemma_change_in_place(setting.ledger, changes, true, i);
                let before = setting.ledger.apply(changes.take(i), true);
                let after = before.apply_change(changes[i], true);
                if let Change::Modify { code, .. } = changes[i] {
                    assert(after.code(address) =~= code->Some_0);
                }
            }
        }
    }
}

/// The fee of a transaction can always be taken from a source that can make the whole payment:
/// no transaction fails because the withdrawal of the fee does.
pub proof fn law_fee_withdrawal_never_fails(setting: Setting, transaction: TransactionView)
    ensures
        setting.outcome(transaction) != Err::<Outcome, Error>(Error::WithdrawFailed),
{
}

/// Where no nonce is given, no transaction fails because of the nonce.
pub proof fn law_missing_nonce_is_not_checked(setting: Setting, transaction: TransactionView)
    requires
        transaction.nonce is None,
    ensures
        setting.outcome(transaction) != Err::<Outcome, Error>(Error::InvalidNonce),
{
}

/// A transaction that is not refused has a source that can pay the value and the whole fee, and
/// that has the nonce that was given.
pub proof fn law_accepted_transaction_is_covered(setting: Setting, transaction: TransactionView)
    requires
        setting.outcome(transaction) is Ok,
    ensures
        ({
            let account = setting.ledger.account(transaction.source);
            &&& account.balance >= transaction.value + transaction.gas_price * (
            transaction.gas_limit as nat)
            &&& transaction.nonce matches Some(nonce) ==> nonce == account.nonce
        }),
{
}

/// What the source does not get back of the fee is the price of the gas that was used.
pub proof fn law_fee_is_price_of_used_gas(transaction: TransactionView, used_gas: nat)
    requires
        used_gas <= transaction.gas_limit,
    ensures
        transaction.total_fee() - transaction.refund(used_gas) == used_gas
            * transaction.gas_price,
{
    let price = transaction.gas_price;
    let limit = transaction.gas_limit as nat;
    assert(used_gas * price <= price * limit) by (nonlinear_arith)
        requires
            used_gas <= limit,
            0 <= price,
    ;
}

/// The address of a contract made by a create2 transaction is settled by the source, the init
/// code and the salt, whatever the store, the block, the configuration and the nonces are.
pub proof fn law_create2_address_is_settled(
    setting: Setting,
    other: Setting,
    transaction: TransactionView,
    other_transaction: TransactionView,
)
    requires
        transaction.task is Create2,
        other_transaction.task == transaction.task,
        other_transaction.source == transaction.source,
    ensures
        setting.exit(transaction).1 == other.exit(other_transaction).1,
{
}

/// A withdrawal of what has just been deposited is covered, and gives back the store that was
/// there before the deposit, as far as it can be read.
pub proof fn law_withdrawal_undoes_deposit<A>(
    module: ModuleView<A>,
    sender: A,
    address: H160,
    value: nat,
    other: H160,
)
    ensures
        ({
            let deposited = module.credited(sender, address, value);
            let account = deposited.ledger.account(address);
            let left = Basic { balance: (account.balance - value) as nat, ..account };
            let withdrawn = deposited.debited(sender, address, left, value);
            &&& account.balance >= value
            &&& withdrawn.ledger.contract(other) == module.ledger.contract(other)
        }),
{
    let deposited = module.credited(sender, address, value);
    let account = deposited.ledger.account(address);
    assert(account == (Basic {
        balance: module.ledger.account(address).balance + value,
        ..module.ledger.account(address)
    }));
}

/// A deposit makes the supply larger by what was deposited.
pub proof fn law_deposit_adds_to_supply<A>(
    module: ModuleView<A>,
    sender: A,
    address: H160,
    value: nat,
)
    requires
        module.ledger.accounts.dom().finite(),
    ensures
        supply(module.credited(sender, address, value).ledger.accounts) == supply(
            module.ledger.accounts,
        ) + value,
{
    let account = module.ledger.account(address);
    lemma_supply_insert(
        module.ledger.accounts,
        address,
        Basic { balance: account.balance + value, ..account },
    );
}

/// A withdrawal makes the supply smaller by what was withdrawn.
pub proof fn law_withdrawal_takes_from_supply<A>(
    module: ModuleView<A>,
    sender: A,
    address: H160,
    value: nat,
)
    requires
        module.ledger.accounts.dom().finite(),
        module.ledger.account(address).balance >= value,
    ensures
        ({
            let account = module.ledger.account(address);
            let left = Basic { balance: (account.balance - value) as nat, ..account };
            supply(module.debited(sender, address, left, value).ledger.accounts) + value == supply(
                module.ledger.accounts,
            )
        }),
{
    let account = module.ledger.account(address);
    lemma_supply_insert(
        module.ledger.accounts,
        address,
        Basic { balance: (account.balance - value) as nat, ..account },
    );
}

/// A deposit and a withdrawal change nothing but the account at their address.
pub proof fn law_transfer_is_local<A>(
    module: ModuleView<A>,
    sender: A,
    address: H160,
    account: Basic,
    value: nat,
    other: H160,
)
    requires
        other != address,
    ensures
        module.credited(sender, address, value).ledger.contract(other) == module.ledger.contract(
            other,
        ),
        module.debited(sender, address, account, value).ledger.contract(other)
            == module.ledger.contract(other),
{
}

/// An address is always 20 bytes of the hash, whatever its length, and of a hash that is long
/// enough it is the last 20.
pub proof fn law_truncation_keeps_the_end(hash: Seq<u8>, i: int)
    requires
        0 <= i < 20,
    ensures
        truncated(hash).len() == 20,
        truncated(hash)[i] == if hash.len() - 20 + i >= 0 {
            hash[hash.len() - 20 + i]
        } else {
            0
        },
{
}

} // verus!
