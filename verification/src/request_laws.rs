//! What a request is: who makes it, when it is refused, and what it leaves.

use vstd::prelude::*;
use evm::ExitReason;
use crate::account_id::{
    truncated, truncated_address, AccountId32, AsBytes, ConvertAccountId,
    HashTruncateConvertAccountId, ModuleAccount, ModuleId,
};
use crate::config::{config_of, RuntimeConfig};
use crate::execution::{Error, ReturnedView, Task, TransactionView};
use crate::executor::{may_give, succeeded, Answers, Precompiles};
use crate::hashing::{blake2_256_of, BlakeTwo256, Hasher};
use crate::module::{
    can_request, can_run, completion, events_of, log_events, module_account_of,
    request_stays_in_range, requests, source_of, weight_of, DispatchError, Event, EventView,
    FeeCalculator, Get, Module, ModuleView, Origin, Trait,
};
use crate::primitives::{H160, U256};
use crate::state::{Basic, Message};

verus! {

/// A request is refused for a gas price below the minimal one, and then for not being signed. Else
/// its transaction, of just the parts of the request, is executed and applied; a refusal of the
/// transaction is handed on; and a transaction that has run leaves its changes and logs, and as the
/// last event whether it has succeeded, with the address that was called or created.
pub proof fn law_request_is_decided<A>(
    before: ModuleView<A>,
    after: ModuleView<A>,
    min_gas_price: U256,
    config: RuntimeConfig,
    precompiles: Answers,
    source: Option<H160>,
    task: Task,
    value: U256,
    gas_limit: u32,
    gas_price: U256,
    nonce: Option<U256>,
    result: Result<(), DispatchError>,
    transaction: TransactionView,
)
    requires
        source matches Some(source) ==> transaction == (TransactionView {
            source,
            task,
            value: value@,
            gas_limit,
            gas_price: gas_price@,
            nonce: match nonce {
                Some(nonce) => Some(nonce@),
                None => None,
            },
        }),
        before.dispatches(
            after,
            min_gas_price,
            config,
            precompiles,
            source,
            task,
            value,
            gas_limit,
            gas_price,
            nonce,
            result,
        ),
    ensures
        gas_price@ < min_gas_price@ ==> after == before && result == Err::<(), DispatchError>(
            DispatchError::Module(Error::GasPriceTooLow),
        ),
        gas_price@ >= min_gas_price@ && source is None ==> after == before && result == Err::<
            (),
            DispatchError,
        >(DispatchError::BadOrigin),
        gas_price@ >= min_gas_price@ && source is Some ==> exists|
            executed: ModuleView<A>,
            outcome: Result<(ExitReason, ReturnedView, nat), Error>,
        | #[trigger]
            before.executes(
                executed,
                config,
                precompiles,
                transaction,
                true,
                outcome,
            ) && match outcome {
                Err(error) => after == before && result == Err::<(), DispatchError>(
                    DispatchError::Module(error),
                ),
                Ok((reason, returned, _)) => result == Ok::<(), DispatchError>(()) && after == (
                ModuleView {
                    events: executed.events.push(
                        match returned {
                            ReturnedView::Output { target, .. } => if succeeded(reason) {
                                EventView::Executed(target)
                            } else {
                                EventView::ExecutedFailed(target)
                            },
                            ReturnedView::Address(address) => if succeeded(reason) {
                                EventView::Created(address)
                            } else {
                                EventView::CreatedFailed(address)
                            },
                        },
                    ),
                    ..executed
                }),
            },
{
    if gas_price@ >= min_gas_price@ && source is Some {
        match before.setting(config, precompiles).outcome(transaction) {
            Err(error) => {
                let outcome = Err::<(ExitReason, ReturnedView, nat), Error>(error);
                assert(before.executes(before, config, precompiles, transaction, true, outcome));
            },
            Ok(came) => {
                let outcome = Ok::<(ExitReason, ReturnedView, nat), Error>(
                    (came.reason, came.returned, came.used_gas),
                );
                let executed = before.applied(came);
                assert(before.executes(executed, config, precompiles, transaction, true, outcome));
            },
        }
    }
}

/// A request is made under a minimal gas price and a configuration, and with answers of
/// precompiles, that the chain may give, on behalf of the address of the account that has signed
/// it.
pub proof fn law_request_comes_from_its_signer<T: Trait>(
    before: ModuleView<T::AccountId>,
    after: ModuleView<T::AccountId>,
    origin: Origin<T::AccountId>,
    task: Task,
    value: U256,
    gas_limit: u32,
    gas_price: U256,
    nonce: Option<U256>,
    result: Result<(), DispatchError>,
)
    requires
        requests::<T>(
            before,
            after,
            origin,
            task,
            value,
            gas_limit,
            gas_price,
            nonce,
            result,
        ),
    ensures
        exists|min_gas_price: U256, config: evm::Config, answers: Answers| #[trigger]
            call_ensures(
                <T::FeeCalculator as FeeCalculator>::min_gas_price,
                (),
                min_gas_price,
            ) && #[trigger] call_ensures(T::config, (), config) && #[trigger] may_give::<
                T::Precompiles,
            >(answers) && before.dispatches(
                after,
                min_gas_price,
                config_of(config),
                answers,
                match origin {
                    Origin::Signed(account) => Some(
                        <T::ConvertAccountId as ConvertAccountId<T::AccountId>>::address(account),
                    ),
                    Origin::Root => None,
                    Origin::Unsigned => None,
                },
                task,
                value,
                gas_limit,
                gas_price,
                nonce,
                result,
            ),
{
}

/// A request can be made, and an execution can run, wherever its transaction stays in range under
/// every configuration that the chain may give; a request that is refused for its price or its
/// signature always can.
pub proof fn law_range_of_a_request<T: Trait>(
    ledger: crate::state::Ledger,
    origin: Origin<T::AccountId>,
    task: Task,
    value: U256,
    gas_limit: u32,
    gas_price: U256,
    nonce: Option<U256>,
    config: RuntimeConfig,
)
    ensures
        ({
            let asked = |source: H160|
                TransactionView {
                    source,
                    task,
                    value: value@,
                    gas_limit,
                    gas_price: gas_price@,
                    nonce: match nonce {
                        Some(nonce) => Some(nonce@),
                        None => None,
                    },
                };
            &&& request_stays_in_range(
                ledger,
                config,
                source_of::<T>(origin),
                task,
                value,
                gas_limit,
                gas_price,
                nonce,
            ) <==> match origin {
                Origin::Signed(account) => asked(
                    <T::ConvertAccountId as ConvertAccountId<T::AccountId>>::address(account),
                ).stays_in_range(ledger, config),
                _ => true,
            }
            &&& (forall|given: evm::Config| #[trigger]
                call_ensures(T::config, (), given) ==> request_stays_in_range(
                    ledger,
                    config_of(given),
                    source_of::<T>(origin),
                    task,
                    value,
                    gas_limit,
                    gas_price,
                    nonce,
                )) ==> can_request::<T>(ledger, origin, task, value, gas_limit, gas_price, nonce)
            &&& !(origin is Signed) ==> can_request::<T>(
                ledger,
                origin,
                task,
                value,
                gas_limit,
                gas_price,
                nonce,
            )
        }),
{
}

/// An execution can run wherever its transaction stays in range under every configuration that the
/// chain may give.
pub proof fn law_range_of_an_execution<T: Trait>(
    ledger: crate::state::Ledger,
    transaction: TransactionView,
)
    ensures
        (forall|given: evm::Config| #[trigger]
            call_ensures(T::config, (), given) ==> transaction.stays_in_range(
                ledger,
                config_of(given),
            )) ==> can_run::<T>(ledger, transaction),
{
}

/// A deposit adds its value to the balance at its address, and leaves the nonce, every other
/// account, all code, all storage and the block as they are; and it leaves an event with the
/// sender, the address and the value.
pub proof fn law_deposit_is_credited<A>(
    before: ModuleView<A>,
    sender: A,
    address: H160,
    value: nat,
)
    ensures
        ({
            let after = before.credited(sender, address, value);
            let accounts = before.ledger.accounts;
            let (nonce, balance) = if accounts.contains_key(address) {
                (accounts[address].nonce, accounts[address].balance)
            } else {
                (0nat, 0nat)
            };
            &&& after.ledger.accounts == accounts.insert(
                address,
                Basic { nonce, balance: balance + value },
            )
            &&& after.ledger.codes == before.ledger.codes
            &&& after.ledger.storages == before.ledger.storages
            &&& after.block == before.block
            &&& after.events == before.events.push(
                EventView::BalanceDeposit(sender, address, value),
            )
        }),
{
}

/// A withdrawal puts what it leaves at its address, and leaves every other account, all code, all
/// storage and the block as they are; and it leaves an event with the sender, the address and the
/// value.
pub proof fn law_withdrawal_is_debited<A>(
    before: ModuleView<A>,
    sender: A,
    address: H160,
    account: Basic,
    value: nat,
)
    ensures
        ({
            let after = before.debited(sender, address, account, value);
            &&& after.ledger.accounts == before.ledger.accounts.insert(address, account)
            &&& after.ledger.codes == before.ledger.codes
            &&& after.ledger.storages == before.ledger.storages
            &&& after.block == before.block
            &&& after.events == before.events.push(
                EventView::BalanceWithdraw(sender, address, value),
            )
        }),
{
}

/// The event that tells how a transaction has ended names the address that was called or created,
/// and whether the transaction has succeeded.
pub proof fn law_completion_tells_the_ending<A>(success: bool, returned: ReturnedView)
    ensures
        returned matches ReturnedView::Output { target, .. } ==> completion::<A>(true, returned)
            == EventView::<A>::Executed(target) && completion::<A>(false, returned)
            == EventView::<A>::ExecutedFailed(target),
        returned matches ReturnedView::Address(address) ==> completion::<A>(true, returned)
            == EventView::<A>::Created(address) && completion::<A>(false, returned)
            == EventView::<A>::CreatedFailed(address),
{
}

/// Every log becomes one event, in order, and what an event says is what its parts say.
pub proof fn law_events_say_their_parts<T: Trait>(
    messages: Seq<Message>,
    events: Seq<Event<T::AccountId>>,
    event: Event<T::AccountId>,
    module: Module<T>,
)
    ensures
        log_events::<T::AccountId>(messages).len() == messages.len(),
        forall|i: int|
            0 <= i < messages.len() ==> (#[trigger] log_events::<T::AccountId>(messages)[i])
                == EventView::<T::AccountId>::Log(messages[i]),
        events_of(events).len() == events.len(),
        forall|i: int|
            0 <= i < events.len() ==> (#[trigger] events_of(events)[i]) == events[i]@,
        event@ == match event {
            Event::Log(log) => EventView::<T::AccountId>::Log(
                Message { address: log.address, topics: log.topics@, data: log.data@ },
            ),
            Event::Created(address) => EventView::Created(address),
            Event::CreatedFailed(address) => EventView::CreatedFailed(address),
            Event::Executed(address) => EventView::Executed(address),
            Event::ExecutedFailed(address) => EventView::ExecutedFailed(address),
            Event::BalanceDeposit(account, address, value) => EventView::BalanceDeposit(
                account,
                address,
                value@,
            ),
            Event::BalanceWithdraw(account, address, value) => EventView::BalanceWithdraw(
                account,
                address,
                value@,
            ),
        },
        module@.ledger == module.state@,
        module@.block == module.block@,
        module@.events.len() == module.events@.len(),
        forall|i: int|
            0 <= i < module.events@.len() ==> (#[trigger] module@.events[i]) == module.events@[i]@,
{
}

/// The weight is the price of the gas limit, where the price and that product fit in 64 bits, and
/// else the largest number of 64 bits, but nothing where there is no gas.
pub proof fn law_weight_is_the_price_of_the_limit(gas_price: nat, gas_limit: u32)
    ensures
        gas_price * (gas_limit as nat) <= 0xffff_ffff_ffff_ffff && gas_price
            <= 0xffff_ffff_ffff_ffff ==> weight_of(gas_price, gas_limit) == gas_price * (
        gas_limit as nat),
        gas_limit == 0 ==> weight_of(gas_price, gas_limit) == 0,
        gas_limit > 0 && gas_price * (gas_limit as nat) > 0xffff_ffff_ffff_ffff ==> weight_of(
            gas_price,
            gas_limit,
        ) == 0xffff_ffff_ffff_ffff,
{
    let limit = gas_limit as nat;
    if limit == 0 {
        assert(gas_price * limit == 0 && 0xffff_ffff_ffff_ffff * limit == 0) by (nonlinear_arith)
            requires
                limit == 0,
        ;
    } else if gas_price > 0xffff_ffff_ffff_ffff {
        assert(0xffff_ffff_ffff_ffff * limit >= 0xffff_ffff_ffff_ffff) by (nonlinear_arith)
            requires
                limit >= 1,
        ;
    }
}

/// The address of an account is the last 20 bytes of the hash of its bytes, with zeros before a
/// hash that is shorter.
pub proof fn law_address_is_the_end_of_the_hash<H: Hasher, A: AsBytes>(account: A, i: int)
    requires
        0 <= i < 20,
    ensures
        ({
            let address = <HashTruncateConvertAccountId<H> as ConvertAccountId<A>>::address(
                account,
            );
            let hash = H::digest(account.bytes());
            address.0@[i] == if hash.len() - 20 + i >= 0 {
                hash[hash.len() - 20 + i]
            } else {
                0
            }
        }),
{
    let address = <HashTruncateConvertAccountId<H> as ConvertAccountId<A>>::address(account);
    let hash = H::digest(account.bytes());
    assert(address == truncated_address(hash));
    assert(address.0@[i] == truncated(hash)[i]);
}

/// The Blake2 hash function gives the 32 bytes of the hash, and the bytes of an account id are
/// those that it consists of.
pub proof fn law_account_ids_are_their_bytes(data: Seq<u8>, account: AccountId32)
    ensures
        BlakeTwo256::digest(data) == blake2_256_of(data).0@,
        account.bytes() == account.0@,
{
}

/// The account of a module is the mark `modl`, the eight bytes of the module's id, and twenty
/// zeros; and the module has that of the id that the chain is configured with.
pub proof fn law_module_account_is_marked<T: Trait>(id: ModuleId, i: int)
    requires
        0 <= i < 32,
    ensures
        AccountId32::module_account(id).0@[i] == if i == 0 {
            0x6du8
        } else if i == 1 {
            0x6fu8
        } else if i == 2 {
            0x64u8
        } else if i == 3 {
            0x6cu8
        } else if i < 12 {
            id.0@[i - 4]
        } else {
            0u8
        },
        module_account_of::<T>() == T::AccountId::module_account(
            <T::ModuleId as Get<ModuleId>>::value(),
        ),
{
    let bytes = AccountId32::module_account(id).0@;
    assert(bytes =~= crate::account_id::module_account_bytes(id.0@));
}

/// Where there are no precompiles, none ever answers; and all answers of a run are such that the
/// precompiles may give them.
pub proof fn law_answers_are_allowed<P: Precompiles>(
    answers: Answers,
    none: Answers,
    asked: nat,
    address: H160,
    input: Seq<u8>,
    target_gas: Option<usize>,
    possible: crate::executor::Answer,
)
    requires
        may_give::<P>(answers),
        may_give::<()>(none),
        P::may_answer(address, input, target_gas, possible),
    ensures
        P::may_answer(address, input, target_gas, answers(asked, address, input, target_gas)),
        none(asked, address, input, target_gas) is None,
{
    assert(<() as Precompiles>::may_answer(address, input, target_gas, None));
}

} // verus!
