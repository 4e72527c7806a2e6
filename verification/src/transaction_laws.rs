//! What a transaction is: when it is accepted, what the executor is asked, and what comes of it.
//!
//! These laws speak of the executor's sessions step by step, and of what the executor answers.

use vstd::prelude::*;
use evm::ExitReason;
use crate::config::{config_of, RuntimeConfig};
use crate::execution::{
    Error, Execution, Operation, Outcome, Returned, ReturnedView, Setting, Task, Transaction,
    TransactionView,
};
use crate::executor::{
    big_endian, call_outcome, create2_outcome, create_outcome, gas_used, legacy_address, may_give,
    proceeds, rlp_string, Answers, Block, BlockView, Session, Step, Surroundings, World,
};
use crate::hashing::keccak256_of;
use crate::module::{
    called_result, created_result, result_of, runs, EventView, ModuleView, Trait,
};
use crate::primitives::{H160, H256, U256};
use crate::state::{Basic, Ledger, Message};
use crate::supply::supply;

verus! {

/// A transaction is accepted if its whole fee, and its value with the whole fee, fit in a word, its
/// source owns them, and the nonce is not given or is that of the source. Else it is refused, for
/// the first of these that does not hold.
pub proof fn law_covered_transaction_is_accepted(setting: Setting, transaction: TransactionView)
    ensures
        ({
            let most =
                0xffff_ffff_ffff_ffff_ffff_ffff_ffff_ffff_ffff_ffff_ffff_ffff_ffff_ffff_ffff_ffffnat;
            let accounts = setting.ledger.accounts;
            let source = transaction.source;
            let (nonce, balance) = if accounts.contains_key(source) {
                (accounts[source].nonce, accounts[source].balance)
            } else {
                (0nat, 0nat)
            };
            let fee = transaction.gas_price * (transaction.gas_limit as nat);
            let payment = transaction.value + fee;
            let outcome = setting.outcome(transaction);
            &&& fee <= most && payment <= most && payment <= balance && (transaction.nonce is None
                || transaction.nonce == Some(nonce)) ==> outcome is Ok
            &&& fee > most ==> outcome == Err::<Outcome, Error>(Error::FeeOverflow)
            &&& fee <= most && payment > most ==> outcome == Err::<Outcome, Error>(
                Error::PaymentOverflow,
            )
            &&& payment <= most && payment > balance ==> outcome == Err::<Outcome, Error>(
                Error::BalanceLow,
            )
            &&& payment <= most && payment <= balance && transaction.nonce is Some
                && transaction.nonce != Some(nonce) ==> outcome == Err::<Outcome, Error>(
                Error::InvalidNonce,
            )
        }),
{
}

/// The same of the charge itself: it is the price of the whole gas limit, where that and the value
/// fit in a word, the account owns them, and the nonce is not given or is that of the account.
pub proof fn law_charge_is_the_price_of_the_limit(transaction: TransactionView, account: Basic)
    ensures
        ({
            let most =
                0xffff_ffff_ffff_ffff_ffff_ffff_ffff_ffff_ffff_ffff_ffff_ffff_ffff_ffff_ffff_ffffnat;
            let fee = transaction.gas_price * (transaction.gas_limit as nat);
            let payment = transaction.value + fee;
            let charge = transaction.charge(account);
            &&& payment <= most && payment <= account.balance && (transaction.nonce is None
                || transaction.nonce == Some(account.nonce)) ==> charge == Ok::<nat, Error>(fee)
            &&& fee > most ==> charge == Err::<nat, Error>(Error::FeeOverflow)
            &&& fee <= most && payment > most ==> charge == Err::<nat, Error>(
                Error::PaymentOverflow,
            )
            &&& payment <= most && payment > account.balance ==> charge == Err::<nat, Error>(
                Error::BalanceLow,
            )
            &&& payment <= most && payment <= account.balance && transaction.nonce is Some
                && transaction.nonce != Some(account.nonce) ==> charge == Err::<nat, Error>(
                Error::InvalidNonce,
            )
        }),
{
}

/// The sessions of an executor that runs a transaction, step by step.
proof fn lemma_sessions(setting: Setting, transaction: TransactionView, asked: Step)
    requires
        setting.accounts_for(transaction),
        setting.outcome(transaction) is Ok,
        asked == match transaction.task {
            Task::Call { target, input } => Step::Call {
                caller: transaction.source,
                target,
                value: transaction.value,
                data: input,
                gas_limit: transaction.gas_limit as nat,
            },
            Task::Create { init } => Step::Create {
                caller: transaction.source,
                value: transaction.value,
                init,
                gas_limit: transaction.gas_limit as nat,
            },
            Task::Create2 { init, salt } => Step::Create2 {
                caller: transaction.source,
                value: transaction.value,
                init,
                salt,
                gas_limit: transaction.gas_limit as nat,
            },
        },
    ensures
        ({
            let opened = Session {
                world: World {
                    surroundings: Surroundings {
                        gas_price: transaction.gas_price,
                        origin: transaction.source,
                        block: setting.block,
                    },
                    contracts: setting.ledger.contracts(),
                },
                config: setting.config,
                gas_limit: transaction.gas_limit as nat,
                precompiles: setting.precompiles,
                steps: Seq::empty(),
            };
            let fee = transaction.gas_price * (transaction.gas_limit as nat);
            let taken = Step::Withdraw { address: transaction.source, amount: fee };
            let ran = Session { steps: seq![taken, asked], ..opened };
            let given = Step::Deposit {
                address: transaction.source,
                amount: (fee - gas_used(ran) * transaction.gas_price) as nat,
            };
            &&& setting.opened(transaction) == opened
            &&& setting.charged(transaction) == (Session { steps: seq![taken], ..opened })
            &&& setting.ran(transaction) == ran
            &&& setting.closed(transaction) == (Session {
                steps: seq![taken, asked, given],
                ..opened
            })
            &&& gas_used(ran) * transaction.gas_price <= fee
        }),
{
    let fee = transaction.gas_price * (transaction.gas_limit as nat);
    let taken = Step::Withdraw { address: transaction.source, amount: fee };
    assert(setting.charged(transaction).steps =~= seq![taken]);
    assert(setting.ran(transaction).steps =~= seq![taken, asked]);
    let used = gas_used(setting.ran(transaction));
    let price = transaction.gas_price;
    let limit = transaction.gas_limit as nat;
    assert(used * price <= price * limit) by (nonlinear_arith)
        requires
            used <= limit,
            0 <= price,
    ;
    let given = Step::Deposit {
        address: transaction.source,
        amount: (fee - used * price) as nat,
    };
    assert(setting.closed(transaction).steps =~= seq![taken, asked, given]);
}

/// A call transaction, whether there is code at its target or not: the fee is taken from the
/// source, the executor is asked to call the target with the value, the input and the gas limit of
/// the transaction, and what is left of the fee is given back. How it ends, what it returns and how
/// much gas it used is what the executor says of that call.
pub proof fn law_call_is_made_as_asked<A>(
    before: ModuleView<A>,
    after: ModuleView<A>,
    config: RuntimeConfig,
    precompiles: Answers,
    transaction: TransactionView,
    target: H160,
    input: Seq<u8>,
    apply_state: bool,
    result: Result<(ExitReason, ReturnedView, nat), Error>,
)
    requires
        before.executes(after, config, precompiles, transaction, apply_state, result),
        transaction.task == (Task::Call { target, input }),
    ensures
        result matches Ok((reason, returned, used_gas)) ==> {
            let source = transaction.source;
            let fee = transaction.gas_price * (transaction.gas_limit as nat);
            let taken = Step::Withdraw { address: source, amount: fee };
            let call = Step::Call {
                caller: source,
                target,
                value: transaction.value,
                data: input,
                gas_limit: transaction.gas_limit as nat,
            };
            let charged = Session {
                world: World {
                    surroundings: Surroundings {
                        gas_price: transaction.gas_price,
                        origin: source,
                        block: before.block,
                    },
                    contracts: before.ledger.contracts(),
                },
                config,
                gas_limit: transaction.gas_limit as nat,
                precompiles,
                steps: seq![taken],
            };
            let ran = Session { steps: seq![taken, call], ..charged };
            let given = Step::Deposit {
                address: source,
                amount: (fee - used_gas * transaction.gas_price) as nat,
            };
            let closed = Session { steps: seq![taken, call, given], ..charged };
            &&& reason == call_outcome(charged, call).0
            &&& returned == (ReturnedView::Output { target, output: call_outcome(charged, call).1 })
            &&& used_gas == gas_used(ran)
            &&& used_gas * transaction.gas_price <= fee
            &&& apply_state ==> after.ledger == before.ledger.apply(proceeds(closed).0, true)
            &&& apply_state ==> after.events == before.events + proceeds(closed).1.map_values(
                |message: Message| EventView::<A>::Log(message),
            )
        },
{
    if result is Ok {
        let setting = before.setting(config, precompiles);
        let asked = Step::Call {
            caller: transaction.source,
            target,
            value: transaction.value,
            data: input,
            gas_limit: transaction.gas_limit as nat,
        };
        lemma_sessions(setting, transaction, asked);
    }
}

/// A create transaction: the fee is taken from the source, the executor is asked to create a
/// contract with the value, the init code and the whole gas limit of the transaction, and what is
/// left of the fee is given back. How it ends and how much gas it used is what the executor says of
/// that creation, and the address is that of the source and its nonce.
pub proof fn law_creation_is_made_as_asked<A>(
    before: ModuleView<A>,
    after: ModuleView<A>,
    config: RuntimeConfig,
    precompiles: Answers,
    transaction: TransactionView,
    init: Seq<u8>,
    apply_state: bool,
    result: Result<(ExitReason, ReturnedView, nat), Error>,
)
    requires
        before.executes(after, config, precompiles, transaction, apply_state, result),
        transaction.task == (Task::Create { init }),
    ensures
        result matches Ok((reason, returned, used_gas)) ==> {
            let source = transaction.source;
            let accounts = before.ledger.accounts;
            let nonce = if accounts.contains_key(source) {
                accounts[source].nonce
            } else {
                0nat
            };
            let fee = transaction.gas_price * (transaction.gas_limit as nat);
            let taken = Step::Withdraw { address: source, amount: fee };
            let creation = Step::Create {
                caller: source,
                value: transaction.value,
                init,
                gas_limit: transaction.gas_limit as nat,
            };
            let charged = Session {
                world: World {
                    surroundings: Surroundings {
                        gas_price: transaction.gas_price,
                        origin: source,
                        block: before.block,
                    },
                    contracts: before.ledger.contracts(),
                },
                config,
                gas_limit: transaction.gas_limit as nat,
                precompiles,
                steps: seq![taken],
            };
            let ran = Session { steps: seq![taken, creation], ..charged };
            let given = Step::Deposit {
                address: source,
                amount: (fee - used_gas * transaction.gas_price) as nat,
            };
            let closed = Session { steps: seq![taken, creation, given], ..charged };
            &&& reason == create_outcome(charged, creation)
            &&& returned == ReturnedView::Address(legacy_address(source, nonce))
            &&& used_gas == gas_used(ran)
            &&& used_gas * transaction.gas_price <= fee
            &&& apply_state ==> after.ledger == before.ledger.apply(proceeds(closed).0, true)
            &&& apply_state ==> after.events == before.events + proceeds(closed).1.map_values(
                |message: Message| EventView::<A>::Log(message),
            )
        },
{
    if result is Ok {
        let setting = before.setting(config, precompiles);
        let asked = Step::Create {
            caller: transaction.source,
            value: transaction.value,
            init,
            gas_limit: transaction.gas_limit as nat,
        };
        lemma_sessions(setting, transaction, asked);
    }
}

/// A create2 transaction: the fee is taken from the source, the executor is asked to create a
/// contract with the value, the init code, the salt and the whole gas limit of the transaction, and
/// what is left of the fee is given back. How it ends and how much gas it used is what the executor
/// says of that creation, and the address is the end of a hash of the source, the salt and the hash
/// of the init code.
pub proof fn law_salted_creation_is_made_as_asked<A>(
    before: ModuleView<A>,
    after: ModuleView<A>,
    config: RuntimeConfig,
    precompiles: Answers,
    transaction: TransactionView,
    init: Seq<u8>,
    salt: H256,
    apply_state: bool,
    result: Result<(ExitReason, ReturnedView, nat), Error>,
)
    requires
        before.executes(after, config, precompiles, transaction, apply_state, result),
        transaction.task == (Task::Create2 { init, salt }),
    ensures
        result matches Ok((reason, returned, used_gas)) ==> {
            let source = transaction.source;
            let fee = transaction.gas_price * (transaction.gas_limit as nat);
            let taken = Step::Withdraw { address: source, amount: fee };
            let creation = Step::Create2 {
                caller: source,
                value: transaction.value,
                init,
                salt,
                gas_limit: transaction.gas_limit as nat,
            };
            let charged = Session {
                world: World {
                    surroundings: Surroundings {
                        gas_price: transaction.gas_price,
                        origin: source,
                        block: before.block,
                    },
                    contracts: before.ledger.contracts(),
                },
                config,
                gas_limit: transaction.gas_limit as nat,
                precompiles,
                steps: seq![taken],
            };
            let ran = Session { steps: seq![taken, creation], ..charged };
            let given = Step::Deposit {
                address: source,
                amount: (fee - used_gas * transaction.gas_price) as nat,
            };
            let closed = Session { steps: seq![taken, creation, given], ..charged };
            let hashed = keccak256_of(
                seq![0xffu8] + source.0@ + salt.0@ + keccak256_of(init).0@,
            ).0@;
            &&& reason == create2_outcome(charged, creation)
            &&& returned matches ReturnedView::Address(address) && address.0@ == hashed.skip(12)
            &&& used_gas == gas_used(ran)
            &&& used_gas * transaction.gas_price <= fee
            &&& apply_state ==> after.ledger == before.ledger.apply(proceeds(closed).0, true)
            &&& apply_state ==> after.events == before.events + proceeds(closed).1.map_values(
                |message: Message| EventView::<A>::Log(message),
            )
        },
{
    if result is Ok {
        let setting = before.setting(config, precompiles);
        let asked = Step::Create2 {
            caller: transaction.source,
            value: transaction.value,
            init,
            salt,
            gas_limit: transaction.gas_limit as nat,
        };
        lemma_sessions(setting, transaction, asked);
        let source = transaction.source;
        let hashed = keccak256_of(
            seq![0xffu8] + source.0@ + salt.0@ + keccak256_of(init).0@,
        ).0@;
        let address = setting.exit(transaction).1->Address_0;
        assert(address.0@ =~= hashed.skip(12));
    }
}

/// What an execution leaves: one that is refused leaves everything as it was, as does one whose
/// state is not to be applied; and every execution leaves the block as it was.
pub proof fn law_only_an_applied_execution_leaves_anything<A>(
    before: ModuleView<A>,
    after: ModuleView<A>,
    config: RuntimeConfig,
    precompiles: Answers,
    transaction: TransactionView,
    apply_state: bool,
    result: Result<(ExitReason, ReturnedView, nat), Error>,
)
    requires
        before.executes(after, config, precompiles, transaction, apply_state, result),
    ensures
        result is Err || !apply_state ==> after == before,
        after.block == before.block,
{
}

/// An execution is refused just as the transaction is, and runs wherever it is accepted: where its
/// whole fee, and its value with the whole fee, fit in a word, its source owns them, and the nonce
/// is not given or is that of the source.
pub proof fn law_covered_execution_runs<A>(
    before: ModuleView<A>,
    after: ModuleView<A>,
    config: RuntimeConfig,
    precompiles: Answers,
    transaction: TransactionView,
    apply_state: bool,
    result: Result<(ExitReason, ReturnedView, nat), Error>,
)
    requires
        before.executes(after, config, precompiles, transaction, apply_state, result),
    ensures
        ({
            let most =
                0xffff_ffff_ffff_ffff_ffff_ffff_ffff_ffff_ffff_ffff_ffff_ffff_ffff_ffff_ffff_ffffnat;
            let accounts = before.ledger.accounts;
            let source = transaction.source;
            let (nonce, balance) = if accounts.contains_key(source) {
                (accounts[source].nonce, accounts[source].balance)
            } else {
                (0nat, 0nat)
            };
            let fee = transaction.gas_price * (transaction.gas_limit as nat);
            let payment = transaction.value + fee;
            &&& result is Ok <==> payment <= most && payment <= balance && (transaction.nonce
                is None || transaction.nonce == Some(nonce))
            &&& result matches Err(error) ==> error == if fee > most {
                Error::FeeOverflow
            } else if payment > most {
                Error::PaymentOverflow
            } else if payment > balance {
                Error::BalanceLow
            } else {
                Error::InvalidNonce
            }
        }),
{
}

/// A call on behalf of a source makes a transaction of just the given parts, under a configuration
/// and with answers that the chain may give; and its result says how the call ended, what it
/// returned and how much gas it used, or why it was refused.
pub proof fn law_call_takes_its_parts<T: Trait>(
    before: ModuleView<T::AccountId>,
    after: ModuleView<T::AccountId>,
    source: H160,
    target: H160,
    input: Seq<u8>,
    value: U256,
    gas_limit: u32,
    gas_price: U256,
    nonce: Option<U256>,
    apply_state: bool,
    result: Result<(ExitReason, Vec<u8>, U256), Error>,
)
    requires
        runs::<T>(
            before,
            after,
            TransactionView::of(
                source,
                Task::Call { target, input },
                value,
                gas_limit,
                gas_price,
                nonce,
            ),
            apply_state,
            called_result(target, result),
        ),
    ensures
        exists|config: evm::Config, answers: Answers| #[trigger]
            call_ensures(T::config, (), config) && #[trigger] may_give::<T::Precompiles>(answers)
                && before.executes(
                after,
                config_of(config),
                answers,
                TransactionView {
                    source,
                    task: Task::Call { target, input },
                    value: value@,
                    gas_limit,
                    gas_price: gas_price@,
                    nonce: match nonce {
                        Some(nonce) => Some(nonce@),
                        None => None,
                    },
                },
                apply_state,
                match result {
                    Ok((reason, output, used_gas)) => Ok(
                        (
                            reason,
                            ReturnedView::Output { target, output: output@ },
                            used_gas@,
                        ),
                    ),
                    Err(error) => Err(error),
                },
            ),
{
}

/// A creation on behalf of a source makes a transaction of just the given parts, whatever the
/// creation is, under a configuration and with answers that the chain may give; and its result says
/// how the creation ended, the address and how much gas it used, or why it was refused.
pub proof fn law_creation_takes_its_parts<T: Trait>(
    before: ModuleView<T::AccountId>,
    after: ModuleView<T::AccountId>,
    source: H160,
    task: Task,
    value: U256,
    gas_limit: u32,
    gas_price: U256,
    nonce: Option<U256>,
    apply_state: bool,
    result: Result<(ExitReason, H160, U256), Error>,
)
    requires
        runs::<T>(
            before,
            after,
            TransactionView::of(source, task, value, gas_limit, gas_price, nonce),
            apply_state,
            created_result(result),
        ),
    ensures
        exists|config: evm::Config, answers: Answers| #[trigger]
            call_ensures(T::config, (), config) && #[trigger] may_give::<T::Precompiles>(answers)
                && before.executes(
                after,
                config_of(config),
                answers,
                TransactionView {
                    source,
                    task,
                    value: value@,
                    gas_limit,
                    gas_price: gas_price@,
                    nonce: match nonce {
                        Some(nonce) => Some(nonce@),
                        None => None,
                    },
                },
                apply_state,
                match result {
                    Ok((reason, address, used_gas)) => Ok(
                        (reason, ReturnedView::Address(address), used_gas@),
                    ),
                    Err(error) => Err(error),
                },
            ),
{
}

/// What a transaction, an operation, and what is handed back say is what their parts say.
pub proof fn law_transactions_say_their_parts(
    transaction: Transaction,
    returned: Returned,
    result: Result<(ExitReason, Returned, U256), Error>,
    execution: Execution,
)
    ensures
        transaction@ == (TransactionView {
            source: transaction.source,
            task: match transaction.operation {
                Operation::Call { target, input } => Task::Call { target, input: input@ },
                Operation::Create { init } => Task::Create { init: init@ },
                Operation::Create2 { init, salt } => Task::Create2 { init: init@, salt },
            },
            value: transaction.value@,
            gas_limit: transaction.gas_limit,
            gas_price: transaction.gas_price@,
            nonce: match transaction.nonce {
                Some(nonce) => Some(nonce@),
                None => None,
            },
        }),
        returned@ == match returned {
            Returned::Output { target, output } => ReturnedView::Output { target, output: output@ },
            Returned::Address(address) => ReturnedView::Address(address),
        },
        result_of(result) == match result {
            Ok((reason, returned, used_gas)) => Ok::<(ExitReason, ReturnedView, nat), Error>(
                (reason, returned@, used_gas@),
            ),
            Err(error) => Err::<(ExitReason, ReturnedView, nat), Error>(error),
        },
        execution@.reason == execution.reason,
        execution@.returned == execution.returned@,
        execution@.used_gas == execution.used_gas@,
        execution@.changes.len() == execution.values@.len(),
        forall|i: int|
            0 <= i < execution.values@.len() ==> (#[trigger] execution@.changes[i])
                == execution.values@[i]@,
        execution@.messages.len() == execution.logs@.len(),
        forall|i: int|
            0 <= i < execution.logs@.len() ==> (#[trigger] execution@.messages[i])
                == execution.logs@[i]@,
{
}

/// What comes of a transaction that is not refused is what the executor says of its sessions,
/// whatever the transaction does and whatever gas costs: how it ends and what it hands back, the
/// gas that it has used once the transaction has run, and, once the rest of the fee has been given
/// back, the changes that it asks for and every log that it has kept.
pub proof fn law_outcome_is_what_the_executor_says(
    setting: Setting,
    transaction: TransactionView,
    asked: Step,
    opened: Session,
)
    requires
        setting.accounts_for(transaction),
        asked == match transaction.task {
            Task::Call { target, input } => Step::Call {
                caller: transaction.source,
                target,
                value: transaction.value,
                data: input,
                gas_limit: transaction.gas_limit as nat,
            },
            Task::Create { init } => Step::Create {
                caller: transaction.source,
                value: transaction.value,
                init,
                gas_limit: transaction.gas_limit as nat,
            },
            Task::Create2 { init, salt } => Step::Create2 {
                caller: transaction.source,
                value: transaction.value,
                init,
                salt,
                gas_limit: transaction.gas_limit as nat,
            },
        },
        opened == (Session {
            world: World {
                surroundings: Surroundings {
                    gas_price: transaction.gas_price,
                    origin: transaction.source,
                    block: setting.block,
                },
                contracts: setting.ledger.contracts(),
            },
            config: setting.config,
            gas_limit: transaction.gas_limit as nat,
            precompiles: setting.precompiles,
            steps: Seq::empty(),
        }),
    ensures
        setting.outcome(transaction) matches Ok(outcome) ==> {
            let price = transaction.gas_price;
            let fee = price * (transaction.gas_limit as nat);
            let taken = Step::Withdraw { address: transaction.source, amount: fee };
            let charged = Session { steps: seq![taken], ..opened };
            let ran = Session { steps: seq![taken, asked], ..opened };
            let given = Step::Deposit {
                address: transaction.source,
                amount: (fee - gas_used(ran) * price) as nat,
            };
            let closed = Session { steps: seq![taken, asked, given], ..opened };
            &&& outcome.reason == match transaction.task {
                Task::Call { .. } => call_outcome(charged, asked).0,
                Task::Create { .. } => create_outcome(charged, asked),
                Task::Create2 { .. } => create2_outcome(charged, asked),
            }
            &&& outcome.used_gas == gas_used(ran)
            &&& outcome.used_gas <= transaction.gas_limit
            &&& outcome.changes == proceeds(closed).0
            &&& outcome.messages == proceeds(closed).1
        },
{
    if setting.outcome(transaction) is Ok {
        lemma_sessions(setting, transaction, asked);
    }
}

/// What a block says is what its parts say.
pub proof fn law_blocks_say_their_parts(block: Block)
    ensures
        block@ == (BlockView {
            chain_id: block.chain_id.id,
            hashes: block.hashes@,
            number: block.number@,
            coinbase: block.coinbase,
            timestamp: block.timestamp@,
            difficulty: block.difficulty@,
            gas_limit: block.gas_limit@,
        }),
{
}

/// A transaction, unless it is refused, can run if the costs fit, and either the balances of all
/// accounts taken together fit in a word and no nonce is within the gas limit of the largest word,
/// or it calls an address without code, the nonce of its source can be counted up, and the target
/// can take the value.
pub proof fn law_range_of_a_transaction(
    transaction: TransactionView,
    ledger: Ledger,
    config: RuntimeConfig,
)
    ensures
        ({
            let most =
                0xffff_ffff_ffff_ffff_ffff_ffff_ffff_ffff_ffff_ffff_ffff_ffff_ffff_ffff_ffff_ffffnat;
            let source = transaction.source;
            let gas_limit = transaction.gas_limit as nat;
            let data_len = match transaction.task {
                Task::Call { input, .. } => input.len(),
                Task::Create { init } => init.len(),
                Task::Create2 { init, .. } => init.len(),
            };
            let words_fit = {
                &&& supply(ledger.accounts) <= most
                &&& forall|address: H160| #[trigger]
                    ledger.accounts.contains_key(address) ==> ledger.accounts[address].nonce
                        + gas_limit < most
            };
            let only_moves = transaction.task matches Task::Call { target, .. } && {
                let code_len = if ledger.codes.contains_key(target) {
                    ledger.codes[target].len()
                } else {
                    0
                };
                let nonce = if ledger.accounts.contains_key(source) {
                    ledger.accounts[source].nonce
                } else {
                    0nat
                };
                let balance = if ledger.accounts.contains_key(target) {
                    ledger.accounts[target].balance
                } else {
                    0nat
                };
                &&& code_len == 0
                &&& nonce < most
                &&& target == source || balance + transaction.value <= most
            };
            transaction.stays_in_range(ledger, config) <==> transaction.charge(
                ledger.account(source),
            ) is Err || (config.costs_fit(gas_limit, data_len) && (words_fit || only_moves))
        }),
{
}

/// What the source has paid for a transaction that fails is the price of the used gas, and at its
/// address nothing but the balance has changed, and the nonce by one if it was counted up.
pub proof fn law_payment_is_the_price_of_the_gas(
    transaction: TransactionView,
    ledger: Ledger,
    used_gas: nat,
    counted: bool,
)
    requires
        used_gas * transaction.gas_price <= ledger.account(transaction.source).balance,
    ensures
        ({
            let source = transaction.source;
            let before = ledger.account(source);
            let after = transaction.paid(ledger, used_gas, counted);
            &&& after.account(source).balance + used_gas * transaction.gas_price == before.balance
            &&& after.account(source).nonce == before.nonce + if counted {
                1nat
            } else {
                0nat
            }
            &&& after.code(source) == ledger.code(source)
        }),
{
    let source = transaction.source;
    assert(transaction.paid(ledger, used_gas, counted).code(source) =~= ledger.code(source));
}

/// How much of the fee is given back: what the gas that was not used costs.
pub proof fn law_refund_is_the_price_of_unused_gas(transaction: TransactionView, used_gas: nat)
    requires
        used_gas <= transaction.gas_limit,
    ensures
        transaction.refund(used_gas) == transaction.gas_price * (transaction.gas_limit - used_gas),
{
    let price = transaction.gas_price;
    let limit = transaction.gas_limit as nat;
    assert(price * (limit - used_gas) == price * limit - used_gas * price) by (nonlinear_arith)
        requires
            used_gas <= limit,
    ;
    assert(price * (limit - used_gas) >= 0) by (nonlinear_arith)
        requires
            used_gas <= limit,
            0 <= price,
    ;
}

/// The bytes of a number are added one after the other, the most significant first, and a number
/// below 128 is its own encoding, as other strings are after their length.
pub proof fn law_numbers_are_encoded(number: nat, digit: u8, bytes: Seq<u8>)
    requires
        number > 0 || digit > 0,
        bytes.len() <= 55,
    ensures
        big_endian(0) == Seq::<u8>::empty(),
        big_endian(256 * number + digit as nat) == big_endian(number).push(digit),
        bytes.len() == 1 && bytes[0] < 128 ==> rlp_string(bytes) == bytes,
        bytes.len() != 1 || bytes[0] >= 128 ==> rlp_string(bytes) == seq![
            (128 + bytes.len()) as u8,
        ] + bytes,
{
    let whole = 256 * number + digit as nat;
    assert(whole / 256 == number);
    assert(whole % 256 == digit);
}

/// The address of a contract from its creator and the creator's nonce is the last 20 bytes of the
/// hash of a list mark, the creator after the mark of 20 bytes, and the encoded nonce.
pub proof fn law_legacy_address_is_the_end_of_a_hash(caller: H160, nonce: nat)
    ensures
        ({
            let encoded = rlp_string(big_endian(nonce));
            let list = seq![(0xd5 + encoded.len()) as u8, 0x94u8] + caller.0@ + encoded;
            legacy_address(caller, nonce).0@ == keccak256_of(list).0@.skip(12)
        }),
{
    let encoded = rlp_string(big_endian(nonce));
    let items = rlp_string(caller.0@) + encoded;
    let list = seq![(0xd5 + encoded.len()) as u8, 0x94u8] + caller.0@ + encoded;
    assert(rlp_string(caller.0@) == seq![0x94u8] + caller.0@);
    assert(items.len() == 21 + encoded.len());
    assert(seq![(0xc0 + items.len()) as u8] + items =~= list);
    assert(legacy_address(caller, nonce).0@ =~= keccak256_of(list).0@.skip(12));
}

/// What a call transaction costs before anything runs: the price of a call transaction, and that of
/// each byte of its input, which differs for zeros.
pub proof fn law_call_cost_counts_every_byte(config: RuntimeConfig, input: Seq<u8>, byte: u8)
    ensures
        config.call_cost(Seq::empty()) == config.gas_transaction_call,
        config.call_cost(input.push(byte)) == config.call_cost(input) + if byte == 0 {
            config.gas_transaction_zero_data
        } else {
            config.gas_transaction_non_zero_data
        },
{
    let is_zero = |byte: u8| byte == 0;
    let more = input.push(byte);
    reveal(Seq::filter);
    assert(more.drop_last() =~= input);
    assert(Seq::<u8>::empty().filter(is_zero).len() == 0);
    input.lemma_filter_len_push(is_zero, byte);
    let zeros = input.filter(is_zero).len() as int;
    let others = input.len() - zeros;
    let zero_price = config.gas_transaction_zero_data as int;
    let other_price = config.gas_transaction_non_zero_data as int;
    assert(zeros <= input.len());
    assert((zeros + 1) * zero_price == zeros * zero_price + zero_price) by (nonlinear_arith);
    assert((others + 1) * other_price == others * other_price + other_price) by (nonlinear_arith);
    assert(zeros * zero_price >= 0 && others * other_price >= 0) by (nonlinear_arith)
        requires
            zeros >= 0,
            others >= 0,
            zero_price >= 0,
            other_price >= 0,
    ;
}

} // verus!
