//! The EVM module: the requests that a chain makes of it, and the events that it leaves.

use vstd::prelude::*;
use vstd::pervasive::unreached;
use evm::ExitReason;
use crate::account_id::{ConvertAccountId, ModuleAccount, ModuleId};
use crate::execution::{
    execute, Error, Operation, Outcome, Returned, ReturnedView, Setting, Task, Transaction,
    TransactionView,
};
use crate::config::{config_of, istanbul, istanbul_config, RuntimeConfig};
use crate::executor::{
    lemma_some_answers, may_give, succeeded, Answers, Block, BlockView, Precompiles,
};
use crate::primitives::{u256_max, H160, H256, U256};
use crate::state::{changes_of, messages_of, Account, Apply, Basic, Ledger, Log, Message, State};

verus! {

/// Trait that outputs the current transaction gas price.
pub trait FeeCalculator {
    /// Return the minimal required gas price.
    fn min_gas_price() -> U256;
}

impl FeeCalculator for () {
    fn min_gas_price() -> (r: U256)
        ensures
            r@ == 0,
    {
        U256::zero()
    }
}

/// A value that a chain is configured with.
pub trait Get<V> {
    /// The value.
    ///
    /// An implementation that Verus does not read may leave this as it is.
    open spec fn value() -> V {
        arbitrary()
    }

    /// Return the value.
    fn get() -> (r: V)
        ensures
            r == Self::value(),
    ;
}

/// EVM module trait
pub trait Trait {
    /// Account ids of the chain.
    type AccountId: ModuleAccount;

    /// The EVM's module id
    type ModuleId: Get<ModuleId>;

    /// Calculator for current gas price.
    type FeeCalculator: FeeCalculator;

    /// Convert account ID to H160;
    type ConvertAccountId: ConvertAccountId<Self::AccountId>;

    /// Precompiles associated with this EVM engine.
    type Precompiles: Precompiles;

    /// EVM config used in the module.
    fn config() -> (r: evm::Config)
        default_ensures
            config_of(r) == istanbul_config(),
    {
        istanbul()
    }
}

/// Who a request comes from.
#[derive(Debug)]
pub enum Origin<A> {
    /// The chain itself.
    Root,
    /// An account that has signed the request.
    Signed(A),
    /// Nobody.
    Unsigned,
}

/// Why a request fails.
#[derive(Clone, Copy, Debug, PartialEq, Eq, Structural)]
pub enum DispatchError {
    /// The request does not come from an account that has signed it.
    BadOrigin,
    /// The module refuses the request.
    Module(Error),
}

/// The account that has signed a request.
pub fn ensure_signed<A>(origin: Origin<A>) -> (r: Result<A, DispatchError>)
    ensures
        r == match origin {
            Origin::Signed(account) => Ok::<A, DispatchError>(account),
            _ => Err::<A, DispatchError>(DispatchError::BadOrigin),
        },
{
    match origin {
        Origin::Signed(account) => Ok(account),
        _ => Err(DispatchError::BadOrigin),
    }
}

/// EVM events
#[derive(Clone, Debug, PartialEq, Eq)]
pub enum Event<A> {
    /// Ethereum events from contracts.
    Log(Log),
    /// A contract has been created at given [address].
    Created(H160),
    /// A [contract] was attempted to be created, but the execution failed.
    CreatedFailed(H160),
    /// A [contract] has been executed successfully with states applied.
    Executed(H160),
    /// A [contract] has been executed with errors. States are reverted with only gas fees applied.
    ExecutedFailed(H160),
    /// A deposit has been made at a given address. [sender, address, value]
    BalanceDeposit(A, H160, U256),
    /// A withdrawal has been made from a given address. [sender, address, value]
    BalanceWithdraw(A, H160, U256),
}

/// What an event says.
pub enum EventView<A> {
    /// Ethereum events from contracts.
    Log(Message),
    /// A contract has been created at given [address].
    Created(H160),
    /// A [contract] was attempted to be created, but the execution failed.
    CreatedFailed(H160),
    /// A [contract] has been executed successfully with states applied.
    Executed(H160),
    /// A [contract] has been executed with errors. States are reverted with only gas fees applied.
    ExecutedFailed(H160),
    /// A deposit has been made at a given address. [sender, address, value]
    BalanceDeposit(A, H160, nat),
    /// A withdrawal has been made from a given address. [sender, address, value]
    BalanceWithdraw(A, H160, nat),
}

impl<A> View for Event<A> {
    type V = EventView<A>;

    open spec fn view(&self) -> EventView<A> {
        match *self {
            Event::Log(log) => EventView::Log(log@),
            Event::Created(address) => EventView::Created(address),
            Event::CreatedFailed(address) => EventView::CreatedFailed(address),
            Event::Executed(address) => EventView::Executed(address),
            Event::ExecutedFailed(address) => EventView::ExecutedFailed(address),
            Event::BalanceDeposit(account, address, value) => EventView::BalanceDeposit(
                account,
                address,
                value@,
            ),
            Event::BalanceWithdraw(account, address, value) => EventView::BalanceWithdraw(
                account,
                address,
                value@,
            ),
        }
    }
}

/// What a list of events says.
pub open spec fn events_of<A>(events: Seq<Event<A>>) -> Seq<EventView<A>> {
    events.map_values(|event: Event<A>| event@)
}

/// The events that a list of logs gives.
pub open spec fn log_events<A>(messages: Seq<Message>) -> Seq<EventView<A>> {
    messages.map_values(|message: Message| EventView::<A>::Log(message))
}

/// The event that tells how a transaction has ended.
pub open spec fn completion<A>(success: bool, returned: ReturnedView) -> EventView<A> {
    match (returned, success) {
        (ReturnedView::Output { target, .. }, true) => EventView::Executed(target),
        (ReturnedView::Output { target, .. }, false) => EventView::ExecutedFailed(target),
        (ReturnedView::Address(address), true) => EventView::Created(address),
        (ReturnedView::Address(address), false) => EventView::CreatedFailed(address),
    }
}

/// Make the event that tells how a transaction has ended.
pub fn completion_event<A>(success: bool, returned: &Returned) -> (r: Event<A>)
    ensures
        r@ == completion::<A>(success, returned@),
{
    match returned {
        Returned::Output { target, .. } => if success {
            Event::Executed(*target)
        } else {
            Event::ExecutedFailed(*target)
        },
        Returned::Address(address) => if success {
            Event::Created(*address)
        } else {
            Event::CreatedFailed(*address)
        },
    }
}

/// The contents of the module.
pub struct ModuleView<A> {
    /// The store.
    pub ledger: Ledger,
    /// The block.
    pub block: BlockView,
    /// The events, the earliest first.
    pub events: Seq<EventView<A>>,
}

impl<A> ModuleView<A> {
    /// What a transaction runs on.
    pub open spec fn setting(self, config: RuntimeConfig, precompiles: Answers) -> Setting {
        Setting { ledger: self.ledger, block: self.block, config, precompiles }
    }

    /// The module once the changes of a transaction have been made and its logs have been left as
    /// events.
    pub open spec fn applied(self, outcome: Outcome) -> ModuleView<A> {
        ModuleView {
            ledger: self.ledger.apply(outcome.changes, true),
            events: self.events + log_events(outcome.messages),
            ..self
        }
    }

    /// The module with one more event.
    pub open spec fn with_event(self, event: EventView<A>) -> ModuleView<A> {
        ModuleView { events: self.events.push(event), ..self }
    }

    /// The module once a deposit has been credited.
    pub open spec fn credited(self, sender: A, address: H160, value: nat) -> ModuleView<A> {
        let account = self.ledger.account(address);
        ModuleView {
            ledger: self.ledger.put_account(
                address,
                Basic { balance: account.balance + value, ..account },
            ),
            ..self
        }.with_event(EventView::BalanceDeposit(sender, address, value))
    }

    /// The module once a withdrawal has left an account at its address.
    pub open spec fn debited(
        self,
        sender: A,
        address: H160,
        account: Basic,
        value: nat,
    ) -> ModuleView<A> {
        ModuleView {
            ledger: self.ledger.put_account(address, account),
            ..self
        }.with_event(EventView::BalanceWithdraw(sender, address, value))
    }

    /// Whether a transaction leads from this module to `after`, and gives `result`, and is
    /// accounted for.
    pub open spec fn executes(
        self,
        after: ModuleView<A>,
        config: RuntimeConfig,
        precompiles: Answers,
        transaction: TransactionView,
        apply_state: bool,
        result: Result<(ExitReason, ReturnedView, nat), Error>,
    ) -> bool {
        match self.setting(config, precompiles).outcome(transaction) {
            Err(error) => {
                &&& result == Err::<(ExitReason, ReturnedView, nat), Error>(error)
                &&& after == self
            },
            Ok(outcome) => {
                &&& result == Ok::<(ExitReason, ReturnedView, nat), Error>(
                    (outcome.reason, outcome.returned, outcome.used_gas),
                )
                &&& after == if apply_state {
                    self.applied(outcome)
                } else {
                    self
                }
                &&& self.setting(config, precompiles).accounts_for(transaction)
            },
        }
    }

    /// Whether a request for a transaction leads from this module to `after`, and gives `result`,
    /// and the transaction is accounted for. The transaction comes from `source`, if an account
    /// has signed the request.
    pub open spec fn dispatches(
        self,
        after: ModuleView<A>,
        min_gas_price: U256,
        config: RuntimeConfig,
        precompiles: Answers,
        source: Option<H160>,
        task: Task,
        value: U256,
        gas_limit: u32,
        gas_price: U256,
        nonce: Option<U256>,
        result: Result<(), DispatchError>,
    ) -> bool {
        match (gas_price@ < min_gas_price@, source) {
            (true, _) => {
                &&& result == Err::<(), DispatchError>(DispatchError::Module(Error::GasPriceTooLow))
                &&& after == self
            },
            (false, None) => {
                &&& result == Err::<(), DispatchError>(DispatchError::BadOrigin)
                &&& after == self
            },
            (false, Some(source)) => {
                let transaction = TransactionView::of(
                    source,
                    task,
                    value,
                    gas_limit,
                    gas_price,
                    nonce,
                );
                match self.setting(config, precompiles).outcome(transaction) {
                    Err(error) => {
                        &&& result == Err::<(), DispatchError>(DispatchError::Module(error))
                        &&& after == self
                    },
                    Ok(outcome) => {
                        &&& result == Ok::<(), DispatchError>(())
                        &&& after == self.applied(outcome).with_event(
                            completion(succeeded(outcome.reason), outcome.returned),
                        )
                        &&& self.setting(config, precompiles).accounts_for(transaction)
                    },
                }
            },
        }
    }
}

/// The account of the module with the id that the chain is configured with.
pub open spec fn module_account_of<T: Trait>() -> T::AccountId {
    T::AccountId::module_account(<T::ModuleId as Get<ModuleId>>::value())
}

/// The address that a request's transaction comes from, if an account has signed the request.
pub open spec fn source_of<T: Trait>(origin: Origin<T::AccountId>) -> Option<H160> {
    match origin {
        Origin::Signed(account) => Some(T::ConvertAccountId::address(account)),
        _ => None,
    }
}

/// Whether the transaction of a request, if it comes to run, can run on a store under a
/// configuration without any number leaving its range.
pub open spec fn request_stays_in_range(
    ledger: Ledger,
    config: RuntimeConfig,
    source: Option<H160>,
    task: Task,
    value: U256,
    gas_limit: u32,
    gas_price: U256,
    nonce: Option<U256>,
) -> bool {
    source matches Some(source) ==> TransactionView::of(
        source,
        task,
        value,
        gas_limit,
        gas_price,
        nonce,
    ).stays_in_range(ledger, config)
}

/// Whether a transaction can run on a store, under whatever configuration the chain gives,
/// without any number leaving its range.
pub open spec fn can_run<T: Trait>(ledger: Ledger, transaction: TransactionView) -> bool {
    forall|config: evm::Config| #[trigger]
        call_ensures(T::config, (), config) ==> transaction.stays_in_range(
            ledger,
            config_of(config),
        )
}

/// Whether a transaction leads from one module to another, and gives `result`, under a
/// configuration and with answers of precompiles that the chain may give.
pub open spec fn runs<T: Trait>(
    before: ModuleView<T::AccountId>,
    after: ModuleView<T::AccountId>,
    transaction: TransactionView,
    apply_state: bool,
    result: Result<(ExitReason, ReturnedView, nat), Error>,
) -> bool {
    exists|config: evm::Config, answers: Answers| #[trigger]
        call_ensures(T::config, (), config) && #[trigger] may_give::<T::Precompiles>(answers)
            && before.executes(
            after,
            config_of(config),
            answers,
            transaction,
            apply_state,
            result,
        )
}

/// Whether a request can be made on a store, under whatever minimal gas price and configuration
/// the chain gives, without any number leaving its range.
pub open spec fn can_request<T: Trait>(
    ledger: Ledger,
    origin: Origin<T::AccountId>,
    task: Task,
    value: U256,
    gas_limit: u32,
    gas_price: U256,
    nonce: Option<U256>,
) -> bool {
    forall|min_gas_price: U256, config: evm::Config| #[trigger]
        call_ensures(
            <T::FeeCalculator as FeeCalculator>::min_gas_price,
            (),
            min_gas_price,
        ) && #[trigger] call_ensures(T::config, (), config) && gas_price@ >= min_gas_price@
            ==> request_stays_in_range(
            ledger,
            config_of(config),
            source_of::<T>(origin),
            task,
            value,
            gas_limit,
            gas_price,
            nonce,
        )
}

/// Whether a request leads from one module to another, and gives `result`, under a minimal gas
/// price and a configuration, and with answers of precompiles, that the chain may give.
pub open spec fn requests<T: Trait>(
    before: ModuleView<T::AccountId>,
    after: ModuleView<T::AccountId>,
    origin: Origin<T::AccountId>,
    task: Task,
    value: U256,
    gas_limit: u32,
    gas_price: U256,
    nonce: Option<U256>,
    result: Result<(), DispatchError>,
) -> bool {
    exists|min_gas_price: U256, config: evm::Config, answers: Answers| #[trigger]
        call_ensures(
            <T::FeeCalculator as FeeCalculator>::min_gas_price,
            (),
            min_gas_price,
        ) && #[trigger] call_ensures(T::config, (), config) && #[trigger] may_give::<
            T::Precompiles,
        >(answers) && before.dispatches(
            after,
            min_gas_price,
            config_of(config),
            answers,
            source_of::<T>(origin),
            task,
            value,
            gas_limit,
            gas_price,
            nonce,
            result,
        )
}

/// How much of a block's weight a transaction takes: the gas limit times the price of gas, each
/// as far as it fits.
pub open spec fn weight_of(gas_price: nat, gas_limit: u32) -> nat {
    let price = if gas_price <= u64::MAX {
        gas_price
    } else {
        u64::MAX as nat
    };
    if price * (gas_limit as nat) <= u64::MAX {
        price * (gas_limit as nat)
    } else {
        u64::MAX as nat
    }
}

/// Compute how much of a block's weight a transaction takes.
pub fn weight(gas_price: U256, gas_limit: u32) -> (r: u64)
    ensures
        r == weight_of(gas_price@, gas_limit),
{
    match gas_price.saturated_into_u64().checked_mul(gas_limit as u64) {
        Some(weight) => weight,
        None => u64::MAX,
    }
}

/// A deposit that waits for the currency to be taken from its sender.
#[derive(Debug)]
pub struct PendingDeposit<A> {
    /// The account whose currency is to be taken.
    pub sender: A,
    /// The account of the module, which the currency is to be given to.
    pub module_account: A,
    /// The address that is to be credited.
    pub address: H160,
    /// How much.
    pub value: U256,
}

/// A withdrawal that waits for the currency to be taken from the account of the module.
#[derive(Debug)]
pub struct PendingWithdrawal<A> {
    /// The account that the currency is to be given to.
    pub sender: A,
    /// The account of the module, whose currency is to be taken.
    pub module_account: A,
    /// The address that is to be debited.
    pub address: H160,
    /// What the account at the address is to be.
    pub account: Account,
    /// How much.
    pub value: U256,
}

/// The result of an execution, by what it says.
pub open spec fn result_of(result: Result<(ExitReason, Returned, U256), Error>) -> Result<
    (ExitReason, ReturnedView, nat),
    Error,
> {
    match result {
        Ok((reason, returned, used_gas)) => Ok((reason, returned@, used_gas@)),
        Err(error) => Err(error),
    }
}

/// The EVM module.
pub struct Module<T: Trait> {
    /// The store.
    pub state: State,
    /// The block that requests are made in.
    pub block: Block,
    /// The events that the module has left, the earliest first.
    pub events: Vec<Event<T::AccountId>>,
}

impl<T: Trait> View for Module<T> {
    type V = ModuleView<T::AccountId>;

    open spec fn view(&self) -> ModuleView<T::AccountId> {
        ModuleView {
            ledger: self.state@,
            block: self.block@,
            events: events_of(self.events@),
        }
    }
}

impl<T: Trait> Module<T> {
    /// A module that nothing has been written to.
    pub fn new(block: Block) -> (r: Self)
        ensures
            r@ == (ModuleView::<T::AccountId> {
                ledger: Ledger::empty(),
                block: block@,
                events: Seq::empty(),
            }),
    {
        let r = Module { state: State::new(), block, events: Vec::new() };
        assert(events_of(r.events@) =~= Seq::empty());
        r
    }

    /// The account ID of the EVM module.
    ///
    /// This actually does computation. If you need to keep using it, then make sure you cache the
    /// value and only call this once.
    pub fn account_id() -> (r: T::AccountId)
        ensures
            r == module_account_of::<T>(),
    {
        let id = T::ModuleId::get();
        T::AccountId::from_module_id(&id)
    }

    /// Leave an event.
    fn deposit_event(&mut self, event: Event<T::AccountId>)
        ensures
            final(self)@ == old(self)@.with_event(event@),
    {
        let ghost before = self.events@;
        self.events.push(event);
        assert(events_of(self.events@) =~= events_of(before).push(event@));
    }

    /// Make the changes of an execution, and leave its logs as events.
    pub fn apply(&mut self, values: &Vec<Apply>, logs: Vec<Log>)
        ensures
            final(self)@ == (ModuleView {
                ledger: old(self)@.ledger.apply(changes_of(values@), true),
                events: old(self)@.events + log_events(messages_of(logs@)),
                ..old(self)@
            }),
    {
        self.state.apply(values, true);
        let ghost middle = self@;
        let ghost messages = messages_of(logs@);
        assert(middle.events =~= middle.events + log_events(messages.take(0)));
        for log in iter: logs
            invariant
                iter.seq() == logs@,
                messages == messages_of(logs@),
                self@ == (ModuleView {
                    events: middle.events + log_events(messages.take(iter.index())),
                    ..middle
                }),
        {
            self.deposit_event(Event::Log(log));
            assert(middle.events + log_events(messages.take(iter.index() + 1))
                =~= (middle.events + log_events(messages.take(iter.index()))).push(
                EventView::Log(log@),
            ));
        }
        assert(messages.take(messages.len() as int) =~= messages);
    }

    /// Execute an EVM operation under the given configuration.
    pub fn execute_evm(
        &mut self,
        config: &evm::Config,
        transaction: Transaction,
        apply_state: bool,
    ) -> (r: Result<(ExitReason, Returned, U256), Error>)
        requires
            transaction@.stays_in_range(old(self)@.ledger, config_of(*config)),
        ensures
            exists|answers: Answers| #[trigger]
                may_give::<T::Precompiles>(answers) && old(self)@.executes(
                    final(self)@,
                    config_of(*config),
                    answers,
                    transaction@,
                    apply_state,
                    result_of(r),
                ),
    {
        let execution = match execute::<T::Precompiles>(
            &self.state,
            &self.block,
            config,
            transaction,
        ) {
            Ok(execution) => execution,
            Err(error) => {
                return Err(error);
            },
        };
        if apply_state {
            self.apply(&execution.values, execution.logs);
        }
        Ok((execution.reason, execution.returned, execution.used_gas))
    }

    /// Execute an EVM operation, unless a number might leave its range.
    pub fn try_execute(&mut self, transaction: Transaction, apply_state: bool) -> (r: Option<
        Result<(ExitReason, Returned, U256), Error>,
    >)
        ensures
            exists|config: evm::Config| #[trigger]
                call_ensures(T::config, (), config) && {
                    &&& r is Some <==> transaction@.stays_in_range(
                        old(self)@.ledger,
                        config_of(config),
                    )
                    &&& match r {
                        Some(result) => exists|answers: Answers| #[trigger]
                            may_give::<T::Precompiles>(answers) && old(self)@.executes(
                                final(self)@,
                                config_of(config),
                                answers,
                                transaction@,
                                apply_state,
                                result_of(result),
                            ),
                        None => final(self)@ == old(self)@,
                    }
                },
    {
        let config = T::config();
        if !transaction.stays_in_range(&self.state, &config) {
            return None;
        }
        Some(self.execute_evm(&config, transaction, apply_state))
    }

    /// Execute a create transaction on behalf of given sender.
    pub fn execute_create(
        &mut self,
        source: H160,
        init: Vec<u8>,
        value: U256,
        gas_limit: u32,
        gas_price: U256,
        nonce: Option<U256>,
        apply_state: bool,
    ) -> (r: Result<(ExitReason, H160, U256), Error>)
        requires
            can_run::<T>(
                old(self)@.ledger,
                TransactionView::of(
                    source,
                    Task::Create { init: init@ },
                    value,
                    gas_limit,
                    gas_price,
                    nonce,
                ),
            ),
        ensures
            runs::<T>(
                old(self)@,
                final(self)@,
                TransactionView::of(
                    source,
                    Task::Create { init: init@ },
                    value,
                    gas_limit,
                    gas_price,
                    nonce,
                ),
                apply_state,
                created_result(r),
            ),
    {
        let config = T::config();
        let operation = Operation::Create { init };
        let transaction = Transaction { source, operation, value, gas_limit, gas_price, nonce };
        match self.execute_evm(&config, transaction, apply_state) {
            Ok((reason, Returned::Address(address), used_gas)) => Ok((reason, address, used_gas)),
            Ok((_, Returned::Output { .. }, _)) => unreached(),
            Err(error) => Err(error),
        }
    }

    /// Execute a create2 transaction on behalf of a given sender.
    pub fn execute_create2(
        &mut self,
        source: H160,
        init: Vec<u8>,
        salt: H256,
        value: U256,
        gas_limit: u32,
        gas_price: U256,
        nonce: Option<U256>,
        apply_state: bool,
    ) -> (r: Result<(ExitReason, H160, U256), Error>)
        requires
            can_run::<T>(
                old(self)@.ledger,
                TransactionView::of(
                    source,
                    Task::Create2 { init: init@, salt },
                    value,
                    gas_limit,
                    gas_price,
                    nonce,
                ),
            ),
        ensures
            runs::<T>(
                old(self)@,
                final(self)@,
                TransactionView::of(
                    source,
                    Task::Create2 { init: init@, salt },
                    value,
                    gas_limit,
                    gas_price,
                    nonce,
                ),
                apply_state,
                created_result(r),
            ),
    {
        let config = T::config();
        let operation = Operation::Create2 { init, salt };
        let transaction = Transaction { source, operation, value, gas_limit, gas_price, nonce };
        match self.execute_evm(&config, transaction, apply_state) {
            Ok((reason, Returned::Address(address), used_gas)) => Ok((reason, address, used_gas)),
            Ok((_, Returned::Output { .. }, _)) => unreached(),
            Err(error) => Err(error),
        }
    }

    /// Execute a call transaction on behalf of a given sender.
    pub fn execute_call(
        &mut self,
        source: H160,
        target: H160,
        input: Vec<u8>,
        value: U256,
        gas_limit: u32,
        gas_price: U256,
        nonce: Option<U256>,
        apply_state: bool,
    ) -> (r: Result<(ExitReason, Vec<u8>, U256), Error>)
        requires
            can_run::<T>(
                old(self)@.ledger,
                TransactionView::of(
                    source,
                    Task::Call { target, input: input@ },
                    value,
                    gas_limit,
                    gas_price,
                    nonce,
                ),
            ),
        ensures
            runs::<T>(
                old(self)@,
                final(self)@,
                TransactionView::of(
                    source,
                    Task::Call { target, input: input@ },
                    value,
                    gas_limit,
                    gas_price,
                    nonce,
                ),
                apply_state,
                called_result(target, r),
            ),
    {
        let config = T::config();
        let operation = Operation::Call { target, input };
        let transaction = Transaction { source, operation, value, gas_limit, gas_price, nonce };
        match self.execute_evm(&config, transaction, apply_state) {
            Ok((reason, Returned::Output { output, .. }, used_gas)) => Ok((reason, output, used_gas)),
            Ok((_, Returned::Address(_), _)) => unreached(),
            Err(error) => Err(error),
        }
    }

    /// Make a request for a transaction, given the minimal gas price and the configuration of the EVM.
    pub fn dispatch(
        &mut self,
        min_gas_price: U256,
        config: &evm::Config,
        origin: Origin<T::AccountId>,
        operation: Operation,
        value: U256,
        gas_limit: u32,
        gas_price: U256,
        nonce: Option<U256>,
    ) -> (r: Result<(), DispatchError>)
        requires
            gas_price@ >= min_gas_price@ ==> request_stays_in_range(
                old(self)@.ledger,
                config_of(*config),
                source_of::<T>(origin),
                operation@,
                value,
                gas_limit,
                gas_price,
                nonce,
            ),
        ensures
            exists|answers: Answers| #[trigger]
                may_give::<T::Precompiles>(answers) && old(self)@.dispatches(
                    final(self)@,
                    min_gas_price,
                    config_of(*config),
                    answers,
                    source_of::<T>(origin),
                    operation@,
                    value,
                    gas_limit,
                    gas_price,
                    nonce,
                    r,
                ),
    {
        proof {
            let answers = lemma_some_answers::<T::Precompiles>();
            assert(may_give::<T::Precompiles>(answers));
        }
        if gas_price.less_than(&min_gas_price) {
            return Err(DispatchError::Module(Error::GasPriceTooLow));
        }
        let sender = match ensure_signed(origin) {
            Ok(sender) => sender,
            Err(error) => {
                return Err(error);
            },
        };
        let source = T::ConvertAccountId::convert_account_id(&sender);
        let transaction = Transaction { source, operation, value, gas_limit, gas_price, nonce };
        match self.execute_evm(config, transaction, true) {
            Ok((reason, returned, _)) => {
                let event = completion_event(reason.is_succeed(), &returned);
                self.deposit_event(event);
                Ok(())
            },
            Err(error) => Err(DispatchError::Module(error)),
        }
    }

    /// Make a request for a transaction, unless a number might leave its range.
    pub fn try_dispatch(
        &mut self,
        origin: Origin<T::AccountId>,
        operation: Operation,
        value: U256,
        gas_limit: u32,
        gas_price: U256,
        nonce: Option<U256>,
    ) -> (r: Option<Result<(), DispatchError>>)
        ensures
            exists|min_gas_price: U256, config: evm::Config| #[trigger]
                call_ensures(
                    <T::FeeCalculator as FeeCalculator>::min_gas_price,
                    (),
                    min_gas_price,
                ) && #[trigger] call_ensures(T::config, (), config) && {
                    &&& r is Some <==> (gas_price@ >= min_gas_price@ ==> request_stays_in_range(
                        old(self)@.ledger,
                        config_of(config),
                        source_of::<T>(origin),
                        operation@,
                        value,
                        gas_limit,
                        gas_price,
                        nonce,
                    ))
                    &&& match r {
                        Some(result) => exists|answers: Answers| #[trigger]
                            may_give::<T::Precompiles>(answers) && old(self)@.dispatches(
                            final(self)@,
                            min_gas_price,
                            config_of(config),
                            answers,
                            source_of::<T>(origin),
                            operation@,
                            value,
                            gas_limit,
                            gas_price,
                            nonce,
                            result,
                        ),
                        None => final(self)@ == old(self)@,
                    }
                },
    {
        let min_gas_price = T::FeeCalculator::min_gas_price();
        let config = T::config();
        let ghost task = operation@;
        let (fits, operation) = match &origin {
            Origin::Signed(sender) => if gas_price.less_than(&min_gas_price) {
                (true, operation)
            } else {
                let source = T::ConvertAccountId::convert_account_id(sender);
                let transaction = Transaction {
                    source,
                    operation,
                    value,
                    gas_limit,
                    gas_price,
                    nonce,
                };
                (transaction.stays_in_range(&self.state, &config), transaction.operation)
            },
            _ => (true, operation),
        };
        assert(operation@ == task);
        if !fits {
            return None;
        }
        Some(
            self.dispatch(
                min_gas_price,
                &config,
                origin,
                operation,
                value,
                gas_limit,
                gas_price,
                nonce,
            ),
        )
    }

    /// Issue an EVM call operation. This is similar to a message call transaction in Ethereum.
    pub fn call(
        &mut self,
        origin: Origin<T::AccountId>,
        target: H160,
        input: Vec<u8>,
        value: U256,
        gas_limit: u32,
        gas_price: U256,
        nonce: Option<U256>,
    ) -> (r: Result<(), DispatchError>)
        requires
            can_request::<T>(
                old(self)@.ledger,
                origin,
                Task::Call { target, input: input@ },
                value,
                gas_limit,
                gas_price,
                nonce,
            ),
        ensures
            requests::<T>(
                old(self)@,
                final(self)@,
                origin,
                Task::Call { target, input: input@ },
                value,
                gas_limit,
                gas_price,
                nonce,
                r,
            ),
    {
        let min_gas_price = T::FeeCalculator::min_gas_price();
        let config = T::config();
        let operation = Operation::Call { target, input };
        self.dispatch(
            min_gas_price,
            &config,
            origin,
            operation,
            value,
            gas_limit,
            gas_price,
            nonce,
        )
    }

    /// Issue an EVM create operation. This is similar to a contract creation transaction in
    /// Ethereum.
    pub fn create(
        &mut self,
        origin: Origin<T::AccountId>,
        init: Vec<u8>,
        value: U256,
        gas_limit: u32,
        gas_price: U256,
        nonce: Option<U256>,
    ) -> (r: Result<(), DispatchError>)
        requires
            can_request::<T>(
                old(self)@.ledger,
                origin,
                Task::Create { init: init@ },
                value,
                gas_limit,
                gas_price,
                nonce,
            ),
        ensures
            requests::<T>(
                old(self)@,
                final(self)@,
                origin,
                Task::Create { init: init@ },
                value,
                gas_limit,
                gas_price,
                nonce,
                r,
            ),
    {
        let min_gas_price = T::FeeCalculator::min_gas_price();
        let config = T::config();
        let operation = Operation::Create { init };
        self.dispatch(
            min_gas_price,
            &config,
            origin,
            operation,
            value,
            gas_limit,
            gas_price,
            nonce,
        )
    }

    /// Issue an EVM create2 operation.
    pub fn create2(
        &mut self,
        origin: Origin<T::AccountId>,
        init: Vec<u8>,
        salt: H256,
        value: U256,
        gas_limit: u32,
        gas_price: U256,
        nonce: Option<U256>,
    ) -> (r: Result<(), DispatchError>)
        requires
            can_request::<T>(
                old(self)@.ledger,
                origin,
                Task::Create2 { init: init@, salt },
                value,
                gas_limit,
                gas_price,
                nonce,
            ),
        ensures
            requests::<T>(
                old(self)@,
                final(self)@,
                origin,
                Task::Create2 { init: init@, salt },
                value,
                gas_limit,
                gas_price,
                nonce,
                r,
            ),
    {
        let min_gas_price = T::FeeCalculator::min_gas_price();
        let config = T::config();
        let operation = Operation::Create2 { init, salt };
        self.dispatch(
            min_gas_price,
            &config,
            origin,
            operation,
            value,
            gas_limit,
            gas_price,
            nonce,
        )
    }

    /// Deposit balance from the currency of the chain into the EVM: what is to be done once the
    /// currency has been taken from the sender.
    pub fn deposit_balance(origin: Origin<T::AccountId>, value: u128) -> (r: Result<
        PendingDeposit<T::AccountId>,
        DispatchError,
    >)
        ensures
            match (r, origin) {
                (Ok(pending), Origin::Signed(sender)) => {
                    &&& pending.sender == sender
                    &&& pending.module_account == module_account_of::<T>()
                    &&& pending.address == T::ConvertAccountId::address(sender)
                    &&& pending.value@ == value
                },
                (Ok(_), _) => false,
                (Err(error), Origin::Signed(_)) => false,
                (Err(error), _) => error == DispatchError::BadOrigin,
            },
    {
        match ensure_signed(origin) {
            Ok(sender) => {
                let address = T::ConvertAccountId::convert_account_id(&sender);
                let module_account = Self::account_id();
                let value = U256::from_u128(value);
                Ok(PendingDeposit { sender, module_account, address, value })
            },
            Err(error) => Err(error),
        }
    }

    /// Credit a deposit, if the currency could be taken from the sender. Else hand the error of
    /// the currency on.
    pub fn complete_deposit<E>(
        &mut self,
        pending: PendingDeposit<T::AccountId>,
        withdrawn: Result<(), E>,
    ) -> (r: Result<(), E>)
        requires
            withdrawn is Ok ==> old(self)@.ledger.account(pending.address).balance
                + pending.value@ <= u256_max(),
        ensures
            match (r, withdrawn) {
                (Ok(_), Ok(_)) => true,
                (Err(error), Err(cause)) => error == cause,
                _ => false,
            },
            final(self)@ == match withdrawn {
                Ok(_) => old(self)@.credited(pending.sender, pending.address, pending.value@),
                Err(_) => old(self)@,
            },
    {
        match withdrawn {
            Ok(()) => {
                let PendingDeposit { sender, address, value, .. } = pending;
                let mut account = self.state.accounts(&address);
                match account.balance.checked_add(value) {
                    Some(balance) => {
                        account.balance = balance;
                    },
                    None => unreached(),
                }
                self.state.put_account(&address, account);
                self.deposit_event(Event::BalanceDeposit(sender, address, value));
                Ok(())
            },
            Err(error) => Err(error),
        }
    }

    /// Withdraw balance from the EVM into the currency of the chain: what is to be done once the
    /// currency has been taken from the account of the module.
    pub fn withdraw_balance(&self, origin: Origin<T::AccountId>, value: u128) -> (r: Result<
        PendingWithdrawal<T::AccountId>,
        DispatchError,
    >)
        ensures
            match (r, origin) {
                (Ok(pending), Origin::Signed(sender)) => {
                    let address = T::ConvertAccountId::address(sender);
                    let account = self@.ledger.account(address);
                    &&& account.balance >= value
                    &&& pending.sender == sender
                    &&& pending.module_account == module_account_of::<T>()
                    &&& pending.address == address
                    &&& pending.account@ == (Basic {
                        balance: (account.balance - value) as nat,
                        ..account
                    })
                    &&& pending.value@ == value
                },
                (Ok(_), _) => false,
                (Err(error), Origin::Signed(sender)) => error == DispatchError::Module(
                    Error::BalanceLow,
                ) && self@.ledger.account(T::ConvertAccountId::address(sender)).balance < value,
                (Err(error), _) => error == DispatchError::BadOrigin,
            },
    {
        let sender = match ensure_signed(origin) {
            Ok(sender) => sender,
            Err(error) => {
                return Err(error);
            },
        };
        let address = T::ConvertAccountId::convert_account_id(&sender);
        let value = U256::from_u128(value);
        let mut account = self.state.accounts(&address);
        match account.balance.checked_sub(value) {
            Some(balance) => {
                account.balance = balance;
            },
            None => {
                return Err(DispatchError::Module(Error::BalanceLow));
            },
        }
        let module_account = Self::account_id();
        Ok(PendingWithdrawal { sender, module_account, address, account, value })
    }

    /// Debit a withdrawal, if the currency could be taken from the account of the module. Else
    /// hand the error of the currency on.
    pub fn complete_withdrawal<E>(
        &mut self,
        pending: PendingWithdrawal<T::AccountId>,
        withdrawn: Result<(), E>,
    ) -> (r: Result<(), E>)
        ensures
            match (r, withdrawn) {
                (Ok(_), Ok(_)) => true,
                (Err(error), Err(cause)) => error == cause,
                _ => false,
            },
            final(self)@ == match withdrawn {
                Ok(_) => old(self)@.debited(
                    pending.sender,
                    pending.address,
                    pending.account@,
                    pending.value@,
                ),
                Err(_) => old(self)@,
            },
    {
        match withdrawn {
            Ok(()) => {
                let PendingWithdrawal { sender, address, account, value, .. } = pending;
                self.state.put_account(&address, account);
                self.deposit_event(Event::BalanceWithdraw(sender, address, value));
                Ok(())
            },
            Err(error) => Err(error),
        }
    }

    /// The nonce and balance of an address.
    pub fn accounts(&self, address: &H160) -> (r: Account)
        ensures
            r@ == self@.ledger.account(*address),
    {
        self.state.accounts(address)
    }

    /// The code of an address.
    pub fn account_codes(&self, address: &H160) -> (r: Vec<u8>)
        ensures
            r@ == self@.ledger.code(*address),
    {
        self.state.account_codes(address)
    }

    /// The storage value of an address at an index.
    pub fn account_storages(&self, address: &H160, index: &H256) -> (r: H256)
        ensures
            r == self@.ledger.storage(*address, *index),
    {
        self.state.account_storages(address, index)
    }

    /// Check whether an account is empty.
    pub fn is_account_empty(&self, address: &H160) -> (r: bool)
        ensures
            r == self@.ledger.is_account_empty(*address),
    {
        self.state.is_account_empty(address)
    }

    /// Remove an account if its empty.
    pub fn remove_account_if_empty(&mut self, address: &H160)
        ensures
            final(self)@ == (ModuleView {
                ledger: old(self)@.ledger.remove_account_if_empty(*address),
                ..old(self)@
            }),
    {
        self.state.remove_account_if_empty(address)
    }
}

/// The result of a creation, by what it says.
pub open spec fn created_result(result: Result<(ExitReason, H160, U256), Error>) -> Result<
    (ExitReason, ReturnedView, nat),
    Error,
> {
    match result {
        Ok((reason, address, used_gas)) => Ok(
            (reason, ReturnedView::Address(address), used_gas@),
        ),
        Err(error) => Err(error),
    }
}

/// The result of a call to an address, by what it says.
pub open spec fn called_result(
    target: H160,
    result: Result<(ExitReason, Vec<u8>, U256), Error>,
) -> Result<(ExitReason, ReturnedView, nat), Error> {
    match result {
        Ok((reason, output, used_gas)) => Ok(
            (reason, ReturnedView::Output { target, output: output@ }, used_gas@),
        ),
        Err(error) => Err(error),
    }
}

} // verus!
