//! Running one transaction: what it must pay, what the executor is asked, and what comes of it.

use vstd::prelude::*;
use evm::ExitReason;
use crate::config::{config_of, smaller, RuntimeConfig};
use crate::executor::{
    account_change, basics, call_outcome, changed_address, close, create2_outcome,
    create_address, create_outcome, deposit, distinct_addresses, fee, gas_used, gives_code,
    has_no_code, held, legacy_address, lemma_some_answers, may_give, memory_backend,
    memory_vicinity, mentions, new_executor, no_answer, nonce_of, only_counted, proceeds,
    salted_address, session, settles, succeeded, touches_accounts, touches_only, transact_call,
    transact_create, transact_create2, transfer_fits, transferred, used_gas, withdraw, Answers,
    Block, BlockView, CreateScheme, Executor, Precompiles, Session, Step, Surroundings,
    Vicinity, World,
};
use crate::hashing::{keccak256, keccak256_of};
use crate::primitives::{u256_max, H160, H256, U256};
use crate::state::{
    changes_of, messages_of, with_writes, Account, Apply, Basic, Change, Ledger, Log, Message,
    State,
};
use crate::storage::lemma_entries_finite;
use crate::supply::{
    balance_of, lemma_balance_bounded, lemma_supply_insert, lemma_supply_le,
    supply, words_fit,
};

verus! {

/// Why a request is refused.
#[derive(Clone, Copy, Debug, PartialEq, Eq, Structural)]
pub enum Error {
    /// Not enough balance to perform action
    BalanceLow,
    /// Calculating total fee overflowed
    FeeOverflow,
    /// Calculating total payment overflowed
    PaymentOverflow,
    /// Withdraw fee failed
    WithdrawFailed,
    /// Gas price is too low.
    GasPriceTooLow,
    /// Nonce is invalid
    InvalidNonce,
}

/// What a transaction does.
#[derive(Debug)]
pub enum Operation {
    /// Call an address.
    Call {
        /// The address that is called.
        target: H160,
        /// The input of the call.
        input: Vec<u8>,
    },
    /// Create a contract.
    Create {
        /// The init code.
        init: Vec<u8>,
    },
    /// Create a contract at an address that does not depend on the nonce.
    Create2 {
        /// The init code.
        init: Vec<u8>,
        /// The salt.
        salt: H256,
    },
}

/// What an operation asks for.
pub enum Task {
    /// Call an address.
    Call {
        /// The address that is called.
        target: H160,
        /// The input of the call.
        input: Seq<u8>,
    },
    /// Create a contract.
    Create {
        /// The init code.
        init: Seq<u8>,
    },
    /// Create a contract at an address that does not depend on the nonce.
    Create2 {
        /// The init code.
        init: Seq<u8>,
        /// The salt.
        salt: H256,
    },
}

impl Task {
    /// How long the input or init code is.
    pub open spec fn data_len(self) -> nat {
        match self {
            Task::Call { input, .. } => input.len(),
            Task::Create { init } => init.len(),
            Task::Create2 { init, .. } => init.len(),
        }
    }
}

impl View for Operation {
    type V = Task;

    open spec fn view(&self) -> Task {
        match *self {
            Operation::Call { target, input } => Task::Call { target, input: input@ },
            Operation::Create { init } => Task::Create { init: init@ },
            Operation::Create2 { init, salt } => Task::Create2 { init: init@, salt },
        }
    }
}

/// What an operation hands back.
#[derive(Debug, PartialEq, Eq)]
pub enum Returned {
    /// The output of a call.
    Output {
        /// The address that was called.
        target: H160,
        /// What the call returned.
        output: Vec<u8>,
    },
    /// The address of a new contract.
    Address(H160),
}

/// What is handed back.
pub enum ReturnedView {
    /// The output of a call.
    Output {
        /// The address that was called.
        target: H160,
        /// What the call returned.
        output: Seq<u8>,
    },
    /// The address of a new contract.
    Address(H160),
}

impl View for Returned {
    type V = ReturnedView;

    open spec fn view(&self) -> ReturnedView {
        match *self {
            Returned::Output { target, output } => ReturnedView::Output { target, output: output@ },
            Returned::Address(address) => ReturnedView::Address(address),
        }
    }
}

/// A transaction on behalf of an address.
#[derive(Debug)]
pub struct Transaction {
    /// The address that the transaction comes from.
    pub source: H160,
    /// What the transaction does.
    pub operation: Operation,
    /// The value that goes to the target.
    pub value: U256,
    /// How much gas the transaction may use.
    pub gas_limit: u32,
    /// The price of gas.
    pub gas_price: U256,
    /// The nonce that the source is expected to have, where one is given.
    pub nonce: Option<U256>,
}

/// What a transaction asks for.
pub struct TransactionView {
    /// The address that the transaction comes from.
    pub source: H160,
    /// What the transaction does.
    pub task: Task,
    /// The value that goes to the target.
    pub value: nat,
    /// How much gas the transaction may use.
    pub gas_limit: u32,
    /// The price of gas.
    pub gas_price: nat,
    /// The nonce that the source is expected to have, where one is given.
    pub nonce: Option<nat>,
}

impl View for Transaction {
    type V = TransactionView;

    open spec fn view(&self) -> TransactionView {
        TransactionView::of(
            self.source,
            self.operation@,
            self.value,
            self.gas_limit,
            self.gas_price,
            self.nonce,
        )
    }
}

impl TransactionView {
    /// The transaction with the given parts.
    pub open spec fn of(
        source: H160,
        task: Task,
        value: U256,
        gas_limit: u32,
        gas_price: U256,
        nonce: Option<U256>,
    ) -> TransactionView {
        TransactionView {
            source,
            task,
            value: value@,
            gas_limit,
            gas_price: gas_price@,
            nonce: match nonce {
                Some(nonce) => Some(nonce@),
                None => None,
            },
        }
    }

    /// Whether the transaction calls an address without code, and what it moves there can be moved
    /// without leaving the range of a word.
    pub open spec fn only_transfers(self, ledger: Ledger) -> bool {
        self.task matches Task::Call { target, .. } && {
            &&& ledger.code(target).len() == 0
            &&& ledger.account(self.source).nonce < u256_max()
            &&& target == self.source || ledger.account(target).balance + self.value
                <= u256_max()
        }
    }

    /// Whether the transaction, unless it is refused, can run on a store under a configuration
    /// without any number leaving its range.
    pub open spec fn stays_in_range(self, ledger: Ledger, config: RuntimeConfig) -> bool {
        self.charge(ledger.account(self.source)) is Ok ==> {
            &&& config.costs_fit(self.gas_limit as nat, self.task.data_len())
            &&& words_fit(ledger.accounts, self.gas_limit as nat) || self.only_transfers(ledger)
        }
    }

    /// What the source pays if all the gas is used.
    pub open spec fn total_fee(self) -> nat {
        self.gas_price * (self.gas_limit as nat)
    }

    /// The fee that is taken from an account in advance, or why the transaction is refused.
    pub open spec fn charge(self, account: Basic) -> Result<nat, Error> {
        if self.total_fee() > u256_max() {
            Err(Error::FeeOverflow)
        } else if self.value + self.total_fee() > u256_max() {
            Err(Error::PaymentOverflow)
        } else if account.balance < self.value + self.total_fee() {
            Err(Error::BalanceLow)
        } else if self.nonce matches Some(nonce) && nonce != account.nonce {
            Err(Error::InvalidNonce)
        } else {
            Ok(self.total_fee())
        }
    }

    /// The step of the executor that does what the transaction asks for.
    pub open spec fn step(self) -> Step {
        let caller = self.source;
        let value = self.value;
        let gas_limit = self.gas_limit as nat;
        match self.task {
            Task::Call { target, input } => Step::Call {
                caller,
                target,
                value,
                data: input,
                gas_limit,
            },
            Task::Create { init } => Step::Create { caller, value, init, gas_limit },
            Task::Create2 { init, salt } => Step::Create2 { caller, value, init, salt, gas_limit },
        }
    }

    /// The store once the source has paid for the gas that was used, with its nonce counted up or
    /// not.
    pub open spec fn paid(self, ledger: Ledger, used_gas: nat, counted: bool) -> Ledger {
        let account = ledger.account(self.source);
        let nonce = if counted {
            account.nonce + 1
        } else {
            account.nonce
        };
        let balance = (account.balance - used_gas * self.gas_price) as nat;
        ledger.put_account(self.source, Basic { nonce, balance }).remove_account_if_empty(
            self.source,
        )
    }

    /// The part of the fee that goes back to the source.
    pub open spec fn refund(self, used_gas: nat) -> nat {
        let actual_fee = used_gas * self.gas_price;
        if self.total_fee() >= actual_fee {
            (self.total_fee() - actual_fee) as nat
        } else {
            0
        }
    }
}

impl Transaction {
    /// The fee that is taken from an account in advance, or why the transaction is refused.
    pub fn charge(&self, account: &Account) -> (r: Result<U256, Error>)
        ensures
            match r {
                Ok(total_fee) => self@.charge(account@) == Ok::<nat, Error>(total_fee@),
                Err(error) => self@.charge(account@) == Err::<nat, Error>(error),
            },
    {
        let total_fee = match self.gas_price.checked_mul(U256::from_u128(self.gas_limit as u128)) {
            Some(total_fee) => total_fee,
            None => {
                return Err(Error::FeeOverflow);
            },
        };
        let total_payment = match self.value.checked_add(total_fee) {
            Some(total_payment) => total_payment,
            None => {
                return Err(Error::PaymentOverflow);
            },
        };
        if account.balance.less_than(&total_payment) {
            return Err(Error::BalanceLow);
        }
        if let Some(nonce) = self.nonce {
            if account.nonce != nonce {
                return Err(Error::InvalidNonce);
            }
        }
        Ok(total_fee)
    }

    /// Whether the transaction, unless it is refused, can run on a store under a configuration
    /// without any number leaving its range.
    pub fn stays_in_range(&self, state: &State, config: &evm::Config) -> (r: bool)
        ensures
            r == self@.stays_in_range(state@, config_of(*config)),
    {
        let account = state.accounts(&self.source);
        if self.charge(&account).is_err() {
            return true;
        }
        let data_len: usize = match &self.operation {
            Operation::Call { input, .. } => input.len(),
            Operation::Create { init } => init.len(),
            Operation::Create2 { init, .. } => init.len(),
        };
        RuntimeConfig::of(config).costs_in_range(self.gas_limit, data_len) && (state.words_fit(
            self.gas_limit,
        ) || self.only_transfers(state))
    }

    /// Whether the transaction calls an address without code, and what it moves there can be moved
    /// without leaving the range of a word.
    pub fn only_transfers(&self, state: &State) -> (r: bool)
        ensures
            r == self@.only_transfers(state@),
    {
        match &self.operation {
            Operation::Call { target, .. } => {
                let most = U256([u64::MAX, u64::MAX, u64::MAX, u64::MAX]);
                state.account_codes(target).len() == 0 && state.accounts(
                    &self.source,
                ).nonce.less_than(&most) && (*target == self.source || state.accounts(
                    target,
                ).balance.checked_add(self.value).is_some())
            },
            _ => false,
        }
    }
}

/// What a transaction runs on.
pub struct Setting {
    /// The store.
    pub ledger: Ledger,
    /// The block.
    pub block: BlockView,
    /// The configuration of the EVM.
    pub config: RuntimeConfig,
    /// The precompiles.
    pub precompiles: Answers,
}

/// What comes of a transaction.
pub struct Outcome {
    /// How the execution ended.
    pub reason: ExitReason,
    /// What was handed back.
    pub returned: ReturnedView,
    /// How much gas was used.
    pub used_gas: nat,
    /// The changes to the store.
    pub changes: Seq<Change>,
    /// The logs.
    pub messages: Seq<Message>,
}

impl Setting {
    /// The session of an executor that has been made for a transaction.
    pub open spec fn opened(self, transaction: TransactionView) -> Session {
        Session {
            world: World {
                surroundings: Surroundings {
                    gas_price: transaction.gas_price,
                    origin: transaction.source,
                    block: self.block,
                },
                contracts: self.ledger.contracts(),
            },
            config: self.config,
            gas_limit: transaction.gas_limit as nat,
            precompiles: self.precompiles,
            steps: Seq::empty(),
        }
    }

    /// The session once the whole fee has been taken from the source.
    pub open spec fn charged(self, transaction: TransactionView) -> Session {
        self.opened(transaction).step(
            Step::Withdraw { address: transaction.source, amount: transaction.total_fee() },
        )
    }

    /// The session once the transaction has run.
    pub open spec fn ran(self, transaction: TransactionView) -> Session {
        self.charged(transaction).step(transaction.step())
    }

    /// The session once the source has got back what it did not use.
    pub open spec fn closed(self, transaction: TransactionView) -> Session {
        let ran = self.ran(transaction);
        ran.step(
            Step::Deposit {
                address: transaction.source,
                amount: transaction.refund(gas_used(ran)),
            },
        )
    }

    /// How the execution ends, and what it hands back.
    pub open spec fn exit(self, transaction: TransactionView) -> (ExitReason, ReturnedView) {
        let charged = self.charged(transaction);
        let step = transaction.step();
        let caller = transaction.source;
        match transaction.task {
            Task::Call { target, .. } => {
                let (reason, output) = call_outcome(charged, step);
                (reason, ReturnedView::Output { target, output })
            },
            Task::Create { .. } => (
                create_outcome(charged, step),
                ReturnedView::Address(
                    legacy_address(caller, self.ledger.account(caller).nonce),
                ),
            ),
            Task::Create2 { init, salt } => (
                create2_outcome(charged, step),
                ReturnedView::Address(
                    salted_address(caller, keccak256_of(init), salt),
                ),
            ),
        }
    }

    /// What comes of a transaction, or why it is refused.
    pub open spec fn outcome(self, transaction: TransactionView) -> Result<Outcome, Error> {
        match transaction.charge(self.ledger.account(transaction.source)) {
            Err(error) => Err(error),
            Ok(_) => {
                let (reason, returned) = self.exit(transaction);
                let (changes, messages) = proceeds(self.closed(transaction));
                Ok(
                    Outcome {
                        reason,
                        returned,
                        used_gas: gas_used(self.ran(transaction)),
                        changes,
                        messages,
                    },
                )
            },
        }
    }
}

impl Setting {
    /// What is held once the whole fee has been taken from the source.
    pub open spec fn held_charged(self, transaction: TransactionView) -> Map<H160, Basic> {
        let account = self.ledger.account(transaction.source);
        basics(self.ledger.contracts()).insert(
            transaction.source,
            Basic {
                nonce: account.nonce,
                balance: (account.balance - transaction.total_fee()) as nat,
            },
        )
    }

    /// What is held once the source has got back what it did not use, by what was held when the
    /// transaction had run.
    pub open spec fn held_closed(self, transaction: TransactionView) -> Map<H160, Basic> {
        let ran = self.ran(transaction);
        let source = transaction.source;
        held(ran).insert(
            source,
            Basic {
                nonce: nonce_of(held(ran), source),
                balance: balance_of(held(ran), source) + transaction.refund(gas_used(ran)),
            },
        )
    }

    /// Whether what comes of a call to an address without code is that its value is moved, where it
    /// succeeds. Where no precompile answers either, it succeeds if the gas pays for the
    /// transaction, which is all that it costs, and returns nothing.
    pub open spec fn calls_no_code(
        self,
        transaction: TransactionView,
        target: H160,
        input: Seq<u8>,
        outcome: Outcome,
    ) -> bool {
        let source = transaction.source;
        let cost = self.config.call_cost(input);
        &&& succeeded(outcome.reason) ==> {
            &&& held(self.ran(transaction)) == transferred(
                held(self.charged(transaction)),
                source,
                target,
                transaction.value,
            )
            &&& touches_accounts(self.closed(transaction), source, target)
            &&& mentions(outcome.changes, target)
        }
        &&& no_answer(self.precompiles, target, input) ==> {
            &&& succeeded(outcome.reason) <==> cost <= transaction.gas_limit
            &&& outcome.used_gas == smaller(cost, transaction.gas_limit as nat)
            &&& outcome.returned == (ReturnedView::Output { target, output: Seq::empty() })
        }
    }

    /// Whether what comes of a transaction is accounted for, unless the transaction is refused: no
    /// more gas is used than the transaction may use, and the supply shrinks by at least the price
    /// of that gas. What is held for the source is charged with the whole fee before the
    /// transaction runs, and gets the refund after it. The changes settle what is held then, the
    /// source is among the addresses that they are for, and no address is changed twice. A
    /// contract that has been created gets its code, unless it destroys itself. A transaction that
    /// succeeds counts up the nonce of its source, and a call to an address without code does
    /// nothing else but move its value. A transaction that fails does nothing but pay, and perhaps
    /// count up the nonce of its source.
    pub open spec fn accounts_for(self, transaction: TransactionView) -> bool {
        self.outcome(transaction) matches Ok(outcome) ==> {
            let after = self.ledger.apply(outcome.changes, true);
            let used_gas = outcome.used_gas;
            &&& used_gas <= transaction.gas_limit
            &&& supply(after.accounts) + used_gas * transaction.gas_price <= supply(
                self.ledger.accounts,
            )
            &&& held(self.charged(transaction)) == self.held_charged(transaction)
            &&& held(self.closed(transaction)) == self.held_closed(transaction)
            &&& settles(
                self.ledger.contracts(),
                held(self.closed(transaction)),
                outcome.changes,
            )
            &&& mentions(outcome.changes, transaction.source)
            &&& distinct_addresses(outcome.changes)
            &&& succeeded(outcome.reason) ==> (outcome.returned matches ReturnedView::Address(
                address,
            ) ==> gives_code(outcome.changes, address))
            &&& succeeded(outcome.reason) ==> nonce_of(
                held(self.ran(transaction)),
                transaction.source,
            ) > self.ledger.account(transaction.source).nonce
            &&& (transaction.task matches Task::Call { target, input } ==> (self.ledger.code(
                target,
            ).len() == 0 ==> self.calls_no_code(transaction, target, input, outcome)))
            &&& !succeeded(outcome.reason) ==> {
                ||| after == transaction.paid(self.ledger, used_gas, false)
                ||| after == transaction.paid(self.ledger, used_gas, true)
            }
        }
    }
}

/// What came of a transaction.
#[derive(Debug)]
pub struct Execution {
    /// How the execution ended.
    pub reason: ExitReason,
    /// What was handed back.
    pub returned: Returned,
    /// How much gas was used.
    pub used_gas: U256,
    /// The changes to the store.
    pub values: Vec<Apply>,
    /// The logs.
    pub logs: Vec<Log>,
}

impl View for Execution {
    type V = Outcome;

    open spec fn view(&self) -> Outcome {
        Outcome {
            reason: self.reason,
            returned: self.returned@,
            used_gas: self.used_gas@,
            changes: changes_of(self.values@),
            messages: messages_of(self.logs@),
        }
    }
}

/// The accounts that an executor starts with are those of the store.
proof fn lemma_opened(ledger: Ledger)
    requires
        ledger.accounts.dom().finite(),
        ledger.contracts().dom().finite(),
    ensures
        basics(ledger.contracts()).dom().finite(),
        supply(basics(ledger.contracts())) == supply(ledger.accounts),
        forall|address: H160| #[trigger]
            balance_of(basics(ledger.contracts()), address) == ledger.account(address).balance,
        forall|address: H160| #[trigger]
            nonce_of(basics(ledger.contracts()), address) == ledger.account(address).nonce,
{
    let start = basics(ledger.contracts());
    assert(start.dom() =~= ledger.contracts().dom());
    assert forall|address: H160| #[trigger]
        balance_of(start, address) == balance_of(ledger.accounts, address) by {
        assert(ledger.accounts.contains_key(address) ==> ledger.holds(address));
    }
    lemma_supply_le(start, ledger.accounts);
    lemma_supply_le(ledger.accounts, start);
    assert forall|address: H160| #[trigger]
        nonce_of(start, address) == ledger.account(address).nonce by {
        assert(ledger.accounts.contains_key(address) ==> ledger.holds(address));
    }
}

/// Changes leave finitely many accounts.
pub proof fn lemma_apply_finite(ledger: Ledger, changes: Seq<Change>, delete_empty: bool)
    requires
        ledger.accounts.dom().finite(),
    ensures
        ledger.apply(changes, delete_empty).accounts.dom().finite(),
    decreases changes.len(),
{
    if changes.len() > 0 {
        lemma_apply_finite(ledger, changes.drop_last(), delete_empty);
    }
}

/// Changes leave an address with at most `most`, where every change to it gives it at most that,
/// and it had at most that if there is no such change.
proof fn lemma_apply_balance(
    ledger: Ledger,
    changes: Seq<Change>,
    delete_empty: bool,
    address: H160,
    most: nat,
)
    requires
        forall|i: int|
            0 <= i < changes.len() && changed_address(#[trigger] changes[i]) == address ==> (
            changes[i] matches Change::Modify { basic, .. } ==> basic.balance <= most),
        (exists|i: int|
            0 <= i < changes.len() && changed_address(#[trigger] changes[i]) == address)
            || ledger.account(address).balance <= most,
    ensures
        ledger.apply(changes, delete_empty).account(address).balance <= most,
    decreases changes.len(),
{
    if changes.len() > 0 {
        let rest = changes.drop_last();
        assert(changes[changes.len() - 1] == changes.last());
        if changed_address(changes.last()) != address {
            assert forall|i: int|
                0 <= i < rest.len() && changed_address(#[trigger] rest[i]) == address implies (
            rest[i] matches Change::Modify { basic, .. } ==> basic.balance <= most) by {
                assert(rest[i] == changes[i]);
            }
            if exists|i: int|
                0 <= i < changes.len() && changed_address(#[trigger] changes[i]) == address {
                let i = choose|i: int|
                    0 <= i < changes.len() && changed_address(#[trigger] changes[i]) == address;
                assert(rest[i] == changes[i]);
            }
            lemma_apply_balance(ledger, rest, delete_empty, address, most);
        }
    }
}

/// Changes that settle what an executor holds leave no more supply than it holds.
proof fn lemma_settled_supply(ledger: Ledger, held_accounts: Map<H160, Basic>, changes: Seq<Change>)
    requires
        ledger.accounts.dom().finite(),
        held_accounts.dom().finite(),
        settles(ledger.contracts(), held_accounts, changes),
    ensures
        supply(ledger.apply(changes, true).accounts) <= supply(held_accounts),
{
    let after = ledger.apply(changes, true);
    lemma_apply_finite(ledger, changes, true);
    assert forall|address: H160| #[trigger]
        balance_of(after.accounts, address) <= balance_of(held_accounts, address) by {
        let touched = exists|i: int|
            0 <= i < changes.len() && changed_address(#[trigger] changes[i]) == address;
        if !touched && ledger.accounts.contains_key(address) {
            assert(ledger.holds(address));
            assert(ledger.contracts().contains_key(address));
        }
        lemma_apply_balance(
            ledger,
            changes,
            true,
            address,
            balance_of(held_accounts, address),
        );
    }
    lemma_supply_le(after.accounts, held_accounts);
}

/// A change of the nonce and balance of the source, by what the transaction costs and by one at
/// most, does nothing but pay.
proof fn lemma_only_paid(
    ledger: Ledger,
    transaction: TransactionView,
    used_gas: nat,
    changes: Seq<Change>,
    basic: Basic,
)
    requires
        changes == seq![account_change(transaction.source, basic)],
        basic.nonce == ledger.account(transaction.source).nonce || basic.nonce == ledger.account(
            transaction.source,
        ).nonce + 1,
        basic.balance == ledger.account(transaction.source).balance - used_gas
            * transaction.gas_price,
    ensures
        ledger.apply(changes, true) == transaction.paid(ledger, used_gas, false)
            || ledger.apply(changes, true) == transaction.paid(ledger, used_gas, true),
{
    let source = transaction.source;
    assert(changes.drop_last() =~= Seq::empty());
    assert(ledger.apply(changes.drop_last(), true) == ledger);
    assert(with_writes(ledger.storages, source, Seq::empty()) =~= ledger.storages);
    assert(ledger.apply(changes, true) == ledger.put_account(source, basic).remove_account_if_empty(
        source,
    ));
}

/// Where a transaction stays in range on a store, it does so on what is held once the fee has been
/// taken.
proof fn lemma_charged_in_range(
    ledger: Ledger,
    transaction: TransactionView,
    start: Map<H160, Basic>,
    charged: Map<H160, Basic>,
)
    requires
        ledger.accounts.dom().finite(),
        ledger.contracts().dom().finite(),
        start == basics(ledger.contracts()),
        transaction.charge(ledger.account(transaction.source)) is Ok,
        charged == start.insert(
            transaction.source,
            Basic {
                nonce: nonce_of(start, transaction.source),
                balance: (balance_of(start, transaction.source) - transaction.total_fee()) as nat,
            },
        ),
        words_fit(ledger.accounts, transaction.gas_limit as nat) || transaction.only_transfers(
            ledger,
        ),
    ensures
        words_fit(ledger.accounts, transaction.gas_limit as nat) ==> words_fit(
            charged,
            transaction.gas_limit as nat,
        ),
        transaction.only_transfers(ledger) ==> (transaction.task matches Task::Call { target, .. }
            && has_no_code(ledger.contracts(), target) && transfer_fits(
            charged,
            transaction.source,
            target,
            transaction.value,
        )),
{
    let source = transaction.source;
    lemma_opened(ledger);
    assert(nonce_of(start, source) == ledger.account(source).nonce);
    assert(balance_of(start, source) == ledger.account(source).balance);
    lemma_supply_insert(start, source, charged[source]);
    if words_fit(ledger.accounts, transaction.gas_limit as nat) {
        assert forall|address: H160| #[trigger] charged.contains_key(address) implies charged[
            address
        ].nonce + transaction.gas_limit < u256_max() by {
            assert(nonce_of(start, address) == ledger.account(address).nonce);
            assert(nonce_of(charged, address) == nonce_of(start, address));
        }
    }
    if let Task::Call { target, .. } = transaction.task {
        assert(balance_of(start, target) == ledger.account(target).balance);
    }
}

/// Once a transaction has run, its source can get any part of the fee back without leaving the
/// range of a word.
proof fn lemma_refund_in_range(
    ledger: Ledger,
    transaction: TransactionView,
    start: Map<H160, Basic>,
    charged: Map<H160, Basic>,
    ran: Map<H160, Basic>,
    refund: nat,
)
    requires
        start.dom().finite(),
        ran.dom().finite(),
        supply(start) == supply(ledger.accounts),
        balance_of(start, transaction.source) == ledger.account(transaction.source).balance,
        ledger.account(transaction.source).balance <= u256_max(),
        transaction.charge(ledger.account(transaction.source)) is Ok,
        charged == start.insert(
            transaction.source,
            Basic {
                nonce: nonce_of(start, transaction.source),
                balance: (balance_of(start, transaction.source) - transaction.total_fee()) as nat,
            },
        ),
        supply(ran) <= supply(charged),
        refund <= transaction.total_fee(),
        words_fit(ledger.accounts, transaction.gas_limit as nat) || only_counted(
            charged,
            ran,
            transaction.source,
        ) || (transaction.task matches Task::Call { target, .. } && ran == transferred(
            charged,
            transaction.source,
            target,
            transaction.value,
        )),
    ensures
        balance_of(ran, transaction.source) + refund <= u256_max(),
{
    lemma_supply_insert(start, transaction.source, charged[transaction.source]);
    lemma_balance_bounded(ran, transaction.source);
}

/// Has the executor do what a transaction asks for.
fn perform(executor: &mut Executor<'_>, transaction: Transaction) -> (r: (ExitReason, Returned))
    requires
        held(session(*old(executor))).dom().finite(),
        words_fit(held(session(*old(executor))), session(*old(executor)).gas_limit) || (
        touches_only(session(*old(executor)), transaction.source) && (
        transaction@.task matches Task::Call { target, .. } && has_no_code(
            session(*old(executor)).world.contracts,
            target,
        ) && transfer_fits(
            held(session(*old(executor))),
            transaction.source,
            target,
            transaction.value@,
        ))),
        session(*old(executor)).config.costs_fit(
            session(*old(executor)).gas_limit,
            transaction@.task.data_len(),
        ),
    ensures
        session(*final(executor)) == session(*old(executor)).step(transaction@.step()),
        held(session(*final(executor))).dom().finite(),
        supply(held(session(*final(executor)))) <= supply(held(session(*old(executor)))),
        !succeeded(r.0) ==> {
            let (before, after) = (session(*old(executor)), session(*final(executor)));
            let source = transaction.source;
            &&& only_counted(held(before), held(after), source)
            &&& touches_only(before, source) ==> touches_only(after, source)
        },
        succeeded(r.0) ==> nonce_of(held(session(*final(executor))), transaction.source) > nonce_of(
            held(session(*old(executor))),
            transaction.source,
        ),
        transaction@.task matches Task::Call { target, input } ==> {
            let (before, after) = (session(*old(executor)), session(*final(executor)));
            let source = transaction.source;
            let cost = before.config.call_cost(input);
            has_no_code(before.world.contracts, target) ==> {
                &&& succeeded(r.0) && touches_only(before, source) ==> {
                    &&& held(after) == transferred(
                        held(before),
                        source,
                        target,
                        transaction.value@,
                    )
                    &&& touches_accounts(after, source, target)
                    &&& mentions(proceeds(after).0, target)
                }
                &&& before.steps.len() == 1 && before.steps[0] is Withdraw && no_answer(
                    before.precompiles,
                    target,
                    input,
                ) ==> {
                    &&& succeeded(r.0) <==> cost <= before.gas_limit && balance_of(
                        held(before),
                        source,
                    ) >= transaction.value@
                    &&& call_outcome(before, transaction@.step()).1 == Seq::<u8>::empty()
                    &&& gas_used(after) == smaller(cost, before.gas_limit)
                }
            }
        },
        succeeded(r.0) ==> (r.1@ matches ReturnedView::Address(address) ==> gives_code(
            proceeds(session(*final(executor))).0,
            address,
        )),
        ({
            let before = session(*old(executor));
            let step = transaction@.step();
            let caller = transaction.source;
            match transaction@.task {
                Task::Call { target, .. } => (r.0, r.1@) == (
                    call_outcome(before, step).0,
                    ReturnedView::Output { target, output: call_outcome(before, step).1 },
                ),
                Task::Create { .. } => (r.0, r.1@) == (
                    create_outcome(before, step),
                    ReturnedView::Address(
                        legacy_address(caller, nonce_of(held(before), caller)),
                    ),
                ),
                Task::Create2 { init, salt } => (r.0, r.1@) == (
                    create2_outcome(before, step),
                    ReturnedView::Address(
                        salted_address(caller, keccak256_of(init), salt),
                    ),
                ),
            }
        }),
{
    let source = transaction.source;
    let value = transaction.value;
    let gas_limit = transaction.gas_limit;
    match transaction.operation {
        Operation::Call { target, input } => {
            let (reason, output) = transact_call(executor, source, target, value, input, gas_limit);
            (reason, Returned::Output { target, output })
        },
        Operation::Create { init } => {
            let address = create_address(executor, CreateScheme::Legacy { caller: source });
            let reason = transact_create(executor, source, value, init, gas_limit);
            (reason, Returned::Address(address))
        },
        Operation::Create2 { init, salt } => {
            let code_hash = keccak256(init.as_slice());
            let address = create_address(
                executor,
                CreateScheme::Create2 { caller: source, code_hash, salt },
            );
            let reason = transact_create2(executor, source, value, init, salt, gas_limit);
            (reason, Returned::Address(address))
        },
    }
}

/// The part of a fee that goes back to the source, once it is known what was due.
pub fn refund_of(total_fee: U256, actual_fee: U256) -> (r: U256)
    ensures
        r@ == if total_fee@ >= actual_fee@ {
            total_fee@ - actual_fee@
        } else {
            0
        },
{
    total_fee.saturating_sub(actual_fee)
}

/// Runs a transaction on a store, without changing the store.
///
/// The whole fee is taken from the source in advance, and what is not used goes back to it.
pub fn execute<P: Precompiles>(
    state: &State,
    block: &Block,
    config: &evm::Config,
    transaction: Transaction,
) -> (r: Result<Execution, Error>)
    requires
        transaction@.stays_in_range(state@, config_of(*config)),
    ensures
        exists|answers: Answers| #[trigger]
            may_give::<P>(answers) && {
                let setting = Setting {
                    ledger: state@,
                    block: block@,
                    config: config_of(*config),
                    precompiles: answers,
                };
                &&& setting.outcome(transaction@) == match r {
                    Ok(execution) => Ok::<Outcome, Error>(execution@),
                    Err(error) => Err::<Outcome, Error>(error),
                }
                &&& setting.accounts_for(transaction@)
            },
{
    let source = transaction.source;
    let gas_price = transaction.gas_price;
    let ghost asked = transaction@;
    let source_account = state.accounts(&source);
    let total_fee = match transaction.charge(&source_account) {
        Ok(total_fee) => total_fee,
        Err(error) => {
            proof {
                let answers = lemma_some_answers::<P>();
                assert(may_give::<P>(answers));
            }
            return Err(error);
        },
    };

    let vicinity = memory_vicinity(&Vicinity { gas_price, origin: source }, block);
    let contracts = state.contracts();
    proof {
        state.lemma_finite();
        lemma_entries_finite(contracts@);
        lemma_opened(state@);
    }
    let backend = memory_backend(&vicinity, contracts);
    let mut executor = new_executor::<P>(&backend, transaction.gas_limit, config);
    let ghost start = held(session(executor));
    let ghost setting = Setting {
        ledger: state@,
        block: block@,
        config: config_of(*config),
        precompiles: session(executor).precompiles,
    };
    assert(session(executor) == setting.opened(asked));
    match withdraw(&mut executor, source, total_fee) {
        Ok(()) => {},
        Err(_) => {
            assert(balance_of(start, source) == state@.account(source).balance);
            return Err(Error::WithdrawFailed);
        },
    }
    let ghost charged = held(session(executor));
    proof {
        lemma_supply_insert(start, source, charged[source]);
        lemma_charged_in_range(state@, asked, start, charged);
    }

    let (reason, returned) = perform(&mut executor, transaction);
    let ghost ran = held(session(executor));
    assert(session(executor) == setting.ran(asked));

    let gas: usize = used_gas(&executor);
    let used_gas = U256::from_u128(gas as u128);
    proof {
        let used = gas_used(session(executor));
        assert(used * gas_price@ <= gas_price@ * (asked.gas_limit as nat)) by (nonlinear_arith)
            requires
                used <= asked.gas_limit,
                0 <= gas_price@,
        ;
    }
    let actual_fee = fee(&executor, gas_price);
    let refund = refund_of(total_fee, actual_fee);
    proof {
        assert(source_account.balance@ <= u256_max());
        lemma_refund_in_range(state@, asked, start, charged, ran, refund@);
    }
    deposit(&mut executor, source, refund);
    proof {
        lemma_supply_insert(ran, source, held(session(executor))[source]);
    }
    assert(session(executor) == setting.closed(asked));

    let ghost end = held(session(executor));
    let (values, logs) = close(executor);
    proof {
        lemma_settled_supply(state@, end, changes_of(values@));
        if !succeeded(reason) {
            assert(nonce_of(start, source) == state@.account(source).nonce);
            assert(balance_of(start, source) == state@.account(source).balance);
            lemma_only_paid(state@, asked, gas as nat, changes_of(values@), end[source]);
        }
    }
    let execution = Execution { reason, returned, used_gas, values, logs };
    assert(setting.outcome(asked) == Ok::<Outcome, Error>(execution@));
    assert(setting.accounts_for(asked));
    Ok(execution)
}

} // verus!
