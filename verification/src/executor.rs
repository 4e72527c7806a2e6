//! The stack executor of the `evm` crate, as far as the module drives it.
//!
//! An executor is an opaque value. What it was made with and what it has been asked to do since
//! is its [`Session`]; what its methods return is a function of the session alone.

use vstd::prelude::*;
use evm::backend::{Log as EvmLog, MemoryAccount, MemoryBackend, MemoryVicinity};
use evm::executor::StackExecutor;
use evm::{ExitError, ExitReason, ExitSucceed};
use sp_core::H160 as EvmAddress;
use crate::account_id::truncated_address;
use crate::config::{config_of, smaller, RuntimeConfig};
use crate::hashing::keccak256_of;
use crate::primitives::{u256_max, H160, H256, U256};
use crate::state::{
    changes_of, messages_of, Account, Apply, Basic, Change, Contract, GenesisAccount, Log,
    Message,
};
use crate::storage::{distinct_keys, entries_map};
use crate::supply::{balance_of, supply, words_fit};

verus! {

#[verifier::external_type_specification]
#[verifier::external_body]
pub struct ExMemoryVicinity(MemoryVicinity);

#[verifier::external_type_specification]
#[verifier::external_body]
pub struct ExMemoryBackend<'vicinity>(MemoryBackend<'vicinity>);

#[verifier::external_type_specification]
#[verifier::external_body]
#[verifier::reject_recursive_types(B)]
pub struct ExStackExecutor<'backend, 'config, B>(StackExecutor<'backend, 'config, B>);

#[verifier::external_type_specification]
#[verifier::external_body]
pub struct ExEvmAddress(EvmAddress);

#[verifier::external_type_specification]
#[verifier::external_body]
pub struct ExEvmLog(EvmLog);

#[verifier::external_type_specification]
#[verifier::external_body]
pub struct ExExitSucceed(ExitSucceed);

#[verifier::external_type_specification]
#[verifier::external_body]
pub struct ExExitError(ExitError);

#[verifier::external_type_specification]
#[verifier::external_body]
pub struct ExExitReason(ExitReason);

/// An executor over a store that is held in memory.
pub type Executor<'a> = StackExecutor<'a, 'a, MemoryBackend<'a>>;

/// The chain id that the host of the module reports.
#[derive(Clone, Copy, Debug)]
pub struct SystemChainId {
    /// The number that the host reported.
    pub id: u64,
}

impl SystemChainId {
    /// The chain id.
    pub fn get(&self) -> (r: u64)
        ensures
            r == self.id,
    {
        self.id
    }
}

/// The block that a transaction runs in.
#[derive(Debug)]
pub struct Block {
    /// Chain id.
    pub chain_id: SystemChainId,
    /// Hashes of the blocks before this one, the parent first.
    pub hashes: Vec<H256>,
    /// Block number.
    pub number: U256,
    /// The address that the block rewards.
    pub coinbase: H160,
    /// When the block was made.
    pub timestamp: U256,
    /// Block difficulty.
    pub difficulty: U256,
    /// Block gas limit.
    pub gas_limit: U256,
}

/// What a block says.
pub struct BlockView {
    /// Chain id.
    pub chain_id: u64,
    /// Hashes of the blocks before this one, the parent first.
    pub hashes: Seq<H256>,
    /// Block number.
    pub number: nat,
    /// The address that the block rewards.
    pub coinbase: H160,
    /// When the block was made.
    pub timestamp: nat,
    /// Block difficulty.
    pub difficulty: nat,
    /// Block gas limit.
    pub gas_limit: nat,
}

impl View for Block {
    type V = BlockView;

    open spec fn view(&self) -> BlockView {
        BlockView {
            chain_id: self.chain_id.id,
            hashes: self.hashes@,
            number: self.number@,
            coinbase: self.coinbase,
            timestamp: self.timestamp@,
            difficulty: self.difficulty@,
            gas_limit: self.gas_limit@,
        }
    }
}

/// What a transaction brings to its surroundings.
#[derive(Clone, Copy, Debug)]
pub struct Vicinity {
    /// The price of gas.
    pub gas_price: U256,
    /// The address that the transaction comes from.
    pub origin: H160,
}

/// What surrounds a transaction.
pub struct Surroundings {
    /// The price of gas.
    pub gas_price: nat,
    /// The address that the transaction comes from.
    pub origin: H160,
    /// The block that the transaction runs in.
    pub block: BlockView,
}

/// What an executor can read.
pub struct World {
    /// What surrounds the transaction.
    pub surroundings: Surroundings,
    /// What belongs to each address.
    pub contracts: Map<H160, Contract>,
}

/// What a precompile answers: nothing where there is none at the address, else an error, or the
/// way it succeeded with its output and the gas that it used.
pub type Answer = Option<Result<(ExitSucceed, Seq<u8>, usize), ExitError>>;

/// The answers of precompiles throughout one run, by how often they have been asked before, and by
/// address, input and gas limit.
pub type Answers = spec_fn(nat, H160, Seq<u8>, Option<usize>) -> Answer;

/// What a precompile's result says.
pub open spec fn answer_of(result: Option<Result<(ExitSucceed, Vec<u8>, usize), ExitError>>) -> Answer {
    match result {
        None => None,
        Some(Ok((exit, output, gas_used))) => Some(Ok((exit, output@, gas_used))),
        Some(Err(error)) => Some(Err(error)),
    }
}

/// Custom precompiles to be used by the EVM engine.
pub trait Precompiles {
    /// Whether the precompile at an address may give an answer to an input, within a gas limit.
    open spec fn may_answer(
        address: H160,
        input: Seq<u8>,
        target_gas: Option<usize>,
        answer: Answer,
    ) -> bool {
        true
    }

    /// Try to execute the code address as precompile. If the code address is not a precompile or
    /// the precompile is not yet available, return `None`. Otherwise, calculate the amount of gas
    /// needed with given `input` and `target_gas`. Return `Some(Ok(status, output, gas_used))` if
    /// the execution is successful. Otherwise return `Some(Err(_))`.
    fn execute(address: H160, input: &[u8], target_gas: Option<usize>) -> (r: Option<
        Result<(ExitSucceed, Vec<u8>, usize), ExitError>,
    >)
        ensures
            Self::may_answer(address, input@, target_gas, answer_of(r)),
    ;
}

impl Precompiles for () {
    open spec fn may_answer(
        address: H160,
        input: Seq<u8>,
        target_gas: Option<usize>,
        answer: Answer,
    ) -> bool {
        answer is None
    }

    fn execute(_address: H160, _input: &[u8], _target_gas: Option<usize>) -> (r: Option<
        Result<(ExitSucceed, Vec<u8>, usize), ExitError>,
    >) {
        None
    }
}

/// Whether all answers of a run are such that a type's precompiles may give them, as far as they
/// may give any.
pub open spec fn may_give<P: Precompiles>(answers: Answers) -> bool {
    forall|asked: nat, address: H160, input: Seq<u8>, target_gas: Option<usize>|
        (exists|answer: Answer| #[trigger] P::may_answer(address, input, target_gas, answer))
            ==> P::may_answer(
            address,
            input,
            target_gas,
            #[trigger] answers(asked, address, input, target_gas),
        )
}

/// Every type's precompiles may give some answers.
pub proof fn lemma_some_answers<P: Precompiles>() -> (answers: Answers)
    ensures
        may_give::<P>(answers),
{
    |asked: nat, address: H160, input: Seq<u8>, target_gas: Option<usize>|
        choose|answer: Answer| P::may_answer(address, input, target_gas, answer)
}

/// How the address of a new contract is found.
#[derive(Clone, Copy, Debug)]
pub enum CreateScheme {
    /// From the creator and its nonce.
    Legacy {
        /// The creator.
        caller: H160,
    },
    /// From the creator, the hash of the init code and a salt.
    Create2 {
        /// The creator.
        caller: H160,
        /// The hash of the init code.
        code_hash: H256,
        /// The salt.
        salt: H256,
    },
}

/// The bytes of a number, the most significant first, without leading zeros.
pub open spec fn big_endian(number: nat) -> Seq<u8>
    decreases number,
{
    if number == 0 {
        Seq::empty()
    } else {
        big_endian(number / 256).push((number % 256) as u8)
    }
}

/// The RLP encoding of a string of at most 55 bytes.
pub open spec fn rlp_string(bytes: Seq<u8>) -> Seq<u8> {
    if bytes.len() == 1 && bytes[0] < 0x80 {
        bytes
    } else {
        seq![(0x80 + bytes.len()) as u8] + bytes
    }
}

/// The address of a contract from its creator and the creator's nonce: the end of the hash of the
/// RLP list of the two.
pub open spec fn legacy_address(caller: H160, nonce: nat) -> H160 {
    let items = rlp_string(caller.0@) + rlp_string(big_endian(nonce));
    truncated_address(keccak256_of(seq![(0xc0 + items.len()) as u8] + items).0@)
}

/// The address of a contract from its creator, the hash of the init code and a salt: the end of
/// the hash of the mark `0xff` and the three.
pub open spec fn salted_address(caller: H160, code_hash: H256, salt: H256) -> H160 {
    truncated_address(keccak256_of(seq![0xffu8] + caller.0@ + salt.0@ + code_hash.0@).0@)
}

/// Something that an executor has been asked to do.
pub enum Step {
    /// To take balance from an address.
    Withdraw {
        /// The address.
        address: H160,
        /// How much.
        amount: nat,
    },
    /// To give balance to an address.
    Deposit {
        /// The address.
        address: H160,
        /// How much.
        amount: nat,
    },
    /// To run a call transaction.
    Call {
        /// The address that calls.
        caller: H160,
        /// The address that is called.
        target: H160,
        /// The value that goes with the call.
        value: nat,
        /// The input of the call.
        data: Seq<u8>,
        /// How much gas the call may use.
        gas_limit: nat,
    },
    /// To run a create transaction.
    Create {
        /// The creator.
        caller: H160,
        /// The value that goes to the new contract.
        value: nat,
        /// The init code.
        init: Seq<u8>,
        /// How much gas the creation may use.
        gas_limit: nat,
    },
    /// To run a create2 transaction.
    Create2 {
        /// The creator.
        caller: H160,
        /// The value that goes to the new contract.
        value: nat,
        /// The init code.
        init: Seq<u8>,
        /// The salt.
        salt: H256,
        /// How much gas the creation may use.
        gas_limit: nat,
    },
}

/// What an executor was made with, and what it has been asked to do since.
pub struct Session {
    /// What the executor can read.
    pub world: World,
    /// The configuration that it follows.
    pub config: RuntimeConfig,
    /// How much gas it may use.
    pub gas_limit: nat,
    /// The answers that it gets from the precompiles that it knows.
    pub precompiles: Answers,
    /// What it has been asked to do, the earliest first.
    pub steps: Seq<Step>,
}

impl Session {
    /// The session after one more step.
    pub open spec fn step(self, step: Step) -> Session {
        Session { steps: self.steps.push(step), ..self }
    }
}

/// The nonce and balance of each address in a world.
pub open spec fn basics(contracts: Map<H160, Contract>) -> Map<H160, Basic> {
    Map::new(
        |address: H160| contracts.contains_key(address),
        |address: H160| contracts[address].basic,
    )
}

/// The nonce of an address, zero where there is no account.
pub open spec fn nonce_of(accounts: Map<H160, Basic>, address: H160) -> nat {
    if accounts.contains_key(address) {
        accounts[address].nonce
    } else {
        0
    }
}

/// The address that a change is for.
pub open spec fn changed_address(change: Change) -> H160 {
    match change {
        Change::Modify { address, .. } => address,
        Change::Delete { address } => address,
    }
}

/// Whether no two changes are for the same address.
pub open spec fn distinct_addresses(changes: Seq<Change>) -> bool {
    forall|i: int, j: int|
        0 <= i < j < changes.len() ==> changed_address(#[trigger] changes[i]) != changed_address(
            #[trigger] changes[j],
        )
}

/// Whether a list of changes brings a world to what an executor holds: a modified address gets
/// the nonce and balance that the executor holds for it, and an address that is not mentioned has
/// them already.
pub open spec fn settles(
    contracts: Map<H160, Contract>,
    held: Map<H160, Basic>,
    changes: Seq<Change>,
) -> bool {
    &&& forall|i: int|
        0 <= i < changes.len() ==> ((#[trigger] changes[i]) matches Change::Modify {
            address,
            basic,
            ..
        } ==> held.contains_key(address) && held[address] == basic)
    &&& forall|address: H160| #[trigger]
        contracts.contains_key(address) && !(exists|i: int|
            0 <= i < changes.len() && changed_address(#[trigger] changes[i]) == address)
            ==> held.contains_key(address) && held[address] == contracts[address].basic
}

/// The change that gives an address another nonce and balance, and nothing else.
pub open spec fn account_change(address: H160, basic: Basic) -> Change {
    Change::Modify {
        address,
        basic,
        code: None,
        storage: Seq::empty(),
        reset_storage: false,
    }
}

/// Whether all that an executor asks for is that one address gets the nonce and balance that the
/// executor holds for it.
pub open spec fn touches_only(session: Session, address: H160) -> bool {
    &&& held(session).contains_key(address)
    &&& proceeds(session).0 == seq![account_change(address, held(session)[address])]
}

/// Whether nothing but the nonce of an address has changed, and that by one at most.
pub open spec fn only_counted(
    before: Map<H160, Basic>,
    after: Map<H160, Basic>,
    address: H160,
) -> bool {
    let counted = Basic {
        nonce: nonce_of(before, address) + 1,
        balance: balance_of(before, address),
    };
    after == before || after == before.insert(address, counted)
}

/// Whether one of a list of changes is for an address.
pub open spec fn mentions(changes: Seq<Change>, address: H160) -> bool {
    exists|i: int| 0 <= i < changes.len() && changed_address(#[trigger] changes[i]) == address
}

/// Whether a list of changes gives code to an address, or deletes it.
pub open spec fn gives_code(changes: Seq<Change>, address: H160) -> bool {
    exists|i: int|
        0 <= i < changes.len() && changed_address(#[trigger] changes[i]) == address && (
        changes[i] matches Change::Modify { code, .. } ==> code is Some)
}

/// Whether there is no code at an address.
pub open spec fn has_no_code(contracts: Map<H160, Contract>, address: H160) -> bool {
    contracts.contains_key(address) ==> contracts[address].code.len() == 0
}

/// Whether a caller's nonce can be counted up, and value moved from it to a target, without leaving
/// the range of a word.
pub open spec fn transfer_fits(
    accounts: Map<H160, Basic>,
    caller: H160,
    target: H160,
    value: nat,
) -> bool {
    &&& nonce_of(accounts, caller) < u256_max()
    &&& target == caller || balance_of(accounts, target) + value <= u256_max()
}

/// The accounts once a caller's nonce has been counted up, and value moved from it to a target.
pub open spec fn transferred(
    accounts: Map<H160, Basic>,
    caller: H160,
    target: H160,
    value: nat,
) -> Map<H160, Basic> {
    let taken = accounts.insert(
        caller,
        Basic {
            nonce: nonce_of(accounts, caller) + 1,
            balance: (balance_of(accounts, caller) - value) as nat,
        },
    );
    taken.insert(
        target,
        Basic {
            nonce: nonce_of(taken, target),
            balance: balance_of(taken, target) + value,
        },
    )
}

/// Whether all that an executor asks for is that two addresses get the nonces and balances that
/// the executor holds for them.
pub open spec fn touches_accounts(session: Session, address: H160, other: H160) -> bool {
    forall|i: int|
        0 <= i < proceeds(session).0.len() ==> (#[trigger] proceeds(session).0[i])
            == account_change(address, held(session)[address]) || proceeds(session).0[i]
            == account_change(other, held(session)[other])
}

/// Whether no precompile answers at an address to an input.
pub open spec fn no_answer(answers: Answers, address: H160, input: Seq<u8>) -> bool {
    forall|asked: nat, target_gas: Option<usize>|
        (#[trigger] answers(asked, address, input, target_gas)) is None
}

/// What a [`MemoryVicinity`] tells an executor.
pub uninterp spec fn vicinity_surroundings(vicinity: MemoryVicinity) -> Surroundings;

/// What a [`MemoryBackend`] holds.
pub uninterp spec fn backend_world(backend: MemoryBackend<'_>) -> World;

/// The bytes of an address of the `evm` crate.
pub uninterp spec fn address_of(address: EvmAddress) -> H160;

/// What a log of the `evm` crate says.
pub uninterp spec fn message_of(log: EvmLog) -> Message;

/// What an executor was made with and has been asked to do since.
pub uninterp spec fn session(executor: Executor<'_>) -> Session;

/// The nonces and balances that an executor holds after a session.
pub uninterp spec fn held(session: Session) -> Map<H160, Basic>;

/// How a call transaction ends, and what it returns.
pub uninterp spec fn call_outcome(session: Session, step: Step) -> (ExitReason, Seq<u8>);

/// How a create transaction ends.
pub uninterp spec fn create_outcome(session: Session, step: Step) -> ExitReason;

/// How a create2 transaction ends.
pub uninterp spec fn create2_outcome(session: Session, step: Step) -> ExitReason;

/// How much gas an executor has used after a session.
pub uninterp spec fn gas_used(session: Session) -> nat;

/// The changes that an executor asks for after a session, and the logs that it has kept.
pub uninterp spec fn proceeds(session: Session) -> (Seq<Change>, Seq<Message>);

/// Whether an execution has succeeded.
pub uninterp spec fn succeeded(reason: ExitReason) -> bool;

/// `evm::ExitReason::is_succeed`: whether the execution has succeeded. It is a function of the
/// reason alone.
pub assume_specification[ ExitReason::is_succeed ](reason: &ExitReason) -> (r: bool)
    ensures
        r == succeeded(*reason),
;

/// Makes an `evm::backend::MemoryVicinity` that tells an executor what is given here.
#[verifier::external_body]
pub(crate) fn memory_vicinity(vicinity: &Vicinity, block: &Block) -> (r: MemoryVicinity)
    ensures
        vicinity_surroundings(r) == (Surroundings {
            gas_price: vicinity.gas_price@,
            origin: vicinity.origin,
            block: block@,
        }),
{
    MemoryVicinity {
        gas_price: sp_core::U256(vicinity.gas_price.0),
        origin: EvmAddress(vicinity.origin.0),
        chain_id: sp_core::U256::from(block.chain_id.id),
        block_hashes: block.hashes.iter().map(|hash| sp_core::H256(hash.0)).collect(),
        block_number: sp_core::U256(block.number.0),
        block_coinbase: EvmAddress(block.coinbase.0),
        block_timestamp: sp_core::U256(block.timestamp.0),
        block_difficulty: sp_core::U256(block.difficulty.0),
        block_gas_limit: sp_core::U256(block.gas_limit.0),
    }
}

/// `evm::backend::MemoryBackend::new`: a backend that holds the given accounts within the given
/// surroundings, where no address occurs twice, and no index in one account.
#[verifier::external_body]
pub(crate) fn memory_backend<'a>(vicinity: &'a MemoryVicinity, accounts: Vec<(H160, GenesisAccount)>) -> (r:
    MemoryBackend<'a>)
    requires
        distinct_keys(accounts@),
        forall|i: int|
            0 <= i < accounts@.len() ==> distinct_keys((#[trigger] accounts@[i]).1.storage@),
    ensures
        backend_world(r) == (World {
            surroundings: vicinity_surroundings(*vicinity),
            contracts: entries_map(accounts@),
        }),
{
    let state = accounts.into_iter().map(|(address, account)| (EvmAddress(address.0), MemoryAccount {
        nonce: sp_core::U256(account.nonce.0),
        balance: sp_core::U256(account.balance.0),
        storage: account.storage.into_iter().map(|(index, value)| (sp_core::H256(index.0), sp_core::H256(value.0))).collect(),
        code: account.code,
    })).collect();
    MemoryBackend::new(vicinity, state)
}

/// `as_fixed_bytes` of the address type of the `evm` crate: the bytes of the address.
#[verifier::external_body]
fn address_from(address: EvmAddress) -> (r: H160)
    ensures
        r == address_of(address),
{
    H160(*address.as_fixed_bytes())
}

/// Asks a type's precompiles, as an executor does.
fn run_precompile<P: Precompiles>(
    address: EvmAddress,
    input: &[u8],
    target_gas: Option<usize>,
) -> (r: Option<Result<(ExitSucceed, Vec<u8>, usize), ExitError>>)
    ensures
        P::may_answer(address_of(address), input@, target_gas, answer_of(r)),
{
    P::execute(address_from(address), input, target_gas)
}

/// `StackExecutor::new_with_precompile`: an executor that reads the given backend, may use the
/// given gas, follows the given configuration, asks the precompiles that it is given, and has been
/// asked nothing yet. The nonces and balances that it holds are those of the backend. What the
/// precompiles will answer is that which their type allows.
#[verifier::external_body]
pub(crate) fn new_executor<'a, P: Precompiles>(
    backend: &'a MemoryBackend<'a>,
    gas_limit: u32,
    config: &'a evm::Config,
) -> (r: Executor<'a>)
    ensures
        session(r) == (Session {
            world: backend_world(*backend),
            config: config_of(*config),
            gas_limit: gas_limit as nat,
            precompiles: session(r).precompiles,
            steps: Seq::empty(),
        }),
        may_give::<P>(session(r).precompiles),
        held(session(r)) == basics(backend_world(*backend).contracts),
{
    StackExecutor::new_with_precompile(backend, gas_limit as usize, config, run_precompile::<P>)
}

/// `StackExecutor::withdraw`: takes balance from an address, and fails, leaving the balance as it
/// is, where the address has less. It asks for no change at any other address.
#[verifier::external_body]
pub(crate) fn withdraw(executor: &mut Executor<'_>, address: H160, amount: U256) -> (r: Result<(), ExitError>)
    ensures
        session(*final(executor)) == session(*old(executor)).step(
            Step::Withdraw { address, amount: amount@ },
        ),
        r is Ok <==> balance_of(held(session(*old(executor))), address) >= amount@,
        ({
            let before = held(session(*old(executor)));
            let balance = balance_of(before, address);
            held(session(*final(executor))) == before.insert(
                address,
                Basic {
                    nonce: nonce_of(before, address),
                    balance: if r is Ok {
                        (balance - amount@) as nat
                    } else {
                        balance
                    },
                },
            )
        }),
        session(*old(executor)).steps.len() == 0 ==> touches_only(
            session(*final(executor)),
            address,
        ),
{
    executor.withdraw(EvmAddress(address.0), sp_core::U256(amount.0))
}

/// `StackExecutor::deposit`: gives balance to an address. It asks for a change at that address
/// and, beside those asked for before, at no other, and drops no code. It panics where the sum does not fit in a word.
#[verifier::external_body]
pub(crate) fn deposit(executor: &mut Executor<'_>, address: H160, amount: U256)
    requires
        balance_of(held(session(*old(executor))), address) + amount@ <= u256_max(),
    ensures
        session(*final(executor)) == session(*old(executor)).step(
            Step::Deposit { address, amount: amount@ },
        ),
        ({
            let before = held(session(*old(executor)));
            held(session(*final(executor))) == before.insert(
                address,
                Basic {
                    nonce: nonce_of(before, address),
                    balance: balance_of(before, address) + amount@,
                },
            )
        }),
        touches_only(session(*old(executor)), address) ==> touches_only(
            session(*final(executor)),
            address,
        ),
        forall|other: H160| #[trigger]
            touches_accounts(session(*old(executor)), address, other) ==> touches_accounts(
                session(*final(executor)),
                address,
                other,
            ),
        mentions(proceeds(session(*final(executor))).0, address),
        forall|other: H160| #[trigger]
            mentions(proceeds(session(*old(executor))).0, other) ==> mentions(
                proceeds(session(*final(executor))).0,
                other,
            ),
        forall|coded: H160| #[trigger]
            gives_code(proceeds(session(*old(executor))).0, coded) ==> gives_code(
                proceeds(session(*final(executor))).0,
                coded,
            ),
{
    executor.deposit(EvmAddress(address.0), sp_core::U256(amount.0))
}

/// `StackExecutor::create_address`: the address of a new contract. The legacy scheme takes the
/// nonce that the executor holds for the creator; the other scheme takes nothing from the
/// executor.
#[verifier::external_body]
pub(crate) fn create_address(executor: &Executor<'_>, scheme: CreateScheme) -> (r: H160)
    ensures
        r == match scheme {
            CreateScheme::Legacy { caller } => legacy_address(
                caller,
                nonce_of(held(session(*executor)), caller),
            ),
            CreateScheme::Create2 { caller, code_hash, salt } => salted_address(
                caller,
                code_hash,
                salt,
            ),
        },
{
    let scheme = match scheme {
        CreateScheme::Legacy { caller } => evm::CreateScheme::Legacy { caller: EvmAddress(caller.0) },
        CreateScheme::Create2 { caller, code_hash, salt } => evm::CreateScheme::Create2 {
            caller: EvmAddress(caller.0),
            code_hash: sp_core::H256(code_hash.0),
            salt: sp_core::H256(salt.0),
        },
    };
    H160(executor.create_address(scheme).0)
}

/// `StackExecutor::transact_call`: runs a call transaction. How it ends and what it returns is a
/// function of the session and of the arguments. Balance is moved between addresses or lost, never
/// made. Where the transaction succeeds, the nonce of the caller has been counted up; where it
/// does not, nothing but the nonce of the caller can have changed. A call to an address without
/// code only moves value; where no precompile answers there either, it succeeds wherever the gas
/// pays for the transaction and the balance for the value, and costs what the transaction does. It
/// panics where a balance or a nonce would leave the range of a word, or a cost the range of a
/// machine word. That the machine has the memory and the stack that the code asks for is left
/// unsaid: a copy of no bytes to a far offset makes the memory grow up to it at no cost in gas,
/// and ends in a panic where there is no such memory; and each nested call copies the logs that
/// are there, and adds the copies to them.
#[verifier::external_body]
pub(crate) fn transact_call(
    executor: &mut Executor<'_>,
    caller: H160,
    target: H160,
    value: U256,
    data: Vec<u8>,
    gas_limit: u32,
) -> (r: (ExitReason, Vec<u8>))
    requires
        held(session(*old(executor))).dom().finite(),
        words_fit(held(session(*old(executor))), session(*old(executor)).gas_limit) || (
        touches_only(session(*old(executor)), caller) && has_no_code(
            session(*old(executor)).world.contracts,
            target,
        ) && transfer_fits(held(session(*old(executor))), caller, target, value@)),
        session(*old(executor)).config.costs_fit(session(*old(executor)).gas_limit, data@.len()),
    ensures
        ({
            let before = session(*old(executor));
            let step = Step::Call {
                caller,
                target,
                value: value@,
                data: data@,
                gas_limit: gas_limit as nat,
            };
            session(*final(executor)) == before.step(step) && (r.0, r.1@) == call_outcome(
                before,
                step,
            )
        }),
        held(session(*final(executor))).dom().finite(),
        supply(held(session(*final(executor)))) <= supply(held(session(*old(executor)))),
        !succeeded(r.0) ==> {
            let (before, after) = (session(*old(executor)), session(*final(executor)));
            &&& only_counted(held(before), held(after), caller)
            &&& touches_only(before, caller) ==> touches_only(after, caller)
        },
        succeeded(r.0) ==> nonce_of(held(session(*final(executor))), caller) > nonce_of(
            held(session(*old(executor))),
            caller,
        ),
        ({
            let (before, after) = (session(*old(executor)), session(*final(executor)));
            succeeded(r.0) && touches_only(before, caller) && has_no_code(
                before.world.contracts,
                target,
            ) ==> {
                &&& held(after) == transferred(held(before), caller, target, value@)
                &&& touches_accounts(after, caller, target)
                &&& mentions(proceeds(after).0, target)
            }
        }),
        ({
            let (before, after) = (session(*old(executor)), session(*final(executor)));
            let cost = before.config.call_cost(data@);
            before.steps.len() == 1 && before.steps[0] is Withdraw && has_no_code(
                before.world.contracts,
                target,
            ) && no_answer(before.precompiles, target, data@) ==> {
                &&& succeeded(r.0) <==> cost <= before.gas_limit && balance_of(
                    held(before),
                    caller,
                ) >= value@
                &&& r.1@ == Seq::<u8>::empty()
                &&& gas_used(after) == smaller(cost, before.gas_limit)
            }
        }),
{
    executor.transact_call(
        EvmAddress(caller.0),
        EvmAddress(target.0),
        sp_core::U256(value.0),
        data,
        gas_limit as usize,
    )
}

/// `StackExecutor::transact_create`: runs a create transaction. How it ends is a function of the
/// session and of the arguments. Balance is moved between addresses or lost, never made. Where the
/// transaction succeeds, the nonce of the caller has been counted up, and the new contract gets
/// its code, unless it destroys itself; where it does not, nothing but the nonce of the caller can
/// have changed. It panics where a balance or a nonce would leave the range of a word, or a cost
/// the range of a machine word. That the machine has the memory and the stack that the code asks
/// for is left unsaid: a copy of no bytes to a far offset makes the memory grow up to it at no
/// cost in gas, and ends in a panic where there is no such memory; and each nested call copies the
/// logs that are there, and adds the copies to them.
#[verifier::external_body]
pub(crate) fn transact_create(
    executor: &mut Executor<'_>,
    caller: H160,
    value: U256,
    init: Vec<u8>,
    gas_limit: u32,
) -> (r: ExitReason)
    requires
        held(session(*old(executor))).dom().finite(),
        words_fit(held(session(*old(executor))), session(*old(executor)).gas_limit),
        session(*old(executor)).config.costs_fit(session(*old(executor)).gas_limit, init@.len()),
    ensures
        ({
            let before = session(*old(executor));
            let step = Step::Create {
                caller,
                value: value@,
                init: init@,
                gas_limit: gas_limit as nat,
            };
            session(*final(executor)) == before.step(step) && r == create_outcome(before, step)
        }),
        held(session(*final(executor))).dom().finite(),
        supply(held(session(*final(executor)))) <= supply(held(session(*old(executor)))),
        !succeeded(r) ==> {
            let (before, after) = (session(*old(executor)), session(*final(executor)));
            &&& only_counted(held(before), held(after), caller)
            &&& touches_only(before, caller) ==> touches_only(after, caller)
        },
        succeeded(r) ==> nonce_of(held(session(*final(executor))), caller) > nonce_of(
            held(session(*old(executor))),
            caller,
        ),
        succeeded(r) ==> gives_code(
            proceeds(session(*final(executor))).0,
            legacy_address(caller, nonce_of(held(session(*old(executor))), caller)),
        ),
{
    executor.transact_create(
        EvmAddress(caller.0),
        sp_core::U256(value.0),
        init,
        gas_limit as usize,
    )
}

/// `StackExecutor::transact_create2`: runs a create2 transaction. How it ends is a function of the
/// session and of the arguments. Balance is moved between addresses or lost, never made. Where the
/// transaction succeeds, the nonce of the caller has been counted up, and the new contract gets
/// its code, unless it destroys itself; where it does not, nothing but the nonce of the caller can
/// have changed. It panics where a balance or a nonce would leave the range of a word, or a cost
/// the range of a machine word. That the machine has the memory and the stack that the code asks
/// for is left unsaid: a copy of no bytes to a far offset makes the memory grow up to it at no
/// cost in gas, and ends in a panic where there is no such memory; and each nested call copies the
/// logs that are there, and adds the copies to them.
#[verifier::external_body]
pub(crate) fn transact_create2(
    executor: &mut Executor<'_>,
    caller: H160,
    value: U256,
    init: Vec<u8>,
    salt: H256,
    gas_limit: u32,
) -> (r: ExitReason)
    requires
        held(session(*old(executor))).dom().finite(),
        words_fit(held(session(*old(executor))), session(*old(executor)).gas_limit),
        session(*old(executor)).config.costs_fit(session(*old(executor)).gas_limit, init@.len()),
    ensures
        ({
            let before = session(*old(executor));
            let step = Step::Create2 {
                caller,
                value: value@,
                init: init@,
                salt,
                gas_limit: gas_limit as nat,
            };
            session(*final(executor)) == before.step(step) && r == create2_outcome(before, step)
        }),
        held(session(*final(executor))).dom().finite(),
        supply(held(session(*final(executor)))) <= supply(held(session(*old(executor)))),
        !succeeded(r) ==> {
            let (before, after) = (session(*old(executor)), session(*final(executor)));
            &&& only_counted(held(before), held(after), caller)
            &&& touches_only(before, caller) ==> touches_only(after, caller)
        },
        succeeded(r) ==> nonce_of(held(session(*final(executor))), caller) > nonce_of(
            held(session(*old(executor))),
            caller,
        ),
        succeeded(r) ==> gives_code(
            proceeds(session(*final(executor))).0,
            salted_address(caller, keccak256_of(init@), salt),
        ),
{
    executor.transact_create2(
        EvmAddress(caller.0),
        sp_core::U256(value.0),
        init,
        sp_core::H256(salt.0),
        gas_limit as usize,
    )
}

/// `StackExecutor::used_gas`: how much gas has been used, never more than the executor may use.
#[verifier::external_body]
pub(crate) fn used_gas(executor: &Executor<'_>) -> (r: usize)
    ensures
        r == gas_used(session(*executor)),
        r <= session(*executor).gas_limit,
{
    executor.used_gas()
}

/// `StackExecutor::fee`: the gas that has been used, times the given price. It panics where the
/// product does not fit in a word.
#[verifier::external_body]
pub(crate) fn fee(executor: &Executor<'_>, price: U256) -> (r: U256)
    requires
        gas_used(session(*executor)) * price@ <= u256_max(),
    ensures
        r@ == gas_used(session(*executor)) * price@,
{
    U256(executor.fee(sp_core::U256(price.0)).0)
}

/// `StackExecutor::deconstruct`: the changes that bring the store to what the executor holds, at
/// most one for each address, and the logs.
#[verifier::external_body]
fn deconstruct(executor: Executor<'_>) -> (r: (Vec<Apply>, Vec<EvmLog>))
    ensures
        (changes_of(r.0@), r.1@.map_values(|log: EvmLog| message_of(log))) == proceeds(
            session(executor),
        ),
        settles(
            session(executor).world.contracts,
            held(session(executor)),
            changes_of(r.0@),
        ),
        distinct_addresses(changes_of(r.0@)),
{
    let (values, logs) = executor.deconstruct();
    let values = values.into_iter().map(|value| match value {
        evm::backend::Apply::Modify { address, basic, code, storage, reset_storage } => {
            let basic = Account { nonce: U256(basic.nonce.0), balance: U256(basic.balance.0) };
            let storage = storage.into_iter().map(|(i, v)| (H256(i.0), H256(v.0))).collect();
            Apply::Modify { address: H160(address.0), basic, code, storage, reset_storage }
        },
        evm::backend::Apply::Delete { address } => Apply::Delete { address: H160(address.0) },
    });
    (values.collect(), logs.into_iter().collect())
}

/// Reads the fields of an `evm::backend::Log`.
#[verifier::external_body]
fn log_from(log: EvmLog) -> (r: Log)
    ensures
        r@ == message_of(log),
{
    Log {
        address: H160(log.address.0),
        topics: log.topics.into_iter().map(|topic| H256(topic.0)).collect(),
        data: log.data,
    }
}

/// Ends a session: the changes that bring the store to what the executor holds, and the logs.
pub(crate) fn close(executor: Executor<'_>) -> (r: (Vec<Apply>, Vec<Log>))
    ensures
        (changes_of(r.0@), messages_of(r.1@)) == proceeds(session(executor)),
        settles(
            session(executor).world.contracts,
            held(session(executor)),
            changes_of(r.0@),
        ),
        distinct_addresses(changes_of(r.0@)),
{
    let ghost ended = session(executor);
    let (values, evm_logs) = deconstruct(executor);
    let ghost messages = proceeds(ended).1;
    let mut logs: Vec<Log> = Vec::new();
    for log in iter: evm_logs
        invariant
            iter.seq() == evm_logs@,
            messages == evm_logs@.map_values(|log: EvmLog| message_of(log)),
            messages_of(logs@) == messages.take(iter.index()),
        decreases evm_logs@.len() - iter.index(),
    {
        let ghost before = logs@;
        logs.push(log_from(log));
        assert(messages_of(logs@) =~= messages_of(before).push(messages[iter.index()]));
        assert(messages.take(iter.index() + 1) =~= messages.take(iter.index()).push(
            messages[iter.index()],
        ));
    }
    assert(messages.take(messages.len() as int) =~= messages);
    (values, logs)
}

} // verus!
