use evm::{Config, ExitError, ExitReason, ExitRevert, ExitSucceed};
use pallet_evm::account_id::{AccountId32, HashTruncateConvertAccountId, ModuleId};
use pallet_evm::execution::{execute, refund_of, Error, Operation, Returned, Transaction};
use pallet_evm::executor::{Block, Precompiles, SystemChainId};
use pallet_evm::hashing::BlakeTwo256;
use pallet_evm::module::{Event, Get, Module, Trait};
use pallet_evm::primitives::{H160, H256, U256};
use pallet_evm::state::{Account, Apply, GenesisAccount, Log, State};

const MAX: U256 = U256([u64::MAX, u64::MAX, u64::MAX, u64::MAX]);
const SENDER: H160 = H160([0xa1; 20]);
const CONTRACT: H160 = H160([0xc0; 20]);

struct Id;

impl Get<ModuleId> for Id {
    fn get() -> ModuleId {
        ModuleId(*b"py/evmpa")
    }
}

struct Runtime;

impl Trait for Runtime {
    type AccountId = AccountId32;
    type ModuleId = Id;
    type FeeCalculator = ();
    type ConvertAccountId = HashTruncateConvertAccountId<BlakeTwo256>;
    type Precompiles = ();
}

/// A precompile at one address that gives its input back, and one that fails.
struct Echo;

impl Precompiles for Echo {
    fn execute(
        address: H160,
        input: &[u8],
        _target_gas: Option<usize>,
    ) -> Option<Result<(ExitSucceed, Vec<u8>, usize), ExitError>> {
        if address == H160([0xe0; 20]) {
            Some(Ok((ExitSucceed::Returned, input.to_vec(), 7)))
        } else if address == H160([0xe1; 20]) {
            Some(Err(ExitError::OutOfFund))
        } else {
            None
        }
    }
}

struct OldRuntime;

impl Trait for OldRuntime {
    type AccountId = AccountId32;
    type ModuleId = Id;
    type FeeCalculator = ();
    type ConvertAccountId = HashTruncateConvertAccountId<BlakeTwo256>;
    type Precompiles = Echo;

    fn config() -> Config {
        Config::frontier()
    }
}

fn number(value: u128) -> U256 {
    U256::from_u128(value)
}

fn account(nonce: u128, balance: u128) -> Account {
    Account { nonce: number(nonce), balance: number(balance) }
}

fn word(byte: u8) -> H256 {
    let mut bytes = [0u8; 32];
    bytes[31] = byte;
    H256(bytes)
}

fn block() -> Block {
    Block {
        chain_id: SystemChainId { id: 42 },
        hashes: vec![H256([0x61; 32]), H256([0x62; 32])],
        number: number(10),
        coinbase: H160([0x0c; 20]),
        timestamp: number(1_600_000_000),
        difficulty: number(17),
        gas_limit: number(99),
    }
}

fn module<T: Trait>(code: &[u8], balance: u128) -> Module<T> {
    let mut module = Module::<T>::new(block());
    module.state.put_account(&SENDER, account(5, 10_000_000));
    let contract = GenesisAccount {
        nonce: number(1),
        balance: number(balance),
        storage: vec![(word(9), word(99))],
        code: code.to_vec(),
    };
    module.state.build(&vec![(CONTRACT, contract)]);
    module
}

fn succeeded(reason: ExitReason) -> bool {
    matches!(reason, ExitReason::Succeed(_))
}

/// What the contract returns that leaves the result of the given instructions.
fn returned(instructions: &[u8]) -> Vec<u8> {
    let mut code = instructions.to_vec();
    code.extend_from_slice(&[0x60, 0x00, 0x52, 0x60, 0x20, 0x60, 0x00, 0xf3]);
    let mut module = module::<Runtime>(&code, 0);
    let (reason, output, _) = module
        .execute_call(SENDER, CONTRACT, vec![], number(0), 100_000, number(2), None, false)
        .unwrap();
    assert_eq!(reason, ExitReason::Succeed(ExitSucceed::Returned));
    output
}

#[test]
fn a_call_moves_value_and_charges_gas() {
    let mut module = module::<Runtime>(&[], 0);
    let target = H160([0xb2; 20]);
    let (reason, output, used_gas) = module
        .execute_call(SENDER, target, vec![], number(1000), 30_000, number(2), None, true)
        .unwrap();
    assert_eq!(reason, ExitReason::Succeed(ExitSucceed::Stopped));
    assert!(output.is_empty());
    assert_eq!(used_gas, number(21_000));
    assert_eq!(module.accounts(&SENDER), account(6, 10_000_000 - 1000 - 42_000));
    assert_eq!(module.accounts(&target), account(0, 1000));
    assert!(module.events.is_empty());
}

#[test]
fn input_bytes_cost_gas() {
    let mut module = module::<Runtime>(&[], 0);
    let (_, _, used_gas) = module
        .execute_call(SENDER, CONTRACT, vec![0, 1, 2], number(0), 30_000, number(0), None, true)
        .unwrap();
    assert_eq!(used_gas, number(21_000 + 4 + 16 + 16));
}

#[test]
fn a_call_can_store_a_value() {
    let mut module = module::<Runtime>(&[0x60, 0x2a, 0x60, 0x01, 0x55, 0x00], 0);
    let (reason, _, used_gas) = module
        .execute_call(SENDER, CONTRACT, vec![], number(0), 100_000, number(1), None, true)
        .unwrap();
    assert!(succeeded(reason));
    assert_eq!(used_gas, number(41_006));
    assert_eq!(module.account_storages(&CONTRACT, &word(1)), word(0x2a));
    assert_eq!(module.account_storages(&CONTRACT, &word(9)), word(99));
    assert_eq!(module.accounts(&SENDER), account(6, 10_000_000 - 41_006));
}

#[test]
fn a_call_can_clear_a_value() {
    let mut module = module::<Runtime>(&[0x60, 0x00, 0x60, 0x09, 0x55, 0x00], 0);
    let (reason, _, _) = module
        .execute_call(SENDER, CONTRACT, vec![], number(0), 100_000, number(1), None, true)
        .unwrap();
    assert!(succeeded(reason));
    assert_eq!(module.account_storages(&CONTRACT, &word(9)), H256::zero());
}

#[test]
fn a_call_reads_what_is_stored() {
    let mut output = vec![0u8; 31];
    output.push(99);
    assert_eq!(returned(&[0x60, 0x09, 0x54]), output);
}

#[test]
fn a_log_becomes_an_event() {
    let code = [
        0x60, 0xab, 0x60, 0x00, 0x53, 0x60, 0x07, 0x60, 0x01, 0x60, 0x00, 0xa1, 0x60, 0x08, 0x60,
        0x00, 0x60, 0x00, 0xa1, 0x00,
    ];
    let mut module = module::<Runtime>(&code, 0);
    let (reason, _, _) = module
        .execute_call(SENDER, CONTRACT, vec![], number(0), 100_000, number(1), None, true)
        .unwrap();
    assert!(succeeded(reason));
    let first = Log { address: CONTRACT, topics: vec![word(7)], data: vec![0xab] };
    let second = Log { address: CONTRACT, topics: vec![word(8)], data: vec![] };
    assert_eq!(module.events.len(), 2);
    assert!(matches!(&module.events[0], Event::Log(log) if *log == first));
    assert!(matches!(&module.events[1], Event::Log(log) if *log == second));
}

#[test]
fn an_invalid_instruction_uses_all_gas_and_changes_nothing_else() {
    let mut module = module::<Runtime>(&[0x60, 0x2a, 0x60, 0x01, 0x55, 0xfe], 0);
    let (reason, output, used_gas) = module
        .execute_call(SENDER, CONTRACT, vec![], number(50), 60_000, number(3), None, true)
        .unwrap();
    assert_eq!(reason, ExitReason::Error(ExitError::OutOfGas));
    assert!(output.is_empty());
    assert_eq!(used_gas, number(60_000));
    assert_eq!(module.accounts(&SENDER), account(6, 10_000_000 - 180_000));
    assert_eq!(module.accounts(&CONTRACT), account(1, 0));
    assert_eq!(module.account_storages(&CONTRACT, &word(1)), H256::zero());
}

#[test]
fn a_revert_returns_unused_gas() {
    let mut module = module::<Runtime>(&[0x60, 0x00, 0x60, 0x00, 0xfd], 0);
    let (reason, _, used_gas) = module
        .execute_call(SENDER, CONTRACT, vec![], number(50), 60_000, number(3), None, true)
        .unwrap();
    assert_eq!(reason, ExitReason::Revert(ExitRevert::Reverted));
    assert_eq!(used_gas, number(21_006));
    assert_eq!(module.accounts(&SENDER), account(6, 10_000_000 - 63_018));
    assert_eq!(module.accounts(&CONTRACT), account(1, 0));
}

#[test]
fn too_little_gas_for_the_transaction_itself_keeps_the_nonce() {
    let mut module = module::<Runtime>(&[], 0);
    let (reason, _, used_gas) = module
        .execute_call(SENDER, CONTRACT, vec![], number(0), 20_999, number(1), None, true)
        .unwrap();
    assert_eq!(reason, ExitReason::Error(ExitError::OutOfGas));
    assert_eq!(used_gas, number(20_999));
    assert_eq!(module.accounts(&SENDER), account(5, 10_000_000 - 20_999));
}

#[test]
fn a_destroyed_contract_is_deleted() {
    let mut module = module::<Runtime>(&[0x33, 0xff], 500);
    let (reason, _, used_gas) = module
        .execute_call(SENDER, CONTRACT, vec![], number(0), 100_000, number(1), None, true)
        .unwrap();
    assert_eq!(reason, ExitReason::Succeed(ExitSucceed::Suicided));
    assert_eq!(used_gas, number(13_001));
    assert_eq!(module.accounts(&SENDER), account(6, 10_000_000 + 500 - 13_001));
    assert!(module.is_account_empty(&CONTRACT));
    assert!(module.account_codes(&CONTRACT).is_empty());
    assert_eq!(module.account_storages(&CONTRACT, &word(9)), H256::zero());
}

#[test]
fn a_source_that_is_left_empty_is_removed() {
    let mut module = module::<Runtime>(&[], 0);
    let source = H160([0xb3; 20]);
    module.state.put_account(&source, account(0, 20_000));
    let held = module.state.contracts().len();
    let (reason, _, _) = module
        .execute_call(source, CONTRACT, vec![], number(0), 20_000, number(1), None, true)
        .unwrap();
    assert!(!succeeded(reason));
    assert!(module.is_account_empty(&source));
    assert_eq!(module.state.contracts().len(), held - 1);
}

#[test]
fn a_contract_is_created_at_the_legacy_address() {
    let mut module = module::<Runtime>(&[], 0);
    let creator = H160([
        0x6a, 0xc7, 0xea, 0x33, 0xf8, 0x83, 0x1e, 0xa9, 0xdc, 0xc5, 0x33, 0x93, 0xaa, 0xa8, 0x8b,
        0x25, 0xa7, 0x85, 0xdb, 0xf0,
    ]);
    let first = H160([
        0xcd, 0x23, 0x4a, 0x47, 0x1b, 0x72, 0xba, 0x2f, 0x1c, 0xcf, 0x0a, 0x70, 0xfc, 0xab, 0xa6,
        0x48, 0xa5, 0xee, 0xcd, 0x8d,
    ]);
    let second = H160([
        0x34, 0x3c, 0x43, 0xa3, 0x7d, 0x37, 0xdf, 0xf0, 0x8a, 0xe8, 0xc4, 0xa1, 0x15, 0x44, 0xc7,
        0x18, 0xab, 0xb4, 0xfc, 0xf8,
    ]);
    module.state.put_account(&creator, account(0, 10_000_000));
    let init = vec![0x60, 0x5b, 0x60, 0x00, 0x53, 0x60, 0x01, 0x60, 0x00, 0xf3];
    let (reason, address, _) = module
        .execute_create(creator, init.clone(), number(5), 200_000, number(1), None, true)
        .unwrap();
    assert_eq!(reason, ExitReason::Succeed(ExitSucceed::Returned));
    assert_eq!(address, first);
    assert_eq!(module.account_codes(&first), vec![0x5b]);
    assert_eq!(module.accounts(&first), account(1, 5));
    assert_eq!(module.accounts(&creator).nonce, number(1));
    let (_, address, _) = module
        .execute_create(creator, init, number(0), 200_000, number(1), Some(number(1)), true)
        .unwrap();
    assert_eq!(address, second);
    assert_eq!(module.account_codes(&second), vec![0x5b]);
}

#[test]
fn a_contract_is_created_at_the_salted_address() {
    let mut module = module::<Runtime>(&[], 0);
    let mut bytes = [0u8; 20];
    bytes[0..4].copy_from_slice(&[0xde, 0xad, 0xbe, 0xef]);
    let creator = H160(bytes);
    let expected = H160([
        0xb9, 0x28, 0xf6, 0x9b, 0xb1, 0xd9, 0x1c, 0xd6, 0x52, 0x74, 0xe3, 0xc7, 0x9d, 0x89, 0x86,
        0x36, 0x29, 0x84, 0xfd, 0xa3,
    ]);
    module.state.put_account(&creator, account(0, 10_000_000));
    let (reason, address, _) = module
        .execute_create2(
            creator,
            vec![0x00],
            H256::zero(),
            number(3),
            200_000,
            number(1),
            None,
            true,
        )
        .unwrap();
    assert_eq!(reason, ExitReason::Succeed(ExitSucceed::Stopped));
    assert_eq!(address, expected);
    assert_eq!(module.accounts(&expected), account(1, 3));
}

#[test]
fn the_salt_and_the_init_code_settle_the_address() {
    let mut module = module::<Runtime>(&[], 0);
    let mut bytes = [0u8; 20];
    bytes[16..20].copy_from_slice(&[0xde, 0xad, 0xbe, 0xef]);
    let creator = H160(bytes);
    let mut salt = [0u8; 32];
    salt[28..32].copy_from_slice(&[0xca, 0xfe, 0xba, 0xbe]);
    let expected = H160([
        0x60, 0xf3, 0xf6, 0x40, 0xa8, 0x50, 0x8f, 0xc6, 0xa8, 0x6d, 0x45, 0xdf, 0x05, 0x19, 0x62,
        0x66, 0x8e, 0x1e, 0x8a, 0xc7,
    ]);
    module.state.put_account(&creator, account(0, 10_000_000));
    let (reason, address, used_gas) = module
        .execute_create2(
            creator,
            vec![0xde, 0xad, 0xbe, 0xef],
            H256(salt),
            number(0),
            200_000,
            number(1),
            None,
            true,
        )
        .unwrap();
    assert!(!succeeded(reason));
    assert_eq!(address, expected);
    assert_eq!(used_gas, number(200_000));
    assert!(module.account_codes(&expected).is_empty());
    assert_eq!(module.accounts(&creator), account(1, 10_000_000 - 200_000));
}

#[test]
fn a_second_creation_at_the_same_address_collides() {
    let mut module = module::<Runtime>(&[], 0);
    let init = vec![0x60, 0x5b, 0x60, 0x00, 0x53, 0x60, 0x01, 0x60, 0x00, 0xf3];
    let (reason, first, _) = module
        .execute_create2(
            SENDER,
            init.clone(),
            word(1),
            number(0),
            200_000,
            number(0),
            None,
            true,
        )
        .unwrap();
    assert!(succeeded(reason));
    let (reason, second, _) = module
        .execute_create2(SENDER, init, word(1), number(0), 200_000, number(0), None, true)
        .unwrap();
    assert_eq!(reason, ExitReason::Error(ExitError::CreateCollision));
    assert_eq!(first, second);
    assert_eq!(module.account_codes(&first), vec![0x5b]);
}

#[test]
fn the_fee_must_not_overflow() {
    let mut module = module::<Runtime>(&[], 0);
    let result =
        module.execute_call(SENDER, CONTRACT, vec![], number(0), 2, MAX, None, true);
    assert_eq!(result.unwrap_err(), Error::FeeOverflow);
}

#[test]
fn the_payment_must_not_overflow() {
    let mut module = module::<Runtime>(&[], 0);
    let result =
        module.execute_call(SENDER, CONTRACT, vec![], MAX, 1, number(1), None, true);
    assert_eq!(result.unwrap_err(), Error::PaymentOverflow);
}

#[test]
fn the_balance_must_cover_value_and_fee() {
    let mut module = module::<Runtime>(&[], 0);
    module.state.put_account(&SENDER, account(5, 30_099));
    let result =
        module.execute_call(SENDER, CONTRACT, vec![], number(100), 30_000, number(1), None, true);
    assert_eq!(result.unwrap_err(), Error::BalanceLow);
    assert_eq!(module.accounts(&SENDER), account(5, 30_099));
    module.state.put_account(&SENDER, account(5, 30_100));
    let result =
        module.execute_call(SENDER, CONTRACT, vec![], number(100), 30_000, number(1), None, true);
    assert!(result.is_ok());
    assert_eq!(module.accounts(&SENDER), account(6, 9_000));
    assert_eq!(module.accounts(&CONTRACT), account(1, 100));
}

#[test]
fn a_given_nonce_must_be_that_of_the_source() {
    let mut module = module::<Runtime>(&[], 0);
    let result = module.execute_call(
        SENDER,
        CONTRACT,
        vec![],
        number(0),
        30_000,
        number(1),
        Some(number(4)),
        true,
    );
    assert_eq!(result.unwrap_err(), Error::InvalidNonce);
    assert_eq!(module.accounts(&SENDER), account(5, 10_000_000));
    let result = module.execute_call(
        SENDER,
        CONTRACT,
        vec![],
        number(0),
        30_000,
        number(1),
        Some(number(5)),
        true,
    );
    assert!(result.is_ok());
    assert_eq!(module.accounts(&SENDER), account(6, 10_000_000 - 21_000));
}

#[test]
fn the_surroundings_can_be_read() {
    let mut chain_id = vec![0u8; 31];
    chain_id.push(42);
    assert_eq!(returned(&[0x46]), chain_id);
    let mut height = vec![0u8; 31];
    height.push(10);
    assert_eq!(returned(&[0x43]), height);
    let mut time = vec![0u8; 28];
    time.extend_from_slice(&1_600_000_000u32.to_be_bytes());
    assert_eq!(returned(&[0x42]), time);
    let mut coinbase = vec![0u8; 12];
    coinbase.extend_from_slice(&[0x0c; 20]);
    assert_eq!(returned(&[0x41]), coinbase);
    let mut difficulty = vec![0u8; 31];
    difficulty.push(17);
    assert_eq!(returned(&[0x44]), difficulty);
    let mut gas_limit = vec![0u8; 31];
    gas_limit.push(99);
    assert_eq!(returned(&[0x45]), gas_limit);
    let mut gas_price = vec![0u8; 31];
    gas_price.push(2);
    assert_eq!(returned(&[0x3a]), gas_price);
    let mut origin = vec![0u8; 12];
    origin.extend_from_slice(&[0xa1; 20]);
    assert_eq!(returned(&[0x32]), origin);
    assert_eq!(returned(&[0x60, 0x09, 0x40]), vec![0x61; 32]);
    assert_eq!(returned(&[0x60, 0x08, 0x40]), vec![0x62; 32]);
    assert_eq!(returned(&[0x60, 0x07, 0x40]), vec![0; 32]);
}

#[test]
fn the_configuration_sets_the_instructions() {
    let chain_id = [0x46, 0x60, 0x00, 0x52, 0x60, 0x20, 0x60, 0x00, 0xf3];
    let mut old = module::<OldRuntime>(&chain_id, 0);
    let (reason, _, _) = old
        .execute_call(SENDER, CONTRACT, vec![], number(0), 100_000, number(0), None, true)
        .unwrap();
    assert!(!succeeded(reason));
    let mut new = module::<Runtime>(&chain_id, 0);
    let (reason, _, _) = new
        .execute_call(SENDER, CONTRACT, vec![], number(0), 100_000, number(0), None, true)
        .unwrap();
    assert!(succeeded(reason));
}

#[test]
fn a_precompile_answers_at_its_address() {
    let mut module = module::<OldRuntime>(&[], 0);
    let (reason, output, used_gas) = module
        .execute_call(
            SENDER,
            H160([0xe0; 20]),
            vec![1, 2],
            number(0),
            100_000,
            number(0),
            None,
            true,
        )
        .unwrap();
    assert_eq!(reason, ExitReason::Succeed(ExitSucceed::Returned));
    assert_eq!(output, vec![1, 2]);
    assert_eq!(used_gas, number(21_000 + 2 * 68 + 7));
    let (reason, output, _) = module
        .execute_call(
            SENDER,
            H160([0xe1; 20]),
            vec![1, 2],
            number(0),
            100_000,
            number(0),
            None,
            true,
        )
        .unwrap();
    assert_eq!(reason, ExitReason::Error(ExitError::OutOfFund));
    assert!(output.is_empty());
}

#[test]
fn without_precompiles_nothing_answers() {
    assert!(<() as Precompiles>::execute(H160([0xe0; 20]), &[1], None).is_none());
}

#[test]
fn an_execution_says_what_it_would_change() {
    let mut state = State::new();
    state.put_account(&SENDER, account(0, 100_000));
    let transaction = Transaction {
        source: SENDER,
        operation: Operation::Call { target: CONTRACT, input: vec![] },
        value: number(7),
        gas_limit: 30_000,
        gas_price: number(2),
        nonce: Some(number(0)),
    };
    let execution = execute::<()>(&state, &block(), &Config::istanbul(), transaction).unwrap();
    assert_eq!(execution.reason, ExitReason::Succeed(ExitSucceed::Stopped));
    assert_eq!(execution.returned, Returned::Output { target: CONTRACT, output: vec![] });
    assert_eq!(execution.used_gas, number(21_000));
    assert!(execution.logs.is_empty());
    assert_eq!(
        execution.values,
        vec![
            Apply::Modify {
                address: SENDER,
                basic: account(1, 100_000 - 7 - 42_000),
                code: None,
                storage: vec![],
                reset_storage: false,
            },
            Apply::Modify {
                address: CONTRACT,
                basic: account(0, 7),
                code: None,
                storage: vec![],
                reset_storage: false,
            },
        ]
    );
    assert_eq!(state.accounts(&SENDER), account(0, 100_000));
}

#[test]
fn an_operation_runs_under_the_given_configuration() {
    let mut module = module::<Runtime>(&[], 0);
    let transaction = Transaction {
        source: SENDER,
        operation: Operation::Create { init: vec![0x00] },
        value: number(0),
        gas_limit: 100_000,
        gas_price: number(0),
        nonce: None,
    };
    let (reason, returned, _) =
        module.execute_evm(&Config::frontier(), transaction, true).unwrap();
    assert!(succeeded(reason));
    match returned {
        Returned::Address(address) => assert!(module.is_account_empty(&address)),
        Returned::Output { .. } => unreachable!(),
    }
}

#[test]
fn a_charge_is_the_whole_fee_or_a_refusal() {
    let mut transaction = Transaction {
        source: SENDER,
        operation: Operation::Call { target: CONTRACT, input: vec![] },
        value: number(7),
        gas_limit: 10,
        gas_price: number(2),
        nonce: Some(number(3)),
    };
    assert_eq!(transaction.charge(&account(3, 27)), Ok(number(20)));
    assert_eq!(transaction.charge(&account(3, 26)), Err(Error::BalanceLow));
    assert_eq!(transaction.charge(&account(4, 27)), Err(Error::InvalidNonce));
    assert_eq!(transaction.charge(&account(4, 26)), Err(Error::BalanceLow));
    transaction.value = MAX;
    assert_eq!(transaction.charge(&account(3, 27)), Err(Error::PaymentOverflow));
    transaction.gas_price = MAX;
    assert_eq!(transaction.charge(&account(3, 27)), Err(Error::FeeOverflow));
}

#[test]
fn only_an_accepted_transaction_has_to_stay_in_range() {
    let mut state = State::new();
    state.put_account(&SENDER, account(0, 1000));
    let mut transaction = Transaction {
        source: SENDER,
        operation: Operation::Create { init: vec![0x00] },
        value: number(0),
        gas_limit: 1000,
        gas_price: number(1),
        nonce: None,
    };
    assert!(transaction.stays_in_range(&state, &Config::istanbul()));
    state.put_account(&CONTRACT, Account { nonce: number(0), balance: MAX });
    assert!(!transaction.stays_in_range(&state, &Config::istanbul()));
    transaction.value = number(1);
    assert!(transaction.stays_in_range(&state, &Config::istanbul()));
}

#[test]
fn a_refund_is_never_negative() {
    assert_eq!(refund_of(number(20), number(12)), number(8));
    assert_eq!(refund_of(number(20), number(20)), number(0));
    assert_eq!(refund_of(number(20), number(21)), number(0));
}

#[test]
fn changes_and_logs_are_applied_together() {
    let mut module = module::<Runtime>(&[], 0);
    let values = vec![Apply::Modify {
        address: SENDER,
        basic: account(6, 1),
        code: None,
        storage: vec![],
        reset_storage: false,
    }];
    let log = Log { address: CONTRACT, topics: vec![word(1)], data: vec![2] };
    module.apply(&values, vec![log.clone()]);
    assert_eq!(module.accounts(&SENDER), account(6, 1));
    assert_eq!(module.events, vec![Event::Log(log)]);
}

/// A chain with a configuration of its own.
struct CheapRuntime;

impl Trait for CheapRuntime {
    type AccountId = AccountId32;
    type ModuleId = Id;
    type FeeCalculator = ();
    type ConvertAccountId = HashTruncateConvertAccountId<BlakeTwo256>;
    type Precompiles = ();

    fn config() -> Config {
        Config { gas_transaction_call: 100, gas_sstore_set: 7000, ..Config::istanbul() }
    }
}

#[test]
fn a_chain_can_have_a_configuration_of_its_own() {
    let mut module = module::<CheapRuntime>(&[0x60, 0x2a, 0x60, 0x01, 0x55, 0x00], 0);
    let (reason, _, used_gas) = module
        .execute_call(SENDER, CONTRACT, vec![], number(0), 50_000, number(1), None, true)
        .unwrap();
    assert!(succeeded(reason));
    assert_eq!(used_gas, number(7_106));
    assert_eq!(module.accounts(&SENDER), account(6, 10_000_000 - 7_106));
}

#[test]
fn a_transaction_is_tried_where_it_stays_in_range() {
    let transaction = || Transaction {
        source: SENDER,
        operation: Operation::Call { target: CONTRACT, input: vec![] },
        value: number(0),
        gas_limit: 30_000,
        gas_price: number(1),
        nonce: None,
    };
    let mut module = module::<Runtime>(&[0x00], 0);
    let (reason, _, used_gas) = module.try_execute(transaction(), true).unwrap().unwrap();
    assert!(succeeded(reason));
    assert_eq!(used_gas, number(21_000));
    assert_eq!(module.accounts(&SENDER), account(6, 10_000_000 - 21_000));
    module.state.put_account(&CONTRACT, Account { nonce: number(0), balance: MAX });
    assert!(module.try_execute(transaction(), true).is_none());
    assert_eq!(module.accounts(&SENDER), account(6, 10_000_000 - 21_000));
}

#[test]
fn a_call_without_code_asks_only_for_its_own_balances() {
    let transaction = |target: H160, value: u128| Transaction {
        source: SENDER,
        operation: Operation::Call { target, input: vec![] },
        value: number(value),
        gas_limit: 30_000,
        gas_price: number(1),
        nonce: None,
    };
    let rich = H160([0xb7; 20]);
    let mut module = module::<Runtime>(&[0x00], 0);
    module.state.put_account(&rich, Account { nonce: number(0), balance: MAX });
    assert!(!module.state.words_fit(30_000));
    assert!(transaction(rich, 0).only_transfers(&module.state));
    assert!(!transaction(rich, 1).only_transfers(&module.state));
    assert!(transaction(H160([0xb8; 20]), 1).only_transfers(&module.state));
    assert!(transaction(SENDER, 1).only_transfers(&module.state));
    assert!(!transaction(CONTRACT, 0).only_transfers(&module.state));
    assert!(module.try_execute(transaction(rich, 1), true).is_none());
    assert!(module.try_execute(transaction(CONTRACT, 0), true).is_none());
    let (reason, _, used_gas) =
        module.try_execute(transaction(rich, 0), true).unwrap().unwrap();
    assert!(succeeded(reason));
    assert_eq!(used_gas, number(21_000));
    assert_eq!(module.accounts(&rich).balance, MAX);
    assert_eq!(module.accounts(&SENDER), account(6, 10_000_000 - 21_000));
}

#[test]
fn a_call_can_go_to_its_own_source() {
    let mut module = module::<Runtime>(&[], 0);
    let (reason, _, used_gas) = module
        .execute_call(SENDER, SENDER, vec![], number(700), 30_000, number(2), None, true)
        .unwrap();
    assert!(succeeded(reason));
    assert_eq!(used_gas, number(21_000));
    assert_eq!(module.accounts(&SENDER), account(6, 10_000_000 - 42_000));
}

/// Precompiles that answer where there is gas enough.
struct Thirsty;

impl Precompiles for Thirsty {
    fn execute(
        _address: H160,
        input: &[u8],
        target_gas: Option<usize>,
    ) -> Option<Result<(ExitSucceed, Vec<u8>, usize), ExitError>> {
        match target_gas {
            Some(gas) if gas > 1000 => Some(Ok((ExitSucceed::Returned, vec![input.len() as u8], 1))),
            _ => None,
        }
    }
}

#[test]
fn a_precompile_is_told_its_gas() {
    let state = module::<Runtime>(&[], 0).state;
    let transaction = |gas_limit: u32| Transaction {
        source: SENDER,
        operation: Operation::Call { target: CONTRACT, input: vec![0, 0] },
        value: number(0),
        gas_limit,
        gas_price: number(0),
        nonce: None,
    };
    let run = |gas_limit: u32| {
        execute::<Thirsty>(&state, &block(), &Config::istanbul(), transaction(gas_limit))
            .unwrap()
    };
    let execution = run(30_000);
    assert_eq!(execution.returned, Returned::Output { target: CONTRACT, output: vec![2] });
    assert_eq!(execution.used_gas, number(21_009));
    let execution = run(21_500);
    assert_eq!(execution.returned, Returned::Output { target: CONTRACT, output: vec![] });
    assert_eq!(execution.used_gas, number(21_008));
}
