use evm::ExitReason;
use pallet_evm::account_id::{
    truncate, AccountId32, ConvertAccountId, HashTruncateConvertAccountId, ModuleId,
};
use pallet_evm::execution::Error;
use pallet_evm::executor::{Block, SystemChainId};
use pallet_evm::hashing::BlakeTwo256;
use pallet_evm::module::{DispatchError, Event, FeeCalculator, Get, Module, Origin, Trait};
use pallet_evm::primitives::{H160, H256, U256};
use pallet_evm::state::{Account, Apply, GenesisAccount, State};

const ALICE: AccountId32 = AccountId32([1; 32]);
const CONTRACT: H160 = H160([0xc0; 20]);
const OTHER: H160 = H160([0xd0; 20]);

struct Id;

impl Get<ModuleId> for Id {
    fn get() -> ModuleId {
        ModuleId(*b"py/evmpa")
    }
}

struct Runtime;

impl Trait for Runtime {
    type AccountId = AccountId32;
    type ModuleId = Id;
    type FeeCalculator = ();
    type ConvertAccountId = HashTruncateConvertAccountId<BlakeTwo256>;
    type Precompiles = ();
}

fn number(value: u128) -> U256 {
    U256::from_u128(value)
}

fn account(nonce: u128, balance: u128) -> Account {
    Account { nonce: number(nonce), balance: number(balance) }
}

fn word(byte: u8) -> H256 {
    H256([byte; 32])
}

fn alice() -> H160 {
    HashTruncateConvertAccountId::<BlakeTwo256>::convert_account_id(&ALICE)
}

fn contract(code: &[u8]) -> GenesisAccount {
    GenesisAccount {
        nonce: number(1),
        balance: number(50),
        storage: vec![(word(1), word(11))],
        code: code.to_vec(),
    }
}

fn state(code: &[u8]) -> State {
    let mut state = State::new();
    state.put_account(&alice(), account(0, 10_000_000));
    state.build(&vec![(CONTRACT, contract(code)), (OTHER, contract(&[0x00]))]);
    state
}

fn module(code: &[u8]) -> Module<Runtime> {
    let mut module = Module::<Runtime>::new(Block {
        chain_id: SystemChainId { id: 1 },
        hashes: vec![],
        number: number(0),
        coinbase: H160([0; 20]),
        timestamp: number(0),
        difficulty: number(0),
        gas_limit: number(0),
    });
    module.state = state(code);
    module
}

fn gathered(state: &State, address: H160) -> Option<GenesisAccount> {
    state.contracts().into_iter().find(|entry| entry.0 == address).map(|entry| entry.1)
}

#[test]
fn removal_is_local() {
    let mut state = state(&[0x00]);
    state.remove_account(&CONTRACT);
    assert!(gathered(&state, CONTRACT).is_none());
    assert!(state.is_account_empty(&CONTRACT));
    assert_eq!(gathered(&state, OTHER), Some(contract(&[0x00])));
}

#[test]
fn cleanup_keeps_accounts_and_supply() {
    let mut state = state(&[0x00]);
    state.put_account(&H160([5; 20]), account(0, 0));
    let supply = state.supply();
    state.remove_account_if_empty(&H160([5; 20]));
    state.remove_account_if_empty(&CONTRACT);
    assert_eq!(gathered(&state, CONTRACT), Some(contract(&[0x00])));
    assert_eq!(state.accounts(&H160([5; 20])), account(0, 0));
    assert_eq!(state.supply(), supply);
    let held = state.contracts().len();
    state.remove_account_if_empty(&H160([5; 20]));
    assert_eq!(state.contracts().len(), held);
}

#[test]
fn changes_are_local_and_read_back() {
    let mut state = state(&[0x00]);
    state.apply(
        &vec![
            Apply::Modify {
                address: CONTRACT,
                basic: account(2, 60),
                code: Some(vec![0x5b]),
                storage: vec![(word(2), word(12))],
                reset_storage: false,
            },
            Apply::Delete { address: alice() },
        ],
        true,
    );
    assert_eq!(state.accounts(&CONTRACT), account(2, 60));
    assert_eq!(state.account_codes(&CONTRACT), vec![0x5b]);
    assert_eq!(state.account_storages(&CONTRACT, &word(1)), word(11));
    assert_eq!(state.account_storages(&CONTRACT, &word(2)), word(12));
    assert!(gathered(&state, alice()).is_none());
    assert_eq!(gathered(&state, OTHER), Some(contract(&[0x00])));
}

#[test]
fn no_empty_account_is_left() {
    let mut state = state(&[]);
    state.apply(
        &vec![Apply::Modify {
            address: CONTRACT,
            basic: account(0, 0),
            code: None,
            storage: vec![],
            reset_storage: false,
        }],
        true,
    );
    assert!(gathered(&state, CONTRACT).is_none());
    assert_eq!(state.account_storages(&CONTRACT, &word(1)), H256::zero());
}

#[test]
fn genesis_is_read_back() {
    let mut state = State::new();
    state.build(&vec![(CONTRACT, contract(&[0x5b]))]);
    assert_eq!(gathered(&state, CONTRACT), Some(contract(&[0x5b])));
    assert!(gathered(&state, OTHER).is_none());
}

#[test]
fn a_refused_transaction_changes_nothing() {
    let mut module = module(&[0x00]);
    let result = module.execute_call(
        alice(),
        CONTRACT,
        vec![],
        number(0),
        30_000,
        number(1000),
        None,
        true,
    );
    assert_eq!(result.unwrap_err(), Error::BalanceLow);
    assert_eq!(module.accounts(&alice()), account(0, 10_000_000));
    assert_eq!(gathered(&module.state, CONTRACT), Some(contract(&[0x00])));
    assert!(module.events.is_empty());
}

#[test]
fn a_dry_run_tells_the_result_and_changes_nothing() {
    let mut module = module(&[0x60, 0x2a, 0x60, 0x01, 0x55, 0x00]);
    let dry = module
        .execute_call(alice(), CONTRACT, vec![], number(3), 100_000, number(1), None, false)
        .unwrap();
    assert_eq!(module.accounts(&alice()), account(0, 10_000_000));
    assert_eq!(
        gathered(&module.state, CONTRACT),
        Some(contract(&[0x60, 0x2a, 0x60, 0x01, 0x55, 0x00]))
    );
    let real = module
        .execute_call(alice(), CONTRACT, vec![], number(3), 100_000, number(1), None, true)
        .unwrap();
    assert_eq!(dry, real);
    assert_eq!(module.accounts(&CONTRACT), account(1, 53));
}

#[test]
fn a_failed_request_changes_nothing() {
    let mut module = module(&[0x00]);
    let result =
        module.call(Origin::Root, CONTRACT, vec![], number(0), 30_000, number(1), None);
    assert_eq!(result, Err(DispatchError::BadOrigin));
    assert_eq!(module.accounts(&alice()), account(0, 10_000_000));
    assert!(module.events.is_empty());
}

#[test]
fn a_request_keeps_earlier_events() {
    let mut module = module(&[0x60, 0x00, 0x60, 0x00, 0xa0, 0x00]);
    let pending = Module::<Runtime>::deposit_balance(Origin::Signed(ALICE), 5).unwrap();
    assert_eq!(module.complete_deposit::<u8>(pending, Ok(())), Ok(()));
    let result =
        module.call(Origin::Signed(ALICE), CONTRACT, vec![], number(0), 30_000, number(1), None);
    assert_eq!(result, Ok(()));
    assert_eq!(module.events.len(), 3);
    assert!(matches!(module.events[0], Event::BalanceDeposit(_, _, _)));
    assert!(matches!(module.events[1], Event::Log(_)));
    assert!(matches!(module.events[2], Event::Executed(at) if at == CONTRACT));
}

#[test]
fn the_fee_of_a_transaction_is_burnt() {
    let mut module = module(&[0x00]);
    assert_eq!(module.state.supply(), Some(number(10_000_100)));
    let (_, _, used_gas) = module
        .execute_call(alice(), CONTRACT, vec![], number(7), 30_000, number(3), None, true)
        .unwrap();
    assert_eq!(used_gas, number(21_000));
    assert_eq!(module.state.supply(), Some(number(10_000_100 - 63_000)));
}

#[test]
fn a_failed_transaction_only_pays() {
    let code = [0x60, 0x2a, 0x60, 0x01, 0x55, 0xfe];
    let mut module = module(&code);
    let result =
        module.call(Origin::Signed(ALICE), CONTRACT, vec![], number(7), 50_000, number(3), None);
    assert_eq!(result, Ok(()));
    assert_eq!(module.accounts(&alice()), account(1, 10_000_000 - 150_000));
    assert_eq!(gathered(&module.state, CONTRACT), Some(contract(&code)));
    assert_eq!(gathered(&module.state, OTHER), Some(contract(&[0x00])));
    assert!(matches!(module.events.last(), Some(Event::ExecutedFailed(at)) if *at == CONTRACT));
}

#[test]
fn a_created_contract_has_its_code() {
    let mut module = module(&[]);
    let init = vec![0x60, 0x5b, 0x60, 0x00, 0x53, 0x60, 0x01, 0x60, 0x00, 0xf3];
    let (reason, address, _) = module
        .execute_create(alice(), init, number(0), 100_000, number(1), None, true)
        .unwrap();
    assert!(matches!(reason, ExitReason::Succeed(_)));
    assert_eq!(module.account_codes(&address), vec![0x5b]);
    let (reason, address, _) = module
        .execute_create(alice(), vec![0x33, 0xff], number(0), 100_000, number(1), None, true)
        .unwrap();
    assert!(matches!(reason, ExitReason::Succeed(_)));
    assert!(gathered(&module.state, address).is_none());
}

#[test]
fn a_missing_nonce_is_not_checked() {
    let mut module = module(&[0x00]);
    module.state.put_account(&alice(), account(77, 10_000_000));
    let result = module.execute_call(
        alice(),
        CONTRACT,
        vec![],
        number(0),
        30_000,
        number(1),
        None,
        true,
    );
    assert!(result.is_ok());
    assert_eq!(module.accounts(&alice()).nonce, number(78));
}

#[test]
fn the_whole_balance_can_be_spent() {
    let mut module = module(&[0x00]);
    module.state.put_account(&alice(), account(0, 21_007));
    let (reason, _, used_gas) = module
        .execute_call(alice(), CONTRACT, vec![], number(7), 21_000, number(1), None, true)
        .unwrap();
    assert!(matches!(reason, ExitReason::Succeed(_)));
    assert_eq!(used_gas, number(21_000));
    assert_eq!(module.accounts(&alice()), account(1, 0));
    assert_eq!(module.accounts(&CONTRACT), account(1, 57));
}

#[test]
fn a_salted_address_does_not_depend_on_the_nonce() {
    let mut module = module(&[]);
    let (_, first, _) = module
        .execute_create2(
            alice(),
            vec![0x00],
            word(4),
            number(0),
            100_000,
            number(1),
            None,
            false,
        )
        .unwrap();
    module.state.put_account(&alice(), account(9, 20_000_000));
    let (_, second, _) = module
        .execute_create2(
            alice(),
            vec![0x00],
            word(4),
            number(1),
            90_000,
            number(2),
            None,
            false,
        )
        .unwrap();
    assert_eq!(first, second);
}

#[test]
fn a_withdrawal_undoes_a_deposit() {
    let mut module = module(&[0x00]);
    let supply = module.state.supply();
    let pending = Module::<Runtime>::deposit_balance(Origin::Signed(ALICE), 500).unwrap();
    assert_eq!(module.complete_deposit::<u8>(pending, Ok(())), Ok(()));
    assert_eq!(module.state.supply(), Some(number(10_000_600)));
    let pending = module.withdraw_balance(Origin::Signed(ALICE), 500).unwrap();
    assert_eq!(module.complete_withdrawal::<u8>(pending, Ok(())), Ok(()));
    assert_eq!(module.state.supply(), supply);
    assert_eq!(module.accounts(&alice()), account(0, 10_000_000));
    assert_eq!(gathered(&module.state, CONTRACT), Some(contract(&[0x00])));
}

#[test]
fn truncation_keeps_the_end() {
    let hash: Vec<u8> = (1..=25u8).collect();
    let address = truncate(hash.as_slice());
    assert_eq!(address.0.to_vec(), hash[5..].to_vec());
}

/// A chain that asks for a high minimal gas price.
struct DearRuntime;

struct HighPrice;

impl FeeCalculator for HighPrice {
    fn min_gas_price() -> U256 {
        U256::from_u128(1_000_000)
    }
}

impl Trait for DearRuntime {
    type AccountId = AccountId32;
    type ModuleId = Id;
    type FeeCalculator = HighPrice;
    type ConvertAccountId = HashTruncateConvertAccountId<BlakeTwo256>;
    type Precompiles = ();
}

#[test]
fn the_minimal_price_is_not_asked_of_an_execution() {
    let mut cheap = module(&[0x00]);
    let mut dear = Module::<DearRuntime>::new(module(&[]).block);
    dear.state = state(&[0x00]);
    let first = cheap
        .execute_call(alice(), CONTRACT, vec![], number(3), 30_000, number(1), None, true)
        .unwrap();
    let second = dear
        .execute_call(alice(), CONTRACT, vec![], number(3), 30_000, number(1), None, true)
        .unwrap();
    assert_eq!(first, second);
    assert_eq!(cheap.accounts(&alice()), dear.accounts(&alice()));
}

#[test]
fn an_idle_run_is_repeatable() {
    let mut module = module(&[0x00]);
    let first = module
        .execute_create(alice(), vec![0x00], number(3), 100_000, number(1), None, false)
        .unwrap();
    let second = module
        .execute_create(alice(), vec![0x00], number(3), 100_000, number(1), None, false)
        .unwrap();
    assert_eq!(first, second);
    assert_eq!(module.accounts(&alice()), account(0, 10_000_000));
    for _ in 0..2 {
        let refused = module.execute_create(
            alice(),
            vec![0x00],
            number(3),
            100_000,
            number(1),
            Some(number(9)),
            true,
        );
        assert_eq!(refused.unwrap_err(), Error::InvalidNonce);
    }
}

#[test]
fn an_execution_is_repeatable() {
    let mut first = module(&[0x60, 0x2a, 0x60, 0x01, 0x55, 0x00]);
    let mut second = module(&[0x60, 0x2a, 0x60, 0x01, 0x55, 0x00]);
    let one = first
        .execute_call(alice(), CONTRACT, vec![], number(3), 100_000, number(1), None, true)
        .unwrap();
    let other = second
        .execute_call(alice(), CONTRACT, vec![], number(3), 100_000, number(1), None, true)
        .unwrap();
    assert_eq!(one, other);
    assert_eq!(gathered(&first.state, CONTRACT), gathered(&second.state, CONTRACT));
}

#[test]
fn a_matching_nonce_changes_nothing() {
    let mut unchecked = module(&[0x00]);
    let mut checked = module(&[0x00]);
    let one = unchecked
        .execute_call(alice(), CONTRACT, vec![], number(3), 30_000, number(1), None, true)
        .unwrap();
    let nonce = Some(checked.accounts(&alice()).nonce);
    let other = checked
        .execute_call(alice(), CONTRACT, vec![], number(3), 30_000, number(1), nonce, true)
        .unwrap();
    assert_eq!(one, other);
    assert_eq!(unchecked.accounts(&alice()), checked.accounts(&alice()));
    assert_eq!(unchecked.accounts(&CONTRACT), checked.accounts(&CONTRACT));
}

#[test]
fn unused_gas_is_refunded() {
    let mut module = module(&[0x00]);
    let (_, _, used_gas) = module
        .execute_call(alice(), CONTRACT, vec![], number(0), 90_000, number(5), None, true)
        .unwrap();
    assert_eq!(used_gas, number(21_000));
    assert_eq!(module.accounts(&alice()), account(1, 10_000_000 - 105_000));
}

#[test]
fn the_account_of_the_module_is_always_the_same() {
    assert_eq!(Module::<Runtime>::account_id(), Module::<Runtime>::account_id());
    assert_eq!(Module::<Runtime>::account_id(), Module::<DearRuntime>::account_id());
}

#[test]
fn an_applied_transaction_is_not_repeated() {
    let mut module = module(&[0x00]);
    let nonce = Some(number(0));
    let first =
        module.execute_call(alice(), CONTRACT, vec![], number(1), 30_000, number(1), nonce, true);
    assert!(first.is_ok());
    let second =
        module.execute_call(alice(), CONTRACT, vec![], number(1), 30_000, number(1), nonce, true);
    assert_eq!(second.unwrap_err(), Error::InvalidNonce);
}

#[test]
fn a_call_without_code_moves_value() {
    let mut module = module(&[]);
    let (reason, output, used_gas) = module
        .execute_call(alice(), CONTRACT, vec![0, 7], number(9), 30_000, number(2), None, true)
        .unwrap();
    assert!(matches!(reason, ExitReason::Succeed(_)));
    assert!(output.is_empty());
    assert_eq!(used_gas, number(21_020));
    assert_eq!(module.accounts(&alice()), account(1, 10_000_000 - 9 - 42_040));
    assert_eq!(module.accounts(&CONTRACT), account(1, 59));
    assert_eq!(module.account_storages(&CONTRACT, &word(1)), word(11));
    assert_eq!(gathered(&module.state, OTHER), Some(contract(&[0x00])));
}

#[test]
fn a_plain_call_succeeds_where_its_gas_pays_for_it() {
    let mut module = module(&[]);
    let (reason, _, used_gas) = module
        .execute_call(alice(), CONTRACT, vec![0, 7], number(0), 21_019, number(0), None, false)
        .unwrap();
    assert!(!matches!(reason, ExitReason::Succeed(_)));
    assert_eq!(used_gas, number(21_019));
    let (reason, _, used_gas) = module
        .execute_call(alice(), CONTRACT, vec![0, 7], number(0), 21_020, number(0), None, false)
        .unwrap();
    assert!(matches!(reason, ExitReason::Succeed(_)));
    assert_eq!(used_gas, number(21_020));
}
