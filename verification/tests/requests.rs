use pallet_evm::account_id::{
    AccountId32, ConvertAccountId, HashTruncateConvertAccountId, ModuleId,
};
use pallet_evm::execution::{Error, Operation, Returned};
use pallet_evm::executor::{Block, SystemChainId};
use pallet_evm::hashing::BlakeTwo256;
use pallet_evm::module::{
    completion_event, ensure_signed, weight, DispatchError, Event, FeeCalculator, Get, Module,
    Origin, Trait,
};
use pallet_evm::primitives::{H160, H256, U256};
use pallet_evm::state::{Account, GenesisAccount};

const ALICE: AccountId32 = AccountId32([1; 32]);
const CONTRACT: H160 = H160([0xc0; 20]);

struct Id;

impl Get<ModuleId> for Id {
    fn get() -> ModuleId {
        ModuleId(*b"py/evmpa")
    }
}

struct MinimumPrice;

impl FeeCalculator for MinimumPrice {
    fn min_gas_price() -> U256 {
        U256::from_u128(10)
    }
}

struct Runtime;

impl Trait for Runtime {
    type AccountId = AccountId32;
    type ModuleId = Id;
    type FeeCalculator = MinimumPrice;
    type ConvertAccountId = HashTruncateConvertAccountId<BlakeTwo256>;
    type Precompiles = ();
}

fn number(value: u128) -> U256 {
    U256::from_u128(value)
}

fn account(nonce: u128, balance: u128) -> Account {
    Account { nonce: number(nonce), balance: number(balance) }
}

fn alice() -> H160 {
    HashTruncateConvertAccountId::<BlakeTwo256>::convert_account_id(&ALICE)
}

fn module(code: &[u8]) -> Module<Runtime> {
    let mut module = Module::<Runtime>::new(Block {
        chain_id: SystemChainId { id: 42 },
        hashes: vec![],
        number: number(0),
        coinbase: H160([0; 20]),
        timestamp: number(0),
        difficulty: number(0),
        gas_limit: number(0),
    });
    module.state.put_account(&alice(), account(0, 10_000_000));
    let contract = GenesisAccount {
        nonce: number(1),
        balance: number(0),
        storage: vec![],
        code: code.to_vec(),
    };
    module.state.build(&vec![(CONTRACT, contract)]);
    module
}

#[test]
fn a_signed_origin_names_its_account() {
    assert_eq!(ensure_signed(Origin::Signed(7u8)), Ok(7u8));
    assert_eq!(ensure_signed::<u8>(Origin::Root), Err(DispatchError::BadOrigin));
    assert_eq!(ensure_signed::<u8>(Origin::Unsigned), Err(DispatchError::BadOrigin));
}

#[test]
fn the_chain_id_is_that_of_the_host() {
    assert_eq!(SystemChainId { id: 42 }.get(), 42);
}

#[test]
fn without_a_calculator_gas_may_be_free() {
    assert_eq!(<() as FeeCalculator>::min_gas_price(), number(0));
}

#[test]
fn the_module_has_an_account() {
    let mut expected = b"modlpy/evmpa".to_vec();
    expected.extend_from_slice(&[0; 20]);
    assert_eq!(Module::<Runtime>::account_id().0.to_vec(), expected);
}

#[test]
fn the_weight_is_price_times_limit() {
    assert_eq!(weight(number(3), 7), 21);
    assert_eq!(weight(number(3), 0), 0);
    assert_eq!(weight(number(1u128 << 63), 2), u64::MAX);
    assert_eq!(weight(number((1u128 << 63) - 1), 2), u64::MAX - 1);
    assert_eq!(weight(number(1u128 << 64), 1), u64::MAX);
    assert_eq!(weight(U256([5, 0, 0, 1]), 1), u64::MAX);
    assert_eq!(weight(U256([5, 0, 0, 1]), 0), 0);
}

#[test]
fn the_completion_event_tells_the_ending() {
    let output = Returned::Output { target: CONTRACT, output: vec![1] };
    let address = Returned::Address(CONTRACT);
    assert_eq!(completion_event::<u8>(true, &output), Event::Executed(CONTRACT));
    assert_eq!(completion_event::<u8>(false, &output), Event::ExecutedFailed(CONTRACT));
    assert_eq!(completion_event::<u8>(true, &address), Event::Created(CONTRACT));
    assert_eq!(completion_event::<u8>(false, &address), Event::CreatedFailed(CONTRACT));
}

#[test]
fn a_call_is_executed() {
    let mut module = module(&[]);
    let result = module.call(
        Origin::Signed(ALICE),
        CONTRACT,
        vec![],
        number(9),
        30_000,
        number(10),
        Some(number(0)),
    );
    assert_eq!(result, Ok(()));
    assert_eq!(module.accounts(&alice()), account(1, 10_000_000 - 210_000 - 9));
    assert_eq!(module.accounts(&CONTRACT), account(1, 9));
    assert_eq!(module.events.len(), 1);
    assert!(matches!(module.events[0], Event::Executed(at) if at == CONTRACT));
}

#[test]
fn a_failed_call_leaves_its_event() {
    let mut module = module(&[0xfe]);
    let result =
        module.call(Origin::Signed(ALICE), CONTRACT, vec![], number(9), 30_000, number(10), None);
    assert_eq!(result, Ok(()));
    assert_eq!(module.accounts(&alice()), account(1, 10_000_000 - 300_000));
    assert_eq!(module.events.len(), 1);
    assert!(matches!(module.events[0], Event::ExecutedFailed(at) if at == CONTRACT));
}

#[test]
fn logs_come_before_the_completion() {
    let mut module = module(&[0x60, 0x00, 0x60, 0x00, 0xa0, 0x00]);
    let result =
        module.call(Origin::Signed(ALICE), CONTRACT, vec![], number(0), 30_000, number(10), None);
    assert_eq!(result, Ok(()));
    assert_eq!(module.events.len(), 2);
    assert!(matches!(&module.events[0], Event::Log(log) if log.address == CONTRACT));
    assert!(matches!(module.events[1], Event::Executed(at) if at == CONTRACT));
}

#[test]
fn a_creation_leaves_its_event() {
    let mut module = module(&[]);
    let init = vec![0x60, 0x5b, 0x60, 0x00, 0x53, 0x60, 0x01, 0x60, 0x00, 0xf3];
    let result =
        module.create(Origin::Signed(ALICE), init, number(0), 100_000, number(10), None);
    assert_eq!(result, Ok(()));
    match module.events[0] {
        Event::Created(address) => assert_eq!(module.account_codes(&address), vec![0x5b]),
        _ => unreachable!(),
    }
    let result =
        module.create(Origin::Signed(ALICE), vec![0xfe], number(0), 100_000, number(10), None);
    assert_eq!(result, Ok(()));
    match module.events[1] {
        Event::CreatedFailed(address) => assert!(module.is_account_empty(&address)),
        _ => unreachable!(),
    }
}

#[test]
fn a_salted_creation_leaves_its_event() {
    let mut module = module(&[]);
    let init = vec![0x60, 0x5b, 0x60, 0x00, 0x53, 0x60, 0x01, 0x60, 0x00, 0xf3];
    let salt = H256([3; 32]);
    let result = module.create2(
        Origin::Signed(ALICE),
        init.clone(),
        salt,
        number(0),
        100_000,
        number(10),
        None,
    );
    assert_eq!(result, Ok(()));
    let created = match module.events[0] {
        Event::Created(address) => address,
        _ => unreachable!(),
    };
    assert_eq!(module.account_codes(&created), vec![0x5b]);
    let result =
        module.create2(Origin::Signed(ALICE), init, salt, number(0), 100_000, number(10), None);
    assert_eq!(result, Ok(()));
    assert!(matches!(module.events[1], Event::CreatedFailed(address) if address == created));
}

#[test]
fn a_low_gas_price_is_refused_first() {
    let mut module = module(&[]);
    let refused = Err(DispatchError::Module(Error::GasPriceTooLow));
    let result =
        module.call(Origin::Signed(ALICE), CONTRACT, vec![], number(0), 30_000, number(9), None);
    assert_eq!(result, refused);
    let result =
        module.call(Origin::Unsigned, CONTRACT, vec![], number(0), 30_000, number(9), None);
    assert_eq!(result, refused);
    let result = module.create(Origin::Root, vec![], number(0), 30_000, number(9), None);
    assert_eq!(result, refused);
    let result = module.create2(
        Origin::Signed(ALICE),
        vec![],
        H256::zero(),
        number(0),
        30_000,
        number(9),
        None,
    );
    assert_eq!(result, refused);
    assert!(module.events.is_empty());
    assert_eq!(module.accounts(&alice()), account(0, 10_000_000));
}

#[test]
fn an_unsigned_request_is_refused() {
    let mut module = module(&[]);
    let result =
        module.call(Origin::Root, CONTRACT, vec![], number(0), 30_000, number(10), None);
    assert_eq!(result, Err(DispatchError::BadOrigin));
    let result = module.create(Origin::Unsigned, vec![], number(0), 30_000, number(10), None);
    assert_eq!(result, Err(DispatchError::BadOrigin));
    let result = module.create2(
        Origin::Unsigned,
        vec![],
        H256::zero(),
        number(0),
        30_000,
        number(10),
        None,
    );
    assert_eq!(result, Err(DispatchError::BadOrigin));
}

#[test]
fn a_refused_transaction_is_handed_on() {
    let mut module = module(&[]);
    let result = module.call(
        Origin::Signed(ALICE),
        CONTRACT,
        vec![],
        number(0),
        30_000,
        number(10),
        Some(number(1)),
    );
    assert_eq!(result, Err(DispatchError::Module(Error::InvalidNonce)));
    let result = module.call(
        Origin::Signed(ALICE),
        CONTRACT,
        vec![],
        number(10_000_000),
        30_000,
        number(10),
        None,
    );
    assert_eq!(result, Err(DispatchError::Module(Error::BalanceLow)));
    assert!(module.events.is_empty());
}

#[test]
fn a_request_takes_the_given_price_and_configuration() {
    let mut module = module(&[]);
    let operation = Operation::Call { target: CONTRACT, input: vec![] };
    let result = module.dispatch(
        number(11),
        &evm::Config::frontier(),
        Origin::Signed(ALICE),
        operation,
        number(0),
        30_000,
        number(10),
        None,
    );
    assert_eq!(result, Err(DispatchError::Module(Error::GasPriceTooLow)));
    let operation = Operation::Call { target: CONTRACT, input: vec![1] };
    let result = module.dispatch(
        number(0),
        &evm::Config::frontier(),
        Origin::Signed(ALICE),
        operation,
        number(0),
        30_000,
        number(1),
        None,
    );
    assert_eq!(result, Ok(()));
    assert_eq!(module.accounts(&alice()), account(1, 10_000_000 - 21_068));
}

#[test]
fn a_deposit_is_credited_once_the_currency_is_taken() {
    let mut module = module(&[]);
    let pending = Module::<Runtime>::deposit_balance(Origin::Signed(ALICE), 500).unwrap();
    assert_eq!(pending.sender.0, ALICE.0);
    assert_eq!(pending.module_account.0, Module::<Runtime>::account_id().0);
    assert_eq!(pending.address, alice());
    assert_eq!(pending.value, number(500));
    assert_eq!(module.complete_deposit::<u8>(pending, Ok(())), Ok(()));
    assert_eq!(module.accounts(&alice()), account(0, 10_000_500));
    match &module.events[0] {
        Event::BalanceDeposit(sender, address, value) => {
            assert_eq!(sender.0, ALICE.0);
            assert_eq!(*address, alice());
            assert_eq!(*value, number(500));
        },
        _ => unreachable!(),
    }
}

#[test]
fn a_deposit_fails_with_the_currency() {
    let mut module = module(&[]);
    let pending = Module::<Runtime>::deposit_balance(Origin::Signed(ALICE), 500).unwrap();
    assert_eq!(module.complete_deposit(pending, Err(3u8)), Err(3u8));
    assert_eq!(module.accounts(&alice()), account(0, 10_000_000));
    assert!(module.events.is_empty());
}

#[test]
fn an_unsigned_deposit_is_refused() {
    let result = Module::<Runtime>::deposit_balance(Origin::Root, 500);
    assert_eq!(result.unwrap_err(), DispatchError::BadOrigin);
}

#[test]
fn a_withdrawal_is_debited_once_the_currency_is_taken() {
    let mut module = module(&[]);
    let pending = module.withdraw_balance(Origin::Signed(ALICE), 500).unwrap();
    assert_eq!(pending.sender.0, ALICE.0);
    assert_eq!(pending.module_account.0, Module::<Runtime>::account_id().0);
    assert_eq!(pending.address, alice());
    assert_eq!(pending.account, account(0, 9_999_500));
    assert_eq!(pending.value, number(500));
    assert_eq!(module.accounts(&alice()), account(0, 10_000_000));
    assert_eq!(module.complete_withdrawal::<u8>(pending, Ok(())), Ok(()));
    assert_eq!(module.accounts(&alice()), account(0, 9_999_500));
    match &module.events[0] {
        Event::BalanceWithdraw(sender, address, value) => {
            assert_eq!(sender.0, ALICE.0);
            assert_eq!(*address, alice());
            assert_eq!(*value, number(500));
        },
        _ => unreachable!(),
    }
}

#[test]
fn a_withdrawal_fails_with_the_currency() {
    let mut module = module(&[]);
    let pending = module.withdraw_balance(Origin::Signed(ALICE), 500).unwrap();
    assert_eq!(module.complete_withdrawal(pending, Err(3u8)), Err(3u8));
    assert_eq!(module.accounts(&alice()), account(0, 10_000_000));
    assert!(module.events.is_empty());
}

#[test]
fn a_withdrawal_needs_balance_and_a_signature() {
    let module = module(&[]);
    let result = module.withdraw_balance(Origin::Signed(ALICE), 10_000_001);
    assert_eq!(result.unwrap_err(), DispatchError::Module(Error::BalanceLow));
    assert!(module.withdraw_balance(Origin::Signed(ALICE), 10_000_000).is_ok());
    let result = module.withdraw_balance(Origin::Unsigned, 1);
    assert_eq!(result.unwrap_err(), DispatchError::BadOrigin);
}

#[test]
fn the_module_reads_and_cleans_its_store() {
    let mut module = module(&[0x5b]);
    assert_eq!(module.account_codes(&CONTRACT), vec![0x5b]);
    assert_eq!(module.account_storages(&CONTRACT, &H256::zero()), H256::zero());
    module.remove_account_if_empty(&CONTRACT);
    assert!(!module.is_account_empty(&CONTRACT));
    module.state.put_account(&H160([5; 20]), account(0, 0));
    assert_eq!(module.state.contracts().len(), 3);
    module.remove_account_if_empty(&H160([5; 20]));
    assert_eq!(module.state.contracts().len(), 2);
}

#[test]
fn a_request_is_tried_where_it_stays_in_range() {
    let call = || Operation::Call { target: CONTRACT, input: vec![] };
    let mut module = module(&[0x00]);
    let result =
        module.try_dispatch(Origin::Signed(ALICE), call(), number(0), 30_000, number(10), None);
    assert_eq!(result, Some(Ok(())));
    assert_eq!(module.accounts(&alice()), account(1, 10_000_000 - 210_000));
    let most = U256([u64::MAX, u64::MAX, u64::MAX, u64::MAX]);
    module.state.put_account(&CONTRACT, Account { nonce: number(0), balance: most });
    let result =
        module.try_dispatch(Origin::Signed(ALICE), call(), number(0), 30_000, number(10), None);
    assert_eq!(result, None);
    let result =
        module.try_dispatch(Origin::Signed(ALICE), call(), number(0), 30_000, number(9), None);
    assert_eq!(result, Some(Err(DispatchError::Module(Error::GasPriceTooLow))));
    let result = module.try_dispatch(Origin::Root, call(), number(0), 30_000, number(10), None);
    assert_eq!(result, Some(Err(DispatchError::BadOrigin)));
    assert_eq!(module.accounts(&alice()), account(1, 10_000_000 - 210_000));
}
