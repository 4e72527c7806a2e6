use evm::Config;
use pallet_evm::account_id::{AccountId32, HashTruncateConvertAccountId, ModuleId};
use pallet_evm::config::RuntimeConfig;
use pallet_evm::hashing::BlakeTwo256;
use pallet_evm::module::{Get, Trait};

struct Id;

impl Get<ModuleId> for Id {
    fn get() -> ModuleId {
        ModuleId(*b"py/evmpa")
    }
}

struct Runtime;

impl Trait for Runtime {
    type AccountId = AccountId32;
    type ModuleId = Id;
    type FeeCalculator = ();
    type ConvertAccountId = HashTruncateConvertAccountId<BlakeTwo256>;
    type Precompiles = ();
}

fn istanbul() -> RuntimeConfig {
    RuntimeConfig::of(&Config::istanbul())
}

#[test]
fn a_chain_follows_istanbul_unless_it_says_otherwise() {
    let config = RuntimeConfig::of(&Runtime::config());
    assert_eq!(config, istanbul());
    assert_eq!(
        config,
        RuntimeConfig {
            gas_ext_code: 700,
            gas_ext_code_hash: 700,
            gas_sstore_set: 20000,
            gas_sstore_reset: 5000,
            refund_sstore_clears: 15000,
            gas_balance: 700,
            gas_sload: 800,
            gas_suicide: 5000,
            gas_suicide_new_account: 25000,
            gas_call: 700,
            gas_expbyte: 50,
            gas_transaction_create: 53000,
            gas_transaction_call: 21000,
            gas_transaction_zero_data: 4,
            gas_transaction_non_zero_data: 16,
            sstore_gas_metering: true,
            sstore_revert_under_stipend: true,
            err_on_call_with_more_gas: false,
            call_l64_after_gas: true,
            empty_considered_exists: false,
            create_increase_nonce: true,
            stack_limit: 1024,
            memory_limit: usize::MAX,
            call_stack_limit: 1024,
            create_contract_limit: Some(0x6000),
            call_stipend: 2300,
            has_delegate_call: true,
            has_create2: true,
            has_revert: true,
            has_return_data: true,
            has_bitwise_shifting: true,
            has_chain_id: true,
            has_self_balance: true,
            has_ext_code_hash: true,
        }
    );
}

#[test]
fn every_field_of_a_configuration_is_read() {
    let config = RuntimeConfig::of(&Config {
        gas_ext_code: 1,
        gas_balance: 2,
        refund_sstore_clears: -3,
        memory_limit: 4,
        create_contract_limit: None,
        ..Config::frontier()
    });
    assert_eq!(config.gas_ext_code, 1);
    assert_eq!(config.gas_balance, 2);
    assert_eq!(config.refund_sstore_clears, -3);
    assert_eq!(config.memory_limit, 4);
    assert_eq!(config.create_contract_limit, None);
    assert_eq!(config.gas_transaction_non_zero_data, 68);
    assert!(!config.has_chain_id);
}

#[test]
fn ordinary_costs_stay_in_range() {
    assert!(istanbul().costs_in_range(u32::MAX, 1_000_000));
    assert!(RuntimeConfig::of(&Config::frontier()).costs_in_range(u32::MAX, 1_000_000));
    assert!(!istanbul().costs_in_range(u32::MAX, usize::MAX / 2));
}

#[test]
fn a_stipend_must_have_been_paid_for() {
    let config = RuntimeConfig { call_stipend: 9700, ..istanbul() };
    assert!(config.costs_in_range(1000, 0));
    let config = RuntimeConfig { call_stipend: 9701, ..istanbul() };
    assert!(!config.costs_in_range(1000, 0));
}

#[test]
fn reading_must_not_cost_more_than_storing_where_storing_is_metered() {
    let config = RuntimeConfig { gas_sload: 5000, ..istanbul() };
    assert!(config.costs_in_range(1000, 0));
    let config = RuntimeConfig { gas_sload: 5001, ..istanbul() };
    assert!(!config.costs_in_range(1000, 0));
    let config = RuntimeConfig { sstore_gas_metering: false, ..config };
    assert!(config.costs_in_range(1000, 0));
}

#[test]
fn huge_costs_do_not_stay_in_range() {
    let config = RuntimeConfig { gas_balance: usize::MAX, ..istanbul() };
    assert!(!config.costs_in_range(1000, 0));
    let config = RuntimeConfig { gas_balance: usize::MAX / 2, ..istanbul() };
    assert!(config.costs_in_range(1000, 0));
    let config = RuntimeConfig { refund_sstore_clears: isize::MIN, ..istanbul() };
    assert!(!config.costs_in_range(804, 0));
    assert!(config.costs_in_range(803, 0));
    let config = RuntimeConfig { gas_transaction_zero_data: usize::MAX, ..istanbul() };
    assert!(config.costs_in_range(1000, 0));
    assert!(!config.costs_in_range(1000, 1));
}
