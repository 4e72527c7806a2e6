use pallet_evm::primitives::{H160, H256, U256};
use pallet_evm::state::{Account, Apply, GenesisAccount, GenesisConfig, State};

const MAX: U256 = U256([u64::MAX, u64::MAX, u64::MAX, u64::MAX]);

fn address(byte: u8) -> H160 {
    H160([byte; 20])
}

fn word(byte: u8) -> H256 {
    let mut bytes = [0u8; 32];
    bytes[31] = byte;
    H256(bytes)
}

fn number(value: u128) -> U256 {
    U256::from_u128(value)
}

fn account(nonce: u128, balance: u128) -> Account {
    Account { nonce: number(nonce), balance: number(balance) }
}

fn genesis() -> GenesisConfig {
    GenesisConfig {
        accounts: vec![
            (
                address(1),
                GenesisAccount {
                    nonce: number(3),
                    balance: number(100),
                    storage: vec![(word(1), word(11)), (word(2), word(12))],
                    code: vec![0x60, 0x00],
                },
            ),
            (
                address(2),
                GenesisAccount {
                    nonce: number(0),
                    balance: number(7),
                    storage: vec![],
                    code: vec![],
                },
            ),
        ],
    }
}

fn built() -> State {
    let mut state = State::new();
    genesis().build(&mut state);
    state
}

#[test]
fn a_new_store_holds_nothing() {
    let state = State::new();
    assert_eq!(state.accounts(&address(1)), Account::default());
    assert_eq!(state.account_codes(&address(1)), Vec::<u8>::new());
    assert_eq!(state.account_storages(&address(1), &word(1)), H256::zero());
    assert!(state.is_account_empty(&address(1)));
    assert_eq!(state.supply(), Some(U256::zero()));
    assert!(state.contracts().is_empty());
}

#[test]
fn genesis_accounts_are_put_in_the_store() {
    let state = built();
    assert_eq!(state.accounts(&address(1)), account(3, 100));
    assert_eq!(state.account_codes(&address(1)), vec![0x60, 0x00]);
    assert_eq!(state.account_storages(&address(1), &word(1)), word(11));
    assert_eq!(state.account_storages(&address(1), &word(2)), word(12));
    assert_eq!(state.account_storages(&address(1), &word(3)), H256::zero());
    assert_eq!(state.account_storages(&address(2), &word(1)), H256::zero());
    assert_eq!(state.accounts(&address(2)), account(0, 7));
    assert_eq!(state.supply(), Some(number(107)));
}

#[test]
fn the_store_is_gathered_by_address() {
    let contracts = built().contracts();
    assert_eq!(contracts.len(), 2);
    for (gathered, contract) in contracts {
        let config = genesis();
        let (_, expected) = if gathered == address(1) {
            &config.accounts[0]
        } else {
            &config.accounts[1]
        };
        assert_eq!(&contract, expected);
    }
}

#[test]
fn an_account_is_empty_without_nonce_balance_and_code() {
    let mut state = built();
    assert!(!state.is_account_empty(&address(1)));
    assert!(!state.is_account_empty(&address(2)));
    state.put_account(&address(2), account(0, 0));
    assert!(state.is_account_empty(&address(2)));
    state.put_account(&address(2), account(1, 0));
    assert!(!state.is_account_empty(&address(2)));
    state.put_account(&address(1), account(0, 0));
    assert!(!state.is_account_empty(&address(1)));
}

#[test]
fn only_an_empty_account_is_cleaned_up() {
    let mut state = built();
    state.remove_account_if_empty(&address(1));
    assert_eq!(state.accounts(&address(1)), account(3, 100));
    state.put_account(&address(2), account(0, 0));
    state.remove_account_if_empty(&address(2));
    assert_eq!(state.contracts().len(), 1);
}

#[test]
fn an_account_is_removed_with_code_and_storage() {
    let mut state = built();
    state.remove_account(&address(1));
    assert_eq!(state.accounts(&address(1)), Account::default());
    assert!(state.account_codes(&address(1)).is_empty());
    assert_eq!(state.account_storages(&address(1), &word(1)), H256::zero());
    assert_eq!(state.accounts(&address(2)), account(0, 7));
    assert_eq!(state.contracts().len(), 1);
}

#[test]
fn a_modification_writes_code_and_storage() {
    let mut state = built();
    state.apply(
        &vec![Apply::Modify {
            address: address(1),
            basic: account(4, 90),
            code: Some(vec![0x01]),
            storage: vec![(word(1), H256::zero()), (word(3), word(13))],
            reset_storage: false,
        }],
        true,
    );
    assert_eq!(state.accounts(&address(1)), account(4, 90));
    assert_eq!(state.account_codes(&address(1)), vec![0x01]);
    assert_eq!(state.account_storages(&address(1), &word(1)), H256::zero());
    assert_eq!(state.account_storages(&address(1), &word(2)), word(12));
    assert_eq!(state.account_storages(&address(1), &word(3)), word(13));
    for (gathered, contract) in state.contracts() {
        if gathered == address(1) {
            assert_eq!(contract.storage.len(), 2);
        }
    }
}

#[test]
fn a_reset_wipes_the_storage_first() {
    let mut state = built();
    state.apply(
        &vec![Apply::Modify {
            address: address(1),
            basic: account(3, 100),
            code: None,
            storage: vec![(word(3), word(13))],
            reset_storage: true,
        }],
        true,
    );
    assert_eq!(state.account_codes(&address(1)), vec![0x60, 0x00]);
    assert_eq!(state.account_storages(&address(1), &word(1)), H256::zero());
    assert_eq!(state.account_storages(&address(1), &word(2)), H256::zero());
    assert_eq!(state.account_storages(&address(1), &word(3)), word(13));
}

#[test]
fn emptied_accounts_are_deleted_on_request() {
    let emptied = vec![Apply::Modify {
        address: address(2),
        basic: account(0, 0),
        code: None,
        storage: vec![(word(1), word(1))],
        reset_storage: false,
    }];
    let mut state = built();
    state.apply(&emptied, false);
    assert_eq!(state.account_storages(&address(2), &word(1)), word(1));
    assert_eq!(state.contracts().len(), 2);
    let mut state = built();
    state.apply(&emptied, true);
    assert_eq!(state.account_storages(&address(2), &word(1)), H256::zero());
    assert_eq!(state.contracts().len(), 1);
}

#[test]
fn a_deletion_removes_the_account() {
    let mut state = built();
    state.apply(&vec![Apply::Delete { address: address(1) }], true);
    assert_eq!(state.contracts().len(), 1);
    assert_eq!(state.account_storages(&address(1), &word(1)), H256::zero());
}

#[test]
fn the_supply_has_to_fit_in_a_word() {
    let mut state = State::new();
    state.put_account(&address(1), Account { nonce: number(0), balance: MAX });
    assert_eq!(state.supply(), Some(MAX));
    assert!(state.words_fit(1_000_000));
    state.put_account(&address(2), account(0, 1));
    assert_eq!(state.supply(), None);
    assert!(!state.words_fit(1_000_000));
}

#[test]
fn nonces_have_to_leave_room_for_creations() {
    let mut state = State::new();
    let almost = U256([u64::MAX - 10, u64::MAX, u64::MAX, u64::MAX]);
    state.put_account(&address(1), Account { nonce: almost, balance: number(0) });
    assert!(state.words_fit(9));
    assert!(!state.words_fit(10));
    assert!(!state.words_fit(1_000_000));
}
