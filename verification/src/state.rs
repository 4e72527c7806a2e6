//! The accounts, codes and storages of the EVM, and the operations that change them.

use vstd::prelude::*;
use crate::primitives::{u256_max, zero_word, H160, H256, U256};
use crate::storage::{
    distinct_keys, entries_map, lemma_entries_domain, lemma_entries_finite,
    lemma_entries_lookup, without_prefix, Slot, StorageMap,
};
use crate::supply::{balance_of, lemma_supply_insert, lemma_supply_le, supply, words_fit};

verus! {

/// The nonce and the balance of an account.
pub struct Basic {
    /// How many transactions and creations the account has made.
    pub nonce: nat,
    /// How much the account owns.
    pub balance: nat,
}

/// What an account is that nothing has been written to.
pub open spec fn no_account() -> Basic {
    Basic { nonce: 0, balance: 0 }
}

/// An account of the EVM.
#[derive(Clone, Copy, Debug)]
pub struct Account {
    /// Account nonce.
    pub nonce: U256,
    /// Account balance.
    pub balance: U256,
}

impl View for Account {
    type V = Basic;

    open spec fn view(&self) -> Basic {
        Basic { nonce: self.nonce@, balance: self.balance@ }
    }
}

impl Eq for Account {

}

impl PartialEq for Account {
    fn eq(&self, other: &Self) -> (r: bool) {
        self.nonce == other.nonce && self.balance == other.balance
    }
}

impl vstd::std_specs::cmp::PartialEqSpecImpl for Account {
    open spec fn obeys_eq_spec() -> bool {
        true
    }

    open spec fn eq_spec(&self, other: &Self) -> bool {
        self@ == other@
    }
}

impl Default for Account {
    /// The account that nothing has been written to.
    fn default() -> (r: Account)
        ensures
            r@ == no_account(),
    {
        Account { nonce: U256::zero(), balance: U256::zero() }
    }
}

impl View for H256 {
    type V = H256;

    open spec fn view(&self) -> H256 {
        *self
    }
}

/// All that belongs to one address.
#[verifier::ext_equal]
pub struct Contract {
    /// Nonce and balance.
    pub basic: Basic,
    /// The code, empty where there is none.
    pub code: Seq<u8>,
    /// The storage values by their index.
    pub storage: Map<H256, H256>,
}

/// Account definition used for genesis block construction.
#[derive(Clone, Debug, PartialEq, Eq)]
pub struct GenesisAccount {
    /// Account nonce.
    pub nonce: U256,
    /// Account balance.
    pub balance: U256,
    /// Full account storage, as pairs of an index and a value.
    pub storage: Vec<(H256, H256)>,
    /// Account code.
    pub code: Vec<u8>,
}

impl View for GenesisAccount {
    type V = Contract;

    open spec fn view(&self) -> Contract {
        Contract {
            basic: Basic { nonce: self.nonce@, balance: self.balance@ },
            code: self.code@,
            storage: entries_map(self.storage@),
        }
    }
}

/// The accounts that a chain starts with.
#[derive(Debug)]
pub struct GenesisConfig {
    /// The accounts by their address.
    pub accounts: Vec<(H160, GenesisAccount)>,
}

impl GenesisConfig {
    /// Put the accounts in a store, one after the other.
    pub fn build(&self, state: &mut State)
        ensures
            final(state)@ == old(state)@.build(self.accounts@),
    {
        state.build(&self.accounts)
    }
}

/// A message that a contract has left while it ran.
#[derive(Clone, Debug, PartialEq, Eq)]
pub struct Log {
    /// The contract that left the message.
    pub address: H160,
    /// The indexed words of the message.
    pub topics: Vec<H256>,
    /// The body of the message.
    pub data: Vec<u8>,
}

/// What a log says.
pub struct Message {
    /// The contract that left the message.
    pub address: H160,
    /// The indexed words of the message.
    pub topics: Seq<H256>,
    /// The body of the message.
    pub data: Seq<u8>,
}

impl View for Log {
    type V = Message;

    open spec fn view(&self) -> Message {
        Message { address: self.address, topics: self.topics@, data: self.data@ }
    }
}

/// A change that an execution asks for.
#[derive(Debug, PartialEq, Eq)]
pub enum Apply {
    /// Modify or create at an address.
    Modify {
        /// Address.
        address: H160,
        /// Nonce and balance of the address.
        basic: Account,
        /// Code. `None` leaves it unchanged.
        code: Option<Vec<u8>>,
        /// Values to write, as pairs of an index and a value.
        storage: Vec<(H256, H256)>,
        /// Whether the storage is wiped before the values are written.
        reset_storage: bool,
    },
    /// Delete an address.
    Delete {
        /// Address.
        address: H160,
    },
}

/// What a change asks for.
pub enum Change {
    /// Modify or create at an address.
    Modify {
        /// Address.
        address: H160,
        /// Nonce and balance of the address.
        basic: Basic,
        /// Code. `None` leaves it unchanged.
        code: Option<Seq<u8>>,
        /// Values to write, as pairs of an index and a value.
        storage: Seq<(H256, H256)>,
        /// Whether the storage is wiped before the values are written.
        reset_storage: bool,
    },
    /// Delete an address.
    Delete {
        /// Address.
        address: H160,
    },
}

impl View for Apply {
    type V = Change;

    open spec fn view(&self) -> Change {
        match *self {
            Apply::Modify { address, basic, code, storage, reset_storage } => Change::Modify {
                address,
                basic: basic@,
                code: match code {
                    Some(code) => Some(code@),
                    None => None,
                },
                storage: storage@,
                reset_storage,
            },
            Apply::Delete { address } => Change::Delete { address },
        }
    }
}

/// What a list of changes asks for.
pub open spec fn changes_of(values: Seq<Apply>) -> Seq<Change> {
    values.map_values(|value: Apply| value@)
}

/// What a list of logs says.
pub open spec fn messages_of(logs: Seq<Log>) -> Seq<Message> {
    logs.map_values(|log: Log| log@)
}

/// A map from slots once values have been written to an account's storage. A zero value empties
/// its slot.
pub open spec fn with_writes(
    storages: Map<Slot, H256>,
    address: H160,
    writes: Seq<(H256, H256)>,
) -> Map<Slot, H256> {
    let written = entries_map(writes);
    Map::new(
        |slot: Slot|
            if slot.address == address && written.contains_key(slot.index) {
                written[slot.index] != zero_word()
            } else {
                storages.contains_key(slot)
            },
        |slot: Slot|
            if slot.address == address && written.contains_key(slot.index) {
                written[slot.index]
            } else {
                storages[slot]
            },
    )
}

/// A map from slots once an account's storage has been put over what it held.
pub open spec fn with_storage(
    storages: Map<Slot, H256>,
    address: H160,
    storage: Map<H256, H256>,
) -> Map<Slot, H256> {
    Map::new(
        |slot: Slot|
            storages.contains_key(slot) || (slot.address == address && storage.contains_key(
                slot.index,
            )),
        |slot: Slot|
            if slot.address == address && storage.contains_key(slot.index) {
                storage[slot.index]
            } else {
                storages[slot]
            },
    )
}

/// The storage of one account, out of a map from slots.
pub open spec fn storage_of(storages: Map<Slot, H256>, address: H160) -> Map<H256, H256> {
    Map::new(
        |index: H256| storages.contains_key(Slot { address, index }),
        |index: H256| storages[Slot { address, index }],
    )
}

/// The contents of the store.
#[verifier::ext_equal]
pub struct Ledger {
    /// Nonce and balance by address.
    pub accounts: Map<H160, Basic>,
    /// Code by address.
    pub codes: Map<H160, Seq<u8>>,
    /// Storage values by address and index.
    pub storages: Map<Slot, H256>,
}

impl Ledger {
    /// The store that nothing has been written to.
    pub open spec fn empty() -> Ledger {
        Ledger { accounts: Map::empty(), codes: Map::empty(), storages: Map::empty() }
    }

    /// The nonce and balance of an address.
    pub open spec fn account(self, address: H160) -> Basic {
        if self.accounts.contains_key(address) {
            self.accounts[address]
        } else {
            no_account()
        }
    }

    /// The code of an address.
    pub open spec fn code(self, address: H160) -> Seq<u8> {
        if self.codes.contains_key(address) {
            self.codes[address]
        } else {
            Seq::empty()
        }
    }

    /// The storage value of an address at an index.
    pub open spec fn storage(self, address: H160, index: H256) -> H256 {
        if self.storages.contains_key(Slot { address, index }) {
            self.storages[Slot { address, index }]
        } else {
            zero_word()
        }
    }

    /// Whether an address has neither nonce nor balance nor code.
    pub open spec fn is_account_empty(self, address: H160) -> bool {
        self.account(address) == no_account() && self.code(address).len() == 0
    }

    /// The store without anything at an address.
    pub open spec fn remove_account(self, address: H160) -> Ledger {
        Ledger {
            accounts: self.accounts.remove(address),
            codes: self.codes.remove(address),
            storages: without_prefix(self.storages, address),
        }
    }

    /// The store without anything at an address, where the account there is empty.
    pub open spec fn remove_account_if_empty(self, address: H160) -> Ledger {
        if self.is_account_empty(address) {
            self.remove_account(address)
        } else {
            self
        }
    }

    /// The store with another nonce and balance at an address.
    pub open spec fn put_account(self, address: H160, basic: Basic) -> Ledger {
        Ledger { accounts: self.accounts.insert(address, basic), ..self }
    }

    /// The store once a change has been made.
    pub open spec fn apply_change(self, change: Change, delete_empty: bool) -> Ledger {
        match change {
            Change::Modify { address, basic, code, storage, reset_storage } => {
                let modified = Ledger {
                    accounts: self.accounts.insert(address, basic),
                    codes: match code {
                        Some(code) => self.codes.insert(address, code),
                        None => self.codes,
                    },
                    storages: with_writes(
                        if reset_storage {
                            without_prefix(self.storages, address)
                        } else {
                            self.storages
                        },
                        address,
                        storage,
                    ),
                };
                if delete_empty {
                    modified.remove_account_if_empty(address)
                } else {
                    modified
                }
            },
            Change::Delete { address } => self.remove_account(address),
        }
    }

    /// The store once changes have been made one after the other.
    pub open spec fn apply(self, changes: Seq<Change>, delete_empty: bool) -> Ledger
        decreases changes.len(),
    {
        if changes.len() == 0 {
            self
        } else {
            self.apply(changes.drop_last(), delete_empty).apply_change(
                changes.last(),
                delete_empty,
            )
        }
    }

    /// The store once a contract has been put at an address.
    pub open spec fn put_contract(self, address: H160, contract: Contract) -> Ledger {
        Ledger {
            accounts: self.accounts.insert(address, contract.basic),
            codes: self.codes.insert(address, contract.code),
            storages: with_storage(self.storages, address, contract.storage),
        }
    }

    /// The store once the accounts of a genesis configuration have been put there, one after the
    /// other.
    pub open spec fn build(self, accounts: Seq<(H160, GenesisAccount)>) -> Ledger
        decreases accounts.len(),
    {
        if accounts.len() == 0 {
            self
        } else {
            self.build(accounts.drop_last()).put_contract(accounts.last().0, accounts.last().1@)
        }
    }

    /// Whether the store holds anything at an address.
    pub open spec fn holds(self, address: H160) -> bool {
        ||| self.accounts.contains_key(address)
        ||| self.codes.contains_key(address)
        ||| exists|index: H256| #[trigger] self.storages.contains_key(Slot { address, index })
    }

    /// All that belongs to an address.
    pub open spec fn contract(self, address: H160) -> Contract {
        Contract {
            basic: self.account(address),
            code: self.code(address),
            storage: storage_of(self.storages, address),
        }
    }

    /// What the store holds, gathered by address.
    pub open spec fn contracts(self) -> Map<H160, Contract> {
        Map::new(|address: H160| self.holds(address), |address: H160| self.contract(address))
    }
}

/// The store of the module: accounts, codes and storages.
#[derive(Debug)]
pub struct State {
    accounts: StorageMap<H160, Account>,
    account_codes: StorageMap<H160, Vec<u8>>,
    account_storages: StorageMap<Slot, H256>,
}

impl View for State {
    type V = Ledger;

    closed spec fn view(&self) -> Ledger {
        Ledger {
            accounts: self.accounts@,
            codes: self.account_codes@,
            storages: self.account_storages@,
        }
    }
}

/// A copy of a byte string.
pub(crate) fn copy_bytes(bytes: &Vec<u8>) -> (r: Vec<u8>)
    ensures
        r@ == bytes@,
{
    let r = bytes.clone();
    assert(r@ =~= bytes@);
    r
}

impl State {
    /// A store that nothing has been written to.
    pub fn new() -> (r: State)
        ensures
            r@ == Ledger::empty(),
    {
        State {
            accounts: StorageMap::new(),
            account_codes: StorageMap::new(),
            account_storages: StorageMap::new(),
        }
    }

    /// The nonce and balance of an address.
    pub fn accounts(&self, address: &H160) -> (r: Account)
        ensures
            r@ == self@.account(*address),
    {
        match self.accounts.get(address) {
            Some(account) => *account,
            None => Account::default(),
        }
    }

    /// The code of an address.
    pub fn account_codes(&self, address: &H160) -> (r: Vec<u8>)
        ensures
            r@ == self@.code(*address),
    {
        match self.account_codes.get(address) {
            Some(code) => copy_bytes(code),
            None => Vec::new(),
        }
    }

    /// The storage value of an address at an index.
    pub fn account_storages(&self, address: &H160, index: &H256) -> (r: H256)
        ensures
            r == self@.storage(*address, *index),
    {
        match self.account_storages.get(&Slot { address: *address, index: *index }) {
            Some(value) => *value,
            None => H256::zero(),
        }
    }

    /// Check whether an account is empty.
    pub fn is_account_empty(&self, address: &H160) -> (r: bool)
        ensures
            r == self@.is_account_empty(*address),
    {
        let account = self.accounts(address);
        let code_len: usize = match self.account_codes.get(address) {
            Some(code) => code.len(),
            None => 0,
        };
        account.nonce == U256::zero() && account.balance == U256::zero() && code_len == 0
    }

    /// Remove an account if it is empty.
    pub fn remove_account_if_empty(&mut self, address: &H160)
        ensures
            final(self)@ == old(self)@.remove_account_if_empty(*address),
    {
        if self.is_account_empty(address) {
            self.remove_account(address)
        }
    }

    /// Remove an account from the store.
    pub fn remove_account(&mut self, address: &H160)
        ensures
            final(self)@ == old(self)@.remove_account(*address),
    {
        let _ = self.accounts.remove(address);
        let _ = self.account_codes.remove(address);
        self.account_storages.remove_prefix(address);
    }

    /// Give an address another nonce and balance.
    pub fn put_account(&mut self, address: &H160, account: Account)
        ensures
            final(self)@ == old(self)@.put_account(*address, account@),
    {
        self.accounts.insert(*address, account);
    }

    /// Write values to the storage of an account. A zero value empties its slot.
    fn write_storage(&mut self, address: &H160, storage: &Vec<(H256, H256)>)
        ensures
            final(self)@ == (Ledger {
                storages: with_writes(old(self)@.storages, *address, storage@),
                ..old(self)@
            }),
    {
        let ghost before = self@;
        let mut i: usize = 0;
        assert(with_writes(before.storages, *address, storage@.take(0)) =~= before.storages);
        while i < storage.len()
            invariant
                i <= storage@.len(),
                self@ == (Ledger {
                    storages: with_writes(before.storages, *address, storage@.take(i as int)),
                    ..before
                }),
            decreases storage@.len() - i,
        {
            let (index, value) = storage[i];
            let slot = Slot { address: *address, index };
            if value.is_zero() {
                let _ = self.account_storages.remove(&slot);
            } else {
                self.account_storages.insert(slot, value);
            }
            proof {
                let next = storage@.take(i + 1);
                assert(next.drop_last() =~= storage@.take(i as int));
                assert(next.last() == storage@[i as int]);
                assert(self@.storages =~= with_writes(before.storages, *address, next));
            }
            i = i + 1;
        }
        assert(storage@.take(storage@.len() as int) =~= storage@);
    }

    /// Make one change.
    fn apply_change(&mut self, value: &Apply, delete_empty: bool)
        ensures
            final(self)@ == old(self)@.apply_change(value@, delete_empty),
    {
        match value {
            Apply::Modify { address, basic, code, storage, reset_storage } => {
                self.accounts.insert(*address, *basic);
                if let Some(code) = code {
                    self.account_codes.insert(*address, copy_bytes(code));
                }
                if *reset_storage {
                    self.account_storages.remove_prefix(address);
                }
                self.write_storage(address, storage);
                if delete_empty {
                    self.remove_account_if_empty(address);
                }
            },
            Apply::Delete { address } => {
                self.remove_account(address);
            },
        }
    }

    /// Make changes one after the other. With `delete_empty`, an account that a change leaves
    /// empty is removed.
    pub fn apply(&mut self, values: &Vec<Apply>, delete_empty: bool)
        ensures
            final(self)@ == old(self)@.apply(changes_of(values@), delete_empty),
    {
        let ghost before = self@;
        let ghost changes = changes_of(values@);
        let mut i: usize = 0;
        while i < values.len()
            invariant
                i <= values@.len(),
                changes == changes_of(values@),
                self@ == before.apply(changes.take(i as int), delete_empty),
            decreases values@.len() - i,
        {
            self.apply_change(&values[i], delete_empty);
            proof {
                let next = changes.take(i + 1);
                assert(next.drop_last() =~= changes.take(i as int));
            }
            i = i + 1;
        }
        assert(changes.take(values@.len() as int) =~= changes);
    }

    /// Put a contract at an address.
    fn put_contract(&mut self, address: &H160, account: &GenesisAccount)
        ensures
            final(self)@ == old(self)@.put_contract(*address, account@),
    {
        let ghost before = self@;
        self.accounts.insert(*address, Account { nonce: account.nonce, balance: account.balance });
        self.account_codes.insert(*address, copy_bytes(&account.code));
        let ghost middle = self@;
        let mut i: usize = 0;
        assert(with_storage(
            before.storages,
            *address,
            entries_map(account.storage@.take(0)),
        ) =~= before.storages);
        while i < account.storage.len()
            invariant
                i <= account.storage@.len(),
                middle.storages == before.storages,
                self@ == (Ledger {
                    storages: with_storage(
                        before.storages,
                        *address,
                        entries_map(account.storage@.take(i as int)),
                    ),
                    ..middle
                }),
            decreases account.storage@.len() - i,
        {
            let (index, value) = account.storage[i];
            self.account_storages.insert(Slot { address: *address, index }, value);
            proof {
                let next = account.storage@.take(i + 1);
                assert(next.drop_last() =~= account.storage@.take(i as int));
                assert(next.last() == account.storage@[i as int]);
                assert(self@.storages =~= with_storage(
                    before.storages,
                    *address,
                    entries_map(next),
                ));
            }
            i = i + 1;
        }
        assert(account.storage@.take(account.storage@.len() as int) =~= account.storage@);
    }

    /// Put the accounts of a genesis configuration in the store, one after the other.
    pub fn build(&mut self, accounts: &Vec<(H160, GenesisAccount)>)
        ensures
            final(self)@ == old(self)@.build(accounts@),
    {
        let ghost before = self@;
        let mut i: usize = 0;
        while i < accounts.len()
            invariant
                i <= accounts@.len(),
                self@ == before.build(accounts@.take(i as int)),
            decreases accounts@.len() - i,
        {
            self.put_contract(&accounts[i].0, &accounts[i].1);
            proof {
                let next = accounts@.take(i + 1);
                assert(next.drop_last() =~= accounts@.take(i as int));
            }
            i = i + 1;
        }
        assert(accounts@.take(accounts@.len() as int) =~= accounts@);
    }

    /// The store holds finitely many accounts.
    pub proof fn lemma_finite(&self)
        ensures
            self@.accounts.dom().finite(),
    {
        lemma_entries_finite(self.accounts.pairs());
    }

    /// The balances of all accounts taken together, where they fit in a word.
    pub fn supply(&self) -> (r: Option<U256>)
        ensures
            match r {
                Some(total) => total@ == supply(self@.accounts),
                None => supply(self@.accounts) > u256_max(),
            },
    {
        let accounts = self.accounts.entries();
        let mut total = U256::zero();
        let mut i: usize = 0;
        while i < accounts.len()
            invariant
                i <= accounts@.len(),
                distinct_keys(accounts@),
                entries_map(accounts@) == self@.accounts,
                total@ == supply(entries_map(accounts@.take(i as int))),
            decreases accounts@.len() - i,
        {
            proof {
                let before = accounts@.take(i as int);
                let next = accounts@.take(i + 1);
                assert(next.drop_last() =~= before);
                lemma_entries_finite(before);
                lemma_new_key(accounts@, i as int);
                lemma_supply_insert(entries_map(before), accounts@[i as int].0, next.last().1@);
                lemma_entries_finite(next);
                lemma_entries_finite(accounts@);
                assert forall|address: H160| #[trigger]
                    balance_of(entries_map(next), address) <= balance_of(
                        entries_map(accounts@),
                        address,
                    ) by {
                    lemma_prefix_lookup(accounts@, i + 1, address);
                }
                lemma_supply_le(entries_map(next), entries_map(accounts@));
            }
            match total.checked_add(accounts[i].1.balance) {
                Some(sum) => {
                    total = sum;
                },
                None => {
                    return None;
                },
            }
            i = i + 1;
        }
        assert(accounts@.take(accounts@.len() as int) =~= accounts@);
        Some(total)
    }

    /// Whether a transaction with the given gas limit can run on the store, whatever it does,
    /// without any balance or nonce leaving the range of a word.
    pub fn words_fit(&self, gas_limit: u32) -> (r: bool)
        ensures
            r == words_fit(self@.accounts, gas_limit as nat),
    {
        let accounts = self.accounts.entries();
        let limit = U256::from_u128(gas_limit as u128);
        let most = U256([u64::MAX, u64::MAX, u64::MAX, u64::MAX]);
        let mut i: usize = 0;
        while i < accounts.len()
            invariant
                i <= accounts@.len(),
                distinct_keys(accounts@),
                entries_map(accounts@) == self@.accounts,
                limit@ == gas_limit,
                most@ == u256_max(),
                forall|j: int|
                    0 <= j < i ==> (#[trigger] accounts@[j]).1@.nonce + gas_limit < u256_max(),
            decreases accounts@.len() - i,
        {
            proof {
                lemma_entries_lookup(accounts@, i as int);
            }
            let within = match accounts[i].1.nonce.checked_add(limit) {
                Some(sum) => sum.less_than(&most),
                None => false,
            };
            if !within {
                assert(self@.accounts.contains_key(accounts@[i as int].0));
                return false;
            }
            i = i + 1;
        }
        proof {
            assert forall|address: H160| #[trigger]
                self@.accounts.contains_key(address) implies self@.accounts[address].nonce
                + gas_limit < u256_max() by {
                lemma_entries_domain(accounts@, address);
                let j = choose|j: int|
                    0 <= j < accounts@.len() && (#[trigger] accounts@[j]).0 == address;
                lemma_entries_lookup(accounts@, j);
            }
        }
        self.supply().is_some()
    }

    /// Takes the contract that has been gathered for an address so far out of `gathered`.
    fn take_contract(gathered: &mut StorageMap<H160, GenesisAccount>, address: &H160) -> (r:
        GenesisAccount)
        ensures
            final(gathered)@ == old(gathered)@.remove(*address),
            keeps_indices_apart(*old(gathered)) ==> keeps_indices_apart(*final(gathered))
                && distinct_keys(r.storage@),
            r@ == if old(gathered)@.contains_key(*address) {
                old(gathered)@[*address]
            } else {
                Contract { basic: no_account(), code: Seq::empty(), storage: Map::empty() }
            },
    {
        match gathered.remove(address) {
            Some(account) => account,
            None => {
                let account = GenesisAccount {
                    nonce: U256::zero(),
                    balance: U256::zero(),
                    storage: Vec::new(),
                    code: Vec::new(),
                };
                assert(account@ =~= Contract {
                    basic: no_account(),
                    code: Seq::empty(),
                    storage: Map::empty(),
                });
                account
            },
        }
    }

    /// What the store holds, gathered by address.
    pub fn contracts(&self) -> (r: Vec<(H160, GenesisAccount)>)
        ensures
            entries_map(r@) == self@.contracts(),
            distinct_keys(r@),
            forall|i: int|
                0 <= i < r@.len() ==> distinct_keys((#[trigger] r@[i]).1.storage@),
    {
        let mut gathered: StorageMap<H160, GenesisAccount> = StorageMap::new();
        let accounts = self.accounts.entries();
        let codes = self.account_codes.entries();
        let storages = self.account_storages.entries();
        let ghost mut so_far = Ledger::empty();
        assert(gathered@ =~= so_far.contracts());

        let mut i: usize = 0;
        assert(entries_map(accounts@.take(0)) =~= so_far.accounts);
        while i < accounts.len()
            invariant
                i <= accounts@.len(),
                distinct_keys(accounts@),
                so_far == (Ledger {
                    accounts: entries_map(accounts@.take(i as int)),
                    ..Ledger::empty()
                }),
                gathered@ == so_far.contracts(),
                keeps_indices_apart(gathered),
            decreases accounts@.len() - i,
        {
            let address = accounts[i].0;
            let mut contract = Self::take_contract(&mut gathered, &address);
            contract.nonce = accounts[i].1.nonce;
            contract.balance = accounts[i].1.balance;
            gathered.insert(address, contract);
            proof {
                let next = accounts@.take(i + 1);
                assert(next.drop_last() =~= accounts@.take(i as int));
                let grown = Ledger { accounts: entries_map(next), ..so_far };
                lemma_not_held(so_far, address);
                lemma_account_added(so_far, address, accounts@[i as int].1@);
                assert(gathered@ =~= grown.contracts());
                so_far = grown;
            }
            i = i + 1;
        }
        assert(accounts@.take(accounts@.len() as int) =~= accounts@);

        let mut j: usize = 0;
        assert(entries_map(codes@.take(0)) =~= so_far.codes);
        while j < codes.len()
            invariant
                j <= codes@.len(),
                distinct_keys(codes@),
                so_far == (Ledger {
                    accounts: self@.accounts,
                    codes: entries_map(codes@.take(j as int)),
                    storages: Map::empty(),
                }),
                gathered@ == so_far.contracts(),
                keeps_indices_apart(gathered),
            decreases codes@.len() - j,
        {
            let address = codes[j].0;
            let mut contract = Self::take_contract(&mut gathered, &address);
            contract.code = copy_bytes(&codes[j].1);
            gathered.insert(address, contract);
            proof {
                let next = codes@.take(j + 1);
                assert(next.drop_last() =~= codes@.take(j as int));
                let grown = Ledger { codes: entries_map(next), ..so_far };
                lemma_not_held(so_far, address);
                lemma_code_added(so_far, address, codes@[j as int].1@);
                assert(gathered@ =~= grown.contracts());
                so_far = grown;
            }
            j = j + 1;
        }
        assert(codes@.take(codes@.len() as int) =~= codes@);

        let mut k: usize = 0;
        assert(entries_map(storages@.take(0)) =~= so_far.storages);
        while k < storages.len()
            invariant
                k <= storages@.len(),
                distinct_keys(storages@),
                so_far == (Ledger {
                    storages: entries_map(storages@.take(k as int)),
                    ..self@
                }),
                gathered@ == so_far.contracts(),
                keeps_indices_apart(gathered),
            decreases storages@.len() - k,
        {
            let slot = storages[k].0;
            let mut contract = Self::take_contract(&mut gathered, &slot.address);
            let ghost held = contract.storage@;
            contract.storage.push((slot.index, storages[k].1));
            assert(contract.storage@.drop_last() =~= held);
            proof {
                lemma_new_key(storages@, k as int);
                lemma_not_held(so_far, slot.address);
                lemma_entries_domain(held, slot.index);
                assert(!entries_map(held).contains_key(slot.index));
            }
            gathered.insert(slot.address, contract);
            proof {
                let next = storages@.take(k + 1);
                assert(next.drop_last() =~= storages@.take(k as int));
                let grown = Ledger { storages: entries_map(next), ..so_far };
                lemma_not_held(so_far, slot.address);
                lemma_slot_added(so_far, slot, storages@[k as int].1);
                assert(gathered@ =~= grown.contracts());
                so_far = grown;
            }
            k = k + 1;
        }
        assert(storages@.take(storages@.len() as int) =~= storages@);
        assert(so_far =~= self@);
        let ghost all = gathered;
        let r = gathered.into_entries();
        assert forall|i: int| 0 <= i < r@.len() implies distinct_keys(
            (#[trigger] r@[i]).1.storage@,
        ) by {
            assert(all.pairs()[i].1 == r@[i].1);
            assert(all.has_value(r@[i].1));
        }
        r
    }
}

/// Whether no index occurs twice in the storage of any of the contracts.
spec fn keeps_indices_apart(gathered: StorageMap<H160, GenesisAccount>) -> bool {
    forall|contract: GenesisAccount| #[trigger]
        gathered.has_value(contract) ==> distinct_keys(contract.storage@)
}

/// The key of a pair does not occur before it.
proof fn lemma_new_key<K, V: View>(entries: Seq<(K, V)>, i: int)
    requires
        distinct_keys(entries),
        0 <= i < entries.len(),
    ensures
        !entries_map(entries.take(i)).contains_key(entries[i].0),
{
    let before = entries.take(i);
    lemma_entries_domain(before, entries[i].0);
    if entries_map(before).contains_key(entries[i].0) {
        let j = choose|j: int| 0 <= j < before.len() && (#[trigger] before[j]).0 == entries[i].0;
        assert(entries[j].0 != entries[i].0);
    }
}

/// What the first pairs of a list hold, the whole list holds.
proof fn lemma_prefix_lookup<K, V: View>(entries: Seq<(K, V)>, n: int, key: K)
    requires
        distinct_keys(entries),
        0 <= n <= entries.len(),
    ensures
        entries_map(entries.take(n)).contains_key(key) ==> entries_map(entries).contains_key(key)
            && entries_map(entries)[key] == entries_map(entries.take(n))[key],
{
    let before = entries.take(n);
    if entries_map(before).contains_key(key) {
        lemma_entries_domain(before, key);
        let j = choose|j: int| 0 <= j < before.len() && (#[trigger] before[j]).0 == key;
        assert(distinct_keys(before));
        lemma_entries_lookup(before, j);
        lemma_entries_lookup(entries, j);
        assert(before[j] == entries[j]);
    }
}

/// Nothing belongs to an address that the store does not hold.
proof fn lemma_not_held(ledger: Ledger, address: H160)
    ensures
        !ledger.holds(address) ==> ledger.contract(address) == (Contract {
            basic: no_account(),
            code: Seq::empty(),
            storage: Map::empty(),
        }),
{
    if !ledger.holds(address) {
        assert(storage_of(ledger.storages, address) =~= Map::empty());
    }
}

/// Another nonce and balance change the contract of their address alone.
proof fn lemma_account_added(ledger: Ledger, address: H160, basic: Basic)
    ensures
        (Ledger { accounts: ledger.accounts.insert(address, basic), ..ledger }).contracts()
            == ledger.contracts().insert(
            address,
            Contract { basic, ..ledger.contract(address) },
        ),
{
    let grown = Ledger { accounts: ledger.accounts.insert(address, basic), ..ledger };
    let expected = ledger.contracts().insert(address, Contract { basic, ..ledger.contract(address) });
    assert forall|other: H160| grown.holds(other) <==> expected.contains_key(other) by {
        assert(grown.storages == ledger.storages);
    }
    assert forall|other: H160| grown.holds(other) implies grown.contract(other)
        == expected[other] by {
        assert(other != address ==> grown.contract(other) == ledger.contract(other));
    }
    assert(grown.contracts() =~= expected);
}

/// Another code changes the contract of its address alone.
proof fn lemma_code_added(ledger: Ledger, address: H160, code: Seq<u8>)
    ensures
        (Ledger { codes: ledger.codes.insert(address, code), ..ledger }).contracts()
            == ledger.contracts().insert(address, Contract { code, ..ledger.contract(address) }),
{
    let grown = Ledger { codes: ledger.codes.insert(address, code), ..ledger };
    let expected = ledger.contracts().insert(address, Contract { code, ..ledger.contract(address) });
    assert forall|other: H160| grown.holds(other) <==> expected.contains_key(other) by {
        assert(grown.storages == ledger.storages);
    }
    assert forall|other: H160| grown.holds(other) implies grown.contract(other)
        == expected[other] by {
        assert(other != address ==> grown.contract(other) == ledger.contract(other));
    }
    assert(grown.contracts() =~= expected);
}

/// One more slot changes the contract of its address alone.
proof fn lemma_slot_added(ledger: Ledger, slot: Slot, value: H256)
    ensures
        ({
            let grown = Ledger { storages: ledger.storages.insert(slot, value), ..ledger };
            let contract = ledger.contract(slot.address);
            grown.contracts() == ledger.contracts().insert(
                slot.address,
                Contract { storage: contract.storage.insert(slot.index, value), ..contract },
            )
        }),
{
    let grown = Ledger { storages: ledger.storages.insert(slot, value), ..ledger };
    let contract = ledger.contract(slot.address);
    let changed = Contract { storage: contract.storage.insert(slot.index, value), ..contract };
    let expected = ledger.contracts().insert(slot.address, changed);
    assert(grown.storages.contains_key(Slot { address: slot.address, index: slot.index }));
    assert forall|address: H160| grown.holds(address) <==> expected.contains_key(address) by {
        if grown.holds(address) && address != slot.address {
            if !ledger.accounts.contains_key(address) && !ledger.codes.contains_key(address) {
                let index = choose|index: H256|
                    #[trigger] grown.storages.contains_key(Slot { address, index });
                assert(ledger.storages.contains_key(Slot { address, index }));
            }
        }
        if ledger.holds(address) && address != slot.address {
            if !ledger.accounts.contains_key(address) && !ledger.codes.contains_key(address) {
                let index = choose|index: H256|
                    #[trigger] ledger.storages.contains_key(Slot { address, index });
                assert(grown.storages.contains_key(Slot { address, index }));
            }
        }
    }
    assert forall|address: H160| grown.holds(address) implies grown.contract(address)
        == expected[address] by {
        if address == slot.address {
            assert(grown.contract(address).storage =~= changed.storage);
        } else {
            assert(grown.contract(address).storage =~= ledger.contract(address).storage);
        }
    }
    assert(grown.contracts() =~= expected);
}

} // verus!
