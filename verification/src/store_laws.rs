//! What the store holds, and what each operation on it leaves, key by key.

use vstd::prelude::*;
use vstd::std_specs::cmp::PartialEqSpec;
use crate::config::RuntimeConfig;
use crate::primitives::{u256_max, zero_word, Key, H160, H256, U256};
use crate::state::{
    changes_of, messages_of, no_account, Account, Apply, Basic, Change, Contract, GenesisAccount,
    Ledger, Log, Message,
};
use crate::storage::{distinct_keys, entries_map, without_prefix, Slot, StorageMap};
use crate::supply::{balance_of, lemma_supply_insert, supply, words_fit};

verus! {

/// What is read of an address: its nonce and balance, its code and its storage values are those
/// that are there, and zero or empty where there are none. It is empty if it has neither nonce nor
/// balance nor code.
pub proof fn law_reads_give_what_is_there(ledger: Ledger, address: H160, index: H256)
    ensures
        ledger.accounts.contains_key(address) ==> ledger.account(address)
            == ledger.accounts[address],
        !ledger.accounts.contains_key(address) ==> ledger.account(address).nonce == 0
            && ledger.account(address).balance == 0,
        ledger.codes.contains_key(address) ==> ledger.code(address) == ledger.codes[address],
        !ledger.codes.contains_key(address) ==> ledger.code(address).len() == 0,
        ledger.storages.contains_key(Slot { address, index }) ==> ledger.storage(address, index)
            == ledger.storages[Slot { address, index }],
        !ledger.storages.contains_key(Slot { address, index }) ==> forall|i: int|
            0 <= i < 32 ==> #[trigger] ledger.storage(address, index).0@[i] == 0u8,
        ledger.is_account_empty(address) <==> (!ledger.accounts.contains_key(address) || (
        ledger.accounts[address].nonce == 0 && ledger.accounts[address].balance == 0)) && (
        !ledger.codes.contains_key(address) || ledger.codes[address].len() == 0),
{
}

/// An address is held if it has an account, code or any storage value; and all that belongs to it
/// is its nonce and balance, its code and its storage values.
pub proof fn law_contracts_gather_what_is_there(ledger: Ledger, address: H160, index: H256)
    ensures
        ledger.contracts().contains_key(address) <==> ledger.accounts.contains_key(address)
            || ledger.codes.contains_key(address) || exists|at: H256| #[trigger]
            ledger.storages.contains_key(Slot { address, index: at }),
        ledger.holds(address) <==> ledger.contracts().contains_key(address),
        ledger.contracts().contains_key(address) ==> {
            let contract = ledger.contracts()[address];
            &&& contract == ledger.contract(address)
            &&& contract.basic == ledger.account(address)
            &&& contract.code == ledger.code(address)
            &&& contract.storage.contains_key(index) <==> ledger.storages.contains_key(
                Slot { address, index },
            )
            &&& contract.storage.contains_key(index) ==> contract.storage[index]
                == ledger.storages[Slot { address, index }]
        },
{
}

/// Removing an account takes its nonce and balance, its code and all its storage values out, and
/// nothing else.
pub proof fn law_removal_takes_everything(ledger: Ledger, address: H160, other: H160, slot: Slot)
    ensures
        ({
            let after = ledger.remove_account(address);
            &&& after.accounts == ledger.accounts.remove(address)
            &&& after.codes == ledger.codes.remove(address)
            &&& after.storages.contains_key(slot) <==> ledger.storages.contains_key(slot)
                && slot.address != address
            &&& after.storages.contains_key(slot) ==> after.storages[slot]
                == ledger.storages[slot]
        }),
{
}

/// Removing an account if it is empty removes it where it has neither nonce nor balance nor code,
/// and else does nothing.
pub proof fn law_cleanup_takes_empty_accounts(ledger: Ledger, address: H160)
    ensures
        ({
            let no_basic = !ledger.accounts.contains_key(address) || (
            ledger.accounts[address].nonce == 0 && ledger.accounts[address].balance == 0);
            let no_code = !ledger.codes.contains_key(address) || ledger.codes[address].len() == 0;
            ledger.remove_account_if_empty(address) == if no_basic && no_code {
                ledger.remove_account(address)
            } else {
                ledger
            }
        }),
{
}

/// Giving an address another nonce and balance changes nothing else.
pub proof fn law_put_account_changes_nothing_else(ledger: Ledger, address: H160, basic: Basic)
    ensures
        ledger.put_account(address, basic).accounts == ledger.accounts.insert(address, basic),
        ledger.put_account(address, basic).codes == ledger.codes,
        ledger.put_account(address, basic).storages == ledger.storages,
{
}

/// A store that nothing has been written to holds nothing.
pub proof fn law_new_store_is_empty()
    ensures
        Ledger::empty().accounts == Map::<H160, Basic>::empty(),
        Ledger::empty().codes == Map::<H160, Seq<u8>>::empty(),
        Ledger::empty().storages == Map::<Slot, H256>::empty(),
{
}

/// A deletion removes the account. A modification gives its address the nonce and balance, the code
/// if there is one, and the storage values, of which a zero empties its slot; before that it wipes
/// the storage, if asked to; and after that, if empty accounts are to be deleted and the account has
/// neither nonce nor balance nor code, it removes the account.
pub proof fn law_change_is_made_in_full(
    ledger: Ledger,
    address: H160,
    basic: Basic,
    code: Option<Seq<u8>>,
    storage: Seq<(H256, H256)>,
    reset_storage: bool,
    delete_empty: bool,
    slot: Slot,
)
    ensures
        ({
            let change = Change::Modify { address, basic, code, storage, reset_storage };
            let after = ledger.apply_change(change, delete_empty);
            let code_len = match code {
                Some(code) => code.len(),
                None => if ledger.codes.contains_key(address) {
                    ledger.codes[address].len()
                } else {
                    0
                },
            };
            let deleted = delete_empty && basic.nonce == 0 && basic.balance == 0 && code_len == 0;
            let written = entries_map(storage);
            &&& deleted ==> {
                &&& after.accounts == ledger.accounts.remove(address)
                &&& after.codes == ledger.codes.remove(address)
            }
            &&& !deleted ==> {
                &&& after.accounts == ledger.accounts.insert(address, basic)
                &&& after.codes == match code {
                    Some(code) => ledger.codes.insert(address, code),
                    None => ledger.codes,
                }
            }
            &&& slot.address != address ==> {
                &&& after.storages.contains_key(slot) <==> ledger.storages.contains_key(slot)
                &&& after.storages.contains_key(slot) ==> after.storages[slot]
                    == ledger.storages[slot]
            }
            &&& slot.address == address && deleted ==> !after.storages.contains_key(slot)
            &&& slot.address == address && !deleted && written.contains_key(slot.index) ==> {
                &&& after.storages.contains_key(slot) <==> exists|i: int|
                    0 <= i < 32 && #[trigger] written[slot.index].0@[i] != 0u8
                &&& after.storages.contains_key(slot) ==> after.storages[slot]
                    == written[slot.index]
            }
            &&& slot.address == address && !deleted && !written.contains_key(slot.index) ==> {
                &&& after.storages.contains_key(slot) <==> ledger.storages.contains_key(slot)
                    && !reset_storage
                &&& after.storages.contains_key(slot) ==> after.storages[slot]
                    == ledger.storages[slot]
            }
        }),
        ledger.apply_change(Change::Delete { address }, delete_empty) == ledger.remove_account(
            address,
        ),
{
    let change = Change::Modify { address, basic, code, storage, reset_storage };
    let after = ledger.apply_change(change, delete_empty);
    assert(ledger.accounts.insert(address, basic).remove(address) =~= ledger.accounts.remove(
        address,
    ));
    if let Some(code) = code {
        assert(ledger.codes.insert(address, code).remove(address) =~= ledger.codes.remove(address));
    }
    let written = entries_map(storage);
    if written.contains_key(slot.index) {
        lemma_zero_word(written[slot.index]);
    }
}

/// A word is zero if all its bytes are.
proof fn lemma_zero_word(word: H256)
    ensures
        word != zero_word() <==> exists|i: int| 0 <= i < 32 && #[trigger] word.0@[i] != 0u8,
{
    if forall|i: int| 0 <= i < 32 ==> #[trigger] word.0@[i] == 0u8 {
        assert(word.0@ =~= zero_word().0@);
        assert(word.0 =~= zero_word().0);
    }
}

/// Changes are made one after the other, each once, in order.
pub proof fn law_changes_are_made_in_order(
    ledger: Ledger,
    changes: Seq<Change>,
    change: Change,
    delete_empty: bool,
)
    ensures
        ledger.apply(Seq::empty(), delete_empty) == ledger,
        ledger.apply(changes.push(change), delete_empty) == ledger.apply(
            changes,
            delete_empty,
        ).apply_change(change, delete_empty),
{
    assert(changes.push(change).drop_last() =~= changes);
}

/// The accounts of a genesis configuration are put in the store one after the other, each once, in
/// order, with nonce and balance, code and storage values.
pub proof fn law_genesis_is_built_in_order(
    ledger: Ledger,
    accounts: Seq<(H160, GenesisAccount)>,
    address: H160,
    account: GenesisAccount,
    slot: Slot,
)
    ensures
        ledger.build(Seq::empty()) == ledger,
        ({
            let before = ledger.build(accounts);
            let after = ledger.build(accounts.push((address, account)));
            let storage = entries_map(account.storage@);
            &&& after.accounts == before.accounts.insert(
                address,
                Basic { nonce: account.nonce@, balance: account.balance@ },
            )
            &&& after.codes == before.codes.insert(address, account.code@)
            &&& after.storages.contains_key(slot) <==> before.storages.contains_key(slot) || (
            slot.address == address && storage.contains_key(slot.index))
            &&& slot.address == address && storage.contains_key(slot.index)
                ==> after.storages[slot] == storage[slot.index]
            &&& before.storages.contains_key(slot) && !(slot.address == address
                && storage.contains_key(slot.index)) ==> after.storages[slot]
                == before.storages[slot]
        }),
{
    assert(accounts.push((address, account)).drop_last() =~= accounts);
}

/// A list of pairs stands for a map to which they are added one after the other; and its keys are
/// distinct if no two of them are the same.
pub proof fn law_pairs_stand_for_a_map<K, V: View>(pairs: Seq<(K, V)>, key: K, value: V)
    ensures
        entries_map(Seq::<(K, V)>::empty()) == Map::<K, V::V>::empty(),
        entries_map(pairs.push((key, value))) == entries_map(pairs).insert(key, value@),
        distinct_keys(pairs) <==> forall|i: int, j: int|
            0 <= i < pairs.len() && 0 <= j < pairs.len() && i != j ==> (#[trigger] pairs[i]).0 != (
            #[trigger] pairs[j]).0,
{
    assert(pairs.push((key, value)).drop_last() =~= pairs);
}

/// A storage map is the map that its pairs stand for.
pub proof fn law_storage_map_is_its_pairs<K: Key, V: View>(map: StorageMap<K, V>)
    ensures
        map@ == entries_map(map.pairs()),
{
}

/// Taking the slots of an account out leaves all other slots with their values.
pub proof fn law_prefix_is_taken_out<V>(map: Map<Slot, V>, address: H160, slot: Slot)
    ensures
        without_prefix(map, address).contains_key(slot) <==> map.contains_key(slot) && slot.address
            != address,
        without_prefix(map, address).contains_key(slot) ==> without_prefix(map, address)[slot]
            == map[slot],
{
}

/// The supply counts the balance of every account once.
pub proof fn law_supply_counts_every_account(
    accounts: Map<H160, Basic>,
    address: H160,
    basic: Basic,
)
    requires
        accounts.dom().finite(),
        !accounts.contains_key(address),
    ensures
        supply(Map::<H160, Basic>::empty()) == 0,
        supply(accounts.insert(address, basic)) == supply(accounts) + basic.balance,
        balance_of(accounts.insert(address, basic), address) == basic.balance,
        balance_of(accounts, address) == 0,
{
    lemma_supply_insert(accounts, address, basic);
}

/// Words fit where the supply fits in a word, and no nonce is within the gas limit of the largest
/// word.
pub proof fn law_words_that_fit(accounts: Map<H160, Basic>, gas_limit: nat)
    ensures
        ({
            let most =
                0xffff_ffff_ffff_ffff_ffff_ffff_ffff_ffff_ffff_ffff_ffff_ffff_ffff_ffff_ffff_ffffnat;
            words_fit(accounts, gas_limit) <==> supply(accounts) <= most && forall|
                address: H160,
            | #[trigger]
                accounts.contains_key(address) ==> accounts[address].nonce + gas_limit < most
        }),
{
}

/// The value of a word is that of its four limbs, least significant first; the largest word is one
/// less than two to the 256th power; and words are equal as numbers if they are equal.
pub proof fn law_words_are_numbers(word: U256, other: U256)
    ensures
        word@ == word.0[0] + 0x1_0000_0000_0000_0000 * (word.0[1] + 0x1_0000_0000_0000_0000 * (
        word.0[2] + 0x1_0000_0000_0000_0000 * word.0[3])),
        word@ <= u256_max(),
        u256_max()
            == 0xffff_ffff_ffff_ffff_ffff_ffff_ffff_ffff_ffff_ffff_ffff_ffff_ffff_ffff_ffff_ffffnat,
        word.eq_spec(&other) <==> word == other,
        word@ == other@ <==> word == other,
{
    if word@ == other@ {
        word.lemma_injective(other);
    }
}

/// Addresses and hashes are equal if all their bytes are, accounts if nonce and balance are, and
/// the zero word consists of zeros.
pub proof fn law_equality_is_of_all_parts(
    address: H160,
    other_address: H160,
    hash: H256,
    other_hash: H256,
    account: Account,
    other_account: Account,
)
    ensures
        address.eq_spec(&other_address) <==> address.0@ == other_address.0@,
        hash.eq_spec(&other_hash) <==> hash.0@ == other_hash.0@,
        account.eq_spec(&other_account) <==> account.nonce == other_account.nonce
            && account.balance == other_account.balance,
        hash == zero_word() <==> forall|i: int| 0 <= i < 32 ==> #[trigger] hash.0@[i] == 0u8,
{
    if address.0@ == other_address.0@ {
        assert(address.0 =~= other_address.0);
    }
    if hash.0@ == other_hash.0@ {
        assert(hash.0 =~= other_hash.0);
    }
    if account@ == other_account@ {
        account.nonce.lemma_injective(other_account.nonce);
        account.balance.lemma_injective(other_account.balance);
    }
    lemma_zero_word(hash);
}

/// What accounts, genesis accounts, logs and changes say is what their parts say.
pub proof fn law_values_say_their_parts(
    account: Account,
    genesis: GenesisAccount,
    log: Log,
    value: Apply,
    values: Seq<Apply>,
    logs: Seq<Log>,
    word: H256,
)
    ensures
        account@ == (Basic { nonce: account.nonce@, balance: account.balance@ }),
        no_account() == (Basic { nonce: 0, balance: 0 }),
        genesis@ == (Contract {
            basic: Basic { nonce: genesis.nonce@, balance: genesis.balance@ },
            code: genesis.code@,
            storage: entries_map(genesis.storage@),
        }),
        log@ == (Message { address: log.address, topics: log.topics@, data: log.data@ }),
        value@ == match value {
            Apply::Modify { address, basic, code, storage, reset_storage } => Change::Modify {
                address,
                basic: Basic { nonce: basic.nonce@, balance: basic.balance@ },
                code: match code {
                    Some(code) => Some(code@),
                    None => None,
                },
                storage: storage@,
                reset_storage,
            },
            Apply::Delete { address } => Change::Delete { address },
        },
        changes_of(values).len() == values.len(),
        forall|i: int|
            0 <= i < values.len() ==> (#[trigger] changes_of(values)[i]) == values[i]@,
        messages_of(logs).len() == logs.len(),
        forall|i: int| 0 <= i < logs.len() ==> (#[trigger] messages_of(logs)[i]) == logs[i]@,
        word@ == word,
{
}

/// The costs of a transaction fit if no call is given gas that it has not paid for, storing costs
/// no less than reading where it is metered by the first value, no instruction costs more than what
/// an eighth of a machine word and the gas limit leave of it, the refunds that the gas can pay for
/// fit in a signed machine word, and so do the bytes of the transaction in a machine word.
pub proof fn law_costs_that_fit(config: RuntimeConfig, gas_limit: nat, data_len: nat)
    ensures
        ({
            let most = usize::MAX - usize::MAX / 8 - gas_limit;
            let clears = if config.refund_sstore_clears >= 0 {
                config.refund_sstore_clears as int
            } else {
                -config.refund_sstore_clears
            };
            let (lower, higher) = if config.gas_sstore_set <= config.gas_sstore_reset {
                (config.gas_sstore_set as nat, config.gas_sstore_reset as nat)
            } else {
                (config.gas_sstore_reset as nat, config.gas_sstore_set as nat)
            };
            let read = config.gas_sload as nat;
            let metered = config.sstore_gas_metering;
            let price: nat = if metered && read <= lower {
                4 + read
            } else {
                4 + lower
            };
            let refund: nat = (clears + if metered {
                higher
            } else {
                0
            }) as nat;
            let byte = if config.gas_transaction_zero_data
                >= config.gas_transaction_non_zero_data {
                config.gas_transaction_zero_data as nat
            } else {
                config.gas_transaction_non_zero_data as nat
            };
            config.costs_fit(gas_limit, data_len) <==> {
                &&& config.call_stipend <= config.gas_call + 9000
                &&& metered ==> read <= lower
                &&& config.gas_call + 34_000 <= most
                &&& config.gas_suicide + config.gas_suicide_new_account <= most
                &&& config.gas_expbyte * 32 + 10 <= most
                &&& config.gas_ext_code <= most
                &&& config.gas_ext_code_hash <= most
                &&& higher <= most
                &&& config.gas_balance <= most
                &&& read <= most
                &&& refund * (gas_limit / price) + 24_000 * (gas_limit / (2
                    + config.gas_suicide as nat)) <= isize::MAX
                &&& config.gas_transaction_call + byte * data_len <= usize::MAX
                &&& config.gas_transaction_create + byte * data_len <= usize::MAX
            }
        }),
{
}

} // verus!
