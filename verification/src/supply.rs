//! The supply of the EVM: the balances of all accounts taken together.

use vstd::prelude::*;
use crate::primitives::{u256_max, H160};
use crate::state::Basic;

verus! {

/// The balances of all accounts taken together.
pub open spec fn supply(accounts: Map<H160, Basic>) -> nat
    decreases accounts.dom().len(),
    when accounts.dom().finite()
{
    if accounts.dom().len() == 0 {
        0
    } else {
        let address = accounts.dom().choose();
        accounts[address].balance + supply(accounts.remove(address))
    }
}

/// The balance of an address, zero where there is no account.
pub open spec fn balance_of(accounts: Map<H160, Basic>, address: H160) -> nat {
    if accounts.contains_key(address) {
        accounts[address].balance
    } else {
        0
    }
}

/// Whether a transaction can run on the given accounts without any balance or nonce leaving the
/// range of a word: the supply fits in a word, so no account can receive more than a word holds,
/// and no nonce is so close to the largest word that the creations that the gas pays for carry it
/// over.
pub open spec fn words_fit(accounts: Map<H160, Basic>, gas_limit: nat) -> bool {
    &&& supply(accounts) <= u256_max()
    &&& forall|address: H160| #[trigger]
        accounts.contains_key(address) ==> accounts[address].nonce + gas_limit < u256_max()
}

/// The supply is the balance of any one account and the supply of the others.
pub proof fn lemma_supply_remove(accounts: Map<H160, Basic>, address: H160)
    requires
        accounts.dom().finite(),
        accounts.contains_key(address),
    ensures
        supply(accounts) == accounts[address].balance + supply(accounts.remove(address)),
    decreases accounts.dom().len(),
{
    let first = accounts.dom().choose();
    assert(accounts.dom().contains(first)) by {
        assert(accounts.dom().contains(address));
    }
    if first != address {
        let rest = accounts.remove(first);
        lemma_supply_remove(rest, address);
        lemma_supply_remove(accounts.remove(address), first);
        assert(rest.remove(address) =~= accounts.remove(address).remove(first));
    }
}

/// Giving an address another balance changes the supply by the difference.
pub proof fn lemma_supply_insert(accounts: Map<H160, Basic>, address: H160, basic: Basic)
    requires
        accounts.dom().finite(),
    ensures
        supply(accounts.insert(address, basic)) == supply(accounts) - balance_of(accounts, address)
            + basic.balance,
{
    let inserted = accounts.insert(address, basic);
    lemma_supply_remove(inserted, address);
    if accounts.contains_key(address) {
        lemma_supply_remove(accounts, address);
        assert(inserted.remove(address) =~= accounts.remove(address));
    } else {
        assert(inserted.remove(address) =~= accounts);
    }
}

/// No account owns more than the supply.
pub proof fn lemma_balance_bounded(accounts: Map<H160, Basic>, address: H160)
    requires
        accounts.dom().finite(),
    ensures
        balance_of(accounts, address) <= supply(accounts),
{
    if accounts.contains_key(address) {
        lemma_supply_remove(accounts, address);
    }
}

/// Where no address owns more in one map than in another, the supply is no larger either.
pub proof fn lemma_supply_le(accounts: Map<H160, Basic>, other: Map<H160, Basic>)
    requires
        accounts.dom().finite(),
        other.dom().finite(),
        forall|address: H160| #[trigger]
            balance_of(accounts, address) <= balance_of(other, address),
    ensures
        supply(accounts) <= supply(other),
    decreases accounts.dom().len(),
{
    if accounts.dom().len() > 0 {
        let first = accounts.dom().choose();
        assert(accounts.dom().contains(first));
        let rest = accounts.remove(first);
        let other_rest = other.remove(first);
        assert forall|address: H160| #[trigger] balance_of(rest, address) <= balance_of(
            other_rest,
            address,
        ) by {
            assert(balance_of(accounts, address) <= balance_of(other, address));
        }
        lemma_supply_le(rest, other_rest);
        assert(balance_of(accounts, first) <= balance_of(other, first));
        if other.contains_key(first) {
            lemma_supply_remove(other, first);
        } else {
            assert(other_rest =~= other);
        }
    }
}

} // verus!
