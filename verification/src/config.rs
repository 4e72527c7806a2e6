//! The configuration of the EVM, and when the costs that it sets stay within their range.

use vstd::prelude::*;

verus! {

#[verifier::external_type_specification]
#[verifier::external_body]
pub struct ExConfig(evm::Config);

/// A configuration of the EVM: what things cost, and which instructions there are.
#[derive(Clone, Copy, Debug, PartialEq, Eq)]
pub struct RuntimeConfig {
    /// Gas for reading the size or the bytes of code at an address.
    pub gas_ext_code: usize,
    /// Gas for reading the hash of code at an address.
    pub gas_ext_code_hash: usize,
    /// Gas for storing a value where there is none.
    pub gas_sstore_set: usize,
    /// Gas for storing a value where there is one.
    pub gas_sstore_reset: usize,
    /// Gas that comes back for clearing a value.
    pub refund_sstore_clears: isize,
    /// Gas for reading a balance.
    pub gas_balance: usize,
    /// Gas for reading a stored value.
    pub gas_sload: usize,
    /// Gas for self-destruction.
    pub gas_suicide: usize,
    /// More gas for self-destruction in favour of a new account.
    pub gas_suicide_new_account: usize,
    /// Gas for a call.
    pub gas_call: usize,
    /// Gas for each byte of an exponent.
    pub gas_expbyte: usize,
    /// Gas for a create transaction.
    pub gas_transaction_create: usize,
    /// Gas for a call transaction.
    pub gas_transaction_call: usize,
    /// Gas for each zero byte of a transaction.
    pub gas_transaction_zero_data: usize,
    /// Gas for each other byte of a transaction.
    pub gas_transaction_non_zero_data: usize,
    /// Whether storing is metered by the value that was there at first.
    pub sstore_gas_metering: bool,
    /// Whether storing fails where less gas than the stipend is left.
    pub sstore_revert_under_stipend: bool,
    /// Whether a call that asks for more gas than is left fails.
    pub err_on_call_with_more_gas: bool,
    /// Whether a call keeps one part in sixty-four of the gas back.
    pub call_l64_after_gas: bool,
    /// Whether an empty account counts as one that exists.
    pub empty_considered_exists: bool,
    /// Whether a new contract starts with a nonce of one.
    pub create_increase_nonce: bool,
    /// How many words the stack may hold.
    pub stack_limit: usize,
    /// How many bytes the memory may hold.
    pub memory_limit: usize,
    /// How deep calls may be nested.
    pub call_stack_limit: usize,
    /// How long the code of a new contract may be.
    pub create_contract_limit: Option<usize>,
    /// Gas that a call that moves value is given.
    pub call_stipend: usize,
    /// Whether there are delegate calls.
    pub has_delegate_call: bool,
    /// Whether there are salted creations.
    pub has_create2: bool,
    /// Whether there is reversion.
    pub has_revert: bool,
    /// Whether returned data can be read.
    pub has_return_data: bool,
    /// Whether there are bitwise shifts.
    pub has_bitwise_shifting: bool,
    /// Whether the chain id can be read.
    pub has_chain_id: bool,
    /// Whether the own balance can be read directly.
    pub has_self_balance: bool,
    /// Whether the hash of code can be read.
    pub has_ext_code_hash: bool,
}

/// The configuration of the Istanbul hard fork.
pub open spec fn istanbul_config() -> RuntimeConfig {
    RuntimeConfig {
            gas_ext_code: 700,
            gas_ext_code_hash: 700,
            gas_sstore_set: 20000,
            gas_sstore_reset: 5000,
            refund_sstore_clears: 15000,
            gas_balance: 700,
            gas_sload: 800,
            gas_suicide: 5000,
            gas_suicide_new_account: 25000,
            gas_call: 700,
            gas_expbyte: 50,
            gas_transaction_create: 53000,
            gas_transaction_call: 21000,
            gas_transaction_zero_data: 4,
            gas_transaction_non_zero_data: 16,
            sstore_gas_metering: true,
            sstore_revert_under_stipend: true,
            err_on_call_with_more_gas: false,
            call_l64_after_gas: true,
            empty_considered_exists: false,
            create_increase_nonce: true,
            stack_limit: 1024,
            memory_limit: usize::MAX,
            call_stack_limit: 1024,
            create_contract_limit: Some(0x6000),
            call_stipend: 2300,
            has_delegate_call: true,
            has_create2: true,
            has_revert: true,
            has_return_data: true,
            has_bitwise_shifting: true,
            has_chain_id: true,
            has_self_balance: true,
            has_ext_code_hash: true,
    }
}

/// What a configuration of the `evm` crate sets.
pub uninterp spec fn config_of(config: evm::Config) -> RuntimeConfig;

/// `evm::Config::istanbul`: the configuration of the Istanbul hard fork.
#[verifier::external_body]
pub(crate) fn istanbul() -> (r: evm::Config)
    ensures
        config_of(r) == istanbul_config(),
{
    evm::Config::istanbul()
}

/// `evm::Config::clone`, and a look at each field of the copy.
#[verifier::external_body]
fn read_config(config: &evm::Config) -> (r: RuntimeConfig)
    ensures
        r == config_of(*config),
{
    let evm::Config {
        gas_ext_code, gas_ext_code_hash, gas_sstore_set, gas_sstore_reset, refund_sstore_clears, gas_balance, gas_sload, gas_suicide, gas_suicide_new_account,
        gas_call, gas_expbyte, gas_transaction_create, gas_transaction_call, gas_transaction_zero_data, gas_transaction_non_zero_data, sstore_gas_metering,
        sstore_revert_under_stipend, err_on_call_with_more_gas, call_l64_after_gas, empty_considered_exists, create_increase_nonce, stack_limit, memory_limit,
        call_stack_limit, create_contract_limit, call_stipend, has_delegate_call, has_create2, has_revert, has_return_data, has_bitwise_shifting,
        has_chain_id, has_self_balance, has_ext_code_hash
    } = config.clone();
    RuntimeConfig {
        gas_ext_code, gas_ext_code_hash, gas_sstore_set, gas_sstore_reset, refund_sstore_clears, gas_balance, gas_sload, gas_suicide, gas_suicide_new_account,
        gas_call, gas_expbyte, gas_transaction_create, gas_transaction_call, gas_transaction_zero_data, gas_transaction_non_zero_data, sstore_gas_metering,
        sstore_revert_under_stipend, err_on_call_with_more_gas, call_l64_after_gas, empty_considered_exists, create_increase_nonce, stack_limit, memory_limit,
        call_stack_limit, create_contract_limit, call_stipend, has_delegate_call, has_create2, has_revert, has_return_data, has_bitwise_shifting,
        has_chain_id, has_self_balance, has_ext_code_hash
    }
}

/// The larger of two numbers.
pub open spec fn larger(left: nat, right: nat) -> nat {
    if left >= right {
        left
    } else {
        right
    }
}

/// The smaller of two numbers.
pub open spec fn smaller(left: nat, right: nat) -> nat {
    if left <= right {
        left
    } else {
        right
    }
}

/// The size of a number, whatever its sign.
pub open spec fn magnitude(number: int) -> nat {
    if number >= 0 {
        number as nat
    } else {
        (-number) as nat
    }
}

impl RuntimeConfig {
    /// Read a configuration of the `evm` crate.
    pub fn of(config: &evm::Config) -> (r: RuntimeConfig)
        ensures
            r == config_of(*config),
    {
        read_config(config)
    }

    /// Whether no call is given more gas than it has paid for moving value, and no refund for
    /// restoring a value is negative.
    pub open spec fn makes_no_gas(self) -> bool {
        &&& self.call_stipend <= self.gas_call + 9000
        &&& self.sstore_gas_metering ==> self.gas_sload <= self.gas_sstore_set && self.gas_sload
            <= self.gas_sstore_reset
    }

    /// Whether no instruction costs more than `most`, apart from the memory that it uses and the
    /// bytes that it copies.
    pub open spec fn costs_at_most(self, most: int) -> bool {
        &&& self.gas_call + 34_000 <= most
        &&& self.gas_suicide + self.gas_suicide_new_account <= most
        &&& self.gas_expbyte * 32 + 10 <= most
        &&& self.gas_ext_code <= most
        &&& self.gas_ext_code_hash <= most
        &&& self.gas_sstore_set <= most
        &&& self.gas_sstore_reset <= most
        &&& self.gas_balance <= most
        &&& self.gas_sload <= most
    }

    /// A bound of what one storing instruction can add to the refund or take from it.
    pub open spec fn store_refund(self) -> nat {
        let restored = larger(self.gas_sstore_set as nat, self.gas_sstore_reset as nat);
        magnitude(self.refund_sstore_clears as int) + if self.sstore_gas_metering {
            restored
        } else {
            0
        }
    }

    /// The least that a storing instruction costs, with the two words that it takes.
    pub open spec fn store_price(self) -> nat {
        let stored = smaller(self.gas_sstore_set as nat, self.gas_sstore_reset as nat);
        4 + if self.sstore_gas_metering {
            smaller(self.gas_sload as nat, stored)
        } else {
            stored
        }
    }

    /// A bound of the refunds that a gas limit pays for: those for storing, and those of 24,000 for
    /// self-destruction, which costs at least two and what is set here.
    pub open spec fn most_refunds(self, gas_limit: nat) -> nat {
        self.store_refund() * (gas_limit / self.store_price()) + 24_000 * (gas_limit / (2
            + self.gas_suicide as nat))
    }

    /// What a call transaction with the given input costs before anything runs.
    pub open spec fn call_cost(self, input: Seq<u8>) -> nat {
        let zeros = input.filter(|byte: u8| byte == 0).len();
        (self.gas_transaction_call + zeros * self.gas_transaction_zero_data + (input.len() - zeros)
            * self.gas_transaction_non_zero_data) as nat
    }

    /// A bound of what the bytes of a transaction cost.
    pub open spec fn data_cost(self, data_len: nat) -> nat {
        larger(
            self.gas_transaction_zero_data as nat,
            self.gas_transaction_non_zero_data as nat,
        ) * data_len
    }

    /// Whether the costs of a transaction are certain to stay within the range of a machine word,
    /// for a gas limit and the length of the input or init code. An eighth of the range is left
    /// for what memory and copying can cost.
    pub open spec fn costs_fit(self, gas_limit: nat, data_len: nat) -> bool {
        &&& self.makes_no_gas()
        &&& self.costs_at_most(usize::MAX - usize::MAX / 8 - gas_limit)
        &&& self.most_refunds(gas_limit) <= isize::MAX
        &&& self.gas_transaction_call + self.data_cost(data_len) <= usize::MAX
        &&& self.gas_transaction_create + self.data_cost(data_len) <= usize::MAX
    }

    /// Test whether the costs of a transaction are certain to stay within the range of a machine
    /// word.
    pub fn costs_in_range(&self, gas_limit: u32, data_len: usize) -> (r: bool)
        ensures
            r == self.costs_fit(gas_limit as nat, data_len as nat),
    {
        if self.call_stipend as u128 > self.gas_call as u128 + 9000 {
            return false;
        }
        if self.sstore_gas_metering && (self.gas_sload > self.gas_sstore_set || self.gas_sload
            > self.gas_sstore_reset) {
            return false;
        }
        let room: u128 = (usize::MAX - usize::MAX / 8) as u128;
        let gas: u128 = gas_limit as u128;
        let cheap = self.gas_call as u128 + 34_000 + gas <= room && self.gas_suicide as u128
            + self.gas_suicide_new_account as u128 + gas <= room && self.gas_expbyte as u128 * 32
            + 10 + gas <= room && self.gas_ext_code as u128 + gas <= room
            && self.gas_ext_code_hash as u128 + gas <= room && self.gas_sstore_set as u128 + gas
            <= room && self.gas_sstore_reset as u128 + gas <= room && self.gas_balance as u128
            + gas <= room && self.gas_sload as u128 + gas <= room;
        if !cheap {
            return false;
        }
        let clears: i128 = self.refund_sstore_clears as i128;
        let cleared: u128 = if clears >= 0 {
            clears as u128
        } else {
            (-clears) as u128
        };
        let set: u128 = self.gas_sstore_set as u128;
        let reset: u128 = self.gas_sstore_reset as u128;
        let read: u128 = self.gas_sload as u128;
        let (lower, higher): (u128, u128) = if set <= reset {
            (set, reset)
        } else {
            (reset, set)
        };
        let store_refund: u128 = if self.sstore_gas_metering {
            cleared + higher
        } else {
            cleared
        };
        let store_price: u128 = if self.sstore_gas_metering && read <= lower {
            4 + read
        } else {
            4 + lower
        };
        let stores: u128 = gas / store_price;
        let suicides: u128 = gas / (2 + self.gas_suicide as u128);
        let refunded = match store_refund.checked_mul(stores) {
            Some(refunds) => refunds <= isize::MAX as u128 && refunds + 24_000 * suicides
                <= isize::MAX as u128,
            None => false,
        };
        if !refunded {
            return false;
        }
        let dearer: usize = if self.gas_transaction_zero_data
            >= self.gas_transaction_non_zero_data {
            self.gas_transaction_zero_data
        } else {
            self.gas_transaction_non_zero_data
        };
        match dearer.checked_mul(data_len) {
            Some(cost) => self.gas_transaction_call.checked_add(cost).is_some()
                && self.gas_transaction_create.checked_add(cost).is_some(),
            None => false,
        }
    }
}

} // verus!
