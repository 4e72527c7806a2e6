//! Account ids of the chain that the module is part of, and the addresses that stand for them.

use vstd::prelude::*;
use core::marker::PhantomData;
use sp_runtime::traits::AccountIdConversion;
use crate::hashing::Hasher;
use crate::primitives::H160;

verus! {

/// The identifier of a module.
#[derive(Clone, Copy, Debug, PartialEq, Eq)]
pub struct ModuleId(pub [u8; 8]);

/// The 32 bytes of the account of a module: the mark `modl`, the module's identifier, and zeros.
pub open spec fn module_account_bytes(id: Seq<u8>) -> Seq<u8> {
    seq![0x6du8, 0x6fu8, 0x64u8, 0x6cu8] + id + Seq::new(20, |i: int| 0u8)
}

/// An account id that modules have accounts among.
pub trait ModuleAccount: Sized {
    /// The account of a module.
    ///
    /// An implementation that Verus does not read may leave this as it is.
    open spec fn module_account(id: ModuleId) -> Self {
        arbitrary()
    }

    /// Compute the account of a module.
    fn from_module_id(id: &ModuleId) -> (r: Self)
        ensures
            r == Self::module_account(*id),
    ;
}

/// An account id whose bytes can be read.
pub trait AsBytes {
    /// The bytes of the account id.
    ///
    /// An implementation that Verus does not read may leave this as it is.
    open spec fn bytes(&self) -> Seq<u8> {
        arbitrary()
    }

    /// Read the bytes of the account id.
    fn as_bytes(&self) -> (r: &[u8])
        ensures
            r@ == self.bytes(),
    ;
}

/// A 32-byte account id.
#[derive(Clone, Copy, Debug, PartialEq, Eq)]
pub struct AccountId32(pub [u8; 32]);

/// `into_account` of `sp_runtime::ModuleId`, through `sp_runtime::traits::AccountIdConversion`:
/// the account id whose bytes are the mark of a module, the identifier, and zeros.
#[verifier::external_body]
fn into_account(id: &ModuleId) -> (r: AccountId32)
    ensures
        r.0@ == module_account_bytes(id.0@),
{
    let account: sp_runtime::AccountId32 = sp_runtime::ModuleId(id.0).into_account();
    AccountId32(account.into())
}

impl ModuleAccount for AccountId32 {
    open spec fn module_account(id: ModuleId) -> AccountId32 {
        let bytes = id.0@;
        AccountId32(
            [
                0x6d, 0x6f, 0x64, 0x6c, bytes[0], bytes[1], bytes[2], bytes[3], bytes[4], bytes[5],
                bytes[6], bytes[7], 0, 0, 0, 0, 0, 0, 0, 0, 0, 0, 0, 0, 0, 0, 0, 0, 0, 0, 0, 0,
            ],
        )
    }

    fn from_module_id(id: &ModuleId) -> (r: AccountId32)
        ensures
            r.0@ == module_account_bytes(id.0@),
    {
        let r = into_account(id);
        proof {
            let expected = Self::module_account(*id);
            assert(r.0@ == module_account_bytes(id.0@));
            assert(expected.0@ =~= r.0@);
            assert(expected.0 =~= r.0);
        }
        r
    }
}

impl AsBytes for AccountId32 {
    open spec fn bytes(&self) -> Seq<u8> {
        self.0@
    }

    fn as_bytes(&self) -> (r: &[u8]) {
        vstd::array::array_as_slice(&self.0)
    }
}

/// Trait for converting account ids of the chain into addresses of the EVM.
///
/// Accounts and contracts of the EVM are stored in its own storage, in an Ethereum-compatible
/// format. In order to communicate with the rest of the chain, a one-to-one mapping of accounts
/// to addresses is required.
pub trait ConvertAccountId<A> {
    /// The address that stands for an account.
    ///
    /// An implementation that Verus does not read may leave this as it is.
    open spec fn address(account_id: A) -> H160 {
        arbitrary()
    }

    /// Given an account, return the corresponding address.
    fn convert_account_id(account_id: &A) -> (r: H160)
        ensures
            r == Self::address(*account_id),
    ;
}

/// Hash and then truncate the account id, taking the last 160 bits as the address.
#[derive(Debug)]
pub struct HashTruncateConvertAccountId<H>(PhantomData<H>);

impl<H> HashTruncateConvertAccountId<H> {
    /// The one value of this type.
    pub closed spec fn marker() -> Self {
        HashTruncateConvertAccountId(PhantomData)
    }
}

impl<H: Hasher> Default for HashTruncateConvertAccountId<H> {
    fn default() -> (r: Self)
        ensures
            r == Self::marker(),
    {
        HashTruncateConvertAccountId(PhantomData)
    }
}

/// The last 20 bytes of a hash, with zeros before a hash that is shorter.
pub open spec fn truncated(hash: Seq<u8>) -> Seq<u8> {
    if hash.len() < 20 {
        Seq::new((20 - hash.len()) as nat, |i: int| 0u8) + hash
    } else {
        hash.skip(hash.len() - 20)
    }
}

/// The address whose bytes are the last 20 bytes of a hash, with zeros before a hash that is
/// shorter.
pub open spec fn truncated_address(hash: Seq<u8>) -> H160 {
    let bytes = truncated(hash);
    H160(
        [
            bytes[0], bytes[1], bytes[2], bytes[3], bytes[4], bytes[5], bytes[6], bytes[7],
            bytes[8], bytes[9], bytes[10], bytes[11], bytes[12], bytes[13], bytes[14], bytes[15],
            bytes[16], bytes[17], bytes[18], bytes[19],
        ],
    )
}

/// Take the last 20 bytes of a hash as an address, with zeros before a hash that is shorter.
pub fn truncate(hash: &[u8]) -> (r: H160)
    ensures
        r.0@ == truncated(hash@),
        r == truncated_address(hash@),
{
    let len = hash.len();
    let mut value: [u8; 20] = [0u8; 20];
    let mut i: usize = 0;
    if 20 > len {
        let start: usize = 20 - len;
        while i < len
            invariant
                i <= len,
                len == hash@.len(),
                len < 20,
                start == 20 - len,
                forall|j: int| 0 <= j < start ==> value@[j] == 0,
                forall|j: int| 0 <= j < i ==> value@[start + j] == #[trigger] hash@[j],
            decreases len - i,
        {
            value[start + i] = hash[i];
            i = i + 1;
        }
        assert(value@ =~= truncated(hash@));
    } else {
        let start: usize = len - 20;
        while i < 20
            invariant
                i <= 20,
                len == hash@.len(),
                len >= 20,
                start == len - 20,
                forall|j: int| 0 <= j < i ==> #[trigger] value@[j] == hash@[start + j],
            decreases 20 - i,
        {
            value[i] = hash[start + i];
            i = i + 1;
        }
        assert(value@ =~= truncated(hash@));
    }
    let r = H160(value);
    proof {
        let expected = truncated_address(hash@);
        assert(r.0@ == truncated(hash@));
        assert(expected.0@ =~= r.0@);
        assert(expected.0 =~= r.0);
    }
    r
}

impl<H: Hasher, A: AsBytes> ConvertAccountId<A> for HashTruncateConvertAccountId<H> {
    open spec fn address(account_id: A) -> H160 {
        truncated_address(H::digest(account_id.bytes()))
    }

    fn convert_account_id(account_id: &A) -> (r: H160) {
        let hash = H::hash(account_id.as_bytes());
        truncate(hash.as_slice())
    }
}

} // verus!
