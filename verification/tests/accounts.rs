use pallet_evm::account_id::{
    truncate, AccountId32, AsBytes, ConvertAccountId, HashTruncateConvertAccountId, ModuleAccount,
    ModuleId,
};
use pallet_evm::hashing::{BlakeTwo256, Hasher};
use pallet_evm::primitives::H160;

/// A hash function that gives back what it is given.
struct Identity;

impl Hasher for Identity {
    fn hash(data: &[u8]) -> Vec<u8> {
        data.to_vec()
    }
}

/// An account id of any length.
struct Name(Vec<u8>);

impl AsBytes for Name {
    fn as_bytes(&self) -> &[u8] {
        self.0.as_slice()
    }
}

#[test]
fn a_long_hash_is_cut_at_the_front() {
    let hash: Vec<u8> = (0..32u8).collect();
    assert_eq!(
        truncate(hash.as_slice()),
        H160([12, 13, 14, 15, 16, 17, 18, 19, 20, 21, 22, 23, 24, 25, 26, 27, 28, 29, 30, 31])
    );
}

#[test]
fn a_short_hash_is_filled_up_at_the_front() {
    assert_eq!(
        truncate(&[1, 2, 3]),
        H160([0, 0, 0, 0, 0, 0, 0, 0, 0, 0, 0, 0, 0, 0, 0, 0, 0, 1, 2, 3])
    );
    assert_eq!(truncate(&[]), H160([0; 20]));
}

#[test]
fn a_hash_of_twenty_bytes_is_kept() {
    assert_eq!(truncate(&[9; 20]), H160([9; 20]));
    let mut hash = vec![1u8];
    hash.extend_from_slice(&[9; 20]);
    assert_eq!(truncate(hash.as_slice()), H160([9; 20]));
}

#[test]
fn blake2_gives_its_test_vectors() {
    let empty = BlakeTwo256::hash(b"");
    let expected: [u8; 32] = [
        0x0e, 0x57, 0x51, 0xc0, 0x26, 0xe5, 0x43, 0xb2, 0xe8, 0xab, 0x2e, 0xb0, 0x60, 0x99, 0xda,
        0xa1, 0xd1, 0xe5, 0xdf, 0x47, 0x77, 0x8f, 0x77, 0x87, 0xfa, 0xab, 0x45, 0xcd, 0xf1, 0x2f,
        0xe3, 0xa8,
    ];
    assert_eq!(empty, expected.to_vec());
    let abc = BlakeTwo256::hash(b"abc");
    let expected: [u8; 32] = [
        0xbd, 0xdd, 0x81, 0x3c, 0x63, 0x42, 0x39, 0x72, 0x31, 0x71, 0xef, 0x3f, 0xee, 0x98, 0x57,
        0x9b, 0x94, 0x96, 0x4e, 0x3b, 0xb1, 0xcb, 0x3e, 0x42, 0x72, 0x62, 0xc8, 0xc0, 0x68, 0xd5,
        0x23, 0x19,
    ];
    assert_eq!(abc, expected.to_vec());
}

#[test]
fn an_account_is_hashed_and_truncated() {
    let address = HashTruncateConvertAccountId::<BlakeTwo256>::convert_account_id(
        &AccountId32([1; 32]),
    );
    let hash = BlakeTwo256::hash(&[1; 32]);
    assert_eq!(address.0.to_vec(), hash[12..].to_vec());
    assert_eq!(address, H160([
        0xfd, 0x3b, 0xef, 0x84, 0x9c, 0xad, 0xb1, 0x9c, 0x69, 0x96, 0xbc, 0x27, 0x2a, 0xf1, 0xf6,
        0x48, 0xd9, 0x56, 0x6a, 0x4c,
    ]));
}

#[test]
fn an_account_of_any_length_is_converted() {
    let name = Name(vec![4, 5]);
    let address = HashTruncateConvertAccountId::<Identity>::convert_account_id(&name);
    assert_eq!(address, H160([0, 0, 0, 0, 0, 0, 0, 0, 0, 0, 0, 0, 0, 0, 0, 0, 0, 0, 4, 5]));
    let _ = HashTruncateConvertAccountId::<Identity>::default();
}

#[test]
fn a_module_has_an_account_with_its_mark() {
    let account = AccountId32::from_module_id(&ModuleId(*b"py/evmpa"));
    let mut expected = b"modlpy/evmpa".to_vec();
    expected.extend_from_slice(&[0; 20]);
    assert_eq!(account.0.to_vec(), expected);
    assert_eq!(account.as_bytes().to_vec(), expected);
}
