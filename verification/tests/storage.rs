use pallet_evm::primitives::{H160, H256};
use pallet_evm::storage::{Slot, StorageMap};

fn word(byte: u8) -> H256 {
    H256([byte; 32])
}

fn slot(address: u8, index: u8) -> Slot {
    Slot { address: H160([address; 20]), index: word(index) }
}

#[test]
fn a_map_gives_back_what_was_inserted_last() {
    let mut map: StorageMap<H160, H256> = StorageMap::new();
    assert!(map.get(&H160([1; 20])).is_none());
    map.insert(H160([1; 20]), word(1));
    map.insert(H160([2; 20]), word(2));
    map.insert(H160([1; 20]), word(3));
    assert_eq!(map.get(&H160([1; 20])), Some(&word(3)));
    assert_eq!(map.get(&H160([2; 20])), Some(&word(2)));
    assert_eq!(map.entries().len(), 2);
}

#[test]
fn a_map_hands_out_what_is_removed() {
    let mut map: StorageMap<H160, H256> = StorageMap::new();
    map.insert(H160([1; 20]), word(1));
    map.insert(H160([2; 20]), word(2));
    assert_eq!(map.remove(&H160([1; 20])), Some(word(1)));
    assert_eq!(map.remove(&H160([1; 20])), None);
    assert!(map.get(&H160([1; 20])).is_none());
    assert_eq!(map.into_entries(), vec![(H160([2; 20]), word(2))]);
}

#[test]
fn a_prefix_is_removed_with_all_its_slots() {
    let mut map: StorageMap<Slot, H256> = StorageMap::new();
    map.insert(slot(1, 1), word(11));
    map.insert(slot(2, 1), word(21));
    map.insert(slot(1, 2), word(12));
    map.remove_prefix(&H160([1; 20]));
    assert!(map.get(&slot(1, 1)).is_none());
    assert!(map.get(&slot(1, 2)).is_none());
    assert_eq!(map.get(&slot(2, 1)), Some(&word(21)));
    assert_eq!(map.entries().len(), 1);
}
