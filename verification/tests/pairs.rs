//! Pairs, lookups and addresses.

use amm_rpc::asset::{AssetId, ChainId};
use amm_rpc::discover::{CallResult, asset_address, decode_pool_address, sorted_pairs};
use amm_rpc::execution::protocols::common::evm_addr;
use amm_rpc::primitives::{Address, B256, U256};

type AbiWord = alloy::primitives::U256;

/// A decoded number as a word.
fn word_of(n: AbiWord) -> U256 {
    let l = n.as_limbs();
    U256 { l3: l[3], l2: l[2], l1: l[1], l0: l[0] }
}

/// The address with the given bytes.
fn address_from(bytes: [u8; 20]) -> Address {
    let n = AbiWord::from_be_slice(&bytes);
    Address::from_word(B256(word_of(n)))
}

/// The address whose bytes are all `byte`.
fn repeat_byte(byte: u8) -> Address {
    address_from([byte; 20])
}

/// The word that ends in the given bytes.
fn left_padded(bytes: &[u8]) -> B256 {
    B256(word_of(AbiWord::from_be_slice(bytes)))
}

fn asset(byte: u8) -> AssetId {
    AssetId::new(ChainId(1), left_padded(&[byte]))
}

fn answer(return_data: Vec<u8>) -> CallResult {
    CallResult { success: true, return_data }
}

#[test]
fn pairs_come_in_order_of_their_places() {
    let (a, b, c) = (asset(3), asset(1), asset(2));
    assert_eq!(sorted_pairs(&[a, b, c]), vec![(b, a), (c, a), (b, c)]);
    assert_eq!(sorted_pairs(&[a]), vec![]);
    assert_eq!(sorted_pairs(&[]), vec![]);
    assert_eq!(sorted_pairs(&[a, b, c, asset(4), asset(5)]).len(), 10);
    assert_eq!(sorted_pairs(&[a, a]), vec![(a, a)]);
}

#[test]
fn an_answer_is_read_from_its_first_word() {
    let mut data = repeat_byte(0x11).into_word().0.to_be_bytes().to_vec();
    data.push(9);
    assert_eq!(decode_pool_address(&answer(data.clone())), Some(repeat_byte(0x11)));
    data.truncate(31);
    assert_eq!(decode_pool_address(&answer(data)), None);
    let mut dirty = vec![0xffu8; 12];
    dirty.extend_from_slice(&[0x22u8; 20]);
    assert_eq!(decode_pool_address(&answer(dirty)), Some(repeat_byte(0x22)));
    let reverted = CallResult {
        success: false,
        return_data: repeat_byte(0x11).into_word().0.to_be_bytes().to_vec(),
    };
    assert_eq!(decode_pool_address(&reverted), None);
}

#[test]
fn an_asset_is_its_address() {
    assert_eq!(asset_address(&asset(7)), Address::with_last_byte(7));
    let token = AssetId::new(ChainId(1), repeat_byte(0x33).into_word());
    assert_eq!(asset_address(&token), repeat_byte(0x33));
    assert_eq!(evm_addr(&token), repeat_byte(0x33));
}
