//! Words and addresses.

use amm_rpc::primitives::{Address, B256, U256};

/// A small number as a word.
fn u(n: impl Into<u128>) -> U256 {
    let n: u128 = n.into();
    U256 { l3: 0, l2: 0, l1: (n >> 64) as u64, l0: n as u64 }
}

type AbiWord = alloy::primitives::U256;

/// A decoded number as a word.
fn word_of(n: AbiWord) -> U256 {
    let l = n.as_limbs();
    U256 { l3: l[3], l2: l[2], l1: l[1], l0: l[0] }
}

/// The word that ends in the given bytes.
fn left_padded(bytes: &[u8]) -> B256 {
    B256(word_of(AbiWord::from_be_slice(bytes)))
}

fn sample() -> U256 {
    U256 {
        l3: 0x0102030405060708,
        l2: 0x090a0b0c0d0e0f10,
        l1: 0x1112131415161718,
        l0: 0x191a1b1c1d1e1f20,
    }
}

#[test]
fn a_word_is_written_big_end_first() {
    let bytes = sample().to_be_bytes();
    for i in 0..32 {
        assert_eq!(bytes[i], i as u8 + 1);
    }
    assert_eq!(word_of(AbiWord::from_be_slice(&bytes)), sample());
    assert_eq!(U256::zero().to_be_bytes(), [0u8; 32]);
    assert_eq!(U256::max().to_be_bytes(), [0xffu8; 32]);
}

#[test]
fn a_word_narrows_where_it_fits() {
    assert_eq!(U256::from_u64(7), u(7u64));
    assert_eq!(u(u64::MAX).to_u64(), Some(u64::MAX));
    assert_eq!(u(1u128 << 64).to_u64(), None);
    assert_eq!(u(u128::MAX).to_u128(), Some(u128::MAX));
    assert_eq!(U256 { l3: 0, l2: 1, l1: 0, l0: 0 }.to_u128(), None);
    assert_eq!(U256 { l3: 1, l2: 0, l1: 0, l0: 0 }.to_u128(), None);
    assert!(U256 { l3: 0, l2: 0xffff_ffff, l1: u64::MAX, l0: u64::MAX }.fits_160());
    assert!(!U256 { l3: 0, l2: 0x1_0000_0000, l1: 0, l0: 0 }.fits_160());
    assert!(!U256 { l3: 1, l2: 0, l1: 0, l0: 0 }.fits_160());
}

#[test]
fn an_address_is_the_tail_of_its_word() {
    let a = Address::from_word(B256(sample()));
    let bytes = a.to_bytes();
    for i in 0..20 {
        assert_eq!(bytes[i], i as u8 + 13);
    }
    assert_eq!(Address::from_word(a.into_word()), a);
    assert_eq!(a.into_word().0.to_be_bytes()[..12], [0u8; 12]);
    assert_eq!(Address::with_last_byte(9).to_bytes()[19], 9);
    assert_eq!(Address::zero().to_bytes(), [0u8; 20]);
}

#[test]
fn words_compare_as_numbers() {
    assert!(left_padded(&[1]).less_than(left_padded(&[2])));
    assert!(left_padded(&[0xff]).less_than(left_padded(&[1, 0])));
    assert!(!left_padded(&[2]).less_than(left_padded(&[2])));
    assert!(!left_padded(&[1, 0, 0, 0, 0, 0, 0, 0, 0]).less_than(left_padded(&[9])));
}
