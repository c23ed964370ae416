//! The bytes of encoded calls.

use amm_rpc::execution::multicall::encode_multicall;
use amm_rpc::execution::route_planner::{RoutePlanner, SWEEP, v2_swap_input, v3_path};
use amm_rpc::primitives::{Address, U256};

/// A small number as a word.
fn u(n: impl Into<u128>) -> U256 {
    let n: u128 = n.into();
    U256 { l3: 0, l2: 0, l1: (n >> 64) as u64, l0: n as u64 }
}

/// The bytes of a run of words.
fn words(numbers: &[u64]) -> Vec<u8> {
    let mut out = Vec::new();
    for n in numbers {
        out.extend_from_slice(&u(*n).to_be_bytes());
    }
    out
}

/// A byte string in a word of its own.
fn padded(byte: u8) -> Vec<u8> {
    let mut out = vec![0u8; 32];
    out[0] = byte;
    out
}

#[test]
fn a_batch_is_laid_out_word_by_word() {
    let mut expected = vec![0xac, 0x96, 0x50, 0xd8];
    expected.extend(words(&[32, 2, 64, 128, 1]));
    expected.extend(padded(0x11));
    expected.extend(words(&[1]));
    expected.extend(padded(0x22));
    assert_eq!(encode_multicall(None, vec![vec![0x11], vec![0x22]]), expected);
    assert_eq!(
        encode_multicall(None, vec![]),
        [vec![0xac, 0x96, 0x50, 0xd8], words(&[32, 0])].concat()
    );
}

#[test]
fn a_batch_with_a_deadline_is_laid_out_word_by_word() {
    let mut expected = vec![0x5a, 0xe4, 0x01, 0xdc];
    expected.extend(words(&[7, 64, 1, 32, 1]));
    expected.extend(padded(0x11));
    assert_eq!(encode_multicall(Some(7), vec![vec![0x11]]), expected);
}

#[test]
fn a_command_stream_is_laid_out_word_by_word() {
    let mut planner = RoutePlanner::default();
    planner.add(SWEEP, vec![0xaa]);
    let mut expected = vec![0x35, 0x93, 0x56, 0x4c];
    expected.extend(words(&[96, 160, 9, 1]));
    expected.extend(padded(0x04));
    expected.extend(words(&[1, 32, 1]));
    expected.extend(padded(0xaa));
    assert_eq!(planner.encode(9), expected);
}

#[test]
fn an_address_path_is_laid_out_word_by_word() {
    let path = vec![Address::with_last_byte(5), Address::with_last_byte(6)];
    let encoded = v2_swap_input(true, Address::with_last_byte(1), u(2u64), u(3u64), path, true);
    assert_eq!(encoded, words(&[1, 2, 3, 160, 1, 2, 5, 6]));
}

#[test]
fn a_reversed_path_is_the_path_of_the_reversed_lists() {
    let t = [1, 2, 3].map(Address::with_last_byte);
    let back = [3, 2, 1].map(Address::with_last_byte);
    assert_eq!(v3_path(&t, &[500, 3000], true), v3_path(&back, &[3000, 500], false));
    assert_eq!(v3_path(&t[..1], &[], false), t[0].to_bytes());
}
