//! Batches of calls.

use alloy::primitives::Bytes;
use alloy::sol_types::SolValue;
use amm_rpc::execution::multicall::{MULTICALL, MULTICALL_WITH_DEADLINE, encode_multicall};
use amm_rpc::primitives::U256;

/// A small number as a word.
fn u(n: impl Into<u128>) -> U256 {
    let n: u128 = n.into();
    U256 { l3: 0, l2: 0, l1: (n >> 64) as u64, l0: n as u64 }
}

type AbiWord = alloy::primitives::U256;

/// A decoded number as a word.
fn word_of(n: AbiWord) -> U256 {
    let l = n.as_limbs();
    U256 { l3: l[3], l2: l[2], l1: l[1], l0: l[0] }
}

/// The arguments of a call of `selector`.
fn arguments(selector: u32, data: &[u8]) -> Option<&[u8]> {
    if data.len() >= 4 && data[..4] == selector.to_be_bytes() {
        Some(&data[4..])
    } else {
        None
    }
}

struct MulticallCall {
    data: Vec<Bytes>,
}

fn decode_multicall(data: &[u8]) -> Option<MulticallCall> {
    let args = arguments(MULTICALL, data)?;
    let (data,) = <(Vec<Bytes>,)>::abi_decode_params(args).ok()?;
    Some(MulticallCall { data })
}

struct DeadlineMulticallCall {
    deadline: U256,
    data: Vec<Bytes>,
}

fn decode_deadline_multicall(data: &[u8]) -> Option<DeadlineMulticallCall> {
    let args = arguments(MULTICALL_WITH_DEADLINE, data)?;
    let (deadline, data) = <(AbiWord, Vec<Bytes>)>::abi_decode_params(args).ok()?;
    Some(DeadlineMulticallCall { deadline: word_of(deadline), data })
}

#[test]
fn single_call_no_deadline_passes_through_raw() {
    let inner = Bytes::from(vec![0x04, 0xe4, 0x5a, 0xaf, 0xAA]);
    assert_eq!(encode_multicall(None, vec![inner.to_vec()]), inner.to_vec());
}

#[test]
fn multi_call_no_deadline_wraps_in_multicall_bytes() {
    let a = Bytes::from(vec![0x11]);
    let b = Bytes::from(vec![0x22]);
    let out = encode_multicall(None, vec![a.to_vec(), b.to_vec()]);
    assert_eq!(&out[..4], &[0xac, 0x96, 0x50, 0xd8]);
    let decoded = decode_multicall(&out).unwrap();
    assert_eq!(decoded.data, vec![a, b]);
}

#[test]
fn with_deadline_uses_deadline_overload() {
    let a = Bytes::from(vec![0x11]);
    let b = Bytes::from(vec![0x22]);
    let out = encode_multicall(Some(1_700_000_000), vec![a.to_vec(), b.to_vec()]);
    assert_eq!(&out[..4], &[0x5a, 0xe4, 0x01, 0xdc]);
    let decoded = decode_deadline_multicall(&out).unwrap();
    assert_eq!(decoded.deadline, u(1_700_000_000u64));
    assert_eq!(decoded.data, vec![a, b]);
}

#[test]
fn single_call_with_deadline_wraps_in_deadline_overload() {
    let a = Bytes::from(vec![0x11]);
    let out = encode_multicall(Some(1_700_000_000), vec![a.to_vec()]);
    assert_eq!(&out[..4], &[0x5a, 0xe4, 0x01, 0xdc]);
}
