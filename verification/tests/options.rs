//! Execution options and their resolution.

use amm_rpc::asset::{AssetId, Bps, ChainId, Price};
use amm_rpc::execution::options::{
    ApprovalMode, Deadline, Duration, ExecutionOptions, Recipient, resolve,
};
use amm_rpc::primitives::{Address, B256, U256};
use amm_rpc::slippage::Slippage;

/// A small number as a word.
fn u(n: impl Into<u128>) -> U256 {
    let n: u128 = n.into();
    U256 { l3: 0, l2: 0, l1: (n >> 64) as u64, l0: n as u64 }
}

type AbiWord = alloy::primitives::U256;

/// A decoded number as a word.
fn word_of(n: AbiWord) -> U256 {
    let l = n.as_limbs();
    U256 { l3: l[3], l2: l[2], l1: l[1], l0: l[0] }
}

/// The address with the given bytes.
fn address_from(bytes: [u8; 20]) -> Address {
    let n = AbiWord::from_be_slice(&bytes);
    Address::from_word(B256(word_of(n)))
}

/// The address whose bytes are all `byte`.
fn repeat_byte(byte: u8) -> Address {
    address_from([byte; 20])
}

/// The word that ends in the given bytes.
fn left_padded(bytes: &[u8]) -> B256 {
    B256(word_of(AbiWord::from_be_slice(bytes)))
}

fn slippage_50bps() -> Slippage {
    Slippage::from_bps(Bps(50))
}

#[test]
fn new_sets_expected_defaults() {
    let opts = ExecutionOptions::new(slippage_50bps());
    assert_eq!(opts.recipient, Recipient::Sender);
    assert_eq!(opts.slippage, slippage_50bps());
    assert_eq!(opts.deadline, Deadline::FromNow(Duration::from_secs(300)));
    assert!(opts.price_limit.is_none());
    assert_eq!(opts.approval, ApprovalMode::AssumeApproved);
}

#[test]
fn with_recipient_override_sticks() {
    let addr = repeat_byte(0xab);
    let opts = ExecutionOptions::new(slippage_50bps())
        .with_recipient(Recipient::To(addr));
    assert_eq!(opts.recipient, Recipient::To(addr));
}

#[test]
fn with_deadline_override_sticks() {
    let opts = ExecutionOptions::new(slippage_50bps())
        .with_deadline(Deadline::AtBlock(999));
    assert_eq!(opts.deadline, Deadline::AtBlock(999));
}

#[test]
fn with_approval_override_sticks() {
    let sig = vec![0xde, 0xad];
    let opts = ExecutionOptions::new(slippage_50bps())
        .with_approval(ApprovalMode::Permit2 { signature: sig.clone() });
    assert_eq!(opts.approval, ApprovalMode::Permit2 { signature: sig });
}

#[test]
fn with_price_limit_override_sticks() {
    let base = AssetId::new(ChainId(1), left_padded(&[0xaa]));
    let quote = AssetId::new(ChainId(1), left_padded(&[0xbb]));
    let price = Price { base: base, quote: quote, numerator: u(3u64), denominator: u(1u64) };

    let opts = ExecutionOptions::new(slippage_50bps())
        .with_price_limit(Some(price));
    assert_eq!(opts.price_limit, Some(price));
}

#[test]
fn resolve_turns_from_now_and_sender_into_absolutes() {
    let now = 1_000_000u64;
    let sender = repeat_byte(0x11);
    let opts = ExecutionOptions::new(slippage_50bps());
    let resolved = resolve(opts, now, sender);
    assert_eq!(resolved.deadline, Deadline::AtTimestamp(now + 300));
    assert_eq!(resolved.recipient, Recipient::To(sender));
}

#[test]
fn resolve_is_noop_on_already_absolute_deadline() {
    let now = 1_000_000u64;
    let sender = repeat_byte(0x22);
    let abs_ts = 9_999_999u64;
    let opts = ExecutionOptions::new(slippage_50bps())
        .with_deadline(Deadline::AtTimestamp(abs_ts))
        .with_recipient(Recipient::To(sender));
    let resolved = resolve(opts, now, sender);
    assert_eq!(resolved.deadline, Deadline::AtTimestamp(abs_ts));
    assert_eq!(resolved.recipient, Recipient::To(sender));
}

#[test]
fn resolve_is_noop_on_at_block_deadline() {
    let now = 1_000_000u64;
    let sender = repeat_byte(0x33);
    let opts = ExecutionOptions::new(slippage_50bps())
        .with_deadline(Deadline::AtBlock(200));
    let resolved = resolve(opts, now, sender);
    assert_eq!(resolved.deadline, Deadline::AtBlock(200));
}

#[test]
fn resolve_saturates_on_huge_ttl() {
    let now = u64::MAX;
    let sender = repeat_byte(0x44);
    let opts = ExecutionOptions::new(slippage_50bps())
        .with_deadline(Deadline::FromNow(Duration::from_secs(100)));
    let resolved = resolve(opts, now, sender);
    assert_eq!(resolved.deadline, Deadline::AtTimestamp(u64::MAX));
}
