//! How a swap is to be executed: recipient, tolerance, deadline, price bound,
//! approval mode.
//!
//! The builder knows neither a clock nor a sender. [`resolve`] pins what is
//! relative to either, once both are known.
use crate::asset::Price;
use crate::primitives::Address;
use crate::slippage::Slippage;
use vstd::prelude::*;

verus! {

/// How long a swap stays valid unless told otherwise, in seconds.
pub const DEFAULT_TTL_SECS: u64 = 300;

/// A length of time in whole seconds.
#[derive(Clone, Copy, Debug, PartialEq, Eq, PartialOrd, Ord, Hash, Structural)]
pub struct Duration {
    pub secs: u64,
}

impl Duration {
    pub fn from_secs(secs: u64) -> (r: Duration)
        ensures
            r.secs == secs,
    {
        Duration { secs }
    }

    pub fn as_secs(&self) -> (r: u64)
        ensures
            r == self.secs,
    {
        self.secs
    }
}

/// Who receives the output.
#[derive(Clone, Copy, Debug, PartialEq, Eq, Structural)]
#[non_exhaustive]
pub enum Recipient {
    /// The transaction sender, until [`resolve`] puts an address in its place.
    Sender,
    /// This address.
    To(Address),
}

/// When the transaction expires. There is no variant without a bound.
#[derive(Clone, Copy, Debug, PartialEq, Eq, Structural)]
#[non_exhaustive]
pub enum Deadline {
    /// This long after submission, until [`resolve`] puts a timestamp in its
    /// place.
    FromNow(Duration),
    /// At this Unix timestamp, in seconds.
    AtTimestamp(u64),
    /// At this block number.
    AtBlock(u64),
}

/// How the router may pull the input token.
#[derive(Clone, Debug, PartialEq, Eq)]
#[non_exhaustive]
pub enum ApprovalMode {
    /// A sufficient allowance is in place.
    AssumeApproved,
    /// An ERC-20 `approve` is sent first.
    Erc20,
    /// A Permit2 signature for this token, amount and nonce.
    Permit2 { signature: Vec<u8> },
}

/// The parameters of a swap's execution. The tolerance has no default.
#[derive(Clone, Debug, PartialEq, Eq)]
#[non_exhaustive]
pub struct ExecutionOptions {
    /// Who receives the output.
    pub recipient: Recipient,
    /// How far the executed amount may stray from the quote.
    pub slippage: Slippage,
    /// When the transaction expires.
    pub deadline: Deadline,
    /// A bound on the pool price, where the protocol has one.
    pub price_limit: Option<Price>,
    /// How the router may pull the input token.
    pub approval: ApprovalMode,
    /// The transaction sender, where the caller has named it.
    pub sender: Option<Address>,
}

impl ExecutionOptions {
    /// The given tolerance; to the sender, within five minutes, at any price,
    /// under an existing allowance.
    pub fn new(slippage: Slippage) -> (r: ExecutionOptions)
        ensures
            r.recipient == Recipient::Sender,
            r.slippage == slippage,
            r.deadline == Deadline::FromNow(Duration { secs: DEFAULT_TTL_SECS }),
            r.price_limit is None,
            r.approval is AssumeApproved,
            r.sender is None,
    {
        ExecutionOptions {
            recipient: Recipient::Sender,
            slippage,
            deadline: Deadline::FromNow(Duration::from_secs(DEFAULT_TTL_SECS)),
            price_limit: None,
            approval: ApprovalMode::AssumeApproved,
            sender: None,
        }
    }

    /// The same options with this recipient.
    pub fn with_recipient(self, recipient: Recipient) -> (r: ExecutionOptions)
        ensures
            r == (ExecutionOptions { recipient, ..self }),
    {
        ExecutionOptions { recipient, ..self }
    }

    /// The same options with this deadline.
    pub fn with_deadline(self, deadline: Deadline) -> (r: ExecutionOptions)
        ensures
            r == (ExecutionOptions { deadline, ..self }),
    {
        ExecutionOptions { deadline, ..self }
    }

    /// The same options with this price limit.
    pub fn with_price_limit(self, price_limit: Option<Price>) -> (r: ExecutionOptions)
        ensures
            r == (ExecutionOptions { price_limit, ..self }),
    {
        ExecutionOptions { price_limit, ..self }
    }

    /// The same options with this approval mode.
    pub fn with_approval(self, approval: ApprovalMode) -> (r: ExecutionOptions)
        ensures
            r == (ExecutionOptions { approval, ..self }),
    {
        ExecutionOptions { approval, ..self }
    }
}

/// An [`ApprovalMode`] with its signature as a sequence.
#[verifier::ext_equal]
pub enum ApprovalView {
    AssumeApproved,
    Erc20,
    Permit2 { signature: Seq<u8> },
}

impl View for ApprovalMode {
    type V = ApprovalView;

    open spec fn view(&self) -> ApprovalView {
        match *self {
            ApprovalMode::AssumeApproved => ApprovalView::AssumeApproved,
            ApprovalMode::Erc20 => ApprovalView::Erc20,
            ApprovalMode::Permit2 { signature } => ApprovalView::Permit2 {
                signature: signature@,
            },
        }
    }
}

/// [`ExecutionOptions`] with the approval mode by its view.
#[verifier::ext_equal]
pub struct OptionsView {
    pub recipient: Recipient,
    pub slippage: Slippage,
    pub deadline: Deadline,
    pub price_limit: Option<Price>,
    pub approval: ApprovalView,
    pub sender: Option<Address>,
}

impl View for ExecutionOptions {
    type V = OptionsView;

    open spec fn view(&self) -> OptionsView {
        OptionsView {
            recipient: self.recipient,
            slippage: self.slippage,
            deadline: self.deadline,
            price_limit: self.price_limit,
            approval: self.approval@,
            sender: self.sender,
        }
    }
}

/// The sum, or the largest timestamp where the sum is past it.
pub open spec fn saturating_timestamp(now: u64, secs: u64) -> u64 {
    if now + secs <= u64::MAX {
        (now + secs) as u64
    } else {
        u64::MAX
    }
}

/// What [`resolve`] makes of a deadline.
pub open spec fn absolute_deadline(d: Deadline, now: u64) -> Deadline {
    match d {
        Deadline::FromNow(ttl) => Deadline::AtTimestamp(saturating_timestamp(now, ttl.secs)),
        other => other,
    }
}

/// What [`resolve`] makes of a recipient.
pub open spec fn absolute_recipient(r: Recipient, sender: Address) -> Recipient {
    match r {
        Recipient::Sender => Recipient::To(sender),
        other => other,
    }
}

/// What [`resolve`] makes of the options.
pub open spec fn absolute(
    opts: ExecutionOptions,
    now: u64,
    sender: Address,
) -> ExecutionOptions {
    ExecutionOptions {
        deadline: absolute_deadline(opts.deadline, now),
        recipient: absolute_recipient(opts.recipient, sender),
        ..opts
    }
}

/// Puts a timestamp in place of a relative deadline and `sender` in place of
/// the sender placeholder. Everything else stays.
pub fn resolve(mut opts: ExecutionOptions, now: u64, sender: Address) -> (r: ExecutionOptions)
    ensures
        r == absolute(opts, now, sender),
{
    opts.deadline = match opts.deadline {
        Deadline::FromNow(ttl) => Deadline::AtTimestamp(now.saturating_add(ttl.as_secs())),
        other => other,
    };
    opts.recipient = match opts.recipient {
        Recipient::Sender => Recipient::To(sender),
        other => other,
    };
    opts
}

/// Resolving sets the recipient, where that was the sender, to the sender's
/// address, and a relative deadline to that many seconds from now, or to the end
/// of time. All else stays.
pub proof fn resolve_changes_only_what_is_relative(
    opts: ExecutionOptions,
    now: u64,
    sender: Address,
)
    ensures
        ({
            let r = absolute(opts, now, sender);
            &&& r.slippage == opts.slippage
            &&& r.price_limit == opts.price_limit
            &&& r.approval == opts.approval
            &&& r.sender == opts.sender
            &&& match opts.recipient {
                Recipient::Sender => r.recipient == Recipient::To(sender),
                Recipient::To(_) => r.recipient == opts.recipient,
            }
            &&& match opts.deadline {
                Deadline::FromNow(ttl) => r.deadline matches Deadline::AtTimestamp(t) && (if now
                    + ttl.secs <= 0xffff_ffff_ffff_ffff {
                    t == now + ttl.secs
                } else {
                    t == 0xffff_ffff_ffff_ffff
                }),
                _ => r.deadline == opts.deadline,
            }
        }),
{
}

/// Resolving options a second time, at whatever time and for whatever sender,
/// changes nothing.
pub proof fn resolve_is_idempotent(
    opts: ExecutionOptions,
    now: u64,
    sender: Address,
    later: u64,
    other: Address,
)
    ensures
        absolute(absolute(opts, now, sender), later, other) == absolute(opts, now, sender),
{
}

/// After resolving, the recipient is an address, and the deadline is not
/// relative. An absolute deadline is kept as it was.
pub proof fn resolve_leaves_nothing_relative(opts: ExecutionOptions, now: u64, sender: Address)
    ensures
        absolute(opts, now, sender).recipient is To,
        !(absolute(opts, now, sender).deadline is FromNow),
        absolute(opts, now, sender).deadline is AtBlock <==> opts.deadline is AtBlock,
        !(opts.deadline is FromNow) ==> absolute(opts, now, sender).deadline == opts.deadline,
{
}

} // verus!
