//! The error of fetching on-chain state.
use vstd::prelude::*;

verus! {

/// Why on-chain pool state could not be fetched or decoded. It carries text
/// rather than a transport's own error type.
#[derive(Clone, Debug)]
#[non_exhaustive]
pub enum RpcError {
    /// The transport failed (bad URL, timeout, disconnect, rate limit).
    Transport(String),
    /// Return data could not be decoded into the expected shape.
    Decode(String),
    /// A requested pool or contract was not found.
    NotFound(String),
    /// Any other failure.
    Internal(String),
}

impl RpcError {
    /// What the error says, before its detail.
    pub open spec fn label(self) -> Seq<char> {
        match self {
            RpcError::Transport(_) => "rpc transport error: "@,
            RpcError::Decode(_) => "decode error: "@,
            RpcError::NotFound(_) => "not found: "@,
            RpcError::Internal(_) => "internal error: "@,
        }
    }

    /// The detail that the error carries.
    pub open spec fn detail(self) -> Seq<char> {
        match self {
            RpcError::Transport(s) => s@,
            RpcError::Decode(s) => s@,
            RpcError::NotFound(s) => s@,
            RpcError::Internal(s) => s@,
        }
    }

    /// The text shown for the error.
    pub fn message(&self) -> (r: String)
        ensures
            r@ == self.label() + self.detail(),
    {
        let (label, detail) = match self {
            RpcError::Transport(s) => ("rpc transport error: ", s),
            RpcError::Decode(s) => ("decode error: ", s),
            RpcError::NotFound(s) => ("not found: ", s),
            RpcError::Internal(s) => ("internal error: ", s),
        };
        let mut out = label.to_owned();
        out.append(detail.as_str());
        out
    }
}

} // verus!
