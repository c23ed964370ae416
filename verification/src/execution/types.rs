//! The values a swap is described with.
use crate::asset::{AssetId, ChainId};
use crate::primitives::{Address, U256};
use vstd::prelude::*;

verus! {

/// The chain's native token, or a token by its asset id.
#[derive(Clone, Copy, Debug, PartialEq, Eq, Structural)]
pub enum Currency {
    Native,
    Token(AssetId),
}

impl Currency {
    /// The asset that pools trade for this currency: `wrapped` for the native
    /// token.
    pub open spec fn resolved(self, wrapped: AssetId) -> AssetId {
        match self {
            Currency::Native => wrapped,
            Currency::Token(a) => a,
        }
    }

    pub fn is_native(&self) -> (r: bool)
        ensures
            r == (*self is Native),
    {
        match self {
            Currency::Native => true,
            Currency::Token(_) => false,
        }
    }

    /// The asset that pools trade for this currency: `wrapped` for the native
    /// token.
    pub fn resolve(&self, wrapped: AssetId) -> (r: AssetId)
        ensures
            r == self.resolved(wrapped),
    {
        match self {
            Currency::Native => wrapped,
            Currency::Token(a) => *a,
        }
    }
}

/// An amount of a currency in its smallest unit.
#[derive(Clone, Copy, Debug, PartialEq, Eq, Structural)]
pub struct CurrencyAmount {
    pub currency: Currency,
    pub raw: U256,
}

/// Which side of a trade is fixed.
#[derive(Clone, Copy, Debug, PartialEq, Eq, Structural)]
pub enum TradeType {
    /// The input is fixed; the output has a floor.
    ExactIn,
    /// The output is fixed; the input has a ceiling.
    ExactOut,
}

/// What a signer needs to know of a transaction.
#[derive(Clone, Debug, PartialEq, Eq)]
pub struct UnsignedTx {
    pub chain: ChainId,
    pub to: Address,
    pub data: Vec<u8>,
    pub value: U256,
}

} // verus!
