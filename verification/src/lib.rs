//! Swap transactions for automated market makers, built without touching the
//! network.
use vstd::prelude::*;

pub mod abi;
pub mod asset;
pub mod discover;
pub mod error;
pub mod execution;
pub mod pools;
pub mod primitives;
pub mod reading;
pub mod slippage;
pub mod text;

verus! {

} // verus!
