//! The seal of [`crate::execution::executable::Executable`].
use vstd::prelude::*;

verus! {

/// A pool type of this crate.
pub trait Sealed {

}

} // verus!
