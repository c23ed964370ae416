//! One encoder per protocol, and what they share.
pub mod aerodrome;
pub mod common;
pub mod curve;
pub mod slipstream;
pub mod swaprouter02;
pub mod uniswap_v2;
pub mod uniswap_v3;
pub mod uniswap_v4;
