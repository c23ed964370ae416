//! From a chosen pool and amount to a transaction that a signer can submit.
pub mod chains;
pub mod config;
pub mod delivery;
pub mod error;
pub mod executable;
pub mod floor;
pub mod laws;
pub mod multicall;
pub mod options;
pub mod outcomes;
pub mod plan;
pub mod prepared;
pub mod protocols;
pub mod route_planner;
pub mod routing;
mod sealed;
pub mod steps;
pub mod terms;
pub mod trades;
pub mod types;

pub use config::{ChainConfig, Routers};
pub use error::{BuildError, MissingAddr};
pub use executable::{as_executable, Executable};
pub use options::{resolve, ApprovalMode, Deadline, ExecutionOptions, Recipient};
pub use plan::{plan, Plan};
pub use prepared::{ApprovalRequirement, PreparedSwap};
pub use types::{Currency, CurrencyAmount, TradeType, UnsignedTx};
