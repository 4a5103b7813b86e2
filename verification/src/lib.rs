//! A streaming transaction engine: per-client accounts with deposits,
//! withdrawals, disputes, resolutions and chargebacks.
pub mod amount;
pub mod client;
pub mod engine;
pub mod error;
pub mod io;
pub mod ledger;
pub mod run;
pub mod transaction;

pub use amount::Amount;
pub use engine::Engine;
pub use error::{EngineError, ParseError};
pub use io::ClientSnapshot;
pub use transaction::{Transaction, TransactionKind};
