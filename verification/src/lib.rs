//! A non-fungible-token ledger: ownership, balances, approvals and metadata
//! of uniquely identified tokens, with every transition verified.
//!
//! [`model`] states the ledger as a mathematical state machine, [`laws`]
//! proves what every history of it keeps, [`ledger`] is the executable
//! ledger, whose operations are proved to follow the model, and [`store`]
//! is the keyed storage that the ledger owns.

pub mod account;
pub mod laws;
pub mod ledger;
pub mod model;
pub mod store;

pub use crate::account::AccountId;
pub use crate::ledger::MyErc721;
pub use crate::model::Error;
pub use crate::store::{Store, StoreKey};
