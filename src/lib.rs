//! Two append-only registries keyed by caller account.
//!
//! The registration registry admits a single (Discord identifier, user name)
//! submission and lists what it admitted; the message registry holds one
//! short message per account, seeded with one for its deployer. Both keep an
//! [`store::AccountStore`] of records and a [`store::SubmissionLog`] of the
//! accounts in the order in which they obtained one. The calling account is
//! passed in explicitly by the host.
pub mod account;
pub mod messages;
pub mod registration;
pub mod store;

pub use account::AccountId;
pub use messages::{CrudContract, CrudError};
pub use registration::{RegistrationRecord, TransactionContract, TransactionError};
