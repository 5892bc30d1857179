//! Threshold authorization for a jointly owned wallet.
//!
//! A fixed set of owners approves proposed transfers; a transfer may be
//! executed once a quorum of distinct owners has confirmed it, and it is
//! executed at most once.
//!
//! [`wallet::MultiSigWallet`] is the wallet. Its contracts are written over
//! the state machine of [`model`], of which [`laws`] proves what holds after
//! any sequence of operations.

pub mod address;
pub mod error;
pub mod laws;
pub mod ledger;
pub mod model;
pub mod registry;
pub mod store;
pub mod uint;
pub mod wallet;

pub use address::Address;
pub use error::WalletError;
pub use uint::Uint256;
pub use wallet::{Event, MultiSigWallet};
