//! A minimal smart-contract state store: a handful of text and counter fields
//! with getter/setter entry points, a deterministic binary layout for the one
//! persisted record, and a one-shot schema migration that reads the previous
//! layout and rewrites the record under the current one.

pub mod codec;
pub mod laws;
pub mod legacy;
pub mod state;

pub use codec::DecodeError;
pub use legacy::OldContract;
pub use state::Contract;
