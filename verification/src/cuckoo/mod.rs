//! Compressed account filtering via cuckoo filters.
//!
//! For clients that track large sets of account keys: instead of uploading the list of keys
//! again and again, the client uploads a compact cuckoo filter, and the server matches accounts
//! against it.
//!
//! - [`set::CompressedAccountFilterSet`]: the safe, tracked builder for clients.
//! - [`filter::CuckooFilter`]: the raw filter, for matching on the server. Its `remove` must only
//!   be asked for items that were inserted.
//!
//! [`laws`] states what each part promises.
//!
//! The filter has no false negatives; it may match a key that was never inserted, so clients
//! check again locally.

pub mod constants;
pub mod error;
pub mod filter;
pub mod hasher;
pub mod laws;
pub mod model;
pub mod set;
