//! The logic of a geyser plugin and of the grpc service around it: how what the validator says
//! becomes messages, which of them are held back and when they go out, how accounts are written
//! on the wire, and how large sets of accounts are asked for.
//!
//! - [`message`], [`geyser_plugin_interface`], [`confirmed_block`], [`timestamp`], [`keys`]: what
//!   the validator says, and the messages that it becomes; [`message_laws`] states what they keep.
//! - [`account_buffer`], [`plugin`], [`forward`]: write versions are normalized, large accounts are
//!   held back until their slot is done, and every message goes where it should;
//!   [`buffer_laws`] states what that comes to.
//! - [`wire`], [`fields`], [`scalars`], [`account_codec`], [`news_codec`], [`block_meta_codec`],
//!   [`update_codec`], [`filtered`], [`geyser`]: updates on the wire; [`wire_laws`] states how they
//!   are written and read.
//! - [`account_index`], [`account_transaction_index`]: which transaction wrote an account.
//! - [`cuckoo`]: compressed sets of account keys.
//! - [`grpc`], [`monitor`], [`simulation`], [`latency`], [`preprocessed`], [`user_service`]: the
//!   decisions of the server and of its clients; [`service_laws`] states what they come to.
//! - [`clickhouse_sink`]: events that are recorded in a database.
//! - [`key_map`], [`map_keys`]: maps keyed by accounts, and the keys of maps.
//! - [`operation_laws`]: what calls promise, told by what goes in and what comes out.

pub mod account_buffer;
pub mod account_codec;
pub mod account_index;
pub mod account_transaction_index;
pub mod block_meta_codec;
pub mod buffer_laws;
pub mod clickhouse_sink;
pub mod confirmed_block;
pub mod cuckoo;
pub mod fields;
pub mod filtered;
pub mod forward;
pub mod geyser;
pub mod geyser_plugin_interface;
pub mod grpc;
pub mod key_map;
pub mod keys;
pub mod latency;
pub mod map_keys;
pub mod message;
pub mod message_laws;
pub mod monitor;
pub mod news_codec;
pub mod operation_laws;
pub mod plugin;
pub mod preprocessed;
pub mod scalars;
pub mod service_laws;
pub mod simulation;
pub mod timestamp;
pub mod update_codec;
pub mod user_service;
pub mod wire;
pub mod wire_laws;
