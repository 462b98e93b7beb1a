//! Decision core of the callback and durable-authority gateway.

pub mod address;
pub mod admission;
pub mod artifacts;
pub mod attempt;
pub mod audit;
pub mod callback_url;
pub mod callbacks;
pub mod cancellation;
pub mod catalog;
pub mod crypto;
pub mod fault;
pub mod json;
pub mod listing;
pub mod operators;
pub mod outbox;
pub mod policy;
pub mod private_file;
pub mod push_error;
pub mod quota;
pub mod readiness;
pub mod receiver;
pub mod reservation;
pub mod retry;
pub mod schema_names;
pub mod semantics;
pub mod signer;
pub mod startup;
pub mod store_config;
pub mod task;
pub mod text;
pub mod transaction;
pub mod transcript;
pub mod transport;
pub mod weburl;
