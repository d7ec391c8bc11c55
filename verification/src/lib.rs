//! A local secret manager: name/value secrets, encrypted at rest under a
//! master key, behind a storage interface with a strict create, update and
//! delete contract.

pub mod app;
pub mod bytes;
pub mod cipher;
pub mod cmds;
pub mod codec;
pub mod error;
pub mod file_storage;
pub mod generator;
pub mod handle_keys;
pub mod key;
pub mod keys;
pub mod model;
pub mod order;
pub mod panel;
pub mod paths;
pub mod secret_set;
pub mod storage;
pub mod store;
pub mod text;

pub use crate::storage::Storage;
