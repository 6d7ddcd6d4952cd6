//! Remote-support client: device identity, password login, file-transfer
//! bookkeeping and rendezvous signalling, verified with Verus.

pub mod baking;
pub mod config;
pub mod direct;
pub mod encoding;
pub mod file_ops;
pub mod host;
pub mod identity_laws;
pub mod login;
pub mod message;
pub mod netinfo;
pub mod outside;
pub mod rendezvous;
pub mod session;
pub mod session_laws;
pub mod size;
pub mod status;
pub mod text;
pub mod transfer;
pub mod transfer_laws;
