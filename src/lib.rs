//! Dispatch and threading core of a peer-to-peer DIDComm actor.
pub mod actor;
pub mod endpoint;
pub mod errors;
pub mod jwt;
pub mod registry;
pub mod table;
pub mod types;
