//! Decoder and directory indexes for Active Directory browser snapshots.

pub mod text;
pub mod bytes;
pub mod guid;
pub mod sid;
pub mod error;
pub mod security_descriptor;
pub mod parser;
pub mod rights;
pub mod cache;
pub mod adexplorer;
pub mod common;
pub mod aces;
pub mod links;
pub mod sid_text;
