//! Package lifecycle engine of a small package manager: version gating,
//! manifest bookkeeping, registry lookup and the ordered steps of removal
//! and upgrade transactions.

pub mod checksum;
pub mod error;
pub mod laws;
pub mod listing;
pub mod manifest;
pub mod package;
pub mod plan;
pub mod registry;
pub mod text;
pub mod upgrade;
pub mod version;
