//! Verified core of the Tellur Team Hub storage layer: org roles and their
//! SCIM group mapping, tamper-evident hash chains (the audit log and each
//! repo's event log), and the small decision functions that the database
//! backends run between queries.

pub mod role;
pub mod digest;
pub mod sql;
pub mod chain;
pub mod audit;
pub mod text;
pub mod csv;
pub mod scim;
pub mod records;
pub mod policy;
pub mod jobs;
pub mod device;
pub mod schema;
