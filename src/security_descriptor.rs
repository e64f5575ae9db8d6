//! Self-relative security descriptors: control flags, owner and group SIDs,
//! and access-control lists of ACEs.

pub mod access_mask;
pub mod control_flags;
pub mod ace;
pub mod acl;
pub mod sddl;
