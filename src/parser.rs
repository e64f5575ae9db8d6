//! The snapshot file format: header, property dictionary, objects with their
//! attributes, class table and rights table.

pub mod wstr;
pub mod attribute;
pub mod schema;
pub mod object;
pub mod snapshot;
