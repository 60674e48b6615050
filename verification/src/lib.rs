//! Routing metadata of a distributed table: which peer leads each of a table's
//! regions, which peers follow it, and how that knowledge travels on the wire.

pub mod error;
pub mod json;
pub mod pb;
pub mod peer;
pub mod rpc;
pub mod table_name;
