//! The requests and responses of the metadata service.

pub mod calls;
pub mod exchange;
pub mod laws;
pub mod peers;
pub mod region;
pub mod request;
pub mod response;
pub mod router;
pub mod text;
pub mod util;
