//! Zero-knowledge volunteer computing: a client proves to a server that it
//! evaluated a circuit correctly, and the server classifies each proof as
//! valid, invalid or erroneous.

pub mod challenge;
pub mod circuit;
pub mod error;
pub mod field;
pub mod response;
pub mod server;
pub mod utils;
