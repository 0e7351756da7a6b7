//! Request building and response decoding for the LegiScan legislative-data
//! API, kept free of network I/O: the caller performs the HTTP GET, the
//! library builds the URL beforehand and interprets the reply afterwards.

pub mod api;
pub mod encoding;
pub mod envelope;
pub mod error;
pub mod json;
pub mod proxy;
pub mod text;
pub mod url;

pub use crate::envelope::handle_legiscan_response;
pub use crate::error::Error;
pub use crate::proxy::LegiscanProxy;
