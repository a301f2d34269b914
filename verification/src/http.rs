//! The vocabulary of the HTTP server that hands its connections to the pool:
//! request lines, routes, status lines and responses.

pub mod decimal;
pub mod handler;
pub mod page;
pub mod request;
pub mod response;
pub mod status;
