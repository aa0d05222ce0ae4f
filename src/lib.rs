//! A server library for the Gemini protocol: status taxonomy, request routing,
//! static content decisions and the CGI, SCGI and reverse-proxy gateways.
//!
//! Everything here is pure decision and encoding logic; sockets, processes and
//! the file system are driven by the caller, which feeds the results back in.
pub mod status;
pub mod text;
pub mod urls;
pub mod config;
pub mod request;
pub mod files;
pub mod serve;
pub mod gateway;
pub mod scgi;
pub mod response;
pub mod listing;
pub mod session;
