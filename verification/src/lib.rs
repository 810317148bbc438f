//! Verified core of a minimal HTTP/1.1 static-file server.
//!
//! The library covers the request-handling pipeline of the server: turning a
//! request line into the path of the file to serve, resolving a response
//! content type from that path's extension, and building the response header
//! block and the full wire response. The surrounding process (listening,
//! accepting connections, reading the request bytes, loading the file, and
//! writing the response back) is plain I/O and lives outside the library.

pub mod mime;
pub mod request;
pub mod response;
pub mod text;
