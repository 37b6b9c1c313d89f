//! Verified core of a small threaded web server.
//!
//! The crate holds the request-dispatch pipeline of the server as pure,
//! verified logic: reading request and header lines out of a buffered byte
//! stream, parsing the request line, deciding how a URL path resolves against
//! a document root, scanning headers for a `Content-Length` value, planning a
//! CGI subprocess invocation, building the exact response envelopes, and the
//! FIFO task queue that a worker pool drains.  Sockets, files, processes and
//! threads live outside the crate; callers feed bytes and probe results in
//! and write the returned bytes out.

pub mod ascii;
pub mod bytes;
pub mod cgi;
pub mod dispatch;
pub mod headers;
pub mod line;
pub mod pool;
pub mod request;
pub mod resolve;
pub mod response;

pub use pool::TaskQueue;
