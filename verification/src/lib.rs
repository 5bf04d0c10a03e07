//! The decisions of a small static-file HTTP server, stated and proved.
//!
//! The server answers `GET` requests with whole files from one root
//! directory, one worker per connection. Everything that touches a socket,
//! the disk or a thread belongs to the program around this library; what is
//! here decides, from the bytes and answers handed in, what that program does
//! next and which bytes it sends.

pub mod address;
pub mod bytes;
pub mod connection;
pub mod http_methods;
pub mod http_request;
pub mod path;
pub mod response;
pub mod throttle;
