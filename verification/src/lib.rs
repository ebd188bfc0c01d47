//! A line server's decisions: how a request line is read, which line of a
//! text a number names, what a connection does on each event, and when the
//! accept loop stops.

pub mod connection;
pub mod lookup;
pub mod request;
pub mod server;
pub mod service;
pub mod text;
