//! The core of a multi-protocol HTTP front-end, verified: what it decides,
//! apart from the sockets, files, processes and clocks that it decides about.
//!
//! - [`connection`]: admission of connections under a limit, and the figures
//!   kept of them; [`connection::model`] is the tracker as a state machine.
//! - [`route`]: the routing table, an exact match on method and path.
//! - [`static_file`]: the cache policy for static files.
//! - [`handlers`]: what each endpoint decides, and which endpoint a request
//!   goes to.
//! - [`server`]: the life of a connection, from serving to graceful shutdown
//!   to closing.
//! - [`config`], [`request`], [`response`], [`time`], [`counter`],
//!   [`local_time`]: the values that the others work on.
//!
//! Clock readings, resolved files and the outcomes of waiting are handed in
//! by the caller as plain values.

pub mod config;
pub mod connection;
pub mod counter;
pub mod handlers;
pub mod local_time;
pub mod request;
pub mod response;
pub mod route;
pub mod server;
pub mod static_file;
pub mod time;
