//! Replays a recorded web session as a live server.
//!
//! An archive of recorded request/response pairs is turned into a table of
//! routes. A request is answered from the recording where an entry matches
//! it, handed on to a live upstream where one is set, and turned down
//! otherwise. Everything here works on plain values: reading files, talking
//! to the network and listening for connections are left to the caller.

pub mod blackhole;
pub mod dump;
pub mod error;
pub mod guide;
pub mod har;
pub mod method;
pub mod paths;
pub mod proxy;
pub mod replay;
pub mod routes;
pub mod server;
pub mod text;
pub mod uri;
