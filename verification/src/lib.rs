//! Session multiplexing and flow-controlled relay for a file bridge: hosters
//! expose local files over one duplex connection, and downloaders fetch them
//! through ordinary HTTP requests.
//!
//! The library decides and the caller acts. Nothing here opens a socket or
//! waits: each function takes what happened (a download request, a message
//! or a stream from a hoster, a chunk passing by) and says what is to be
//! done about it.
//!
//! - [`id_generator`]: session ids, random UUIDs or short codes.
//! - [`registry`]: the live sessions by id, and the search for a free id.
//! - [`hoster_manager`]: one session, with its pending requests and its
//!   cache; [`session`] holds its rules as plain values and what follows
//!   from them.
//! - [`range`], [`response`]: the `Range` header of a request, and status
//!   and headers of the answer.
//! - [`protocol`], [`json`]: the messages to and from a hoster.
//! - [`cache`]: the tap that gathers a small file while it streams by.
//! - [`stats_conduit`]: the counting stage of the pipe, and its flow control.
//! - [`text`]: decimal numbers as text.

pub mod cache;
pub mod hoster_manager;
pub mod id_generator;
pub mod json;
pub mod protocol;
pub mod range;
pub mod registry;
pub mod response;
pub mod session;
pub mod stats_conduit;
pub mod text;
