//! The decisions of a JMAP mail provider for Camel, as verified functions over
//! plain values: what a message looks like on the wire, which search can go to
//! the server, which pushes start which refresh, what a folder tree shows, and
//! how a failure is reported.

pub mod append;
pub mod cache;
pub mod changes;
pub mod connect;
pub mod envelope;
pub mod expunge;
pub mod filter;
pub mod folder;
pub mod folders;
pub mod message;
pub mod message_info;
pub mod mime;
pub mod push;
pub mod refresh;
pub mod quota;
pub mod search_body;
pub mod search_sexp;
pub mod server;
pub mod settings;
pub mod subscribe;
pub mod summary;
pub mod synchronize;
pub mod text;
pub mod transfer;
