//! Clipboard synchronisation between machines: the wire protocol, the client
//! that watches a clipboard and moves files, and the hub's TLS certificate.
//!
//! Every function here is verified against its contract. Reading files,
//! talking to the operating system's clipboard and moving bytes over the
//! network is left to the caller, which performs the steps these functions
//! return and hands the outcomes back.

pub mod client;
pub mod codec;
pub mod digest;
pub mod ident;
pub mod path;
pub mod protocol;
pub mod server;
pub mod text;
