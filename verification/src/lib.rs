//! The engine of a transparent JDWP proxy: one JVM debug connection shared
//! by many debugger clients, each seeing a private, faithful session.
//!
//! The library holds everything the proxy decides — framing, the
//! handshake, proxy-id assignment and reply routing — with contracts that
//! pin each decision down. Sockets, queues and tasks belong to the
//! embedding, which feeds bytes and records in and carries frames and
//! replies out.

/// The errors the engine distinguishes.
pub mod errors;
/// Reading and writing JDWP packets as length-prefixed frames.
pub mod frame;
/// The fourteen-byte protocol handshake.
pub mod handshake;
/// The direct command connection: command frames and their replies.
pub mod jdwp;
/// Proxy-id assignment and reply routing across clients.
pub mod mux;
/// The length filter offered to the embedding shell.
pub mod plugin;
