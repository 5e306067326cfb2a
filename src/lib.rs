//! A single node of a message-passing test harness: newline-delimited JSON
//! envelopes in, replies out. The handshake (`init` / `init_ok`) establishes the
//! node's identity; afterwards `echo` requests are answered with `echo_ok`.
pub mod codec;
pub mod json;
pub mod message;
pub mod node;
pub mod session;
