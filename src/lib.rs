//! Server side of a connectionless, authenticated, encrypted datagram
//! transport: the client table, the handshake admission rules and the
//! per-client connection automaton, kept free of I/O. The host performs the
//! socket, codec and token work and hands the results in as plain values.
pub mod connection;
pub mod table;
pub mod server;
pub mod laws;
