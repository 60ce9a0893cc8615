//! A stub that speaks the remote serial protocol of a source-level debugger
//! on behalf of a record-and-replay engine: packet framing and checksums,
//! binary escaping, request parsing, reply encoding, and the session state
//! machine that mediates between the wire and the engine.

pub mod connection;
pub mod fileflags;
pub mod framing;
pub mod hex;
pub mod lexical_key;
pub mod parser;
pub mod registers;
pub mod replay_timeline;
pub mod request;
pub mod signals;
pub mod thread_id;
