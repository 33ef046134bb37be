//! A bridge that multiplexes a child process's standard input between
//! verbatim passthrough bytes and framed JSON-RPC notifications built from
//! local HTTP requests.
pub mod codec;
pub mod envelope;
pub mod ingest;
pub mod queue;
