//! Protocol core for attaching to computational kernels: the signed multipart
//! wire format, the JSON parts the core interprets, the decisions of a session
//! (attach, execute, listen) and the ingestion of the broadcast channel.
pub mod ingest;
pub mod message;
pub mod session;
pub mod wire;
