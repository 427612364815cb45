//! A small real-time message and file relay: the binary frame codec, the
//! shared message store, and the decisions that each connection's receive and
//! send loops make.
pub mod le;
pub mod codec;
pub mod store;
pub mod session;
pub mod retrieval;
