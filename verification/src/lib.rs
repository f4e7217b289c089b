//! The per-connection engine of a peer-to-peer node: it frames outbound
//! messages, splits the large ones into streams of fragments, reassembles
//! inbound streams and routes what arrives.

pub mod application;
pub mod channel;
pub mod fragment;
pub mod message;
pub mod node;
pub mod reader;
pub mod stream;
pub mod writer;
