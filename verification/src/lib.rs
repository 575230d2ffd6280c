//! Agent-side implementation of HAProxy's Stream Processing Offload Protocol
//! (SPOP): the binary frame codec (varints, typed data, frames), the
//! length-prefixed framer, handshake negotiation, fragment reassembly, and the
//! per-connection state machine.  Everything here is plain data in, plain data
//! out; socket handling lives with the caller.

pub mod action;
pub mod caps;
pub mod chars;
pub mod data;
pub mod decode;
pub mod encode;
pub mod fragment;
pub mod frame;
pub mod framer;
pub mod handshake;
pub mod handler;
pub mod kv;
pub mod laws;
pub mod proto;
pub mod req;
pub mod runtime;
pub mod state;
pub mod status;
pub mod varint;
pub mod version;
pub mod wire;
