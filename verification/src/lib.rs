//! A WebSocket protocol engine: the frame header codec, the rolling XOR mask,
//! the reader over one frame's payload, the assembly of fragmented messages
//! and the writer of outgoing frames, each with a proved contract.

pub mod mask;
pub mod proto;
pub mod header;
pub mod frame;
pub mod assembly;
mod text;
pub mod close;
pub mod message;
pub mod buffer;
pub mod data;
pub mod socket;
pub mod http;
pub mod utils;
