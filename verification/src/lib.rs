//! Codec for the API-frame wire protocol spoken by XBee serial radio
//! modules: byte-at-a-time reconstruction of incoming frames, serialization
//! of outgoing frames (delimiter, length, payload, checksum), and the
//! command/response encoders and decoders that plug into it.

pub mod buffer;
pub mod commands;
pub mod frame;
pub mod responses;
pub mod wire;

pub use buffer::FrameBuffer;
pub use frame::{Frame, FrameIterator};
