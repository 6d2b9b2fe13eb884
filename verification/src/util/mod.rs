//! Buffers that hold several encoded messages.
pub mod encode_buf;
pub mod packet_buf;
