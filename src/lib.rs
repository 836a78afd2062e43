//! Multicast netcat: the packet model, framing, protocol decoders and the
//! decisions of the receive / transmit / statistics pipeline.
pub mod bytes;
pub mod config;
pub mod error;
pub mod framing;
pub mod hexdump;
pub mod packet;
pub mod reader;
pub mod sdds;
pub mod shared;
pub mod statistics;
pub mod text;
pub mod vita49;
pub mod writer;
