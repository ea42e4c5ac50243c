//! PNG chunk records: the four-byte type tag with its case-encoded flags, and
//! the length-prefixed, CRC-checked chunk envelope.

pub mod chunk;
pub mod chunk_type;
pub mod text;

pub use chunk::{Chunk, ChunkError};
pub use chunk_type::{ChunkType, ChunkTypeError};
