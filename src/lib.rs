//! PNG chunks: the four-letter chunk type with the properties that the case of
//! its letters encodes, and the length-prefixed, CRC-checked chunk frame.
pub mod wire;
pub mod chunk_type;
pub mod chunk;

pub use chunk::{Chunk, ChunkError};
pub use chunk_type::{ChunkType, ChunkTypeError};
