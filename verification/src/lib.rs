//! A retrieval-augmented generation core: windowed and header-anchored
//! document chunking, retrieval thresholding and prompt assembly, and a
//! newline-framed streaming response decoder, with contracts checked by Verus.

pub mod chunker;
pub mod decoder;
pub mod engine;
pub mod error;
pub mod model;
pub mod session;
pub mod text;

pub use error::EmbeddingsError;
