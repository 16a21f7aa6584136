//! What planning and witness building read of the storage layer.

use vstd::prelude::*;

verus! {

/// A chunk of a committed snapshot.
#[derive(Debug, Clone, Copy)]
pub struct ChunkDescriptor {
    pub chunk_index: u32,
}

/// The chunks and the size of a committed snapshot.
#[derive(Debug)]
pub struct SnapshotManifest {
    pub chunks: Vec<ChunkDescriptor>,
    pub row_count: u64,
}

/// The rows of a chunk, each in its canonical bytes.
#[derive(Debug)]
pub struct StagedChunk {
    pub row_bytes: Vec<Vec<u8>>,
}

} // verus!
