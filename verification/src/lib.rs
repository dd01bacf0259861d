//! Verified core of an encrypted, content-addressed chunk-store ingestion
//! path: classify a file by extension, compress it, encrypt it with fresh
//! key material, split the ciphertext into fixed-size blocks with one digest
//! per block, and render the resulting manifest as one log line.

pub mod chunker;
pub mod classify;
pub mod compress;
pub mod counter;
pub mod encrypt;
pub mod errors;
pub mod logfmt;
pub mod manifest;
pub mod pipeline;
pub mod strutil;

pub use chunker::{chunk_file, ChunkRecord};
pub use classify::{identify_file_type, FileType};
pub use compress::compress_file;
pub use counter::{Counter, Message};
pub use encrypt::encrypt_file;
pub use errors::Error;
pub use logfmt::log_entry;
pub use manifest::{create_file_info, FileManifest};
pub use pipeline::file_distrib;

use vstd::prelude::*;

verus! {

/// Default size of one ciphertext block, in bytes (1 MiB).
pub const CHUNK_SIZE: usize = 1048576;

} // verus!
