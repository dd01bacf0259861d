use crate::chunker::ChunkRecord;
use crate::classify::{base_name, base_start, path_chars, FileType};
use vstd::prelude::*;
use vstd::slice::{slice_index_get, slice_to_vec};

verus! {

/// The per-file descriptor: the base file name, the classified category,
/// the ordered chunk records, and the key material needed to decrypt the
/// chunks. Constructed entirely in memory, written to the log exactly once,
/// in full, or not at all.
pub struct FileManifest {
    pub original_name: String,
    pub file_type: FileType,
    pub chunks: Vec<ChunkRecord>,
    pub encryption_key: Vec<u8>,
    pub nonce: Vec<u8>,
}

/// Record-wise equality of chunk sequences: same length, same index and
/// same hash text at every position.
pub open spec fn records_match(a: Seq<ChunkRecord>, b: Seq<ChunkRecord>) -> bool {
    a.len() == b.len() && forall|i: int|
        0 <= i < a.len() ==> (#[trigger] a[i]).index == b[i].index && a[i].hash@ == b[i].hash@
}

/// Extracts the final segment of the path as an owned string.
fn base_name_of(file_path: &str) -> (r: String)
    ensures
        r@ == base_name(file_path@),
{
    let chars = path_chars(file_path);
    let (start, end) = base_start(&chars);
    let mut out = String::new();
    let mut i: usize = start;
    while i < end
        invariant
            start <= i <= end,
            end <= chars@.len(),
            out@ == chars@.subrange(start as int, i as int),
        decreases end - i,
    {
        out.push(chars[i]);
        proof {
            assert(out@ =~= chars@.subrange(start as int, i + 1));
        }
        i = i + 1;
    }
    out
}

/// Copies chunk records, preserving index and hash text at every position.
fn copy_records(chunks: &[ChunkRecord]) -> (r: Vec<ChunkRecord>)
    ensures
        records_match(r@, chunks@),
{
    let len = chunks.len();
    let mut out: Vec<ChunkRecord> = Vec::new();
    let mut i: usize = 0;
    while i < len
        invariant
            i <= len,
            len == chunks@.len(),
            i == out@.len(),
            forall|j: int|
                0 <= j < i ==> (#[trigger] out@[j]).index == chunks@[j].index && out@[j].hash@
                    == chunks@[j].hash@,
        decreases len - i,
    {
        let rec = slice_index_get(chunks, i);
        let hash = rec.hash.clone();
        out.push(ChunkRecord { index: rec.index, hash });
        i = i + 1;
    }
    out
}

/// Pure assembly of the per-file descriptor: the base name of the source
/// path, the classified type, the ordered chunk digests and the key/nonce
/// pair, copied as given. No I/O and no failure mode.
pub fn create_file_info(
    file_path: &str,
    file_type: FileType,
    chunks: &[ChunkRecord],
    key: &[u8],
    nonce: &[u8],
) -> (m: FileManifest)
    ensures
        m.original_name@ == base_name(file_path@),
        m.file_type == file_type,
        records_match(m.chunks@, chunks@),
        m.encryption_key@ == key@,
        m.nonce@ == nonce@,
{
    FileManifest {
        original_name: base_name_of(file_path),
        file_type,
        chunks: copy_records(chunks),
        encryption_key: slice_to_vec(key),
        nonce: slice_to_vec(nonce),
    }
}

} // verus!
