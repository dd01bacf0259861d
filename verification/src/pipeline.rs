use crate::chunker::{chunk_file, chunk_of, chunks_valid, hex_of, sha256_of};
use crate::classify::{base_name, file_type_of, identify_file_type};
use crate::compress::{compress_file, zlib_of};
use crate::encrypt::{aes_gcm_seal, encrypt_file};
use crate::errors::Error;
use crate::logfmt::{json_of, log_entry};
use crate::manifest::{create_file_info, FileManifest};
use vstd::prelude::*;

verus! {

/// The manifest correctly describes the ingestion of the raw bytes `data`
/// read from `path`, under block size `size`: its name is the path's final
/// segment, its type is the table's classification of the path, its key
/// material has the fixed sizes, and its chunk records describe — block by
/// block, in order — exactly the ciphertext that sealing the compressed
/// bytes under that key material yields.
pub open spec fn manifest_valid(
    m: FileManifest,
    path: Seq<char>,
    data: Seq<u8>,
    size: nat,
) -> bool {
    let ciphertext = aes_gcm_seal(m.encryption_key@, m.nonce@, zlib_of(data));
    &&& m.original_name@ == base_name(path)
    &&& file_type_of(path) == Some(m.file_type)
    &&& m.encryption_key@.len() == 32
    &&& m.nonce@.len() == 12
    &&& chunks_valid(m.chunks@, ciphertext, size)
}

/// Runs the ingestion pipeline for one file whose raw bytes have already
/// been read, strictly in sequence: classify, compress, encrypt, chunk and
/// hash, build the manifest, render its one log record. The first failing
/// stage aborts all later ones, so no partial manifest is ever produced.
/// Success is owed whenever the path's extension is in the table and the
/// compressed bytes fit the cipher's `2^36`-byte plaintext bound; the
/// classification error comes exactly when the extension is unsupported,
/// and the encryption error exactly when that bound is exceeded. On
/// success the caller receives the manifest and the single log line to
/// append.
pub fn file_distrib(file_path: &str, contents: &[u8], chunk_size: usize) -> (r: Result<
    (FileManifest, String),
    Error,
>)
    requires
        chunk_size > 0,
    ensures
        r matches Ok(t) ==> manifest_valid(t.0, file_path@, contents@, chunk_size as nat)
            && t.1@ == json_of(t.0),
        r is Ok <==> file_type_of(file_path@) is Some && zlib_of(contents@).len()
            <= 0x1000000000,
        (r matches Err(e) && e == Error::UnsupportedFileType) <==> file_type_of(
            file_path@,
        ) is None,
        (r matches Err(e) && e == Error::EncryptionError) <==> file_type_of(
            file_path@,
        ) is Some && zlib_of(contents@).len() > 0x1000000000,
        r matches Err(e) ==> e == Error::UnsupportedFileType || e == Error::EncryptionError,
{
    let file_type = match identify_file_type(file_path) {
        Ok(t) => t,
        Err(e) => return Err(e),
    };
    let compressed = match compress_file(contents, &file_type) {
        Ok(v) => v,
        Err(e) => return Err(e),
    };
    let (ciphertext, key, nonce) = match encrypt_file(compressed.as_slice()) {
        Ok(t) => t,
        Err(e) => return Err(e),
    };
    let chunks = match chunk_file(ciphertext.as_slice(), chunk_size) {
        Ok(v) => v,
        Err(e) => return Err(e),
    };
    let m = create_file_info(
        file_path,
        file_type,
        chunks.as_slice(),
        key.as_slice(),
        nonce.as_slice(),
    );
    proof {
        let ct = aes_gcm_seal(m.encryption_key@, m.nonce@, zlib_of(contents@));
        assert(ct == ciphertext@);
        assert forall|j: int| 0 <= j < m.chunks@.len() implies (#[trigger] m.chunks@[j]).index
            == j && m.chunks@[j].hash@ == hex_of(
            sha256_of(chunk_of(ct, chunk_size as nat, j)),
        ) && m.chunks@[j].hash@.len() == 64 by {
            assert(chunks@[j].index == j);
            assert(chunks@[j].hash@ == hex_of(sha256_of(chunk_of(ct, chunk_size as nat, j))));
            assert(chunks@[j].hash@.len() == 64);
        }
    }
    let line = log_entry(&m);
    Ok((m, line))
}

} // verus!
