use crate::classify::FileType;
use crate::errors::Error;
use std::io::Write;
use vstd::prelude::*;

verus! {

/// The compressed form of a byte sequence under the one fixed
/// general-purpose algorithm. Compression is deterministic — the same input
/// bytes always produce byte-identical output — so the stream is a pure
/// function of the input; its value is only ever produced by the trusted
/// wrapper around the outside compressor.
pub uninterp spec fn zlib_of(data: Seq<u8>) -> Seq<u8>;

/// Relies on `flate2::write::ZlibEncoder` over a `Vec<u8>`: the finished
/// stream depends on the input bytes alone. Writing and finishing can fail
/// only through the underlying writer or a corrupted stream state, and a
/// vector sink never fails, so the stream always finishes.
#[verifier::external_body]
fn zlib_compress(data: &[u8]) -> (r: Option<Vec<u8>>)
    ensures
        r is Some,
        r matches Some(v) ==> v@ == zlib_of(data@),
{
    let mut encoder = flate2::write::ZlibEncoder::new(
        Vec::new(),
        flate2::Compression::default(),
    );
    if encoder.write_all(data).is_err() {
        return None;
    }
    encoder.finish().ok()
}

/// Compresses the raw file bytes before encryption. The classified type is
/// accepted as forward-compatible metadata only: the current policy applies
/// the one general algorithm regardless of category, so the parameter is
/// not branched on. An internal stream failure would surface as `IOError`,
/// but a stream into a vector buffer cannot fail, so the result is always
/// the compressed bytes.
pub fn compress_file(contents: &[u8], _file_type: &FileType) -> (r: Result<Vec<u8>, Error>)
    ensures
        r is Ok,
        r matches Ok(v) ==> v@ == zlib_of(contents@),
{
    match zlib_compress(contents) {
        Some(v) => Ok(v),
        None => Err(Error::IOError),
    }
}

} // verus!
