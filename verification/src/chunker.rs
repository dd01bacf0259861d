use crate::errors::Error;
use crate::strutil::hex_char;
use sha2::Digest;
use vstd::prelude::*;
use vstd::slice::{slice_index_get, slice_subrange};

verus! {

/// The 256-bit digest of a byte sequence. The digest is a pure function of
/// the input bytes; its value is only ever produced by the trusted wrapper
/// around the outside hash implementation.
pub uninterp spec fn sha256_of(data: Seq<u8>) -> Seq<u8>;

/// Relies on `sha2::Sha256` (via the `Digest` trait): the digest is 32 bytes
/// long and depends on the hashed bytes alone.
#[verifier::external_body]
fn sha256_digest(block: &[u8]) -> (r: Vec<u8>)
    ensures
        r@ == sha256_of(block@),
        r@.len() == 32,
{
    let mut hasher = sha2::Sha256::new();
    hasher.update(block);
    hasher.finalize().to_vec()
}

/// Lowercase hexadecimal rendering of a byte sequence, two digits per byte.
pub open spec fn hex_of(bytes: Seq<u8>) -> Seq<char>
    decreases bytes.len(),
{
    if bytes.len() == 0 {
        Seq::empty()
    } else {
        hex_of(bytes.drop_last()) + seq![
            hex_char(bytes.last() / 16),
            hex_char(bytes.last() % 16),
        ]
    }
}

/// Renders bytes as lowercase hexadecimal, two digits per byte.
pub fn hex_encode(bytes: &[u8]) -> (r: String)
    ensures
        r@ == hex_of(bytes@),
        r@.len() == 2 * bytes@.len(),
{
    let mut out = String::new();
    let len = bytes.len();
    let mut i: usize = 0;
    proof {
        lemma_hex_of_len(bytes@.take(0));
    }
    while i < len
        invariant
            len == bytes@.len(),
            i <= len,
            out@ == hex_of(bytes@.take(i as int)),
            out@.len() == 2 * i,
        decreases len - i,
    {
        let b = *slice_index_get(bytes, i);
        out.push(crate::strutil::digit_char(b / 16));
        out.push(crate::strutil::digit_char(b % 16));
        proof {
            let pre = bytes@.take(i as int);
            let cur = bytes@.take(i + 1);
            assert(cur.drop_last() =~= pre);
            assert(cur.last() == bytes@[i as int]);
            assert(out@ =~= hex_of(cur));
        }
        i = i + 1;
    }
    proof {
        assert(bytes@.take(len as int) =~= bytes@);
    }
    out
}

/// The hexadecimal rendering of a byte sequence is twice as long.
pub proof fn lemma_hex_of_len(bytes: Seq<u8>)
    ensures
        hex_of(bytes).len() == 2 * bytes.len(),
    decreases bytes.len(),
{
    if bytes.len() > 0 {
        lemma_hex_of_len(bytes.drop_last());
    }
}

/// One block of the encrypted byte stream: its position and the hexadecimal
/// digest of its raw ciphertext bytes.
pub struct ChunkRecord {
    pub index: usize,
    pub hash: String,
}

/// How many blocks a byte stream of length `len` splits into under block
/// size `size`: the ceiling of `len / size`.
pub open spec fn chunk_count(len: nat, size: nat) -> int
    recommends
        size > 0,
{
    (len + size - 1) / (size as int)
}

/// The bytes of block `i` of `data` under block size `size`: a full block,
/// except that the final block holds only what remains.
pub open spec fn chunk_of(data: Seq<u8>, size: nat, i: int) -> Seq<u8>
    recommends
        size > 0,
        0 <= i < chunk_count(data.len(), size),
{
    data.subrange(
        i * size,
        if (i + 1) * size <= data.len() {
            (i + 1) * (size as int)
        } else {
            data.len() as int
        },
    )
}

/// The chunk records describe `data` split into blocks of `size` bytes:
/// one record per block, indexed contiguously from zero in order, each
/// carrying the hexadecimal digest of its own block.
pub open spec fn chunks_valid(rs: Seq<ChunkRecord>, data: Seq<u8>, size: nat) -> bool {
    &&& rs.len() == chunk_count(data.len(), size)
    &&& forall|i: int|
        0 <= i < rs.len() ==> (#[trigger] rs[i]).index == i && rs[i].hash@ == hex_of(
            sha256_of(chunk_of(data, size, i)),
        ) && rs[i].hash@.len() == 64
}

/// Splits `contents` into consecutive blocks of `chunk_size` bytes (the
/// final block may be shorter) and records the digest of every block, in
/// strict block order. Every block is hashed; a digest failure would be
/// reported as `HashWorkerFailure`, but the digest computation used here
/// cannot fail, so the result is always `Ok`.
pub fn chunk_file(contents: &[u8], chunk_size: usize) -> (r: Result<Vec<ChunkRecord>, Error>)
    requires
        chunk_size > 0,
    ensures
        r is Ok,
        r matches Ok(rs) ==> chunks_valid(rs@, contents@, chunk_size as nat),
{
    let len = contents.len();
    let mut records: Vec<ChunkRecord> = Vec::new();
    let mut start: usize = 0;
    let mut i: usize = 0;
    while start < len
        invariant
            chunk_size > 0,
            len == contents@.len(),
            i == records@.len(),
            start <= len,
            i * chunk_size <= len ==> start == i * chunk_size,
            i * chunk_size > len ==> start == len,
            i > 0 ==> (i - 1) * chunk_size < len,
            forall|j: int|
                0 <= j < i ==> (#[trigger] records@[j]).index == j && records@[j].hash@ == hex_of(
                    sha256_of(chunk_of(contents@, chunk_size as nat, j)),
                ) && records@[j].hash@.len() == 64,
        decreases len - start,
    {
        proof {
            assert(i <= i * chunk_size && (i + 1) * chunk_size == i * chunk_size + chunk_size)
                by (nonlinear_arith)
                requires
                    chunk_size > 0,
                    i >= 0,
            ;
        }
        let end = if len - start > chunk_size {
            start + chunk_size
        } else {
            len
        };
        let block = slice_subrange(contents, start, end);
        let digest = sha256_digest(block);
        let hash = hex_encode(digest.as_slice());
        proof {
            assert(block@ =~= chunk_of(contents@, chunk_size as nat, i as int));
        }
        records.push(ChunkRecord { index: i, hash });
        start = end;
        i = i + 1;
    }
    proof {
        if i == 0 {
            assert(len == 0);
            assert((len + chunk_size - 1) / (chunk_size as int) == 0) by (nonlinear_arith)
                requires
                    chunk_size > 0,
                    len == 0,
            ;
        } else {
            lemma_ceil_of_bounded(len as nat, chunk_size as nat, i as int);
        }
    }
    Ok(records)
}

/// If `(i - 1) * size < len <= i * size`, then `i` is the ceiling of
/// `len / size`.
proof fn lemma_ceil_of_bounded(len: nat, size: nat, i: int)
    requires
        size > 0,
        i > 0,
        (i - 1) * size < len,
        len <= i * size,
    ensures
        chunk_count(len, size) == i,
{
    assert((len + size - 1) / (size as int) == i) by (nonlinear_arith)
        requires
            size > 0,
            i > 0,
            (i - 1) * size < len,
            len <= i * size,
    ;
}

/// Law: the manifest's block count is the ceiling of the ciphertext length
/// over the block size; every block except the last has exactly `size`
/// bytes, and the last block holds exactly the remaining bytes,
/// `len - (count - 1) * size`.
pub proof fn lemma_chunk_lengths(data: Seq<u8>, size: nat, i: int)
    requires
        size > 0,
        0 <= i < chunk_count(data.len(), size),
    ensures
        i < chunk_count(data.len(), size) - 1 ==> chunk_of(data, size, i).len() == size,
        i == chunk_count(data.len(), size) - 1 ==> chunk_of(data, size, i).len() == data.len() - (
        chunk_count(data.len(), size) - 1) * size,
{
    let cc = chunk_count(data.len(), size);
    let len = data.len() as int;
    assert((cc - 1) * size < len && len <= cc * size) by (nonlinear_arith)
        requires
            size > 0,
            cc == (len + size - 1) / (size as int),
            len >= 0,
            cc > 0,
    ;
    if i < cc - 1 {
        assert((i + 1) * size <= (cc - 1) * size && i * size + size == (i + 1) * size)
            by (nonlinear_arith)
            requires
                0 <= i < cc - 1,
                size > 0,
        ;
    } else {
        assert(i * size + size == (i + 1) * size) by (nonlinear_arith);
    }
}

/// Law: recomputing the digest over the ciphertext block that a record
/// points at yields exactly the hash stored in the record.
pub proof fn lemma_chunk_digest_recompute(
    rs: Seq<ChunkRecord>,
    data: Seq<u8>,
    size: nat,
    i: int,
)
    requires
        size > 0,
        chunks_valid(rs, data, size),
        0 <= i < rs.len(),
    ensures
        rs[i].hash@ == hex_of(sha256_of(chunk_of(data, size, i))),
{
}

/// Law: the recorded sequence is strictly ordered by block index, with no
/// gap and no duplicate — block `i`'s record sits at position `i` and
/// nowhere else.
pub proof fn lemma_chunk_indices_ordered(rs: Seq<ChunkRecord>, data: Seq<u8>, size: nat)
    requires
        size > 0,
        chunks_valid(rs, data, size),
    ensures
        forall|i: int| 0 <= i < rs.len() ==> (#[trigger] rs[i]).index == i,
        forall|i: int, j: int|
            0 <= i < j < rs.len() ==> (#[trigger] rs[i]).index < (#[trigger] rs[j]).index,
{
}

} // verus!
