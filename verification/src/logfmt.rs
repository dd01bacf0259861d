use crate::chunker::ChunkRecord;
use crate::classify::FileType;
use crate::manifest::FileManifest;
use crate::strutil::{dec_of, digit_char, hex_char, push_decimal};
use vstd::prelude::*;
use vstd::string::{StrSliceExecFns, StringExecFns};

verus! {

/// JSON escaping of one character: quote and backslash get a leading
/// backslash, control characters become `\u00XX`, everything else stands
/// for itself.
pub open spec fn json_escape_char(c: char) -> Seq<char> {
    if c == '"' {
        seq!['\\', '"']
    } else if c == '\\' {
        seq!['\\', '\\']
    } else if (c as u32) < 32 {
        seq![
            '\\',
            'u',
            '0',
            '0',
            hex_char(((c as u32) / 16) as u8),
            hex_char(((c as u32) % 16) as u8),
        ]
    } else {
        seq![c]
    }
}

/// JSON escaping of a whole string.
pub open spec fn json_escape(s: Seq<char>) -> Seq<char>
    decreases s.len(),
{
    if s.len() == 0 {
        Seq::empty()
    } else {
        json_escape(s.drop_last()) + json_escape_char(s.last())
    }
}

/// The log form of a content category.
pub open spec fn file_type_label(t: FileType) -> Seq<char> {
    match t {
        FileType::Doc => "Doc"@,
        FileType::Image => "Image"@,
        FileType::Video => "Video"@,
        FileType::Audio => "Audio"@,
    }
}

/// The log form of one chunk record.
pub open spec fn chunk_json(r: ChunkRecord) -> Seq<char> {
    "{\"index\":"@ + dec_of(r.index as nat) + ",\"hash\":\""@ + json_escape(r.hash@) + "\"}"@
}

/// The log form of the ordered chunk records, comma separated.
pub open spec fn chunks_json(s: Seq<ChunkRecord>) -> Seq<char>
    decreases s.len(),
{
    if s.len() == 0 {
        Seq::empty()
    } else if s.len() == 1 {
        chunk_json(s[0])
    } else {
        chunks_json(s.drop_last()) + ","@ + chunk_json(s.last())
    }
}

/// The log form of a byte array: decimal values, comma separated.
pub open spec fn bytes_json(s: Seq<u8>) -> Seq<char>
    decreases s.len(),
{
    if s.len() == 0 {
        Seq::empty()
    } else if s.len() == 1 {
        dec_of(s[0] as nat)
    } else {
        bytes_json(s.drop_last()) + ","@ + dec_of(s.last() as nat)
    }
}

/// One manifest as one record of the structured, self-describing log
/// format: the original name, the category, the ordered chunk records and
/// the key material, as a single JSON object.
pub open spec fn json_of(m: FileManifest) -> Seq<char> {
    "{\"original_name\":\""@ + json_escape(m.original_name@) + "\",\"file_type\":\""@
        + file_type_label(m.file_type) + "\",\"chunks\":["@ + chunks_json(m.chunks@)
        + "],\"encryption_key\":["@ + bytes_json(m.encryption_key@) + "],\"nonce\":["@
        + bytes_json(m.nonce@) + "]}"@
}

/// A sequence of characters is printable: no control character, hence in
/// particular no line break, appears in it.
pub open spec fn printable(s: Seq<char>) -> bool {
    forall|i: int| 0 <= i < s.len() ==> (#[trigger] s[i] as u32) >= 32
}

/// Every character a JSON character escape emits is printable.
proof fn lemma_json_escape_char_printable(c: char)
    ensures
        printable(json_escape_char(c)),
{
    crate::strutil::lemma_hex_char_printable((((c as u32) / 16) as u8));
    crate::strutil::lemma_hex_char_printable((((c as u32) % 16) as u8));
}

/// A JSON-escaped string is printable.
proof fn lemma_json_escape_printable(s: Seq<char>)
    ensures
        printable(json_escape(s)),
    decreases s.len(),
{
    if s.len() > 0 {
        lemma_json_escape_printable(s.drop_last());
        lemma_json_escape_char_printable(s.last());
    }
}

/// A decimal rendering is printable.
proof fn lemma_dec_printable(n: nat)
    ensures
        printable(dec_of(n)),
{
    crate::strutil::lemma_dec_of_digits(n);
}

/// The comma-separated byte values are printable.
proof fn lemma_bytes_json_printable(s: Seq<u8>)
    ensures
        printable(bytes_json(s)),
    decreases s.len(),
{
    reveal_strlit(",");
    if s.len() == 1 {
        lemma_dec_printable(s[0] as nat);
    } else if s.len() > 1 {
        lemma_bytes_json_printable(s.drop_last());
        lemma_dec_printable(s.last() as nat);
    }
}

/// The log form of one chunk record is printable.
proof fn lemma_chunk_json_printable(r: ChunkRecord)
    ensures
        printable(chunk_json(r)),
{
    reveal_strlit("{\"index\":");
    reveal_strlit(",\"hash\":\"");
    reveal_strlit("\"}");
    lemma_dec_printable(r.index as nat);
    lemma_json_escape_printable(r.hash@);
    assert(printable("{\"index\":"@));
    assert(printable(",\"hash\":\""@));
    assert(printable("\"}"@));
}

/// The comma-separated chunk records are printable.
proof fn lemma_chunks_json_printable(s: Seq<ChunkRecord>)
    ensures
        printable(chunks_json(s)),
    decreases s.len(),
{
    reveal_strlit(",");
    if s.len() == 1 {
        lemma_chunk_json_printable(s[0]);
    } else if s.len() > 1 {
        lemma_chunks_json_printable(s.drop_last());
        lemma_chunk_json_printable(s.last());
    }
}

/// Law: a manifest's log record never spans more than one line — every
/// character of it is printable, so in particular no line break occurs in
/// it, and appending the record plus one final newline grows the log by
/// exactly one line.
pub proof fn lemma_log_record_single_line(m: FileManifest)
    ensures
        printable(json_of(m)),
        forall|i: int| 0 <= i < json_of(m).len() ==> json_of(m)[i] != '\n',
{
    reveal_strlit("{\"original_name\":\"");
    reveal_strlit("\",\"file_type\":\"");
    reveal_strlit("\",\"chunks\":[");
    reveal_strlit("],\"encryption_key\":[");
    reveal_strlit("],\"nonce\":[");
    reveal_strlit("]}");
    reveal_strlit("Doc");
    reveal_strlit("Image");
    reveal_strlit("Video");
    reveal_strlit("Audio");
    lemma_json_escape_printable(m.original_name@);
    lemma_chunks_json_printable(m.chunks@);
    lemma_bytes_json_printable(m.encryption_key@);
    lemma_bytes_json_printable(m.nonce@);
    assert(printable("{\"original_name\":\""@));
    assert(printable("\",\"file_type\":\""@));
    assert(printable("\",\"chunks\":["@));
    assert(printable("],\"encryption_key\":["@));
    assert(printable("],\"nonce\":["@));
    assert(printable("]}"@));
    assert(printable(file_type_label(m.file_type)));
}

/// Appends the JSON escaping of `s` to `out`.
fn push_escaped(out: &mut String, s: &str)
    ensures
        final(out)@ == old(out)@ + json_escape(s@),
{
    let len = s.unicode_len();
    let mut i: usize = 0;
    proof {
        assert(out@ =~= old(out)@ + json_escape(s@.take(0)));
    }
    while i < len
        invariant
            i <= len,
            len == s@.len(),
            out@ == old(out)@ + json_escape(s@.take(i as int)),
        decreases len - i,
    {
        let c = s.get_char(i);
        if c == '"' {
            out.push('\\');
            out.push('"');
        } else if c == '\\' {
            out.push('\\');
            out.push('\\');
        } else {
            let cv = c as u32;
            if cv < 32 {
                out.push('\\');
                out.push('u');
                out.push('0');
                out.push('0');
                out.push(digit_char((cv / 16) as u8));
                out.push(digit_char((cv % 16) as u8));
            } else {
                out.push(c);
            }
        }
        proof {
            let cur = s@.take(i + 1);
            assert(cur.drop_last() =~= s@.take(i as int));
            assert(cur.last() == s@[i as int]);
            assert(out@ =~= old(out)@ + json_escape(cur));
        }
        i = i + 1;
    }
    proof {
        assert(s@.take(len as int) =~= s@);
    }
}

/// Appends the decimal byte values of `bytes`, comma separated, to `out`.
fn push_bytes(out: &mut String, bytes: &Vec<u8>)
    ensures
        final(out)@ == old(out)@ + bytes_json(bytes@),
{
    let len = bytes.len();
    let mut i: usize = 0;
    proof {
        assert(out@ =~= old(out)@ + bytes_json(bytes@.take(0)));
    }
    while i < len
        invariant
            i <= len,
            len == bytes@.len(),
            out@ == old(out)@ + bytes_json(bytes@.take(i as int)),
        decreases len - i,
    {
        if i > 0 {
            out.append(",");
        }
        push_decimal(out, bytes[i] as u64);
        proof {
            let cur = bytes@.take(i + 1);
            assert(cur.drop_last() =~= bytes@.take(i as int));
            assert(cur.last() == bytes@[i as int]);
            assert(out@ =~= old(out)@ + bytes_json(cur));
        }
        i = i + 1;
    }
    proof {
        assert(bytes@.take(len as int) =~= bytes@);
    }
}

/// Appends the log form of one chunk record to `out`.
fn push_chunk(out: &mut String, rec: &ChunkRecord)
    ensures
        final(out)@ == old(out)@ + chunk_json(*rec),
{
    out.append("{\"index\":");
    push_decimal(out, rec.index as u64);
    out.append(",\"hash\":\"");
    push_escaped(out, rec.hash.as_str());
    out.append("\"}");
    proof {
        assert(out@ =~= old(out)@ + chunk_json(*rec));
    }
}

/// Serializes one manifest to the single log record that stands for it:
/// exactly the structured format `json_of` describes.
pub fn log_entry(m: &FileManifest) -> (r: String)
    ensures
        r@ == json_of(*m),
{
    let mut out = String::new();
    out.append("{\"original_name\":\"");
    push_escaped(&mut out, m.original_name.as_str());
    out.append("\",\"file_type\":\"");
    match m.file_type {
        FileType::Doc => out.append("Doc"),
        FileType::Image => out.append("Image"),
        FileType::Video => out.append("Video"),
        FileType::Audio => out.append("Audio"),
    }
    out.append("\",\"chunks\":[");
    let ghost head = out@;
    let len = m.chunks.len();
    let mut i: usize = 0;
    proof {
        assert(out@ =~= head + chunks_json(m.chunks@.take(0)));
    }
    while i < len
        invariant
            i <= len,
            len == m.chunks@.len(),
            out@ == head + chunks_json(m.chunks@.take(i as int)),
        decreases len - i,
    {
        if i > 0 {
            out.append(",");
        }
        push_chunk(&mut out, &m.chunks[i]);
        proof {
            let cur = m.chunks@.take(i + 1);
            assert(cur.drop_last() =~= m.chunks@.take(i as int));
            assert(cur.last() == m.chunks@[i as int]);
            assert(out@ =~= head + chunks_json(cur));
        }
        i = i + 1;
    }
    proof {
        assert(m.chunks@.take(len as int) =~= m.chunks@);
    }
    out.append("],\"encryption_key\":[");
    push_bytes(&mut out, &m.encryption_key);
    out.append("],\"nonce\":[");
    push_bytes(&mut out, &m.nonce);
    out.append("]}");
    proof {
        assert(out@ =~= json_of(*m));
    }
    out
}

} // verus!
