use aes_gcm::aead::Aead;
use aes_gcm::KeyInit;
use chunkstore::{
    chunk_file, compress_file, create_file_info, encrypt_file, file_distrib, identify_file_type,
    log_entry, ChunkRecord, Counter, Error, FileManifest, FileType, Message,
};
use sha2::Digest;
use std::collections::HashSet;
use std::io::Read;

fn hex(bytes: &[u8]) -> String {
    let mut out = String::new();
    for b in bytes {
        out.push_str(&format!("{:02x}", b));
    }
    out
}

fn sha256_hex(bytes: &[u8]) -> String {
    let mut hasher = sha2::Sha256::new();
    hasher.update(bytes);
    hex(&hasher.finalize())
}

fn decompress(bytes: &[u8]) -> Vec<u8> {
    let mut decoder = flate2::read::ZlibDecoder::new(bytes);
    let mut out = Vec::new();
    decoder.read_to_end(&mut out).unwrap();
    out
}

#[test]
fn classify_known_extensions() {
    assert_eq!(identify_file_type("report.pdf"), Ok(FileType::Doc));
    assert_eq!(identify_file_type("notes.txt"), Ok(FileType::Doc));
    assert_eq!(identify_file_type("essay.doc"), Ok(FileType::Doc));
    assert_eq!(identify_file_type("essay.docx"), Ok(FileType::Doc));
    assert_eq!(identify_file_type("photo.jpg"), Ok(FileType::Image));
    assert_eq!(identify_file_type("photo.jpeg"), Ok(FileType::Image));
    assert_eq!(identify_file_type("icon.png"), Ok(FileType::Image));
    assert_eq!(identify_file_type("anim.gif"), Ok(FileType::Image));
    assert_eq!(identify_file_type("movie.mp4"), Ok(FileType::Video));
    assert_eq!(identify_file_type("movie.avi"), Ok(FileType::Video));
    assert_eq!(identify_file_type("movie.mov"), Ok(FileType::Video));
    assert_eq!(identify_file_type("song.mp3"), Ok(FileType::Audio));
    assert_eq!(identify_file_type("song.wav"), Ok(FileType::Audio));
    assert_eq!(identify_file_type("song.ogg"), Ok(FileType::Audio));
}

#[test]
fn classify_folds_ascii_case() {
    assert_eq!(identify_file_type("PHOTO.JPG"), Ok(FileType::Image));
    assert_eq!(identify_file_type("Mixed.Mp4"), Ok(FileType::Video));
    assert_eq!(identify_file_type("UPPER.TXT"), Ok(FileType::Doc));
}

#[test]
fn classify_uses_final_segment() {
    assert_eq!(identify_file_type("dir.d/clip.mov"), Ok(FileType::Video));
    assert_eq!(identify_file_type("a/b/c/song.ogg"), Ok(FileType::Audio));
}

#[test]
fn classify_ignores_trailing_separators() {
    assert_eq!(identify_file_type("foo.txt/"), Ok(FileType::Doc));
    assert_eq!(identify_file_type("dir/clip.mov///"), Ok(FileType::Video));
    assert_eq!(identify_file_type("/"), Err(Error::UnsupportedFileType));
    assert_eq!(identify_file_type("dir///"), Err(Error::UnsupportedFileType));
}

#[test]
fn classify_rejects_unknown_extension() {
    assert_eq!(identify_file_type("archive.xyz"), Err(Error::UnsupportedFileType));
    assert_eq!(identify_file_type("noextension"), Err(Error::UnsupportedFileType));
    assert_eq!(identify_file_type(""), Err(Error::UnsupportedFileType));
    assert_eq!(identify_file_type(".hidden"), Err(Error::UnsupportedFileType));
    assert_eq!(identify_file_type("dir.txt/plain"), Err(Error::UnsupportedFileType));
}

#[test]
fn chunk_count_is_ceiling() {
    let data: Vec<u8> = (0u8..10).collect();
    let rs = chunk_file(&data, 4).unwrap();
    assert_eq!(rs.len(), 3);

    let even: Vec<u8> = (0u8..8).collect();
    assert_eq!(chunk_file(&even, 4).unwrap().len(), 2);

    let small: Vec<u8> = (0u8..3).collect();
    assert_eq!(chunk_file(&small, 4).unwrap().len(), 1);

    let empty: Vec<u8> = Vec::new();
    assert_eq!(chunk_file(&empty, 4).unwrap().len(), 0);
}

#[test]
fn chunk_indices_are_ordered() {
    let data: Vec<u8> = (0u8..=255).collect();
    let rs = chunk_file(&data, 7).unwrap();
    assert_eq!(rs.len(), 37);
    for (i, r) in rs.iter().enumerate() {
        assert_eq!(r.index, i);
    }
}

#[test]
fn chunk_hashes_recompute() {
    let data: Vec<u8> = (0u8..100).map(|b| b.wrapping_mul(37)).collect();
    let size = 16usize;
    let rs = chunk_file(&data, size).unwrap();
    assert_eq!(rs.len(), 7);
    for (i, r) in rs.iter().enumerate() {
        let start = i * size;
        let end = (start + size).min(data.len());
        assert_eq!(r.hash, sha256_hex(&data[start..end]));
    }
    // the final block holds only the remainder
    assert_eq!(rs[6].hash, sha256_hex(&data[96..100]));
}

#[test]
fn chunk_hash_of_empty_block_stream() {
    let one = [42u8];
    let rs = chunk_file(&one, 1024).unwrap();
    assert_eq!(rs.len(), 1);
    assert_eq!(rs[0].index, 0);
    // exact digest of the single byte 42
    assert_eq!(rs[0].hash, sha256_hex(&one));
    assert_eq!(rs[0].hash.len(), 64);
}

#[test]
fn compress_roundtrip() {
    let data = b"compressible compressible compressible bytes".to_vec();
    let compressed = compress_file(&data, &FileType::Doc).unwrap();
    assert_ne!(compressed, data);
    assert_eq!(decompress(&compressed), data);
}

#[test]
fn compress_is_deterministic() {
    let data = b"same input, same stream".to_vec();
    let a = compress_file(&data, &FileType::Image).unwrap();
    let b = compress_file(&data, &FileType::Audio).unwrap();
    assert_eq!(a, b);
}

#[test]
fn encrypt_roundtrip() {
    let plain = b"the compressed payload".to_vec();
    let (ciphertext, key, nonce) = encrypt_file(&plain).unwrap();
    assert_eq!(key.len(), 32);
    assert_eq!(nonce.len(), 12);
    assert_eq!(ciphertext.len(), plain.len() + 16);
    assert_ne!(&ciphertext[..plain.len()], &plain[..]);

    let cipher = aes_gcm::Aes256Gcm::new_from_slice(&key).unwrap();
    let recovered = cipher
        .decrypt(aes_gcm::Nonce::from_slice(&nonce), ciphertext.as_slice())
        .unwrap();
    assert_eq!(recovered, plain);
}

#[test]
fn key_nonce_pairs_are_fresh() {
    let mut seen: HashSet<(Vec<u8>, Vec<u8>)> = HashSet::new();
    let zero_key = vec![0u8; 32];
    let zero_nonce = vec![0u8; 12];
    for _ in 0..1000 {
        let (_ciphertext, key, nonce) = encrypt_file(b"x").unwrap();
        assert_ne!(key, zero_key);
        assert_ne!(nonce, zero_nonce);
        assert!(seen.insert((key, nonce)), "key/nonce pair repeated");
    }
    assert_eq!(seen.len(), 1000);
}

#[test]
fn manifest_takes_base_name() {
    let chunks: Vec<ChunkRecord> = Vec::new();
    let key = [7u8; 32];
    let nonce = [9u8; 12];
    let m = create_file_info("a/b/c.txt", FileType::Doc, &chunks, &key, &nonce);
    assert_eq!(m.original_name, "c.txt");
    assert_eq!(m.file_type, FileType::Doc);
    assert_eq!(m.encryption_key, key.to_vec());
    assert_eq!(m.nonce, nonce.to_vec());
    assert_eq!(m.chunks.len(), 0);

    let m2 = create_file_info("plain.ogg", FileType::Audio, &chunks, &key, &nonce);
    assert_eq!(m2.original_name, "plain.ogg");

    // trailing separators are ignored, as the platform path routines do
    let m3 = create_file_info("dir/name.mp3///", FileType::Audio, &chunks, &key, &nonce);
    assert_eq!(m3.original_name, "name.mp3");
    let m4 = create_file_info("foo.txt/", FileType::Doc, &chunks, &key, &nonce);
    assert_eq!(m4.original_name, "foo.txt");
}

#[test]
fn log_entry_exact_text() {
    let chunks = vec![ChunkRecord { index: 0, hash: String::from("ab12") }];
    let key: Vec<u8> = vec![0, 1, 255];
    let nonce: Vec<u8> = vec![3, 4];
    let m = FileManifest {
        original_name: String::from("a.txt"),
        file_type: FileType::Doc,
        chunks,
        encryption_key: key,
        nonce,
    };
    let line = log_entry(&m);
    assert_eq!(
        line,
        "{\"original_name\":\"a.txt\",\"file_type\":\"Doc\",\"chunks\":[{\"index\":0,\"hash\":\"ab12\"}],\"encryption_key\":[0,1,255],\"nonce\":[3,4]}"
    );
}

#[test]
fn log_entry_escapes_name() {
    let m = FileManifest {
        original_name: String::from("we\"ird\\na\nme.txt"),
        file_type: FileType::Image,
        chunks: Vec::new(),
        encryption_key: vec![1],
        nonce: vec![2],
    };
    let line = log_entry(&m);
    assert!(!line.contains('\n'));
    let value: serde_json::Value = serde_json::from_str(&line).unwrap();
    assert_eq!(value["original_name"], "we\"ird\\na\nme.txt");
    assert_eq!(value["file_type"], "Image");
}

#[test]
fn log_entry_parses_as_json() {
    let data = b"log me".to_vec();
    let (m, line) = file_distrib("keep.png", &data, 4).unwrap();
    assert!(!line.contains('\n'));
    assert_eq!(line, log_entry(&m));
    let value: serde_json::Value = serde_json::from_str(&line).unwrap();
    assert_eq!(value["original_name"], "keep.png");
    assert_eq!(value["file_type"], "Image");
    assert_eq!(value["encryption_key"].as_array().unwrap().len(), 32);
    assert_eq!(value["nonce"].as_array().unwrap().len(), 12);
    let chunks = value["chunks"].as_array().unwrap();
    assert_eq!(chunks.len(), m.chunks.len());
    for (i, c) in chunks.iter().enumerate() {
        assert_eq!(c["index"].as_u64().unwrap(), i as u64);
        assert_eq!(c["hash"].as_str().unwrap().len(), 64);
    }
}

#[test]
fn two_ingestions_two_records() {
    let (_m1, line1) = file_distrib("one.txt", b"first file", 8).unwrap();
    let (_m2, line2) = file_distrib("two.mp3", b"second file", 8).unwrap();
    for line in [&line1, &line2] {
        assert!(!line.contains('\n'));
        let value: serde_json::Value = serde_json::from_str(line).unwrap();
        assert!(value.is_object());
    }
    // a failed ingestion yields no record at all
    assert!(matches!(
        file_distrib("three.xyz", b"third file", 8),
        Err(Error::UnsupportedFileType)
    ));
}

#[test]
fn pipeline_end_to_end() {
    let data: Vec<u8> = (0u8..=200).collect();
    let (m, line) = file_distrib("dir/video.MOV", &data, 5).unwrap();
    assert_eq!(m.original_name, "video.MOV");
    assert_eq!(m.file_type, FileType::Video);
    assert_eq!(m.encryption_key.len(), 32);
    assert_eq!(m.nonce.len(), 12);
    // ciphertext length is the compressed length plus the 16-byte tag
    let compressed = compress_file(&data, &FileType::Video).unwrap();
    let ct_len = compressed.len() + 16;
    assert_eq!(m.chunks.len(), (ct_len + 4) / 5);
    for (i, r) in m.chunks.iter().enumerate() {
        assert_eq!(r.index, i);
        assert_eq!(r.hash.len(), 64);
    }
    assert_eq!(line, log_entry(&m));
}

#[test]
fn pipeline_rejects_unsupported_before_work() {
    assert!(matches!(
        file_distrib("data.xyz", b"bytes", 1024),
        Err(Error::UnsupportedFileType)
    ));
    assert_eq!(identify_file_type("data.xyz"), Err(Error::UnsupportedFileType));
}

#[test]
fn counter_updates() {
    let mut c = Counter { value: 0 };
    c.update(Message::Increment);
    assert_eq!(c.value, 1);
    c.update(Message::Increment);
    assert_eq!(c.value, 2);
    c.update(Message::Decrement);
    assert_eq!(c.value, 1);
    Counter::run();
}
