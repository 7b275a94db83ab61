use pad::meta::MetaFile;
use pad::pipeline::{has_dbss_extension, needs_decryption, process_decrypted};
use pad::records::MetaRecord;
use pad::{PadError, ReadLevel};

fn record(sz_compressed: u32, sz_original: u32) -> MetaRecord {
    MetaRecord {
        hash: 0,
        path_id: 0,
        file_id: 0,
        package_id: 1,
        package_offset: 0,
        sz_compressed,
        sz_original,
    }
}

#[test]
fn raw_reads_are_identity() {
    let buf = vec![9u8, 8, 7, 6, 0x6E];
    let rec = record(5, 5);
    let once = process_decrypted(&rec, &ReadLevel::Raw, "a.bin", buf.clone()).expect("raw read error");
    let twice = process_decrypted(&rec, &ReadLevel::Raw, "a.bin", buf.clone()).expect("raw read error");
    assert_eq!(once, buf);
    assert_eq!(once, twice);
    assert_eq!(once.len(), rec.sz_compressed as usize);
}

#[test]
fn decrypt_level_passes_buffer_through() {
    let buf = vec![1u8, 2, 3];
    let rec = record(3, 3);
    let out = process_decrypted(&rec, &ReadLevel::Decrypt, "a.bin", buf.clone()).expect("decrypt error");
    assert_eq!(out, buf);
}

#[test]
fn decompress_growing_payload() {
    // a payload the size fields mark as compressed
    let data: Vec<u8> = (0u8..=255).cycle().take(2000).collect();
    let stream = quicklz::compress(&data, quicklz::CompressionLevel::Lvl1);
    assert!(stream.len() < data.len());
    let rec = record(stream.len() as u32, data.len() as u32);
    let out = process_decrypted(&rec, &ReadLevel::Decompress, "a.bin", stream).expect("decompress error");
    assert_eq!(out.len(), rec.sz_original as usize);
    assert_eq!(out, data);
}

#[test]
fn decompress_sentinel_byte() {
    // equal size fields, but the buffer opens with the codec's header
    // sentinel: an uncompressed-mode stream in the codec's own framing
    let body = b"0123456789";
    let mut stream = vec![0x6Eu8];
    stream.extend_from_slice(&((9 + body.len()) as u32).to_le_bytes());
    stream.extend_from_slice(&(body.len() as u32).to_le_bytes());
    stream.extend_from_slice(body);
    let rec = record(stream.len() as u32, body.len() as u32);
    let out = process_decrypted(&rec, &ReadLevel::Decompress, "a.bin", stream).expect("decompress error");
    assert_eq!(out, body);
    assert_eq!(out.len(), rec.sz_original as usize);
}

#[test]
fn sentinel_ignored_for_reserved_extension() {
    // same sentinel-opening stream, but the file is the reserved kind:
    // the buffer passes through untouched but for the truncation step
    let body = b"0123456789";
    let mut stream = vec![0x6Eu8];
    stream.extend_from_slice(&((9 + body.len()) as u32).to_le_bytes());
    stream.extend_from_slice(&(body.len() as u32).to_le_bytes());
    stream.extend_from_slice(body);
    let len = stream.len() as u32;
    let rec = record(len, len);
    let out = process_decrypted(&rec, &ReadLevel::Decompress, "model.dbss", stream.clone())
        .expect("pass-through error");
    assert_eq!(out, stream);
}

#[test]
fn growth_triggers_even_for_reserved_extension() {
    // the size fields outrank the extension: sz_original > sz_compressed
    // decompresses whatever the file name says
    let data: Vec<u8> = (0u8..=255).cycle().take(2000).collect();
    let stream = quicklz::compress(&data, quicklz::CompressionLevel::Lvl1);
    let rec = record(stream.len() as u32, data.len() as u32);
    let out = process_decrypted(&rec, &ReadLevel::Decompress, "model.dbss", stream)
        .expect("decompress error");
    assert_eq!(out, data);
}

#[test]
fn decompress_untriggered_truncates() {
    // stored payload longer than the logical content, no sentinel: the tail
    // is alignment padding and is cut off
    let buf = vec![5u8, 6, 7, 8, 9, 10];
    let rec = record(6, 4);
    let out = process_decrypted(&rec, &ReadLevel::Decompress, "a.bin", buf).expect("truncate error");
    assert_eq!(out, vec![5u8, 6, 7, 8]);
}

#[test]
fn decompress_corrupt_stream_fails() {
    // sentinel byte but nothing behind it: the codec cannot read a header
    let buf = vec![0x6Eu8];
    let rec = record(1, 1);
    let r = process_decrypted(&rec, &ReadLevel::Decompress, "a.bin", buf);
    assert!(matches!(r, Err(PadError::Decompress)));
}

#[test]
fn decompress_size_mismatch_fails() {
    // a well-formed stream whose declared size disagrees with the record
    let data: Vec<u8> = (0u8..=255).cycle().take(2000).collect();
    let stream = quicklz::compress(&data, quicklz::CompressionLevel::Lvl1);
    let rec = record(stream.len() as u32, (data.len() + 500) as u32);
    let r = process_decrypted(&rec, &ReadLevel::Decompress, "a.bin", stream);
    assert!(matches!(r, Err(PadError::SizeMismatch)));
}

#[test]
fn reserved_extension_rules() {
    assert!(has_dbss_extension("model.dbss"));
    assert!(has_dbss_extension("a/b/model.dbss"));
    assert!(has_dbss_extension(".hidden.dbss"));
    assert!(!has_dbss_extension(".dbss"));
    assert!(!has_dbss_extension("dir.dbss/inner"));
    assert!(!has_dbss_extension("model.dbs"));
    assert!(!has_dbss_extension("modeldbss"));
    assert!(!has_dbss_extension("model.dbsss"));
    assert!(!has_dbss_extension(""));
}

#[test]
fn decryption_decision() {
    assert!(!needs_decryption("model.xml", &ReadLevel::Raw));
    assert!(needs_decryption("model.xml", &ReadLevel::Decrypt));
    assert!(needs_decryption("model.xml", &ReadLevel::Decompress));
    assert!(!needs_decryption("model.dbss", &ReadLevel::Decrypt));
    assert!(!needs_decryption("model.dbss", &ReadLevel::Decompress));
}

fn tiny_meta(root: &str) -> MetaFile {
    MetaFile {
        root: String::from(root),
        version: 1,
        package_table: Vec::new(),
        meta_table: vec![record(1, 1)],
        path_table: vec![pad::records::PathRecord {
            path: String::from("character/"),
            file_range: pad::records::FileRange { start: 0, end: 1 },
        }],
        file_table: vec![String::from("cloud.bin")],
    }
}

#[test]
fn package_names() {
    let meta = tiny_meta("root");
    let mut rec = record(1, 1);
    rec.package_id = 1;
    assert_eq!(meta.package_name(&rec), "PAD00001.paz");
    assert_eq!(meta.package_path(&rec), "root/PAD00001.paz");
    rec.package_id = 0;
    assert_eq!(meta.package_name(&rec), "PAD00000.paz");
    rec.package_id = 123456;
    assert_eq!(meta.package_name(&rec), "PAD123456.paz");
}

#[test]
fn package_path_respects_separators() {
    let with_sep = tiny_meta("root/");
    let rec = record(1, 1);
    assert_eq!(with_sep.package_path(&rec), "root/PAD00001.paz");
    let empty = tiny_meta("");
    assert_eq!(empty.package_path(&rec), "PAD00001.paz");
}

#[test]
fn output_paths() {
    let meta = tiny_meta("root");
    let rec = record(1, 1);
    assert_eq!(meta.output_path(&rec, "out"), "out/character/cloud.bin");
    assert_eq!(meta.output_path(&rec, "out/"), "out/character/cloud.bin");
}
