use pad::framer::split_container;
use pad::meta::MetaFile;
use pad::PadError;

fn push_u32(buf: &mut Vec<u8>, v: u32) {
    buf.extend_from_slice(&v.to_le_bytes());
}

fn package_bytes(id: u32, hash: u32, size: u32) -> Vec<u8> {
    let mut b = Vec::new();
    push_u32(&mut b, id);
    push_u32(&mut b, hash);
    push_u32(&mut b, size);
    b
}

fn meta_bytes(
    hash: u32,
    path_id: u32,
    file_id: u32,
    package_id: u32,
    package_offset: u32,
    sz_compressed: u32,
    sz_original: u32,
) -> Vec<u8> {
    let mut b = Vec::new();
    push_u32(&mut b, hash);
    push_u32(&mut b, path_id);
    push_u32(&mut b, file_id);
    push_u32(&mut b, package_id);
    push_u32(&mut b, package_offset);
    push_u32(&mut b, sz_compressed);
    push_u32(&mut b, sz_original);
    b
}

fn path_record_bytes(start: u32, len: u32, name: &str) -> Vec<u8> {
    let mut b = Vec::new();
    push_u32(&mut b, start);
    push_u32(&mut b, len);
    b.extend_from_slice(name.as_bytes());
    b.push(0);
    b
}

/// A paths section: the records, then zero padding to a block boundary.
fn paths_section(records: &[Vec<u8>]) -> Vec<u8> {
    let mut b = Vec::new();
    for r in records {
        b.extend_from_slice(r);
    }
    while b.len() % 8 != 0 {
        b.push(0);
    }
    b
}

/// A files section: NUL-separated names, then zero padding.
fn files_section(names: &[&str]) -> Vec<u8> {
    let mut b = Vec::new();
    for n in names {
        b.extend_from_slice(n.as_bytes());
        b.push(0);
    }
    while b.len() % 8 != 0 {
        b.push(0);
    }
    b
}

fn container(version: u32, packages: &[u8], metas: &[u8], paths: &[u8], files: &[u8]) -> Vec<u8> {
    let mut b = Vec::new();
    push_u32(&mut b, version);
    push_u32(&mut b, (packages.len() / 12) as u32);
    b.extend_from_slice(packages);
    push_u32(&mut b, (metas.len() / 28) as u32);
    b.extend_from_slice(metas);
    push_u32(&mut b, paths.len() as u32);
    b.extend_from_slice(paths);
    push_u32(&mut b, files.len() as u32);
    b.extend_from_slice(files);
    b
}

fn sample_container() -> Vec<u8> {
    let mut packages = package_bytes(1, 879459305, 9863228);
    packages.extend_from_slice(&package_bytes(2, 77, 88));
    // stored out of file_id order on purpose: construction must sort
    let mut metas = meta_bytes(500, 1, 2, 2, 10, 4, 4);
    metas.extend_from_slice(&meta_bytes(3751579307, 0, 0, 1, 53372, 22992, 88220));
    metas.extend_from_slice(&meta_bytes(600, 0, 1, 1, 20, 8, 6));
    let paths = paths_section(&[
        path_record_bytes(0, 2, "character/"),
        path_record_bytes(2, 1, "effect/"),
    ]);
    let files = files_section(&["zero.bin", "one.dbss", "two.xml"]);
    container(1892, &packages, &metas, &paths, &files)
}

fn sample_meta() -> MetaFile {
    let buf = sample_container();
    let s = split_container(&buf).expect("framing error");
    MetaFile::from_sections(
        String::from("root"),
        s.version,
        &s.packages,
        &s.metas,
        &s.paths,
        &s.files,
    )
    .expect("construction error")
}

#[test]
fn split_sections() {
    let buf = sample_container();
    let s = split_container(&buf).expect("framing error");
    assert_eq!(s.version, 1892);
    assert_eq!(s.packages.len(), 24);
    assert_eq!(s.metas.len(), 84);
    assert_eq!(s.paths.len() % 8, 0);
    assert_eq!(s.files.len() % 8, 0);
}

#[test]
fn split_truncated() {
    let buf = sample_container();
    // cutting anywhere inside the frame must fail, never panic
    assert!(matches!(split_container(&buf[..3]), Err(PadError::Truncated)));
    assert!(matches!(split_container(&buf[..10]), Err(PadError::Truncated)));
    assert!(matches!(
        split_container(&buf[..buf.len() - 1]),
        Err(PadError::Truncated)
    ));
}

#[test]
fn construction_tables() {
    let meta = sample_meta();
    assert_eq!(meta.version, 1892);
    assert_eq!(meta.root, "root");

    assert_eq!(meta.package_table.len(), 2);
    let p = &meta.package_table[0];
    assert_eq!(p.id, 1);
    assert_eq!(p.hash, 879459305);
    assert_eq!(p.size, 9863228);

    // sorted ascending by file_id, whatever the stored order was
    assert_eq!(meta.meta_table.len(), 3);
    let m = &meta.meta_table[0];
    assert_eq!(m.hash, 3751579307);
    assert_eq!(m.path_id, 0);
    assert_eq!(m.file_id, 0);
    assert_eq!(m.package_id, 1);
    assert_eq!(m.package_offset, 53372);
    assert_eq!(m.sz_compressed, 22992);
    assert_eq!(m.sz_original, 88220);
    assert_eq!(meta.meta_table[1].file_id, 1);
    assert_eq!(meta.meta_table[2].file_id, 2);

    assert_eq!(meta.path_table.len(), 2);
    assert_eq!(meta.path_table[0].path, "character/");
    assert_eq!(meta.path_table[0].file_range.start, 0);
    assert_eq!(meta.path_table[0].file_range.end, 2);
    assert_eq!(meta.path_table[1].path, "effect/");

    assert_eq!(meta.file_table.len(), 3);
    assert_eq!(meta.file_table[0], "zero.bin");
    assert_eq!(meta.file_table[1], "one.dbss");
    assert_eq!(meta.file_table[2], "two.xml");

    // every id is a valid index into its table
    for m in &meta.meta_table {
        assert!((m.path_id as usize) < meta.path_table.len());
        assert!((m.file_id as usize) < meta.file_table.len());
    }
    // every bucket is a half-open slice of the sorted meta table
    for p in &meta.path_table {
        assert!(p.file_range.start <= p.file_range.end);
        assert!(p.file_range.end <= meta.meta_table.len());
    }
}

#[test]
fn korean_names_decode() {
    // EUC-KR bytes 0xBE 0xC6 decode to the Hangul syllable in "아.xml"
    let mut name = vec![0xBEu8, 0xC6];
    name.extend_from_slice(b".xml");
    let mut files = name.clone();
    files.push(0);
    while files.len() % 8 != 0 {
        files.push(0);
    }
    let metas = meta_bytes(1, 0, 0, 1, 0, 1, 1);
    let paths = paths_section(&[path_record_bytes(0, 1, "character/")]);
    let buf = container(7, &package_bytes(1, 2, 3), &metas, &paths, &files);
    let s = split_container(&buf).expect("framing error");
    let meta = MetaFile::from_sections(String::new(), s.version, &s.packages, &s.metas, &s.paths, &s.files)
        .expect("construction error");
    assert_eq!(meta.file_table.len(), 1);
    assert_eq!(meta.file_table[0], "아.xml");
}

#[test]
fn malformed_paths_section() {
    // a paths section that breaks off mid-record (no terminator before the
    // content's end) is a fatal construction error
    let metas = meta_bytes(1, 0, 0, 1, 0, 1, 1);
    let files = files_section(&["a"]);
    let mut bad_paths = Vec::new();
    push_u32(&mut bad_paths, 0);
    push_u32(&mut bad_paths, 1);
    bad_paths.extend_from_slice(b"character"); // no NUL, no padding
    let buf = container(7, &package_bytes(1, 2, 3), &metas, &bad_paths, &files);
    let s = split_container(&buf).expect("framing error");
    let r = MetaFile::from_sections(String::new(), s.version, &s.packages, &s.metas, &s.paths, &s.files);
    assert!(matches!(r, Err(PadError::Malformed)));
}

#[test]
fn out_of_range_file_id() {
    // file_id 9 has no file-table entry
    let metas = meta_bytes(1, 0, 9, 1, 0, 1, 1);
    let paths = paths_section(&[path_record_bytes(0, 1, "character/")]);
    let files = files_section(&["a"]);
    let buf = container(7, &package_bytes(1, 2, 3), &metas, &paths, &files);
    let s = split_container(&buf).expect("framing error");
    let r = MetaFile::from_sections(String::new(), s.version, &s.packages, &s.metas, &s.paths, &s.files);
    assert!(matches!(r, Err(PadError::BadRecordId)));
}

#[test]
fn out_of_range_bucket() {
    // one meta row but a bucket claiming rows 0..5
    let metas = meta_bytes(1, 0, 0, 1, 0, 1, 1);
    let paths = paths_section(&[path_record_bytes(0, 5, "character/")]);
    let files = files_section(&["a"]);
    let buf = container(7, &package_bytes(1, 2, 3), &metas, &paths, &files);
    let s = split_container(&buf).expect("framing error");
    let r = MetaFile::from_sections(String::new(), s.version, &s.packages, &s.metas, &s.paths, &s.files);
    assert!(matches!(r, Err(PadError::BadBucket)));
}

#[test]
fn empty_sections_give_empty_tables() {
    let buf = container(0, &[], &[], &[], &[]);
    let s = split_container(&buf).expect("framing error");
    let meta = MetaFile::from_sections(String::new(), s.version, &s.packages, &s.metas, &s.paths, &s.files)
        .expect("construction error");
    assert_eq!(meta.package_table.len(), 0);
    assert_eq!(meta.meta_table.len(), 0);
    assert_eq!(meta.path_table.len(), 0);
    assert_eq!(meta.file_table.len(), 0);
}
