use pad::meta::MetaFile;
use pad::records::{FileRange, MetaRecord, PathRecord};
use pad::PadError;

fn record(path_id: u32, file_id: u32) -> MetaRecord {
    MetaRecord {
        hash: 0,
        path_id,
        file_id,
        package_id: 1,
        package_offset: 0,
        sz_compressed: 0,
        sz_original: 0,
    }
}

fn path(name: &str, start: usize, end: usize) -> PathRecord {
    PathRecord {
        path: String::from(name),
        file_range: FileRange { start, end },
    }
}

/// Two directories, four files: rows 0..2 belong to "character/",
/// rows 2..4 to "effect/ai_dark/".
fn sample() -> MetaFile {
    MetaFile {
        root: String::new(),
        version: 1,
        package_table: Vec::new(),
        meta_table: vec![record(0, 0), record(0, 1), record(1, 2), record(1, 3)],
        path_table: vec![path("character/", 0, 2), path("effect/ai_dark/", 2, 4)],
        file_table: vec![
            String::from("cloud.bin"),
            String::from("sword.xml"),
            String::from("cloud_fx.xml"),
            String::from("stone.paac"),
        ],
    }
}

#[test]
fn path_filter_keeps_other_tables() {
    let mut meta = sample();
    meta.filter_by_path("character").expect("path filter error");
    assert_eq!(meta.package_table.len(), 0);
    assert_eq!(meta.path_table.len(), 2);
    assert_eq!(meta.file_table.len(), 4);
    assert_eq!(meta.meta_table.len(), 2);
    assert_eq!(meta.meta_table[0].file_id, 0);
    assert_eq!(meta.meta_table[1].file_id, 1);
}

#[test]
fn path_filter_anchored() {
    let mut meta = sample();
    meta.filter_by_path("^effect/ai_.*k/").expect("path filter error");
    assert_eq!(meta.meta_table.len(), 2);
    assert_eq!(meta.meta_table[0].file_id, 2);
    assert_eq!(meta.meta_table[1].file_id, 3);
    // the surviving ids still index the untouched tables
    for m in &meta.meta_table {
        assert!((m.path_id as usize) < meta.path_table.len());
        assert!((m.file_id as usize) < meta.file_table.len());
    }
}

#[test]
fn path_filter_concatenates_in_path_order() {
    let mut meta = sample();
    // both paths match; buckets come back in path-table order
    meta.filter_by_path("/").expect("path filter error");
    let ids: Vec<u32> = meta.meta_table.iter().map(|m| m.file_id).collect();
    assert_eq!(ids, vec![0, 1, 2, 3]);
}

#[test]
fn file_filter_keeps_other_tables() {
    let mut meta = sample();
    meta.filter_by_file("cloud").expect("file filter error");
    assert_eq!(meta.package_table.len(), 0);
    assert_eq!(meta.path_table.len(), 2);
    assert_eq!(meta.file_table.len(), 4);
    assert_eq!(meta.meta_table.len(), 2);
    assert_eq!(meta.meta_table[0].file_id, 0);
    assert_eq!(meta.meta_table[1].file_id, 2);
}

#[test]
fn file_filter_anchored() {
    let mut meta = sample();
    meta.filter_by_file("^cloud.*fx").expect("file filter error");
    assert_eq!(meta.meta_table.len(), 1);
    assert_eq!(meta.meta_table[0].file_id, 2);
}

#[test]
fn filter_order_matters() {
    // path first: "character/" rows, then only "cloud" names among them
    let mut a = sample();
    a.filter_by_path("^character/").expect("path filter error");
    a.filter_by_file("cloud").expect("file filter error");
    let a_ids: Vec<u32> = a.meta_table.iter().map(|m| m.file_id).collect();

    // file first: all "cloud" names, then "character/"'s bucket of what is
    // left; the bucket now slices a reordered, shorter table
    let mut b = sample();
    b.filter_by_file("cloud").expect("file filter error");
    b.filter_by_path("^character/").expect("path filter error");
    let b_ids: Vec<u32> = b.meta_table.iter().map(|m| m.file_id).collect();

    assert_eq!(a_ids, vec![0]);
    assert_eq!(b_ids, vec![0, 2]);
    assert_ne!(a_ids, b_ids);
}

#[test]
fn bad_pattern_leaves_table() {
    let mut meta = sample();
    let r = meta.filter_by_path("charac(ter");
    assert!(matches!(r, Err(PadError::Pattern)));
    assert_eq!(meta.meta_table.len(), 4);
    let r = meta.filter_by_file("clo[ud");
    assert!(matches!(r, Err(PadError::Pattern)));
    assert_eq!(meta.meta_table.len(), 4);
}

#[test]
fn stale_bucket_is_an_error() {
    let mut meta = sample();
    // narrow to one row; the buckets still describe the four-row table
    meta.filter_by_file("^cloud.*fx").expect("file filter error");
    assert_eq!(meta.meta_table.len(), 1);
    let r = meta.filter_by_path("effect");
    assert!(matches!(r, Err(PadError::BadBucket)));
    // the failed call leaves the meta table in its prior state
    assert_eq!(meta.meta_table.len(), 1);
    assert_eq!(meta.meta_table[0].file_id, 2);
}

#[test]
fn referenced_path_ids_distinct() {
    let meta = sample();
    let ids = meta.referenced_path_ids();
    assert_eq!(ids, vec![0, 1]);
    let mut narrowed = sample();
    narrowed.filter_by_file("cloud").expect("file filter error");
    assert_eq!(narrowed.referenced_path_ids(), vec![0, 1]);
    narrowed.filter_by_file("fx").expect("file filter error");
    assert_eq!(narrowed.referenced_path_ids(), vec![1]);
}
