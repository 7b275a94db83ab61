//! Fixed-width records of the container and their little-endian decoders.

use vstd::bytes::{spec_u32_from_le_bytes, u32_from_le_bytes};
use vstd::prelude::*;
use vstd::slice::slice_subrange;

verus! {

/// One entry of the Packages section: 12 bytes, three little-endian `u32`s.
/// Names one physical package file; only `id` is consulted at read time.
#[derive(Clone, Copy, PartialEq, Eq, Structural, Debug)]
pub struct PackageRecord {
    pub id: u32,
    pub hash: u32,
    pub size: u32,
}

/// One entry of the Metas section: 28 bytes, seven little-endian `u32`s.
/// The central index entry; `path_id` and `file_id` index the path and file
/// tables as originally parsed.
#[derive(Clone, Copy, PartialEq, Eq, Structural, Debug)]
pub struct MetaRecord {
    pub hash: u32,
    pub path_id: u32,
    pub file_id: u32,
    pub package_id: u32,
    pub package_offset: u32,
    pub sz_compressed: u32,
    pub sz_original: u32,
}

/// A half-open index range into the meta table, one path record's bucket.
#[derive(Clone, Copy, PartialEq, Eq, Structural, Debug)]
pub struct FileRange {
    pub start: usize,
    pub end: usize,
}

/// One entry of the Paths section: the decoded directory text and the bucket
/// of meta-table positions that belongs to it.
#[derive(Clone, Debug)]
pub struct PathRecord {
    pub path: String,
    pub file_range: FileRange,
}

/// Mathematical image of a [`PathRecord`].
pub struct PathRecordV {
    pub path: Seq<char>,
    pub start: int,
    pub end: int,
}

impl View for PathRecord {
    type V = PathRecordV;

    open spec fn view(&self) -> PathRecordV {
        PathRecordV {
            path: self.path@,
            start: self.file_range.start as int,
            end: self.file_range.end as int,
        }
    }
}

/// The `u32` stored little-endian at byte offset `i`.
pub open spec fn spec_u32_at(bytes: Seq<u8>, i: int) -> u32 {
    spec_u32_from_le_bytes(bytes.subrange(i, i + 4))
}

/// The package record encoded by a 12-byte chunk.
pub open spec fn spec_package_record(bytes: Seq<u8>) -> PackageRecord {
    PackageRecord {
        id: spec_u32_at(bytes, 0),
        hash: spec_u32_at(bytes, 4),
        size: spec_u32_at(bytes, 8),
    }
}

/// The whole Packages section, one record per 12-byte chunk, in input order.
pub open spec fn spec_package_table(bytes: Seq<u8>) -> Seq<PackageRecord> {
    Seq::new((bytes.len() / 12) as nat, |i: int| spec_package_record(bytes.subrange(12 * i, 12 * i + 12)))
}

/// The meta record encoded by a 28-byte chunk.
pub open spec fn spec_meta_record(bytes: Seq<u8>) -> MetaRecord {
    MetaRecord {
        hash: spec_u32_at(bytes, 0),
        path_id: spec_u32_at(bytes, 4),
        file_id: spec_u32_at(bytes, 8),
        package_id: spec_u32_at(bytes, 12),
        package_offset: spec_u32_at(bytes, 16),
        sz_compressed: spec_u32_at(bytes, 20),
        sz_original: spec_u32_at(bytes, 24),
    }
}

/// The whole Metas section, one record per 28-byte chunk, in input order.
pub open spec fn spec_meta_table(bytes: Seq<u8>) -> Seq<MetaRecord> {
    Seq::new((bytes.len() / 28) as nat, |i: int| spec_meta_record(bytes.subrange(28 * i, 28 * i + 28)))
}

/// Reads the `u32` stored little-endian at `pos`.
pub(crate) fn read_u32_at(bytes: &[u8], pos: usize) -> (x: u32)
    requires
        pos + 4 <= bytes@.len(),
    ensures
        x == spec_u32_at(bytes@, pos as int),
{
    proof {
        vstd::slice::axiom_spec_len(bytes);
    }
    u32_from_le_bytes(slice_subrange(bytes, pos, pos + 4))
}

impl PackageRecord {
    /// Decodes one package record from its 12-byte chunk.
    pub fn from_le_bytes(bytes: &[u8]) -> (r: PackageRecord)
        requires
            bytes@.len() == 12,
        ensures
            r == spec_package_record(bytes@),
    {
        PackageRecord {
            id: read_u32_at(bytes, 0),
            hash: read_u32_at(bytes, 4),
            size: read_u32_at(bytes, 8),
        }
    }

    /// Decodes a whole Packages section, chunk by chunk, preserving input
    /// order.
    pub fn many_from_le_bytes(bytes: &[u8]) -> (r: Vec<PackageRecord>)
        requires
            bytes@.len() % 12 == 0,
        ensures
            r@ == spec_package_table(bytes@),
    {
        let n: usize = bytes.len() / 12;
        proof {
            assert(bytes@.len() == 12 * (bytes@.len() / 12) + bytes@.len() % 12);
        }
        let mut r: Vec<PackageRecord> = Vec::new();
        let mut i: usize = 0;
        while i < n
            invariant
                i <= n,
                bytes@.len() <= usize::MAX,
                12 * (n as int) == bytes@.len(),
                r@.len() == i,
                forall|j: int|
                    0 <= j < i ==> r@[j] == spec_package_record(
                        bytes@.subrange(12 * j, 12 * j + 12),
                    ),
            decreases n - i,
        {
            let chunk = slice_subrange(bytes, 12 * i, 12 * i + 12);
            r.push(PackageRecord::from_le_bytes(chunk));
            i = i + 1;
        }
        assert(r@ =~= spec_package_table(bytes@));
        r
    }
}

impl MetaRecord {
    /// Decodes one meta record from its 28-byte chunk.
    pub fn from_le_bytes(bytes: &[u8]) -> (r: MetaRecord)
        requires
            bytes@.len() == 28,
        ensures
            r == spec_meta_record(bytes@),
    {
        MetaRecord {
            hash: read_u32_at(bytes, 0),
            path_id: read_u32_at(bytes, 4),
            file_id: read_u32_at(bytes, 8),
            package_id: read_u32_at(bytes, 12),
            package_offset: read_u32_at(bytes, 16),
            sz_compressed: read_u32_at(bytes, 20),
            sz_original: read_u32_at(bytes, 24),
        }
    }

    /// Decodes a whole Metas section, chunk by chunk, preserving input order.
    pub fn many_from_le_bytes(bytes: &[u8]) -> (r: Vec<MetaRecord>)
        requires
            bytes@.len() % 28 == 0,
        ensures
            r@ == spec_meta_table(bytes@),
    {
        let n: usize = bytes.len() / 28;
        proof {
            assert(bytes@.len() == 28 * (bytes@.len() / 28) + bytes@.len() % 28);
        }
        let mut r: Vec<MetaRecord> = Vec::new();
        let mut i: usize = 0;
        while i < n
            invariant
                i <= n,
                bytes@.len() <= usize::MAX,
                28 * (n as int) == bytes@.len(),
                r@.len() == i,
                forall|j: int|
                    0 <= j < i ==> r@[j] == spec_meta_record(
                        bytes@.subrange(28 * j, 28 * j + 28),
                    ),
            decreases n - i,
        {
            let chunk = slice_subrange(bytes, 28 * i, 28 * i + 28);
            r.push(MetaRecord::from_le_bytes(chunk));
            i = i + 1;
        }
        assert(r@ =~= spec_meta_table(bytes@));
        r
    }
}

impl PathRecord {
    /// Builds a path record from its decoded text and bucket bounds.
    pub fn from_raw_parts(path: String, start: usize, end: usize) -> (r: PathRecord)
        ensures
            r@.path == path@,
            r@.start == start as int,
            r@.end == end as int,
    {
        PathRecord { path, file_range: FileRange { start, end } }
    }
}

} // verus!
