//! Parsers for the two encrypted variable-length sections, working on their
//! decrypted bytes.
//!
//! Both sections are padded with trailing zero bytes to a cipher block
//! boundary; the true content ends at the last non-zero byte.  The Paths
//! section is a list of records `start u32, length u32, NUL-terminated text`;
//! the Files section is a flat list of NUL-separated texts whose position is
//! the file id.

use crate::errors::PadError;
use crate::records::{read_u32_at, spec_u32_at, PathRecord, PathRecordV};
use crate::text::{euc_kr_decode, euc_kr_of};
use vstd::prelude::*;
use vstd::slice::{slice_index_get, slice_subrange};

verus! {

/// The mathematical images of a sequence of path records.
pub open spec fn path_views(s: Seq<PathRecord>) -> Seq<PathRecordV> {
    s.map_values(|p: PathRecord| p@)
}

/// The texts of a sequence of owned strings.
pub open spec fn string_views(s: Seq<String>) -> Seq<Seq<char>> {
    s.map_values(|x: String| x@)
}

/// Each raw piece decoded with the legacy text decoder.
pub open spec fn decoded_pieces(ps: Seq<Seq<u8>>) -> Seq<Seq<char>> {
    ps.map_values(|p: Seq<u8>| euc_kr_of(p))
}

/// Index of the last non-zero byte, or `-1` when every byte is zero.
pub open spec fn spec_last_nonzero(bytes: Seq<u8>) -> int
    decreases bytes.len(),
{
    if bytes.len() == 0 {
        -1
    } else if bytes[bytes.len() - 1] != 0 {
        bytes.len() - 1
    } else {
        spec_last_nonzero(bytes.drop_last())
    }
}

/// Index of the first zero byte at or after `i`, if any.
pub open spec fn spec_find_nul(bytes: Seq<u8>, i: int) -> Option<int>
    decreases bytes.len() - i,
{
    if i < 0 || i >= bytes.len() {
        None
    } else if bytes[i] == 0 {
        Some(i)
    } else {
        spec_find_nul(bytes, i + 1)
    }
}

/// Parses path records from `pos` to the end of the trimmed region: each
/// record is a bucket start, a bucket length, and a NUL-terminated text.
/// `None` means the region breaks off mid-record.
pub open spec fn spec_parse_paths_at(bytes: Seq<u8>, pos: int) -> Option<Seq<PathRecordV>>
    decreases bytes.len() - pos,
{
    if pos == bytes.len() {
        Some(Seq::empty())
    } else if !(0 <= pos && pos + 8 <= bytes.len()) {
        None
    } else {
        let start = spec_u32_at(bytes, pos);
        let blen = spec_u32_at(bytes, pos + 4);
        if start as int + blen as int > usize::MAX as int {
            None
        } else {
        match spec_find_nul(bytes, pos + 8) {
            None => None,
            Some(z) => if pos + 8 <= z && z + 1 <= bytes.len() {
                match spec_parse_paths_at(bytes, z + 1) {
                    None => None,
                    Some(rest) => Some(
                        seq![
                            PathRecordV {
                                path: euc_kr_of(bytes.subrange(pos + 8, z)),
                                start: start as int,
                                end: start as int + blen as int,
                            },
                        ] + rest,
                    ),
                }
            } else {
                None
            },
        }
        }
    }
}

/// Splits the region from `pos` on at every zero byte, keeping empty pieces,
/// as the flat file-name list is stored.
pub open spec fn spec_split_nul_at(bytes: Seq<u8>, pos: int) -> Seq<Seq<u8>>
    decreases bytes.len() - pos,
{
    if !(0 <= pos <= bytes.len()) {
        Seq::empty()
    } else {
        match spec_find_nul(bytes, pos) {
            None => seq![bytes.subrange(pos, bytes.len() as int)],
            Some(z) => if pos <= z && z + 1 <= bytes.len() {
                seq![bytes.subrange(pos, z)] + spec_split_nul_at(bytes, z + 1)
            } else {
                Seq::empty()
            },
        }
    }
}

/// The path table encoded by a decrypted Paths section, padding included:
/// an all-zero section holds no records; a section whose last non-zero byte
/// is its final byte lost its terminator and is malformed; otherwise the
/// content reaches one byte past the last non-zero byte (the final
/// terminator) and is parsed record by record.
pub open spec fn spec_paths_of(section: Seq<u8>) -> Option<Seq<PathRecordV>> {
    let lnz = spec_last_nonzero(section);
    if lnz == -1 {
        Some(Seq::empty())
    } else if lnz == section.len() - 1 {
        None
    } else {
        spec_parse_paths_at(section.take(lnz + 2), 0)
    }
}

/// The file table encoded by a decrypted Files section, padding included:
/// the content reaches up to the last non-zero byte and splits on zero
/// bytes; an all-zero section holds no names.
pub open spec fn spec_files_of(section: Seq<u8>) -> Seq<Seq<char>> {
    let lnz = spec_last_nonzero(section);
    if lnz == -1 {
        Seq::empty()
    } else {
        decoded_pieces(spec_split_nul_at(section.take(lnz + 1), 0))
    }
}

/// Finds the last non-zero byte, scanning from the end.
fn find_last_nonzero(bytes: &[u8]) -> (r: Option<usize>)
    ensures
        match r {
            None => spec_last_nonzero(bytes@) == -1,
            Some(i) => i == spec_last_nonzero(bytes@) && i < bytes@.len(),
        },
{
    proof {
        vstd::slice::axiom_spec_len(bytes);
    }
    let len: usize = bytes.len();
    proof {
        assert(bytes@.take(len as int) =~= bytes@);
    }
    let mut i: usize = len;
    while i > 0
        invariant
            i <= len,
            len == bytes@.len(),
            spec_last_nonzero(bytes@) == spec_last_nonzero(bytes@.take(i as int)),
        decreases i,
    {
        proof {
            assert(bytes@.take(i as int).drop_last() =~= bytes@.take(i - 1));
        }
        if *slice_index_get(bytes, i - 1) != 0 {
            return Some(i - 1);
        }
        i = i - 1;
    }
    proof {
        assert(bytes@.take(0) =~= Seq::<u8>::empty());
    }
    None
}

/// Finds the first zero byte at or after `from`.
fn find_nul(bytes: &[u8], from: usize) -> (r: Option<usize>)
    requires
        from <= bytes@.len(),
    ensures
        match r {
            None => spec_find_nul(bytes@, from as int) is None,
            Some(z) => spec_find_nul(bytes@, from as int) == Some(z as int) && from <= z
                < bytes@.len(),
        },
{
    proof {
        vstd::slice::axiom_spec_len(bytes);
    }
    let len: usize = bytes.len();
    let mut z: usize = from;
    while z < len
        invariant
            from <= z <= len,
            len == bytes@.len(),
            spec_find_nul(bytes@, from as int) == spec_find_nul(bytes@, z as int),
        decreases len - z,
    {
        if *slice_index_get(bytes, z) == 0 {
            return Some(z);
        }
        z = z + 1;
    }
    None
}

/// Parses an already-trimmed Paths region, record by record.
fn parse_paths_region(bytes: &[u8]) -> (r: Result<Vec<PathRecord>, PadError>)
    ensures
        r is Ok <==> spec_parse_paths_at(bytes@, 0) is Some,
        r matches Ok(v) ==> Some(path_views(v@)) == spec_parse_paths_at(bytes@, 0),
        r is Err ==> r == Err::<Vec<PathRecord>, PadError>(PadError::Malformed),
{
    proof {
        vstd::slice::axiom_spec_len(bytes);
    }
    let len: usize = bytes.len();
    let mut pos: usize = 0;
    let mut table: Vec<PathRecord> = Vec::new();
    while pos < len
        invariant
            pos <= len,
            len == bytes@.len(),
            spec_parse_paths_at(bytes@, 0) == match spec_parse_paths_at(bytes@, pos as int) {
                None => None::<Seq<PathRecordV>>,
                Some(rest) => Some(path_views(table@) + rest),
            },
        decreases len - pos,
    {
        if len - pos < 8 {
            return Err(PadError::Malformed);
        }
        let start32 = read_u32_at(bytes, pos);
        let blen32 = read_u32_at(bytes, pos + 4);
        let end64: u64 = start32 as u64 + blen32 as u64;
        if end64 > usize::MAX as u64 {
            return Err(PadError::Malformed);
        }
        let z = match find_nul(bytes, pos + 8) {
            None => { return Err(PadError::Malformed) },
            Some(z) => z,
        };
        let name = euc_kr_decode(slice_subrange(bytes, pos + 8, z));
        let start: usize = start32 as usize;
        let end: usize = end64 as usize;
        let record = PathRecord::from_raw_parts(name, start, end);
        proof {
            let rec = record;
            assert(path_views(table@.push(rec)) =~= path_views(table@).push(rec@));
            match spec_parse_paths_at(bytes@, z + 1) {
                Some(rest) => {
                    assert(path_views(table@) + (seq![rec@] + rest) =~= path_views(table@).push(
                        rec@,
                    ) + rest);
                },
                None => {},
            }
        }
        table.push(record);
        pos = z + 1;
    }
    proof {
        assert(path_views(table@) + Seq::<PathRecordV>::empty() =~= path_views(table@));
    }
    Ok(table)
}

/// Parses an already-trimmed Files region: NUL-separated names in file-id
/// order.
fn parse_files_region(bytes: &[u8]) -> (r: Vec<String>)
    ensures
        string_views(r@) == decoded_pieces(spec_split_nul_at(bytes@, 0)),
{
    proof {
        vstd::slice::axiom_spec_len(bytes);
    }
    let len: usize = bytes.len();
    let ghost target = decoded_pieces(spec_split_nul_at(bytes@, 0));
    let mut pos: usize = 0;
    let mut table: Vec<String> = Vec::new();
    loop
        invariant
            pos <= len,
            len == bytes@.len(),
            target == decoded_pieces(spec_split_nul_at(bytes@, 0)),
            target == string_views(table@) + decoded_pieces(spec_split_nul_at(bytes@, pos as int)),
        decreases len - pos,
    {
        match find_nul(bytes, pos) {
            None => {
                let name = euc_kr_decode(slice_subrange(bytes, pos, len));
                proof {
                    assert(decoded_pieces(spec_split_nul_at(bytes@, pos as int)) =~= seq![name@]);
                    assert(string_views(table@.push(name)) =~= string_views(table@).push(name@));
                    assert(string_views(table@).push(name@) =~= string_views(table@)
                        + seq![name@]);
                }
                table.push(name);
                proof {
                    assert(string_views(table@) =~= target);
                }
                return table;
            },
            Some(z) => {
                let name = euc_kr_decode(slice_subrange(bytes, pos, z));
                proof {
                    let tail = decoded_pieces(spec_split_nul_at(bytes@, z + 1));
                    assert(decoded_pieces(
                        seq![bytes@.subrange(pos as int, z as int)] + spec_split_nul_at(
                            bytes@,
                            z + 1,
                        ),
                    ) =~= seq![name@] + tail);
                    assert(string_views(table@.push(name)) =~= string_views(table@).push(name@));
                    assert(string_views(table@) + (seq![name@] + tail) =~= string_views(
                        table@,
                    ).push(name@) + tail);
                }
                table.push(name);
                pos = z + 1;
            },
        }
    }
}

/// Decodes a decrypted Paths section: trims the zero padding, then parses
/// the records.  Fails exactly when the content breaks off mid-record or
/// lacks its final terminator.
pub fn decode_path_section(section: &[u8]) -> (r: Result<Vec<PathRecord>, PadError>)
    ensures
        r is Ok <==> spec_paths_of(section@) is Some,
        r matches Ok(v) ==> Some(path_views(v@)) == spec_paths_of(section@),
        r is Err ==> r == Err::<Vec<PathRecord>, PadError>(PadError::Malformed),
{
    proof {
        vstd::slice::axiom_spec_len(section);
    }
    match find_last_nonzero(section) {
        None => Ok(Vec::new()),
        Some(i) => {
            if i == section.len() - 1 {
                Err(PadError::Malformed)
            } else {
                parse_paths_region(slice_subrange(section, 0, i + 2))
            }
        },
    }
}

/// Decodes a decrypted Files section: trims the zero padding, then splits
/// the content on zero bytes and decodes each name.
pub fn decode_file_section(section: &[u8]) -> (r: Vec<String>)
    ensures
        string_views(r@) == spec_files_of(section@),
{
    proof {
        vstd::slice::axiom_spec_len(section);
    }
    match find_last_nonzero(section) {
        None => Vec::new(),
        Some(i) => parse_files_region(slice_subrange(section, 0, i + 1)),
    }
}

} // verus!
