//! Block framer: walks the container buffer's four length-prefixed sections.
//!
//! The container starts with a 4-byte version, then four sections in a fixed
//! order.  Each section is prefixed by a 4-byte little-endian count; for the
//! Packages and Metas sections the count is an entry count that multiplies by
//! the fixed record width, for the Paths and Files sections the count is the
//! section's byte length itself.

use crate::errors::PadError;
use crate::records::{spec_u32_at, FileRange};
use vstd::bytes::u32_from_le_bytes;
use vstd::prelude::*;
use vstd::slice::{slice_subrange, slice_to_vec};

verus! {

/// Which of the four sections a count belongs to.
#[derive(Clone, Copy, PartialEq, Eq, Structural, Debug)]
pub enum BlockType {
    Packages,
    Metas,
    Paths,
    Files,
}

impl BlockType {
    /// How many bytes one count unit stands for: the record width for the
    /// fixed-width sections, one byte for the variable-length ones.
    pub open spec fn spec_entry_width(self) -> int {
        match self {
            BlockType::Packages => 12,
            BlockType::Metas => 28,
            BlockType::Paths => 1,
            BlockType::Files => 1,
        }
    }

    pub fn entry_width(&self) -> (w: u64)
        ensures
            w == self.spec_entry_width(),
    {
        match self {
            BlockType::Packages => 12,
            BlockType::Metas => 28,
            BlockType::Paths => 1,
            BlockType::Files => 1,
        }
    }
}

/// Where a section's body starts, given where its count field sits.
pub open spec fn spec_section_start(pos: int) -> int {
    pos + 4
}

/// Where a section's body ends: the count at `pos` times the entry width.
pub open spec fn spec_section_end(buf: Seq<u8>, pos: int, block: BlockType) -> int {
    spec_section_start(pos) + spec_u32_at(buf, pos) * block.spec_entry_width()
}

/// Whether a section whose count field sits at `pos` fits inside the buffer.
pub open spec fn spec_section_fits(buf: Seq<u8>, pos: int, block: BlockType) -> bool {
    &&& pos + 4 <= buf.len()
    &&& spec_section_end(buf, pos, block) <= buf.len()
}

/// Reads the count at `*pos`, computes the section's byte range, and advances
/// the cursor past the section.  Fails, leaving the cursor alone, exactly when
/// the buffer is shorter than the computed end.
pub fn block_range(block: BlockType, buf: &[u8], pos: &mut usize) -> (r: Result<
    FileRange,
    PadError,
>)
    requires
        *old(pos) <= buf@.len(),
    ensures
        r matches Ok(rng) ==> {
            &&& spec_section_fits(buf@, *old(pos) as int, block)
            &&& rng.start == spec_section_start(*old(pos) as int)
            &&& rng.end == spec_section_end(buf@, *old(pos) as int, block)
            &&& rng.start <= rng.end <= buf@.len()
            &&& *final(pos) == rng.end
        },
        r is Err ==> {
            &&& r == Err::<FileRange, PadError>(PadError::Truncated)
            &&& !spec_section_fits(buf@, *old(pos) as int, block)
            &&& *final(pos) == *old(pos)
        },
{
    proof {
        vstd::slice::axiom_spec_len(buf);
    }
    let len: usize = buf.len();
    if len - *pos < 4 {
        return Err(PadError::Truncated);
    }
    let count = u32_from_le_bytes(slice_subrange(buf, *pos, *pos + 4));
    let width = block.entry_width();
    proof {
        assert((count as u64) * width <= 0xffff_ffffu64 * 28) by (nonlinear_arith)
            requires
                count as u64 <= 0xffff_ffffu64,
                0 <= width <= 28,
        ;
    }
    let body: u64 = count as u64 * width;
    let start: usize = *pos + 4;
    if body > (len - start) as u64 {
        return Err(PadError::Truncated);
    }
    let end: usize = start + body as usize;
    *pos = end;
    Ok(FileRange { start, end })
}

/// The framed sections of a container buffer, still raw: the Paths and Files
/// bodies are encrypted as stored.
pub struct Sections {
    pub version: u32,
    pub packages: Vec<u8>,
    pub metas: Vec<u8>,
    pub paths: Vec<u8>,
    pub files: Vec<u8>,
}

/// Offset of the Packages count field: right after the version.
pub open spec fn spec_packages_pos(buf: Seq<u8>) -> int {
    4
}

/// Offset of the Metas count field: right after the Packages section.
pub open spec fn spec_metas_pos(buf: Seq<u8>) -> int {
    spec_section_end(buf, spec_packages_pos(buf), BlockType::Packages)
}

/// Offset of the Paths count field: right after the Metas section.
pub open spec fn spec_paths_pos(buf: Seq<u8>) -> int {
    spec_section_end(buf, spec_metas_pos(buf), BlockType::Metas)
}

/// Offset of the Files count field: right after the Paths section.
pub open spec fn spec_files_pos(buf: Seq<u8>) -> int {
    spec_section_end(buf, spec_paths_pos(buf), BlockType::Paths)
}

/// Whether the version field and all four sections fit inside the buffer.
pub open spec fn spec_frame_ok(buf: Seq<u8>) -> bool {
    &&& buf.len() >= 4
    &&& spec_section_fits(buf, spec_packages_pos(buf), BlockType::Packages)
    &&& spec_section_fits(buf, spec_metas_pos(buf), BlockType::Metas)
    &&& spec_section_fits(buf, spec_paths_pos(buf), BlockType::Paths)
    &&& spec_section_fits(buf, spec_files_pos(buf), BlockType::Files)
}

/// The body of the section whose count field sits at `pos`.
pub open spec fn spec_section_body(buf: Seq<u8>, pos: int, block: BlockType) -> Seq<u8> {
    buf.subrange(spec_section_start(pos), spec_section_end(buf, pos, block))
}

/// Splits a container buffer into its version and four section bodies.
/// Succeeds exactly when every section fits inside the buffer.
pub fn split_container(buf: &[u8]) -> (r: Result<Sections, PadError>)
    ensures
        r is Ok <==> spec_frame_ok(buf@),
        r is Err ==> r == Err::<Sections, PadError>(PadError::Truncated),
        r matches Ok(s) ==> {
            &&& s.version == spec_u32_at(buf@, 0)
            &&& s.packages@ == spec_section_body(buf@, spec_packages_pos(buf@), BlockType::Packages)
            &&& s.metas@ == spec_section_body(buf@, spec_metas_pos(buf@), BlockType::Metas)
            &&& s.paths@ == spec_section_body(buf@, spec_paths_pos(buf@), BlockType::Paths)
            &&& s.files@ == spec_section_body(buf@, spec_files_pos(buf@), BlockType::Files)
            &&& s.packages@.len() % 12 == 0
            &&& s.metas@.len() % 28 == 0
        },
{
    proof {
        vstd::slice::axiom_spec_len(buf);
    }
    let len: usize = buf.len();
    if len < 4 {
        return Err(PadError::Truncated);
    }
    let version = u32_from_le_bytes(slice_subrange(buf, 0, 4));
    let mut pos: usize = 4;
    let rng_packages = match block_range(BlockType::Packages, buf, &mut pos) {
        Ok(rng) => rng,
        Err(e) => { return Err(e) },
    };
    let rng_metas = match block_range(BlockType::Metas, buf, &mut pos) {
        Ok(rng) => rng,
        Err(e) => { return Err(e) },
    };
    let rng_paths = match block_range(BlockType::Paths, buf, &mut pos) {
        Ok(rng) => rng,
        Err(e) => { return Err(e) },
    };
    let rng_files = match block_range(BlockType::Files, buf, &mut pos) {
        Ok(rng) => rng,
        Err(e) => { return Err(e) },
    };
    let packages = slice_to_vec(slice_subrange(buf, rng_packages.start, rng_packages.end));
    let metas = slice_to_vec(slice_subrange(buf, rng_metas.start, rng_metas.end));
    let paths = slice_to_vec(slice_subrange(buf, rng_paths.start, rng_paths.end));
    let files = slice_to_vec(slice_subrange(buf, rng_files.start, rng_files.end));
    proof {
        assert(packages@.len() == spec_u32_at(buf@, 4) * 12);
        assert(spec_u32_at(buf@, 4) * 12 % 12 == 0) by (nonlinear_arith);
        assert(metas@.len() == spec_u32_at(buf@, spec_metas_pos(buf@)) * 28);
        assert(spec_u32_at(buf@, spec_metas_pos(buf@)) * 28 % 28 == 0) by (nonlinear_arith);
    }
    Ok(Sections { version, packages, metas, paths, files })
}

} // verus!
