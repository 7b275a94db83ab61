//! The compression collaborator used by the content pipeline.

use vstd::prelude::*;

verus! {

#[verifier::external_type_specification]
#[verifier::external_body]
pub struct ExQuicklzError(quicklz::Error);

/// The contents a well-formed compressed stream decompresses to.  The
/// output is a pure function of the stream bytes alone.
pub uninterp spec fn qlz_decompressed(data: Seq<u8>) -> Seq<u8>;

/// Whether the codec accepts the stream under the given size bound: a
/// readable header of a supported level, sizes that agree, every back
/// reference valid, and a declared output size within `max_size`.  All of
/// it is a function of the stream bytes and the bound alone.
pub uninterp spec fn qlz_ok(data: Seq<u8>, max_size: u32) -> bool;

/// Relies on `quicklz::decompress`: reads one compressed stream from the
/// front of the given bytes and rebuilds its contents, refusing streams
/// whose declared output size exceeds `max_size`; success is a function of
/// the stream bytes and the bound, and on success the output is the
/// stream's declared contents, never longer than `max_size`.
#[verifier::external_body]
pub fn qlz_decompress(data: &[u8], max_size: u32) -> (r: Result<Vec<u8>, quicklz::Error>)
    ensures
        r is Ok <==> qlz_ok(data@, max_size),
        r matches Ok(v) ==> v@ == qlz_decompressed(data@) && v@.len() <= max_size,
{
    let mut reader = std::io::Cursor::new(data);
    quicklz::decompress(&mut reader, max_size)
}

} // verus!
