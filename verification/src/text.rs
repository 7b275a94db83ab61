//! The legacy text decoder collaborator: every on-disk string of the
//! container (directory paths, file names) is stored in an 8-bit legacy
//! Korean encoding and decoded through `encoding_rs`.

use vstd::prelude::*;

verus! {

/// The text that the legacy Korean decoder produces for the given bytes.
/// The decoding is a pure function of the bytes alone.
pub uninterp spec fn euc_kr_of(bytes: Seq<u8>) -> Seq<char>;

/// Relies on `encoding_rs::EUC_KR.decode_without_bom_handling`: the decoded
/// text depends on the input bytes alone, with no byte-order-mark handling
/// and no other state.
#[verifier::external_body]
pub fn euc_kr_decode(bytes: &[u8]) -> (r: String)
    ensures
        r@ == euc_kr_of(bytes@),
{
    encoding_rs::EUC_KR.decode_without_bom_handling(bytes).0.into_owned()
}

} // verus!
