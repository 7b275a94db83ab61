//! The mandatory meta-table sort.
//!
//! The bucket scheme of the path table assumes the meta table is ordered by
//! `file_id`; the sort runs once, right after decoding, over the whole table.

use crate::records::MetaRecord;
use rayon::slice::ParallelSliceMut;
use vstd::prelude::*;

verus! {

/// Ascending `file_id` order over a meta-record sequence.
pub open spec fn sorted_by_file_id(s: Seq<MetaRecord>) -> bool {
    forall|i: int, j: int| 0 <= i < j < s.len() ==> s[i].file_id <= s[j].file_id
}

/// Relies on rayon's `par_sort_by_key`: sorts the slice by the extracted
/// key, here `file_id`, reordering the elements and nothing else.
#[verifier::external_body]
pub fn sort_by_file_id(v: &mut Vec<MetaRecord>)
    ensures
        sorted_by_file_id(final(v)@),
        final(v)@.to_multiset() == old(v)@.to_multiset(),
        final(v)@.len() == old(v)@.len(),
{
    v.par_sort_by_key(|m| m.file_id);
}

} // verus!
