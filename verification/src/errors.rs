use vstd::prelude::*;

verus! {

/// Everything that can go wrong inside the library.
///
/// Parse errors (`Truncated`, `Malformed`, `BadRecordId`, `BadBucket`) are
/// fatal to construction: the index is either built whole or not at all.
/// `Pattern` is fatal to the filter call that received the bad pattern and
/// leaves the index untouched.  `Decompress` and `SizeMismatch` are fatal to
/// the single record whose payload was being processed.
#[derive(Clone, Copy, PartialEq, Eq, Structural, Debug)]
pub enum PadError {
    /// The container buffer is shorter than a section's declared end.
    Truncated,
    /// A section is not a whole number of records, or a variable-length
    /// record breaks off before its terminator.
    Malformed,
    /// A meta record's `path_id` or `file_id` does not index its table.
    BadRecordId,
    /// A path record's bucket is not a half-open range into the meta table.
    BadBucket,
    /// The regular expression handed to a filter does not compile.
    Pattern,
    /// The payload codec rejected a buffer it was asked to decompress.
    Decompress,
    /// A processed payload does not have the size its meta record declares.
    SizeMismatch,
}

impl PadError {
    /// A short human-readable description.
    pub fn message(&self) -> (m: &'static str)
        ensures
            m@.len() > 0,
    {
        proof {
            reveal_strlit("container buffer is truncated");
            reveal_strlit("malformed record");
            reveal_strlit("meta record id out of range");
            reveal_strlit("path bucket out of range");
            reveal_strlit("invalid pattern");
            reveal_strlit("decompression failed");
            reveal_strlit("payload size mismatch");
        }
        match self {
            PadError::Truncated => "container buffer is truncated",
            PadError::Malformed => "malformed record",
            PadError::BadRecordId => "meta record id out of range",
            PadError::BadBucket => "path bucket out of range",
            PadError::Pattern => "invalid pattern",
            PadError::Decompress => "decompression failed",
            PadError::SizeMismatch => "payload size mismatch",
        }
    }
}

} // verus!
