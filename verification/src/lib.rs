//! Reader for a proprietary game-archive container: a single metadata file
//! (`pad00000.meta`) that indexes compressed, encrypted payload blobs spread
//! across sibling package files (`PADxxxxx.paz`).
//!
//! The library owns the container framing, the fixed-width record decoders,
//! the variable-length path/file table parsers, the bucketed index model with
//! its sort invariant, the filter engine, and the per-record content pipeline
//! decisions.  File access and the block-cipher collaborator live with the
//! caller; the library works on plain byte buffers and decrypted sections.

pub mod codec;
pub mod errors;
pub mod framer;
pub mod meta;
pub mod names;
pub mod ordering;
pub mod pattern;
pub mod pipeline;
pub mod records;
pub mod strtab;
pub mod text;

pub use errors::PadError;
pub use meta::MetaFile;
pub use pipeline::ReadLevel;
pub use records::{FileRange, MetaRecord, PackageRecord, PathRecord};

