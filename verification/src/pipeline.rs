//! Per-record content pipeline decisions.
//!
//! A payload is read from its package file as `sz_compressed` raw bytes,
//! optionally decrypted (unless the file name carries the reserved
//! "already decrypted" extension), and optionally decompressed.  The cipher
//! itself is a collaborator of the caller; this module owns every decision
//! around it and the whole decompression step.

use crate::codec::{qlz_decompress, qlz_decompressed, qlz_ok};
use crate::errors::PadError;
use crate::records::MetaRecord;
use vstd::prelude::*;
use vstd::string::StrSliceExecFns;

verus! {

/// How much of the content pipeline is applied to a payload before it is
/// returned: `Raw` is the bytes as stored, `Decrypt` adds decryption,
/// `Decompress` adds decompression.  Each level implies all earlier work.
#[derive(Clone, Copy, PartialEq, Eq, Structural, Debug)]
pub enum ReadLevel {
    Raw,
    Decrypt,
    Decompress,
}

impl ReadLevel {
    /// Position of the level in the `Raw < Decrypt < Decompress` order.
    pub open spec fn depth_spec(self) -> int {
        match self {
            ReadLevel::Raw => 0,
            ReadLevel::Decrypt => 1,
            ReadLevel::Decompress => 2,
        }
    }

    pub fn depth(&self) -> (n: u8)
        ensures
            n == self.depth_spec(),
    {
        match self {
            ReadLevel::Raw => 0,
            ReadLevel::Decrypt => 1,
            ReadLevel::Decompress => 2,
        }
    }
}

/// Index of the last occurrence of `c`, or `-1` when `c` does not occur.
pub open spec fn spec_last_index(s: Seq<char>, c: char) -> int
    decreases s.len(),
{
    if s.len() == 0 {
        -1
    } else if s[s.len() - 1] == c {
        s.len() - 1
    } else {
        spec_last_index(s.drop_last(), c)
    }
}

/// The reserved "already decrypted" extension marker: the final
/// slash-separated component ends in a `.dbss` extension, the dot not being
/// the component's first character.
pub open spec fn spec_has_dbss_ext(name: Seq<char>) -> bool {
    let comp = spec_last_index(name, '/') + 1;
    let dot = spec_last_index(name, '.');
    &&& dot > comp
    &&& name.subrange(dot + 1, name.len() as int) =~= seq!['d', 'b', 's', 's']
}

/// Finds the last occurrence of `c` in the text.
fn last_index_of(s: &str, c: char) -> (r: Option<usize>)
    ensures
        match r {
            None => spec_last_index(s@, c) == -1,
            Some(i) => i == spec_last_index(s@, c) && i < s@.len(),
        },
{
    let len: usize = s.unicode_len();
    proof {
        assert(s@.take(len as int) =~= s@);
    }
    let mut i: usize = len;
    while i > 0
        invariant
            i <= len,
            len == s@.len(),
            spec_last_index(s@, c) == spec_last_index(s@.take(i as int), c),
        decreases i,
    {
        proof {
            assert(s@.take(i as int).drop_last() =~= s@.take(i - 1));
        }
        if s.get_char(i - 1) == c {
            return Some(i - 1);
        }
        i = i - 1;
    }
    proof {
        assert(s@.take(0) =~= Seq::<char>::empty());
    }
    None
}

/// Whether a file name carries the reserved "already decrypted" extension.
pub fn has_dbss_extension(name: &str) -> (r: bool)
    ensures
        r == spec_has_dbss_ext(name@),
{
    let len: usize = name.unicode_len();
    let comp: usize = match last_index_of(name, '/') {
        None => 0,
        Some(i) => i + 1,
    };
    let dot: usize = match last_index_of(name, '.') {
        None => { return false },
        Some(i) => i,
    };
    if dot <= comp {
        return false;
    }
    if len - dot != 5 {
        return false;
    }
    let r = name.get_char(dot + 1) == 'd' && name.get_char(dot + 2) == 'b' && name.get_char(
        dot + 3,
    ) == 's' && name.get_char(dot + 4) == 's';
    proof {
        let suf = name@.subrange(dot + 1, name@.len() as int);
        let want = seq!['d', 'b', 's', 's'];
        assert(want.len() == 4 && want[0] == 'd' && want[1] == 'b' && want[2] == 's' && want[3]
            == 's');
        assert(suf.len() == 4);
        assert(suf[0] == name@[dot + 1] && suf[1] == name@[dot + 2] && suf[2] == name@[dot + 3]
            && suf[3] == name@[dot + 4]);
        if r {
            assert(suf =~= want);
        }
    }
    r
}

/// Whether the decrypt stage applies: the requested level reaches it and
/// the file name does not carry the reserved extension.
pub fn needs_decryption(name: &str, level: &ReadLevel) -> (r: bool)
    ensures
        r == (level.depth_spec() >= 1 && !spec_has_dbss_ext(name@)),
{
    level.depth() >= 1 && !has_dbss_extension(name)
}

/// Whether the decompress stage treats the buffer as a compressed stream:
/// either the record promises growth, or the file is not the reserved
/// "already decrypted" kind and the buffer starts with the codec's header
/// sentinel byte.
pub open spec fn spec_decompress_triggered(record: MetaRecord, name: Seq<char>, buf: Seq<u8>) -> bool {
    record.sz_original > record.sz_compressed || (!spec_has_dbss_ext(name) && buf.len() > 0
        && buf[0] == 0x6E)
}

/// Runs the tail of the content pipeline on a payload whose decryption, if
/// any was owed, has already happened; `name` is the record's file-table
/// entry, consulted for the reserved extension.  Below `Decompress` the
/// buffer passes through unchanged; at `Decompress` a triggered buffer is
/// decompressed, succeeding exactly when the codec accepts the stream and
/// its contents have the declared original size, and an untriggered buffer
/// is cut down to that size.
pub fn process_decrypted(record: &MetaRecord, level: &ReadLevel, name: &str, buf: Vec<u8>) -> (r:
    Result<Vec<u8>, PadError>)
    requires
        buf@.len() == record.sz_compressed,
    ensures
        level.depth_spec() < 2 ==> r == Ok::<Vec<u8>, PadError>(buf),
        level.depth_spec() == 2 ==> (r matches Ok(v) ==> v@.len() == record.sz_original),
        level.depth_spec() == 2 ==> (r matches Ok(v) ==> (if spec_decompress_triggered(
            *record,
            name@,
            buf@,
        ) {
            v@ == qlz_decompressed(buf@)
        } else {
            v@ == buf@.take(record.sz_original as int)
        })),
        level.depth_spec() == 2 && !spec_decompress_triggered(*record, name@, buf@) ==> r is Ok,
        level.depth_spec() == 2 && spec_decompress_triggered(*record, name@, buf@) ==> (r is Ok
            <==> qlz_ok(buf@, record.sz_original) && qlz_decompressed(buf@).len()
            == record.sz_original),
        r == Err::<Vec<u8>, PadError>(PadError::Decompress) <==> (level.depth_spec() == 2
            && spec_decompress_triggered(*record, name@, buf@) && !qlz_ok(
            buf@,
            record.sz_original,
        )),
        r == Err::<Vec<u8>, PadError>(PadError::SizeMismatch) <==> (level.depth_spec() == 2
            && spec_decompress_triggered(*record, name@, buf@) && qlz_ok(
            buf@,
            record.sz_original,
        ) && qlz_decompressed(buf@).len() != record.sz_original),
        r is Err ==> r == Err::<Vec<u8>, PadError>(PadError::Decompress) || r == Err::<
            Vec<u8>,
            PadError,
        >(PadError::SizeMismatch),
{
    if level.depth() < 2 {
        return Ok(buf);
    }
    let reserved = has_dbss_extension(name);
    let triggered = record.sz_original > record.sz_compressed || (!reserved && buf.len() > 0
        && buf[0] == 0x6E);
    if triggered {
        let out = match qlz_decompress(buf.as_slice(), record.sz_original) {
            Ok(out) => out,
            Err(_) => { return Err(PadError::Decompress) },
        };
        if out.len() != record.sz_original as usize {
            return Err(PadError::SizeMismatch);
        }
        Ok(out)
    } else {
        let mut out = buf;
        out.truncate(record.sz_original as usize);
        Ok(out)
    }
}

} // verus!
