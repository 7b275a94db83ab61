//! The index model: the four tables parsed from the container, the
//! invariants later stages rely on, and the filter engine over the meta
//! table.

use crate::errors::PadError;
use crate::names::{package_file_name, spec_package_name};
use crate::ordering::{sort_by_file_id, sorted_by_file_id};
use crate::records::{
    spec_meta_table, spec_package_table, MetaRecord, PackageRecord, PathRecord, PathRecordV,
};
use crate::strtab::{
    decode_file_section, decode_path_section, path_views, spec_files_of, spec_paths_of,
    string_views,
};
use crate::pattern::{regex_is_match, regex_matches, regex_new, regex_valid};
use vstd::prelude::*;
use vstd::seq_lib::to_multiset_contains;

verus! {

/// Whether a bucket is a half-open range into a table of `n` rows.
pub open spec fn bucket_ok(p: PathRecordV, n: int) -> bool {
    0 <= p.start <= p.end <= n
}

/// Whether every record's `path_id` and `file_id` index tables of the given
/// lengths.
pub open spec fn ids_ok_seq(metas: Seq<MetaRecord>, n_paths: int, n_files: int) -> bool {
    forall|i: int|
        0 <= i < metas.len() ==> (#[trigger] metas[i]).path_id < n_paths && metas[i].file_id
            < n_files
}

/// Whether every bucket is a half-open range into a table of `n` rows.
pub open spec fn buckets_ok_seq(paths: Seq<PathRecordV>, n: int) -> bool {
    forall|j: int| 0 <= j < paths.len() ==> bucket_ok(#[trigger] paths[j], n)
}

/// Id validity only depends on which records a table holds, not on their
/// order.
proof fn lemma_ids_ok_one_way(a: Seq<MetaRecord>, b: Seq<MetaRecord>, np: int, nf: int)
    requires
        a.to_multiset() == b.to_multiset(),
        ids_ok_seq(a, np, nf),
    ensures
        ids_ok_seq(b, np, nf),
{
    assert forall|i: int| 0 <= i < b.len() implies (#[trigger] b[i]).path_id < np
        && b[i].file_id < nf by {
        let m = b[i];
        assert(b.contains(m));
        to_multiset_contains(b, m);
        to_multiset_contains(a, m);
        assert(a.contains(m));
        let k = choose|k: int| 0 <= k < a.len() && a[k] == m;
        assert(a[k].path_id < np && a[k].file_id < nf);
    }
}

/// Id validity transfers across any reordering of the table.
pub proof fn lemma_ids_ok_multiset(a: Seq<MetaRecord>, b: Seq<MetaRecord>, np: int, nf: int)
    requires
        a.to_multiset() == b.to_multiset(),
    ensures
        ids_ok_seq(a, np, nf) == ids_ok_seq(b, np, nf),
{
    if ids_ok_seq(a, np, nf) {
        lemma_ids_ok_one_way(a, b, np, nf);
    }
    if ids_ok_seq(b, np, nf) {
        lemma_ids_ok_one_way(b, a, np, nf);
    }
}

/// Whether four decoded sections assemble into a well-formed index: aligned
/// fixed-width sections, a parsable path table, record ids inside the
/// tables, and buckets inside the meta table.
pub open spec fn sections_ok(
    packages: Seq<u8>,
    metas: Seq<u8>,
    paths: Seq<u8>,
    files: Seq<u8>,
) -> bool {
    &&& packages.len() % 12 == 0
    &&& metas.len() % 28 == 0
    &&& spec_paths_of(paths) is Some
    &&& ids_ok_seq(
        spec_meta_table(metas),
        spec_paths_of(paths)->Some_0.len() as int,
        spec_files_of(files).len() as int,
    )
    &&& buckets_ok_seq(spec_paths_of(paths)->Some_0, spec_meta_table(metas).len() as int)
}

/// The parsed container: the archive root it came from, the version field,
/// and the four tables.  The meta table only ever shrinks after
/// construction (through the filters); the other three tables never change.
pub struct MetaFile {
    pub root: String,
    pub version: u32,
    pub package_table: Vec<PackageRecord>,
    pub meta_table: Vec<MetaRecord>,
    pub path_table: Vec<PathRecord>,
    pub file_table: Vec<String>,
}

impl MetaFile {
    /// Every meta record's `path_id` and `file_id` index their tables.
    /// Construction establishes this and filtering keeps it.
    pub open spec fn ids_ok(self) -> bool {
        ids_ok_seq(
            self.meta_table@,
            self.path_table@.len() as int,
            self.file_table@.len() as int,
        )
    }

    /// Every path record's bucket is a half-open slice of the current meta
    /// table.  Holds after construction, over the sorted table.
    pub open spec fn buckets_ok(self) -> bool {
        buckets_ok_seq(path_views(self.path_table@), self.meta_table@.len() as int)
    }

    /// Assembles the index from the four decoded section bodies, the Paths
    /// and Files bodies already decrypted.  Decodes the fixed-width tables,
    /// sorts the meta table by `file_id`, parses the two text tables, and
    /// checks the id and bucket invariants.  Construction either fully
    /// succeeds or returns the first error, building nothing.
    #[verifier::loop_isolation(false)]
    pub fn from_sections(
        root: String,
        version: u32,
        packages: &[u8],
        metas: &[u8],
        paths: &[u8],
        files: &[u8],
    ) -> (r: Result<MetaFile, PadError>)
        ensures
            r is Ok <==> sections_ok(packages@, metas@, paths@, files@),
            r == Err::<MetaFile, PadError>(PadError::Malformed) <==> !(packages@.len() % 12 == 0
                && metas@.len() % 28 == 0 && spec_paths_of(paths@) is Some),
            r == Err::<MetaFile, PadError>(PadError::BadRecordId) <==> (packages@.len() % 12 == 0
                && metas@.len() % 28 == 0 && spec_paths_of(paths@) is Some && !ids_ok_seq(
                spec_meta_table(metas@),
                spec_paths_of(paths@)->Some_0.len() as int,
                spec_files_of(files@).len() as int,
            )),
            r == Err::<MetaFile, PadError>(PadError::BadBucket) <==> (packages@.len() % 12 == 0
                && metas@.len() % 28 == 0 && spec_paths_of(paths@) is Some && ids_ok_seq(
                spec_meta_table(metas@),
                spec_paths_of(paths@)->Some_0.len() as int,
                spec_files_of(files@).len() as int,
            ) && !buckets_ok_seq(
                spec_paths_of(paths@)->Some_0,
                spec_meta_table(metas@).len() as int,
            )),
            r matches Ok(mf) ==> {
                &&& mf.root == root
                &&& mf.version == version
                &&& mf.package_table@ == spec_package_table(packages@)
                &&& mf.meta_table@.to_multiset() == spec_meta_table(metas@).to_multiset()
                &&& mf.meta_table@.len() == spec_meta_table(metas@).len()
                &&& sorted_by_file_id(mf.meta_table@)
                &&& path_views(mf.path_table@) == spec_paths_of(paths@)->Some_0
                &&& string_views(mf.file_table@) == spec_files_of(files@)
                &&& mf.ids_ok()
                &&& mf.buckets_ok()
            },
    {
        proof {
            vstd::slice::axiom_spec_len(packages);
            vstd::slice::axiom_spec_len(metas);
        }
        if packages.len() % 12 != 0 || metas.len() % 28 != 0 {
            return Err(PadError::Malformed);
        }
        let package_table = PackageRecord::many_from_le_bytes(packages);
        let mut meta_table = MetaRecord::many_from_le_bytes(metas);
        sort_by_file_id(&mut meta_table);
        let path_table = match decode_path_section(paths) {
            Ok(t) => t,
            Err(e) => { return Err(e) },
        };
        let file_table = decode_file_section(files);
        let ghost decoded = spec_meta_table(metas@);
        let ghost np = path_table@.len() as int;
        let ghost nf = file_table@.len() as int;
        proof {
            assert(path_views(path_table@).len() == np);
            assert(string_views(file_table@).len() == nf);
        }
        let n_meta: usize = meta_table.len();
        let n_path: usize = path_table.len();
        let n_file: usize = file_table.len();
        let mut i: usize = 0;
        while i < n_meta
            invariant
                i <= n_meta,
                n_meta == meta_table@.len(),
                n_path == path_table@.len(),
                n_file == file_table@.len(),
                forall|k: int|
                    0 <= k < i ==> (#[trigger] meta_table@[k]).path_id < n_path
                        && meta_table@[k].file_id < n_file,
            decreases n_meta - i,
        {
            let m = meta_table[i];
            if m.path_id as usize >= n_path || m.file_id as usize >= n_file {
                proof {
                    if ids_ok_seq(meta_table@, np, nf) {
                        assert((meta_table@[i as int]).path_id < np && meta_table@[
                            i as int
                        ].file_id < nf);
                    }
                    lemma_ids_ok_multiset(decoded, meta_table@, np, nf);
                }
                return Err(PadError::BadRecordId);
            }
            i = i + 1;
        }
        proof {
            assert(ids_ok_seq(meta_table@, np, nf));
            lemma_ids_ok_multiset(decoded, meta_table@, np, nf);
        }
        let mut j: usize = 0;
        while j < n_path
            invariant
                j <= n_path,
                n_meta == meta_table@.len(),
                n_path == path_table@.len(),
                forall|k: int|
                    0 <= k < j ==> bucket_ok(#[trigger] path_views(path_table@)[k], n_meta as int),
            decreases n_path - j,
        {
            let fr = path_table[j].file_range;
            if fr.start > fr.end || fr.end > n_meta {
                proof {
                    assert(path_views(path_table@)[j as int] == path_table@[j as int]@);
                    if buckets_ok_seq(path_views(path_table@), n_meta as int) {
                        assert(bucket_ok(path_views(path_table@)[j as int], n_meta as int));
                    }
                }
                return Err(PadError::BadBucket);
            }
            j = j + 1;
        }
        Ok(MetaFile { root, version, package_table, meta_table, path_table, file_table })
    }

    /// The name of the package file a record lives in, `PAD{id:05}.paz`;
    /// the only place package file names are synthesized.
    pub fn package_name(&self, record: &MetaRecord) -> (r: String)
        ensures
            r@ == spec_package_name(record.package_id as int),
    {
        package_file_name(record.package_id)
    }

    /// The package file name joined under the archive root.
    pub fn package_path(&self, record: &MetaRecord) -> (r: String)
        ensures
            r@ == spec_join(self.root@, spec_package_name(record.package_id as int)),
    {
        join_path(self.root.as_str(), self.package_name(record).as_str())
    }

    /// Where a record's payload is materialized: the output root, the
    /// record's directory text, and its file name, joined.
    pub fn output_path(&self, record: &MetaRecord, out_root: &str) -> (r: String)
        requires
            (record.path_id as int) < self.path_table@.len(),
            (record.file_id as int) < self.file_table@.len(),
        ensures
            r@ == spec_join(
                spec_join(out_root@, self.path_table@[record.path_id as int]@.path),
                self.file_table@[record.file_id as int]@,
            ),
    {
        let dir = join_path(out_root, self.path_table[record.path_id as usize].path.as_str());
        join_path(dir.as_str(), self.file_table[record.file_id as usize].as_str())
    }

    /// The distinct `path_id`s the current meta table references, first
    /// occurrence first: the directories an extraction has to create, each
    /// exactly once.
    #[verifier::loop_isolation(false)]
    pub fn referenced_path_ids(&self) -> (r: Vec<u32>)
        ensures
            forall|a: int, b: int| 0 <= a < b < r@.len() ==> r@[a] != r@[b],
            forall|a: int, b: int|
                0 <= a < b < r@.len() ==> #[trigger] first_ref(self.meta_table@, r@[a])
                    < #[trigger] first_ref(self.meta_table@, r@[b]),
            forall|id: u32|
                r@.contains(id) <==> exists|k: int|
                    0 <= k < self.meta_table@.len() && (#[trigger] self.meta_table@[k]).path_id
                        == id,
    {
        let n: usize = self.meta_table.len();
        let mut r: Vec<u32> = Vec::new();
        let mut i: usize = 0;
        while i < n
            invariant
                i <= n,
                forall|a: int, b: int| 0 <= a < b < r@.len() ==> r@[a] != r@[b],
                forall|a: int|
                    0 <= a < r@.len() ==> #[trigger] first_ref(self.meta_table@, r@[a]) < i,
                forall|a: int, b: int|
                    0 <= a < b < r@.len() ==> #[trigger] first_ref(self.meta_table@, r@[a])
                        < #[trigger] first_ref(self.meta_table@, r@[b]),
                forall|id: u32|
                    r@.contains(id) <==> exists|k: int|
                        0 <= k < i && (#[trigger] self.meta_table@[k]).path_id == id,
            decreases n - i,
        {
            let id = self.meta_table[i].path_id;
            let ghost r0 = r@;
            if !contains_u32(&r, id) {
                r.push(id);
                proof {
                    assert(r@ =~= r0.push(id));
                    assert(r@[r@.len() - 1] == id);
                    assert(r@.contains(id));
                    assert forall|k: int| 0 <= k < i implies self.meta_table@[k].path_id
                        != id by {
                        if self.meta_table@[k].path_id == id {
                            assert(r0.contains(id));
                        }
                    }
                    lemma_first_ref_from_hit(self.meta_table@, id, 0, i as int);
                    assert(first_ref(self.meta_table@, id) == i);
                    assert forall|a: int| 0 <= a < r@.len() implies #[trigger] first_ref(
                        self.meta_table@,
                        r@[a],
                    ) < i + 1 by {
                        if a < r0.len() {
                            assert(r@[a] == r0[a]);
                        }
                    }
                    assert forall|a: int, b: int| 0 <= a < b < r@.len() implies #[trigger]
                        first_ref(self.meta_table@, r@[a]) < #[trigger] first_ref(
                        self.meta_table@,
                        r@[b],
                    ) by {
                        assert(r@[a] == r0[a]);
                        if b < r0.len() {
                            assert(r@[b] == r0[b]);
                        } else {
                            assert(r@[b] == id);
                            assert(first_ref(self.meta_table@, r0[a]) < i);
                        }
                    }
                    assert forall|x: u32| #[trigger] r@.contains(x) implies r0.contains(x) || x
                        == id by {
                        let w = choose|w: int| 0 <= w < r@.len() && r@[w] == x;
                        if w < r0.len() {
                            assert(r0[w] == x);
                        }
                    }
                    assert forall|x: u32| r0.contains(x) implies #[trigger] r@.contains(x) by {
                        let w = choose|w: int| 0 <= w < r0.len() && r0[w] == x;
                        assert(r@[w] == x);
                    }
                }
            }
            proof {
                assert forall|id2: u32| r@.contains(id2) implies exists|k: int|
                    0 <= k < i + 1 && (#[trigger] self.meta_table@[k]).path_id == id2 by {
                    if id2 == id {
                        assert(self.meta_table@[i as int].path_id == id2);
                    } else {
                        assert(r0.contains(id2));
                    }
                }
                assert forall|id2: u32|
                    exists|k: int|
                        0 <= k < i + 1 && (#[trigger] self.meta_table@[k]).path_id
                            == id2 implies r@.contains(id2) by {
                    let k = choose|k: int|
                        0 <= k < i + 1 && (#[trigger] self.meta_table@[k]).path_id == id2;
                    if k < i {
                        assert(r0.contains(id2));
                        if r0 != r@ {
                            assert(r@ =~= r0.push(id));
                        }
                    } else {
                        assert(id2 == id);
                        assert(r@.contains(id));
                    }
                }
            }
            i = i + 1;
        }
        r
    }
}

/// The least index at or after `i` whose record references `id`, or the
/// table's length when none does.
pub open spec fn first_ref_from(metas: Seq<MetaRecord>, id: u32, i: int) -> int
    decreases metas.len() - i,
{
    if i < 0 || i >= metas.len() {
        metas.len() as int
    } else if metas[i].path_id == id {
        i
    } else {
        first_ref_from(metas, id, i + 1)
    }
}

/// The index of the first record that references `id`, or the table's
/// length when none does.
pub open spec fn first_ref(metas: Seq<MetaRecord>, id: u32) -> int {
    first_ref_from(metas, id, 0)
}

/// When the records before `i` miss `id` and the record at `i` hits it,
/// `i` is the first reference, searching from any point at or before it.
proof fn lemma_first_ref_from_hit(metas: Seq<MetaRecord>, id: u32, j: int, i: int)
    requires
        0 <= j <= i < metas.len(),
        metas[i].path_id == id,
        forall|k: int| j <= k < i ==> metas[k].path_id != id,
    ensures
        first_ref_from(metas, id, j) == i,
    decreases i - j,
{
    if j < i {
        lemma_first_ref_from_hit(metas, id, j + 1, i);
    }
}

/// Whether the value occurs in the vector.
fn contains_u32(v: &Vec<u32>, x: u32) -> (b: bool)
    ensures
        b == v@.contains(x),
{
    let n: usize = v.len();
    let mut i: usize = 0;
    while i < n
        invariant
            i <= n,
            n == v@.len(),
            forall|k: int| 0 <= k < i ==> v@[k] != x,
        decreases n - i,
    {
        if v[i] == x {
            return true;
        }
        i = i + 1;
    }
    false
}

/// The text predicate a filter pattern stands for: whether the pattern
/// matches somewhere in the text.
pub open spec fn keep_matching(pat: Seq<char>) -> spec_fn(Seq<char>) -> bool {
    |t: Seq<char>| regex_matches(pat, t)
}

/// The per-record predicate of the file filter: the text predicate applied
/// to the record's file-table entry.
pub open spec fn file_pred(
    files: Seq<Seq<char>>,
    keep: spec_fn(Seq<char>) -> bool,
) -> spec_fn(MetaRecord) -> bool {
    |m: MetaRecord| keep(files[m.file_id as int])
}

/// What the file filter leaves: the records whose file name satisfies the
/// predicate, in their present order.
pub open spec fn file_filtered(
    meta: Seq<MetaRecord>,
    files: Seq<Seq<char>>,
    keep: spec_fn(Seq<char>) -> bool,
) -> Seq<MetaRecord> {
    meta.filter(file_pred(files, keep))
}

/// What the path filter builds from path `i` on: each matching path
/// contributes its whole bucket slice of the meta table, concatenated in
/// path-table order.
pub open spec fn path_filtered_from(
    meta: Seq<MetaRecord>,
    paths: Seq<PathRecordV>,
    keep: spec_fn(Seq<char>) -> bool,
    i: int,
) -> Seq<MetaRecord>
    decreases paths.len() - i,
{
    if i < 0 || i >= paths.len() {
        Seq::empty()
    } else {
        (if keep(paths[i].path) {
            meta.subrange(paths[i].start, paths[i].end)
        } else {
            Seq::empty()
        }) + path_filtered_from(meta, paths, keep, i + 1)
    }
}

/// What the path filter leaves: the matched buckets in path-table order.
pub open spec fn path_filtered(
    meta: Seq<MetaRecord>,
    paths: Seq<PathRecordV>,
    keep: spec_fn(Seq<char>) -> bool,
) -> Seq<MetaRecord> {
    path_filtered_from(meta, paths, keep, 0)
}

/// Whether every bucket the predicate selects is a half-open range into a
/// table of `n` rows.
pub open spec fn matched_buckets_ok(
    paths: Seq<PathRecordV>,
    keep: spec_fn(Seq<char>) -> bool,
    n: int,
) -> bool {
    forall|j: int|
        0 <= j < paths.len() && keep((#[trigger] paths[j]).path) ==> bucket_ok(paths[j], n)
}

/// Filtering distributes over appending one element.
pub proof fn lemma_filter_push<A>(s: Seq<A>, pred: spec_fn(A) -> bool, x: A)
    ensures
        s.push(x).filter(pred) == (if pred(x) {
            s.filter(pred).push(x)
        } else {
            s.filter(pred)
        }),
{
    reveal(Seq::filter);
    assert(s.push(x).drop_last() =~= s);
    assert(s.push(x).last() == x);
}

impl MetaFile {
    /// Narrows the meta table to the records whose file name matches the
    /// pattern, preserving their order; the other tables, and so every
    /// surviving foreign key, stay as they were.  An uncompilable pattern
    /// is an error and leaves everything unchanged.
    #[verifier::loop_isolation(false)]
    pub fn filter_by_file(&mut self, pattern: &str) -> (r: Result<(), PadError>)
        requires
            old(self).ids_ok(),
        ensures
            final(self).package_table@ == old(self).package_table@,
            final(self).path_table@ == old(self).path_table@,
            final(self).file_table@ == old(self).file_table@,
            final(self).root@ == old(self).root@,
            final(self).version == old(self).version,
            final(self).ids_ok(),
            r is Ok <==> regex_valid(pattern@),
            r is Err ==> r == Err::<(), PadError>(PadError::Pattern) && final(self).meta_table@
                == old(self).meta_table@,
            r is Ok ==> final(self).meta_table@ == file_filtered(
                old(self).meta_table@,
                string_views(old(self).file_table@),
                keep_matching(pattern@),
            ),
    {
        let re = match regex_new(pattern) {
            Ok(re) => re,
            Err(_) => { return Err(PadError::Pattern) },
        };
        let ghost meta0 = self.meta_table@;
        let ghost files = string_views(self.file_table@);
        let ghost keep = keep_matching(pattern@);
        let ghost pred = file_pred(files, keep);
        let n: usize = self.meta_table.len();
        let mut kept: Vec<MetaRecord> = Vec::new();
        let mut i: usize = 0;
        while i < n
            invariant
                i <= n,
                kept@ == meta0.take(i as int).filter(pred),
                forall|k: int|
                    0 <= k < kept@.len() ==> (#[trigger] kept@[k]).path_id
                        < self.path_table@.len() && kept@[k].file_id < self.file_table@.len(),
            decreases n - i,
        {
            let m = self.meta_table[i];
            let matched = regex_is_match(&re, self.file_table[m.file_id as usize].as_str());
            proof {
                assert(files[m.file_id as int] == self.file_table@[m.file_id as int]@);
                assert(matched == pred(m));
                assert(meta0.take(i + 1) =~= meta0.take(i as int).push(m));
                lemma_filter_push(meta0.take(i as int), pred, m);
            }
            if matched {
                kept.push(m);
            }
            i = i + 1;
        }
        proof {
            assert(meta0.take(n as int) =~= meta0);
        }
        self.meta_table = kept;
        Ok(())
    }

    /// Narrows the meta table to the buckets of the paths whose text
    /// matches the pattern, concatenated in path-table order; the other
    /// tables stay as they were.  An uncompilable pattern, or a matched
    /// bucket that does not fit the current meta table, is an error and
    /// leaves everything unchanged.
    #[verifier::loop_isolation(false)]
    pub fn filter_by_path(&mut self, pattern: &str) -> (r: Result<(), PadError>)
        requires
            old(self).ids_ok(),
        ensures
            final(self).package_table@ == old(self).package_table@,
            final(self).path_table@ == old(self).path_table@,
            final(self).file_table@ == old(self).file_table@,
            final(self).root@ == old(self).root@,
            final(self).version == old(self).version,
            final(self).ids_ok(),
            r == Err::<(), PadError>(PadError::Pattern) <==> !regex_valid(pattern@),
            r == Err::<(), PadError>(PadError::BadBucket) <==> regex_valid(pattern@)
                && !matched_buckets_ok(
                path_views(old(self).path_table@),
                keep_matching(pattern@),
                old(self).meta_table@.len() as int,
            ),
            r is Ok <==> regex_valid(pattern@) && matched_buckets_ok(
                path_views(old(self).path_table@),
                keep_matching(pattern@),
                old(self).meta_table@.len() as int,
            ),
            r is Err ==> final(self).meta_table@ == old(self).meta_table@,
            r is Ok ==> final(self).meta_table@ == path_filtered(
                old(self).meta_table@,
                path_views(old(self).path_table@),
                keep_matching(pattern@),
            ),
    {
        let re = match regex_new(pattern) {
            Ok(re) => re,
            Err(_) => { return Err(PadError::Pattern) },
        };
        let ghost meta0 = self.meta_table@;
        let ghost pviews = path_views(self.path_table@);
        let ghost keep = keep_matching(pattern@);
        let n_meta: usize = self.meta_table.len();
        let n_path: usize = self.path_table.len();
        let mut result: Vec<MetaRecord> = Vec::new();
        let mut j: usize = 0;
        while j < n_path
            invariant
                j <= n_path,
                path_filtered_from(meta0, pviews, keep, 0) == result@ + path_filtered_from(
                    meta0,
                    pviews,
                    keep,
                    j as int,
                ),
                forall|k: int|
                    0 <= k < j && keep((#[trigger] pviews[k]).path) ==> bucket_ok(
                        pviews[k],
                        n_meta as int,
                    ),
                forall|k: int|
                    0 <= k < result@.len() ==> (#[trigger] result@[k]).path_id
                        < self.path_table@.len() && result@[k].file_id < self.file_table@.len(),
            decreases n_path - j,
        {
            let matched = regex_is_match(&re, self.path_table[j].path.as_str());
            proof {
                assert(pviews[j as int] == self.path_table@[j as int]@);
                assert(matched == keep(pviews[j as int].path));
            }
            if matched {
                let fr = self.path_table[j].file_range;
                if fr.start > fr.end || fr.end > n_meta {
                    proof {
                        if matched_buckets_ok(pviews, keep, n_meta as int) {
                            assert(bucket_ok(pviews[j as int], n_meta as int));
                        }
                    }
                    return Err(PadError::BadBucket);
                }
                let ghost before = result@;
                let mut k: usize = fr.start;
                proof {
                    assert(meta0.subrange(fr.start as int, fr.start as int) =~= Seq::empty());
                    assert(before + meta0.subrange(fr.start as int, fr.start as int) =~= before);
                }
                while k < fr.end
                    invariant
                        fr.start <= k <= fr.end,
                        result@ == before + meta0.subrange(fr.start as int, k as int),
                    decreases fr.end - k,
                {
                    let m = self.meta_table[k];
                    proof {
                        assert(meta0.subrange(fr.start as int, k + 1) =~= meta0.subrange(
                            fr.start as int,
                            k as int,
                        ).push(m));
                        assert(before + meta0.subrange(fr.start as int, k + 1) =~= (before
                            + meta0.subrange(fr.start as int, k as int)).push(m));
                    }
                    result.push(m);
                    k = k + 1;
                }
                proof {
                    assert(result@ + path_filtered_from(meta0, pviews, keep, j + 1) =~= before
                        + (meta0.subrange(pviews[j as int].start, pviews[j as int].end)
                        + path_filtered_from(meta0, pviews, keep, j + 1)));
                }
            } else {
                proof {
                    assert(result@ + path_filtered_from(meta0, pviews, keep, j + 1) =~= result@
                        + (Seq::empty() + path_filtered_from(meta0, pviews, keep, j + 1)));
                }
            }
            j = j + 1;
        }
        proof {
            assert(path_filtered_from(meta0, pviews, keep, n_path as int) =~= Seq::<
                MetaRecord,
            >::empty());
            assert(result@ + Seq::<MetaRecord>::empty() =~= result@);
        }
        self.meta_table = result;
        Ok(())
    }
}

/// Applying the path filter and the file filter in the two possible orders
/// does not in general give the same meta table: there are tables and
/// non-trivial predicates on which the two orders disagree.
pub proof fn lemma_filter_order_sensitive()
    ensures
        exists|
            meta: Seq<MetaRecord>,
            paths: Seq<PathRecordV>,
            files: Seq<Seq<char>>,
            kp: spec_fn(Seq<char>) -> bool,
            kf: spec_fn(Seq<char>) -> bool,
        |
            #[trigger] file_filtered(path_filtered(meta, paths, kp), files, kf)
                != path_filtered(file_filtered(meta, files, kf), paths, kp),
{
    let m0 = MetaRecord {
        hash: 0,
        path_id: 0,
        file_id: 0,
        package_id: 0,
        package_offset: 0,
        sz_compressed: 0,
        sz_original: 0,
    };
    let m1 = MetaRecord { file_id: 1, ..m0 };
    let meta = seq![m0, m1];
    let files = seq![seq!['a'], seq!['b']];
    let paths = seq![PathRecordV { path: seq!['p'], start: 0, end: 1 }];
    let kp = |t: Seq<char>| true;
    let kf = |t: Seq<char>| t == seq!['b'];
    let pred = file_pred(files, kf);
    let empty = Seq::<MetaRecord>::empty();
    assert(empty.filter(pred) =~= empty) by {
        reveal(Seq::filter);
    }
    assert(files[0] != seq!['b']) by {
        assert(files[0] == seq!['a']);
        assert(seq!['a'][0] == 'a');
        assert(seq!['b'][0] == 'b');
    }
    assert(!pred(m0));
    assert(pred(m1));
    // the path filter picks the one bucket, rows 0..1 of whatever table
    let lhs_mid = path_filtered(meta, paths, kp);
    assert(path_filtered_from(meta, paths, kp, 1) =~= empty);
    assert(kp(paths[0].path));
    assert(meta.subrange(0, 1) =~= seq![m0]);
    assert(lhs_mid =~= seq![m0]);
    // the file filter then drops the one surviving row
    let lhs = file_filtered(lhs_mid, files, kf);
    assert(seq![m0] =~= empty.push(m0));
    lemma_filter_push(empty, pred, m0);
    assert(lhs =~= empty);
    // in the other order the file filter keeps only the second row
    let rhs_mid = file_filtered(meta, files, kf);
    assert(meta =~= empty.push(m0).push(m1));
    lemma_filter_push(empty.push(m0), pred, m1);
    assert(rhs_mid =~= empty.push(m1));
    // and the bucket of the surviving table is that row again
    let rhs = path_filtered(rhs_mid, paths, kp);
    assert(path_filtered_from(rhs_mid, paths, kp, 1) =~= empty);
    assert(rhs_mid.subrange(0, 1) =~= seq![m1]);
    assert(rhs =~= seq![m1]);
    assert(lhs.len() != rhs.len());
    assert(file_filtered(path_filtered(meta, paths, kp), files, kf) != path_filtered(
        file_filtered(meta, files, kf),
        paths,
        kp,
    ));
}

/// Path joining: `a/b`, with no separator doubled after an `a` that already
/// ends in one and none added after an empty `a`.
pub open spec fn spec_join(a: Seq<char>, b: Seq<char>) -> Seq<char> {
    if a.len() == 0 {
        b
    } else if a.last() == '/' {
        a + b
    } else {
        a + seq!['/'] + b
    }
}

/// Joins one path component onto a base path.
pub fn join_path(a: &str, b: &str) -> (r: String)
    ensures
        r@ == spec_join(a@, b@),
{
    let la: usize = a.unicode_len();
    let mut out = String::from_str(a);
    if la > 0 && a.get_char(la - 1) != '/' {
        proof {
            reveal_strlit("/");
        }
        out.append("/");
        proof {
            assert(a@ + seq!['/'] + b@ =~= (a@ + seq!['/']) + b@);
        }
    }
    out.append(b);
    proof {
        if a@.len() == 0 {
            assert(Seq::<char>::empty() + b@ =~= b@);
            assert(out@ =~= spec_join(a@, b@));
        }
    }
    out
}

} // verus!
