//! Incremental embedding: which commit to start from, and how the chunks of
//! the changed files compare with those recorded in the manifest.
use vstd::prelude::*;

use crate::text::{chars_eq, chars_of, find, find_chars, subrange_chars};

verus! {

// ---------------------------------------------------------------------------
// The starting commit
// ---------------------------------------------------------------------------

/// Why `--since-manifest` fell back to a full re-index.
#[derive(Clone, Copy, Debug, PartialEq, Eq, Structural)]
pub enum SinceFallback {
    /// The manifest records no commit.
    NoCommitInManifest,
    /// There is no manifest.
    NoManifest,
}

/// The commit an incremental run starts from: the one given with `--since`;
/// else, with `--since-manifest`, the one the manifest records, if there is
/// a manifest (`manifest` is `None` without one) and it records one. The
/// second part says why `--since-manifest` found none.
pub fn resolve_since_ref(
    since: &Option<String>,
    since_manifest: bool,
    manifest: &Option<Option<String>>,
) -> (r: (Option<String>, Option<SinceFallback>))
    ensures
        match since {
            Some(s) => r.0 is Some && r.0->0@ == s@ && r.1 is None,
            None => if !since_manifest {
                r.0 is None && r.1 is None
            } else {
                match manifest {
                    Some(Some(c)) => r.0 is Some && r.0->0@ == c@ && r.1 is None,
                    Some(None) => r.0 is None && r.1 == Some(SinceFallback::NoCommitInManifest),
                    None => r.0 is None && r.1 == Some(SinceFallback::NoManifest),
                }
            },
        },
{
    if let Some(s) = since {
        return (Some(s.clone()), None);
    }
    if since_manifest {
        match manifest {
            Some(Some(c)) => (Some(c.clone()), None),
            Some(None) => (None, Some(SinceFallback::NoCommitInManifest)),
            None => (None, Some(SinceFallback::NoManifest)),
        }
    } else {
        (None, None)
    }
}

// ---------------------------------------------------------------------------
// Comparing chunks with the manifest
// ---------------------------------------------------------------------------

/// A chunk recorded in the manifest: its location key (`file::symbol...`)
/// and its content-addressed id.
pub struct ManifestChunk {
    pub location_key: String,
    pub chunk_id: String,
}

/// A chunk generated from a changed file: the file, its location key and
/// its id.
pub struct NewChunk {
    pub file: String,
    pub location_key: String,
    pub chunk_id: String,
}

/// How the new chunks compare with the manifest. `added` and the first
/// number of each `modified` pair are positions among the new chunks; the
/// second number of a pair and `removed` are positions in the manifest.
pub struct IncrementalDiff {
    pub added: Vec<usize>,
    pub modified: Vec<(usize, usize)>,
    pub removed: Vec<usize>,
    pub unchanged: usize,
    pub total_chunks: usize,
}

/// The file a location key belongs to: what comes before its first `::`.
pub open spec fn file_part(key: Seq<char>) -> Seq<char> {
    match find(key, "::"@) {
        Some(i) => key.subrange(0, i),
        None => key,
    }
}

/// The numbers below `n` that `p` holds of, in order.
pub open spec fn indices_where(n: nat, p: spec_fn(int) -> bool) -> Seq<int>
    decreases n,
{
    if n == 0 {
        Seq::empty()
    } else {
        let prev = indices_where((n - 1) as nat, p);
        if p(n - 1) {
            prev.push(n - 1)
        } else {
            prev
        }
    }
}

/// Positions as integers.
pub open spec fn positions(v: Seq<usize>) -> Seq<int> {
    v.map_values(|x: usize| x as int)
}

/// Whether `f` is one of the names.
pub open spec fn named(names: Seq<String>, f: Seq<char>) -> bool {
    exists|i: int| 0 <= i < names.len() && (#[trigger] names[i])@ == f
}

/// Whether one of the new chunks comes from file `f`.
pub open spec fn from_changed_file(new: Seq<NewChunk>, f: Seq<char>) -> bool {
    exists|i: int| 0 <= i < new.len() && (#[trigger] new[i]).file@ == f
}

/// Whether one of the new chunks has location key `key`.
pub open spec fn has_new_key(new: Seq<NewChunk>, key: Seq<char>) -> bool {
    exists|i: int| 0 <= i < new.len() && (#[trigger] new[i]).location_key@ == key
}

/// The position of the manifest entry with location key `key`.
pub open spec fn key_index(m: Seq<ManifestChunk>, key: Seq<char>) -> Option<int>
    decreases m.len(),
{
    if m.len() == 0 {
        None
    } else if m[0].location_key@ == key {
        Some(0)
    } else {
        match key_index(m.drop_first(), key) {
            Some(i) => Some(i + 1),
            None => None,
        }
    }
}

/// Whether manifest entry `i` belongs to a deleted file.
pub open spec fn of_deleted_file(m: Seq<ManifestChunk>, deleted: Seq<String>) -> spec_fn(int) -> bool {
    |i: int| named(deleted, file_part(m[i].location_key@))
}

/// Whether manifest entry `i` belongs to a changed file (one that is not
/// deleted) and no new chunk has its key.
pub open spec fn vanished(
    m: Seq<ManifestChunk>,
    new: Seq<NewChunk>,
    deleted: Seq<String>,
) -> spec_fn(int) -> bool {
    |i: int|
        from_changed_file(new, file_part(m[i].location_key@)) && !named(
            deleted,
            file_part(m[i].location_key@),
        ) && !has_new_key(new, m[i].location_key@)
}

/// Whether manifest entry `i` belongs to a file neither changed nor
/// deleted.
pub open spec fn untouched(m: Seq<ManifestChunk>, new: Seq<NewChunk>, deleted: Seq<String>) -> spec_fn(
    int,
) -> bool {
    |i: int|
        !named(deleted, file_part(m[i].location_key@)) && !from_changed_file(
            new,
            file_part(m[i].location_key@),
        )
}

/// Whether the manifest records new chunk `i`'s key with the same id.
pub open spec fn same_chunk(m: Seq<ManifestChunk>, new: Seq<NewChunk>) -> spec_fn(int) -> bool {
    |i: int|
        match key_index(m, new[i].location_key@) {
            Some(j) => m[j].chunk_id@ == new[i].chunk_id@,
            None => false,
        }
}

/// Whether the manifest records new chunk `i`'s key with another id.
pub open spec fn modified_chunk(m: Seq<ManifestChunk>, new: Seq<NewChunk>) -> spec_fn(int) -> bool {
    |i: int|
        match key_index(m, new[i].location_key@) {
            Some(j) => m[j].chunk_id@ != new[i].chunk_id@,
            None => false,
        }
}

/// Whether the manifest does not record new chunk `i`'s key.
pub open spec fn added_chunk(m: Seq<ManifestChunk>, new: Seq<NewChunk>) -> spec_fn(int) -> bool {
    |i: int| key_index(m, new[i].location_key@) is None
}

proof fn lemma_indices_where_step(n: nat, p: spec_fn(int) -> bool)
    ensures
        indices_where(n + 1, p) == if p(n as int) {
            indices_where(n, p).push(n as int)
        } else {
            indices_where(n, p)
        },
{
    assert(((n + 1) as nat - 1) as nat == n);
}

proof fn lemma_indices_where_bounds(n: nat, p: spec_fn(int) -> bool)
    ensures
        indices_where(n, p).len() <= n,
        forall|k: int|
            0 <= k < indices_where(n, p).len() ==> 0 <= #[trigger] indices_where(n, p)[k] < n,
    decreases n,
{
    if n > 0 {
        lemma_indices_where_bounds((n - 1) as nat, p);
        let prev = indices_where((n - 1) as nat, p);
        if p(n - 1) {
            assert forall|k: int| 0 <= k < prev.push(n - 1).len() implies 0 <= #[trigger] prev.push(
                n - 1,
            )[k] < n by {
                if k < prev.len() {
                    assert(prev.push(n - 1)[k] == prev[k]);
                }
            }
        }
    }
}

proof fn lemma_key_index(m: Seq<ManifestChunk>, key: Seq<char>)
    ensures
        match key_index(m, key) {
            Some(j) => 0 <= j < m.len() && m[j].location_key@ == key && forall|k: int|
                0 <= k < j ==> (#[trigger] m[k]).location_key@ != key,
            None => forall|k: int| 0 <= k < m.len() ==> (#[trigger] m[k]).location_key@ != key,
        },
    decreases m.len(),
{
    if m.len() > 0 && m[0].location_key@ != key {
        lemma_key_index(m.drop_first(), key);
        match key_index(m.drop_first(), key) {
            Some(j) => {
                assert forall|k: int| 0 <= k < j + 1 implies (#[trigger] m[k]).location_key@
                    != key by {
                    if k > 0 {
                        assert(m[k] == m.drop_first()[k - 1]);
                    }
                }
            },
            None => {
                assert forall|k: int| 0 <= k < m.len() implies (#[trigger] m[k]).location_key@
                    != key by {
                    if k > 0 {
                        assert(m[k] == m.drop_first()[k - 1]);
                    }
                }
            },
        }
    }
}

fn file_part_chars(key: &Vec<char>) -> (r: Vec<char>)
    ensures
        r@ == file_part(key@),
{
    let sep = chars_of("::");
    match find_chars(key, &sep) {
        Some(i) => subrange_chars(key, 0, i),
        None => {
            let r = subrange_chars(key, 0, key.len());
            assert(r@ =~= key@);
            r
        },
    }
}

fn is_named(names: &Vec<String>, f: &Vec<char>) -> (r: bool)
    ensures
        r == named(names@, f@),
{
    let mut i: usize = 0;
    while i < names.len()
        invariant
            i <= names.len(),
            forall|j: int| 0 <= j < i ==> (#[trigger] names@[j])@ != f@,
        decreases names.len() - i,
    {
        let v = chars_of(names[i].as_str());
        if chars_eq(&v, f) {
            return true;
        }
        i = i + 1;
    }
    false
}

fn is_changed_file(new: &Vec<NewChunk>, f: &Vec<char>) -> (r: bool)
    ensures
        r == from_changed_file(new@, f@),
{
    let mut i: usize = 0;
    while i < new.len()
        invariant
            i <= new.len(),
            forall|j: int| 0 <= j < i ==> (#[trigger] new@[j]).file@ != f@,
        decreases new.len() - i,
    {
        let v = chars_of(new[i].file.as_str());
        if chars_eq(&v, f) {
            return true;
        }
        i = i + 1;
    }
    false
}

fn new_key_exists(new: &Vec<NewChunk>, key: &Vec<char>) -> (r: bool)
    ensures
        r == has_new_key(new@, key@),
{
    let mut i: usize = 0;
    while i < new.len()
        invariant
            i <= new.len(),
            forall|j: int| 0 <= j < i ==> (#[trigger] new@[j]).location_key@ != key@,
        decreases new.len() - i,
    {
        let v = chars_of(new[i].location_key.as_str());
        if chars_eq(&v, key) {
            return true;
        }
        i = i + 1;
    }
    false
}

fn find_key(m: &Vec<ManifestChunk>, key: &Vec<char>) -> (r: Option<usize>)
    ensures
        match r {
            Some(j) => key_index(m@, key@) == Some(j as int),
            None => key_index(m@, key@) is None,
        },
{
    proof {
        lemma_key_index(m@, key@);
    }
    let mut i: usize = 0;
    while i < m.len()
        invariant
            i <= m.len(),
            forall|j: int| 0 <= j < i ==> (#[trigger] m@[j]).location_key@ != key@,
            match key_index(m@, key@) {
                Some(j) => 0 <= j < m.len() && m@[j].location_key@ == key@ && forall|k: int|
                    0 <= k < j ==> (#[trigger] m@[k]).location_key@ != key@,
                None => forall|k: int| 0 <= k < m.len() ==> (#[trigger] m@[k]).location_key@ != key@,
            },
        decreases m.len() - i,
    {
        let v = chars_of(m[i].location_key.as_str());
        if chars_eq(&v, key) {
            proof {
                match key_index(m@, key@) {
                    Some(j) => {
                        if j < i {
                        } else if j > i {
                            assert(m@[i as int].location_key@ != key@);
                        }
                    },
                    None => {
                        assert(m@[i as int].location_key@ != key@);
                    },
                }
            }
            return Some(i);
        }
        i = i + 1;
    }
    proof {
        match key_index(m@, key@) {
            Some(j) => {
                assert(m@[j].location_key@ != key@);
            },
            None => {},
        }
    }
    None
}

/// Compares the chunks generated from the changed files with the manifest,
/// as `--since` does. Removed are the manifest's chunks of deleted files,
/// then those of changed files whose key no new chunk has; added are the
/// new chunks whose key the manifest does not record, modified those it
/// records with another id. Unchanged are the manifest's chunks of files
/// neither changed nor deleted, plus the new chunks it records with the same
/// id; the total is the new chunks plus the unchanged ones.
pub fn compute_incremental_diff(
    manifest: &Vec<ManifestChunk>,
    new_chunks: &Vec<NewChunk>,
    deleted_files: &Vec<String>,
) -> (r: IncrementalDiff)
    requires
        manifest.len() + 2 * new_chunks.len() <= usize::MAX,
    ensures
        positions(r.removed@) == indices_where(
            manifest.len() as nat,
            of_deleted_file(manifest@, deleted_files@),
        ) + indices_where(manifest.len() as nat, vanished(manifest@, new_chunks@, deleted_files@)),
        positions(r.added@) == indices_where(new_chunks.len() as nat, added_chunk(manifest@, new_chunks@)),
        r.modified@.len() == indices_where(
            new_chunks.len() as nat,
            modified_chunk(manifest@, new_chunks@),
        ).len(),
        forall|k: int|
            0 <= k < r.modified@.len() ==> {
                let i = indices_where(new_chunks.len() as nat, modified_chunk(manifest@, new_chunks@))[k];
                &&& (#[trigger] r.modified@[k]).0 == i
                &&& key_index(manifest@, new_chunks@[i].location_key@) == Some(r.modified@[k].1 as int)
            },
        r.unchanged == indices_where(manifest.len() as nat, untouched(manifest@, new_chunks@, deleted_files@)).len()
            + indices_where(new_chunks.len() as nat, same_chunk(manifest@, new_chunks@)).len(),
        r.total_chunks == new_chunks.len() + r.unchanged,
{
    let ghost m = manifest@;
    let ghost nw = new_chunks@;
    let ghost d = deleted_files@;
    let ghost p_del = of_deleted_file(m, d);
    let ghost p_unt = untouched(m, nw, d);
    let mut removed: Vec<usize> = Vec::new();
    let mut unchanged: usize = 0;
    let mut i: usize = 0;
    while i < manifest.len()
        invariant
            i <= manifest.len(),
            m == manifest@,
            nw == new_chunks@,
            d == deleted_files@,
            p_del == of_deleted_file(m, d),
            p_unt == untouched(m, nw, d),
            positions(removed@) == indices_where(i as nat, p_del),
            unchanged == indices_where(i as nat, p_unt).len(),
        decreases manifest.len() - i,
    {
        proof {
            lemma_indices_where_step(i as nat, p_del);
            lemma_indices_where_step(i as nat, p_unt);
            lemma_indices_where_bounds(i as nat, p_unt);
        }
        let key = chars_of(manifest[i].location_key.as_str());
        let fp = file_part_chars(&key);
        if is_named(deleted_files, &fp) {
            removed.push(i);
            assert(positions(removed@) =~= indices_where((i + 1) as nat, p_del));
        } else if is_changed_file(new_chunks, &fp) {
        } else {
            unchanged = unchanged + 1;
        }
        i = i + 1;
    }
    let ghost removed_first = positions(removed@);
    let ghost untouched_count = unchanged as int;
    proof {
        lemma_indices_where_bounds(manifest.len() as nat, p_unt);
    }
    let ghost p_add = added_chunk(m, nw);
    let ghost p_mod = modified_chunk(m, nw);
    let ghost p_same = same_chunk(m, nw);
    let mut added: Vec<usize> = Vec::new();
    let mut modified: Vec<(usize, usize)> = Vec::new();
    let mut c: usize = 0;
    while c < new_chunks.len()
        invariant
            c <= new_chunks.len(),
            m == manifest@,
            nw == new_chunks@,
            manifest.len() + 2 * new_chunks.len() <= usize::MAX,
            untouched_count <= manifest.len(),
            p_add == added_chunk(m, nw),
            p_mod == modified_chunk(m, nw),
            p_same == same_chunk(m, nw),
            positions(added@) == indices_where(c as nat, p_add),
            modified@.len() == indices_where(c as nat, p_mod).len(),
            forall|k: int|
                0 <= k < modified@.len() ==> {
                    let j = indices_where(c as nat, p_mod)[k];
                    &&& (#[trigger] modified@[k]).0 == j
                    &&& key_index(m, nw[j].location_key@) == Some(modified@[k].1 as int)
                },
            unchanged == untouched_count + indices_where(c as nat, p_same).len(),
        decreases new_chunks.len() - c,
    {
        proof {
            lemma_indices_where_step(c as nat, p_add);
            lemma_indices_where_step(c as nat, p_mod);
            lemma_indices_where_step(c as nat, p_same);
            lemma_indices_where_bounds(c as nat, p_same);
        }
        let key = chars_of(new_chunks[c].location_key.as_str());
        match find_key(manifest, &key) {
            Some(j) => {
                proof {
                    lemma_key_index(m, key@);
                }
                let a = chars_of(manifest[j].chunk_id.as_str());
                let b = chars_of(new_chunks[c].chunk_id.as_str());
                if chars_eq(&a, &b) {
                    unchanged = unchanged + 1;
                } else {
                    let ghost before = modified@;
                    modified.push((c, j));
                    assert forall|k: int| 0 <= k < modified@.len() implies {
                        let jj = indices_where((c + 1) as nat, p_mod)[k];
                        &&& (#[trigger] modified@[k]).0 == jj
                        &&& key_index(m, nw[jj].location_key@) == Some(modified@[k].1 as int)
                    } by {
                        if k < before.len() {
                            assert(modified@[k] == before[k]);
                        }
                    }
                }
            },
            None => {
                added.push(c);
                assert(positions(added@) =~= indices_where((c + 1) as nat, p_add));
            },
        }
        c = c + 1;
    }
    let ghost p_van = vanished(m, nw, d);
    let mut i2: usize = 0;
    while i2 < manifest.len()
        invariant
            i2 <= manifest.len(),
            m == manifest@,
            nw == new_chunks@,
            d == deleted_files@,
            p_van == vanished(m, nw, d),
            positions(removed@) == removed_first + indices_where(i2 as nat, p_van),
        decreases manifest.len() - i2,
    {
        proof {
            lemma_indices_where_step(i2 as nat, p_van);
        }
        let key = chars_of(manifest[i2].location_key.as_str());
        let fp = file_part_chars(&key);
        if is_changed_file(new_chunks, &fp) && !is_named(deleted_files, &fp) && !new_key_exists(
            new_chunks,
            &key,
        ) {
            let ghost before = positions(removed@);
            assert(p_van(i2 as int));
            assert(indices_where((i2 + 1) as nat, p_van) == indices_where(i2 as nat, p_van).push(
                i2 as int,
            ));
            removed.push(i2);
            assert(positions(removed@) =~= before.push(i2 as int));
            assert(positions(removed@) =~= removed_first + indices_where((i2 + 1) as nat, p_van));
        }
        i2 = i2 + 1;
    }
    proof {
        lemma_indices_where_bounds(new_chunks.len() as nat, p_same);
    }
    let total = new_chunks.len() + unchanged;
    IncrementalDiff { added, modified, removed, unchanged, total_chunks: total }
}

proof fn lemma_three_way_split(n: nat, p: spec_fn(int) -> bool, q: spec_fn(int) -> bool, r: spec_fn(int) -> bool)
    requires
        forall|i: int| 0 <= i < n ==> (#[trigger] p(i) as int) + (q(i) as int) + (r(i) as int) == 1,
    ensures
        indices_where(n, p).len() + indices_where(n, q).len() + indices_where(n, r).len() == n,
    decreases n,
{
    if n > 0 {
        lemma_three_way_split((n - 1) as nat, p, q, r);
        assert((p(n - 1) as int) + (q(n - 1) as int) + (r(n - 1) as int) == 1);
    }
}

/// Every new chunk is exactly one of added, modified or unchanged: the
/// three counts add up to the new chunks.
pub proof fn law_new_chunks_split(m: Seq<ManifestChunk>, new: Seq<NewChunk>)
    ensures
        indices_where(new.len(), added_chunk(m, new)).len() + indices_where(
            new.len(),
            modified_chunk(m, new),
        ).len() + indices_where(new.len(), same_chunk(m, new)).len() == new.len(),
{
    let a = added_chunk(m, new);
    let b = modified_chunk(m, new);
    let c = same_chunk(m, new);
    assert forall|i: int| 0 <= i < new.len() implies (#[trigger] a(i) as int) + (b(i) as int) + (
    c(i) as int) == 1 by {
        match key_index(m, new[i].location_key@) {
            Some(j) => {},
            None => {},
        }
    }
    lemma_three_way_split(new.len(), a, b, c);
}

/// Every manifest chunk of a deleted file is removed, and every other one
/// is either of an untouched file or of a changed one: the manifest's
/// chunks split into those of deleted files, of untouched files and of
/// changed files.
pub proof fn law_manifest_chunks_split(m: Seq<ManifestChunk>, new: Seq<NewChunk>, deleted: Seq<String>)
    ensures
        indices_where(m.len(), of_deleted_file(m, deleted)).len() + indices_where(
            m.len(),
            untouched(m, new, deleted),
        ).len() + indices_where(
            m.len(),
            |i: int|
                !named(deleted, file_part(m[i].location_key@)) && from_changed_file(
                    new,
                    file_part(m[i].location_key@),
                ),
        ).len() == m.len(),
{
    let a = of_deleted_file(m, deleted);
    let b = untouched(m, new, deleted);
    let c = |i: int|
        !named(deleted, file_part(m[i].location_key@)) && from_changed_file(
            new,
            file_part(m[i].location_key@),
        );
    lemma_three_way_split(m.len(), a, b, c);
}

} // verus!
