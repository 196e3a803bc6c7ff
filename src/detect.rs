use vstd::prelude::*;

use crate::crawler::FileItem;
use crate::digest::{canonical_text, content_of, digest_hex};

verus! {

/// A persisted `(path, hash)` pair, as the bulk lookup returns it.
#[derive(Debug, Clone)]
pub struct StoredHash {
    pub path: String,
    pub hash: String,
}

/// A crawled file together with the hex digest of its current content.
#[derive(Debug, Clone)]
pub struct HashedFile {
    pub file: FileItem,
    pub hash: String,
}

/// The bulk lookup to run against the store: one statement and its parameters.
#[derive(Debug)]
pub struct Lookup {
    pub sql: String,
    pub params: Vec<String>,
}

/// The persisted hashes as a map from path to hash (a later row for a path wins).
pub open spec fn stored_map(rows: Seq<StoredHash>) -> Map<Seq<char>, Seq<char>>
    decreases rows.len(),
{
    if rows.len() == 0 {
        Map::empty()
    } else {
        stored_map(rows.drop_last()).insert(rows.last().path@, rows.last().hash@)
    }
}

/// A candidate needs re-embedding when its path is not stored, or is stored
/// with another hash.
pub open spec fn is_changed(stored: Map<Seq<char>, Seq<char>>, c: HashedFile) -> bool {
    !stored.contains_key(c.file.path@) || stored[c.file.path@] != c.hash@
}

/// The change set: the candidates that need re-embedding, in candidate order.
pub open spec fn changed_files(stored: Map<Seq<char>, Seq<char>>, cands: Seq<HashedFile>) -> Seq<
    HashedFile,
>
    decreases cands.len(),
{
    if cands.len() == 0 {
        Seq::empty()
    } else {
        let rest = changed_files(stored, cands.drop_last());
        if is_changed(stored, cands.last()) {
            rest.push(cands.last())
        } else {
            rest
        }
    }
}

/// Candidates form a set keyed by path: no two share a path.
pub open spec fn paths_unique(cands: Seq<HashedFile>) -> bool {
    forall|i: int, j: int|
        0 <= i < cands.len() && 0 <= j < cands.len() && i != j ==> cands[i].file.path@
            != cands[j].file.path@
}

/// `n` comma-separated placeholders.
pub open spec fn placeholders(n: nat) -> Seq<char>
    decreases n,
{
    if n == 0 {
        Seq::empty()
    } else if n == 1 {
        "?"@
    } else {
        placeholders((n - 1) as nat) + ", ?"@
    }
}

/// The statement that fetches the stored hashes of `n` paths at once.
pub open spec fn lookup_sql(n: nat) -> Seq<char> {
    "SELECT path, hash FROM items WHERE hash IS NOT NULL AND path IN ("@ + placeholders(n) + ")"@
}

/// The single bulk lookup for a set of candidates, or `None` when there is no
/// candidate: an empty candidate set needs neither the store nor the embedder.
pub fn plan_lookup(candidates: &Vec<HashedFile>) -> (r: Option<Lookup>)
    ensures
        r is None <==> candidates@.len() == 0,
        r matches Some(l) ==> {
            &&& l.sql@ == lookup_sql(candidates@.len())
            &&& l.params@.len() == candidates@.len()
            &&& forall|i: int| 0 <= i < candidates@.len() ==> l.params@[i] == candidates@[i].file.path
        },
{
    if candidates.len() == 0 {
        return None;
    }
    let mut sql = String::from_str("SELECT path, hash FROM items WHERE hash IS NOT NULL AND path IN (");
    let mut params: Vec<String> = Vec::new();
    let mut i: usize = 0;
    while i < candidates.len()
        invariant
            i <= candidates@.len(),
            sql@ == "SELECT path, hash FROM items WHERE hash IS NOT NULL AND path IN ("@ + placeholders(i as nat),
            params@.len() == i,
            forall|k: int| 0 <= k < i ==> params@[k] == candidates@[k].file.path,
        decreases candidates@.len() - i,
    {
        if i == 0 {
            sql.append("?");
        } else {
            sql.append(", ?");
        }
        params.push(candidates[i].file.path.clone());
        i = i + 1;
    }
    sql.append(")");
    Some(Lookup { sql, params })
}

/// Whether the stored rows hold `path` with exactly `hash`.
fn is_current(existing: &Vec<StoredHash>, path: &String, hash: &String) -> (r: bool)
    ensures
        r == (stored_map(existing@).contains_key(path@) && stored_map(existing@)[path@] == hash@),
{
    let mut found: Option<usize> = None;
    let mut j: usize = 0;
    while j < existing.len()
        invariant
            j <= existing@.len(),
            found is None <==> !stored_map(existing@.take(j as int)).contains_key(path@),
            found matches Some(k) ==> k < j && stored_map(existing@.take(j as int))[path@]
                == existing@[k as int].hash@,
        decreases existing@.len() - j,
    {
        assert(existing@.take(j + 1).drop_last() == existing@.take(j as int));
        if existing[j].path == *path {
            found = Some(j);
        }
        j = j + 1;
    }
    assert(existing@.take(existing@.len() as int) == existing@);
    match found {
        None => false,
        Some(k) => existing[k].hash == *hash,
    }
}

/// The change set of `candidates` against the stored hashes, computed from the
/// one bulk lookup: every candidate whose path is absent or whose hash differs.
pub fn diff(existing: &Vec<StoredHash>, candidates: &Vec<HashedFile>) -> (r: Vec<HashedFile>)
    ensures
        r@ == changed_files(stored_map(existing@), candidates@),
{
    let mut out: Vec<HashedFile> = Vec::new();
    let mut i: usize = 0;
    while i < candidates.len()
        invariant
            i <= candidates@.len(),
            out@ == changed_files(stored_map(existing@), candidates@.take(i as int)),
        decreases candidates@.len() - i,
    {
        let c = &candidates[i];
        assert(candidates@.take(i + 1).drop_last() == candidates@.take(i as int));
        if !is_current(existing, &c.file.path, &c.hash) {
            out.push(
                HashedFile {
                    file: FileItem { label: c.file.label.clone(), path: c.file.path.clone() },
                    hash: c.hash.clone(),
                },
            );
        }
        i = i + 1;
    }
    assert(candidates@.take(candidates@.len() as int) == candidates@);
    out
}

impl FileItem {
    /// The file paired with the digest of its current content, given what
    /// reading it gave (`None` when it could not be read as text).
    pub fn hashed(&self, loaded: Option<String>) -> (r: HashedFile)
        ensures
            r.file == *self,
            r.hash@ == digest_hex(canonical_text(self.path@, content_of(self.path@, loaded))),
    {
        let digest = self.hash(loaded);
        HashedFile {
            file: FileItem { label: self.label.clone(), path: self.path.clone() },
            hash: digest.into_hex(),
        }
    }
}

} // verus!
