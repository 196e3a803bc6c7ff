use vstd::prelude::*;

use crate::detect::{changed_files, is_changed, paths_unique, HashedFile};

verus! {

/// Creates the items table if it is missing; running it again changes nothing.
pub const SCHEMA_SQL: &'static str = "CREATE TABLE IF NOT EXISTS items (
    id INTEGER PRIMARY KEY,
    embedding BLOB,
    label TEXT,
    path TEXT UNIQUE,
    hash TEXT
);";

/// Writes one row: inserts a new path, or overwrites the embedding, label and
/// hash stored for it, keeping its id. Parameters: embedding, label, path, hash.
pub const UPSERT_SQL: &'static str = "INSERT INTO items (embedding, label, path, hash) VALUES (?1, ?2, ?3, ?4)
ON CONFLICT(path) DO UPDATE SET
    embedding=excluded.embedding,
    label=excluded.label,
    hash=excluded.hash";

/// Counts the stored items.
pub const COUNT_SQL: &'static str = "SELECT count(id) FROM items;";

/// Components per embedding: the dimension of the configured model's vectors,
/// which the vector index is configured with too.
pub const EMBEDDING_DIMENSION: usize = 384;

/// Bytes per embedding component: each is a 32-bit float.
pub const BYTES_PER_COMPONENT: usize = 4;

/// One row of an upsert batch: the embedding bytes and the file it belongs to.
#[derive(Debug, Clone)]
pub struct UpsertRow {
    pub embedding: Vec<u8>,
    pub label: String,
    pub path: String,
    pub hash: String,
}

/// Why embeddings could not be paired with the change set.
#[derive(Debug, Clone, Copy, PartialEq, Eq, Structural)]
pub enum BatchError {
    /// The embedder returned another number of vectors than texts given.
    CountMismatch { expected: usize, got: usize },
    /// The vector at `index` does not have the configured dimension.
    DimensionMismatch { index: usize },
}

/// Whether an embedding has `dimension` components.
pub open spec fn has_dimension(embedding: Seq<u8>, dimension: nat) -> bool {
    embedding.len() == BYTES_PER_COMPONENT * dimension
}

/// `rows` is the batch for `files` with `embeddings`: one row per file, in order.
pub open spec fn batch_for(rows: Seq<UpsertRow>, files: Seq<HashedFile>, embeddings: Seq<Vec<u8>>) -> bool {
    &&& rows.len() == files.len()
    &&& forall|i: int|
        #![trigger rows[i]]
        0 <= i < rows.len() ==> {
            &&& rows[i].embedding@ == embeddings[i]@
            &&& rows[i].label == files[i].file.label
            &&& rows[i].path == files[i].file.path
            &&& rows[i].hash == files[i].hash
        }
}

/// Pairs the change set with the vectors the embedder returned for it, in
/// order. Nothing is paired, and so nothing is written, unless there is one
/// vector per file and each has the configured dimension.
pub fn build_batch(changed: &Vec<HashedFile>, embeddings: &Vec<Vec<u8>>, dimension: usize) -> (r:
    Result<Vec<UpsertRow>, BatchError>)
    ensures
        embeddings@.len() != changed@.len() <==> r matches Err(BatchError::CountMismatch { .. }),
        r matches Err(BatchError::CountMismatch { expected, got }) ==> expected == changed@.len()
            && got == embeddings@.len(),
        r matches Err(BatchError::DimensionMismatch { index }) ==> {
            &&& embeddings@.len() == changed@.len()
            &&& index < embeddings@.len()
            &&& !has_dimension(embeddings@[index as int]@, dimension as nat)
            &&& forall|k: int| 0 <= k < index ==> has_dimension(embeddings@[k]@, dimension as nat)
        },
        r is Ok <==> embeddings@.len() == changed@.len() && forall|k: int|
            0 <= k < embeddings@.len() ==> has_dimension(embeddings@[k]@, dimension as nat),
        r matches Ok(rows) ==> batch_for(rows@, changed@, embeddings@),
{
    if embeddings.len() != changed.len() {
        return Err(BatchError::CountMismatch { expected: changed.len(), got: embeddings.len() });
    }
    let mut rows: Vec<UpsertRow> = Vec::new();
    let mut i: usize = 0;
    while i < changed.len()
        invariant
            i <= changed@.len(),
            embeddings@.len() == changed@.len(),
            forall|k: int| 0 <= k < i ==> has_dimension(embeddings@[k]@, dimension as nat),
            batch_for(rows@, changed@.take(i as int), embeddings@.take(i as int)),
        decreases changed@.len() - i,
    {
        let e = &embeddings[i];
        if e.len() % BYTES_PER_COMPONENT != 0 || e.len() / BYTES_PER_COMPONENT != dimension {
            return Err(BatchError::DimensionMismatch { index: i });
        }
        let c = &changed[i];
        let bytes = e.clone();
        assert(bytes@ =~= e@);
        rows.push(
            UpsertRow {
                embedding: bytes,
                label: c.file.label.clone(),
                path: c.file.path.clone(),
                hash: c.hash.clone(),
            },
        );
        i = i + 1;
        assert(batch_for(rows@, changed@.take(i as int), embeddings@.take(i as int)));
    }
    assert(changed@.take(changed@.len() as int) == changed@);
    assert(embeddings@.take(embeddings@.len() as int) == embeddings@);
    Ok(rows)
}

/// The stored `path -> hash` map once a batch is applied, each row inserting
/// its path or overwriting the hash stored for it.
pub open spec fn applied(stored: Map<Seq<char>, Seq<char>>, rows: Seq<UpsertRow>) -> Map<Seq<char>, Seq<char>>
    decreases rows.len(),
{
    if rows.len() == 0 {
        stored
    } else {
        applied(stored, rows.drop_last()).insert(rows.last().path@, rows.last().hash@)
    }
}

proof fn lemma_applied_lookup(stored: Map<Seq<char>, Seq<char>>, rows: Seq<UpsertRow>, p: Seq<char>)
    requires
        forall|i: int, j: int|
            0 <= i < rows.len() && 0 <= j < rows.len() && i != j ==> rows[i].path@ != rows[j].path@,
    ensures
        forall|i: int|
            0 <= i < rows.len() && rows[i].path@ == p ==> applied(stored, rows).contains_key(p)
                && applied(stored, rows)[p] == rows[i].hash@,
        (forall|i: int| 0 <= i < rows.len() ==> rows[i].path@ != p) ==> applied(stored, rows).contains_key(p)
            == stored.contains_key(p) && applied(stored, rows)[p] == stored[p],
    decreases rows.len(),
{
    if rows.len() > 0 {
        let init = rows.drop_last();
        lemma_applied_lookup(stored, init, p);
        assert forall|i: int| 0 <= i < rows.len() && rows[i].path@ == p implies applied(stored, rows).contains_key(p)
            && applied(stored, rows)[p] == rows[i].hash@ by {
            if i < rows.len() - 1 {
                assert(init[i] == rows[i]);
            }
        }
        if forall|i: int| 0 <= i < rows.len() ==> rows[i].path@ != p {
            assert forall|i: int| 0 <= i < init.len() implies init[i].path@ != p by {
                assert(init[i] == rows[i]);
            }
        }
    }
}

proof fn lemma_changed_files_props(stored: Map<Seq<char>, Seq<char>>, cands: Seq<HashedFile>)
    ensures
        forall|i: int|
            0 <= i < changed_files(stored, cands).len() ==> cands.contains(
                #[trigger] changed_files(stored, cands)[i],
            ) && is_changed(stored, changed_files(stored, cands)[i]),
        forall|c: HashedFile|
            cands.contains(c) && is_changed(stored, c) ==> #[trigger] changed_files(
                stored,
                cands,
            ).contains(c),
        paths_unique(cands) ==> paths_unique(changed_files(stored, cands)),
    decreases cands.len(),
{
    if cands.len() > 0 {
        let init = cands.drop_last();
        let last = cands.last();
        lemma_changed_files_props(stored, init);
        let rest = changed_files(stored, init);
        let all = changed_files(stored, cands);
        assert forall|i: int| 0 <= i < all.len() implies cands.contains(#[trigger] all[i]) && is_changed(
            stored,
            all[i],
        ) by {
            if i < rest.len() {
                assert(all[i] == rest[i]);
                let j = choose|j: int| 0 <= j < init.len() && init[j] == rest[i];
                assert(cands[j] == init[j]);
            } else {
                assert(cands[cands.len() - 1] == last);
            }
        }
        assert forall|c: HashedFile| cands.contains(c) && is_changed(stored, c) implies #[trigger] all.contains(
            c,
        ) by {
            let j = choose|j: int| 0 <= j < cands.len() && cands[j] == c;
            if j < cands.len() - 1 {
                assert(init[j] == c);
                assert(rest.contains(c));
                let k = choose|k: int| 0 <= k < rest.len() && rest[k] == c;
                assert(all[k] == c);
            } else {
                assert(all[all.len() - 1] == c);
            }
        }
        if paths_unique(cands) {
            assert(paths_unique(init)) by {
                assert forall|i: int, j: int|
                    0 <= i < init.len() && 0 <= j < init.len() && i != j implies init[i].file.path@
                    != init[j].file.path@ by {
                    assert(init[i] == cands[i]);
                    assert(init[j] == cands[j]);
                }
            }
            if is_changed(stored, last) {
                assert forall|i: int| 0 <= i < rest.len() implies rest[i].file.path@ != last.file.path@ by {
                    let j = choose|j: int| 0 <= j < init.len() && init[j] == rest[i];
                    assert(cands[j] == init[j]);
                    assert(cands[cands.len() - 1] == last);
                }
                assert forall|i: int, j: int|
                    0 <= i < all.len() && 0 <= j < all.len() && i != j implies all[i].file.path@
                    != all[j].file.path@ by {
                    if i < rest.len() {
                        assert(all[i] == rest[i]);
                    }
                    if j < rest.len() {
                        assert(all[j] == rest[j]);
                    }
                }
            }
        }
    }
}

proof fn lemma_changed_files_none(stored: Map<Seq<char>, Seq<char>>, cands: Seq<HashedFile>)
    requires
        forall|i: int| 0 <= i < cands.len() ==> !is_changed(stored, #[trigger] cands[i]),
    ensures
        changed_files(stored, cands).len() == 0,
    decreases cands.len(),
{
    if cands.len() > 0 {
        let init = cands.drop_last();
        assert forall|i: int| 0 <= i < init.len() implies !is_changed(stored, #[trigger] init[i]) by {
            assert(init[i] == cands[i]);
        }
        lemma_changed_files_none(stored, init);
        assert(!is_changed(stored, cands[cands.len() - 1]));
    }
}

/// Re-indexing an unchanged tree writes nothing: once the batch built from a
/// change set is committed, the same candidates have an empty change set.
pub proof fn lemma_reindex_unchanged(
    stored: Map<Seq<char>, Seq<char>>,
    candidates: Seq<HashedFile>,
    rows: Seq<UpsertRow>,
    embeddings: Seq<Vec<u8>>,
)
    requires
        paths_unique(candidates),
        batch_for(rows, changed_files(stored, candidates), embeddings),
    ensures
        changed_files(applied(stored, rows), candidates).len() == 0,
{
    let changed = changed_files(stored, candidates);
    lemma_changed_files_props(stored, candidates);
    assert forall|i: int, j: int|
        0 <= i < rows.len() && 0 <= j < rows.len() && i != j implies rows[i].path@ != rows[j].path@ by {
        assert(rows[i].path == changed[i].file.path);
        assert(rows[j].path == changed[j].file.path);
    }
    assert forall|k: int| 0 <= k < candidates.len() implies !is_changed(
        applied(stored, rows),
        #[trigger] candidates[k],
    ) by {
        let c = candidates[k];
        let p = c.file.path@;
        lemma_applied_lookup(stored, rows, p);
        assert(candidates.contains(c));
        if is_changed(stored, c) {
            assert(changed.contains(c));
            let i = choose|i: int| 0 <= i < changed.len() && changed[i] == c;
            assert(rows[i].path == changed[i].file.path);
        } else {
            assert forall|i: int| 0 <= i < rows.len() implies rows[i].path@ != p by {
                assert(rows[i].path == changed[i].file.path);
                assert(candidates.contains(changed[i]));
                let j = choose|j: int| 0 <= j < candidates.len() && candidates[j] == changed[i];
                if j == k {
                    assert(is_changed(stored, changed[i]));
                }
            }
        }
    }
    lemma_changed_files_none(applied(stored, rows), candidates);
}

/// Where the vector-search extension of the store is loaded from.
#[derive(Debug, Clone)]
pub struct VectorExtension {
    pub extension_path: String,
    pub entry_point: Option<String>,
}

/// `r` is the extension at `path`, entered through `sqlite3_vector_init`.
pub open spec fn is_extension(r: Option<VectorExtension>, path: Seq<char>) -> bool {
    match r {
        Some(c) => c.extension_path@ == path && match c.entry_point {
            Some(e) => e@ == "sqlite3_vector_init"@,
            None => false,
        },
        None => false,
    }
}

/// The vector extension built for an operating system, named as
/// `std::env::consts::OS` names it; `None` where none is built.
pub fn vector_extension_for_os(os: &str) -> (r: Option<VectorExtension>)
    ensures
        os@ == "macos"@ ==> is_extension(r, "../sqlite/extensions/macos-arm-vector"@),
        os@ == "linux"@ ==> is_extension(r, "../sqlite/extensions/linux-x86-vector"@),
        os@ != "macos"@ && os@ != "linux"@ ==> r is None,
{
    proof {
        reveal_strlit("macos");
        reveal_strlit("linux");
        assert("linux"@[0] != "macos"@[0]);
    }
    let name = String::from_str(os);
    if name == String::from_str("macos") {
        Some(
            VectorExtension {
                extension_path: String::from_str("../sqlite/extensions/macos-arm-vector"),
                entry_point: Some(String::from_str("sqlite3_vector_init")),
            },
        )
    } else if name == String::from_str("linux") {
        Some(
            VectorExtension {
                extension_path: String::from_str("../sqlite/extensions/linux-x86-vector"),
                entry_point: Some(String::from_str("sqlite3_vector_init")),
            },
        )
    } else {
        None
    }
}

} // verus!
