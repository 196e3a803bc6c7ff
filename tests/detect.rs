use local_search::crawler::FileItem;
use local_search::detect::{diff, plan_lookup, HashedFile, StoredHash};

fn cand(path: &str, hash: &str) -> HashedFile {
    HashedFile {
        file: FileItem { label: path.to_string(), path: path.to_string() },
        hash: hash.to_string(),
    }
}

fn stored(path: &str, hash: &str) -> StoredHash {
    StoredHash { path: path.to_string(), hash: hash.to_string() }
}

fn paths(v: &[HashedFile]) -> Vec<String> {
    v.iter().map(|c| c.file.path.clone()).collect()
}

#[test]
fn empty_candidate_set_needs_no_lookup() {
    assert!(plan_lookup(&vec![]).is_none());
}

#[test]
fn lookup_is_one_statement_for_all_candidates() {
    let l = plan_lookup(&vec![cand("a", "1"), cand("b", "2"), cand("c", "3")]).unwrap();
    assert_eq!(l.sql, "SELECT path, hash FROM items WHERE hash IS NOT NULL AND path IN (?, ?, ?)");
    assert_eq!(l.params, vec!["a".to_string(), "b".to_string(), "c".to_string()]);
}

#[test]
fn lookup_for_one_candidate() {
    let l = plan_lookup(&vec![cand("only", "h")]).unwrap();
    assert_eq!(l.sql, "SELECT path, hash FROM items WHERE hash IS NOT NULL AND path IN (?)");
    assert_eq!(l.params, vec!["only".to_string()]);
}

#[test]
fn diff_against_empty_store_keeps_everything() {
    let cands = vec![cand("a", "1"), cand("b", "2")];
    assert_eq!(paths(&diff(&vec![], &cands)), vec!["a", "b"]);
}

#[test]
fn diff_keeps_new_and_modified_in_order() {
    let existing = vec![stored("same", "h1"), stored("modified", "old")];
    let cands = vec![cand("new", "n"), cand("same", "h1"), cand("modified", "new")];
    let changed = diff(&existing, &cands);
    assert_eq!(paths(&changed), vec!["new", "modified"]);
    assert_eq!(changed[1].hash, "new");
}

#[test]
fn diff_of_up_to_date_candidates_is_empty() {
    let existing = vec![stored("a", "1"), stored("b", "2")];
    assert!(diff(&existing, &vec![cand("a", "1"), cand("b", "2")]).is_empty());
}

#[test]
fn diff_of_no_candidates_is_empty() {
    assert!(diff(&vec![stored("a", "1")], &vec![]).is_empty());
}

#[test]
fn diff_later_stored_row_wins() {
    let existing = vec![stored("a", "old"), stored("a", "1")];
    assert!(diff(&existing, &vec![cand("a", "1")]).is_empty());
}
