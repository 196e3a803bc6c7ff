use std::sync::Mutex;

use local_search::crawler::{list_src_files, DirEntry, EntryKind, FileItem};
use local_search::detect::{diff, plan_lookup, HashedFile, StoredHash};
use local_search::query::{SearchEvent, SearchStatus, SearchStep};
use local_search::store::{build_batch, UpsertRow, COUNT_SQL, SCHEMA_SQL, UPSERT_SQL};
use local_search::transaction::{TxCommand, UpsertTx};
use rusqlite::types::ToSql;
use rusqlite::{params_from_iter, Connection};
use sha2::Digest;

fn sha256_hex(text: &str) -> String {
    hex::encode(sha2::Sha256::digest(text.as_bytes()))
}

fn open_store() -> Connection {
    let conn = Connection::open_in_memory().unwrap();
    conn.execute_batch(SCHEMA_SQL).unwrap();
    // initialising twice changes nothing
    conn.execute_batch(SCHEMA_SQL).unwrap();
    conn
}

fn entry(name: &str, path: &str, kind: EntryKind) -> DirEntry {
    DirEntry { name: name.to_string(), path: path.to_string(), kind }
}

// The tree: a.txt ("hello") and b/c.txt ("world").
fn crawl_example() -> Vec<FileItem> {
    let mut crawl = list_src_files(".".to_string(), true).unwrap();
    while let Some(dir) = crawl.next_dir() {
        let entries = if dir == "." {
            vec![entry("a.txt", "a.txt", EntryKind::File), entry("b", "b", EntryKind::Directory)]
        } else {
            vec![entry("c.txt", "b/c.txt", EntryKind::File)]
        };
        crawl.visit(&entries);
    }
    crawl.into_items()
}

fn content(path: &str) -> Option<String> {
    match path {
        "a.txt" => Some("hello".to_string()),
        "b/c.txt" => Some("world".to_string()),
        _ => None,
    }
}

fn candidates(items: &[FileItem]) -> Vec<HashedFile> {
    items.iter().map(|f| f.hashed(content(&f.path))).collect()
}

fn lookup(conn: &Connection, cands: &Vec<HashedFile>) -> Vec<StoredHash> {
    match plan_lookup(cands) {
        None => Vec::new(),
        Some(l) => {
            let mut stmt = conn.prepare(&l.sql).unwrap();
            let rows = stmt
                .query_map(params_from_iter(l.params.iter()), |r| {
                    Ok(StoredHash { path: r.get(0)?, hash: r.get(1)? })
                })
                .unwrap();
            rows.map(|r| r.unwrap()).collect()
        }
    }
}

fn write(conn: &Connection, rows: &[UpsertRow], fail_at: Option<usize>) -> (bool, usize) {
    let mut tx = UpsertTx::new(rows.len());
    let mut writes = 0;
    loop {
        let ok = match tx.next_command() {
            TxCommand::Begin => conn.execute_batch("BEGIN").is_ok(),
            TxCommand::Write(i) => {
                writes += 1;
                if fail_at == Some(i) {
                    false
                } else {
                    let r = &rows[i];
                    let args: [&dyn ToSql; 4] = [&r.embedding, &r.label, &r.path, &r.hash];
                    conn.execute(UPSERT_SQL, &args[..]).is_ok()
                }
            }
            TxCommand::Commit => conn.execute_batch("COMMIT").is_ok(),
            TxCommand::Rollback => conn.execute_batch("ROLLBACK").is_ok(),
            TxCommand::Finish => break,
        };
        tx.report(ok);
    }
    (tx.is_committed(), writes)
}

fn table(conn: &Connection) -> Vec<(i64, String, String, String)> {
    let mut stmt = conn.prepare("SELECT id, label, path, hash FROM items ORDER BY path").unwrap();
    let rows = stmt.query_map([], |r| Ok((r.get(0)?, r.get(1)?, r.get(2)?, r.get(3)?))).unwrap();
    rows.map(|r| r.unwrap()).collect()
}

fn count(conn: &Connection) -> i64 {
    conn.query_row(COUNT_SQL, [], |r| r.get(0)).unwrap()
}

fn index(conn: &Connection, items: &[FileItem], fail_at: Option<usize>) -> (bool, usize) {
    let cands = candidates(items);
    let existing = lookup(conn, &cands);
    let changed = diff(&existing, &cands);
    let embs: Vec<Vec<u8>> = (0..changed.len()).map(|i| vec![i as u8; 8]).collect();
    let rows = build_batch(&changed, &embs, 2).unwrap();
    write(conn, &rows, fail_at)
}

#[test]
fn example_tree_is_indexed_once() {
    let conn = open_store();
    let items = crawl_example();
    assert_eq!(items.len(), 2);
    let (committed, writes) = index(&conn, &items, None);
    assert!(committed);
    assert_eq!(writes, 2);
    let t = table(&conn);
    assert_eq!(t.len(), 2);
    assert_ne!(t[0].0, t[1].0);
    assert_eq!(t[0].2, "a.txt");
    assert_eq!(t[0].1, "a.txt");
    assert_eq!(t[0].3, sha256_hex("a.txt\n\nhello"));
    assert_eq!(t[1].2, "b/c.txt");
    assert_eq!(t[1].1, "c.txt");
    assert_eq!(t[1].3, sha256_hex("b/c.txt\n\nworld"));

    let again = candidates(&crawl_example());
    let existing = lookup(&conn, &again);
    assert!(diff(&existing, &again).is_empty());
    let (_, writes) = index(&conn, &crawl_example(), None);
    assert_eq!(writes, 0);
    assert_eq!(table(&conn), t);
}

#[test]
fn modified_file_is_overwritten_keeping_its_id() {
    let conn = open_store();
    index(&conn, &crawl_example(), None);
    let before = table(&conn);
    let f = FileItem { label: "a.txt".to_string(), path: "a.txt".to_string() };
    let cands = vec![f.hashed(Some("changed".to_string()))];
    let changed = diff(&lookup(&conn, &cands), &cands);
    assert_eq!(changed.len(), 1);
    let rows = build_batch(&changed, &vec![vec![9u8; 8]], 2).unwrap();
    assert!(write(&conn, &rows, None).0);
    let after = table(&conn);
    assert_eq!(after.len(), 2);
    assert_eq!(after[0].0, before[0].0);
    assert_eq!(after[0].3, sha256_hex("a.txt\n\nchanged"));
    assert_eq!(after[1], before[1]);
}

#[test]
fn failed_batch_leaves_store_as_before() {
    let conn = open_store();
    let first = vec![FileItem { label: "a.txt".to_string(), path: "a.txt".to_string() }];
    assert!(index(&conn, &first, None).0);
    let before = table(&conn);
    let (committed, _) = index(&conn, &crawl_example(), Some(0));
    assert!(!committed);
    assert_eq!(table(&conn), before);
    let items = crawl_example();
    let cands = candidates(&items);
    let existing = lookup(&conn, &cands);
    let changed = diff(&existing, &cands);
    let rows = build_batch(&changed, &vec![vec![0u8; 8]; changed.len()], 2).unwrap();
    assert_eq!(rows.len(), 1);
    let (committed, _) = write(&conn, &rows, Some(0));
    assert!(!committed);
    assert_eq!(table(&conn), before);
}

#[test]
fn search_waits_for_seeding() {
    let conn = open_store();
    let admitted = |n: i64| {
        let mut s = SearchStep::start();
        s.observe(SearchEvent::StoreLock { acquired: true });
        s.observe(SearchEvent::ModelLock { acquired: true, ready: true });
        s.observe(SearchEvent::ItemCount(n));
        s
    };
    assert_eq!(admitted(count(&conn)).outcome(), Some(SearchStatus::StillSeeding));
    index(&conn, &crawl_example(), None);
    let s = admitted(count(&conn));
    assert_eq!(s, SearchStep::RunQuery);
    assert_ne!(s.outcome(), Some(SearchStatus::StillSeeding));
}

#[test]
fn search_during_indexing_is_busy() {
    let store = Mutex::new(open_store());
    let guard = store.lock().unwrap();
    guard.execute_batch("BEGIN").unwrap();
    let acquired = store.try_lock().is_ok();
    let mut s = SearchStep::start();
    s.observe(SearchEvent::StoreLock { acquired });
    assert_eq!(s.outcome(), Some(SearchStatus::DatabaseBusy));
    guard.execute_batch("ROLLBACK").unwrap();
    drop(guard);
    let conn = store.lock().unwrap();
    assert_eq!(count(&conn), 0);
    assert!(conn.query_row("PRAGMA integrity_check", [], |r| r.get::<_, String>(0)).unwrap() == "ok");
}
