use silo_core::database::{chunk_id, preview, ChunkRow, Database, DbError, SearchHit};
use silo_core::embed::{zero_embedding, EMBEDDING_DIM};

fn embedding_with_first(v: i64) -> Vec<i64> {
    let mut e = zero_embedding();
    e[0] = v;
    e
}

fn rows_for_path<'a>(db: &'a Database, path: &str) -> Vec<&'a ChunkRow> {
    match db {
        Database::Enabled(inner) => inner.rows.iter().filter(|r| r.path == path).collect(),
        Database::Disabled { .. } => Vec::new(),
    }
}

#[test]
fn chunk_id_is_64_hex_and_content_addressed() {
    let a = chunk_id("/p/file.txt", 0, "a b c");
    assert_eq!(a.len(), 64);
    assert!(a.chars().all(|c| c.is_ascii_hexdigit()));
    assert_ne!(a, "a b c");
    // Deterministic, and sensitive to every component.
    assert_eq!(a, chunk_id("/p/file.txt", 0, "a b c"));
    assert_ne!(a, chunk_id("/p/file.txt", 1, "a b c"));
    assert_ne!(a, chunk_id("/p/other.txt", 0, "a b c"));
    assert_ne!(a, chunk_id("/p/file.txt", 0, "a b d"));
}

#[test]
fn replace_file_chunks_replaces_only_that_path() {
    let mut db = Database::new();
    db.replace_file_chunks(
        "/a.txt",
        Some(1),
        Some(10),
        Some("h1".to_string()),
        vec![(0, 0, 3, "a b c".to_string(), zero_embedding())],
    )
    .unwrap();
    db.replace_file_chunks(
        "/b.txt",
        None,
        None,
        None,
        vec![(0, 0, 2, "x y".to_string(), zero_embedding())],
    )
    .unwrap();
    db.replace_file_chunks(
        "/a.txt",
        Some(2),
        Some(12),
        Some("h2".to_string()),
        vec![
            (0, 0, 3, "a b c".to_string(), zero_embedding()),
            (1, 2, 5, "c d e".to_string(), zero_embedding()),
        ],
    )
    .unwrap();
    let a_rows = rows_for_path(&db, "/a.txt");
    assert_eq!(a_rows.len(), 2);
    assert_eq!(a_rows[0].chunk_index, 0);
    assert_eq!(a_rows[0].content, "a b c");
    assert_eq!(a_rows[0].file_hash, Some("h2".to_string()));
    assert_eq!(a_rows[1].chunk_index, 1);
    assert_eq!(rows_for_path(&db, "/b.txt").len(), 1);
}

#[test]
fn replace_twice_with_same_content_keeps_identical_ids() {
    let entries = vec![
        (0usize, 0usize, 3usize, "a b c".to_string(), zero_embedding()),
        (1usize, 2usize, 5usize, "c d e".to_string(), zero_embedding()),
    ];
    let mut db = Database::new();
    db.replace_file_chunks("/a.txt", Some(1), Some(9), Some("h".to_string()), entries.clone())
        .unwrap();
    let ids_first: Vec<String> =
        rows_for_path(&db, "/a.txt").iter().map(|r| r.id.clone()).collect();
    db.replace_file_chunks("/a.txt", Some(1), Some(9), Some("h".to_string()), entries)
        .unwrap();
    let ids_second: Vec<String> =
        rows_for_path(&db, "/a.txt").iter().map(|r| r.id.clone()).collect();
    assert_eq!(ids_first, ids_second);
    assert_eq!(ids_first.len(), 2);
    assert_eq!(ids_first[0], chunk_id("/a.txt", 0, "a b c"));
    assert_eq!(ids_first[1], chunk_id("/a.txt", 1, "c d e"));
}

#[test]
fn disabled_store_writes_succeed_with_no_effect() {
    let mut db = Database::disabled("backend unavailable".to_string());
    assert!(!db.is_enabled());
    let reason = db.disabled_reason().unwrap();
    assert!(!reason.is_empty());
    assert_eq!(reason, "backend unavailable");

    assert!(db.add_document("/a.txt", "hello").is_ok());
    assert!(db
        .add_chunk("id0", "/a.txt", 0, 0, 1, "hello", &zero_embedding())
        .is_ok());
    assert!(db
        .replace_file_chunks("/a.txt", None, None, None, vec![(
            0,
            0,
            1,
            "hello".to_string(),
            zero_embedding(),
        )])
        .is_ok());
    let hits = db.search_chunks_by_vector(&zero_embedding(), 5).unwrap();
    assert!(hits.is_empty());
    assert!(rows_for_path(&db, "/a.txt").is_empty());
}

#[test]
fn enabled_store_reports_no_disabled_reason() {
    let db = Database::new();
    assert!(db.is_enabled());
    assert!(db.disabled_reason().is_none());
}

#[test]
fn add_document_stores_one_row_with_zero_embedding() {
    let mut db = Database::new();
    db.add_document("/doc.txt", "contents").unwrap();
    let rows = rows_for_path(&db, "/doc.txt");
    assert_eq!(rows.len(), 1);
    assert_eq!(rows[0].chunk_index, 0);
    assert_eq!(rows[0].content, "contents");
    assert_eq!(rows[0].embedding.len(), EMBEDDING_DIM);
    assert!(rows[0].embedding.iter().all(|c| *c == 0));
    assert_eq!(rows[0].id.len(), 64);
}

#[test]
fn add_chunk_stores_given_id_and_fields() {
    let mut db = Database::new();
    db.add_chunk("the-id", "/c.txt", 3, 6, 9, "w x", &embedding_with_first(7))
        .unwrap();
    let rows = rows_for_path(&db, "/c.txt");
    assert_eq!(rows.len(), 1);
    assert_eq!(rows[0].id, "the-id");
    assert_eq!(rows[0].chunk_index, 3);
    assert_eq!(rows[0].start_token, 6);
    assert_eq!(rows[0].end_token, 9);
    assert_eq!(rows[0].embedding[0], 7);
}

#[test]
fn search_orders_hits_by_distance() {
    let mut db = Database::new();
    db.add_chunk("i1", "/far.txt", 0, 0, 1, "far away content", &embedding_with_first(100))
        .unwrap();
    db.add_chunk("i2", "/near.txt", 0, 0, 1, "near content", &embedding_with_first(11))
        .unwrap();
    db.add_chunk("i3", "/mid.txt", 0, 0, 1, "middle content", &embedding_with_first(40))
        .unwrap();
    let hits = db
        .search_chunks_by_vector(&embedding_with_first(10), 2)
        .unwrap();
    assert_eq!(hits.len(), 2);
    assert_eq!(hits[0].path, "/near.txt");
    assert_eq!(hits[0].score, Some(1));
    assert_eq!(hits[0].content_preview, Some("near content".to_string()));
    assert_eq!(hits[1].path, "/mid.txt");
    assert_eq!(hits[1].score, Some(30 * 30));
}

#[test]
fn search_returns_all_rows_when_k_exceeds_count() {
    let mut db = Database::new();
    db.add_chunk("i1", "/one.txt", 0, 0, 1, "one", &zero_embedding()).unwrap();
    let hits: Vec<SearchHit> = db
        .search_chunks_by_vector(&zero_embedding(), 50)
        .unwrap();
    assert_eq!(hits.len(), 1);
    assert_eq!(hits[0].score, Some(0));
}

#[test]
fn search_documents_ranks_against_zero_query() {
    let mut db = Database::new();
    db.add_chunk("i1", "/a.txt", 0, 0, 1, "alpha", &embedding_with_first(2)).unwrap();
    db.add_chunk("i2", "/b.txt", 0, 0, 1, "beta", &zero_embedding()).unwrap();
    let hits = db.search_documents("ignored").unwrap();
    assert_eq!(hits.len(), 2);
    assert_eq!(hits[0].path, "/b.txt");
    assert_eq!(hits[0].score, Some(0));
    assert_eq!(hits[1].path, "/a.txt");
    assert_eq!(hits[1].score, Some(4));

    let disabled = Database::disabled("off".to_string());
    assert!(disabled.search_documents("q").unwrap().is_empty());
}

#[test]
fn db_error_carries_its_message() {
    let e = DbError::Storage("disk full".to_string());
    assert_eq!(e.message(), "disk full");
}

#[test]
fn preview_caps_and_marks_truncation() {
    assert_eq!(preview("short", 240), "short");
    assert_eq!(preview("abcdef", 3), "abc\u{2026}");
    assert_eq!(preview("", 0), "");
    assert_eq!(preview("xy", 2), "xy");
    assert_eq!(preview("xyz", 2), "xy\u{2026}");
}
