use silo_core::chunk::chunk_by_whitespace_tokens;
use silo_core::config::{compile_filesystem_policy, FileSystemSourceConfig};
use silo_core::database::{chunk_id, ChunkRow, Database};
use silo_core::embed::{Embedder, EmbedderKind, NoopEmbedder, EMBEDDING_DIM};
use silo_core::extract::{detect_kind, extract_from_bytes, preview_text, truncate_bytes, ExtractKind};
use silo_core::filesystem::{classify_entry, Classification, EntryInfo, EntryKind};
use silo_core::ingest::{process_extracted, process_with_embeddings};

fn policy_txt_only() -> silo_core::config::CompiledFileSystemPolicy {
    let cfg = FileSystemSourceConfig {
        roots: vec!["/root".to_string()],
        exclude_globs: Vec::new(),
        allow_extensions: vec!["txt".to_string()],
        max_file_size_bytes: 1024,
        max_text_bytes: 1024,
        follow_symlinks: false,
    };
    compile_filesystem_policy(&cfg).unwrap()
}

fn file_meta(size: u64) -> EntryInfo {
    EntryInfo::Meta {
        kind: EntryKind::File,
        size_bytes: size,
        modified_epoch_secs: Some(1_700_000_000),
        inode: Some(42),
    }
}

fn rows_for_path<'a>(db: &'a Database, path: &str) -> Vec<&'a ChunkRow> {
    match db {
        Database::Enabled(inner) => inner.rows.iter().filter(|r| r.path == path).collect(),
        Database::Disabled { .. } => Vec::new(),
    }
}

#[test]
fn scenario_txt_ingested_pdf_skipped() {
    // Root holds a.txt = "a b c d e" and b.pdf; allowed extensions = {txt}.
    let pol = policy_txt_only();

    // b.pdf never reaches the extractor: the scanner rejects it by extension.
    let pdf_class = classify_entry(&pol, "/root/b.pdf", &file_meta(10));
    assert_eq!(pdf_class, Classification::ExtensionNotAllowed);

    // a.txt is accepted and ingested with W=3, O=1.
    let txt_class = classify_entry(&pol, "/root/a.txt", &file_meta(9));
    assert_eq!(txt_class, Classification::Candidate);

    let mut db = Database::new();
    let embedder = NoopEmbedder;
    let extracted = extract_from_bytes(ExtractKind::Text, b"a b c d e".to_vec(), 1024);
    let stats = process_extracted(
        &mut db,
        &embedder,
        "/root/a.txt",
        Some(1_700_000_000),
        Some(9),
        &extracted,
        3,
        1,
    )
    .unwrap();
    assert_eq!(stats.chunks, 2);
    assert!(stats.stored);
    assert_eq!(stats.extracted_kind, "text");
    assert_eq!(stats.extracted_chars, 9);

    let rows = rows_for_path(&db, "/root/a.txt");
    assert_eq!(rows.len(), 2);
    assert_eq!(rows[0].content, "a b c");
    assert_eq!(rows[0].start_token, 0);
    assert_eq!(rows[0].end_token, 3);
    assert_eq!(rows[0].id, chunk_id("/root/a.txt", 0, "a b c"));
    assert_eq!(rows[1].content, "c d e");
    assert_eq!(rows[1].start_token, 2);
    assert_eq!(rows[1].end_token, 5);
    assert_eq!(rows[1].id, chunk_id("/root/a.txt", 1, "c d e"));
}

#[test]
fn noop_embedder_returns_one_vector_per_text() {
    let embedder = NoopEmbedder;
    assert!(matches!(embedder.kind(), EmbedderKind::Noop));
    assert_eq!(embedder.dim(), EMBEDDING_DIM);
    for n in [0usize, 1, 5, 17] {
        let texts: Vec<String> = (0..n).map(|i| format!("text {i}")).collect();
        let vecs = embedder.embed_texts(texts).unwrap();
        assert_eq!(vecs.len(), n);
        for v in &vecs {
            assert_eq!(v.len(), EMBEDDING_DIM);
            assert!(v.iter().all(|c| *c == 0));
        }
    }
    let q = embedder.embed_query("hello".to_string()).unwrap();
    assert_eq!(q.len(), EMBEDDING_DIM);
}

struct LengthEmbedder;

impl Embedder for LengthEmbedder {
    fn kind(&self) -> EmbedderKind {
        EmbedderKind::FastEmbed
    }

    fn dim(&self) -> usize {
        EMBEDDING_DIM
    }

    fn embed_texts(&self, texts: Vec<String>) -> Result<Vec<Vec<i64>>, String> {
        let mut out = Vec::new();
        for t in &texts {
            let mut v = vec![0i64; EMBEDDING_DIM];
            v[0] = t.len() as i64;
            out.push(v);
        }
        Ok(out)
    }
}

#[test]
fn embed_query_is_the_one_element_batch_form() {
    // A backend that leaves `embed_query` to its default body gets the
    // one-element convenience form of `embed_texts`.
    let e = LengthEmbedder;
    let v = e.embed_query("hello!".to_string()).unwrap();
    assert_eq!(v.len(), EMBEDDING_DIM);
    assert_eq!(v[0], 6);
    let zero_noop = NoopEmbedder.embed_query("hello!".to_string()).unwrap();
    assert!(zero_noop.iter().all(|c| *c == 0));
}

#[test]
fn cardinality_mismatch_is_an_error_and_stores_nothing() {
    let mut db = Database::new();
    let extracted = extract_from_bytes(ExtractKind::Text, b"a b c d e".to_vec(), 1024);
    // Two chunks are expected; hand in only one embedding.
    let err = process_with_embeddings(
        &mut db,
        "/root/a.txt",
        None,
        None,
        &extracted,
        3,
        1,
        vec![vec![0i64; EMBEDDING_DIM]],
    )
    .unwrap_err();
    assert_eq!(err, "embedder returned 1 vectors for 2 chunks");
    assert!(rows_for_path(&db, "/root/a.txt").is_empty());
}

#[test]
fn ingest_against_disabled_store_reports_not_stored() {
    let mut db = Database::disabled("no backend".to_string());
    let embedder = NoopEmbedder;
    let extracted = extract_from_bytes(ExtractKind::Text, b"a b c".to_vec(), 1024);
    let stats =
        process_extracted(&mut db, &embedder, "/x.txt", None, None, &extracted, 2, 0).unwrap();
    assert!(!stats.stored);
    assert_eq!(stats.chunks, 2);
}

#[test]
fn detect_kind_dispatches_on_extension() {
    assert!(matches!(detect_kind("/a/report.pdf"), ExtractKind::Pdf));
    assert!(matches!(detect_kind("/a/REPORT.PDF"), ExtractKind::Pdf));
    assert!(matches!(detect_kind("/a/notes.txt"), ExtractKind::Text));
    assert!(matches!(detect_kind("/a/data.json"), ExtractKind::Text));
    assert!(matches!(detect_kind("/a/Makefile"), ExtractKind::Unknown));
}

#[test]
fn preview_text_caps_by_characters() {
    assert_eq!(preview_text("hello", 10), ("hello".to_string(), false));
    assert_eq!(preview_text("hello", 5), ("hello".to_string(), false));
    assert_eq!(preview_text("hello", 4), ("hell".to_string(), true));
    assert_eq!(preview_text("", 0), (String::new(), false));
}

#[test]
fn truncate_bytes_caps_and_flags() {
    let (kept, truncated) = truncate_bytes(vec![1, 2, 3, 4, 5], 3);
    assert_eq!(kept, vec![1, 2, 3]);
    assert!(truncated);
    let (kept2, truncated2) = truncate_bytes(vec![1, 2], 3);
    assert_eq!(kept2, vec![1, 2]);
    assert!(!truncated2);
    let (kept3, truncated3) = truncate_bytes(Vec::new(), 0);
    assert!(kept3.is_empty());
    assert!(!truncated3);
}

#[test]
fn extraction_decodes_leniently_after_capping() {
    // 0xFF is never valid UTF-8: lenient decoding turns it into the
    // replacement character instead of failing.
    let r = extract_from_bytes(ExtractKind::Text, vec![b'h', b'i', 0xFF], 1024);
    assert_eq!(r.text, "hi\u{FFFD}");
    assert!(!r.truncated);
    assert!(matches!(r.kind, ExtractKind::Text));

    // The cap cuts a multi-byte sequence in half; decoding still succeeds.
    let mut bytes = b"ab".to_vec();
    bytes.extend_from_slice("é".as_bytes());
    let r2 = extract_from_bytes(ExtractKind::Text, bytes, 3);
    assert!(r2.truncated);
    assert_eq!(r2.text, "ab\u{FFFD}");

    let r3 = extract_from_bytes(ExtractKind::Pdf, b"from converter".to_vec(), 1024);
    assert!(matches!(r3.kind, ExtractKind::Pdf));
    assert_eq!(r3.text, "from converter");
}
