//! The per-file ingestion pipeline: chunk the extracted text, embed the
//! chunks, and atomically replace the file's stored rows.
//!
//! File reading and metadata probing happen outside the library; this
//! module receives the extracted text and the file metadata as plain
//! values. The stage that depends on the embedding backend's answer is
//! split off into `process_with_embeddings`, which is exact for every
//! possible answer.

use vstd::prelude::*;
use crate::chunk::{chunk_by_whitespace_tokens, chunk_matches, chunk_stride, join_spaced,
    spec_num_chunks, whitespace_tokens};
use crate::database::{blake3_hex, blake3_hex_chars, clone_embedding, rows_without_path,
    spec_chunk_id, ChunkRow, Database, RowInput};
use crate::embed::{valid_embedding, Embedder};
use crate::extract::{ExtractKind, ExtractResult};
use crate::strutil::{dec_chars, usize_to_string};

verus! {

/// What one file's ingestion reported.
#[derive(Debug, Clone)]
pub struct IngestStats {
    pub path: String,
    pub extracted_kind: String,
    pub extracted_chars: usize,
    pub chunk_tokens: usize,
    pub chunk_overlap_tokens: usize,
    pub chunks: usize,
    pub stored: bool,
}

/// The lower-case name of an extraction kind.
pub open spec fn spec_kind_name(k: ExtractKind) -> Seq<char> {
    match k {
        ExtractKind::Text => "text"@,
        ExtractKind::Pdf => "pdf"@,
        ExtractKind::Unknown => "unknown"@,
    }
}

fn kind_name(k: ExtractKind) -> (r: String)
    ensures
        r@ == spec_kind_name(k),
{
    match k {
        ExtractKind::Text => "text".to_owned(),
        ExtractKind::Pdf => "pdf".to_owned(),
        ExtractKind::Unknown => "unknown".to_owned(),
    }
}

/// Whether `row` is exactly the `i`-th stored chunk row that ingesting a
/// file at `path` with extracted text `text` must produce: the `i`-th
/// token window as its content, its content-addressed id, and the file's
/// metadata with the hash of the whole extracted text.
pub open spec fn ingested_row_ok(
    row: ChunkRow,
    path: Seq<char>,
    file_mtime_epoch_secs: Option<i64>,
    file_size_bytes: Option<i64>,
    text: Seq<char>,
    w: int,
    o: int,
    i: int,
) -> bool {
    let toks = whitespace_tokens(text);
    let start = i * chunk_stride(w, o);
    let end = if start + w <= toks.len() {
        start + w
    } else {
        toks.len() as int
    };
    &&& row.path@ == path
    &&& row.chunk_index == i
    &&& row.start_token == start
    &&& row.end_token == end
    &&& row.content@ == join_spaced(toks.subrange(start, end))
    &&& row.id@ == spec_chunk_id(path, i as nat, join_spaced(toks.subrange(start, end)))
    &&& row.file_mtime_epoch_secs == file_mtime_epoch_secs
    &&& row.file_size_bytes == file_size_bytes
    &&& row.file_hash matches Some(h) && h@ == blake3_hex_chars(text)
}

/// The number of chunks the extracted text yields under the given window.
pub open spec fn expected_chunks(text: Seq<char>, w: int, o: int) -> int {
    spec_num_chunks(whitespace_tokens(text).len() as int, w, o)
}

/// The stage of ingestion after the embedding backend has answered:
/// chunks the extracted text, checks the answer's cardinality against the
/// chunk count, and — when the store is enabled — replaces the file's rows
/// as one logical unit.
///
/// Succeeds exactly when the backend returned one vector per chunk; on the
/// mismatch error nothing is stored.
pub fn process_with_embeddings(
    db: &mut Database,
    path: &str,
    file_mtime_epoch_secs: Option<i64>,
    file_size_bytes: Option<i64>,
    extracted: &ExtractResult,
    chunk_tokens: usize,
    chunk_overlap_tokens: usize,
    embeddings: Vec<Vec<i64>>,
) -> (r: Result<IngestStats, String>)
    requires
        old(db).wf(),
        forall |i: int| 0 <= i < embeddings@.len() ==> valid_embedding(#[trigger] embeddings@[i]@),
    ensures
        final(db).wf(),
        final(db).spec_is_enabled() == old(db).spec_is_enabled(),
        r.is_ok() <==> embeddings@.len() == expected_chunks(
            extracted.text@,
            chunk_tokens as int,
            chunk_overlap_tokens as int,
        ),
        r.is_err() ==> *final(db) == *old(db),
        r matches Err(e) ==> e@ == "embedder returned "@ + dec_chars(embeddings@.len())
            + " vectors for "@ + dec_chars(
            expected_chunks(extracted.text@, chunk_tokens as int, chunk_overlap_tokens as int)
                as nat,
        ) + " chunks"@,
        r matches Ok(stats) ==> {
            &&& stats.path@ == path@
            &&& stats.extracted_kind@ == spec_kind_name(extracted.kind)
            &&& stats.extracted_chars == extracted.text@.len()
            &&& stats.chunk_tokens == chunk_tokens
            &&& stats.chunk_overlap_tokens == chunk_overlap_tokens
            &&& stats.chunks == expected_chunks(
                extracted.text@,
                chunk_tokens as int,
                chunk_overlap_tokens as int,
            )
            &&& stats.stored == old(db).spec_is_enabled()
            &&& !old(db).spec_is_enabled() ==> *final(db) == *old(db)
            &&& old(db).spec_is_enabled() ==> {
                let kept = rows_without_path(old(db).spec_rows(), path@);
                let rs = final(db).spec_rows();
                &&& rs.len() == kept.len() + stats.chunks
                &&& rs.take(kept.len() as int) == kept
                &&& forall |i: int|
                    0 <= i < stats.chunks ==> ingested_row_ok(
                        #[trigger] rs[kept.len() + i],
                        path@,
                        file_mtime_epoch_secs,
                        file_size_bytes,
                        extracted.text@,
                        chunk_tokens as int,
                        chunk_overlap_tokens as int,
                        i,
                    ) && (#[trigger] rs[kept.len() + i]).embedding@ == embeddings@[i]@
            }
        },
{
    let ghost w = chunk_tokens as int;
    let ghost o = chunk_overlap_tokens as int;
    let ghost toks = whitespace_tokens(extracted.text@);
    let chunks = chunk_by_whitespace_tokens(
        extracted.text.as_str(),
        chunk_tokens,
        chunk_overlap_tokens,
    );
    if embeddings.len() != chunks.len() {
        let mut msg = "embedder returned ".to_owned();
        msg.append(usize_to_string(embeddings.len()).as_str());
        msg.append(" vectors for ");
        msg.append(usize_to_string(chunks.len()).as_str());
        msg.append(" chunks");
        return Err(msg);
    }
    let extracted_chars = extracted.text.unicode_len();
    let n_chunks = chunks.len();
    let stored = if db.is_enabled() {
        let file_hash = blake3_hex(extracted.text.as_str());
        let mut entries: Vec<RowInput> = Vec::new();
        let mut k: usize = 0;
        while k < n_chunks
            invariant
                toks == whitespace_tokens(extracted.text@),
                w == chunk_tokens as int,
                o == chunk_overlap_tokens as int,
                n_chunks == chunks@.len(),
                n_chunks == embeddings@.len(),
                forall |j: int|
                    0 <= j < chunks@.len() ==> chunk_matches(#[trigger] chunks@[j], j, toks, w, o),
                forall |j: int| 0 <= j < embeddings@.len() ==> valid_embedding(
                    #[trigger] embeddings@[j]@,
                ),
                k <= n_chunks,
                entries@.len() == k,
                forall |j: int|
                    0 <= j < k ==> {
                        let e = #[trigger] entries@[j];
                        &&& e.0 == chunks@[j].index
                        &&& e.1 == chunks@[j].start_token
                        &&& e.2 == chunks@[j].end_token
                        &&& e.3@ == chunks@[j].text@
                        &&& e.4@ == embeddings@[j]@
                    },
            decreases n_chunks - k,
        {
            let c = &chunks[k];
            entries.push((c.index, c.start_token, c.end_token, c.text.clone(), clone_embedding(
                &embeddings[k],
            )));
            k = k + 1;
        }
        let res = db.replace_file_chunks(
            path,
            file_mtime_epoch_secs,
            file_size_bytes,
            Some(file_hash),
            entries,
        );
        match res {
            Ok(()) => {},
            Err(e) => {
                let mut msg = "DB write failed: ".to_owned();
                msg.append(e.message().as_str());
                return Err(msg);
            },
        }
        true
    } else {
        false
    };
    Ok(
        IngestStats {
            path: path.to_owned(),
            extracted_kind: kind_name(extracted.kind),
            extracted_chars,
            chunk_tokens,
            chunk_overlap_tokens,
            chunks: n_chunks,
            stored,
        },
    )
}

/// Processes one file whose text has already been extracted: chunk, embed
/// through the given backend, and replace the file's stored rows. A
/// failure of the embedding backend (or a backend answer of the wrong
/// cardinality) is returned as the error and leaves the store untouched.
pub fn process_extracted<E: Embedder>(
    db: &mut Database,
    embedder: &E,
    path: &str,
    file_mtime_epoch_secs: Option<i64>,
    file_size_bytes: Option<i64>,
    extracted: &ExtractResult,
    chunk_tokens: usize,
    chunk_overlap_tokens: usize,
) -> (r: Result<IngestStats, String>)
    requires
        old(db).wf(),
    ensures
        final(db).wf(),
        final(db).spec_is_enabled() == old(db).spec_is_enabled(),
        r.is_err() ==> *final(db) == *old(db),
        r matches Ok(stats) ==> {
            &&& stats.path@ == path@
            &&& stats.extracted_kind@ == spec_kind_name(extracted.kind)
            &&& stats.extracted_chars == extracted.text@.len()
            &&& stats.chunk_tokens == chunk_tokens
            &&& stats.chunk_overlap_tokens == chunk_overlap_tokens
            &&& stats.chunks == expected_chunks(
                extracted.text@,
                chunk_tokens as int,
                chunk_overlap_tokens as int,
            )
            &&& stats.stored == old(db).spec_is_enabled()
            &&& !old(db).spec_is_enabled() ==> *final(db) == *old(db)
            &&& old(db).spec_is_enabled() ==> {
                let kept = rows_without_path(old(db).spec_rows(), path@);
                let rs = final(db).spec_rows();
                &&& rs.len() == kept.len() + stats.chunks
                &&& rs.take(kept.len() as int) == kept
                &&& forall |i: int|
                    0 <= i < stats.chunks ==> ingested_row_ok(
                        #[trigger] rs[kept.len() + i],
                        path@,
                        file_mtime_epoch_secs,
                        file_size_bytes,
                        extracted.text@,
                        chunk_tokens as int,
                        chunk_overlap_tokens as int,
                        i,
                    )
            }
        },
{
    let chunks = chunk_by_whitespace_tokens(
        extracted.text.as_str(),
        chunk_tokens,
        chunk_overlap_tokens,
    );
    let mut texts: Vec<String> = Vec::new();
    let mut k: usize = 0;
    while k < chunks.len()
        invariant
            k <= chunks@.len(),
            texts@.len() == k,
        decreases chunks@.len() - k,
    {
        texts.push(chunks[k].text.clone());
        k = k + 1;
    }
    let embeddings = match embedder.embed_texts(texts) {
        Ok(vs) => vs,
        Err(e) => {
            return Err(e);
        },
    };
    process_with_embeddings(
        db,
        path,
        file_mtime_epoch_secs,
        file_size_bytes,
        extracted,
        chunk_tokens,
        chunk_overlap_tokens,
        embeddings,
    )
}

} // verus!
