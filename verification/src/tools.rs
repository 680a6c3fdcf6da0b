//! Results of tool invocations, and the semantic-search operation that
//! combines the embedder and the store.
//!
//! The request protocol itself (framing, JSON, method aliasing) lives
//! outside the library; what a tool computes and how a failure is
//! represented live here.

use vstd::prelude::*;
use crate::database::{search_hits_ok, Database, SearchHit};
use crate::embed::{valid_embedding, Embedder};

verus! {

/// One piece of a tool's result.
#[derive(Debug, Clone)]
pub struct ToolResultContent {
    /// The content's type tag; always `text` here.
    pub kind: String,
    /// The content itself.
    pub text: String,
}

/// What a tool call produced: content pieces, and whether it failed.
#[derive(Debug, Clone)]
pub struct ToolResult {
    pub content: Vec<ToolResultContent>,
    pub is_error: bool,
}

/// Wraps an error message as a failed tool result with one text item.
pub fn err_text(msg: String) -> (r: ToolResult)
    ensures
        r.is_error,
        r.content@.len() == 1,
        r.content@[0].kind@ == "text"@,
        r.content@[0].text == msg,
{
    let mut content: Vec<ToolResultContent> = Vec::new();
    content.push(ToolResultContent { kind: "text".to_owned(), text: msg });
    ToolResult { content, is_error: true }
}

/// The requested result count clamped to the supported range, with the
/// usual default.
pub open spec fn clamped_top_k(top_k: Option<usize>) -> int {
    let k = match top_k {
        Some(k) => k as int,
        None => 10,
    };
    if k < 1 {
        1
    } else if k > 50 {
        50
    } else {
        k
    }
}

/// Whether `hits` is a correct nearest-neighbor answer over `rows` for
/// some well-formed query embedding.
pub open spec fn searched_ok(hits: Seq<SearchHit>, rows: Seq<crate::database::ChunkRow>, k: int)
    -> bool {
    exists |q: Seq<i64>|
        valid_embedding(q) && #[trigger] search_hits_ok(hits, q, rows, k)
}

/// Semantic search: embeds the query and returns the nearest stored
/// chunks. Against a disabled store this fails with the store's reason;
/// an embedding failure is reported as the error. On success the hits are
/// a correct nearest-neighbor answer for the embedded query.
pub fn silo_search<E: Embedder>(
    db: &Database,
    embedder: &E,
    query: String,
    top_k: Option<usize>,
) -> (r: Result<Vec<SearchHit>, String>)
    requires
        db.wf(),
    ensures
        !db.spec_is_enabled() ==> (*db matches Database::Disabled { reason } && r matches Err(e)
            && e@ == "Knowledge base is disabled: "@ + reason@),
        r matches Ok(hits) ==> db.spec_is_enabled() && searched_ok(
            hits@,
            db.spec_rows(),
            clamped_top_k(top_k),
        ),
{
    if !db.is_enabled() {
        let mut msg = "Knowledge base is disabled: ".to_owned();
        match db.disabled_reason() {
            Some(reason) => msg.append(reason.as_str()),
            None => msg.append("unknown reason"),
        }
        return Err(msg);
    }
    let k0: usize = match top_k {
        Some(k) => k,
        None => 10,
    };
    let k: usize = if k0 < 1 {
        1
    } else if k0 > 50 {
        50
    } else {
        k0
    };
    let qvec = match embedder.embed_query(query) {
        Ok(v) => v,
        Err(e) => {
            let mut msg = "Embedding failed: ".to_owned();
            msg.append(e.as_str());
            return Err(msg);
        },
    };
    match db.search_chunks_by_vector(&qvec, k) {
        Ok(hits) => {
            proof {
                assert(searched_ok(hits@, db.spec_rows(), clamped_top_k(top_k))) by {
                    assert(valid_embedding(qvec@) && search_hits_ok(
                        hits@,
                        qvec@,
                        db.spec_rows(),
                        clamped_top_k(top_k),
                    ));
                }
            }
            Ok(hits)
        },
        Err(e) => {
            let mut msg = "DB search failed: ".to_owned();
            msg.append(e.message().as_str());
            Err(msg)
        },
    }
}

} // verus!
