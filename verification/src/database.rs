//! The vector store: content-addressed chunk rows with per-file replace
//! semantics and nearest-neighbor search.
//!
//! The store is either Enabled, holding one table of rows, or Disabled with
//! a human-readable reason. Every mutating operation on a Disabled store is
//! a no-op that reports success; every read returns an empty result. Row
//! identity is content-addressed: `id = hash(path || chunk_index ||
//! hash(chunk_text))`, so re-ingesting unchanged content yields identical
//! ids.

use vstd::prelude::*;
use crate::embed::{valid_embedding, EMBEDDING_DIM, EMBED_COMPONENT_BOUND};
use crate::strutil::{dec_chars, usize_to_string};

verus! {

broadcast use vstd::seq_lib::group_to_multiset_ensures;

/// What blake3 hashing renders a string to (64 hex characters); a function
/// of the input alone.
pub uninterp spec fn blake3_hex_chars(s: Seq<char>) -> Seq<char>;

/// Relies on blake3::hash and blake3::Hash::to_hex: a 32-byte digest of the
/// input bytes, rendered as 64 lower-case hex characters.
#[verifier::external_body]
pub(crate) fn blake3_hex(s: &str) -> (r: String)
    ensures
        r@ == blake3_hex_chars(s@),
        r@.len() == 64,
{
    blake3::hash(s.as_bytes()).to_hex().to_string()
}

/// The content-addressed identity of a chunk: the hash of the path, the
/// chunk ordinal in decimal, and the hash of the chunk text, joined by
/// newlines.
pub open spec fn spec_chunk_id(path: Seq<char>, chunk_index: nat, content: Seq<char>) -> Seq<
    char,
> {
    blake3_hex_chars(
        path + seq!['\n'] + dec_chars(chunk_index) + seq!['\n'] + blake3_hex_chars(content),
    )
}

/// Computes the content-addressed id of one chunk.
pub fn chunk_id(path: &str, chunk_index: usize, content: &str) -> (r: String)
    ensures
        r@ == spec_chunk_id(path@, chunk_index as nat, content@),
        r@.len() == 64,
{
    let inner = blake3_hex(content);
    let mut pre = path.to_owned();
    pre.append("\n");
    let num = usize_to_string(chunk_index);
    pre.append(num.as_str());
    pre.append("\n");
    pre.append(inner.as_str());
    proof {
        reveal_strlit("\n");
        assert("\n"@ =~= seq!['\n']);
        assert(pre@ =~= path@ + seq!['\n'] + dec_chars(chunk_index as nat) + seq!['\n']
            + blake3_hex_chars(content@));
    }
    blake3_hex(pre.as_str())
}

/// One persisted row: a chunk of one file together with its provenance and
/// its embedding vector.
#[derive(Debug)]
pub struct ChunkRow {
    pub id: String,
    pub path: String,
    pub chunk_index: usize,
    pub start_token: usize,
    pub end_token: usize,
    pub file_mtime_epoch_secs: Option<i64>,
    pub file_size_bytes: Option<i64>,
    pub file_hash: Option<String>,
    pub content: String,
    pub embedding: Vec<i64>,
}

/// A well-formed row carries a well-formed embedding.
pub open spec fn row_wf(r: ChunkRow) -> bool {
    valid_embedding(r.embedding@)
}

/// One search result: the source path, the squared distance to the query,
/// and a bounded preview of the stored chunk text.
#[derive(Debug, Clone)]
pub struct SearchHit {
    pub path: String,
    pub score: Option<u64>,
    pub content_preview: Option<String>,
}

/// A storage-layer failure, carrying its description.
#[derive(Debug, Clone)]
pub enum DbError {
    Storage(String),
}

impl DbError {
    /// The human-readable description of the failure.
    pub fn message(&self) -> (r: &String)
        ensures
            self matches DbError::Storage(m) && r == m,
    {
        match self {
            DbError::Storage(m) => m,
        }
    }
}

/// The backing table of an enabled store.
#[derive(Debug)]
pub struct EnabledDatabase {
    pub rows: Vec<ChunkRow>,
}

/// The store: a table of chunk rows, or a disabled placeholder whose
/// reason is queryable at any time.
#[derive(Debug)]
pub enum Database {
    Enabled(EnabledDatabase),
    Disabled { reason: String },
}

/// `rows` with every row whose path equals `path` removed, order kept.
pub open spec fn rows_without_path(rows: Seq<ChunkRow>, path: Seq<char>) -> Seq<ChunkRow>
    decreases rows.len(),
{
    if rows.len() == 0 {
        rows
    } else {
        let init = rows_without_path(rows.drop_last(), path);
        if rows.last().path@ == path {
            init
        } else {
            init.push(rows.last())
        }
    }
}

/// The ids (as character sequences) of the rows stored for `path`, in
/// order.
pub open spec fn ids_for_path(rows: Seq<ChunkRow>, path: Seq<char>) -> Seq<Seq<char>>
    decreases rows.len(),
{
    if rows.len() == 0 {
        Seq::empty()
    } else {
        let init = ids_for_path(rows.drop_last(), path);
        if rows.last().path@ == path {
            init.push(rows.last().id@)
        } else {
            init
        }
    }
}

/// Whether `r` is the single row that storing a whole document at `path`
/// with text `content` produces: chunk zero, an empty token range, no file
/// metadata, and the zero embedding.
pub open spec fn doc_row_matches(r: ChunkRow, path: Seq<char>, content: Seq<char>) -> bool {
    &&& r.id@ == blake3_hex_chars(path + "\n0"@)
    &&& r.path@ == path
    &&& r.chunk_index == 0
    &&& r.start_token == 0
    &&& r.end_token == 0
    &&& r.file_mtime_epoch_secs is None
    &&& r.file_size_bytes is None
    &&& r.file_hash is None
    &&& r.content@ == content
    &&& r.embedding@.len() == EMBEDDING_DIM
    &&& forall |i: int| 0 <= i < r.embedding@.len() ==> r.embedding@[i] == 0i64
}

/// One replacement entry: chunk ordinal, token range, chunk text,
/// embedding.
pub type RowInput = (usize, usize, usize, String, Vec<i64>);

/// Whether the stored row `r` is exactly what the replacement entry `e`
/// under the given file metadata should have produced.
pub open spec fn replaced_row_matches(
    r: ChunkRow,
    path: Seq<char>,
    file_mtime_epoch_secs: Option<i64>,
    file_size_bytes: Option<i64>,
    file_hash: Option<String>,
    e: RowInput,
) -> bool {
    &&& r.id@ == spec_chunk_id(path, e.0 as nat, e.3@)
    &&& r.path@ == path
    &&& r.chunk_index == e.0
    &&& r.start_token == e.1
    &&& r.end_token == e.2
    &&& r.file_mtime_epoch_secs == file_mtime_epoch_secs
    &&& r.file_size_bytes == file_size_bytes
    &&& r.file_hash == file_hash
    &&& r.content@ == e.3@
    &&& r.embedding@ == e.4@
}

/// The replace-set contract: the rows after a replacement are exactly the
/// old rows of other paths, in order, followed by one row per replacement
/// entry, in order.
pub open spec fn replace_outcome(
    old_rows: Seq<ChunkRow>,
    new_rows: Seq<ChunkRow>,
    path: Seq<char>,
    file_mtime_epoch_secs: Option<i64>,
    file_size_bytes: Option<i64>,
    file_hash: Option<String>,
    entries: Seq<RowInput>,
) -> bool {
    let kept = rows_without_path(old_rows, path);
    &&& new_rows.len() == kept.len() + entries.len()
    &&& new_rows.take(kept.len() as int) == kept
    &&& forall |i: int|
        0 <= i < entries.len() ==> replaced_row_matches(
            #[trigger] new_rows[kept.len() + i],
            path,
            file_mtime_epoch_secs,
            file_size_bytes,
            file_hash,
            entries[i],
        )
}

/// The first `max_chars` characters of `s`, with an ellipsis appended when
/// something was cut off.
pub open spec fn spec_preview(s: Seq<char>, max_chars: int) -> Seq<char> {
    if s.len() > max_chars {
        s.take(max_chars) + "\u{2026}"@
    } else {
        s
    }
}

/// A bounded preview of stored content: at most `max_chars` characters,
/// with an ellipsis marker when truncated.
pub fn preview(s: &str, max_chars: usize) -> (r: String)
    ensures
        r@ == spec_preview(s@, max_chars as int),
{
    let n = s.unicode_len();
    if n <= max_chars {
        return s.to_owned();
    }
    let mut out = s.substring_char(0, max_chars).to_owned();
    proof {
        assert(s@.subrange(0, max_chars as int) =~= s@.take(max_chars as int));
    }
    out.append("\u{2026}");
    out
}

/// The squared Euclidean distance between two equal-length vectors.
pub open spec fn spec_dist2(a: Seq<i64>, b: Seq<i64>) -> int
    decreases a.len(),
{
    if a.len() == 0 || b.len() == 0 {
        0
    } else {
        let d = a.last() - b.last();
        spec_dist2(a.drop_last(), b.drop_last()) + d * d
    }
}

/// Squared distances of bounded vectors are non-negative and small enough
/// to fit comfortably in a `u64`.
pub proof fn lemma_dist2_bounds(a: Seq<i64>, b: Seq<i64>)
    requires
        a.len() == b.len(),
        forall |i: int|
            0 <= i < a.len() ==> -EMBED_COMPONENT_BOUND <= #[trigger] a[i]
                <= EMBED_COMPONENT_BOUND,
        forall |i: int|
            0 <= i < b.len() ==> -EMBED_COMPONENT_BOUND <= #[trigger] b[i]
                <= EMBED_COMPONENT_BOUND,
    ensures
        0 <= spec_dist2(a, b) <= a.len() * 4398046511104,
    decreases a.len(),
{
    if a.len() > 0 {
        lemma_dist2_bounds(a.drop_last(), b.drop_last());
        let d = a.last() - b.last();
        assert(-2097152 <= d <= 2097152);
        assert(0 <= d * d <= 4398046511104) by (nonlinear_arith)
            requires
                -2097152 <= d <= 2097152,
        ;
        assert((a.len() - 1) * 4398046511104 + 4398046511104 == a.len() * 4398046511104) by (nonlinear_arith);
    }
}

/// Computes the squared distance between two well-formed embeddings.
fn dist2(a: &Vec<i64>, b: &Vec<i64>) -> (r: u64)
    requires
        valid_embedding(a@),
        valid_embedding(b@),
    ensures
        r as int == spec_dist2(a@, b@),
{
    let mut sum: u64 = 0;
    let mut i: usize = 0;
    while i < a.len()
        invariant
            valid_embedding(a@),
            valid_embedding(b@),
            i <= a@.len(),
            sum as int == spec_dist2(a@.take(i as int), b@.take(i as int)),
            sum <= i * 4398046511104,
        decreases a@.len() - i,
    {
        let d = a[i] - b[i];
        proof {
            assert(0 <= d * d <= 4398046511104) by (nonlinear_arith)
                requires
                    -2097152 <= d <= 2097152,
            ;
            assert(a@.take(i + 1).drop_last() =~= a@.take(i as int));
            assert(b@.take(i + 1).drop_last() =~= b@.take(i as int));
            assert(a@.take(i + 1).last() == a@[i as int]);
            assert(b@.take(i + 1).last() == b@[i as int]);
        }
        let sq = (d * d) as u64;
        sum = sum + sq;
        i = i + 1;
    }
    proof {
        assert(a@.take(a@.len() as int) =~= a@);
        assert(b@.take(b@.len() as int) =~= b@);
    }
    sum
}

/// Order on (distance, row index) pairs: by distance, ties by index.
pub open spec fn pair_le(a: (u64, usize), b: (u64, usize)) -> bool {
    a.0 < b.0 || (a.0 == b.0 && a.1 <= b.1)
}

/// Pairwise sortedness under `pair_le`.
pub open spec fn pairs_sorted(ps: Seq<(u64, usize)>) -> bool {
    forall |i: int, j: int| 0 <= i < j < ps.len() ==> pair_le(#[trigger] ps[i], #[trigger] ps[j])
}

/// Sorts (distance, index) pairs ascending by distance (ties by index),
/// keeping exactly the same pairs.
fn sort_dist_pairs(v: Vec<(u64, usize)>) -> (r: Vec<(u64, usize)>)
    ensures
        pairs_sorted(r@),
        r@.to_multiset() == v@.to_multiset(),
        r@.len() == v@.len(),
{
    let mut src = v;
    let ghost orig = src@;
    let mut out: Vec<(u64, usize)> = Vec::new();
    while src.len() > 0
        invariant
            orig.to_multiset() =~= out@.to_multiset().add(src@.to_multiset()),
            orig.len() == out@.len() + src@.len(),
            pairs_sorted(out@),
            forall |x: int, y: int|
                0 <= x < out@.len() && 0 <= y < src@.len() ==> pair_le(
                    #[trigger] out@[x],
                    #[trigger] src@[y],
                ),
        decreases src@.len(),
    {
        // Find the least remaining pair.
        let mut m: usize = 0;
        let mut j: usize = 1;
        while j < src.len()
            invariant
                src@.len() > 0,
                m < src@.len(),
                1 <= j <= src@.len(),
                forall |t: int| 0 <= t < j ==> pair_le(src@[m as int], #[trigger] src@[t]),
            decreases src@.len() - j,
        {
            let cand = src[j];
            let cur = src[m];
            if cand.0 < cur.0 || (cand.0 == cur.0 && cand.1 < cur.1) {
                m = j;
            }
            j = j + 1;
        }
        let x = src.remove(m);
        out.push(x);
        proof {
            assert(out@.drop_last() =~= out@.take(out@.len() - 1));
        }
    }
    proof {
        assert(forall |x: (u64, usize)| !src@.contains(x));
        assert(orig.to_multiset() =~= out@.to_multiset()) by {
            assert forall |x: (u64, usize)| orig.to_multiset().count(x) == out@.to_multiset().count(
                x,
            ) by {
                assert(src@.to_multiset().count(x) == 0) by {
                    if src@.to_multiset().count(x) > 0 {
                        assert(src@.contains(x));
                    }
                }
            }
        }
    }
    out
}

/// The (distance, index) pair of every stored row against a query vector.
pub open spec fn all_dist_pairs(q: Seq<i64>, rows: Seq<ChunkRow>) -> Seq<(u64, usize)> {
    Seq::new(rows.len(), |i: int| (spec_dist2(q, rows[i].embedding@) as u64, i as usize))
}

/// Whether `hits` is a correct `k`-nearest answer for the query over
/// `rows`: there is a sorted arrangement of all (distance, row) pairs whose
/// first `min(k, rows.len())` entries the hits report faithfully — path,
/// squared distance as the score, and a bounded preview of the content.
pub open spec fn search_hits_ok(
    hits: Seq<SearchHit>,
    q: Seq<i64>,
    rows: Seq<ChunkRow>,
    k: int,
) -> bool {
    exists |perm: Seq<(u64, usize)>|
        #![trigger perm.to_multiset()]
        {
            &&& perm.to_multiset() == all_dist_pairs(q, rows).to_multiset()
            &&& pairs_sorted(perm)
            &&& hits.len() == if k < rows.len() {
                k
            } else {
                rows.len() as int
            }
            &&& forall |a: int|
                0 <= a < hits.len() ==> {
                    let p = #[trigger] perm[a];
                    &&& p.1 < rows.len()
                    &&& (#[trigger] hits[a]).path@ == rows[p.1 as int].path@
                    &&& hits[a].score == Some(p.0)
                    &&& hits[a].content_preview matches Some(pv) && pv@ == spec_preview(
                        rows[p.1 as int].content@,
                        240,
                    )
                }
        }
}

/// Copies an embedding vector component by component.
pub(crate) fn clone_embedding(v: &Vec<i64>) -> (r: Vec<i64>)
    ensures
        r@ == v@,
{
    let mut out: Vec<i64> = Vec::new();
    let mut i: usize = 0;
    while i < v.len()
        invariant
            i <= v@.len(),
            out@ =~= v@.take(i as int),
        decreases v@.len() - i,
    {
        out.push(v[i]);
        proof {
            assert(out@ =~= v@.take(i + 1));
        }
        i = i + 1;
    }
    proof {
        assert(v@.take(v@.len() as int) =~= v@);
    }
    out
}

/// Copies an optional string; the copy equals the original value for
/// value.
fn clone_opt_string(o: &Option<String>) -> (r: Option<String>)
    ensures
        r == *o,
{
    match o {
        Some(s) => Some(s.clone()),
        None => None,
    }
}

impl Database {
    /// Every stored row is well formed; a disabled store carries a
    /// non-empty reason.
    pub open spec fn wf(self) -> bool {
        match self {
            Database::Enabled(db) => forall |i: int|
                0 <= i < db.rows@.len() ==> row_wf(#[trigger] db.rows@[i]),
            Database::Disabled { reason } => reason@.len() > 0,
        }
    }

    /// The stored rows; a disabled store stores nothing.
    pub open spec fn spec_rows(self) -> Seq<ChunkRow> {
        match self {
            Database::Enabled(db) => db.rows@,
            Database::Disabled { .. } => Seq::empty(),
        }
    }

    pub open spec fn spec_is_enabled(self) -> bool {
        self is Enabled
    }

    /// A fresh, enabled, empty store.
    pub fn new() -> (r: Self)
        ensures
            r.wf(),
            r.spec_is_enabled(),
            r.spec_rows() == Seq::<ChunkRow>::empty(),
    {
        Database::Enabled(EnabledDatabase { rows: Vec::new() })
    }

    /// A safe fallback mode: store-backed operations report success (for
    /// writes) or emptiness (for reads) instead of crashing, and the
    /// reason is queryable.
    pub fn disabled(reason: String) -> (r: Self)
        requires
            reason@.len() > 0,
        ensures
            r.wf(),
            !r.spec_is_enabled(),
            r matches Database::Disabled { reason: rr } && rr == reason,
    {
        Database::Disabled { reason }
    }

    pub fn is_enabled(&self) -> (r: bool)
        ensures
            r == self.spec_is_enabled(),
    {
        match self {
            Database::Enabled(_) => true,
            Database::Disabled { .. } => false,
        }
    }

    /// Stores a single whole document as one row with a zero embedding.
    ///
    /// Against a Disabled store this is a no-op that reports success.
    pub fn add_document(&mut self, path: &str, content: &str) -> (r: Result<(), DbError>)
        requires
            old(self).wf(),
        ensures
            final(self).wf(),
            r.is_ok(),
            final(self).spec_is_enabled() == old(self).spec_is_enabled(),
            !old(self).spec_is_enabled() ==> *final(self) == *old(self),
            old(self).spec_is_enabled() ==> {
                let rs = final(self).spec_rows();
                let old_rs = old(self).spec_rows();
                &&& rs.len() == old_rs.len() + 1
                &&& rs.take(old_rs.len() as int) == old_rs
                &&& doc_row_matches(rs.last(), path@, content@)
            },
    {
        match self {
            Database::Disabled { .. } => Ok(()),
            Database::Enabled(db) => {
                let mut pre = path.to_owned();
                pre.append("\n0");
                proof {
                    reveal_strlit("\n0");
                    assert(pre@ =~= path@ + "\n0"@);
                }
                let row = ChunkRow {
                    id: blake3_hex(pre.as_str()),
                    path: path.to_owned(),
                    chunk_index: 0,
                    start_token: 0,
                    end_token: 0,
                    file_mtime_epoch_secs: None,
                    file_size_bytes: None,
                    file_hash: None,
                    content: content.to_owned(),
                    embedding: crate::embed::zero_embedding(),
                };
                let ghost old_rows = db.rows@;
                db.rows.push(row);
                proof {
                    assert(db.rows@.take(old_rows.len() as int) =~= old_rows);
                }
                Ok(())
            },
        }
    }

    /// Stores one chunk row with a caller-chosen id.
    ///
    /// Against a Disabled store this is a no-op that reports success.
    pub fn add_chunk(
        &mut self,
        id: &str,
        path: &str,
        chunk_index: usize,
        start_token: usize,
        end_token: usize,
        content: &str,
        embedding: &Vec<i64>,
    ) -> (r: Result<(), DbError>)
        requires
            old(self).wf(),
            valid_embedding(embedding@),
        ensures
            final(self).wf(),
            r.is_ok(),
            final(self).spec_is_enabled() == old(self).spec_is_enabled(),
            !old(self).spec_is_enabled() ==> *final(self) == *old(self),
            old(self).spec_is_enabled() ==> {
                let rs = final(self).spec_rows();
                let old_rs = old(self).spec_rows();
                &&& rs.len() == old_rs.len() + 1
                &&& rs.take(old_rs.len() as int) == old_rs
                &&& rs.last().id@ == id@
                &&& rs.last().path@ == path@
                &&& rs.last().chunk_index == chunk_index
                &&& rs.last().start_token == start_token
                &&& rs.last().end_token == end_token
                &&& rs.last().file_mtime_epoch_secs is None
                &&& rs.last().file_size_bytes is None
                &&& rs.last().file_hash is None
                &&& rs.last().content@ == content@
                &&& rs.last().embedding@ == embedding@
            },
    {
        match self {
            Database::Disabled { .. } => Ok(()),
            Database::Enabled(db) => {
                let row = ChunkRow {
                    id: id.to_owned(),
                    path: path.to_owned(),
                    chunk_index,
                    start_token,
                    end_token,
                    file_mtime_epoch_secs: None,
                    file_size_bytes: None,
                    file_hash: None,
                    content: content.to_owned(),
                    embedding: clone_embedding(embedding),
                };
                let ghost old_rows = db.rows@;
                db.rows.push(row);
                proof {
                    assert(db.rows@.take(old_rows.len() as int) =~= old_rows);
                }
                Ok(())
            },
        }
    }

    /// Replaces all chunks stored for `path` as one logical unit: every
    /// existing row whose path matches exactly is deleted, then one row per
    /// entry is inserted, each with its content-addressed id.
    ///
    /// Against a Disabled store this is a no-op that reports success.
    pub fn replace_file_chunks(
        &mut self,
        path: &str,
        file_mtime_epoch_secs: Option<i64>,
        file_size_bytes: Option<i64>,
        file_hash: Option<String>,
        rows: Vec<RowInput>,
    ) -> (r: Result<(), DbError>)
        requires
            old(self).wf(),
            forall |i: int| 0 <= i < rows@.len() ==> valid_embedding(#[trigger] rows@[i].4@),
        ensures
            final(self).wf(),
            r.is_ok(),
            final(self).spec_is_enabled() == old(self).spec_is_enabled(),
            !old(self).spec_is_enabled() ==> *final(self) == *old(self),
            old(self).spec_is_enabled() ==> replace_outcome(
                old(self).spec_rows(),
                final(self).spec_rows(),
                path@,
                file_mtime_epoch_secs,
                file_size_bytes,
                file_hash,
                rows@,
            ),
    {
        match self {
            Database::Disabled { .. } => Ok(()),
            Database::Enabled(db) => {
                let path_owned = path.to_owned();
                let ghost orig = db.rows@;

                // Delete every row stored for this path, keeping order.
                let mut kept: Vec<ChunkRow> = Vec::new();
                let n_orig = db.rows.len();
                proof {
                    assert(orig.len() == n_orig);
                    assert(orig.take(0) =~= Seq::<ChunkRow>::empty());
                    assert(kept@ =~= rows_without_path(orig.take(0), path@));
                    assert(db.rows@ =~= orig.skip(0));
                }
                let mut i: usize = 0;
                while db.rows.len() > 0
                    invariant
                        orig.len() <= usize::MAX,
                        i <= orig.len(),
                        db.rows@ == orig.skip(i as int),
                        kept@ == rows_without_path(orig.take(i as int), path@),
                        path_owned@ == path@,
                        forall |j: int| 0 <= j < orig.len() ==> row_wf(#[trigger] orig[j]),
                        forall |j: int| 0 <= j < kept@.len() ==> row_wf(#[trigger] kept@[j]),
                    decreases orig.len() - i,
                {
                    let row = db.rows.remove(0);
                    proof {
                        assert(orig.skip(i as int)[0] == orig[i as int]);
                        assert(orig.skip(i as int).drop_first() =~= orig.skip(i + 1));
                        assert(orig.take(i + 1).drop_last() =~= orig.take(i as int));
                        assert(orig.take(i + 1).last() == orig[i as int]);
                    }
                    if !row.path.eq(&path_owned) {
                        kept.push(row);
                    }
                    i = i + 1;
                }
                proof {
                    assert(orig.take(orig.len() as int) =~= orig);
                    assert(kept@ == rows_without_path(orig, path@));
                }

                // Insert one row per entry, each with its content-addressed id.
                let ghost kept_rows = kept@;
                let mut k: usize = 0;
                while k < rows.len()
                    invariant
                        k <= rows@.len(),
                        path_owned@ == path@,
                        kept@.len() == kept_rows.len() + k,
                        kept@.take(kept_rows.len() as int) == kept_rows,
                        forall |j: int| 0 <= j < kept@.len() ==> row_wf(#[trigger] kept@[j]),
                        forall |j: int| 0 <= j < rows@.len() ==> valid_embedding(
                            #[trigger] rows@[j].4@,
                        ),
                        forall |j: int|
                            0 <= j < k ==> replaced_row_matches(
                                #[trigger] kept@[kept_rows.len() + j],
                                path@,
                                file_mtime_epoch_secs,
                                file_size_bytes,
                                file_hash,
                                rows@[j],
                            ),
                    decreases rows@.len() - k,
                {
                    let entry = &rows[k];
                    let id = chunk_id(path_owned.as_str(), entry.0, entry.3.as_str());
                    let row = ChunkRow {
                        id,
                        path: path_owned.clone(),
                        chunk_index: entry.0,
                        start_token: entry.1,
                        end_token: entry.2,
                        file_mtime_epoch_secs,
                        file_size_bytes,
                        file_hash: clone_opt_string(&file_hash),
                        content: entry.3.clone(),
                        embedding: clone_embedding(&entry.4),
                    };
                    let ghost before = kept@;
                    kept.push(row);
                    proof {
                        assert(kept@.take(kept_rows.len() as int) =~= kept_rows);
                    }
                    k = k + 1;
                }
                db.rows = kept;
                Ok(())
            },
        }
    }

    /// Returns the `k` nearest stored rows to the query vector, closest
    /// first, each with its path, its squared distance as the score, and a
    /// bounded preview of the stored content.
    ///
    /// Against a Disabled store this returns an empty result.
    pub fn search_chunks_by_vector(&self, qvec: &Vec<i64>, k: usize) -> (r: Result<
        Vec<SearchHit>,
        DbError,
    >)
        requires
            self.wf(),
            valid_embedding(qvec@),
        ensures
            r matches Ok(hits) && (if self.spec_is_enabled() {
                search_hits_ok(hits@, qvec@, self.spec_rows(), k as int)
            } else {
                hits@.len() == 0
            }),
    {
        match self {
            Database::Disabled { .. } => Ok(Vec::new()),
            Database::Enabled(db) => {
                let ghost all = all_dist_pairs(qvec@, db.rows@);
                let mut pairs: Vec<(u64, usize)> = Vec::new();
                let mut i: usize = 0;
                proof {
                    assert(pairs@ =~= all.take(0));
                }
                while i < db.rows.len()
                    invariant
                        all == all_dist_pairs(qvec@, db.rows@),
                        valid_embedding(qvec@),
                        forall |j: int| 0 <= j < db.rows@.len() ==> row_wf(#[trigger] db.rows@[j]),
                        i <= db.rows@.len(),
                        pairs@ == all.take(i as int),
                    decreases db.rows@.len() - i,
                {
                    let d = dist2(qvec, &db.rows[i].embedding);
                    proof {
                        lemma_dist2_bounds(qvec@, db.rows@[i as int].embedding@);
                        assert(all[i as int] == (d, i));
                        assert(pairs@.push((d, i)) =~= all.take(i + 1));
                    }
                    pairs.push((d, i));
                    i = i + 1;
                }
                proof {
                    assert(all.take(all.len() as int) =~= all);
                }
                let sorted = sort_dist_pairs(pairs);
                let kk = if k < sorted.len() {
                    k
                } else {
                    sorted.len()
                };
                let mut hits: Vec<SearchHit> = Vec::new();
                let mut a: usize = 0;
                while a < kk
                    invariant
                        all == all_dist_pairs(qvec@, db.rows@),
                        sorted@.to_multiset() == all.to_multiset(),
                        pairs_sorted(sorted@),
                        sorted@.len() == db.rows@.len(),
                        kk == if k < db.rows@.len() {
                            k as int
                        } else {
                            db.rows@.len() as int
                        },
                        a <= kk,
                        hits@.len() == a,
                        forall |b: int|
                            0 <= b < a ==> {
                                let p = #[trigger] sorted@[b];
                                &&& p.1 < db.rows@.len()
                                &&& (#[trigger] hits@[b]).path@ == db.rows@[p.1 as int].path@
                                &&& hits@[b].score == Some(p.0)
                                &&& hits@[b].content_preview matches Some(pv) && pv@
                                    == spec_preview(db.rows@[p.1 as int].content@, 240)
                            },
                    decreases kk - a,
                {
                    let p = sorted[a];
                    proof {
                        assert(sorted@.contains(sorted@[a as int]));
                        assert(sorted@.to_multiset().count(p) > 0);
                        assert(all.contains(p));
                        let idx = choose |idx: int| 0 <= idx < all.len() && all[idx] == p;
                        assert(all[idx].1 == idx as usize);
                        assert(p.1 < db.rows@.len());
                    }
                    let row_path = db.rows[p.1].path.clone();
                    let pv = preview(db.rows[p.1].content.as_str(), 240);
                    hits.push(SearchHit { path: row_path, score: Some(p.0), content_preview: Some(pv) });
                    a = a + 1;
                }
                proof {
                    assert(search_hits_ok(hits@, qvec@, db.rows@, k as int)) by {
                        assert(sorted@.to_multiset() == all_dist_pairs(qvec@, db.rows@)
                            .to_multiset());
                    }
                }
                Ok(hits)
            },
        }
    }

    /// Legacy document search: ranks the stored rows against the zero
    /// vector (a placeholder query embedding) and returns at most ten
    /// hits. Against a Disabled store this returns an empty result.
    pub fn search_documents(&self, query: &str) -> (r: Result<Vec<SearchHit>, DbError>)
        requires
            self.wf(),
        ensures
            r matches Ok(hits) && (if self.spec_is_enabled() {
                search_hits_ok(hits@, crate::embed::spec_zero_embedding(), self.spec_rows(), 10)
            } else {
                hits@.len() == 0
            }),
    {
        let _ = query;
        let zero = crate::embed::zero_embedding();
        self.search_chunks_by_vector(&zero, 10)
    }

    /// The reason the store is disabled, if it is.
    pub fn disabled_reason(&self) -> (r: Option<&String>)
        ensures
            match self {
                Database::Disabled { reason } => r matches Some(s) && s == reason,
                Database::Enabled(_) => r is None,
            },
    {
        match self {
            Database::Disabled { reason } => Some(reason),
            Database::Enabled(_) => None,
        }
    }
}

/// Deleting a path's rows really leaves no row of that path behind.
proof fn lemma_without_path_no_match(rows: Seq<ChunkRow>, path: Seq<char>)
    ensures
        forall |i: int|
            0 <= i < rows_without_path(rows, path).len() ==> (#[trigger] rows_without_path(
                rows,
                path,
            )[i]).path@ != path,
    decreases rows.len(),
{
    if rows.len() > 0 {
        lemma_without_path_no_match(rows.drop_last(), path);
    }
}

/// Rows none of which belong to `path` contribute no ids for `path`.
proof fn lemma_ids_empty_when_no_match(rows: Seq<ChunkRow>, path: Seq<char>)
    requires
        forall |i: int| 0 <= i < rows.len() ==> (#[trigger] rows[i]).path@ != path,
    ensures
        ids_for_path(rows, path) == Seq::<Seq<char>>::empty(),
    decreases rows.len(),
{
    if rows.len() > 0 {
        lemma_ids_empty_when_no_match(rows.drop_last(), path);
    }
}

/// `ids_for_path` distributes over concatenation.
proof fn lemma_ids_concat(a: Seq<ChunkRow>, b: Seq<ChunkRow>, path: Seq<char>)
    ensures
        ids_for_path(a + b, path) == ids_for_path(a, path) + ids_for_path(b, path),
    decreases b.len(),
{
    if b.len() == 0 {
        assert(a + b =~= a);
        assert(ids_for_path(a, path) + ids_for_path(b, path) =~= ids_for_path(a, path));
    } else {
        lemma_ids_concat(a, b.drop_last(), path);
        assert((a + b).drop_last() =~= a + b.drop_last());
        assert((a + b).last() == b.last());
        if b.last().path@ == path {
            assert(ids_for_path(a, path) + ids_for_path(b, path) =~= (ids_for_path(a, path)
                + ids_for_path(b.drop_last(), path)).push(b.last().id@));
        } else {
            assert(ids_for_path(a, path) + ids_for_path(b, path) =~= ids_for_path(a, path)
                + ids_for_path(b.drop_last(), path));
        }
    }
}

/// The ids contributed by rows that match the replacement entries are
/// exactly the entries' content-addressed ids, in order.
proof fn lemma_ids_of_matching(
    tail: Seq<ChunkRow>,
    path: Seq<char>,
    file_mtime_epoch_secs: Option<i64>,
    file_size_bytes: Option<i64>,
    file_hash: Option<String>,
    entries: Seq<RowInput>,
)
    requires
        tail.len() == entries.len(),
        forall |i: int|
            0 <= i < entries.len() ==> replaced_row_matches(
                #[trigger] tail[i],
                path,
                file_mtime_epoch_secs,
                file_size_bytes,
                file_hash,
                entries[i],
            ),
    ensures
        ids_for_path(tail, path) =~= Seq::new(
            entries.len(),
            |i: int| spec_chunk_id(path, entries[i].0 as nat, entries[i].3@),
        ),
    decreases tail.len(),
{
    if tail.len() > 0 {
        lemma_ids_of_matching(
            tail.drop_last(),
            path,
            file_mtime_epoch_secs,
            file_size_bytes,
            file_hash,
            entries.drop_last(),
        );
        assert(tail.last().path@ == path);
    }
}

/// After any replacement, the stored ids for the path are exactly the
/// entries' content-addressed ids.
pub proof fn lemma_replace_pins_ids(
    old_rows: Seq<ChunkRow>,
    new_rows: Seq<ChunkRow>,
    path: Seq<char>,
    file_mtime_epoch_secs: Option<i64>,
    file_size_bytes: Option<i64>,
    file_hash: Option<String>,
    entries: Seq<RowInput>,
)
    requires
        replace_outcome(
            old_rows,
            new_rows,
            path,
            file_mtime_epoch_secs,
            file_size_bytes,
            file_hash,
            entries,
        ),
    ensures
        ids_for_path(new_rows, path) == Seq::new(
            entries.len(),
            |i: int| spec_chunk_id(path, entries[i].0 as nat, entries[i].3@),
        ),
{
    let kept = rows_without_path(old_rows, path);
    let tail = new_rows.skip(kept.len() as int);
    assert(new_rows =~= kept + tail);
    lemma_without_path_no_match(old_rows, path);
    lemma_ids_empty_when_no_match(kept, path);
    lemma_ids_concat(kept, tail, path);
    assert forall |i: int| 0 <= i < entries.len() implies replaced_row_matches(
        #[trigger] tail[i],
        path,
        file_mtime_epoch_secs,
        file_size_bytes,
        file_hash,
        entries[i],
    ) by {
        assert(tail[i] == new_rows[kept.len() + i]);
    }
    lemma_ids_of_matching(tail, path, file_mtime_epoch_secs, file_size_bytes, file_hash, entries);
    assert(ids_for_path(new_rows, path) =~= Seq::new(
        entries.len(),
        |i: int| spec_chunk_id(path, entries[i].0 as nat, entries[i].3@),
    ));
}

/// Replace-per-file ingestion is idempotent in the stored identity: two
/// replacements of the same path with the same chunk entries — against any
/// prior store contents and any file metadata — leave exactly the same id
/// sequence stored for that path.
pub proof fn lemma_replace_idempotent(
    old_rows_a: Seq<ChunkRow>,
    new_rows_a: Seq<ChunkRow>,
    old_rows_b: Seq<ChunkRow>,
    new_rows_b: Seq<ChunkRow>,
    path: Seq<char>,
    mtime_a: Option<i64>,
    size_a: Option<i64>,
    hash_a: Option<String>,
    mtime_b: Option<i64>,
    size_b: Option<i64>,
    hash_b: Option<String>,
    entries: Seq<RowInput>,
)
    requires
        replace_outcome(old_rows_a, new_rows_a, path, mtime_a, size_a, hash_a, entries),
        replace_outcome(old_rows_b, new_rows_b, path, mtime_b, size_b, hash_b, entries),
    ensures
        ids_for_path(new_rows_a, path) == ids_for_path(new_rows_b, path),
{
    lemma_replace_pins_ids(old_rows_a, new_rows_a, path, mtime_a, size_a, hash_a, entries);
    lemma_replace_pins_ids(old_rows_b, new_rows_b, path, mtime_b, size_b, hash_b, entries);
}

} // verus!
