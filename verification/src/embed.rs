//! The embedding capability: a pluggable backend that maps a batch of texts
//! to equal-length, fixed-dimensionality vectors.
//!
//! Embedding components travel through the library as fixed-point integers
//! (a real backend scales its floating-point outputs before handing them
//! in), bounded so that distance computations cannot overflow.

use vstd::prelude::*;

verus! {

/// Dimensionality of every embedding vector.
pub const EMBEDDING_DIM: usize = 384;

/// Bound on the magnitude of one embedding component.
pub const EMBED_COMPONENT_BOUND: i64 = 1048576;

/// A well-formed embedding: the right dimensionality, every component
/// within the bound.
pub open spec fn valid_embedding(v: Seq<i64>) -> bool {
    &&& v.len() == EMBEDDING_DIM
    &&& forall |i: int|
        0 <= i < v.len() ==> -EMBED_COMPONENT_BOUND <= #[trigger] v[i] <= EMBED_COMPONENT_BOUND
}

/// The all-zero embedding.
pub open spec fn spec_zero_embedding() -> Seq<i64> {
    Seq::new(EMBEDDING_DIM as nat, |i: int| 0i64)
}

/// Which embedding backend a handle is.
#[derive(Debug, Clone, Copy, PartialEq, Eq, Structural)]
pub enum EmbedderKind {
    /// The disabled backend: every text maps to the zero vector.
    Noop,
    /// A real local model backend, provided outside the library.
    FastEmbed,
}

/// The embedding capability. Every backend promises: the output has exactly
/// one vector per input text — never silently fewer or more — and each
/// vector is well formed; otherwise the call fails.
pub trait Embedder {
    /// Which backend this is.
    fn kind(&self) -> EmbedderKind;

    /// The dimensionality of the vectors this backend produces.
    fn dim(&self) -> (r: usize)
        ensures
            r == EMBEDDING_DIM,
    ;

    /// Embeds a batch of texts: one valid vector per input, or an error.
    fn embed_texts(&self, texts: Vec<String>) -> (r: Result<Vec<Vec<i64>>, String>)
        ensures
            r matches Ok(vs) ==> vs@.len() == texts@.len() && forall |i: int|
                0 <= i < vs@.len() ==> valid_embedding(#[trigger] vs@[i]@),
    ;

    /// Embeds a single query text: the one-element convenience form of
    /// `embed_texts`. The default body hands the query to the batch form
    /// and takes the single vector out of the answer.
    fn embed_query(&self, query: String) -> (r: Result<Vec<i64>, String>)
        ensures
            r matches Ok(v) ==> valid_embedding(v@),
    {
        let mut texts: Vec<String> = Vec::new();
        texts.push(query);
        let mut out = match self.embed_texts(texts) {
            Ok(vs) => vs,
            Err(e) => {
                return Err(e);
            },
        };
        match out.pop() {
            Some(v) => Ok(v),
            None => Err("embedder returned no vectors".to_owned()),
        }
    }
}

/// The all-zero embedding vector.
pub fn zero_embedding() -> (r: Vec<i64>)
    ensures
        valid_embedding(r@),
        r@ == spec_zero_embedding(),
{
    let mut v: Vec<i64> = Vec::new();
    let mut i: usize = 0;
    while i < EMBEDDING_DIM
        invariant
            i <= EMBEDDING_DIM,
            v@.len() == i,
            forall |j: int| 0 <= j < v@.len() ==> v@[j] == 0i64,
        decreases EMBEDDING_DIM - i,
    {
        v.push(0);
        i = i + 1;
    }
    proof {
        assert(v@ =~= spec_zero_embedding());
    }
    v
}

/// The disabled backend: maps every text to the zero vector, so the rest of
/// the system keeps functioning when no real model is configured.
pub struct NoopEmbedder;

impl Embedder for NoopEmbedder {
    fn kind(&self) -> EmbedderKind {
        EmbedderKind::Noop
    }

    fn dim(&self) -> (r: usize)
        ensures
            r == EMBEDDING_DIM,
    {
        EMBEDDING_DIM
    }

    fn embed_texts(&self, texts: Vec<String>) -> (r: Result<Vec<Vec<i64>>, String>)
        ensures
            r matches Ok(vs) && vs@.len() == texts@.len() && forall |i: int|
                0 <= i < vs@.len() ==> (#[trigger] vs@[i]@) == spec_zero_embedding(),
    {
        let mut out: Vec<Vec<i64>> = Vec::new();
        let mut i: usize = 0;
        while i < texts.len()
            invariant
                i <= texts@.len(),
                out@.len() == i,
                forall |j: int| 0 <= j < out@.len() ==> (#[trigger] out@[j]@)
                    == spec_zero_embedding(),
            decreases texts@.len() - i,
        {
            out.push(zero_embedding());
            i = i + 1;
        }
        Ok(out)
    }

    fn embed_query(&self, query: String) -> (r: Result<Vec<i64>, String>)
        ensures
            r matches Ok(v) && v@ == spec_zero_embedding(),
    {
        let _ = query;
        Ok(zero_embedding())
    }
}

} // verus!
