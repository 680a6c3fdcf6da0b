//! Splitting extracted text into fixed-size, overlapping token windows.
//!
//! A token is a maximal whitespace-delimited run of characters. Windows of
//! `chunk_tokens` tokens advance by `chunk_tokens - overlap` until a window
//! reaches the end of the token sequence; that window is the last one.

use vstd::prelude::*;

verus! {

/// One chunk of a file's text: its ordinal, its text (tokens joined by a
/// single space), and its half-open token range in the file's token sequence.
#[derive(Debug, Clone)]
pub struct TextChunk {
    pub index: usize,
    pub text: String,
    pub start_token: usize,
    pub end_token: usize,
}

/// The whitespace characters that delimit tokens: the Unicode white-space
/// code points (the set `char::is_whitespace` recognizes).
pub open spec fn is_space_char(c: char) -> bool {
    ||| c == '\t' || c == '\n' || c == '\u{b}' || c == '\u{c}' || c == '\r' || c == ' '
    ||| c == '\u{85}' || c == '\u{a0}' || c == '\u{1680}'
    ||| ('\u{2000}' <= c && c <= '\u{200a}')
    ||| c == '\u{2028}' || c == '\u{2029}' || c == '\u{202f}' || c == '\u{205f}' || c == '\u{3000}'
}

/// Decides `is_space_char`.
pub fn is_space(c: char) -> (r: bool)
    ensures
        r == is_space_char(c),
{
    (c == '\t' || c == '\n' || c == '\u{b}' || c == '\u{c}' || c == '\r' || c == ' ') || (c
        == '\u{85}' || c == '\u{a0}' || c == '\u{1680}') || ('\u{2000}' <= c && c <= '\u{200a}')
        || (c == '\u{2028}' || c == '\u{2029}' || c == '\u{202f}' || c == '\u{205f}' || c
        == '\u{3000}')
}

/// Folds a prefix of the text into the tokens completed so far and the
/// partial token currently being read.
pub open spec fn tokens_and_partial(s: Seq<char>) -> (Seq<Seq<char>>, Seq<char>)
    decreases s.len(),
{
    if s.len() == 0 {
        (Seq::empty(), Seq::empty())
    } else {
        let prev = tokens_and_partial(s.drop_last());
        let c = s.last();
        if is_space_char(c) {
            if prev.1.len() == 0 {
                (prev.0, Seq::empty())
            } else {
                (prev.0.push(prev.1), Seq::empty())
            }
        } else {
            (prev.0, prev.1.push(c))
        }
    }
}

/// The maximal whitespace-delimited tokens of `s`, in order.
pub open spec fn whitespace_tokens(s: Seq<char>) -> Seq<Seq<char>> {
    let st = tokens_and_partial(s);
    if st.1.len() == 0 {
        st.0
    } else {
        st.0.push(st.1)
    }
}

/// Tokens joined by a single space character.
pub open spec fn join_spaced(toks: Seq<Seq<char>>) -> Seq<char>
    decreases toks.len(),
{
    if toks.len() == 0 {
        Seq::empty()
    } else if toks.len() == 1 {
        toks[0]
    } else {
        join_spaced(toks.drop_last()) + seq![' '] + toks.last()
    }
}

/// The effective overlap: requested overlap clamped to `w - 1`.
pub open spec fn clamped_overlap(w: int, o: int) -> int {
    if o <= w - 1 {
        o
    } else {
        w - 1
    }
}

/// How far a window's start advances to the next window.
pub open spec fn chunk_stride(w: int, o: int) -> int {
    w - clamped_overlap(w, o)
}

/// How many chunks a token sequence of length `n` yields with window `w`
/// and requested overlap `o`.
pub open spec fn spec_num_chunks(n: int, w: int, o: int) -> int {
    if n == 0 || w == 0 {
        0
    } else if n <= w {
        1
    } else {
        (n - clamped_overlap(w, o) + chunk_stride(w, o) - 1) / chunk_stride(w, o)
    }
}

/// Whether `c` is exactly the `j`-th window over the token sequence `toks`.
pub open spec fn chunk_matches(c: TextChunk, j: int, toks: Seq<Seq<char>>, w: int, o: int) -> bool {
    let start = j * chunk_stride(w, o);
    let end = if start + w <= toks.len() {
        start + w
    } else {
        toks.len() as int
    };
    &&& c.index == j
    &&& c.start_token == start
    &&& c.end_token == end
    &&& c.text@ == join_spaced(toks.subrange(start, end))
}

/// Splits `text` into its whitespace-delimited tokens.
pub fn tokenize(text: &str) -> (r: Vec<String>)
    ensures
        r.deep_view() == whitespace_tokens(text@),
{
    let n = text.unicode_len();
    let mut toks: Vec<String> = Vec::new();
    let mut start: usize = 0;
    let mut in_tok = false;
    let mut i: usize = 0;
    while i < n
        invariant
            n == text@.len(),
            i <= n,
            toks.deep_view() == tokens_and_partial(text@.take(i as int)).0,
            in_tok == (tokens_and_partial(text@.take(i as int)).1.len() > 0),
            in_tok ==> start <= i && tokens_and_partial(text@.take(i as int)).1 == text@.subrange(
                start as int,
                i as int,
            ),
        decreases n - i,
    {
        let c = text.get_char(i);
        proof {
            assert(text@.take(i + 1).drop_last() =~= text@.take(i as int));
            assert(text@.take(i + 1).last() == text@[i as int]);
        }
        if is_space(c) {
            if in_tok {
                let tok = text.substring_char(start, i).to_owned();
                let ghost old_toks = toks.deep_view();
                toks.push(tok);
                proof {
                    assert(toks.deep_view() =~= old_toks.push(
                        text@.subrange(start as int, i as int),
                    ));
                }
                in_tok = false;
            }
        } else {
            if !in_tok {
                start = i;
                in_tok = true;
            }
            proof {
                assert(text@.subrange(start as int, i + 1) =~= text@.subrange(
                    start as int,
                    i as int,
                ).push(text@[i as int]));
            }
        }
        i = i + 1;
    }
    proof {
        assert(text@.take(n as int) =~= text@);
    }
    if in_tok {
        let tok = text.substring_char(start, n).to_owned();
        let ghost old_toks = toks.deep_view();
        toks.push(tok);
        proof {
            assert(toks.deep_view() =~= old_toks.push(text@.subrange(start as int, n as int)));
        }
    }
    toks
}

/// Joins `tokens[from..to]` with single spaces.
fn join_range(tokens: &Vec<String>, from: usize, to: usize) -> (r: String)
    requires
        from <= to <= tokens@.len(),
    ensures
        r@ == join_spaced(tokens.deep_view().subrange(from as int, to as int)),
{
    let ghost dv = tokens.deep_view();
    if from == to {
        proof {
            assert(dv.subrange(from as int, to as int) =~= Seq::<Seq<char>>::empty());
        }
        return String::new();
    }
    let mut out: String = tokens[from].clone();
    proof {
        assert(dv.subrange(from as int, from + 1) =~= seq![dv[from as int]]);
        assert(out@ == join_spaced(dv.subrange(from as int, from + 1)));
    }
    let mut k: usize = from + 1;
    while k < to
        invariant
            from < k <= to <= tokens@.len(),
            dv == tokens.deep_view(),
            out@ == join_spaced(dv.subrange(from as int, k as int)),
        decreases to - k,
    {
        out.append(" ");
        out.append(tokens[k].as_str());
        proof {
            reveal_strlit(" ");
            assert(" "@ =~= seq![' ']);
            let sub = dv.subrange(from as int, k + 1);
            assert(sub.drop_last() =~= dv.subrange(from as int, k as int));
            assert(sub.last() == dv[k as int]);
            assert(sub.len() >= 2);
        }
        k = k + 1;
    }
    out
}

/// Splits `text` into overlapping windows of `chunk_tokens` whitespace
/// tokens, each window advancing by `chunk_tokens - overlap` tokens, where
/// the requested overlap is clamped to `chunk_tokens - 1`. The window whose
/// end reaches the token count is the last. Empty input or a zero window
/// size yields no chunks.
pub fn chunk_by_whitespace_tokens(text: &str, chunk_tokens: usize, overlap_tokens: usize) -> (r:
    Vec<TextChunk>)
    ensures
        r@.len() == spec_num_chunks(
            whitespace_tokens(text@).len() as int,
            chunk_tokens as int,
            overlap_tokens as int,
        ),
        forall |j: int|
            0 <= j < r@.len() ==> #[trigger] chunk_matches(
                r@[j],
                j,
                whitespace_tokens(text@),
                chunk_tokens as int,
                overlap_tokens as int,
            ),
{
    let ghost toks_spec = whitespace_tokens(text@);
    let ghost w = chunk_tokens as int;
    let ghost o = overlap_tokens as int;
    let tokens = tokenize(text);
    let n = tokens.len();
    proof {
        assert(n as int == toks_spec.len());
    }
    if n == 0 || chunk_tokens == 0 {
        return Vec::new();
    }
    let overlap = if overlap_tokens <= chunk_tokens - 1 {
        overlap_tokens
    } else {
        chunk_tokens - 1
    };
    proof {
        assert(overlap as int == clamped_overlap(w, o));
    }
    let ghost stride = chunk_stride(w, o);
    let mut chunks: Vec<TextChunk> = Vec::new();
    let mut start: usize = 0;
    let mut idx: usize = 0;
    loop
        invariant
            toks_spec == whitespace_tokens(text@),
            tokens.deep_view() == toks_spec,
            n == tokens@.len(),
            n > 0,
            chunk_tokens > 0,
            w == chunk_tokens as int,
            o == overlap_tokens as int,
            overlap as int == clamped_overlap(w, o),
            stride == chunk_stride(w, o),
            idx == chunks@.len(),
            idx <= start,
            start as int == idx as int * stride,
            start < n,
            forall |j: int| 0 <= j < idx ==> #[trigger] chunk_matches(chunks@[j], j, toks_spec, w, o),
            idx > 0 ==> (idx - 1) * stride + w < n,
        decreases n - start,
    {
        let end = if chunk_tokens >= n - start {
            n
        } else {
            start + chunk_tokens
        };
        let chunk_text = join_range(&tokens, start, end);
        let c = TextChunk { index: idx, text: chunk_text, start_token: start, end_token: end };
        proof {
            assert(chunk_matches(c, idx as int, toks_spec, w, o));
        }
        chunks.push(c);
        if end == n {
            proof {
                lemma_chunk_count(n as int, w, o, idx as int);
                assert(forall |j: int|
                    0 <= j < chunks@.len() ==> #[trigger] chunk_matches(
                        chunks@[j],
                        j,
                        toks_spec,
                        w,
                        o,
                    ));
            }
            return chunks;
        }
        idx = idx + 1;
        let new_start = end - overlap;
        proof {
            assert(end == start + chunk_tokens);
            assert(new_start as int == start as int + stride);
            assert(idx as int * stride == (idx - 1) * stride + stride) by (nonlinear_arith);
        }
        start = new_start;
    }
}

/// The loop in `chunk_by_whitespace_tokens` stops at the first window index
/// whose window reaches the end of the token sequence; this pins the chunk
/// count to `spec_num_chunks`.
proof fn lemma_chunk_count(n: int, w: int, o: int, q: int)
    requires
        n > 0,
        w > 0,
        o >= 0,
        q >= 0,
        q * chunk_stride(w, o) + w >= n,
        q > 0 ==> (q - 1) * chunk_stride(w, o) + w < n,
    ensures
        q + 1 == spec_num_chunks(n, w, o),
{
    let s = chunk_stride(w, o);
    let ov = clamped_overlap(w, o);
    assert(1 <= s <= w);
    assert(w == s + ov);
    if n <= w {
        if q > 0 {
            assert((q - 1) * s >= 0) by (nonlinear_arith)
                requires
                    q >= 1 && s >= 1,
            ;
            assert(false);
        }
    } else {
        if q == 0 {
            assert(q * s == 0) by (nonlinear_arith)
                requires
                    q == 0,
            ;
            assert(false);
        }
        let x = n - w + s - 1;
        let r = x - q * s;
        assert((q - 1) * s == q * s - s) by (nonlinear_arith);
        assert(q * s >= n - w);
        assert(q * s < n - w + s);
        assert(0 <= r < s);
        assert(x == q * s + r);
        vstd::arithmetic::div_mod::lemma_fundamental_div_mod_converse_div(x, s, q, r);
        assert(x + s == (q + 1) * s + r) by (nonlinear_arith)
            requires
                x == q * s + r,
        ;
        vstd::arithmetic::div_mod::lemma_fundamental_div_mod_converse_div(x + s, s, q + 1, r);
        assert(n - ov + s - 1 == x + s);
        assert(spec_num_chunks(n, w, o) == (x + s) / s);
    }
}

} // verus!
