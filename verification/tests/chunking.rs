use silo_core::chunk::{chunk_by_whitespace_tokens, tokenize};

#[test]
fn chunk_five_tokens_window_three_overlap_one() {
    let chunks = chunk_by_whitespace_tokens("a b c d e", 3, 1);
    assert_eq!(chunks.len(), 2);
    assert_eq!(chunks[0].index, 0);
    assert_eq!(chunks[0].text, "a b c");
    assert_eq!(chunks[0].start_token, 0);
    assert_eq!(chunks[0].end_token, 3);
    assert_eq!(chunks[1].index, 1);
    assert_eq!(chunks[1].text, "c d e");
    assert_eq!(chunks[1].start_token, 2);
    assert_eq!(chunks[1].end_token, 5);
}

#[test]
fn chunk_empty_text_yields_nothing() {
    assert!(chunk_by_whitespace_tokens("", 3, 1).is_empty());
    assert!(chunk_by_whitespace_tokens("   \t\n ", 3, 1).is_empty());
}

#[test]
fn chunk_zero_window_yields_nothing() {
    assert!(chunk_by_whitespace_tokens("a b c", 0, 1).is_empty());
    assert!(chunk_by_whitespace_tokens("a b c", 0, 0).is_empty());
}

#[test]
fn chunk_single_window_when_text_fits() {
    let chunks = chunk_by_whitespace_tokens("x y", 10, 3);
    assert_eq!(chunks.len(), 1);
    assert_eq!(chunks[0].text, "x y");
    assert_eq!(chunks[0].start_token, 0);
    assert_eq!(chunks[0].end_token, 2);
}

#[test]
fn chunk_overlap_clamped_to_window_minus_one() {
    // Overlap 5 with window 2 behaves like overlap 1: stride is 1.
    let chunks = chunk_by_whitespace_tokens("a b c", 2, 5);
    assert_eq!(chunks.len(), 2);
    assert_eq!(chunks[0].text, "a b");
    assert_eq!(chunks[1].text, "b c");
    assert_eq!(chunks[1].start_token, 1);
    assert_eq!(chunks[1].end_token, 3);
}

#[test]
fn chunk_count_matches_ceiling_formula() {
    // N=10, W=4, O=2 -> stride 2, count = ceil((10-2)/2) = 4.
    let chunks = chunk_by_whitespace_tokens("t0 t1 t2 t3 t4 t5 t6 t7 t8 t9", 4, 2);
    assert_eq!(chunks.len(), 4);
    assert_eq!(chunks[3].start_token, 6);
    assert_eq!(chunks[3].end_token, 10);
}

#[test]
fn chunk_no_overlap_partitions_tokens() {
    let chunks = chunk_by_whitespace_tokens("a b c d e", 2, 0);
    assert_eq!(chunks.len(), 3);
    assert_eq!(chunks[0].text, "a b");
    assert_eq!(chunks[1].text, "c d");
    assert_eq!(chunks[2].text, "e");
    assert_eq!(chunks[2].start_token, 4);
    assert_eq!(chunks[2].end_token, 5);
}

#[test]
fn tokenize_collapses_whitespace_runs() {
    let toks = tokenize("  hello\t\tworld \n again ");
    assert_eq!(toks, vec!["hello".to_string(), "world".to_string(), "again".to_string()]);
}

#[test]
fn tokenize_empty_and_blank() {
    assert!(tokenize("").is_empty());
    assert!(tokenize(" \t\r\n").is_empty());
}

#[test]
fn tokenize_splits_on_unicode_whitespace() {
    // No-break space, ogham space mark, em space, ideographic space.
    let toks = tokenize("a\u{a0}b\u{1680}c\u{2003}d\u{3000}e");
    assert_eq!(
        toks,
        vec![
            "a".to_string(),
            "b".to_string(),
            "c".to_string(),
            "d".to_string(),
            "e".to_string(),
        ]
    );
    assert!(tokenize("\u{2028}\u{2029}\u{205f}\u{202f}\u{85}").is_empty());
}
