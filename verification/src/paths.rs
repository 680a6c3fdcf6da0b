//! Path-string reasoning: file names, extensions, and a light safety check.
//!
//! Paths travel through the library as plain strings; the helpers here give
//! them exact, spec-level meaning.

use vstd::prelude::*;

verus! {

/// The suffix of `s` after the last occurrence of `c`; all of `s` when `c`
/// does not occur.
pub open spec fn suffix_after_last(s: Seq<char>, c: char) -> Seq<char>
    decreases s.len(),
{
    if s.len() == 0 {
        s
    } else if s.last() == c {
        Seq::empty()
    } else {
        suffix_after_last(s.drop_last(), c).push(s.last())
    }
}

/// If `c` occurs last at index `i`, the suffix after it is `s.skip(i + 1)`.
pub proof fn lemma_suffix_after_last_at(s: Seq<char>, c: char, i: int)
    requires
        0 <= i < s.len(),
        s[i] == c,
        forall |j: int| i < j < s.len() ==> s[j] != c,
    ensures
        suffix_after_last(s, c) == s.skip(i + 1),
    decreases s.len(),
{
    if i == s.len() - 1 {
        assert(s.skip(i + 1) =~= Seq::<char>::empty());
    } else {
        assert(s.last() != c);
        assert(forall |j: int| i < j < s.drop_last().len() ==> s.drop_last()[j] != c);
        lemma_suffix_after_last_at(s.drop_last(), c, i);
        assert(s.drop_last().skip(i + 1).push(s.last()) =~= s.skip(i + 1));
    }
}

/// If `c` does not occur in `s`, the suffix after it is all of `s`.
pub proof fn lemma_suffix_after_last_absent(s: Seq<char>, c: char)
    requires
        forall |j: int| 0 <= j < s.len() ==> s[j] != c,
    ensures
        suffix_after_last(s, c) == s,
    decreases s.len(),
{
    if s.len() > 0 {
        lemma_suffix_after_last_absent(s.drop_last(), c);
        assert(s.drop_last().push(s.last()) =~= s);
    }
}

/// The final path component: everything after the last `'/'`.
pub open spec fn path_file_name(path: Seq<char>) -> Seq<char> {
    suffix_after_last(path, '/')
}

/// The extension of a path, mirroring the usual file-name rules: the part
/// of the final component after its last `'.'`, where a dot that starts the
/// component does not count (so a bare hidden file has no extension).
pub open spec fn path_extension(path: Seq<char>) -> Option<Seq<char>> {
    let f = path_file_name(path);
    if f.len() >= 1 && f.skip(1).contains('.') {
        Some(suffix_after_last(f.skip(1), '.'))
    } else {
        None
    }
}

/// The index of the last occurrence of `c` in `s`, if any.
fn find_last_char(s: &str, c: char) -> (r: Option<usize>)
    ensures
        match r {
            Some(i) => i < s@.len() && s@[i as int] == c && forall |j: int|
                i < j < s@.len() ==> s@[j] != c,
            None => forall |j: int| 0 <= j < s@.len() ==> s@[j] != c,
        },
{
    let n = s.unicode_len();
    let mut found: Option<usize> = None;
    let mut i: usize = 0;
    while i < n
        invariant
            n == s@.len(),
            i <= n,
            match found {
                Some(fi) => fi < i && s@[fi as int] == c && forall |j: int|
                    fi < j < i ==> s@[j] != c,
                None => forall |j: int| 0 <= j < i ==> s@[j] != c,
            },
        decreases n - i,
    {
        if s.get_char(i) == c {
            found = Some(i);
        }
        i = i + 1;
    }
    found
}

/// The extension of `path`, as `path_extension` defines it.
pub fn extension_of(path: &str) -> (r: Option<String>)
    ensures
        match r {
            Some(e) => path_extension(path@) == Some(e@),
            None => path_extension(path@) is None,
        },
{
    let n = path.unicode_len();
    let fstart: usize = match find_last_char(path, '/') {
        Some(i) => {
            proof {
                lemma_suffix_after_last_at(path@, '/', i as int);
            }
            i + 1
        },
        None => {
            proof {
                lemma_suffix_after_last_absent(path@, '/');
            }
            0
        },
    };
    let ghost f = path_file_name(path@);
    proof {
        assert(f =~= path@.skip(fstart as int));
    }
    if fstart >= n {
        proof {
            assert(f.len() == 0);
        }
        return None;
    }
    let fname = path.substring_char(fstart, n);
    proof {
        assert(fname@ =~= f);
        assert(fname@.subrange(1, fname@.len() as int) =~= f.skip(1));
    }
    let fn_len = fname.unicode_len();
    let tail = fname.substring_char(1, fn_len);
    proof {
        assert(tail@ == f.skip(1));
    }
    match find_last_char(tail, '.') {
        Some(i) => {
            proof {
                lemma_suffix_after_last_at(tail@, '.', i as int);
                assert(tail@.contains('.')) by {
                    assert(tail@[i as int] == '.');
                }
                assert(tail@.subrange(i + 1, tail@.len() as int) =~= tail@.skip(i + 1));
            }
            let tail_len = tail.unicode_len();
            Some(tail.substring_char(i + 1, tail_len).to_owned())
        },
        None => {
            proof {
                assert(!tail@.contains('.')) by {
                    if tail@.contains('.') {
                        let j = choose |j: int| 0 <= j < tail@.len() && tail@[j] == '.';
                        assert(tail@[j] != '.');
                    }
                }
            }
            None
        },
    }
}

/// Whether a `..` segment starts at index `i` of `path`: two dots bounded
/// by the path's ends or by `'/'` on both sides.
pub open spec fn parent_component_at(path: Seq<char>, i: int) -> bool {
    0 <= i && i + 2 <= path.len() && path[i] == '.' && path[i + 1] == '.' && (i == 0 || path[i - 1]
        == '/') && (i + 2 == path.len() || path[i + 2] == '/')
}

/// Whether `path` holds a `..` component: a maximal `'/'`-delimited segment
/// that is exactly `..`.
pub open spec fn has_parent_component(path: Seq<char>) -> bool {
    exists |i: int| parent_component_at(path, i)
}

/// Rejects obviously unsafe path inputs: the empty path and any path with
/// a `..` component.
pub fn validate_safe_path(path: &str) -> (r: Result<(), String>)
    ensures
        r.is_ok() <==> path@.len() > 0 && !has_parent_component(path@),
{
    let n = path.unicode_len();
    if n == 0 {
        return Err("Path must not be empty".to_owned());
    }
    let mut i: usize = 0;
    while i < n - 1
        invariant
            n == path@.len(),
            n >= 1,
            i <= n,
            forall |k: int| 0 <= k < i ==> !parent_component_at(path@, k),
        decreases n - i,
    {
        let c0 = path.get_char(i);
        let c1 = path.get_char(i + 1);
        let at_start = i == 0 || path.get_char(i - 1) == '/';
        let at_end = i + 2 == n || path.get_char(i + 2) == '/';
        if c0 == '.' && c1 == '.' && at_start && at_end {
            proof {
                assert(parent_component_at(path@, i as int));
            }
            return Err("Path must not contain '..'".to_owned());
        }
        i = i + 1;
    }
    proof {
        if has_parent_component(path@) {
            let k = choose |k: int| parent_component_at(path@, k);
            assert(k < i);
            assert(false);
        }
    }
    Ok(())
}

} // verus!
