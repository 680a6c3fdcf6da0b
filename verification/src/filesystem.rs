//! The scanner: iterative depth-first traversal state over configured
//! roots, classifying every entry against the compiled policy.
//!
//! The library holds the explicit work stack, the counters and the sampled
//! results; the surrounding process performs the actual filesystem probes
//! and hands their outcomes in as plain values. A single bad entry never
//! stops a scan: every rejection is recorded as a skip with a reason.

use vstd::prelude::*;
use crate::config::{
    glob_set_matches, glob_set_patterns, spec_extension_allowed, CompiledFileSystemPolicy,
};
use crate::strutil::{dec_chars, lex_le, u64_to_string};

verus! {

broadcast use vstd::seq_lib::group_to_multiset_ensures;

/// A file the scanner accepted for ingestion.
#[derive(Debug, Clone)]
pub struct FileCandidate {
    pub path: String,
    pub size_bytes: u64,
    pub modified_epoch_secs: Option<i64>,
    pub inode: Option<u64>,
}

/// An entry the scanner rejected, with the reason.
#[derive(Debug, Clone)]
pub struct SkippedEntry {
    pub path: String,
    pub reason: String,
}

/// The outcome of one scan: counters plus size-capped, path-sorted samples.
#[derive(Debug, Clone)]
pub struct ScanSummary {
    pub roots: Vec<String>,
    pub files_seen: u64,
    pub dirs_seen: u64,
    pub candidates: u64,
    pub skipped: u64,
    pub sample_candidates: Vec<FileCandidate>,
    pub sample_skipped: Vec<SkippedEntry>,
}

/// Caps on the preview's sample lists.
#[derive(Debug, Clone)]
pub struct ScanOptions {
    pub max_sample_candidates: usize,
    pub max_sample_skipped: usize,
}

impl Default for ScanOptions {
    /// At most 200 sampled candidates and 200 sampled skips.
    fn default() -> (r: Self)
        ensures
            r.max_sample_candidates == 200,
            r.max_sample_skipped == 200,
    {
        ScanOptions { max_sample_candidates: 200, max_sample_skipped: 200 }
    }
}

/// What kind of filesystem object a probe found.
#[derive(Debug, Clone, Copy, PartialEq, Eq, Structural)]
pub enum EntryKind {
    File,
    Dir,
    Symlink,
    Other,
}

/// What the surrounding process learned when it examined one path with a
/// non-following stat.
#[derive(Debug, Clone)]
pub enum EntryInfo {
    /// The probe itself failed; the payload is the error text.
    StatError(String),
    /// The probe succeeded.
    Meta {
        kind: EntryKind,
        size_bytes: u64,
        modified_epoch_secs: Option<i64>,
        inode: Option<u64>,
    },
}

/// How the policy classifies one visited path.
#[derive(Debug, Clone, Copy, PartialEq, Eq, Structural)]
pub enum Classification {
    /// An exclusion pattern matched; skipped.
    Excluded,
    /// The stat probe failed; skipped.
    StatFailed,
    /// A symlink while symlinks are not followed; skipped.
    SymlinkSkipped,
    /// A directory: its children are to be visited.
    Directory,
    /// Not a regular file; skipped.
    NotRegular,
    /// A regular file whose extension is not allowlisted; skipped.
    ExtensionNotAllowed,
    /// A regular file over the size cap; skipped.
    TooLarge,
    /// A regular file accepted for ingestion.
    Candidate,
}

/// The classification rules, applied in order: exclusion match, stat
/// failure, unfollowed symlink, directory, non-regular file, extension,
/// size cap; what remains is a candidate.
pub open spec fn spec_classify(
    pol: CompiledFileSystemPolicy,
    path: Seq<char>,
    info: EntryInfo,
) -> Classification {
    if glob_set_matches(glob_set_patterns(pol.exclude), path) {
        Classification::Excluded
    } else {
        match info {
            EntryInfo::StatError(_) => Classification::StatFailed,
            EntryInfo::Meta { kind, size_bytes, .. } => {
                if kind is Symlink && !pol.follow_symlinks {
                    Classification::SymlinkSkipped
                } else if kind is Dir {
                    Classification::Directory
                } else if !(kind is File) {
                    Classification::NotRegular
                } else if !spec_extension_allowed(pol.allow_extensions.deep_view(), path) {
                    Classification::ExtensionNotAllowed
                } else if size_bytes > pol.max_file_size_bytes {
                    Classification::TooLarge
                } else {
                    Classification::Candidate
                }
            },
        }
    }
}

/// Acceptance is exactly: a regular file, not excluded, extension
/// allowlisted, size within the cap — and, because an unfollowed symlink is
/// never a regular file here, never a symlink that the policy refuses.
pub proof fn lemma_acceptance(pol: CompiledFileSystemPolicy, path: Seq<char>, info: EntryInfo)
    ensures
        spec_classify(pol, path, info) is Candidate <==> (info matches EntryInfo::Meta {
            kind,
            size_bytes,
            ..
        } && kind is File && !glob_set_matches(glob_set_patterns(pol.exclude), path)
            && spec_extension_allowed(pol.allow_extensions.deep_view(), path) && size_bytes
            <= pol.max_file_size_bytes),
{
}

/// Classifies one visited path from the policy and the probe's outcome.
pub fn classify_entry(pol: &CompiledFileSystemPolicy, path: &str, info: &EntryInfo) -> (r:
    Classification)
    ensures
        r == spec_classify(*pol, path@, *info),
{
    if pol.matches_exclude(path) {
        return Classification::Excluded;
    }
    match info {
        EntryInfo::StatError(_) => Classification::StatFailed,
        EntryInfo::Meta { kind, size_bytes, .. } => {
            if matches!(kind, EntryKind::Symlink) && !pol.follow_symlinks {
                Classification::SymlinkSkipped
            } else if matches!(kind, EntryKind::Dir) {
                Classification::Directory
            } else if !matches!(kind, EntryKind::File) {
                Classification::NotRegular
            } else if !pol.extension_allowed(path) {
                Classification::ExtensionNotAllowed
            } else if *size_bytes > pol.max_file_size_bytes {
                Classification::TooLarge
            } else {
                Classification::Candidate
            }
        },
    }
}

/// The sample-list push discipline: nothing changes once the cap is
/// reached, otherwise exactly the new entry is appended.
pub open spec fn skip_sample_pushed(
    old_s: Seq<SkippedEntry>,
    new_s: Seq<SkippedEntry>,
    max: int,
    path: Seq<char>,
    reason: Seq<char>,
) -> bool {
    if old_s.len() >= max {
        new_s == old_s
    } else {
        &&& new_s.len() == old_s.len() + 1
        &&& new_s.take(old_s.len() as int) == old_s
        &&& new_s.last().path@ == path
        &&& new_s.last().reason@ == reason
    }
}

/// Appends a skipped entry unless the sample list has reached its cap.
pub fn push_skipped(out: &mut Vec<SkippedEntry>, max: usize, path: String, reason: String)
    ensures
        skip_sample_pushed(old(out)@, final(out)@, max as int, path@, reason@),
{
    if out.len() >= max {
        return;
    }
    let ghost old_s = out@;
    out.push(SkippedEntry { path, reason });
    proof {
        assert(out@.take(old_s.len() as int) =~= old_s);
    }
}

/// The candidate-sample push discipline, like `skip_sample_pushed`.
pub open spec fn cand_sample_pushed(
    old_s: Seq<FileCandidate>,
    new_s: Seq<FileCandidate>,
    max: int,
    path: Seq<char>,
    size_bytes: u64,
    modified_epoch_secs: Option<i64>,
    inode: Option<u64>,
) -> bool {
    if old_s.len() >= max {
        new_s == old_s
    } else {
        &&& new_s.len() == old_s.len() + 1
        &&& new_s.take(old_s.len() as int) == old_s
        &&& new_s.last().path@ == path
        &&& new_s.last().size_bytes == size_bytes
        &&& new_s.last().modified_epoch_secs == modified_epoch_secs
        &&& new_s.last().inode == inode
    }
}

fn push_candidate(
    out: &mut Vec<FileCandidate>,
    max: usize,
    path: String,
    size_bytes: u64,
    modified_epoch_secs: Option<i64>,
    inode: Option<u64>,
)
    ensures
        cand_sample_pushed(
            old(out)@,
            final(out)@,
            max as int,
            path@,
            size_bytes,
            modified_epoch_secs,
            inode,
        ),
{
    if out.len() >= max {
        return;
    }
    let ghost old_s = out@;
    out.push(FileCandidate { path, size_bytes, modified_epoch_secs, inode });
    proof {
        assert(out@.take(old_s.len() as int) =~= old_s);
    }
}

/// A counter increment that stops at the type's ceiling instead of
/// overflowing.
pub open spec fn inc64(x: u64) -> u64 {
    if x == u64::MAX {
        x
    } else {
        (x + 1) as u64
    }
}

pub(crate) fn bump_u64(x: u64) -> (r: u64)
    ensures
        r == inc64(x),
{
    if x == u64::MAX {
        x
    } else {
        x + 1
    }
}

/// Sorts candidates by path, keeping exactly the same entries.
fn sort_candidates(v: Vec<FileCandidate>) -> (r: Vec<FileCandidate>)
    ensures
        r@.to_multiset() == v@.to_multiset(),
        r@.len() == v@.len(),
        forall |i: int, j: int|
            0 <= i < j < r@.len() ==> lex_le((#[trigger] r@[i]).path@, (#[trigger] r@[j]).path@),
{
    let mut src = v;
    let ghost orig = src@;
    let mut out: Vec<FileCandidate> = Vec::new();
    while src.len() > 0
        invariant
            orig.to_multiset() =~= out@.to_multiset().add(src@.to_multiset()),
            orig.len() == out@.len() + src@.len(),
            forall |i: int, j: int|
                0 <= i < j < out@.len() ==> lex_le(
                    (#[trigger] out@[i]).path@,
                    (#[trigger] out@[j]).path@,
                ),
            forall |x: int, y: int|
                0 <= x < out@.len() && 0 <= y < src@.len() ==> lex_le(
                    (#[trigger] out@[x]).path@,
                    (#[trigger] src@[y]).path@,
                ),
        decreases src@.len(),
    {
        let mut m: usize = 0;
        let mut j: usize = 1;
        proof {
            crate::strutil::lemma_lex_le_refl(src@[0].path@);
        }
        while j < src.len()
            invariant
                src@.len() > 0,
                m < src@.len(),
                1 <= j <= src@.len(),
                forall |t: int| 0 <= t < j ==> lex_le(src@[m as int].path@, (#[trigger] src@[t]).path@),
            decreases src@.len() - j,
        {
            if !crate::strutil::str_le(src[m].path.as_str(), src[j].path.as_str()) {
                proof {
                    crate::strutil::lemma_lex_le_total(src@[m as int].path@, src@[j as int].path@);
                    crate::strutil::lemma_lex_le_refl(src@[j as int].path@);
                    assert forall |t: int| 0 <= t < j implies lex_le(
                        src@[j as int].path@,
                        (#[trigger] src@[t]).path@,
                    ) by {
                        crate::strutil::lemma_lex_le_trans(
                            src@[j as int].path@,
                            src@[m as int].path@,
                            src@[t].path@,
                        );
                    }
                }
                m = j;
            }
            j = j + 1;
        }
        let x = src.remove(m);
        out.push(x);
        proof {
            assert(out@.drop_last() =~= out@.take(out@.len() - 1));
        }
    }
    proof {
        assert(orig.to_multiset() =~= out@.to_multiset()) by {
            assert forall |x: FileCandidate| orig.to_multiset().count(x) == out@.to_multiset()
                .count(x) by {
                assert(src@.to_multiset().count(x) == 0) by {
                    if src@.to_multiset().count(x) > 0 {
                        assert(src@.contains(x));
                    }
                }
            }
        }
    }
    out
}

/// Sorts skipped entries by path, keeping exactly the same entries.
fn sort_skipped(v: Vec<SkippedEntry>) -> (r: Vec<SkippedEntry>)
    ensures
        r@.to_multiset() == v@.to_multiset(),
        r@.len() == v@.len(),
        forall |i: int, j: int|
            0 <= i < j < r@.len() ==> lex_le((#[trigger] r@[i]).path@, (#[trigger] r@[j]).path@),
{
    let mut src = v;
    let ghost orig = src@;
    let mut out: Vec<SkippedEntry> = Vec::new();
    while src.len() > 0
        invariant
            orig.to_multiset() =~= out@.to_multiset().add(src@.to_multiset()),
            orig.len() == out@.len() + src@.len(),
            forall |i: int, j: int|
                0 <= i < j < out@.len() ==> lex_le(
                    (#[trigger] out@[i]).path@,
                    (#[trigger] out@[j]).path@,
                ),
            forall |x: int, y: int|
                0 <= x < out@.len() && 0 <= y < src@.len() ==> lex_le(
                    (#[trigger] out@[x]).path@,
                    (#[trigger] src@[y]).path@,
                ),
        decreases src@.len(),
    {
        let mut m: usize = 0;
        let mut j: usize = 1;
        proof {
            crate::strutil::lemma_lex_le_refl(src@[0].path@);
        }
        while j < src.len()
            invariant
                src@.len() > 0,
                m < src@.len(),
                1 <= j <= src@.len(),
                forall |t: int| 0 <= t < j ==> lex_le(src@[m as int].path@, (#[trigger] src@[t]).path@),
            decreases src@.len() - j,
        {
            if !crate::strutil::str_le(src[m].path.as_str(), src[j].path.as_str()) {
                proof {
                    crate::strutil::lemma_lex_le_total(src@[m as int].path@, src@[j as int].path@);
                    crate::strutil::lemma_lex_le_refl(src@[j as int].path@);
                    assert forall |t: int| 0 <= t < j implies lex_le(
                        src@[j as int].path@,
                        (#[trigger] src@[t]).path@,
                    ) by {
                        crate::strutil::lemma_lex_le_trans(
                            src@[j as int].path@,
                            src@[m as int].path@,
                            src@[t].path@,
                        );
                    }
                }
                m = j;
            }
            j = j + 1;
        }
        let x = src.remove(m);
        out.push(x);
        proof {
            assert(out@.drop_last() =~= out@.take(out@.len() - 1));
        }
    }
    proof {
        assert(orig.to_multiset() =~= out@.to_multiset()) by {
            assert forall |x: SkippedEntry| orig.to_multiset().count(x) == out@.to_multiset().count(
                x,
            ) by {
                assert(src@.to_multiset().count(x) == 0) by {
                    if src@.to_multiset().count(x) > 0 {
                        assert(src@.contains(x));
                    }
                }
            }
        }
    }
    out
}

/// The scan's traversal state: the work stack, the counters, and the
/// capped samples. The surrounding process pops paths, probes them, and
/// reports what it found; every decision lives here.
pub struct Scanner {
    pub policy: CompiledFileSystemPolicy,
    pub roots: Vec<String>,
    pub stack: Vec<String>,
    pub opts: ScanOptions,
    pub files_seen: u64,
    pub dirs_seen: u64,
    pub candidates: u64,
    pub skipped: u64,
    pub sample_candidates: Vec<FileCandidate>,
    pub sample_skipped: Vec<SkippedEntry>,
}

impl Scanner {
    /// A fresh scan over the given roots: the stack is seeded with the
    /// roots, everything else starts empty.
    pub fn new(roots: Vec<String>, policy: CompiledFileSystemPolicy, opts: ScanOptions) -> (r:
        Self)
        ensures
            r.policy == policy,
            r.roots == roots,
            r.stack@ == roots@,
            r.opts == opts,
            r.files_seen == 0 && r.dirs_seen == 0 && r.candidates == 0 && r.skipped == 0,
            r.sample_candidates@.len() == 0,
            r.sample_skipped@.len() == 0,
    {
        let stack = crate::strutil::clone_string_vec(&roots);
        Scanner {
            policy,
            roots,
            stack,
            opts,
            files_seen: 0,
            dirs_seen: 0,
            candidates: 0,
            skipped: 0,
            sample_candidates: Vec::new(),
            sample_skipped: Vec::new(),
        }
    }

    /// Takes the next path to visit off the work stack.
    pub fn next_path(&mut self) -> (r: Option<String>)
        ensures
            match r {
                Some(p) => old(self).stack@.len() > 0 && p == old(self).stack@.last()
                    && final(self).stack@ == old(self).stack@.drop_last(),
                None => old(self).stack@.len() == 0 && final(self).stack@ == old(self).stack@,
            },
            final(self).policy == old(self).policy,
            final(self).roots == old(self).roots,
            final(self).opts == old(self).opts,
            final(self).files_seen == old(self).files_seen,
            final(self).dirs_seen == old(self).dirs_seen,
            final(self).candidates == old(self).candidates,
            final(self).skipped == old(self).skipped,
            final(self).sample_candidates == old(self).sample_candidates,
            final(self).sample_skipped == old(self).sample_skipped,
    {
        self.stack.pop()
    }

    /// Pushes a directory's children onto the work stack.
    pub fn descend(&mut self, children: Vec<String>)
        ensures
            final(self).stack@ == old(self).stack@ + children@,
            final(self).policy == old(self).policy,
            final(self).roots == old(self).roots,
            final(self).opts == old(self).opts,
            final(self).files_seen == old(self).files_seen,
            final(self).dirs_seen == old(self).dirs_seen,
            final(self).candidates == old(self).candidates,
            final(self).skipped == old(self).skipped,
            final(self).sample_candidates == old(self).sample_candidates,
            final(self).sample_skipped == old(self).sample_skipped,
    {
        let mut children = children;
        self.stack.append(&mut children);
    }

    /// Records that a directory could not be enumerated: one more skip,
    /// with the error in the sample.
    pub fn dir_unreadable(&mut self, path: String, err: &str)
        ensures
            final(self).skipped == inc64(old(self).skipped),
            skip_sample_pushed(
                old(self).sample_skipped@,
                final(self).sample_skipped@,
                old(self).opts.max_sample_skipped as int,
                path@,
                "read_dir error: "@ + err@,
            ),
            final(self).policy == old(self).policy,
            final(self).roots == old(self).roots,
            final(self).stack == old(self).stack,
            final(self).opts == old(self).opts,
            final(self).files_seen == old(self).files_seen,
            final(self).dirs_seen == old(self).dirs_seen,
            final(self).candidates == old(self).candidates,
            final(self).sample_candidates == old(self).sample_candidates,
    {
        self.skipped = bump_u64(self.skipped);
        let mut reason = "read_dir error: ".to_owned();
        reason.append(err);
        let max = self.opts.max_sample_skipped;
        push_skipped(&mut self.sample_skipped, max, path, reason);
    }

    /// Classifies one probed path and records its effect: a skip with its
    /// reason, a directory seen, or an accepted candidate.
    pub fn report(&mut self, path: &str, info: &EntryInfo) -> (r: Classification)
        ensures
            r == spec_classify(old(self).policy, path@, *info),
            final(self).policy == old(self).policy,
            final(self).roots == old(self).roots,
            final(self).stack == old(self).stack,
            final(self).opts == old(self).opts,
            final(self).files_seen == if r is ExtensionNotAllowed || r is TooLarge
                || r is Candidate {
                inc64(old(self).files_seen)
            } else {
                old(self).files_seen
            },
            final(self).dirs_seen == if r is Directory {
                inc64(old(self).dirs_seen)
            } else {
                old(self).dirs_seen
            },
            final(self).candidates == if r is Candidate {
                inc64(old(self).candidates)
            } else {
                old(self).candidates
            },
            final(self).skipped == if r is Directory || r is Candidate {
                old(self).skipped
            } else {
                inc64(old(self).skipped)
            },
            match r {
                Classification::Excluded => skip_sample_pushed(
                    old(self).sample_skipped@,
                    final(self).sample_skipped@,
                    old(self).opts.max_sample_skipped as int,
                    path@,
                    "excluded by glob"@,
                ) && final(self).sample_candidates == old(self).sample_candidates,
                Classification::StatFailed => *info matches EntryInfo::StatError(e)
                    && skip_sample_pushed(
                    old(self).sample_skipped@,
                    final(self).sample_skipped@,
                    old(self).opts.max_sample_skipped as int,
                    path@,
                    "metadata error: "@ + e@,
                ) && final(self).sample_candidates == old(self).sample_candidates,
                Classification::SymlinkSkipped => skip_sample_pushed(
                    old(self).sample_skipped@,
                    final(self).sample_skipped@,
                    old(self).opts.max_sample_skipped as int,
                    path@,
                    "symlink (skipped)"@,
                ) && final(self).sample_candidates == old(self).sample_candidates,
                Classification::Directory => final(self).sample_skipped == old(self).sample_skipped
                    && final(self).sample_candidates == old(self).sample_candidates,
                Classification::NotRegular => skip_sample_pushed(
                    old(self).sample_skipped@,
                    final(self).sample_skipped@,
                    old(self).opts.max_sample_skipped as int,
                    path@,
                    "not a regular file"@,
                ) && final(self).sample_candidates == old(self).sample_candidates,
                Classification::ExtensionNotAllowed => skip_sample_pushed(
                    old(self).sample_skipped@,
                    final(self).sample_skipped@,
                    old(self).opts.max_sample_skipped as int,
                    path@,
                    "extension not allowlisted"@,
                ) && final(self).sample_candidates == old(self).sample_candidates,
                Classification::TooLarge => *info matches EntryInfo::Meta { size_bytes, .. }
                    && skip_sample_pushed(
                    old(self).sample_skipped@,
                    final(self).sample_skipped@,
                    old(self).opts.max_sample_skipped as int,
                    path@,
                    "file too large: "@ + dec_chars(size_bytes as nat) + " bytes"@,
                ) && final(self).sample_candidates == old(self).sample_candidates,
                Classification::Candidate => *info matches EntryInfo::Meta {
                    size_bytes,
                    modified_epoch_secs,
                    inode,
                    ..
                } && cand_sample_pushed(
                    old(self).sample_candidates@,
                    final(self).sample_candidates@,
                    old(self).opts.max_sample_candidates as int,
                    path@,
                    size_bytes,
                    modified_epoch_secs,
                    inode,
                ) && final(self).sample_skipped == old(self).sample_skipped,
            },
    {
        let class = classify_entry(&self.policy, path, info);
        let max_skip = self.opts.max_sample_skipped;
        let max_cand = self.opts.max_sample_candidates;
        match class {
            Classification::Excluded => {
                self.skipped = bump_u64(self.skipped);
                push_skipped(
                    &mut self.sample_skipped,
                    max_skip,
                    path.to_owned(),
                    "excluded by glob".to_owned(),
                );
            },
            Classification::StatFailed => {
                self.skipped = bump_u64(self.skipped);
                let mut reason = "metadata error: ".to_owned();
                match info {
                    EntryInfo::StatError(e) => reason.append(e.as_str()),
                    EntryInfo::Meta { .. } => {},
                }
                push_skipped(&mut self.sample_skipped, max_skip, path.to_owned(), reason);
            },
            Classification::SymlinkSkipped => {
                self.skipped = bump_u64(self.skipped);
                push_skipped(
                    &mut self.sample_skipped,
                    max_skip,
                    path.to_owned(),
                    "symlink (skipped)".to_owned(),
                );
            },
            Classification::Directory => {
                self.dirs_seen = bump_u64(self.dirs_seen);
            },
            Classification::NotRegular => {
                self.skipped = bump_u64(self.skipped);
                push_skipped(
                    &mut self.sample_skipped,
                    max_skip,
                    path.to_owned(),
                    "not a regular file".to_owned(),
                );
            },
            Classification::ExtensionNotAllowed => {
                self.files_seen = bump_u64(self.files_seen);
                self.skipped = bump_u64(self.skipped);
                push_skipped(
                    &mut self.sample_skipped,
                    max_skip,
                    path.to_owned(),
                    "extension not allowlisted".to_owned(),
                );
            },
            Classification::TooLarge => {
                self.files_seen = bump_u64(self.files_seen);
                self.skipped = bump_u64(self.skipped);
                let mut reason = "file too large: ".to_owned();
                match info {
                    EntryInfo::Meta { size_bytes, .. } => {
                        reason.append(u64_to_string(*size_bytes).as_str());
                    },
                    EntryInfo::StatError(_) => {},
                }
                reason.append(" bytes");
                push_skipped(&mut self.sample_skipped, max_skip, path.to_owned(), reason);
            },
            Classification::Candidate => {
                self.files_seen = bump_u64(self.files_seen);
                self.candidates = bump_u64(self.candidates);
                match info {
                    EntryInfo::Meta { size_bytes, modified_epoch_secs, inode, .. } => {
                        push_candidate(
                            &mut self.sample_candidates,
                            max_cand,
                            path.to_owned(),
                            *size_bytes,
                            *modified_epoch_secs,
                            *inode,
                        );
                    },
                    EntryInfo::StatError(_) => {},
                }
            },
        }
        class
    }

    /// Closes the scan: the counters as they stand, and the samples sorted
    /// by path so that the preview is deterministic regardless of
    /// traversal order.
    pub fn finish(self) -> (r: ScanSummary)
        ensures
            r.roots == self.roots,
            r.files_seen == self.files_seen,
            r.dirs_seen == self.dirs_seen,
            r.candidates == self.candidates,
            r.skipped == self.skipped,
            r.sample_candidates@.to_multiset() == self.sample_candidates@.to_multiset(),
            r.sample_candidates@.len() == self.sample_candidates@.len(),
            forall |i: int, j: int|
                0 <= i < j < r.sample_candidates@.len() ==> lex_le(
                    (#[trigger] r.sample_candidates@[i]).path@,
                    (#[trigger] r.sample_candidates@[j]).path@,
                ),
            r.sample_skipped@.to_multiset() == self.sample_skipped@.to_multiset(),
            r.sample_skipped@.len() == self.sample_skipped@.len(),
            forall |i: int, j: int|
                0 <= i < j < r.sample_skipped@.len() ==> lex_le(
                    (#[trigger] r.sample_skipped@[i]).path@,
                    (#[trigger] r.sample_skipped@[j]).path@,
                ),
    {
        ScanSummary {
            roots: self.roots,
            files_seen: self.files_seen,
            dirs_seen: self.dirs_seen,
            candidates: self.candidates,
            skipped: self.skipped,
            sample_candidates: sort_candidates(self.sample_candidates),
            sample_skipped: sort_skipped(self.sample_skipped),
        }
    }
}

} // verus!
