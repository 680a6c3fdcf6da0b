//! The indexing orchestrator's decision state: traversal, admission
//! against `max_files`, and aggregation of per-file results.
//!
//! The surrounding process owns the concurrency (permits, task spawning,
//! joining); every counter change and every recorded error lives here, and
//! the final counts depend only on which results arrived, never on the
//! order they arrived in.

use vstd::prelude::*;
use crate::config::CompiledFileSystemPolicy;
use crate::filesystem::{
    classify_entry, inc64, spec_classify, Classification, EntryInfo,
};

verus! {

/// The aggregated outcome of one indexing run.
#[derive(Debug, Clone)]
pub struct IndexSummary {
    pub roots: Vec<String>,
    pub scanned_files: u64,
    pub scanned_dirs: u64,
    pub ingested: u64,
    pub skipped: u64,
    pub errors: u64,
    pub stored: u64,
    pub sample_errors: Vec<String>,
}

/// Options of one indexing run: an optional admission cap, the concurrency
/// budget, and the cap on sampled error messages.
#[derive(Debug, Clone)]
pub struct IndexOptions {
    pub max_files: Option<u64>,
    pub concurrency: usize,
    pub max_sample_errors: usize,
}

impl Default for IndexOptions {
    /// No admission cap, two concurrent tasks, twenty sampled errors.
    fn default() -> (r: Self)
        ensures
            r.max_files is None,
            r.concurrency == 2,
            r.max_sample_errors == 20,
    {
        IndexOptions { max_files: None, concurrency: 2, max_sample_errors: 20 }
    }
}

/// The error-sample push discipline: nothing changes once the cap is
/// reached, otherwise exactly the message is appended.
pub open spec fn err_sample_pushed(
    old_s: Seq<String>,
    new_s: Seq<String>,
    max: int,
    msg: Seq<char>,
) -> bool {
    if old_s.len() >= max {
        new_s == old_s
    } else {
        &&& new_s.len() == old_s.len() + 1
        &&& new_s.take(old_s.len() as int) == old_s
        &&& new_s.last()@ == msg
    }
}

/// Appends an error message unless the sample list has reached its cap.
pub fn push_err(out: &mut Vec<String>, max: usize, msg: String)
    ensures
        err_sample_pushed(old(out)@, final(out)@, max as int, msg@),
{
    if out.len() < max {
        let ghost old_s = out@;
        out.push(msg);
        proof {
            assert(out@.take(old_s.len() as int) =~= old_s);
        }
    }
}

/// How one spawned per-file task ended, as reported back by the
/// surrounding process.
#[derive(Debug, Clone)]
pub enum TaskOutcome {
    /// The file was ingested; `stored` reports whether rows were persisted.
    Done { stored: bool },
    /// The file's pipeline failed; the payload is the error text.
    Failed(String),
    /// The task itself could not be joined; the payload is the error text.
    JoinFailed(String),
}

/// How a recorded outcome moves the ingested counter.
pub open spec fn rec_ingested(c: u64, o: TaskOutcome) -> u64 {
    match o {
        TaskOutcome::Done { .. } => inc64(c),
        _ => c,
    }
}

/// How a recorded outcome moves the stored counter.
pub open spec fn rec_stored(c: u64, o: TaskOutcome) -> u64 {
    match o {
        TaskOutcome::Done { stored } => if stored {
            inc64(c)
        } else {
            c
        },
        _ => c,
    }
}

/// How a recorded outcome moves the error counter.
pub open spec fn rec_errors(c: u64, o: TaskOutcome) -> u64 {
    match o {
        TaskOutcome::Done { .. } => c,
        _ => inc64(c),
    }
}

/// The run's counters do not depend on the order in which per-file
/// results arrive: recording two outcomes in either order moves the
/// ingested, stored and error counts to the same values.
pub proof fn lemma_record_order_irrelevant(
    ingested: u64,
    stored: u64,
    errors: u64,
    o1: TaskOutcome,
    o2: TaskOutcome,
)
    ensures
        rec_ingested(rec_ingested(ingested, o1), o2) == rec_ingested(
            rec_ingested(ingested, o2),
            o1,
        ),
        rec_stored(rec_stored(stored, o1), o2) == rec_stored(rec_stored(stored, o2), o1),
        rec_errors(rec_errors(errors, o1), o2) == rec_errors(rec_errors(errors, o2), o1),
{
}

/// The decision state of one indexing run.
pub struct IndexRun {
    pub policy: CompiledFileSystemPolicy,
    pub roots: Vec<String>,
    pub stack: Vec<String>,
    pub opts: IndexOptions,
    pub scanned_files: u64,
    pub scanned_dirs: u64,
    /// Files accepted for ingestion so far; `max_files` gates on this, so
    /// new admissions stop while in-flight work still finishes and counts.
    pub admitted: u64,
    pub ingested: u64,
    pub skipped: u64,
    pub errors: u64,
    pub stored: u64,
    pub sample_errors: Vec<String>,
}

impl IndexRun {
    /// Whether the run has admitted as many files as `max_files` allows.
    pub open spec fn reached_max(self) -> bool {
        match self.opts.max_files {
            Some(m) => self.admitted >= m,
            None => false,
        }
    }

    /// A fresh run over the given roots: the stack is seeded with the
    /// roots, every counter starts at zero.
    pub fn new(roots: Vec<String>, policy: CompiledFileSystemPolicy, opts: IndexOptions) -> (r:
        Self)
        ensures
            r.policy == policy,
            r.roots == roots,
            r.stack@ == roots@,
            r.opts == opts,
            r.scanned_files == 0 && r.scanned_dirs == 0 && r.admitted == 0 && r.ingested == 0
                && r.skipped == 0 && r.errors == 0 && r.stored == 0,
            r.sample_errors@.len() == 0,
    {
        let stack = crate::strutil::clone_string_vec(&roots);
        IndexRun {
            policy,
            roots,
            stack,
            opts,
            scanned_files: 0,
            scanned_dirs: 0,
            admitted: 0,
            ingested: 0,
            skipped: 0,
            errors: 0,
            stored: 0,
            sample_errors: Vec::new(),
        }
    }

    /// Whether new work may still be admitted.
    pub fn wants_more(&self) -> (r: bool)
        ensures
            r == !self.reached_max(),
    {
        match self.opts.max_files {
            Some(m) => self.admitted < m,
            None => true,
        }
    }

    /// Takes the next path to visit off the work stack.
    pub fn next_path(&mut self) -> (r: Option<String>)
        ensures
            match r {
                Some(p) => old(self).stack@.len() > 0 && p == old(self).stack@.last()
                    && final(self).stack@ == old(self).stack@.drop_last(),
                None => old(self).stack@.len() == 0 && final(self).stack@ == old(self).stack@,
            },
            final(self).policy == old(self).policy,
            final(self).roots == old(self).roots,
            final(self).opts == old(self).opts,
            final(self).scanned_files == old(self).scanned_files,
            final(self).scanned_dirs == old(self).scanned_dirs,
            final(self).admitted == old(self).admitted,
            final(self).ingested == old(self).ingested,
            final(self).skipped == old(self).skipped,
            final(self).errors == old(self).errors,
            final(self).stored == old(self).stored,
            final(self).sample_errors == old(self).sample_errors,
    {
        self.stack.pop()
    }

    /// Pushes a directory's children onto the work stack.
    pub fn descend(&mut self, children: Vec<String>)
        ensures
            final(self).stack@ == old(self).stack@ + children@,
            final(self).policy == old(self).policy,
            final(self).roots == old(self).roots,
            final(self).opts == old(self).opts,
            final(self).scanned_files == old(self).scanned_files,
            final(self).scanned_dirs == old(self).scanned_dirs,
            final(self).admitted == old(self).admitted,
            final(self).ingested == old(self).ingested,
            final(self).skipped == old(self).skipped,
            final(self).errors == old(self).errors,
            final(self).stored == old(self).stored,
            final(self).sample_errors == old(self).sample_errors,
    {
        let mut children = children;
        self.stack.append(&mut children);
    }

    /// Records that a directory could not be enumerated.
    pub fn dir_unreadable(&mut self, path: &str, err: &str)
        ensures
            final(self).skipped == inc64(old(self).skipped),
            err_sample_pushed(
                old(self).sample_errors@,
                final(self).sample_errors@,
                old(self).opts.max_sample_errors as int,
                "read_dir "@ + path@ + ": "@ + err@,
            ),
            final(self).policy == old(self).policy,
            final(self).roots == old(self).roots,
            final(self).stack == old(self).stack,
            final(self).opts == old(self).opts,
            final(self).scanned_files == old(self).scanned_files,
            final(self).scanned_dirs == old(self).scanned_dirs,
            final(self).admitted == old(self).admitted,
            final(self).ingested == old(self).ingested,
            final(self).errors == old(self).errors,
            final(self).stored == old(self).stored,
    {
        self.skipped = crate::filesystem::bump_u64(self.skipped);
        let mut msg = "read_dir ".to_owned();
        msg.append(path);
        msg.append(": ");
        msg.append(err);
        let max = self.opts.max_sample_errors;
        push_err(&mut self.sample_errors, max, msg);
    }

    /// Classifies one probed path and records its traversal effect. A
    /// candidate changes nothing further here: the caller admits it to the
    /// pipeline and later reports its outcome.
    pub fn report_entry(&mut self, path: &str, info: &EntryInfo) -> (r: Classification)
        ensures
            r == spec_classify(old(self).policy, path@, *info),
            final(self).policy == old(self).policy,
            final(self).roots == old(self).roots,
            final(self).stack == old(self).stack,
            final(self).opts == old(self).opts,
            final(self).ingested == old(self).ingested,
            final(self).errors == old(self).errors,
            final(self).stored == old(self).stored,
            final(self).admitted == if r is Candidate {
                inc64(old(self).admitted)
            } else {
                old(self).admitted
            },
            final(self).scanned_files == if r is ExtensionNotAllowed || r is TooLarge
                || r is Candidate {
                inc64(old(self).scanned_files)
            } else {
                old(self).scanned_files
            },
            final(self).scanned_dirs == if r is Directory {
                inc64(old(self).scanned_dirs)
            } else {
                old(self).scanned_dirs
            },
            final(self).skipped == if r is Directory || r is Candidate {
                old(self).skipped
            } else {
                inc64(old(self).skipped)
            },
            r is StatFailed ==> (*info matches EntryInfo::StatError(e) && err_sample_pushed(
                old(self).sample_errors@,
                final(self).sample_errors@,
                old(self).opts.max_sample_errors as int,
                "metadata "@ + path@ + ": "@ + e@,
            )),
            !(r is StatFailed) ==> final(self).sample_errors == old(self).sample_errors,
    {
        let class = classify_entry(&self.policy, path, info);
        match class {
            Classification::Excluded | Classification::SymlinkSkipped
                | Classification::NotRegular => {
                self.skipped = crate::filesystem::bump_u64(self.skipped);
            },
            Classification::StatFailed => {
                self.skipped = crate::filesystem::bump_u64(self.skipped);
                let mut msg = "metadata ".to_owned();
                msg.append(path);
                msg.append(": ");
                match info {
                    EntryInfo::StatError(e) => msg.append(e.as_str()),
                    EntryInfo::Meta { .. } => {},
                }
                let max = self.opts.max_sample_errors;
                push_err(&mut self.sample_errors, max, msg);
            },
            Classification::Directory => {
                self.scanned_dirs = crate::filesystem::bump_u64(self.scanned_dirs);
            },
            Classification::ExtensionNotAllowed | Classification::TooLarge => {
                self.scanned_files = crate::filesystem::bump_u64(self.scanned_files);
                self.skipped = crate::filesystem::bump_u64(self.skipped);
            },
            Classification::Candidate => {
                self.scanned_files = crate::filesystem::bump_u64(self.scanned_files);
                self.admitted = crate::filesystem::bump_u64(self.admitted);
            },
        }
        class
    }

    /// Records how one admitted file's pipeline ended: a success counts as
    /// ingested (and as stored when rows were persisted), any failure
    /// counts as an error and lands in the sample.
    pub fn record_file_result(&mut self, path: &str, outcome: &TaskOutcome)
        ensures
            final(self).ingested == rec_ingested(old(self).ingested, *outcome),
            final(self).stored == rec_stored(old(self).stored, *outcome),
            final(self).errors == rec_errors(old(self).errors, *outcome),
            final(self).policy == old(self).policy,
            final(self).roots == old(self).roots,
            final(self).stack == old(self).stack,
            final(self).opts == old(self).opts,
            final(self).scanned_files == old(self).scanned_files,
            final(self).scanned_dirs == old(self).scanned_dirs,
            final(self).admitted == old(self).admitted,
            final(self).skipped == old(self).skipped,
            match outcome {
                TaskOutcome::Done { .. } => final(self).sample_errors == old(self).sample_errors,
                TaskOutcome::Failed(e) => err_sample_pushed(
                    old(self).sample_errors@,
                    final(self).sample_errors@,
                    old(self).opts.max_sample_errors as int,
                    "ingest "@ + path@ + ": "@ + e@,
                ),
                TaskOutcome::JoinFailed(e) => err_sample_pushed(
                    old(self).sample_errors@,
                    final(self).sample_errors@,
                    old(self).opts.max_sample_errors as int,
                    "task join error: "@ + e@,
                ),
            },
    {
        match outcome {
            TaskOutcome::Done { stored } => {
                self.ingested = crate::filesystem::bump_u64(self.ingested);
                if *stored {
                    self.stored = crate::filesystem::bump_u64(self.stored);
                }
            },
            TaskOutcome::Failed(e) => {
                self.errors = crate::filesystem::bump_u64(self.errors);
                let mut msg = "ingest ".to_owned();
                msg.append(path);
                msg.append(": ");
                msg.append(e.as_str());
                let max = self.opts.max_sample_errors;
                push_err(&mut self.sample_errors, max, msg);
            },
            TaskOutcome::JoinFailed(e) => {
                self.errors = crate::filesystem::bump_u64(self.errors);
                let mut msg = "task join error: ".to_owned();
                msg.append(e.as_str());
                let max = self.opts.max_sample_errors;
                push_err(&mut self.sample_errors, max, msg);
            },
        }
    }

    /// Closes the run: the aggregated summary as the counters stand.
    pub fn finish(self) -> (r: IndexSummary)
        ensures
            r.roots == self.roots,
            r.scanned_files == self.scanned_files,
            r.scanned_dirs == self.scanned_dirs,
            r.ingested == self.ingested,
            r.skipped == self.skipped,
            r.errors == self.errors,
            r.stored == self.stored,
            r.sample_errors == self.sample_errors,
    {
        IndexSummary {
            roots: self.roots,
            scanned_files: self.scanned_files,
            scanned_dirs: self.scanned_dirs,
            ingested: self.ingested,
            skipped: self.skipped,
            errors: self.errors,
            stored: self.stored,
            sample_errors: self.sample_errors,
        }
    }
}

} // verus!
