use silo_core::config::{compile_filesystem_policy, FileSystemSourceConfig};
use silo_core::filesystem::{
    push_skipped, Classification, EntryInfo, EntryKind, ScanOptions, Scanner, SkippedEntry,
};
use silo_core::indexer::{push_err, IndexOptions, IndexRun, TaskOutcome};

fn policy() -> silo_core::config::CompiledFileSystemPolicy {
    let cfg = FileSystemSourceConfig {
        roots: vec!["/r".to_string()],
        exclude_globs: vec!["**/.git/**".to_string()],
        allow_extensions: vec!["txt".to_string()],
        max_file_size_bytes: 100,
        max_text_bytes: 100,
        follow_symlinks: false,
    };
    compile_filesystem_policy(&cfg).unwrap()
}

fn meta(kind: EntryKind, size: u64) -> EntryInfo {
    EntryInfo::Meta { kind, size_bytes: size, modified_epoch_secs: None, inode: None }
}

#[test]
fn scanner_classifies_in_policy_order() {
    let mut s = Scanner::new(vec!["/r".to_string()], policy(), ScanOptions::default());
    assert_eq!(s.next_path(), Some("/r".to_string()));
    assert_eq!(s.next_path(), None);

    assert_eq!(
        s.report("/r/.git/config", &meta(EntryKind::File, 5)),
        Classification::Excluded
    );
    assert_eq!(
        s.report("/r/broken", &EntryInfo::StatError("permission denied".to_string())),
        Classification::StatFailed
    );
    assert_eq!(
        s.report("/r/link.txt", &meta(EntryKind::Symlink, 5)),
        Classification::SymlinkSkipped
    );
    assert_eq!(s.report("/r/sub", &meta(EntryKind::Dir, 0)), Classification::Directory);
    assert_eq!(
        s.report("/r/fifo.txt", &meta(EntryKind::Other, 5)),
        Classification::NotRegular
    );
    assert_eq!(
        s.report("/r/img.jpg", &meta(EntryKind::File, 5)),
        Classification::ExtensionNotAllowed
    );
    assert_eq!(
        s.report("/r/big.txt", &meta(EntryKind::File, 101)),
        Classification::TooLarge
    );
    assert_eq!(
        s.report("/r/ok.txt", &meta(EntryKind::File, 100)),
        Classification::Candidate
    );

    let summary = s.finish();
    assert_eq!(summary.files_seen, 3);
    assert_eq!(summary.dirs_seen, 1);
    assert_eq!(summary.candidates, 1);
    assert_eq!(summary.skipped, 6);
    assert_eq!(summary.sample_candidates.len(), 1);
    assert_eq!(summary.sample_candidates[0].path, "/r/ok.txt");
    assert_eq!(summary.sample_skipped.len(), 6);
}

#[test]
fn scanner_skip_reasons_are_descriptive() {
    let mut s = Scanner::new(Vec::new(), policy(), ScanOptions::default());
    s.report("/r/.git/x", &meta(EntryKind::File, 1));
    s.report("/r/img.jpg", &meta(EntryKind::File, 1));
    s.report("/r/big.txt", &meta(EntryKind::File, 101));
    s.dir_unreadable("/r/locked".to_string(), "permission denied");
    let summary = s.finish();
    let reasons: Vec<(String, String)> = summary
        .sample_skipped
        .iter()
        .map(|e| (e.path.clone(), e.reason.clone()))
        .collect();
    assert!(reasons.contains(&("/r/.git/x".to_string(), "excluded by glob".to_string())));
    assert!(reasons.contains(&("/r/img.jpg".to_string(), "extension not allowlisted".to_string())));
    assert!(reasons.contains(&("/r/big.txt".to_string(), "file too large: 101 bytes".to_string())));
    assert!(reasons.contains(&(
        "/r/locked".to_string(),
        "read_dir error: permission denied".to_string()
    )));
}

#[test]
fn scanner_preview_is_sorted_by_path() {
    let mut s = Scanner::new(Vec::new(), policy(), ScanOptions::default());
    for p in ["/r/c.txt", "/r/a.txt", "/r/b.txt"] {
        assert_eq!(s.report(p, &meta(EntryKind::File, 1)), Classification::Candidate);
    }
    for p in ["/r/z.jpg", "/r/m.jpg"] {
        s.report(p, &meta(EntryKind::File, 1));
    }
    let summary = s.finish();
    let cand_paths: Vec<&str> =
        summary.sample_candidates.iter().map(|c| c.path.as_str()).collect();
    assert_eq!(cand_paths, vec!["/r/a.txt", "/r/b.txt", "/r/c.txt"]);
    let skip_paths: Vec<&str> = summary.sample_skipped.iter().map(|c| c.path.as_str()).collect();
    assert_eq!(skip_paths, vec!["/r/m.jpg", "/r/z.jpg"]);
}

#[test]
fn scanner_caps_sample_lists() {
    let opts = ScanOptions { max_sample_candidates: 2, max_sample_skipped: 1 };
    let mut s = Scanner::new(Vec::new(), policy(), opts);
    for p in ["/r/a.txt", "/r/b.txt", "/r/c.txt"] {
        s.report(p, &meta(EntryKind::File, 1));
    }
    for p in ["/r/a.jpg", "/r/b.jpg"] {
        s.report(p, &meta(EntryKind::File, 1));
    }
    let summary = s.finish();
    assert_eq!(summary.candidates, 3);
    assert_eq!(summary.sample_candidates.len(), 2);
    assert_eq!(summary.skipped, 2);
    assert_eq!(summary.sample_skipped.len(), 1);
}

#[test]
fn scenario_ten_files_any_order_counts_ten_ingested() {
    // Concurrency 2, ten independently-ingestible files, no errors:
    // whatever order the task results arrive in, the summary says ten
    // ingested and zero errors.
    let opts = IndexOptions { max_files: None, concurrency: 2, max_sample_errors: 20 };
    let orders: Vec<Vec<usize>> = vec![
        (0..10).collect(),
        (0..10).rev().collect(),
        vec![3, 1, 4, 0, 9, 2, 6, 5, 8, 7],
    ];
    for order in orders {
        let mut run = IndexRun::new(vec!["/r".to_string()], policy(), opts.clone());
        let paths: Vec<String> = (0..10).map(|i| format!("/r/f{i}.txt")).collect();
        for p in &paths {
            assert_eq!(
                run.report_entry(p, &meta(EntryKind::File, 1)),
                Classification::Candidate
            );
        }
        for i in order {
            run.record_file_result(&paths[i], &TaskOutcome::Done { stored: true });
        }
        let summary = run.finish();
        assert_eq!(summary.ingested, 10);
        assert_eq!(summary.errors, 0);
        assert_eq!(summary.stored, 10);
        assert_eq!(summary.scanned_files, 10);
        assert!(summary.sample_errors.is_empty());
    }
}

#[test]
fn index_run_counts_failures_without_aborting() {
    let mut run = IndexRun::new(Vec::new(), policy(), IndexOptions::default());
    run.record_file_result("/r/a.txt", &TaskOutcome::Done { stored: false });
    run.record_file_result("/r/b.txt", &TaskOutcome::Failed("decode failed".to_string()));
    run.record_file_result("/r/c.txt", &TaskOutcome::JoinFailed("cancelled".to_string()));
    let summary = run.finish();
    assert_eq!(summary.ingested, 1);
    assert_eq!(summary.stored, 0);
    assert_eq!(summary.errors, 2);
    assert_eq!(
        summary.sample_errors,
        vec![
            "ingest /r/b.txt: decode failed".to_string(),
            "task join error: cancelled".to_string(),
        ]
    );
}

#[test]
fn index_run_stops_admitting_at_max_files() {
    // `max_files` gates on accepted files, not on completed ones: after the
    // second candidate is accepted no new work is admitted, while the
    // already-admitted files still complete and count.
    let opts = IndexOptions { max_files: Some(2), concurrency: 2, max_sample_errors: 20 };
    let mut run = IndexRun::new(Vec::new(), policy(), opts);
    assert!(run.wants_more());
    assert_eq!(
        run.report_entry("/r/a.txt", &meta(EntryKind::File, 1)),
        Classification::Candidate
    );
    assert!(run.wants_more());
    assert_eq!(
        run.report_entry("/r/b.txt", &meta(EntryKind::File, 1)),
        Classification::Candidate
    );
    assert!(!run.wants_more());
    run.record_file_result("/r/a.txt", &TaskOutcome::Done { stored: true });
    run.record_file_result("/r/b.txt", &TaskOutcome::Done { stored: true });
    assert!(!run.wants_more());
    let summary = run.finish();
    assert_eq!(summary.ingested, 2);
    assert_eq!(summary.stored, 2);
}

#[test]
fn index_run_traversal_uses_stack_and_metadata_errors_sampled() {
    let mut run = IndexRun::new(vec!["/r".to_string()], policy(), IndexOptions::default());
    assert_eq!(run.next_path(), Some("/r".to_string()));
    assert_eq!(run.report_entry("/r", &meta(EntryKind::Dir, 0)), Classification::Directory);
    run.descend(vec!["/r/a.txt".to_string(), "/r/sub".to_string()]);
    assert_eq!(run.next_path(), Some("/r/sub".to_string()));
    assert_eq!(
        run.report_entry("/r/sub", &EntryInfo::StatError("io error".to_string())),
        Classification::StatFailed
    );
    run.dir_unreadable("/r/other", "denied");
    assert_eq!(run.next_path(), Some("/r/a.txt".to_string()));
    assert_eq!(run.next_path(), None);
    let summary = run.finish();
    assert_eq!(summary.scanned_dirs, 1);
    assert_eq!(summary.skipped, 2);
    assert_eq!(
        summary.sample_errors,
        vec![
            "metadata /r/sub: io error".to_string(),
            "read_dir /r/other: denied".to_string(),
        ]
    );
}

#[test]
fn push_helpers_respect_caps() {
    let mut skips: Vec<SkippedEntry> = Vec::new();
    push_skipped(&mut skips, 1, "/a".to_string(), "why".to_string());
    push_skipped(&mut skips, 1, "/b".to_string(), "why".to_string());
    assert_eq!(skips.len(), 1);
    assert_eq!(skips[0].path, "/a");
    assert_eq!(skips[0].reason, "why");

    let mut errs: Vec<String> = Vec::new();
    push_err(&mut errs, 2, "one".to_string());
    push_err(&mut errs, 2, "two".to_string());
    push_err(&mut errs, 2, "three".to_string());
    assert_eq!(errs, vec!["one".to_string(), "two".to_string()]);
}
