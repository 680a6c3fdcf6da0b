use silo_core::config::{
    compile_filesystem_policy, default_allow_extensions, default_exclude_globs,
    default_max_file_size_bytes, default_max_text_bytes, filesystem_source,
    filesystem_source_owned, set_index_roots, validate_index_config, FileSystemSourceConfig,
    RootStatus, SiloConfig, SourceConfig,
};
use silo_core::paths::{extension_of, validate_safe_path};

fn sample_config(allow: Vec<&str>) -> FileSystemSourceConfig {
    FileSystemSourceConfig {
        roots: vec!["/tmp/root".to_string()],
        exclude_globs: vec!["**/.git/**".to_string(), "**/*.pem".to_string()],
        allow_extensions: allow.into_iter().map(|s| s.to_string()).collect(),
        max_file_size_bytes: 1024,
        max_text_bytes: 2048,
        follow_symlinks: false,
    }
}

#[test]
fn compile_accepts_valid_globs_and_matches() {
    let pol = compile_filesystem_policy(&sample_config(vec!["txt"])).unwrap();
    assert!(pol.matches_exclude("/home/u/.git/config"));
    assert!(pol.matches_exclude("/home/u/key.pem"));
    assert!(!pol.matches_exclude("/home/u/notes.txt"));
}

#[test]
fn empty_exclusion_list_excludes_nothing() {
    let mut cfg = sample_config(vec!["txt"]);
    cfg.exclude_globs = Vec::new();
    let pol = compile_filesystem_policy(&cfg).unwrap();
    assert!(!pol.matches_exclude("/home/u/.git/config"));
    assert!(!pol.matches_exclude("anything at all"));
}

#[test]
fn compile_rejects_invalid_glob() {
    let mut cfg = sample_config(vec!["txt"]);
    cfg.exclude_globs.push("a{b".to_string());
    let err = match compile_filesystem_policy(&cfg) {
        Ok(_) => panic!("invalid glob was accepted"),
        Err(e) => e,
    };
    assert!(err.contains("a{b"));
}

#[test]
fn compile_normalizes_allowlist() {
    let pol = compile_filesystem_policy(&sample_config(vec![".TXT", "Md", "", "."])).unwrap();
    assert_eq!(pol.allow_extensions, vec!["txt".to_string(), "md".to_string()]);
}

#[test]
fn compile_empty_allowlist_takes_defaults() {
    let pol = compile_filesystem_policy(&sample_config(vec![])).unwrap();
    assert_eq!(pol.allow_extensions, default_allow_extensions());
    assert_eq!(pol.max_file_size_bytes, 1024);
    assert_eq!(pol.max_text_bytes, 2048);
    assert!(!pol.follow_symlinks);
}

#[test]
fn extension_allowed_is_case_insensitive_and_needs_extension() {
    let pol = compile_filesystem_policy(&sample_config(vec!["txt", "md"])).unwrap();
    assert!(pol.extension_allowed("/a/b/notes.txt"));
    assert!(pol.extension_allowed("/a/b/NOTES.TXT"));
    assert!(pol.extension_allowed("readme.md"));
    assert!(!pol.extension_allowed("/a/b/photo.jpg"));
    assert!(!pol.extension_allowed("/a/b/Makefile"));
    assert!(!pol.extension_allowed("/a/b/.gitignore"));
}

#[test]
fn defaults_are_the_documented_values() {
    assert_eq!(default_max_file_size_bytes(), 10 * 1024 * 1024);
    assert_eq!(default_max_text_bytes(), 2 * 1024 * 1024);
    let ex = default_exclude_globs();
    assert_eq!(ex.len(), 14);
    assert_eq!(ex[0], "**/.git/**");
    let al = default_allow_extensions();
    assert_eq!(al.len(), 23);
    assert_eq!(al[0], "txt");
    assert_eq!(al[22], "pdf");
}

#[test]
fn default_config_has_one_filesystem_source_with_defaults() {
    let cfg = SiloConfig::default();
    assert_eq!(cfg.sources.len(), 1);
    let SourceConfig::FileSystem(fs) = &cfg.sources[0];
    assert!(fs.roots.is_empty());
    assert_eq!(fs.exclude_globs, default_exclude_globs());
    assert_eq!(fs.allow_extensions, default_allow_extensions());
    assert_eq!(fs.max_file_size_bytes, default_max_file_size_bytes());
    assert_eq!(fs.max_text_bytes, default_max_text_bytes());
    assert!(!fs.follow_symlinks);
}

#[test]
fn filesystem_source_finds_first_source() {
    let cfg = SiloConfig::default();
    assert!(filesystem_source(&cfg).is_some());
    assert!(filesystem_source_owned(&cfg).is_some());
    let empty = SiloConfig { sources: Vec::new() };
    assert!(filesystem_source(&empty).is_none());
    assert!(filesystem_source_owned(&empty).is_none());
}

#[test]
fn set_index_roots_updates_existing_source() {
    let mut cfg = SiloConfig::default();
    set_index_roots(&mut cfg, vec!["/data/a".to_string(), "/data/b".to_string()]);
    let fs = filesystem_source(&cfg).unwrap();
    assert_eq!(fs.roots, vec!["/data/a".to_string(), "/data/b".to_string()]);
    assert_eq!(fs.exclude_globs, default_exclude_globs());
}

#[test]
fn set_index_roots_adds_source_when_missing() {
    let mut cfg = SiloConfig { sources: Vec::new() };
    set_index_roots(&mut cfg, vec!["/data".to_string()]);
    assert_eq!(cfg.sources.len(), 1);
    let SourceConfig::FileSystem(fs) = &cfg.sources[0];
    assert_eq!(fs.roots, vec!["/data".to_string()]);
}

#[test]
fn validate_reports_each_issue() {
    let cfg = SiloConfig { sources: Vec::new() };
    let issues = validate_index_config(&cfg, &Vec::new());
    assert_eq!(issues, vec!["No filesystem source configured".to_string()]);

    let mut cfg2 = SiloConfig::default();
    set_index_roots(&mut cfg2, vec!["/a".to_string(), "/b".to_string()]);
    let probes = vec![
        RootStatus::Directory,
        RootStatus::Inaccessible("denied".to_string()),
    ];
    let issues2 = validate_index_config(&cfg2, &probes);
    assert_eq!(issues2, vec!["cannot access root /b: denied".to_string()]);

    let probes_ok = vec![RootStatus::Directory, RootStatus::Directory];
    assert!(validate_index_config(&cfg2, &probes_ok).is_empty());

    let probes3 = vec![RootStatus::Directory, RootStatus::NotDirectory];
    let issues3 = validate_index_config(&cfg2, &probes3);
    assert_eq!(issues3, vec!["root is not a directory: /b".to_string()]);
}

#[test]
fn validate_rejects_empty_roots_and_zero_caps() {
    let fs = FileSystemSourceConfig {
        roots: Vec::new(),
        exclude_globs: Vec::new(),
        allow_extensions: Vec::new(),
        max_file_size_bytes: 0,
        max_text_bytes: 0,
        follow_symlinks: false,
    };
    let cfg = SiloConfig { sources: vec![SourceConfig::FileSystem(fs)] };
    let issues = validate_index_config(&cfg, &Vec::new());
    assert_eq!(
        issues,
        vec![
            "filesystem.roots is empty".to_string(),
            "max_file_size_bytes must be > 0".to_string(),
            "max_text_bytes must be > 0".to_string(),
        ]
    );
}

#[test]
fn safe_path_rejects_empty_and_parent_components() {
    assert!(validate_safe_path("/home/user/file.txt").is_ok());
    assert!(validate_safe_path("relative/path").is_ok());
    assert!(validate_safe_path("dots...in.name").is_ok());
    assert!(validate_safe_path("..hidden/x").is_ok());
    assert!(validate_safe_path("").is_err());
    assert!(validate_safe_path("..").is_err());
    assert!(validate_safe_path("a/../b").is_err());
    assert!(validate_safe_path("a/b/..").is_err());
    assert!(validate_safe_path("../up").is_err());
}

#[test]
fn extension_of_follows_file_name_rules() {
    assert_eq!(extension_of("/a/b/file.txt"), Some("txt".to_string()));
    assert_eq!(extension_of("archive.tar.gz"), Some("gz".to_string()));
    assert_eq!(extension_of("/a/.env.local"), Some("local".to_string()));
    assert_eq!(extension_of("trailing."), Some(String::new()));
    assert_eq!(extension_of("/a/b/Makefile"), None);
    assert_eq!(extension_of("/a/b/.gitignore"), None);
    assert_eq!(extension_of(""), None);
}
