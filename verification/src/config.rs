//! Source configuration and the compiled filesystem policy.
//!
//! A policy is compiled once from declarative configuration (exclude glob
//! patterns, an extension allowlist, size caps, a symlink flag) and then
//! consulted by every scan and ingestion run, so previews and real runs can
//! never diverge in what they accept.

use vstd::prelude::*;
use crate::paths::path_extension;
use crate::paths::extension_of;
use crate::strutil::{ascii_lower, clone_string_vec, contains_seq, lower_chars};
use globset::{Glob, GlobSet, GlobSetBuilder};

verus! {

#[verifier::external_type_specification]
#[verifier::external_body]
pub struct ExGlobSet(GlobSet);

#[verifier::external_type_specification]
#[verifier::external_body]
pub struct ExGlobSetBuilder(GlobSetBuilder);

/// Whether `globset::Glob::new` accepts the pattern; its verdict depends on
/// the pattern text alone.
pub uninterp spec fn glob_pattern_ok(pat: Seq<char>) -> bool;

/// The patterns added to a `GlobSetBuilder` so far, in order.
pub uninterp spec fn builder_patterns(b: GlobSetBuilder) -> Seq<Seq<char>>;

/// The patterns a compiled `GlobSet` was built from, in order.
pub uninterp spec fn glob_set_patterns(gs: GlobSet) -> Seq<Seq<char>>;

/// Whether any of the patterns matches the path; `GlobSet::is_match` is a
/// function of the compiled patterns and the path alone. (Match semantics
/// for platform path separators follow the build's target family.)
pub uninterp spec fn glob_set_matches(pats: Seq<Seq<char>>, path: Seq<char>) -> bool;

/// Whether `GlobSetBuilder::build` succeeds on these patterns; its verdict
/// depends on the patterns alone.
pub uninterp spec fn glob_set_builds(pats: Seq<Seq<char>>) -> bool;

/// Relies on globset::GlobSet's derived Clone: a clone is the same compiled
/// set, so it holds the same patterns.
pub assume_specification[ <GlobSet as Clone>::clone ](gs: &GlobSet) -> (r: GlobSet)
    ensures
        glob_set_patterns(r) == glob_set_patterns(*gs),
;

/// Relies on globset::GlobSetBuilder::new: a fresh builder holds no patterns.
#[verifier::external_body]
fn glob_builder_new() -> (r: GlobSetBuilder)
    ensures
        builder_patterns(r) == Seq::<Seq<char>>::empty(),
{
    GlobSetBuilder::new()
}

/// Relies on globset::Glob::new, which parses the pattern and accepts or
/// rejects it on its syntax alone, and on globset::GlobSetBuilder::add,
/// which appends the parsed pattern to the builder. On rejection the error
/// text names the rejected pattern (the interpolation below).
#[verifier::external_body]
fn glob_builder_add(b: &mut GlobSetBuilder, pat: &str) -> (r: Result<(), String>)
    ensures
        r.is_ok() == glob_pattern_ok(pat@),
        r.is_ok() ==> builder_patterns(*final(b)) == builder_patterns(*old(b)).push(pat@),
        r.is_err() ==> builder_patterns(*final(b)) == builder_patterns(*old(b)),
        r matches Err(e) ==> contains_seq(e@, pat@),
{
    match Glob::new(pat) {
        Ok(g) => {
            b.add(g);
            Ok(())
        },
        Err(e) => Err(format!("Invalid exclude glob `{pat}`: {e}")),
    }
}

/// Relies on globset::GlobSetBuilder::build: whether it succeeds depends
/// on the added patterns alone, and on success the compiled set holds
/// exactly those patterns.
#[verifier::external_body]
fn glob_builder_build(b: &GlobSetBuilder) -> (r: Result<GlobSet, String>)
    ensures
        r.is_ok() == glob_set_builds(builder_patterns(*b)),
        r.is_ok() ==> glob_set_patterns(r.unwrap()) == builder_patterns(*b),
{
    b.build().map_err(|e| format!("Failed to build globset: {e}"))
}

/// Relies on globset::GlobSet::is_match: true iff some pattern in the set
/// matches the path; an empty set matches nothing.
#[verifier::external_body]
fn glob_set_is_match(gs: &GlobSet, path: &str) -> (r: bool)
    ensures
        r == glob_set_matches(glob_set_patterns(*gs), path@),
        glob_set_patterns(*gs).len() == 0 ==> !r,
{
    gs.is_match(path)
}

/// Configuration of the local filesystem source: which roots to index and
/// under which limits.
#[derive(Debug, Clone)]
pub struct FileSystemSourceConfig {
    /// Root directories to index.
    pub roots: Vec<String>,
    /// Glob patterns (matched against full paths) excluded from indexing.
    pub exclude_globs: Vec<String>,
    /// Only files with these extensions are ingested (case-insensitive,
    /// without the dot). Empty means the default allowlist.
    pub allow_extensions: Vec<String>,
    /// Largest file size considered, in bytes.
    pub max_file_size_bytes: u64,
    /// Cap on extracted text kept per file, in bytes.
    pub max_text_bytes: u64,
    /// Whether symlinks are followed during scans.
    pub follow_symlinks: bool,
}

/// One configured data source.
#[derive(Debug, Clone)]
pub enum SourceConfig {
    /// Local filesystem indexing.
    FileSystem(FileSystemSourceConfig),
}

/// Top-level configuration: a list of sources.
#[derive(Debug, Clone)]
pub struct SiloConfig {
    pub sources: Vec<SourceConfig>,
}

/// Default cap on file sizes considered for ingestion: 10 MiB.
pub fn default_max_file_size_bytes() -> (r: u64)
    ensures
        r == 10485760u64,
{
    10 * 1024 * 1024
}

/// Default cap on extracted text kept per file: 2 MiB.
pub fn default_max_text_bytes() -> (r: u64)
    ensures
        r == 2097152u64,
{
    2 * 1024 * 1024
}

/// The default exclusion patterns, in order.
pub open spec fn spec_default_exclude_globs() -> Seq<Seq<char>> {
    seq![
        "**/.git/**"@,
        "**/node_modules/**"@,
        "**/target/**"@,
        "**/.venv/**"@,
        "**/venv/**"@,
        "**/__pycache__/**"@,
        "**/.DS_Store"@,
        "**/.env"@,
        "**/.env.*"@,
        "**/*.key"@,
        "**/*.pem"@,
        "**/*id_rsa*"@,
        "**/.cache/**"@,
        "**/Library/**"@,
    ]
}

/// Default exclusions: version control, build and dependency trees, OS
/// cruft, likely secrets, and large hidden caches.
pub fn default_exclude_globs() -> (r: Vec<String>)
    ensures
        r.deep_view() == spec_default_exclude_globs(),
{
    let mut v: Vec<String> = Vec::new();
    v.push("**/.git/**".to_owned());
    v.push("**/node_modules/**".to_owned());
    v.push("**/target/**".to_owned());
    v.push("**/.venv/**".to_owned());
    v.push("**/venv/**".to_owned());
    v.push("**/__pycache__/**".to_owned());
    v.push("**/.DS_Store".to_owned());
    v.push("**/.env".to_owned());
    v.push("**/.env.*".to_owned());
    v.push("**/*.key".to_owned());
    v.push("**/*.pem".to_owned());
    v.push("**/*id_rsa*".to_owned());
    v.push("**/.cache/**".to_owned());
    v.push("**/Library/**".to_owned());
    proof {
        assert(v.deep_view() =~= spec_default_exclude_globs());
    }
    v
}

/// The default extension allowlist, in order.
pub open spec fn spec_default_allow_extensions() -> Seq<Seq<char>> {
    seq![
        "txt"@,
        "md"@,
        "rst"@,
        "rs"@,
        "toml"@,
        "json"@,
        "yaml"@,
        "yml"@,
        "py"@,
        "js"@,
        "ts"@,
        "tsx"@,
        "jsx"@,
        "java"@,
        "kt"@,
        "go"@,
        "rb"@,
        "php"@,
        "html"@,
        "css"@,
        "scss"@,
        "sql"@,
        "pdf"@,
    ]
}

/// Default allowlist of common text-like extensions.
pub fn default_allow_extensions() -> (r: Vec<String>)
    ensures
        r.deep_view() == spec_default_allow_extensions(),
{
    let mut v: Vec<String> = Vec::new();
    v.push("txt".to_owned());
    v.push("md".to_owned());
    v.push("rst".to_owned());
    v.push("rs".to_owned());
    v.push("toml".to_owned());
    v.push("json".to_owned());
    v.push("yaml".to_owned());
    v.push("yml".to_owned());
    v.push("py".to_owned());
    v.push("js".to_owned());
    v.push("ts".to_owned());
    v.push("tsx".to_owned());
    v.push("jsx".to_owned());
    v.push("java".to_owned());
    v.push("kt".to_owned());
    v.push("go".to_owned());
    v.push("rb".to_owned());
    v.push("php".to_owned());
    v.push("html".to_owned());
    v.push("css".to_owned());
    v.push("scss".to_owned());
    v.push("sql".to_owned());
    v.push("pdf".to_owned());
    proof {
        assert(v.deep_view() =~= spec_default_allow_extensions());
    }
    v
}

impl FileSystemSourceConfig {
    /// A configuration with the default exclusions, allowlist and caps over
    /// the given roots.
    pub fn with_roots(roots: Vec<String>) -> (r: Self)
        ensures
            r.roots == roots,
            r.exclude_globs.deep_view() == spec_default_exclude_globs(),
            r.allow_extensions.deep_view() == spec_default_allow_extensions(),
            r.max_file_size_bytes == 10485760u64,
            r.max_text_bytes == 2097152u64,
            !r.follow_symlinks,
    {
        FileSystemSourceConfig {
            roots,
            exclude_globs: default_exclude_globs(),
            allow_extensions: default_allow_extensions(),
            max_file_size_bytes: default_max_file_size_bytes(),
            max_text_bytes: default_max_text_bytes(),
            follow_symlinks: false,
        }
    }
}

impl Default for FileSystemSourceConfig {
    /// The default configuration indexes no roots until the caller supplies
    /// some; everything else takes its default.
    fn default() -> (r: Self)
        ensures
            r.roots@.len() == 0,
            r.exclude_globs.deep_view() == spec_default_exclude_globs(),
            r.allow_extensions.deep_view() == spec_default_allow_extensions(),
            r.max_file_size_bytes == 10485760u64,
            r.max_text_bytes == 2097152u64,
            !r.follow_symlinks,
    {
        FileSystemSourceConfig::with_roots(Vec::new())
    }
}

impl Default for SiloConfig {
    /// One filesystem source with the default settings.
    fn default() -> (r: Self)
        ensures
            r.sources@.len() == 1,
            r.sources@[0] matches SourceConfig::FileSystem(fs) && fs.roots@.len() == 0
                && fs.exclude_globs.deep_view() == spec_default_exclude_globs()
                && fs.allow_extensions.deep_view() == spec_default_allow_extensions(),
    {
        let mut sources: Vec<SourceConfig> = Vec::new();
        sources.push(SourceConfig::FileSystem(FileSystemSourceConfig::with_roots(Vec::new())));
        SiloConfig { sources }
    }
}

/// The first filesystem source among the configured sources, if any.
pub open spec fn first_filesystem_source(sources: Seq<SourceConfig>) -> Option<
    FileSystemSourceConfig,
>
    decreases sources.len(),
{
    if sources.len() == 0 {
        None
    } else {
        match sources.first() {
            SourceConfig::FileSystem(fs) => Some(fs),
        }
    }
}

/// Returns the first filesystem source of the configuration.
pub fn filesystem_source(cfg: &SiloConfig) -> (r: Option<&FileSystemSourceConfig>)
    ensures
        match r {
            Some(fs) => first_filesystem_source(cfg.sources@) == Some(*fs),
            None => first_filesystem_source(cfg.sources@) is None,
        },
{
    if cfg.sources.len() == 0 {
        return None;
    }
    match &cfg.sources[0] {
        SourceConfig::FileSystem(fs) => Some(fs),
    }
}

/// Returns an owned copy of the first filesystem source.
pub fn filesystem_source_owned(cfg: &SiloConfig) -> (r: Option<FileSystemSourceConfig>)
    ensures
        match (r, first_filesystem_source(cfg.sources@)) {
            (Some(a), Some(b)) => a.roots@ == b.roots@ && a.exclude_globs@ == b.exclude_globs@
                && a.allow_extensions@ == b.allow_extensions@ && a.max_file_size_bytes
                == b.max_file_size_bytes && a.max_text_bytes == b.max_text_bytes
                && a.follow_symlinks == b.follow_symlinks,
            (None, None) => true,
            _ => false,
        },
{
    match filesystem_source(cfg) {
        Some(fs) => Some(
            FileSystemSourceConfig {
                roots: clone_string_vec(&fs.roots),
                exclude_globs: clone_string_vec(&fs.exclude_globs),
                allow_extensions: clone_string_vec(&fs.allow_extensions),
                max_file_size_bytes: fs.max_file_size_bytes,
                max_text_bytes: fs.max_text_bytes,
                follow_symlinks: fs.follow_symlinks,
            },
        ),
        None => None,
    }
}

/// Strips every leading `'.'` from an extension entry.
pub open spec fn trim_leading_dots(e: Seq<char>) -> Seq<char>
    decreases e.len(),
{
    if e.len() > 0 && e[0] == '.' {
        trim_leading_dots(e.skip(1))
    } else {
        e
    }
}

/// The normalized form of one allowlist entry.
pub open spec fn normalize_ext(e: Seq<char>) -> Seq<char> {
    lower_chars(trim_leading_dots(e))
}

/// Normalizes an explicit allowlist: each entry loses its leading dots and
/// is lower-cased; entries that end up empty are dropped.
pub open spec fn normalized_exts(exts: Seq<Seq<char>>) -> Seq<Seq<char>>
    decreases exts.len(),
{
    if exts.len() == 0 {
        Seq::empty()
    } else {
        let init = normalized_exts(exts.drop_last());
        let h = normalize_ext(exts.last());
        if h.len() == 0 {
            init
        } else {
            init.push(h)
        }
    }
}

/// The allowlist a policy compiled from `exts` ends up with.
pub open spec fn effective_allow_extensions(exts: Seq<Seq<char>>) -> Seq<Seq<char>> {
    if exts.len() == 0 {
        spec_default_allow_extensions()
    } else {
        normalized_exts(exts)
    }
}

fn trim_dots_exec(e: &str) -> (r: String)
    ensures
        r@ == trim_leading_dots(e@),
{
    let n = e.unicode_len();
    let mut k: usize = 0;
    proof {
        assert(e@.skip(0) =~= e@);
    }
    while k < n && e.get_char(k) == '.'
        invariant
            n == e@.len(),
            k <= n,
            trim_leading_dots(e@) == trim_leading_dots(e@.skip(k as int)),
            forall |j: int| 0 <= j < k ==> e@[j] == '.',
        decreases n - k,
    {
        proof {
            assert(e@.skip(k as int)[0] == e@[k as int]);
            assert(e@.skip(k as int).skip(1) =~= e@.skip(k + 1));
        }
        k = k + 1;
    }
    proof {
        if k < n {
            assert(e@.skip(k as int)[0] == e@[k as int]);
        }
        assert(trim_leading_dots(e@.skip(k as int)) == e@.skip(k as int));
        assert(e@.subrange(k as int, n as int) =~= e@.skip(k as int));
    }
    e.substring_char(k, n).to_owned()
}

/// A compiled, immutable filesystem policy: the exclusion matcher, the
/// normalized allowlist, the size caps and the symlink flag.
#[derive(Clone)]
pub struct CompiledFileSystemPolicy {
    pub exclude: GlobSet,
    pub allow_extensions: Vec<String>,
    pub max_file_size_bytes: u64,
    pub max_text_bytes: u64,
    pub follow_symlinks: bool,
}

/// Compiles declarative filesystem configuration into a policy.
///
/// Succeeds exactly when every exclude pattern is a syntactically valid
/// glob and the matcher builds from them (which depends on the patterns
/// alone); on success the compiled exclusion set holds exactly the
/// configured patterns and the allowlist is the normalized configured
/// list, or the default list when none was given.
pub fn compile_filesystem_policy(cfg: &FileSystemSourceConfig) -> (r: Result<
    CompiledFileSystemPolicy,
    String,
>)
    ensures
        r.is_ok() <==> ({
            let pats = cfg.exclude_globs.deep_view();
            &&& forall |i: int| 0 <= i < pats.len() ==> glob_pattern_ok(#[trigger] pats[i])
            &&& glob_set_builds(pats)
        }),
        r matches Err(e) ==> ({
            let pats = cfg.exclude_globs.deep_view();
            ||| exists |i: int|
                0 <= i < pats.len() && !glob_pattern_ok(#[trigger] pats[i]) && contains_seq(
                    e@,
                    pats[i],
                )
            ||| !glob_set_builds(pats)
        }),
        r matches Ok(p) ==> {
            &&& glob_set_patterns(p.exclude) == cfg.exclude_globs.deep_view()
            &&& forall |i: int|
                0 <= i < cfg.exclude_globs.deep_view().len() ==> glob_pattern_ok(
                    #[trigger] cfg.exclude_globs.deep_view()[i],
                )
            &&& p.allow_extensions.deep_view() == effective_allow_extensions(
                cfg.allow_extensions.deep_view(),
            )
            &&& p.max_file_size_bytes == cfg.max_file_size_bytes
            &&& p.max_text_bytes == cfg.max_text_bytes
            &&& p.follow_symlinks == cfg.follow_symlinks
        },
{
    let ghost pats = cfg.exclude_globs.deep_view();
    let mut builder = glob_builder_new();
    let mut i: usize = 0;
    proof {
        assert(builder_patterns(builder) =~= pats.take(0));
    }
    while i < cfg.exclude_globs.len()
        invariant
            pats == cfg.exclude_globs.deep_view(),
            i <= cfg.exclude_globs@.len(),
            builder_patterns(builder) == pats.take(i as int),
            forall |j: int| 0 <= j < i ==> glob_pattern_ok(#[trigger] pats[j]),
        decreases cfg.exclude_globs@.len() - i,
    {
        match glob_builder_add(&mut builder, cfg.exclude_globs[i].as_str()) {
            Ok(()) => {
                proof {
                    assert(pats.take(i + 1) =~= pats.take(i as int).push(pats[i as int]));
                }
            },
            Err(e) => {
                proof {
                    assert(!glob_pattern_ok(pats[i as int]));
                }
                return Err(e);
            },
        }
        i = i + 1;
    }
    proof {
        assert(pats.take(pats.len() as int) =~= pats);
    }
    let exclude = match glob_builder_build(&builder) {
        Ok(g) => g,
        Err(e) => {
            return Err(e);
        },
    };

    let ghost given = cfg.allow_extensions.deep_view();
    let allow_extensions: Vec<String> = if cfg.allow_extensions.len() == 0 {
        default_allow_extensions()
    } else {
        let mut out: Vec<String> = Vec::new();
        let mut k: usize = 0;
        proof {
            assert(out.deep_view() =~= normalized_exts(given.take(0)));
        }
        while k < cfg.allow_extensions.len()
            invariant
                given == cfg.allow_extensions.deep_view(),
                k <= cfg.allow_extensions@.len(),
                out.deep_view() == normalized_exts(given.take(k as int)),
            decreases cfg.allow_extensions@.len() - k,
        {
            let trimmed = trim_dots_exec(cfg.allow_extensions[k].as_str());
            let lowered = ascii_lower(trimmed.as_str());
            proof {
                assert(lowered@ == normalize_ext(given[k as int]));
                assert(given.take(k + 1).drop_last() =~= given.take(k as int));
                assert(given.take(k + 1).last() == given[k as int]);
            }
            if lowered.unicode_len() > 0 {
                let ghost old_out = out.deep_view();
                out.push(lowered);
                proof {
                    assert(out.deep_view() =~= old_out.push(normalize_ext(given[k as int])));
                }
            }
            k = k + 1;
        }
        proof {
            assert(given.take(given.len() as int) =~= given);
        }
        out
    };

    Ok(CompiledFileSystemPolicy {
        exclude,
        allow_extensions,
        max_file_size_bytes: cfg.max_file_size_bytes,
        max_text_bytes: cfg.max_text_bytes,
        follow_symlinks: cfg.follow_symlinks,
    })
}

/// Whether the path carries an extension whose lower-cased form appears in
/// the allowlist; a path without an extension is never allowed.
pub open spec fn spec_extension_allowed(exts: Seq<Seq<char>>, path: Seq<char>) -> bool {
    match path_extension(path) {
        Some(e) => exts.contains(lower_chars(e)),
        None => false,
    }
}

impl CompiledFileSystemPolicy {
    /// Whether any configured exclusion pattern matches the path; with no
    /// patterns configured, nothing is excluded.
    pub fn matches_exclude(&self, path: &str) -> (r: bool)
        ensures
            r == glob_set_matches(glob_set_patterns(self.exclude), path@),
            glob_set_patterns(self.exclude).len() == 0 ==> !r,
    {
        glob_set_is_match(&self.exclude, path)
    }

    /// Whether the path's extension is on the allowlist (case-insensitive;
    /// paths without an extension are rejected).
    pub fn extension_allowed(&self, path: &str) -> (r: bool)
        ensures
            r == spec_extension_allowed(self.allow_extensions.deep_view(), path@),
    {
        let ext = match extension_of(path) {
            Some(e) => e,
            None => {
                return false;
            },
        };
        let lowered = ascii_lower(ext.as_str());
        let ghost exts = self.allow_extensions.deep_view();
        let mut i: usize = 0;
        while i < self.allow_extensions.len()
            invariant
                exts == self.allow_extensions.deep_view(),
                i <= self.allow_extensions@.len(),
                path_extension(path@) matches Some(e) && lower_chars(e) == lowered@,
                forall |j: int| 0 <= j < i ==> exts[j] != lowered@,
            decreases self.allow_extensions@.len() - i,
        {
            if lowered.eq(&self.allow_extensions[i]) {
                proof {
                    assert(exts[i as int] == lowered@);
                    assert(exts.contains(lowered@));
                }
                return true;
            }
            i = i + 1;
        }
        proof {
            if exts.contains(lowered@) {
                let j = choose |j: int| 0 <= j < exts.len() && exts[j] == lowered@;
                assert(exts[j] != lowered@);
            }
        }
        false
    }
}

/// Replaces the roots of the first filesystem source, or appends a fresh
/// filesystem source carrying the given roots when none is configured.
pub fn set_index_roots(cfg: &mut SiloConfig, roots: Vec<String>)
    ensures
        ({
            let ss = old(cfg).sources@;
            let ss2 = final(cfg).sources@;
            if first_filesystem_source(ss) is Some {
                &&& ss2.len() == ss.len()
                &&& forall |j: int| 1 <= j < ss.len() ==> ss2[j] == ss[j]
                &&& ss[0] matches SourceConfig::FileSystem(fs0) && ss2[0]
                    matches SourceConfig::FileSystem(fs2) && fs2.roots == roots
                    && fs2.exclude_globs@ == fs0.exclude_globs@ && fs2.allow_extensions@
                    == fs0.allow_extensions@ && fs2.max_file_size_bytes == fs0.max_file_size_bytes
                    && fs2.max_text_bytes == fs0.max_text_bytes && fs2.follow_symlinks
                    == fs0.follow_symlinks
            } else {
                &&& ss2.len() == ss.len() + 1
                &&& forall |j: int| 0 <= j < ss.len() ==> ss2[j] == ss[j]
                &&& ss2.last() matches SourceConfig::FileSystem(fs) && fs.roots == roots
                    && fs.exclude_globs.deep_view() == spec_default_exclude_globs()
                    && fs.allow_extensions.deep_view() == spec_default_allow_extensions()
            }
        }),
{
    if cfg.sources.len() > 0 {
        let updated = match &cfg.sources[0] {
            SourceConfig::FileSystem(fs) => SourceConfig::FileSystem(
                FileSystemSourceConfig {
                    roots,
                    exclude_globs: clone_string_vec(&fs.exclude_globs),
                    allow_extensions: clone_string_vec(&fs.allow_extensions),
                    max_file_size_bytes: fs.max_file_size_bytes,
                    max_text_bytes: fs.max_text_bytes,
                    follow_symlinks: fs.follow_symlinks,
                },
            ),
        };
        cfg.sources.set(0, updated);
        return;
    }
    cfg.sources.push(SourceConfig::FileSystem(FileSystemSourceConfig::with_roots(roots)));
}

/// What a probe of one configured root found.
#[derive(Debug, Clone)]
pub enum RootStatus {
    /// The root exists and is a directory.
    Directory,
    /// The root exists but is not a directory.
    NotDirectory,
    /// The root could not be accessed; the payload is the error text.
    Inaccessible(String),
}

/// Whether a configuration with the given per-root probe results passes
/// validation.
pub open spec fn spec_config_valid(sources: Seq<SourceConfig>, probes: Seq<RootStatus>) -> bool {
    match first_filesystem_source(sources) {
        Some(fs) => {
            &&& fs.roots@.len() > 0
            &&& forall |i: int| 0 <= i < probes.len() ==> #[trigger] probes[i] is Directory
            &&& fs.max_file_size_bytes > 0
            &&& fs.max_text_bytes > 0
        },
        None => false,
    }
}

/// Validates the configured filesystem source: its roots must exist, be
/// directories and be non-empty as a list, and both size caps must be
/// positive. Returns one human-readable issue per failed check; an empty
/// result means the configuration is valid.
///
/// `probes` holds the caller's probe result for each configured root, in
/// order.
pub fn validate_index_config(cfg: &SiloConfig, probes: &Vec<RootStatus>) -> (issues: Vec<String>)
    requires
        first_filesystem_source(cfg.sources@) matches Some(fs) ==> probes@.len()
            == fs.roots@.len(),
    ensures
        issues@.len() == 0 <==> spec_config_valid(cfg.sources@, probes@),
{
    let mut issues: Vec<String> = Vec::new();
    let fs = match filesystem_source(cfg) {
        Some(fs) => fs,
        None => {
            issues.push("No filesystem source configured".to_owned());
            return issues;
        },
    };
    if fs.roots.len() == 0 {
        issues.push("filesystem.roots is empty".to_owned());
    }
    let mut i: usize = 0;
    while i < probes.len()
        invariant
            probes@.len() == fs.roots@.len(),
            i <= probes@.len(),
            issues@.len() == 0 <==> fs.roots@.len() > 0 && forall |j: int|
                0 <= j < i ==> #[trigger] probes@[j] is Directory,
        decreases probes@.len() - i,
    {
        match &probes[i] {
            RootStatus::Directory => {},
            RootStatus::NotDirectory => {
                let mut msg = "root is not a directory: ".to_owned();
                msg.append(fs.roots[i].as_str());
                issues.push(msg);
            },
            RootStatus::Inaccessible(e) => {
                let mut msg = "cannot access root ".to_owned();
                msg.append(fs.roots[i].as_str());
                msg.append(": ");
                msg.append(e.as_str());
                issues.push(msg);
            },
        }
        i = i + 1;
    }
    if fs.max_file_size_bytes == 0 {
        issues.push("max_file_size_bytes must be > 0".to_owned());
    }
    if fs.max_text_bytes == 0 {
        issues.push("max_text_bytes must be > 0".to_owned());
    }
    issues
}

} // verus!
