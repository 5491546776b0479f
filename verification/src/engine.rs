//! The sweep engine: the pure cleanup policy, per-root accounting over a
//! walked tree, and the orchestrator that sweeps every configured root while
//! security gates guard each one.

use vstd::prelude::*;

use crate::config::ClearModelConfig;
use crate::errors::ClearModelError;
use crate::path_model::{FsPath, PathView, extension_of, path_text, views_of};
use crate::security::{SecurityManager, cache_path_allowed, deletion_safe};
use crate::stats::{OperationStats, StatsStore};
use crate::text::str_eq;
use crate::walker::{FileEntry, FileMeta, FsNode, collect_files, entry_views, sat_add64, walk_node, with_root};

verus! {

/// The declared shape of the outside system-information handle.
#[verifier::external_type_specification]
#[verifier::external_body]
pub struct ExSystem(sysinfo::System);

/// Relies on sysinfo::System::new_all: a snapshot of the host; nothing is
/// promised of its readings.
pub assume_specification[ sysinfo::System::new_all ]() -> (r: sysinfo::System);

/// Relies on sysinfo::System::refresh_all: the readings are brought up to
/// date; nothing is promised of their values.
pub assume_specification[ sysinfo::System::refresh_all ](s: &mut sysinfo::System);

/// Relies on sysinfo::System::total_memory: the host's memory size in bytes;
/// machine-dependent, so nothing is promised.
pub assume_specification[ sysinfo::System::total_memory ](s: &sysinfo::System) -> (r: u64);

/// Relies on sysinfo::System::used_memory: the memory in use in bytes;
/// machine-dependent, so nothing is promised.
pub assume_specification[ sysinfo::System::used_memory ](s: &sysinfo::System) -> (r: u64);

/// More than nine tenths of memory is in use.
pub open spec fn memory_high_spec(used: u64, total: u64) -> bool {
    total > 0 && used * 100 > total * 90
}

/// The high-water-mark decision on two memory readings.
pub fn memory_usage_high(used: u64, total: u64) -> (r: bool)
    ensures
        r == memory_high_spec(used, total),
{
    total > 0 && (used as u128) * 100 > (total as u128) * 90
}

/// Result of sweeping one root.
#[derive(Debug, Clone, PartialEq)]
pub struct CleanupResult {
    /// The root that was swept.
    pub path: FsPath,
    /// How many files were removed (or would be, in a dry run).
    pub files_removed: u64,
    /// The bytes those files held.
    pub bytes_freed: u64,
    /// Errors recorded for this root, in order of occurrence.
    pub errors: Vec<String>,
    /// Wall-clock duration in milliseconds; the engine itself computes none
    /// and reports zero, callers may measure around it.
    pub duration_ms: u64,
}

/// Does the file's extension, with its dot, stand in the configured list?
pub open spec fn ext_matches(name: Seq<char>, exts: Seq<Seq<char>>) -> bool {
    match extension_of(name) {
        Some(e) => exts.contains(seq!['.'] + e),
        None => false,
    }
}

/// Does the file sit directly inside a bytecode-cache directory?
pub open spec fn in_pycache(comps: Seq<Seq<char>>) -> bool {
    comps.len() >= 2 && comps[comps.len() - 2] == "__pycache__"@
}

/// Is the file older than the configured maximum age?  A clock that reports
/// a future modification time counts as age zero, and a file without a
/// modification time never expires.
pub open spec fn expired(meta: FileMeta, max_age_days: u32, now: u64) -> bool {
    match meta.modified {
        Some(m) => (if now >= m {
            now - m
        } else {
            0
        }) > max_age_days * 86400,
        None => false,
    }
}

/// The cleanup policy: extension rule, then parent-directory rule, then age
/// rule; otherwise the file is retained.
pub open spec fn should_clean_spec(
    comps: Seq<Seq<char>>,
    meta: FileMeta,
    exts: Seq<Seq<char>>,
    max_age_days: u32,
    now: u64,
) -> bool {
    comps.len() > 0 && (ext_matches(comps.last(), exts) || in_pycache(comps) || expired(
        meta,
        max_age_days,
        now,
    ))
}

/// An entry the sweep removes: policy says clean, and the file is reachable.
pub open spec fn entry_removed(
    e: (PathView, FileMeta),
    exts: Seq<Seq<char>>,
    max_age_days: u32,
    now: u64,
) -> bool {
    e.1.accessible && should_clean_spec(e.0.comps, e.1, exts, max_age_days, now)
}

/// An entry the sweep records as an error: its metadata cannot be read.
pub open spec fn entry_error(e: (PathView, FileMeta)) -> bool {
    !e.1.accessible
}

/// How many entries the sweep removes.
pub open spec fn removed_count(
    es: Seq<(PathView, FileMeta)>,
    exts: Seq<Seq<char>>,
    max_age_days: u32,
    now: u64,
) -> int
    decreases es.len(),
{
    if es.len() == 0 {
        0
    } else {
        removed_count(es.drop_last(), exts, max_age_days, now) + if entry_removed(
            es.last(),
            exts,
            max_age_days,
            now,
        ) {
            1int
        } else {
            0int
        }
    }
}

/// How many entries the sweep records as errors.
pub open spec fn error_count(es: Seq<(PathView, FileMeta)>) -> int
    decreases es.len(),
{
    if es.len() == 0 {
        0
    } else {
        error_count(es.drop_last()) + if entry_error(es.last()) {
            1int
        } else {
            0int
        }
    }
}

/// The bytes the removed entries held, accumulated with saturation.
pub open spec fn freed_bytes(
    es: Seq<(PathView, FileMeta)>,
    exts: Seq<Seq<char>>,
    max_age_days: u32,
    now: u64,
) -> u64
    decreases es.len(),
{
    if es.len() == 0 {
        0
    } else {
        sat_add64(
            freed_bytes(es.drop_last(), exts, max_age_days, now),
            if entry_removed(es.last(), exts, max_age_days, now) {
                es.last().1.size
            } else {
                0
            },
        )
    }
}

/// The files the bounded walk yields for one root: the root node stands at
/// the root path itself, so the walk is anchored at the root's parent.
pub open spec fn swept_entries(cfg: ClearModelConfig, root_path: FsPath, tree: FsNode) -> Seq<
    (PathView, FileMeta),
> {
    with_root(
        root_path@.absolute,
        walk_node(
            tree,
            parent_comps(root_path@),
            0,
            cfg.security.max_path_depth as int,
            cfg.follow_symlinks,
            cfg.skip_directories.deep_view(),
        ),
    )
}

/// The components of a path's parent.
pub open spec fn parent_comps(p: PathView) -> Seq<Seq<char>> {
    if p.comps.len() > 0 {
        p.comps.drop_last()
    } else {
        p.comps
    }
}

/// The gates a root must pass before any of its files are touched.
pub open spec fn root_allowed(cfg: ClearModelConfig, p: PathView) -> bool {
    (cfg.security.validate_cache_paths ==> cache_path_allowed(p)) && deletion_safe(p)
}

/// What a successful sweep of one root reports.
pub open spec fn root_result_ok(
    cfg: ClearModelConfig,
    root_path: FsPath,
    tree: FsNode,
    now: u64,
    res: CleanupResult,
) -> bool {
    let es = swept_entries(cfg, root_path, tree);
    let exts = cfg.python_cache_extensions.deep_view();
    &&& res.path@ == root_path@
    &&& res.files_removed == removed_count(es, exts, cfg.max_cache_age_days, now)
    &&& res.bytes_freed == freed_bytes(es, exts, cfg.max_cache_age_days, now)
    &&& res.errors@.len() == 0
    &&& res.duration_ms == 0
}

/// The counters a completed sweep of one root leaves in the statistics map.
pub open spec fn root_stats(cfg: ClearModelConfig, root_path: FsPath, tree: FsNode, now: u64)
    -> OperationStats {
    let es = swept_entries(cfg, root_path, tree);
    let exts = cfg.python_cache_extensions.deep_view();
    OperationStats {
        files_processed: es.len() as u64,
        bytes_cleaned: freed_bytes(es, exts, cfg.max_cache_age_days, now),
        errors_encountered: error_count(es) as u64,
        start_time: now,
        last_update: now,
    }
}

/// The sweep engine: configuration, statistics, and the host snapshot.
pub struct ResourceManager {
    pub config: ClearModelConfig,
    pub stats: StatsStore,
    pub system: sysinfo::System,
}

impl ResourceManager {
    /// A new engine around a configuration, with empty statistics.
    pub fn new(config: ClearModelConfig) -> (r: Result<ResourceManager, ClearModelError>)
        ensures
            match r {
                Ok(m) => m.config == config && m.stats.entries() == crate::stats::no_stats(),
                Err(_) => false,
            },
    {
        Ok(ResourceManager { config, stats: StatsStore::new(), system: sysinfo::System::new_all() })
    }

    /// Decide whether one file is eligible for deletion: extension rule,
    /// bytecode-cache-parent rule, then age rule, in that order.
    pub fn should_clean_file(
        file_path: &FsPath,
        meta: &FileMeta,
        config: &ClearModelConfig,
        now: u64,
    ) -> (r: bool)
        ensures
            r == should_clean_spec(
                file_path@.comps,
                *meta,
                config.python_cache_extensions.deep_view(),
                config.max_cache_age_days,
                now,
            ),
    {
        if file_path.comps.len() == 0 {
            return false;
        }
        let ext = file_path.extension();
        match ext {
            Some(e) => {
                if ext_in_list(&e, &config.python_cache_extensions) {
                    return true;
                }
            },
            None => {},
        }
        let parent = file_path.parent_name();
        match parent {
            Some(p) => {
                if str_eq(p.as_str(), "__pycache__") {
                    return true;
                }
            },
            None => {},
        }
        match meta.modified {
            Some(m) => {
                let age: u64 = if now >= m {
                    now - m
                } else {
                    0
                };
                let max_age: u64 = (config.max_cache_age_days as u64) * 86400;
                age > max_age
            },
            None => false,
        }
    }
}

/// The paths a sweep deletes, in walk order.
pub open spec fn plan_views(
    es: Seq<(PathView, FileMeta)>,
    exts: Seq<Seq<char>>,
    max_age_days: u32,
    now: u64,
) -> Seq<PathView>
    decreases es.len(),
{
    if es.len() == 0 {
        Seq::empty()
    } else {
        let pre = plan_views(es.drop_last(), exts, max_age_days, now);
        if entry_removed(es.last(), exts, max_age_days, now) {
            pre.push(es.last().0)
        } else {
            pre
        }
    }
}

/// The deletion plan holds exactly one path per removed entry.
pub proof fn lemma_plan_len(
    es: Seq<(PathView, FileMeta)>,
    exts: Seq<Seq<char>>,
    max_age_days: u32,
    now: u64,
)
    ensures
        plan_views(es, exts, max_age_days, now).len() == removed_count(es, exts, max_age_days, now),
    decreases es.len(),
{
    if es.len() > 0 {
        lemma_plan_len(es.drop_last(), exts, max_age_days, now);
    }
}

/// The roots of a sweep that pass the security gates, in order.
pub open spec fn kept_roots(cfg: ClearModelConfig, roots: Seq<(FsPath, FsNode)>) -> Seq<
    (FsPath, FsNode),
>
    decreases roots.len(),
{
    if roots.len() == 0 {
        Seq::empty()
    } else {
        let pre = kept_roots(cfg, roots.drop_last());
        if root_allowed(cfg, roots.last().0@) {
            pre.push(roots.last())
        } else {
            pre
        }
    }
}

/// The statistics map after sweeping `roots` in order, starting from `m`:
/// every root gets an entry under its path text; a gated root keeps the
/// fresh counters it was given before its gates failed.
pub open spec fn stats_after(
    cfg: ClearModelConfig,
    roots: Seq<(FsPath, FsNode)>,
    now: u64,
    m: Map<Seq<char>, OperationStats>,
) -> Map<Seq<char>, OperationStats>
    decreases roots.len(),
{
    if roots.len() == 0 {
        m
    } else {
        let pre = stats_after(cfg, roots.drop_last(), now, m);
        let root = roots.last();
        pre.insert(
            path_text(root.0@),
            if root_allowed(cfg, root.0@) {
                root_stats(cfg, root.0, root.1, now)
            } else {
                crate::stats::fresh_stats(now)
            },
        )
    }
}

/// The bytes a dry-run sweep over `roots` reports in total, saturating.
pub open spec fn estimate_spec(cfg: ClearModelConfig, roots: Seq<(FsPath, FsNode)>, now: u64)
    -> u64
    decreases roots.len(),
{
    if roots.len() == 0 {
        0
    } else {
        let pre = estimate_spec(cfg, roots.drop_last(), now);
        let root = roots.last();
        if root_allowed(cfg, root.0@) {
            sat_add64(
                pre,
                freed_bytes(
                    swept_entries(cfg, root.0, root.1),
                    cfg.python_cache_extensions.deep_view(),
                    cfg.max_cache_age_days,
                    now,
                ),
            )
        } else {
            pre
        }
    }
}

impl ResourceManager {
    /// Sweep one root: record fresh statistics for it, hold it against the
    /// security gates, then walk its tree and account for every file the
    /// policy selects.  Whether or not anything is later deleted (a dry run
    /// deletes nothing), the counts reported are the same.
    pub fn clean_cache_directory(
        path: &FsPath,
        tree: &FsNode,
        config: &ClearModelConfig,
        stats: &mut StatsStore,
        now: u64,
        dry_run: bool,
    ) -> (r: Result<CleanupResult, ClearModelError>)
        ensures
            match r {
                Ok(res) => root_allowed(*config, path@) && root_result_ok(
                    *config,
                    *path,
                    *tree,
                    now,
                    res,
                ),
                Err(e) => !root_allowed(*config, path@) && e is Security,
            },
            r is Ok ==> final(stats).entries() == old(stats).entries().insert(
                path_text(path@),
                root_stats(*config, *path, *tree, now),
            ),
            r is Err ==> final(stats).entries() == old(stats).entries().insert(
                path_text(path@),
                crate::stats::fresh_stats(now),
            ),
    {
        let path_key = path.to_text();
        stats.insert(&path_key, OperationStats::new_at(now));
        if config.security.validate_cache_paths {
            match SecurityManager::validate_cache_path(path) {
                Ok(()) => {},
                Err(e) => {
                    return Err(e);
                },
            }
        }
        match SecurityManager::validate_deletion_safety(path) {
            Ok(()) => {},
            Err(e) => {
                return Err(e);
            },
        }
        let parent = path.parent();
        let entries = collect_files(
            tree,
            &parent,
            config.security.max_path_depth,
            config.follow_symlinks,
            &config.skip_directories,
        );
        let ghost es = swept_entries(*config, *path, *tree);
        let ghost exts = config.python_cache_extensions.deep_view();
        let ghost base = stats.entries();
        let mut files: u64 = 0;
        let mut bytes: u64 = 0;
        let mut errs: u64 = 0;
        let mut i: usize = 0;
        let ghost mut written = crate::stats::fresh_stats(now);
        proof {
            assert(es == entry_views(entries@));
        }
        while i < entries.len()
            invariant
                es == entry_views(entries@),
                exts == config.python_cache_extensions.deep_view(),
                0 <= i <= entries.len(),
                es.len() == entries.len(),
                files <= i,
                errs <= i,
                files == removed_count(es.take(i as int), exts, config.max_cache_age_days, now),
                bytes == freed_bytes(es.take(i as int), exts, config.max_cache_age_days, now),
                errs == error_count(es.take(i as int)),
                stats.entries() == base.insert(path_text(path@), written),
                path_key@ == path_text(path@),
            decreases entries.len() - i,
        {
            proof {
                assert(es.take(i + 1).drop_last() =~= es.take(i as int));
                assert(es.take(i + 1).last() == es[i as int]);
                assert(es[i as int] == (entries@[i as int].path@, entries@[i as int].meta));
            }
            let entry = &entries[i];
            if !entry.meta.accessible {
                errs = errs + 1;
            } else if Self::should_clean_file(&entry.path, &entry.meta, config, now) {
                files = files + 1;
                bytes = if bytes > u64::MAX - entry.meta.size {
                    u64::MAX
                } else {
                    bytes + entry.meta.size
                };
            }
            i = i + 1;
            if i % 100 == 0 {
                let snap = OperationStats {
                    files_processed: i as u64,
                    bytes_cleaned: bytes,
                    errors_encountered: errs,
                    start_time: now,
                    last_update: now,
                };
                stats.insert(&path_key, snap);
                proof {
                    written = snap;
                    assert(base.insert(path_text(path@), written) =~= stats.entries());
                }
            }
        }
        let final_stats = OperationStats {
            files_processed: entries.len() as u64,
            bytes_cleaned: bytes,
            errors_encountered: errs,
            start_time: now,
            last_update: now,
        };
        stats.insert(&path_key, final_stats);
        proof {
            assert(es.take(entries.len() as int) =~= es);
            assert(old(stats).entries().insert(path_text(path@), final_stats) =~= stats.entries());
            assert(final_stats == root_stats(*config, *path, *tree, now));
        }
        Ok(
            CleanupResult {
                path: path.duplicate(),
                files_removed: files,
                bytes_freed: bytes,
                errors: Vec::new(),
                duration_ms: 0,
            },
        )
    }

    /// The files one sweep of a root would delete, in walk order: exactly the
    /// accessible files the policy selects.  The caller acts on the plan only
    /// outside a dry run; the engine itself deletes nothing.
    pub fn deletion_plan(path: &FsPath, tree: &FsNode, config: &ClearModelConfig, now: u64) -> (r:
        Vec<FsPath>)
        ensures
            ({
                let es = swept_entries(*config, *path, *tree);
                let exts = config.python_cache_extensions.deep_view();
                &&& views_of(r@) == plan_views(es, exts, config.max_cache_age_days, now)
                &&& r@.len() == removed_count(es, exts, config.max_cache_age_days, now)
            }),
    {
        let parent = path.parent();
        let entries = collect_files(
            tree,
            &parent,
            config.security.max_path_depth,
            config.follow_symlinks,
            &config.skip_directories,
        );
        let ghost es = swept_entries(*config, *path, *tree);
        let ghost exts = config.python_cache_extensions.deep_view();
        let mut out: Vec<FsPath> = Vec::new();
        let mut i: usize = 0;
        proof {
            assert(es == entry_views(entries@));
        }
        while i < entries.len()
            invariant
                es == entry_views(entries@),
                exts == config.python_cache_extensions.deep_view(),
                0 <= i <= entries.len(),
                es.len() == entries.len(),
                views_of(out@) == plan_views(es.take(i as int), exts, config.max_cache_age_days, now),
            decreases entries.len() - i,
        {
            proof {
                assert(es.take(i + 1).drop_last() =~= es.take(i as int));
                assert(es.take(i + 1).last() == es[i as int]);
                assert(es[i as int] == (entries@[i as int].path@, entries@[i as int].meta));
            }
            let entry = &entries[i];
            if entry.meta.accessible && Self::should_clean_file(&entry.path, &entry.meta, config, now) {
                let ghost old_views = views_of(out@);
                out.push(entry.path.duplicate());
                proof {
                    assert(entry_removed(es[i as int], exts, config.max_cache_age_days, now));
                    assert(views_of(out@) =~= old_views.push(es[i as int].0));
                }
            }
            i = i + 1;
        }
        proof {
            assert(es.take(entries.len() as int) =~= es);
            lemma_plan_len(es, exts, config.max_cache_age_days, now);
        }
        out
    }

    /// Inspect the host's memory pressure; a soft signal only, the sweep
    /// proceeds regardless.  True reports the high-water mark exceeded.
    pub fn check_system_resources(&mut self) -> (r: bool)
        ensures
            final(self).config == old(self).config,
            final(self).stats.entries() == old(self).stats.entries(),
    {
        self.system.refresh_all();
        let total = self.system.total_memory();
        let used = self.system.used_memory();
        memory_usage_high(used, total)
    }

    /// Sweep every given root in order: a root that fails a security gate is
    /// skipped and contributes no result; every other root contributes one
    /// result with its exact counts.  The dry-run flag does not change any
    /// count: the engine only accounts, deletion is acted on elsewhere.
    pub fn clean_all_caches(&mut self, roots: &Vec<(FsPath, FsNode)>, now: u64, dry_run: bool) -> (r:
        Vec<CleanupResult>)
        ensures
            final(self).config == old(self).config,
            ({
                let kept = kept_roots(old(self).config, roots@);
                &&& r@.len() == kept.len()
                &&& forall|i: int|
                    0 <= i < kept.len() ==> root_result_ok(
                        old(self).config,
                        kept[i].0,
                        kept[i].1,
                        now,
                        #[trigger] r@[i],
                    )
            }),
            final(self).stats.entries() == stats_after(
                old(self).config,
                roots@,
                now,
                old(self).stats.entries(),
            ),
    {
        let _memory_high = self.check_system_resources();
        let mut results: Vec<CleanupResult> = Vec::new();
        if roots.len() == 0 {
            proof {
                assert(roots@.take(0) =~= roots@);
            }
            return results;
        }
        let ghost cfg = self.config;
        let ghost base = self.stats.entries();
        let mut i: usize = 0;
        while i < roots.len()
            invariant
                0 <= i <= roots.len(),
                self.config == cfg,
                self.stats.entries() == stats_after(cfg, roots@.take(i as int), now, base),
                results@.len() == kept_roots(cfg, roots@.take(i as int)).len(),
                forall|k: int|
                    0 <= k < results@.len() ==> root_result_ok(
                        cfg,
                        kept_roots(cfg, roots@.take(i as int))[k].0,
                        kept_roots(cfg, roots@.take(i as int))[k].1,
                        now,
                        #[trigger] results@[k],
                    ),
            decreases roots.len() - i,
        {
            proof {
                assert(roots@.take(i + 1).drop_last() =~= roots@.take(i as int));
                assert(roots@.take(i + 1).last() == roots@[i as int]);
            }
            let root = &roots[i];
            let outcome = Self::clean_cache_directory(
                &root.0,
                &root.1,
                &self.config,
                &mut self.stats,
                now,
                dry_run,
            );
            match outcome {
                Ok(res) => {
                    results.push(res);
                    proof {
                        let kept = kept_roots(cfg, roots@.take(i + 1));
                        assert(kept =~= kept_roots(cfg, roots@.take(i as int)).push(
                            roots@[i as int],
                        ));
                    }
                },
                Err(_) => {
                    proof {
                        assert(kept_roots(cfg, roots@.take(i + 1)) =~= kept_roots(
                            cfg,
                            roots@.take(i as int),
                        ));
                    }
                },
            }
            i = i + 1;
        }
        proof {
            assert(roots@.take(roots.len() as int) =~= roots@);
        }
        results
    }

    /// A dry-run sweep over the given roots, reporting the bytes that a real
    /// sweep would free.
    pub fn estimate_cleanup_space(&mut self, roots: &Vec<(FsPath, FsNode)>, now: u64) -> (r: u64)
        ensures
            final(self).config == old(self).config,
            r == estimate_spec(old(self).config, roots@, now),
    {
        let ghost cfg = self.config;
        let results = self.clean_all_caches(roots, now, true);
        let ghost kept = kept_roots(cfg, roots@);
        let mut total: u64 = 0;
        let mut i: usize = 0;
        proof {
            lemma_estimate_over_kept(cfg, roots@, now);
        }
        while i < results.len()
            invariant
                0 <= i <= results.len(),
                results@.len() == kept.len(),
                forall|k: int|
                    0 <= k < kept.len() ==> root_result_ok(
                        cfg,
                        kept[k].0,
                        kept[k].1,
                        now,
                        #[trigger] results@[k],
                    ),
                total == kept_freed(cfg, kept.take(i as int), now),
            decreases results.len() - i,
        {
            proof {
                assert(kept.take(i + 1).drop_last() =~= kept.take(i as int));
                assert(kept.take(i + 1).last() == kept[i as int]);
            }
            let b = results[i].bytes_freed;
            total = if total > u64::MAX - b {
                u64::MAX
            } else {
                total + b
            };
            i = i + 1;
        }
        proof {
            assert(kept.take(kept.len() as int) =~= kept);
        }
        total
    }

    /// Whether a sweep is worthwhile: more would be freed than the configured
    /// free-space threshold.
    pub fn is_cleanup_needed(&mut self, roots: &Vec<(FsPath, FsNode)>, now: u64) -> (r: Result<
        bool,
        ClearModelError,
    >)
        ensures
            final(self).config == old(self).config,
            match r {
                Ok(b) => b == (estimate_spec(old(self).config, roots@, now) > sat_mul_gb(
                    old(self).config.min_free_space_gb,
                )),
                Err(_) => false,
            },
    {
        let estimated = self.estimate_cleanup_space(roots, now);
        let gb = self.config.min_free_space_gb;
        let threshold: u64 = if gb > u64::MAX / 1073741824 {
            u64::MAX
        } else {
            gb * 1073741824
        };
        Ok(estimated > threshold)
    }

    /// Sweep the caller's working directory for bytecode-cache files, under
    /// the same gates and accounting as any other root.
    pub fn clean_python_caches(&mut self, cwd: &FsPath, tree: &FsNode, now: u64, dry_run: bool)
        -> (r: Result<CleanupResult, ClearModelError>)
        ensures
            final(self).config == old(self).config,
            match r {
                Ok(res) => root_allowed(old(self).config, cwd@) && root_result_ok(
                    old(self).config,
                    *cwd,
                    *tree,
                    now,
                    res,
                ),
                Err(e) => !root_allowed(old(self).config, cwd@) && e is Security,
            },
    {
        Self::clean_cache_directory(&*cwd, tree, &self.config, &mut self.stats, now, dry_run)
    }

    /// A snapshot of the per-root counters: every recorded root once, in an
    /// unspecified order.
    pub fn get_operation_stats(&self) -> (r: Vec<(String, OperationStats)>)
        ensures
            forall|i: int|
                0 <= i < r@.len() ==> self.stats.entries().contains_key(#[trigger] r@[i].0@)
                    && self.stats.entries()[r@[i].0@] == r@[i].1,
            forall|i: int, j: int| 0 <= i < j < r@.len() ==> r@[i].0@ != r@[j].0@,
            forall|k: Seq<char>|
                self.stats.entries().contains_key(k) ==> exists|i: int|
                    0 <= i < r@.len() && #[trigger] r@[i].0@ == k,
    {
        self.stats.snapshot()
    }
}

/// The threshold in bytes for a gigabyte count, saturating.
pub open spec fn sat_mul_gb(gb: u64) -> u64 {
    if gb * 1073741824 > u64::MAX {
        u64::MAX
    } else {
        (gb * 1073741824) as u64
    }
}

/// The freed bytes summed over already-gated roots, saturating.
pub open spec fn kept_freed(cfg: ClearModelConfig, kept: Seq<(FsPath, FsNode)>, now: u64) -> u64
    decreases kept.len(),
{
    if kept.len() == 0 {
        0
    } else {
        sat_add64(
            kept_freed(cfg, kept.drop_last(), now),
            freed_bytes(
                swept_entries(cfg, kept.last().0, kept.last().1),
                cfg.python_cache_extensions.deep_view(),
                cfg.max_cache_age_days,
                now,
            ),
        )
    }
}

/// Summing freed bytes over all roots, skipping the gated ones, equals
/// summing them over the kept roots.
pub proof fn lemma_estimate_over_kept(cfg: ClearModelConfig, roots: Seq<(FsPath, FsNode)>, now: u64)
    ensures
        estimate_spec(cfg, roots, now) == kept_freed(cfg, kept_roots(cfg, roots), now),
    decreases roots.len(),
{
    if roots.len() > 0 {
        lemma_estimate_over_kept(cfg, roots.drop_last(), now);
        let pre = kept_roots(cfg, roots.drop_last());
        let root = roots.last();
        if root_allowed(cfg, root.0@) {
            assert(kept_roots(cfg, roots) == pre.push(root));
            assert(pre.push(root).drop_last() =~= pre);
            assert(pre.push(root).last() == root);
        }
    }
}

/// The observable outcome of a sweep of one root: two results agree on it
/// exactly when every reported number and the root match.
pub open spec fn same_outcome(a: CleanupResult, b: CleanupResult) -> bool {
    a.path@ == b.path@ && a.files_removed == b.files_removed && a.bytes_freed == b.bytes_freed
        && a.errors@ == b.errors@ && a.duration_ms == b.duration_ms
}

/// Dry-run idempotence: two sweeps in dry-run mode over the same unchanged
/// trees, configuration and clock report identical result sets, root by
/// root; the dry-run flag never enters the accounting, and the engine
/// removes nothing in either mode (deletion happens only through a plan the
/// caller acts on).
pub proof fn lemma_dry_run_idempotent(
    cfg: ClearModelConfig,
    roots: Seq<(FsPath, FsNode)>,
    now: u64,
    r1: Seq<CleanupResult>,
    r2: Seq<CleanupResult>,
)
    requires
        r1.len() == kept_roots(cfg, roots).len(),
        forall|i: int|
            0 <= i < r1.len() ==> root_result_ok(
                cfg,
                kept_roots(cfg, roots)[i].0,
                kept_roots(cfg, roots)[i].1,
                now,
                #[trigger] r1[i],
            ),
        r2.len() == kept_roots(cfg, roots).len(),
        forall|i: int|
            0 <= i < r2.len() ==> root_result_ok(
                cfg,
                kept_roots(cfg, roots)[i].0,
                kept_roots(cfg, roots)[i].1,
                now,
                #[trigger] r2[i],
            ),
    ensures
        r1.len() == r2.len(),
        forall|i: int| 0 <= i < r1.len() ==> same_outcome(#[trigger] r1[i], r2[i]),
{
    assert forall|i: int| 0 <= i < r1.len() implies same_outcome(#[trigger] r1[i], r2[i]) by {
        assert(root_result_ok(
            cfg,
            kept_roots(cfg, roots)[i].0,
            kept_roots(cfg, roots)[i].1,
            now,
            r1[i],
        ));
        assert(root_result_ok(
            cfg,
            kept_roots(cfg, roots)[i].0,
            kept_roots(cfg, roots)[i].1,
            now,
            r2[i],
        ));
        assert(r1[i].errors@ =~= r2[i].errors@);
    }
}

/// The removal count is never negative.
pub proof fn lemma_removed_count_nonneg(
    es: Seq<(PathView, FileMeta)>,
    exts: Seq<Seq<char>>,
    max_age_days: u32,
    now: u64,
)
    ensures
        removed_count(es, exts, max_age_days, now) >= 0,
    decreases es.len(),
{
    if es.len() > 0 {
        lemma_removed_count_nonneg(es.drop_last(), exts, max_age_days, now);
    }
}

/// A sweep that removes no file frees no bytes.
pub proof fn lemma_no_removals_no_bytes(
    es: Seq<(PathView, FileMeta)>,
    exts: Seq<Seq<char>>,
    max_age_days: u32,
    now: u64,
)
    requires
        removed_count(es, exts, max_age_days, now) == 0,
    ensures
        freed_bytes(es, exts, max_age_days, now) == 0,
    decreases es.len(),
{
    if es.len() > 0 {
        lemma_removed_count_nonneg(es.drop_last(), exts, max_age_days, now);
        lemma_no_removals_no_bytes(es.drop_last(), exts, max_age_days, now);
    }
}

/// Adding files to the walked tree never shrinks the freed-byte total: the
/// reported bytes grow monotonically as matching files are added between
/// runs.
pub proof fn lemma_bytes_monotone(
    es: Seq<(PathView, FileMeta)>,
    extra: Seq<(PathView, FileMeta)>,
    exts: Seq<Seq<char>>,
    max_age_days: u32,
    now: u64,
)
    ensures
        freed_bytes(es + extra, exts, max_age_days, now) >= freed_bytes(
            es,
            exts,
            max_age_days,
            now,
        ),
    decreases extra.len(),
{
    if extra.len() == 0 {
        assert(es + extra =~= es);
    } else {
        lemma_bytes_monotone(es, extra.drop_last(), exts, max_age_days, now);
        assert((es + extra).drop_last() =~= es + extra.drop_last());
        assert((es + extra).len() > 0);
    }
}

/// Does the dot-prefixed form of `e` stand in `exts`?
fn ext_in_list(e: &String, exts: &Vec<String>) -> (r: bool)
    ensures
        r == exts.deep_view().contains(seq!['.'] + e@),
{
    let ne = e.as_str().unicode_len();
    let mut j: usize = 0;
    while j < exts.len()
        invariant
            ne == e@.len(),
            0 <= j <= exts.len(),
            forall|j2: int| 0 <= j2 < j ==> #[trigger] exts.deep_view()[j2] != seq!['.'] + e@,
        decreases exts.len() - j,
    {
        let x = &exts[j];
        let nx = x.as_str().unicode_len();
        if nx >= 1 && nx - 1 == ne && x.as_str().get_char(0) == '.' {
            if str_eq(x.as_str().substring_char(1, nx), e.as_str()) {
                proof {
                    assert(exts.deep_view()[j as int] =~= seq!['.'] + e@);
                }
                return true;
            } else {
                proof {
                    let lhs = exts.deep_view()[j as int];
                    let rhs = seq!['.'] + e@;
                    assert(x@.subrange(1, nx as int) != e@);
                    if lhs == rhs {
                        assert(x@.subrange(1, nx as int) =~= e@);
                    }
                }
            }
        } else {
            proof {
                let lhs = exts.deep_view()[j as int];
                let rhs = seq!['.'] + e@;
                if lhs == rhs {
                    assert(lhs.len() == 1 + ne);
                    assert(lhs[0] == '.');
                }
            }
        }
        j = j + 1;
    }
    proof {
        if exts.deep_view().contains(seq!['.'] + e@) {
            let j = choose|j: int|
                0 <= j < exts.deep_view().len() && exts.deep_view()[j] == seq!['.'] + e@;
        }
    }
    false
}

} // verus!
