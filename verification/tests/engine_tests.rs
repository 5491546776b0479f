use clearmodel::config::ClearModelConfig;
use clearmodel::engine::{memory_usage_high, ResourceManager};
use clearmodel::path_model::FsPath;
use clearmodel::stats::StatsStore;
use clearmodel::walker::{calculate_directory_size, FileMeta, FsNode};

const NOW: u64 = 1_700_000_000;
const DAY: u64 = 86_400;

fn file(name: &str, size: u64, age_secs: u64) -> FsNode {
    FsNode::File {
        name: name.to_string(),
        meta: FileMeta { size, modified: Some(NOW - age_secs), accessible: true },
    }
}

fn dir(name: &str, children: Vec<FsNode>) -> FsNode {
    FsNode::Dir { name: name.to_string(), symlink: false, children }
}

#[test]
fn test_resource_manager_creation() {
    let config = ClearModelConfig::default();
    let manager = ResourceManager::new(config).unwrap();
    assert!(manager.stats.is_empty());
}

#[test]
fn test_cleanup_estimation() {
    // One bytecode file whose content would be "test cache file".
    let root = FsPath::parse("/srv/cachetest");
    let tree = dir("cachetest", vec![file("test.pyc", 15, DAY)]);
    let mut manager = ResourceManager::new(ClearModelConfig::default()).unwrap();
    let roots = vec![(root, tree)];
    let estimate = manager.estimate_cleanup_space(&roots, NOW);
    assert_eq!(estimate, 15);
}

#[test]
fn test_sweep_extension_rule() {
    // A one-day-old bytecode file is removed by the extension rule; a
    // one-day-old text file is retained under a seven-day age limit.
    let root = FsPath::parse("/srv/cachetest");
    let tree = dir("cachetest", vec![file("a.pyc", 1024, DAY), file("b.txt", 10, DAY)]);
    let mut manager = ResourceManager::new(ClearModelConfig::default()).unwrap();
    let roots = vec![(root, tree)];
    let results = manager.clean_all_caches(&roots, NOW, true);
    assert_eq!(results.len(), 1);
    assert_eq!(results[0].files_removed, 1);
    assert_eq!(results[0].bytes_freed, 1024);
    assert!(results[0].errors.is_empty());
}

#[test]
fn test_sweep_age_rule() {
    // A ten-day-old log with no matching extension falls to the age rule.
    let root = FsPath::parse("/srv/cachetest");
    let tree = dir("cachetest", vec![file("c.log", 77, 10 * DAY)]);
    let mut manager = ResourceManager::new(ClearModelConfig::default()).unwrap();
    let roots = vec![(root, tree)];
    let results = manager.clean_all_caches(&roots, NOW, true);
    assert_eq!(results.len(), 1);
    assert_eq!(results[0].files_removed, 1);
    assert_eq!(results[0].bytes_freed, 77);
}

#[test]
fn test_protected_root_is_skipped() {
    // A protected system path is skipped; the sweep continues with the rest.
    let good_root = FsPath::parse("/srv/data/mycache");
    let good_tree = dir("mycache", vec![file("x.pyc", 5, DAY)]);
    let bad_root = FsPath::parse("/etc");
    let bad_tree = dir("etc", vec![file("passwd", 1, DAY)]);
    let mut manager = ResourceManager::new(ClearModelConfig::default()).unwrap();
    let roots = vec![(bad_root, bad_tree), (good_root, good_tree)];
    let results = manager.clean_all_caches(&roots, NOW, true);
    assert_eq!(results.len(), 1);
    assert_eq!(results[0].path.to_text(), "/srv/data/mycache");
    assert_eq!(results[0].files_removed, 1);
}

#[test]
fn test_user_data_root_is_skipped() {
    let root = FsPath::parse("/home/u/Downloads");
    let tree = dir("Downloads", vec![file("x.pyc", 5, DAY)]);
    let mut manager = ResourceManager::new(ClearModelConfig::default()).unwrap();
    let roots = vec![(root, tree)];
    let results = manager.clean_all_caches(&roots, NOW, true);
    assert_eq!(results.len(), 0);
}

#[test]
fn test_dry_run_idempotent() {
    // Two dry runs over the same unchanged tree report identical results.
    let mut manager = ResourceManager::new(ClearModelConfig::default()).unwrap();
    let roots = vec![(
        FsPath::parse("/srv/cachetest"),
        dir("cachetest", vec![file("a.pyc", 1024, DAY), file("old.log", 3, 30 * DAY)]),
    )];
    let first = manager.clean_all_caches(&roots, NOW, true);
    let second = manager.clean_all_caches(&roots, NOW, true);
    assert_eq!(first, second);
}

#[test]
fn test_no_removals_no_bytes_and_monotonic() {
    // No removed file means zero bytes; adding a matching file only grows
    // the total.
    let root = FsPath::parse("/srv/cachetest");
    let mut manager = ResourceManager::new(ClearModelConfig::default()).unwrap();
    let lean = vec![(root.duplicate(), dir("cachetest", vec![file("keep.txt", 9, DAY)]))];
    let r1 = manager.clean_all_caches(&lean, NOW, true);
    assert_eq!(r1[0].files_removed, 0);
    assert_eq!(r1[0].bytes_freed, 0);

    let grown = vec![(
        root,
        dir("cachetest", vec![file("keep.txt", 9, DAY), file("new.pyc", 40, DAY)]),
    )];
    let r2 = manager.clean_all_caches(&grown, NOW, true);
    assert!(r2[0].bytes_freed >= r1[0].bytes_freed);
    assert_eq!(r2[0].bytes_freed, 40);
}

#[test]
fn test_deletion_plan_lists_exact_files() {
    let root = FsPath::parse("/srv/cachetest");
    let tree = dir("cachetest", vec![file("a.pyc", 1024, DAY), file("b.txt", 10, DAY)]);
    let config = ClearModelConfig::default();
    let plan = ResourceManager::deletion_plan(&root, &tree, &config, NOW);
    assert_eq!(plan.len(), 1);
    assert_eq!(plan[0].to_text(), "/srv/cachetest/a.pyc");
}

#[test]
fn test_pycache_parent_rule() {
    // Files directly inside a bytecode-cache directory match by parent name;
    // but the default skip list prunes that directory entirely, so it only
    // fires once the name is no longer skipped.
    let mut config = ClearModelConfig::default();
    config.skip_directories = vec![".git".to_string()];
    let root = FsPath::parse("/srv/cachetest");
    let tree = dir(
        "cachetest",
        vec![dir("__pycache__", vec![file("mod.cpython", 33, 0)])],
    );
    let mut stats = StatsStore::new();
    let res =
        ResourceManager::clean_cache_directory(&root, &tree, &config, &mut stats, NOW, true)
            .unwrap();
    assert_eq!(res.files_removed, 1);
    assert_eq!(res.bytes_freed, 33);
}

#[test]
fn test_skip_list_prunes_directories() {
    // With the default configuration the skip list prunes the whole subtree.
    let root = FsPath::parse("/srv/cachetest");
    let tree = dir(
        "cachetest",
        vec![dir("__pycache__", vec![file("mod.pyc", 33, 0)]), file("a.pyc", 7, 0)],
    );
    let mut manager = ResourceManager::new(ClearModelConfig::default()).unwrap();
    let roots = vec![(root, tree)];
    let results = manager.clean_all_caches(&roots, NOW, true);
    assert_eq!(results[0].files_removed, 1);
    assert_eq!(results[0].bytes_freed, 7);
}

#[test]
fn test_depth_bound_prunes_descent() {
    let mut config = ClearModelConfig::default();
    config.security.max_path_depth = 1;
    let root = FsPath::parse("/srv/cachetest");
    let tree = dir(
        "cachetest",
        vec![file("top.pyc", 1, 0), dir("sub", vec![file("deep.pyc", 2, 0)])],
    );
    let mut stats = StatsStore::new();
    let res =
        ResourceManager::clean_cache_directory(&root, &tree, &config, &mut stats, NOW, true)
            .unwrap();
    assert_eq!(res.files_removed, 1);
    assert_eq!(res.bytes_freed, 1);
}

#[test]
fn test_symlink_policy() {
    let root = FsPath::parse("/srv/cachetest");
    let link = FsNode::Dir {
        name: "linked".to_string(),
        symlink: true,
        children: vec![file("x.pyc", 11, 0)],
    };
    let tree = FsNode::Dir { name: "cachetest".to_string(), symlink: false, children: vec![link] };

    let mut stats = StatsStore::new();
    let config = ClearModelConfig::default();
    let res =
        ResourceManager::clean_cache_directory(&root, &tree, &config, &mut stats, NOW, true)
            .unwrap();
    assert_eq!(res.files_removed, 0, "unfollowed symlinked directories are pruned");

    let link2 = FsNode::Dir {
        name: "linked".to_string(),
        symlink: true,
        children: vec![file("x.pyc", 11, 0)],
    };
    let tree2 = FsNode::Dir { name: "cachetest".to_string(), symlink: false, children: vec![link2] };
    let mut config2 = ClearModelConfig::default();
    config2.follow_symlinks = true;
    let mut stats2 = StatsStore::new();
    let res2 =
        ResourceManager::clean_cache_directory(&root, &tree2, &config2, &mut stats2, NOW, true)
            .unwrap();
    assert_eq!(res2.files_removed, 1);
}

#[test]
fn test_inaccessible_file_counts_as_error() {
    let root = FsPath::parse("/srv/cachetest");
    let broken = FsNode::File {
        name: "ghost.pyc".to_string(),
        meta: FileMeta { size: 100, modified: Some(NOW), accessible: false },
    };
    let tree = FsNode::Dir {
        name: "cachetest".to_string(),
        symlink: false,
        children: vec![broken],
    };
    let mut manager = ResourceManager::new(ClearModelConfig::default()).unwrap();
    let roots = vec![(root, tree)];
    let results = manager.clean_all_caches(&roots, NOW, true);
    assert_eq!(results[0].files_removed, 0);
    assert_eq!(results[0].bytes_freed, 0);
    let key = "/srv/cachetest".to_string();
    let stats = manager.stats.get(&key).unwrap();
    assert_eq!(stats.errors_encountered, 1);
    assert_eq!(stats.files_processed, 1);
}

#[test]
fn test_operation_stats_snapshot() {
    let root = FsPath::parse("/srv/cachetest");
    let tree = dir("cachetest", vec![file("a.pyc", 1024, DAY), file("b.txt", 10, DAY)]);
    let mut manager = ResourceManager::new(ClearModelConfig::default()).unwrap();
    let roots = vec![(root, tree)];
    manager.clean_all_caches(&roots, NOW, true);
    let snapshot = manager.get_operation_stats();
    assert_eq!(snapshot.len(), 1);
    assert_eq!(snapshot[0].0, "/srv/cachetest");
    assert_eq!(snapshot[0].1.files_processed, 2);
    assert_eq!(snapshot[0].1.bytes_cleaned, 1024);
    assert_eq!(snapshot[0].1.start_time, NOW);
}

#[test]
fn test_is_cleanup_needed_threshold() {
    let root = FsPath::parse("/srv/cachetest");
    let tree = dir("cachetest", vec![file("a.pyc", 1024, DAY)]);
    let mut config = ClearModelConfig::default();
    config.min_free_space_gb = 0;
    let mut manager = ResourceManager::new(config).unwrap();
    let roots = vec![(root, tree)];
    assert!(manager.is_cleanup_needed(&roots, NOW).unwrap());

    let root2 = FsPath::parse("/srv/cachetest");
    let tree2 = dir("cachetest", vec![file("a.pyc", 1024, DAY)]);
    let mut manager2 = ResourceManager::new(ClearModelConfig::default()).unwrap();
    let roots2 = vec![(root2, tree2)];
    assert!(!manager2.is_cleanup_needed(&roots2, NOW).unwrap());
}

#[test]
fn test_clean_python_caches_under_cwd() {
    let cwd = FsPath::parse("/srv/project");
    let tree = dir("project", vec![file("cachedmod.pyc", 21, 0)]);
    let mut manager = ResourceManager::new(ClearModelConfig::default()).unwrap();
    let res = manager.clean_python_caches(&cwd, &tree, NOW, true).unwrap();
    assert_eq!(res.files_removed, 1);
    assert_eq!(res.bytes_freed, 21);
}

#[test]
fn test_batched_sweep_totals() {
    // More files than one batch holds: the counters still add up exactly.
    let mut children = Vec::new();
    for i in 0..250 {
        children.push(file(&format!("m{}.pyc", i), 1, 0));
    }
    let root = FsPath::parse("/srv/cachetest");
    let tree = dir("cachetest", children);
    let mut manager = ResourceManager::new(ClearModelConfig::default()).unwrap();
    let roots = vec![(root, tree)];
    let results = manager.clean_all_caches(&roots, NOW, true);
    assert_eq!(results[0].files_removed, 250);
    assert_eq!(results[0].bytes_freed, 250);
    let stats = manager.stats.get(&"/srv/cachetest".to_string()).unwrap();
    assert_eq!(stats.files_processed, 250);
    assert_eq!(stats.bytes_cleaned, 250);
}

#[test]
fn test_stats_cover_every_root() {
    let roots = vec![
        (FsPath::parse("/srv/one"), dir("one", vec![file("a.pyc", 1, 0)])),
        (FsPath::parse("/srv/two"), dir("two", vec![file("b.pyc", 2, 0)])),
        // A gated root still gets its fresh counters recorded.
        (FsPath::parse("/etc"), dir("etc", vec![file("c.pyc", 4, 0)])),
    ];
    let mut manager = ResourceManager::new(ClearModelConfig::default()).unwrap();
    let results = manager.clean_all_caches(&roots, NOW, true);
    assert_eq!(results.len(), 2);
    let snapshot = manager.get_operation_stats();
    assert_eq!(snapshot.len(), 3);
    let gated = manager.stats.get(&"/etc".to_string()).unwrap();
    assert_eq!(gated.files_processed, 0);
    assert_eq!(gated.bytes_cleaned, 0);
    assert_eq!(manager.stats.get(&"/srv/two".to_string()).unwrap().bytes_cleaned, 2);
}

#[test]
fn test_memory_high_water_mark() {
    assert!(memory_usage_high(91, 100));
    assert!(!memory_usage_high(90, 100));
    assert!(!memory_usage_high(0, 0));
    assert!(memory_usage_high(u64::MAX, u64::MAX));
}

#[test]
fn test_directory_size() {
    let tree = dir(
        "root",
        vec![file("a", 10, 0), dir("sub", vec![file("b", 32, 0)]), file("c", 0, 0)],
    );
    assert_eq!(calculate_directory_size(&tree), 42);
}

#[test]
fn test_future_mtime_and_missing_mtime() {
    // A clock that reports a future modification time clamps to age zero,
    // and a missing modification time never expires.
    let config = ClearModelConfig::default();
    let future = FileMeta { size: 1, modified: Some(NOW + DAY), accessible: true };
    let unknown = FileMeta { size: 1, modified: None, accessible: true };
    let p = FsPath::parse("/srv/cachetest/f.txt");
    assert!(!ResourceManager::should_clean_file(&p, &future, &config, NOW));
    assert!(!ResourceManager::should_clean_file(&p, &unknown, &config, NOW));
}

#[test]
fn test_should_clean_file() {
    let config = ClearModelConfig::default();

    let pyc_file = FsPath::parse("/srv/work/test.pyc");
    let meta = FileMeta { size: 4, modified: Some(NOW), accessible: true };
    assert!(ResourceManager::should_clean_file(&pyc_file, &meta, &config, NOW));

    let regular_file = FsPath::parse("/srv/work/test.txt");
    // Should not clean regular files unless they're old
    assert!(!ResourceManager::should_clean_file(&regular_file, &meta, &config, NOW));
}
