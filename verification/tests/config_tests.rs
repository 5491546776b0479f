use clearmodel::config::{ClearModelConfig, ConfigFormat};
use clearmodel::errors::ClearModelError;
use clearmodel::path_model::FsPath;

#[test]
fn test_default_config() {
    let config = ClearModelConfig::default();
    assert!(config.validate().is_ok());
    assert!(!config.cache_paths.is_empty());
    assert!(config.max_parallel_operations > 0);
}

#[test]
fn test_default_values() {
    let config = ClearModelConfig::default();
    assert_eq!(config.max_cache_age_days, 7);
    assert_eq!(config.max_parallel_operations, 10);
    assert!(!config.follow_symlinks);
    assert_eq!(
        config.python_cache_extensions,
        vec![".pyc".to_string(), ".pyo".to_string(), ".pyd".to_string()]
    );
    assert!(config.skip_directories.contains(&"__pycache__".to_string()));
    assert_eq!(config.min_free_space_gb, 1);
    assert_eq!(config.log_level, "info");
    assert!(config.security.validate_cache_paths);
    assert_eq!(config.security.max_path_depth, 20);
}

#[test]
fn test_validate_rejections() {
    let mut config = ClearModelConfig::default();
    config.cache_paths = Vec::new();
    match config.validate() {
        Err(ClearModelError::Configuration { .. }) => {}
        other => panic!("expected a configuration error, got {:?}", other),
    }

    let mut config = ClearModelConfig::default();
    config.max_parallel_operations = 0;
    assert!(config.validate().is_err());

    let mut config = ClearModelConfig::default();
    config.security.max_path_depth = 0;
    assert!(config.validate().is_err());
}

#[test]
fn test_detect_config_format() {
    assert_eq!(
        ClearModelConfig::detect_config_format(&FsPath::parse("clearmodel.toml")),
        ConfigFormat::Toml
    );
    assert_eq!(
        ClearModelConfig::detect_config_format(&FsPath::parse("/etc/app/config.yaml")),
        ConfigFormat::Yaml
    );
    assert_eq!(
        ClearModelConfig::detect_config_format(&FsPath::parse("c.yml")),
        ConfigFormat::Yaml
    );
    assert_eq!(
        ClearModelConfig::detect_config_format(&FsPath::parse("c.json")),
        ConfigFormat::Json
    );
    assert_eq!(
        ClearModelConfig::detect_config_format(&FsPath::parse("noext")),
        ConfigFormat::Toml
    );
}

#[test]
fn test_default_cache_paths_under_home() {
    let home = FsPath::parse("/home/u");
    let paths = ClearModelConfig::default_cache_paths(Some(&home));
    assert_eq!(paths.len(), 11);
    assert_eq!(paths[0].to_text(), "/home/u/.cache/huggingface");
    assert_eq!(paths[10].to_text(), "/home/u/.transformers");
    assert!(ClearModelConfig::default_cache_paths(None).is_empty());
}

#[test]
fn test_existing_cache_paths() {
    let mut config = ClearModelConfig::default();
    config.cache_paths =
        vec![FsPath::parse("/a"), FsPath::parse("/b"), FsPath::parse("/c")];
    let exists = vec![true, false, true];
    let existing = config.existing_cache_paths(&exists);
    assert_eq!(existing.len(), 2);
    assert_eq!(existing[0].to_text(), "/a");
    assert_eq!(existing[1].to_text(), "/c");
}

#[test]
fn test_error_messages() {
    let e = ClearModelError::configuration("No cache paths configured".to_string());
    assert_eq!(e.message(), "Configuration error: No cache paths configured");

    let e = ClearModelError::path_traversal(FsPath::parse("/evil/../spot"));
    assert_eq!(
        e.message(),
        "Path traversal security violation: attempted to access /evil/../spot"
    );

    let e = ClearModelError::file_operation(
        "delete failed".to_string(),
        Some(FsPath::parse("/srv/x")),
    );
    assert_eq!(e.message(), "File operation error: delete failed (path: /srv/x)");

    let e = ClearModelError::security("nope".to_string());
    assert_eq!(e.message(), "Security validation failed: nope");
}
