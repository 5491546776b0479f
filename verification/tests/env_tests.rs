use clearmodel::environment::{parse_i32, EnvRegistry, EnvVarConfig};
use clearmodel::errors::ClearModelError;

#[test]
fn test_env_var_parsing() {
    let manager = EnvRegistry { entries: Vec::new() };

    assert_eq!(manager.get_env_var_as_int("TEST_INT", Some("42".to_string()), 0), 42);
    assert_eq!(manager.get_env_var_as_bool("TEST_BOOL", Some("true".to_string()), false), true);
    assert_eq!(manager.get_env_var_as_bool("NONEXISTENT", None, true), true);
}

#[test]
fn test_registry_contents() {
    let registry = EnvRegistry::create_env_registry();
    let sudo = registry.get("SUDO_PASSWORD").unwrap();
    assert!(!sudo.required);
    assert_eq!(sudo.default, "");
    assert_eq!(registry.get("CACHE_RETENTION_DAYS").unwrap().default, "7");
    assert!(registry.get("NO_SUCH_VARIABLE").is_none());
    assert_eq!(registry.get_registry().len(), 5);
}

#[test]
fn test_defaults_fill_in() {
    let registry = EnvRegistry::create_env_registry();
    // A nonempty default stands in for an unset variable.
    assert_eq!(
        registry.get_env_var("CACHE_RETENTION_DAYS", None),
        Some("7".to_string())
    );
    assert_eq!(registry.get_env_var_as_int("CACHE_RETENTION_DAYS", None, 0), 7);
    // An empty default does not.
    assert_eq!(registry.get_env_var("SUDO_PASSWORD", None), None);
    // The ambient value wins over the default.
    assert_eq!(
        registry.get_env_var("CACHE_RETENTION_DAYS", Some("30".to_string())),
        Some("30".to_string())
    );
}

#[test]
fn test_parse_i32_edges() {
    assert_eq!(parse_i32("42"), Some(42));
    assert_eq!(parse_i32("+7"), Some(7));
    assert_eq!(parse_i32("-13"), Some(-13));
    assert_eq!(parse_i32("-0"), Some(0));
    assert_eq!(parse_i32("00042"), Some(42));
    assert_eq!(parse_i32("2147483647"), Some(i32::MAX));
    assert_eq!(parse_i32("-2147483648"), Some(i32::MIN));
    assert_eq!(parse_i32("2147483648"), None);
    assert_eq!(parse_i32("-2147483649"), None);
    assert_eq!(parse_i32("99999999999999999999999"), None);
    assert_eq!(parse_i32(""), None);
    assert_eq!(parse_i32("-"), None);
    assert_eq!(parse_i32("12a"), None);
    assert_eq!(parse_i32(" 12"), None);
}

#[test]
fn test_bool_parsing_variants() {
    let registry = EnvRegistry { entries: Vec::new() };
    for yes in ["true", "TRUE", "1", "yes", "Yes", "on", "ON"] {
        assert!(registry.get_env_var_as_bool("K", Some(yes.to_string()), false), "{}", yes);
    }
    for no in ["false", "0", "off", "nope", ""] {
        assert!(!registry.get_env_var_as_bool("K", Some(no.to_string()), true), "{}", no);
    }
}

#[test]
fn test_validate_environment() {
    // The shipped registry requires nothing, so an empty environment is fine.
    let registry = EnvRegistry::create_env_registry();
    let present = vec![false; registry.get_registry().len()];
    assert!(registry.validate_environment(&present).is_ok());

    // A required variable that is absent fails; present, it passes.
    let strict = EnvRegistry {
        entries: vec![(
            "API_TOKEN".to_string(),
            EnvVarConfig {
                required: true,
                description: "token for the remote service".to_string(),
                default: "".to_string(),
            },
        )],
    };
    match strict.validate_environment(&vec![false]) {
        Err(ClearModelError::Environment { .. }) => {}
        other => panic!("expected an environment error, got {:?}", other),
    }
    assert!(strict.validate_environment(&vec![true]).is_ok());
}
