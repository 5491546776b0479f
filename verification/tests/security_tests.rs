use clearmodel::errors::ClearModelError;
use clearmodel::path_model::FsPath;
use clearmodel::security::SecurityManager;

fn cwd() -> FsPath {
    FsPath::parse("/")
}

#[test]
fn test_path_traversal_prevention() {
    let base = FsPath::parse("/srv/clearmodel_base");

    let malicious_paths = [
        "../../../etc/passwd",
        "cache/../../../home/user",
        "/etc/passwd",
        "normal/../../etc/shadow",
    ];

    for malicious in &malicious_paths {
        let path = base.join(&FsPath::parse(malicious));
        let result = SecurityManager::validate_and_sanitize_path(&path, &base, &cwd());
        assert!(result.is_err(), "Should reject malicious path: {}", malicious);
    }
}

#[test]
fn test_valid_paths() {
    let base = FsPath::parse("/srv/clearmodel_base");

    let valid_paths = ["cache", "cache/models", "cache/huggingface/transformers"];

    for valid in &valid_paths {
        let path = base.join(&FsPath::parse(valid));
        let result = SecurityManager::validate_and_sanitize_path(&path, &base, &cwd());
        assert!(result.is_ok(), "Should accept valid path: {}", valid);
    }
}

#[test]
fn test_traversal_error_kind() {
    // A root that resolves outside its declared base via `..` is refused
    // with a traversal error before anything is walked or deleted.
    let base = FsPath::parse("/srv/clearmodel_base");
    let escaping = base.join(&FsPath::parse("../outside"));
    match SecurityManager::validate_and_sanitize_path(&escaping, &base, &cwd()) {
        Err(ClearModelError::PathTraversal { path }) => {
            assert_eq!(path.to_text(), "/srv/outside");
        }
        other => panic!("expected a traversal error, got {:?}", other),
    }
}

#[test]
fn test_validated_path_is_canonical() {
    // A path lexically inside the base comes back canonical and inside it.
    let base = FsPath::parse("/srv/clearmodel_base");
    let p = base.join(&FsPath::parse("x/./y"));
    let validated = SecurityManager::validate_and_sanitize_path(&p, &base, &cwd()).unwrap();
    assert_eq!(validated.to_text(), "/srv/clearmodel_base/x/y");
    assert!(validated.starts_with(&base));
}

#[test]
fn test_suspicious_component_rejected() {
    // A name that smuggles `..` inside survives cleaning but is refused.
    let base = FsPath::parse("/srv/clearmodel_base");
    let p = base.join(&FsPath::parse("evil..name/file"));
    match SecurityManager::validate_and_sanitize_path(&p, &base, &cwd()) {
        Err(ClearModelError::Security { .. }) => {}
        other => panic!("expected a security error, got {:?}", other),
    }
}

#[test]
fn test_deletion_safety_blocklist() {
    // Blocklisted paths, and paths one segment inside them, are refused.
    for bad in &["/", "/etc", "/usr", "/var/log", "/var/log/syslog", "/etc/passwd", "/tmp"] {
        let r = SecurityManager::validate_deletion_safety(&FsPath::parse(bad));
        assert!(r.is_err(), "should refuse deletion under {}", bad);
    }
    // Deeper paths and relative paths pass this particular gate.
    for ok in &["/var/log/app/x", "/home/user/.cache", "etc"] {
        let r = SecurityManager::validate_deletion_safety(&FsPath::parse(ok));
        assert!(r.is_ok(), "should allow deletion under {}", ok);
    }
}

#[test]
fn test_user_data_gate() {
    // The hard gate rejects user-data folders even inside an allowed base.
    let base = FsPath::parse("/home/user");
    let p = base.join(&FsPath::parse("Documents/archive"));
    assert!(
        SecurityManager::validate_and_sanitize_path(&p, &base, &cwd()).is_ok(),
        "the base check alone accepts the path"
    );
    match SecurityManager::validate_cache_path(&p) {
        Err(ClearModelError::Security { .. }) => {}
        other => panic!("expected a security error, got {:?}", other),
    }
    assert!(SecurityManager::validate_cache_path(&FsPath::parse("/home/user/.cache/torch")).is_ok());
}

#[test]
fn test_looks_like_cache() {
    assert!(SecurityManager::looks_like_cache(&FsPath::parse("/home/u/.cache/torch")));
    assert!(SecurityManager::looks_like_cache(&FsPath::parse("/opt/Models")));
    assert!(!SecurityManager::looks_like_cache(&FsPath::parse("/home/u/projects")));
}

#[test]
fn test_create_secure_utf8_path() {
    let base = FsPath::parse("/srv/clearmodel_base");
    // Separators are stripped from the candidate name before joining.
    let r = SecurityManager::create_secure_utf8_path("a/b", &base, &cwd()).unwrap();
    assert_eq!(r.to_text(), "/srv/clearmodel_base/ab");
    // A pure-dots name is emptied, leaving the base itself.
    let r = SecurityManager::create_secure_utf8_path("..", &base, &cwd()).unwrap();
    assert_eq!(r.to_text(), "/srv/clearmodel_base");
    // An ordinary name passes through.
    let r = SecurityManager::create_secure_utf8_path("notes.txt", &base, &cwd()).unwrap();
    assert_eq!(r.to_text(), "/srv/clearmodel_base/notes.txt");
}
