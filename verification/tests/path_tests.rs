use clearmodel::path_model::FsPath;

#[test]
fn test_parse_and_render() {
    let p = FsPath::parse("/a//b/./../c");
    assert!(p.absolute);
    assert_eq!(p.comps.len(), 5);
    assert_eq!(p.clean().to_text(), "/a/c");

    let rel = FsPath::parse("a/../../b");
    assert!(!rel.absolute);
    assert_eq!(rel.clean().to_text(), "../b");

    assert_eq!(FsPath::parse("").to_text(), "");
    assert_eq!(FsPath::parse("/").to_text(), "/");
    assert_eq!(FsPath::parse("/usr/").clean().to_text(), "/usr");
}

#[test]
fn test_join_semantics() {
    let base = FsPath::parse("/srv/data");
    let rel = FsPath::parse("x/y");
    assert_eq!(base.join(&rel).to_text(), "/srv/data/x/y");

    let abs = FsPath::parse("/etc/passwd");
    assert_eq!(base.join(&abs).to_text(), "/etc/passwd");
}

#[test]
fn test_starts_with() {
    let base = FsPath::parse("/srv/data");
    assert!(FsPath::parse("/srv/data/x").starts_with(&base));
    assert!(FsPath::parse("/srv/data").starts_with(&base));
    assert!(!FsPath::parse("/srv/other").starts_with(&base));
    assert!(!FsPath::parse("srv/data/x").starts_with(&base));
}

#[test]
fn test_extension_rules() {
    assert_eq!(FsPath::parse("/x/a.tar.gz").extension(), Some("gz".to_string()));
    assert_eq!(FsPath::parse("/x/.bashrc").extension(), None);
    assert_eq!(FsPath::parse("/x/a.").extension(), Some("".to_string()));
    assert_eq!(FsPath::parse("/x/plain").extension(), None);
}

#[test]
fn test_parent_and_child() {
    let p = FsPath::parse("/a/b/c");
    assert_eq!(p.parent().to_text(), "/a/b");
    assert_eq!(p.child(&"d".to_string()).to_text(), "/a/b/c/d");
    assert_eq!(p.parent_name(), Some(&"b".to_string()));
    assert_eq!(p.file_name(), Some(&"c".to_string()));
}
