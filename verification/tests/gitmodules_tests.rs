use cargo_vendormod::gitmodules_metadata::{GitConfig, GitmodulesData};

#[test]
fn test_parse_empty() {
    let data = GitmodulesData::parse("").unwrap();
    assert_eq!(data.total_count, 0);
}

#[test]
fn test_parse_simple() {
    let content = "[submodule \"test\"]\n\tpath = test\n\turl = https://example.com/test.git\n";
    let data = GitmodulesData::parse(content).unwrap();
    assert_eq!(data.total_count, 1);
    assert!(data.submodules.contains_key("test"));
}

#[test]
fn test_git_config_parse() {
    let content = "[core]\n\trepositoryformatversion = 0\n\tbare = false\n";
    let config = GitConfig::parse(content).unwrap();
    assert!(config.sections.contains_key("core"));
    assert_eq!(config.get("core", "bare"), Some(&"false".to_string()));
}

#[test]
fn test_attribute_tracking() {
    let content = "[submodule \"test\"]\n\tpath = test\n\turl = https://example.com/test.git\n";
    let mut data = GitmodulesData::parse(content).unwrap();
    data.set_attribute("test", "language", "rust");
    data.set_attribute("test", "type", "library");

    let found = data.find_by_attribute("language");
    assert_eq!(found.len(), 1);
    assert_eq!(found[0].tracked_attributes.get("language"), Some(&"rust".to_string()));
}

#[test]
fn set_attribute_on_unknown_submodule_changes_nothing() {
    let content = "[submodule \"a\"]\n\tpath = a\n\turl = u\n";
    let mut data = GitmodulesData::parse(content).unwrap();
    assert!(!data.set_attribute("missing", "k", "v"));
    assert_eq!(data.find_by_attribute("k").len(), 0);
}

#[test]
fn consecutive_sections_are_all_kept() {
    let content = "[submodule \"a\"]\n\tpath = a\n\turl = https://x/a.git\n[submodule \"b\"]\n\tpath = b\n\turl = https://x/b.git\n";
    let data = GitmodulesData::parse(content).unwrap();
    assert_eq!(data.total_count, 2);
    let a = data.submodules.get("a").unwrap();
    assert_eq!(a.path, "a");
    assert_eq!(a.url, "https://x/a.git");
    let b = data.submodules.get("b").unwrap();
    assert_eq!(b.path, "b");
    assert_eq!(b.url, "https://x/b.git");
}

#[test]
fn rendered_section_parses_back() {
    let config = GitConfig::parse("[core]\nbare = false\n").unwrap();
    assert_eq!(config.get("core", "bare"), Some(&"false".to_string()));
    let config = GitConfig::parse("[s]\nk = \n").unwrap();
    assert_eq!(config.get("s", "k"), Some(&String::new()));
}
