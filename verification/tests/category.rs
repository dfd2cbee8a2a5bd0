use spai::security_tools::SecurityCategory;

#[test]
fn test_security_category_display() {
    assert_eq!(SecurityCategory::Network.to_string(), "network");
    assert_eq!(SecurityCategory::Rootkit.to_string(), "rootkit");
}

#[test]
fn every_category_has_its_lower_case_label() {
    assert_eq!(SecurityCategory::Process.as_str(), "process");
    assert_eq!(SecurityCategory::Hardening.as_str(), "hardening");
    assert_eq!(SecurityCategory::Filesystem.as_str(), "filesystem");
    assert_eq!(SecurityCategory::General.as_str(), "general");
}

#[test]
fn default_category_is_general() {
    assert_eq!(SecurityCategory::default(), SecurityCategory::General);
}

#[test]
fn parse_reads_each_label_back() {
    let all = [
        SecurityCategory::Network,
        SecurityCategory::Process,
        SecurityCategory::Rootkit,
        SecurityCategory::Hardening,
        SecurityCategory::Filesystem,
        SecurityCategory::General,
    ];
    for c in all {
        assert_eq!(SecurityCategory::parse(c.as_str()), Some(c));
    }
}

#[test]
fn parse_is_exact() {
    assert_eq!(SecurityCategory::parse("Network"), None);
    assert_eq!(SecurityCategory::parse("net"), None);
    assert_eq!(SecurityCategory::parse(""), None);
    assert_eq!(SecurityCategory::parse("network "), None);
}
