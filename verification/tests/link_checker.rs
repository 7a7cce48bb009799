use linkcheck::link_checker::{CheckDecision, LinkChecker, LinkCheckerLevel};

#[test]
fn default_level_is_error() {
    assert_eq!(LinkCheckerLevel::default(), LinkCheckerLevel::ErrorLevel);
}

#[test]
fn log_prefix_names_the_severity() {
    assert_eq!(LinkCheckerLevel::ErrorLevel.log_prefix(), "Error: ");
    assert_eq!(LinkCheckerLevel::WarnLevel.log_prefix(), "Warning: ");
}

#[test]
fn as_str_is_the_serialized_form() {
    assert_eq!(LinkCheckerLevel::ErrorLevel.as_str(), "error");
    assert_eq!(LinkCheckerLevel::WarnLevel.as_str(), "warn");
}

#[test]
fn default_policy_checks_everything_as_error() {
    let policy = LinkChecker::default();
    assert!(policy.skip_prefixes.is_empty());
    assert!(policy.skip_anchor_prefixes.is_empty());
    assert_eq!(
        policy.should_check("https://example.org/a", false),
        CheckDecision::Check(LinkCheckerLevel::ErrorLevel)
    );
    assert_eq!(
        policy.should_check("https://example.org/a", true),
        CheckDecision::Check(LinkCheckerLevel::ErrorLevel)
    );
    assert!(policy.should_check_anchor("https://example.org/a"));
}

#[test]
fn skip_prefix_exempts_from_existence_checking() {
    let mut policy = LinkChecker::default();
    policy.skip_prefixes.push("https://skipped.example/".to_string());
    let url = "https://skipped.example/deep/page";
    assert_eq!(policy.should_check(url, false), CheckDecision::Skip);
    assert_eq!(policy.should_check(url, true), CheckDecision::Skip);
    // the anchor exemption is independent and not granted here
    assert!(policy.should_check_anchor(url));
}

#[test]
fn url_equal_to_a_skip_prefix_is_exempt() {
    let mut policy = LinkChecker::default();
    policy.skip_prefixes.push("https://skipped.example/page".to_string());
    assert_eq!(policy.should_check("https://skipped.example/page", false), CheckDecision::Skip);
}

#[test]
fn anchor_prefix_exempts_only_the_anchor_check() {
    let mut policy = LinkChecker::default();
    policy.internal_level = LinkCheckerLevel::WarnLevel;
    policy.skip_anchor_prefixes.push("https://partial.example/".to_string());
    let url = "https://partial.example/page#frag";
    assert_eq!(policy.should_check(url, false), CheckDecision::Check(LinkCheckerLevel::WarnLevel));
    assert!(!policy.should_check_anchor(url));
}

#[test]
fn severity_follows_the_origin_of_the_link() {
    let mut policy = LinkChecker::default();
    policy.internal_level = LinkCheckerLevel::WarnLevel;
    let url = "https://example.org/a";
    assert_eq!(policy.should_check(url, false), CheckDecision::Check(LinkCheckerLevel::WarnLevel));
    assert_eq!(policy.should_check(url, true), CheckDecision::Check(LinkCheckerLevel::ErrorLevel));
}

#[test]
fn non_matching_prefix_does_not_exempt() {
    let mut policy = LinkChecker::default();
    policy.skip_prefixes.push("https://skipped.example/".to_string());
    assert_eq!(
        policy.should_check("https://other.example/page", false),
        CheckDecision::Check(LinkCheckerLevel::ErrorLevel)
    );
}
