use linkcheck::permalinks::PermalinkTable;
use linkcheck::site::{check_page_for_anchor, get_reading_analytics, resolve_internal_link};
use linkcheck::site::LinkError;

#[test]
fn can_resolve_valid_internal_link() {
    let mut permalinks = PermalinkTable::new();
    permalinks.insert("pages/about.md".to_string(), "https://vincent.is/about".to_string());
    let res = resolve_internal_link("@/pages/about.md", &permalinks).unwrap();
    assert_eq!(res.permalink, "https://vincent.is/about");
}

#[test]
fn can_resolve_valid_root_internal_link() {
    let mut permalinks = PermalinkTable::new();
    permalinks.insert("about.md".to_string(), "https://vincent.is/about".to_string());
    let res = resolve_internal_link("@/about.md", &permalinks).unwrap();
    assert_eq!(res.permalink, "https://vincent.is/about");
}

#[test]
fn can_resolve_internal_links_with_anchors() {
    let mut permalinks = PermalinkTable::new();
    permalinks.insert("pages/about.md".to_string(), "https://vincent.is/about".to_string());
    let res = resolve_internal_link("@/pages/about.md#hello", &permalinks).unwrap();
    assert_eq!(res.permalink, "https://vincent.is/about#hello");
    assert_eq!(res.md_path, "pages/about.md".to_string());
    assert_eq!(res.anchor, Some("hello".to_string()));
}

#[test]
fn can_resolve_escaped_internal_links() {
    let mut permalinks = PermalinkTable::new();
    permalinks.insert(
        "pages/about space.md".to_string(),
        "https://vincent.is/about%20space/".to_string(),
    );
    let res = resolve_internal_link("@/pages/about%20space.md#hello", &permalinks).unwrap();
    assert_eq!(res.permalink, "https://vincent.is/about%20space/#hello");
    assert_eq!(res.md_path, "pages/about space.md".to_string());
    assert_eq!(res.anchor, Some("hello".to_string()));
}

#[test]
fn errors_resolve_inexistant_internal_link() {
    let res = resolve_internal_link("@/pages/about.md#hello", &PermalinkTable::new());
    assert!(res.is_err());
}

#[test]
fn can_resolve_link_without_marker() {
    let mut permalinks = PermalinkTable::new();
    permalinks.insert("about.md".to_string(), "https://vincent.is/about".to_string());
    let res = resolve_internal_link("about.md", &permalinks).unwrap();
    assert_eq!(res.permalink, "https://vincent.is/about");
    assert_eq!(res.md_path, "about.md".to_string());
    assert_eq!(res.anchor, None);
}

#[test]
fn resolve_keeps_everything_after_first_hash_as_anchor() {
    let mut permalinks = PermalinkTable::new();
    permalinks.insert("a.md".to_string(), "https://vincent.is/a".to_string());
    let res = resolve_internal_link("@/a.md#x#y", &permalinks).unwrap();
    assert_eq!(res.permalink, "https://vincent.is/a#x#y");
    assert_eq!(res.anchor, Some("x#y".to_string()));
}

#[test]
fn resolve_failure_carries_the_raw_link() {
    let res = resolve_internal_link("@/missing.md", &PermalinkTable::new());
    match res {
        Err(LinkError::LinkNotFound { link }) => assert_eq!(link, "@/missing.md"),
        _ => panic!("expected LinkNotFound"),
    }
}

#[test]
fn reading_analytics_empty_text() {
    let (word_count, reading_time) = get_reading_analytics("  ");
    assert_eq!(word_count, 0);
    assert_eq!(reading_time, 0);
}

#[test]
fn reading_analytics_short_text() {
    let (word_count, reading_time) = get_reading_analytics("Hello World");
    assert_eq!(word_count, 2);
    assert_eq!(reading_time, 1);
}

#[test]
fn reading_analytics_long_text() {
    let mut content = String::new();
    for _ in 0..1000 {
        content.push_str(" Hello world");
    }
    let (word_count, reading_time) = get_reading_analytics(&content);
    assert_eq!(word_count, 2000);
    assert_eq!(reading_time, 10);
}

#[test]
fn reading_analytics_one_word_over_boundary() {
    let mut content = String::new();
    for _ in 0..1000 {
        content.push_str(" Hello world");
    }
    content.push_str(" again");
    let (word_count, reading_time) = get_reading_analytics(&content);
    assert_eq!(word_count, 2001);
    assert_eq!(reading_time, 11);
}

#[test]
fn can_validate_anchors_with_double_quotes() {
    let url = "https://doc.rust-lang.org/std/iter/trait.Iterator.html#method.collect";
    let body = "<body><h3 id=\"method.collect\">collect</h3></body>".to_string();
    let res = check_page_for_anchor(url, &body);
    assert!(res.is_ok());
}

#[test]
fn can_validate_anchors_in_capital() {
    let url = "https://doc.rust-lang.org/std/iter/trait.Iterator.html#method.collect";
    let body = "<body><h3 ID=\"method.collect\">collect</h3></body>".to_string();
    let res = check_page_for_anchor(url, &body);
    assert!(res.is_ok());
}

#[test]
fn can_validate_anchors_with_single_quotes() {
    let url = "https://doc.rust-lang.org/std/iter/trait.Iterator.html#method.collect";
    let body = "<body><h3 id='method.collect'>collect</h3></body>".to_string();
    let res = check_page_for_anchor(url, &body);
    assert!(res.is_ok());
}

#[test]
fn can_validate_anchors_without_quotes() {
    let url = "https://doc.rust-lang.org/std/iter/trait.Iterator.html#method.collect";
    let body = "<body><h3 id=method.collect>collect</h3></body>".to_string();
    let res = check_page_for_anchor(url, &body);
    assert!(res.is_ok());
}

#[test]
fn can_validate_anchors_with_name_attr() {
    let url = "https://doc.rust-lang.org/std/iter/trait.Iterator.html#method.collect";
    let body = "<body><h3 name=\"method.collect\">collect</h3></body>".to_string();
    let res = check_page_for_anchor(url, &body);
    assert!(res.is_ok());
}

#[test]
fn can_fail_when_anchor_not_found() {
    let url = "https://doc.rust-lang.org/std/iter/trait.Iterator.html#me";
    let body = "<body><h3 id=\"method.collect\">collect</h3></body>".to_string();
    let res = check_page_for_anchor(url, &body);
    assert!(res.is_err());
}

#[test]
fn url_without_hash_is_a_bare_anchor_name() {
    let body = "<body><h3 id=\"method.collect\">collect</h3></body>".to_string();
    let res = check_page_for_anchor("method.collect", &body);
    assert!(res.is_ok());
}

#[test]
fn anchor_failure_carries_the_anchor_name() {
    let body = "<body></body>".to_string();
    let res = check_page_for_anchor("https://x.example/page#intro", &body);
    match res {
        Err(LinkError::AnchorNotFound { anchor }) => assert_eq!(anchor, "intro"),
        _ => panic!("expected AnchorNotFound"),
    }
}

#[test]
fn anchor_with_uppercase_name_attr_is_found() {
    let body = "<body><h3 NAME='intro'>intro</h3></body>".to_string();
    let res = check_page_for_anchor("#intro", &body);
    assert!(res.is_ok());
}

#[test]
fn anchor_with_spaces_around_equals_is_not_matched() {
    let body = "<body><h3 id = \"intro\">intro</h3></body>".to_string();
    let res = check_page_for_anchor("#intro", &body);
    assert!(res.is_err());
}
