use trending::dom::{attr_lookup, collect_tag, find_tag, normalize_text, DomNode};
use trending::text::{
    parse_grouped_integer, remove_commas, resolve_url, strip_at_marker, strip_slash_prefix, trim,
};

#[test]
fn parse_grouped_integer_with_separators_and_suffix() {
    assert_eq!(parse_grouped_integer("1,234 stars today"), Some(1234));
}

#[test]
fn parse_grouped_integer_plain() {
    assert_eq!(parse_grouped_integer(" 56 "), Some(56));
}

#[test]
fn parse_grouped_integer_many_separators() {
    assert_eq!(parse_grouped_integer("1,234,567"), Some(1234567));
}

#[test]
fn parse_grouped_integer_leading_zeros() {
    assert_eq!(parse_grouped_integer("007"), Some(7));
}

#[test]
fn parse_grouped_integer_empty_is_none() {
    assert_eq!(parse_grouped_integer(""), None);
    assert_eq!(parse_grouped_integer("   "), None);
}

#[test]
fn parse_grouped_integer_non_numeric_is_none() {
    assert_eq!(parse_grouped_integer("lots"), None);
    assert_eq!(parse_grouped_integer("12abc"), None);
}

#[test]
fn parse_grouped_integer_bounds() {
    assert_eq!(parse_grouped_integer("4,294,967,295"), Some(u32::MAX));
    assert_eq!(parse_grouped_integer("4294967296"), None);
}

#[test]
fn remove_commas_only_touches_commas() {
    assert_eq!(remove_commas("1,2,3 x,y"), "123 xy");
}

#[test]
fn resolve_url_joins_relative() {
    assert_eq!(
        resolve_url("https://github.com", "/octocat/Hello-World"),
        "https://github.com/octocat/Hello-World"
    );
}

#[test]
fn resolve_url_is_idempotent() {
    let once = resolve_url("https://github.com", "/a/b");
    let twice = resolve_url("https://github.com", &once);
    assert_eq!(once, twice);
    assert_eq!(twice, "https://github.com/a/b");
}

#[test]
fn trim_strips_edges_only() {
    assert_eq!(trim("  a  b\n\t"), "a  b");
    assert_eq!(trim("\r\n"), "");
    assert_eq!(trim("x"), "x");
}

#[test]
fn strip_at_marker_strips_one_leading_sigil() {
    assert_eq!(strip_at_marker("@alice"), "alice");
    assert_eq!(strip_at_marker("alice"), "alice");
    assert_eq!(strip_at_marker("@@a"), "@a");
    assert_eq!(strip_at_marker("a@b"), "a@b");
}

#[test]
fn strip_slash_prefix_strips_leading_run() {
    assert_eq!(strip_slash_prefix("/Hello-World"), "Hello-World");
    assert_eq!(strip_slash_prefix("//x"), "x");
    assert_eq!(strip_slash_prefix("abc"), "abc");
    assert_eq!(strip_slash_prefix("///"), "");
}

fn text_node(text: &str, at: usize) -> DomNode {
    DomNode { tag: String::new(), attrs: Vec::new(), text: text.to_string(), end: at + 1 }
}

fn element(tag: &str, attrs: &[(&str, &str)], end: usize) -> DomNode {
    DomNode {
        tag: tag.to_string(),
        attrs: attrs.iter().map(|kv| (kv.0.to_string(), kv.1.to_string())).collect(),
        text: String::new(),
        end,
    }
}

#[test]
fn normalize_text_trims_runs_and_joins() {
    let nodes = vec![
        element("p", &[], 4),
        text_node("  Hello\n ", 1),
        element("em", &[], 4),
        text_node(" World ", 3),
    ];
    assert_eq!(normalize_text(&nodes, 0), "HelloWorld");
}

#[test]
fn find_tag_returns_first_in_document_order() {
    let nodes = vec![
        element("div", &[], 3),
        element("span", &[], 2),
        element("span", &[], 3),
    ];
    assert_eq!(find_tag(&nodes, 1, 3, "span"), Some(1));
    assert_eq!(find_tag(&nodes, 1, 3, "img"), None);
}

#[test]
fn collect_tag_keeps_document_order() {
    let nodes = vec![
        element("div", &[], 4),
        element("div", &[], 3),
        element("span", &[], 3),
        element("div", &[], 4),
    ];
    assert_eq!(collect_tag(&nodes, 0, 4, "div"), vec![0, 1, 3]);
}

#[test]
fn attr_lookup_finds_first_matching_key() {
    let attrs: Vec<(String, String)> = vec![
        ("class".to_string(), "Box-row".to_string()),
        ("id".to_string(), "x".to_string()),
    ];
    assert_eq!(attr_lookup(&attrs, "id"), Some("x".to_string()));
    assert_eq!(attr_lookup(&attrs, "href"), None);
}

#[test]
fn nth_tag_selects_by_position() {
    let nodes = vec![
        element("div", &[], 4),
        element("div", &[], 3),
        element("span", &[], 3),
        element("div", &[], 4),
    ];
    assert_eq!(trending::dom::nth_tag(&nodes, 0, 4, "div", 2), Some(3));
    assert_eq!(trending::dom::nth_tag(&nodes, 0, 4, "div", 3), None);
}
