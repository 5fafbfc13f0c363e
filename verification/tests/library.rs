//! Texts, ordered maps, JSON, markup and paths.

use asc_sync::json::{array, text, Json, Members};
use asc_sync::markup::{html_escape, xml_escape};
use asc_sync::ordered::{place, same_texts, OrderedMap, Place, StringSet};
use asc_sync::paths::{join_path, path_extension, path_file_name, path_stem};
use asc_sync::ranked::RankedMap;
use asc_sync::scope::Scope;
use asc_sync::text::{
    contains, decimal_text, ends_with, is_blank, join, pad, parse_number, replace, split,
    starts_with, strip_both, strip_end, strip_prefixes, to_lower, trim, trim_end, trim_start,
};

#[test]
fn texts_are_cut_and_joined() {
    assert_eq!(trim("\u{2003} a b \n"), "a b");
    assert_eq!(trim_start("  a "), "a ");
    assert_eq!(trim_end("  a "), "  a");
    assert!(is_blank(" \t\u{a0}"));
    assert!(!is_blank("\u{200b}"));
    assert_eq!(split("a,,b", ','), vec!["a", "", "b"]);
    assert_eq!(join(&vec!["a".to_string(), "b".to_string()], ", "), "a, b");
    assert_eq!(replace("aXbX", "X", "--"), "a--b--");
    assert_eq!(replace("aaa", "aa", "b"), "ba");
    assert_eq!(strip_end("a//", '/'), "a");
    assert_eq!(strip_both("--a-b--", '-'), "a-b");
    assert_eq!(strip_prefixes("../../a", "../"), "a");
    assert!(starts_with("abc", "ab") && ends_with("abc", "bc") && contains("abc", "b"));
    assert_eq!(to_lower("A\u{c4}b"), "a\u{c4}b");
    assert_eq!(pad("ab", 4), "ab  ");
    assert_eq!(pad("abcde", 4), "abcde");
}

#[test]
fn numbers_are_written_and_read() {
    assert_eq!(decimal_text(0), "0");
    assert_eq!(decimal_text(u64::MAX), "18446744073709551615");
    assert_eq!(parse_number("+12", 100), Some(12));
    assert_eq!(parse_number("101", 100), None);
    assert_eq!(parse_number("", 100), None);
    assert_eq!(parse_number("1a", 100), None);
    assert_eq!(parse_number("18446744073709551616", u64::MAX), None);
}

#[test]
fn maps_keep_the_order_of_their_keys() {
    let mut map = OrderedMap::new();
    map.insert("b".to_string(), 1);
    map.insert("a".to_string(), 2);
    map.insert("b".to_string(), 3);
    assert_eq!(map.len(), 2);
    assert_eq!((map.key_at(0).as_str(), *map.value_at(0)), ("a", 2));
    assert_eq!(map.get("b"), Some(&3));
    map.remove("a");
    assert!(!map.contains_key("a"));
    assert_eq!(place("a", "b"), Place::Before);
    assert_eq!(place("\u{e4}", "z"), Place::After);
    assert_eq!(place("a", "a"), Place::Same);
}

#[test]
fn sets_are_compared() {
    let set = |items: &[&str]| {
        let mut set = StringSet::new();
        for item in items {
            set.insert(item.to_string());
        }
        set
    };
    assert!(set(&["a"]).is_subset(&set(&["b", "a"])));
    assert!(!set(&["c"]).is_subset(&set(&["b", "a"])));
    assert!(set(&["a", "b"]).same_as(&set(&["b", "a", "b"])));
    assert_eq!(set(&["b", "a"]).sorted(), vec!["a", "b"]);
    let mut one = OrderedMap::new();
    one.insert("k".to_string(), "v".to_string());
    assert!(!same_texts(&one, &OrderedMap::new()));
}

#[test]
fn ranked_maps_keep_the_order_of_their_ranks() {
    let mut map = RankedMap::new();
    map.insert(Scope::Release, 2);
    map.insert(Scope::Developer, 1);
    assert_eq!(map.key_at(0), Scope::Developer);
    assert_eq!(*map.value_at(1), 2);
    assert_eq!(map.get(Scope::Release), Some(&2));
}

#[test]
fn json_is_compared_by_what_it_holds() {
    let mut members = Members::new();
    members.put("a", text("x"));
    members.put("b", array(vec![Json::Bool(true), Json::Null]));
    let value = members.into_json();
    assert!(value.same_as(&value.copy()));
    assert!(!value.same_as(&text("x")));
    assert_eq!(value.get("a").unwrap().as_str(), Some("x"));
    assert_eq!(value.get("c").map(|v| v.is_null()), None);
}

#[test]
fn markup_is_escaped() {
    assert_eq!(xml_escape("<a & 'b' \"c\">"), "&lt;a &amp; &apos;b&apos; &quot;c&quot;&gt;");
    assert_eq!(html_escape("<a & 'b' \"c\">"), "&lt;a &amp; &#39;b&#39; &quot;c&quot;&gt;");
    assert_eq!(xml_escape("plain"), "plain");
    assert_ne!(html_escape("<"), html_escape("&lt;"));
}

#[test]
fn paths_have_parts() {
    assert_eq!(join_path("/a", "b"), "/a/b");
    assert_eq!(join_path("/a/", "b"), "/a/b");
    assert_eq!(join_path("/a", "/b"), "/b");
    assert_eq!(path_file_name("a/b.png").as_deref(), Some("b.png"));
    assert_eq!(path_file_name("a/..").as_deref(), None);
    assert_eq!(path_extension("a/b.tar.gz").as_deref(), Some("gz"));
    assert_eq!(path_extension("a/.hidden").as_deref(), None);
    assert_eq!(path_stem("a/b.tar.gz").as_deref(), Some("b.tar"));
}
