use kinetix_plugins::json::Json;
use kinetix_plugins::text::{
    chars_of, has_prefix, has_suffix, remove_prefix, str_less, to_decimal, trim_end_matches,
    trim_start_matches, trim_str,
};

#[test]
fn trimming_follows_unicode_whitespace() {
    assert_eq!(trim_str("\u{3000}\t a b \u{85}\n"), "a b");
    assert_eq!(trim_str("   "), "");
    assert_eq!(trim_str("x\u{200B}"), "x\u{200B}");
    assert_eq!(trim_start_matches("//a/", '/'), "a/");
    assert_eq!(trim_end_matches("/a//", '/'), "/a");
}

#[test]
fn prefixes_and_suffixes() {
    assert!(has_prefix("muse-spark-1", "muse-spark-"));
    assert!(!has_prefix("muse", "muse-spark-"));
    assert!(has_suffix("x-free", "-free"));
    assert!(!has_suffix("free", "-free"));
    assert_eq!(remove_prefix("models/a", "models/").as_deref(), Some("a"));
    assert_eq!(remove_prefix("a", "models/"), None);
    assert_eq!(chars_of("hé"), vec!['h', 'é']);
}

#[test]
fn strings_order_like_str() {
    for (a, b) in [("a", "b"), ("a", "ab"), ("", "a"), ("Z", "a"), ("é", "z"), ("b", "a"), ("a", "a")] {
        assert_eq!(str_less(a, b), a < b, "{a} < {b}");
    }
}

#[test]
fn decimal_numbers() {
    assert_eq!(to_decimal(0), "0");
    assert_eq!(to_decimal(429), "429");
    assert_eq!(to_decimal(u64::MAX), u64::MAX.to_string());
}

#[test]
fn inserting_into_an_object() {
    let mut o = Json::Object(vec![("a".to_string(), Json::Bool(true))]);
    o.insert("b".to_string(), Json::Null);
    o.insert("a".to_string(), Json::Bool(false));
    assert_eq!(o.get_bool("a"), Some(false));
    assert!(matches!(o.get("b"), Some(Json::Null)));
    let mut n = Json::Null;
    n.insert("a".to_string(), Json::Null);
    assert!(matches!(n, Json::Null));
}
