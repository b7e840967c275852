use orchd::collections::{list_has, StringMap, StringSet};
use orchd::paths::{extension_of, join, stem_of};
use orchd::platform::launchd::plist::{render, xml_escape, Scalar, Value};
use orchd::platform::systemd::unit::escape_bash;
use orchd::text::chars::{to_lowercase, same_text};
use orchd::text::number::{decimal_of, parse_i32, parse_u32};
use orchd::text::order::{is_le, sort_texts};
use orchd::text::scan::{
    contains, ends_with, split_lines, split_words, starts_with, strip_prefix, strip_suffix, trim,
    trim_end_matches,
};

fn texts(list: &[&str]) -> Vec<String> {
    list.iter().map(|s| s.to_string()).collect()
}

#[test]
fn a_map_lists_its_keys_in_order() {
    let mut a = StringMap::new();
    let mut b = StringMap::new();
    for (k, v) in [("z", "1"), ("a", "2"), ("m", "3"), ("a", "4")] {
        a.insert(k.to_string(), v.to_string());
    }
    for (k, v) in [("a", "4"), ("m", "3"), ("z", "1")] {
        b.insert(k.to_string(), v.to_string());
    }
    assert_eq!(a.len(), 3);
    for i in 0..3 {
        assert_eq!(a.key_at(i), b.key_at(i));
        assert_eq!(a.value_at(i), b.value_at(i));
    }
    assert_eq!(a.key_at(0), "a");
    assert_eq!(a.get("a").unwrap(), "4");
    assert!(a.get("b").is_none());
    assert!(a.contains_key("z"));
    assert!(!a.clone().is_empty());
    let listed: Vec<(String, String)> = [("a", "4"), ("m", "3"), ("z", "1")]
        .iter()
        .map(|(k, v)| (k.to_string(), v.to_string()))
        .collect();
    assert_eq!(a.to_entries(), listed);
}

#[test]
fn a_map_takes_over_the_entries_of_another() {
    let mut a = StringMap::new();
    let mut b = StringMap::new();
    a.insert("k".to_string(), "old".to_string());
    a.insert("z".to_string(), "1".to_string());
    b.insert("k".to_string(), "new".to_string());
    b.insert("b".to_string(), "2".to_string());
    a.extend(&b);
    assert_eq!(a.len(), 3);
    assert_eq!(a.get("k").unwrap(), "new");
    assert_eq!(a.get("b").unwrap(), "2");
    assert_eq!(a.get("z").unwrap(), "1");
    assert_eq!(b.len(), 2);
}

#[test]
fn a_set_holds_an_item_once() {
    let mut s = StringSet::new();
    assert!(s.is_empty());
    assert!(s.insert("a".to_string()));
    assert!(!s.insert("a".to_string()));
    assert!(s.insert("b".to_string()));
    assert_eq!(s.len(), 2);
    assert!(s.contains("b"));
    assert!(!s.contains("c"));
    assert!(list_has(&texts(&["x", "y"]), "y"));
}

#[test]
fn paths_are_joined_like_paths() {
    assert_eq!(join("/a", "b"), "/a/b");
    assert_eq!(join("/a/", "b"), "/a/b");
    assert_eq!(join("/a", "/b"), "/b");
    assert_eq!(join("", "b"), "b");
    assert_eq!(join("/a", ""), "/a/");
}

#[test]
fn extensions_follow_the_last_dot() {
    assert_eq!(extension_of("a.b.service").as_deref(), Some("service"));
    assert_eq!(extension_of(".service"), None);
    assert_eq!(extension_of("service"), None);
    assert_eq!(extension_of("a.").as_deref(), Some(""));
    assert_eq!(stem_of("orch.web.json"), "orch.web");
    assert_eq!(stem_of(".json"), ".json");
}

#[test]
fn numbers_are_written_and_read_back() {
    for n in [0u64, 7, 10, 4294967295, 18446744073709551615] {
        assert_eq!(decimal_of(n), n.to_string());
    }
    assert_eq!(parse_u32("4294967295"), Some(4294967295));
    assert_eq!(parse_u32("4294967296"), None);
    assert_eq!(parse_u32("+5"), Some(5));
    assert_eq!(parse_u32("+"), None);
    assert_eq!(parse_u32("-5"), None);
    assert_eq!(parse_u32("5 "), None);
    assert_eq!(parse_i32("-2147483648"), Some(-2147483648));
    assert_eq!(parse_i32("-2147483649"), None);
    assert_eq!(parse_i32("2147483648"), None);
}

#[test]
fn texts_are_scanned_as_std_does() {
    for s in ["", " a ", "\u{2003}x\u{85}", "a\u{200b}", "\t\n"] {
        assert_eq!(trim(s), s.trim());
        assert_eq!(split_words(s), s.split_whitespace().collect::<Vec<_>>());
    }
    for s in ["", "\n", "a\r\nb\n\nc", "a\r", "\r\n", "x\n"] {
        assert_eq!(split_lines(s), s.lines().collect::<Vec<_>>());
    }
    assert!(starts_with("abc", "ab") && ends_with("abc", "bc") && contains("abc", "b"));
    assert!(contains("abc", "") && !contains("ab", "abc"));
    assert_eq!(strip_prefix("abc", "ab").as_deref(), Some("c"));
    assert_eq!(strip_suffix("abc", "b"), None);
    assert_eq!(trim_end_matches("a,,,", ","), "a");
    assert_eq!(to_lowercase("ÄbC"), "Äbc");
    assert!(same_text("é", "é") && !same_text("a", "ab"));
}

#[test]
fn texts_are_sorted_as_std_does() {
    let list = texts(&["b", "a", "é", "", "ab", "z", "a", "Z", "\u{10000}", "\u{ffff}"]);
    let mut expected = list.clone();
    expected.sort();
    assert_eq!(sort_texts(&list), expected);
    assert!(is_le("a", "a") && is_le("a", "ab") && !is_le("b", "ab"));
}

#[test]
fn escaped_markup_is_plain_and_tells_texts_apart() {
    let s = "<a b=\"c\">'&amp;'</a>";
    let e = xml_escape(s);
    assert!(!e.contains('<') && !e.contains('>') && !e.contains('"') && !e.contains('\''));
    assert_eq!(
        e,
        "&lt;a b=&quot;c&quot;&gt;&apos;&amp;amp;&apos;&lt;/a&gt;"
    );
    assert!(xml_escape("&lt;") != xml_escape("<"));
}

#[test]
fn a_property_list_is_written_out() {
    let entries = vec![
        ("A".to_string(), Value::Scalar(Scalar::Text("x&y".to_string()))),
        ("B".to_string(), Value::Array(texts(&["p", "q"]))),
        ("C".to_string(), Value::Dict(vec![("k".to_string(), Scalar::Number(5))])),
        ("D".to_string(), Value::Scalar(Scalar::Flag(false))),
    ];
    assert_eq!(
        render(&entries),
        "<?xml version=\"1.0\" encoding=\"UTF-8\"?>\n\
         <!DOCTYPE plist PUBLIC \"-//Apple//DTD PLIST 1.0//EN\" \
         \"http://www.apple.com/DTDs/PropertyList-1.0.dtd\">\n\
         <plist version=\"1.0\">\n<dict>\n\
         \u{20} <key>A</key>\n\u{20} <string>x&amp;y</string>\n\
         \u{20} <key>B</key>\n\u{20} <array>\n\u{20}   <string>p</string>\n\
         \u{20}   <string>q</string>\n\u{20} </array>\n\
         \u{20} <key>C</key>\n\u{20} <dict>\n\u{20}   <key>k</key>\n\
         \u{20}   <integer>5</integer>\n\u{20} </dict>\n\
         \u{20} <key>D</key>\n\u{20} <false/>\n\
         </dict>\n</plist>\n"
    );
}

#[test]
fn quoted_commands_hold_their_quotes() {
    assert_eq!(escape_bash("'"), "'\\''");
    assert_eq!(escape_bash("a\\b $c \"d\""), "a\\b $c \"d\"");
}
