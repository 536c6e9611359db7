//! Strings, documents, tables and lists of names.
use std::path::Path;

use codex_native::buffers::Buffers;
use codex_native::json::Json;
use codex_native::names::{add_name, has_name, missing_names, sort_names};
use codex_native::paths::{control_socket_path, workspace_matches};
use codex_native::table::Table;
use codex_native::text::{
    contains, find_last_piece, is_before, is_blank, is_white, join_lines, same_letters, string_of, to_upper, trim,
    write_decimal,
};
use codex_native::wire::{decode, encode, parse, parse_or_empty, print, request_key};

fn json(text: &str) -> Json {
    parse(text).unwrap()
}

#[test]
fn white_space_is_that_of_unicode() {
    for n in 0..=0x10ffff_u32 {
        if let Some(c) = char::from_u32(n) {
            assert_eq!(is_white(c), c.is_whitespace(), "{n:x}");
        }
    }
}

#[test]
fn trimming() {
    for text in ["", " ", "a", " a ", "\u{3000}a b\u{a0}\n", "\t\r\n", "a\u{200b}"] {
        assert_eq!(string_of(&trim(text)), text.trim());
        assert_eq!(is_blank(text), text.trim().is_empty());
    }
}

#[test]
fn searching_and_comparing() {
    assert!(contains("expected active turn id `a`", "active turn"));
    assert!(contains("abc", ""));
    assert!(!contains("ab", "abc"));
    assert!(!contains("aab", "ba"));
    for (a, b) in [("", "a"), ("a", "b"), ("a", "aa"), ("Z", "a"), ("é", "z"), ("z", "\u{10000}"), ("\u{ffff}", "\u{10000}")] {
        assert_eq!(is_before(a, b), a < b, "{a} {b}");
        assert_eq!(is_before(b, a), b < a, "{a} {b}");
        assert!(!is_before(a, a));
    }
    assert!(same_letters("subAgent", "SUBAGENT"));
    assert!(!same_letters("subagent", "subagents"));
    assert!(!same_letters("ä", "Ä"));
    assert_eq!(to_upper('z'), 'Z');
    assert_eq!(to_upper('ß'), 'ß');
}

#[test]
fn pieces_and_lines() {
    assert_eq!(find_last_piece("/a/b//").map(|piece| string_of(&piece)).as_deref(), Some("b"));
    assert_eq!(find_last_piece("abc").map(|piece| string_of(&piece)).as_deref(), Some("abc"));
    assert!(find_last_piece("//").is_none());
    assert_eq!(join_lines(&vec![]), "");
    assert_eq!(join_lines(&vec!["a".into(), "".into(), "b".into()]), "a\n\nb");
    for i in [0, 7, -7, 10, 1234567890, i64::MAX, i64::MIN] {
        assert_eq!(write_decimal(i), i.to_string());
    }
}

#[test]
fn paths_have_the_components_of_std() {
    let paths = [
        "/", "", ".", "./a", "a", "a/", "/a", "/a/", "//a", "/a/b", "/a//b", "/a/./b", "a/./b", "/a/b/.", "/ab", "..",
        "/a/..", "./", ".a", "a/.b", "/./a",
    ];
    for root in paths {
        for cwd in paths {
            let (base, path) = (Path::new(root), Path::new(cwd));
            assert_eq!(workspace_matches(root, cwd, true), path.starts_with(base), "{root} {cwd}");
            assert_eq!(workspace_matches(root, cwd, false), path == base, "{root} {cwd}");
        }
        assert_eq!(
            control_socket_path(root),
            Path::new(root)
                .join("app-server-control")
                .join("app-server-control.sock")
                .to_str()
                .unwrap()
        );
    }
}

#[test]
fn documents_are_read_and_written() {
    let text = r#"{"a":[1,-2.5,18446744073709551615,null,true],"b":{"c":"\"\n"}}"#;
    assert_eq!(print(&json(text)), text);
    assert_eq!(print(&json(r#"{"b":1,"a":2,"b":3}"#)), r#"{"a":2,"b":3}"#);
    assert_eq!(print(&decode(encode(&json(text)))), text);
    assert_eq!(print(&json(text).clone()), text);
    assert_eq!(print(&parse(&print(&json(text))).unwrap()), text);
    assert_eq!(parse("{\"a\":}").unwrap_err(), "expected value at line 1 column 6");
    assert_eq!(parse("").unwrap_err(), "EOF while parsing a value at line 1 column 0");
    assert_eq!(parse("1e999").unwrap_err(), "number out of range at line 1 column 5");
    assert_eq!(print(&parse_or_empty("}")), "{}");
    assert_eq!(print(&parse_or_empty("[1]")), "[1]");
    assert_eq!(request_key(&json("\"x\"")), "\"x\"");
    assert_eq!(request_key(&Json::Int(-4)), "-4");
    assert_eq!(print(&Json::Int(i64::MIN)), "-9223372036854775808");
    let deep = format!("{}{}", "[".repeat(127), "]".repeat(127));
    assert_eq!(print(&json(&deep)), deep);
    assert!(parse(&format!("[{deep}]")).is_err());
}

#[test]
fn of_entries_with_one_key_the_last_counts() {
    let entry = |key: &str, value: i64| (key.to_owned(), Json::Int(value));
    let inner = Json::Object(vec![entry("x", 1), entry("x", 2), entry("x", 3)]);
    let doc = Json::Object(vec![entry("b", 1), entry("a", 2), ("b".into(), inner), entry("c", 4), entry("a", 5)]);
    assert_eq!(print(&doc), r#"{"a":5,"b":{"x":3},"c":4}"#);
    assert_eq!(request_key(&doc), r#"{"a":5,"b":{"x":3},"c":4}"#);
    assert_eq!(doc.get("a").unwrap().as_i64(), Some(5));
    assert_eq!(print(&decode(encode(&doc))), print(&doc));
    assert_eq!(print(&Json::Object(vec![entry("k", 1), entry("k", 2)])), r#"{"k":2}"#);
}

#[test]
fn what_is_printed_is_read_again_whatever_its_numbers() {
    let text = r#"{"most":1.7976931348623157e308,"least":5e-324,"large":18446744073709551615,"part":0.1,"name":"n","flag":true,"depth":3}"#;
    let again = json(&print(&json(text)));
    for (name, value) in [
        ("most", "1.7976931348623157e+308"),
        ("least", "5e-324"),
        ("large", "18446744073709551615"),
        ("part", "0.1"),
    ] {
        assert_eq!(print(again.get(name).unwrap()), value);
    }
    assert_eq!(again.str_at("name"), Some("n"));
    assert_eq!(again.get("flag").unwrap().as_bool(), Some(true));
    assert_eq!(again.get("depth").unwrap().as_i64(), Some(3));
    assert!(again.get("other").is_none());
}

#[test]
fn members_of_documents() {
    let doc = json(r#"{"s":"x","i":5,"f":1.5,"big":9223372036854775808,"b":false,"a":[],"o":{"k":1}}"#);
    assert_eq!(doc.str_at("s"), Some("x"));
    assert_eq!(doc.str_at("i"), None);
    assert_eq!(doc.get("i").unwrap().as_i64(), Some(5));
    assert_eq!(doc.get("f").unwrap().as_i64(), None);
    assert_eq!(doc.get("big").unwrap().as_i64(), None);
    assert_eq!(doc.get("b").unwrap().as_bool(), Some(false));
    assert_eq!(doc.get("a").unwrap().as_array().unwrap().len(), 0);
    assert_eq!(doc.get_in("o", "k").unwrap().as_i64(), Some(1));
    assert!(doc.get_in("s", "k").is_none());
    assert_eq!(doc.get_either("no", "s").unwrap().as_str(), Some("x"));
    assert_eq!(doc.first_member().unwrap().0, "a");
    assert!(json("[]").first_member().is_none());
    assert!(Json::object().first_member().is_none());
    assert!(Json::Null.get("x").is_none());
}

#[test]
fn members_are_put_and_dropped() {
    let doc = Json::Null.put("b", Json::Int(1)).put("a", Json::str("x")).put("b", Json::Bool(true));
    assert_eq!(print(&doc), r#"{"a":"x","b":true}"#);
    assert_eq!(print(&doc.clone().without("a")), r#"{"b":true}"#);
    assert_eq!(print(&doc.without("none")), r#"{"a":"x","b":true}"#);
    assert_eq!(print(&Json::Int(3).without("a")), "3");
    assert_eq!(print(&Json::opt_str(None)), "null");
}

#[test]
fn tables_keep_one_value_for_a_name() {
    let mut table: Table<String> = Table::new();
    assert_eq!(table.len(), 0);
    table.insert("a", "1".into());
    table.insert("b", "2".into());
    table.insert("a", "3".into());
    assert_eq!(table.len(), 2);
    assert_eq!(table.get("a").map(String::as_str), Some("3"));
    assert_eq!(table.at(1), "2");
    assert_eq!(table.remove("a").as_deref(), Some("3"));
    assert_eq!(table.remove("a"), None);
    assert_eq!(table.at(0), "2");
    table.clear();
    assert!(table.get("b").is_none());
}

#[test]
fn buffers_grow_apart() {
    let mut buffers = Buffers::new();
    assert_eq!(buffers.append("c", "i", "x"), "x");
    assert_eq!(buffers.append("c", "j", "1"), "1");
    assert_eq!(buffers.append("d", "i", "2"), "2");
    assert_eq!(buffers.append("c", "i", "y"), "xy");
    assert!(buffers.remove("c", "i"));
    assert!(!buffers.remove("c", "i"));
    assert!(!buffers.remove("e", "i"));
    assert_eq!(buffers.append("c", "i", "z"), "z");
    assert_eq!(buffers.append("c", "j", "3"), "13");
}

#[test]
fn names_are_listed_once() {
    let mut names = vec![];
    assert!(add_name(&mut names, "b"));
    assert!(add_name(&mut names, "a"));
    assert!(!add_name(&mut names, "b"));
    assert_eq!(names, vec!["b", "a"]);
    assert!(has_name(&names, "a"));
    assert!(!has_name(&names, ""));
    assert_eq!(missing_names(&names, &vec!["b".to_owned()]), vec!["a"]);
    let mut many: Vec<String> = ["é", "b", "a", "b", "", "ab", "a", "Z"].iter().map(|name| name.to_string()).collect();
    let listed = sort_names(&many);
    many.sort_unstable();
    many.dedup();
    assert_eq!(listed, many);
}
