//! Texts, paths, tables and JSON.

use std::path::Path;

use orchestrator::error::{RuntimeError, ServerError, ValidationError};
use orchestrator::json::serde_text::read_json;
use orchestrator::json::{Json, JsonNumber};
use orchestrator::paths;
use orchestrator::table::Table;
use orchestrator::text;
use orchestrator::ParameterType;

#[test]
fn texts_are_searched_split_and_trimmed() {
    assert!(text::contains_text("a delete b", "delete"));
    assert!(text::contains_text("x", ""));
    assert!(!text::contains_text("de", "del"));
    assert_eq!(text::trim("\u{2003} a b \t"), "a b");
    assert!(text::blank(" \u{a0}"));
    assert_eq!(text::strip_prefix("run-7", "run-").as_deref(), Some("7"));
    assert_eq!(text::strip_suffix("a.md", ".md").as_deref(), Some("a"));
    assert_eq!(text::split_once("a=b=c", '='), Some(("a".to_string(), "b=c".to_string())));
    assert!(text::starts_with("abc", "ab") && text::ends_with("abc", "bc"));
    assert!(text::contains_char("abc", 'b'));
    assert!(text::text_less("a", "ab") && !text::text_less("b", "ab"));
}

#[test]
fn numbers_are_written_and_read() {
    assert_eq!(text::decimal_u64(0), "0");
    assert_eq!(text::decimal_u64(u64::MAX), "18446744073709551615");
    assert_eq!(text::padded_u64(7, 4), "0007");
    assert_eq!(text::parse_u64("+7"), Some(7));
    assert_eq!(text::parse_u64("18446744073709551616"), None);
    assert_eq!(text::parse_u32("4294967296"), None);
    assert_eq!(text::parse_i64("-9"), Some(-9));
}

#[test]
fn a_start_that_fits_ends_at_a_character() {
    assert_eq!(text::size_of("aä€😀"), 10);
    assert_eq!(text::fitting_start("aä", 2), ("a".to_string(), 1));
    assert_eq!(text::fitting_start("aä", 3), ("aä".to_string(), 3));
}

#[test]
fn paths_are_compared_by_their_components() {
    assert_eq!(paths::join("/a", "b"), "/a/b");
    assert_eq!(paths::join("/a/", "/b"), "/b");
    assert_eq!(paths::components_of("/a//./b/../c"), vec!["/", "a", "b", "..", "c"]);
    assert_eq!(paths::components_of("./a"), vec![".", "a"]);
    assert!(paths::starts_with("/a/b", "/a"));
    assert!(!paths::starts_with("/ab", "/a"));
    assert_eq!(paths::parent_of("/a/b").as_deref(), Some("/a"));
    assert_eq!(paths::parent_of("/"), None);
    assert_eq!(paths::file_name_of("a/.."), None);
    assert_eq!(paths::strip_prefix("/a/b//c", "/a").as_deref(), Some("b//c"));
}

/// Every text of at most that many of the letters.
fn texts_over(letters: &[char], most: usize) -> Vec<String> {
    let mut all = vec![String::new()];
    let mut from = 0;
    for _ in 0..most {
        let to = all.len();
        for at in from..to {
            for c in letters {
                let mut longer = all[at].clone();
                longer.push(*c);
                all.push(longer);
            }
        }
        from = to;
    }
    all
}

fn owned(p: Option<&Path>) -> Option<String> {
    p.map(|p| p.to_str().expect("text").to_string())
}

#[test]
fn paths_are_taken_apart_as_the_standard_library_does_it() {
    for p in texts_over(&['/', '.', 'a'], 7) {
        let std = Path::new(&p);
        let parts: Vec<String> =
            std.components().map(|c| c.as_os_str().to_str().expect("text").to_string()).collect();
        assert_eq!(paths::components_of(&p), parts, "components of {p:?}");
        assert_eq!(paths::is_absolute(&p), std.is_absolute(), "{p:?}");
        assert_eq!(paths::parent_of(&p), owned(std.parent()), "parent of {p:?}");
        let name = std.file_name().map(|n| n.to_str().expect("text").to_string());
        assert_eq!(paths::file_name_of(&p), name, "file name of {p:?}");
    }
}

#[test]
fn paths_are_put_together_as_the_standard_library_does_it() {
    let some = texts_over(&['/', '.', 'a'], 4);
    for p in &some {
        for q in &some {
            let (std_p, std_q) = (Path::new(p), Path::new(q));
            assert_eq!(Some(paths::join(p, q)), owned(Some(&std_p.join(std_q))), "{p:?} and {q:?}");
            assert_eq!(paths::starts_with(p, q), std_p.starts_with(std_q), "{p:?} in {q:?}");
            assert_eq!(paths::strip_prefix(p, q), owned(std_p.strip_prefix(std_q).ok()), "{p:?} below {q:?}");
        }
    }
}

#[test]
fn white_space_is_what_the_standard_library_takes_for_it() {
    for c in '\u{0}'..=char::MAX {
        assert_eq!(text::blank(&c.to_string()), c.is_whitespace(), "{c:?}");
    }
    for t in texts_over(&[' ', '\u{a0}', 'a', '\u{85}'], 5) {
        assert_eq!(text::trim(&t), t.trim(), "{t:?}");
    }
}

#[test]
fn numerals_are_read_as_the_standard_library_does_it() {
    for t in texts_over(&['+', '-', '0', '7', 'x'], 5) {
        assert_eq!(text::parse_u64(&t), t.parse().ok(), "{t:?}");
        assert_eq!(text::parse_u32(&t), t.parse().ok(), "{t:?}");
        assert_eq!(text::parse_i64(&t), t.parse().ok(), "{t:?}");
    }
    for t in ["18446744073709551615", "18446744073709551616", "4294967295", "4294967296", "9223372036854775807",
        "9223372036854775808", "-9223372036854775808", "-9223372036854775809", "000000000000000000000000001"]
    {
        assert_eq!(text::parse_u64(t), t.parse().ok(), "{t:?}");
        assert_eq!(text::parse_u32(t), t.parse().ok(), "{t:?}");
        assert_eq!(text::parse_i64(t), t.parse().ok(), "{t:?}");
    }
}

#[test]
fn texts_are_ordered_as_the_standard_library_orders_them() {
    let some = texts_over(&['a', 'b', 'Z', '\u{e9}', '\u{1f600}'], 3);
    for a in &some {
        for b in &some {
            assert_eq!(text::text_less(a, b), a < b, "{a:?} and {b:?}");
        }
    }
}

#[test]
fn tables_keep_their_keys_in_order() {
    let mut t: Table<u32> = Table::new();
    t.insert("b".to_string(), 1);
    t.insert("a".to_string(), 2);
    t.insert("b".to_string(), 3);
    assert_eq!(t.len(), 2);
    assert_eq!((t.key_at(0).as_str(), *t.value_at(1)), ("a", 3));
    assert_eq!(t.remove("a"), Some(2));
    assert_eq!(t.remove("a"), None);
    assert!(t.contains_key("b"));
}

#[test]
fn json_is_read_with_its_numbers_as_they_are() {
    let v = read_json(r#"{"a": [1, -2, 1.50, 1e400, null], "a2": "x", "a": true}"#);
    assert!(v.is_err(), "a number that is too large for a double is refused");
    let v = read_json(r#"{"k": 1, "n": -2, "f": 1.50, "k": true}"#).expect("JSON");
    assert_eq!(v.get("k"), Some(&Json::Bool(true)), "the last of a repeated key counts");
    assert_eq!(v.get("n"), Some(&Json::Number(JsonNumber::NegInt(-2))));
    assert_eq!(v.get("f"), Some(&Json::Number(JsonNumber::Float("1.5".to_string()))));
    assert_eq!(v.copy(), v);
    assert_eq!(read_json("{").err().as_deref(), Some("EOF while parsing an object at line 1 column 1"));
}

#[test]
fn errors_are_put_in_words() {
    assert_eq!(ServerError::EmptyFrame.message(), "empty frame");
    assert_eq!(
        RuntimeError::Spawn { binary: "b".to_string(), detail: "d".to_string() }.message(),
        "failed to spawn `b`: d"
    );
    assert_eq!(
        ValidationError::MissingRequired { param: "p".to_string() }.message(),
        "missing required parameter `p`"
    );
    assert!(ValidationError::WrongType { param: "p".to_string(), expected: ParameterType::Bool }
        .message()
        .starts_with("parameter `p`"));
}
