use std::path::Path;

use anolisa::json::JsonObject;
use anolisa::paths::{
    base_name_of, components_of, file_name_of, is_under, join_path, parent_of,
};
use anolisa::text::{has_prefix, has_suffix, i64_text, join, pad_right, trim};
use anolisa::textmap::TextMap;

const PATHS: [&str; 26] = [
    "", "/", "//", ".", "./", "..", "/..", "a", "a/", "a//", "/a", "/a/b", "/a//b/", "a/./b",
    "a/.", "a/..", "./a", "././a", "/./a", "/.", "a/b/.", "a/../b", "/a/b/c.txt", "..a", "a.",
    "/用户/项目",
];

fn text(p: &Path) -> String {
    p.to_string_lossy().into_owned()
}

#[test]
fn file_names_are_those_of_std() {
    for s in PATHS {
        let expected = Path::new(s).file_name().map(|n| n.to_string_lossy().into_owned());
        assert_eq!(file_name_of(s), expected, "file name of {s:?}");
        assert_eq!(base_name_of(s), expected.unwrap_or(s.to_string()), "base name of {s:?}");
    }
}

#[test]
fn parents_are_those_of_std() {
    for s in PATHS {
        assert_eq!(parent_of(s), Path::new(s).parent().map(text), "parent of {s:?}");
    }
}

#[test]
fn components_are_those_of_std() {
    for s in PATHS {
        let expected: Vec<String> = Path::new(s)
            .components()
            .map(|c| c.as_os_str().to_string_lossy().into_owned())
            .collect();
        assert_eq!(components_of(s), expected, "components of {s:?}");
    }
}

#[test]
fn paths_below_others_are_those_of_std() {
    for a in PATHS {
        for b in PATHS {
            assert_eq!(is_under(a, b), Path::new(a).starts_with(b), "{a:?} below {b:?}");
        }
    }
}

#[test]
fn relative_names_are_joined_as_std_does() {
    for s in PATHS {
        assert_eq!(join_path(s, "raw_events.db"), text(&Path::new(s).join("raw_events.db")));
    }
}

#[test]
fn blanks_at_both_ends_are_trimmed_as_std_does() {
    for s in ["", " ", "a", " a ", "\t\n a b \r", "\u{3000}x\u{a0}", "\u{200b}x", "\u{1680}"] {
        assert_eq!(trim(s), s.trim(), "{s:?}");
    }
}

#[test]
fn texts_are_padded_joined_and_compared() {
    assert_eq!(pad_right("ab", 4), "ab  ");
    assert_eq!(pad_right("abcde", 4), "abcde");
    assert_eq!(pad_right("é", 3), format!("{:<3}", "é"));
    assert_eq!(join(&vec![], ", "), "");
    assert_eq!(join(&vec!["a".to_string(), "b".to_string()], ", "), "a, b");
    assert!(has_prefix("abc", "ab") && !has_prefix("ab", "abc") && has_prefix("x", ""));
    assert!(has_suffix("abc", "bc") && !has_suffix("bc", "abc"));
    assert_eq!(i64_text(0), "0");
    assert_eq!(i64_text(i64::MIN), i64::MIN.to_string());
    assert_eq!(i64_text(i64::MAX), i64::MAX.to_string());
}

#[test]
fn map_keeps_one_value_per_key() {
    let mut m: TextMap<i64> = TextMap::new();
    m.insert("a".to_string(), 1);
    m.insert("b".to_string(), 2);
    m.insert("a".to_string(), 3);
    assert_eq!((m.len(), m.get("a"), m.get("c")), (2, Some(&3), None));
    assert!(m.contains_key("b"));
    let keys: Vec<&str> = (0..m.len()).map(|i| m.entry_at(i).0).collect();
    assert_eq!(keys.len(), 2);
    assert_eq!(m.remove("a"), Some(3));
    assert_eq!(m.remove("a"), None);
    assert_eq!((m.len(), m.contains_key("b")), (1, true));
}

#[test]
fn objects_are_written_as_json() {
    assert_eq!(JsonObject::new().into_text(), "{}");
    let mut o = JsonObject::new();
    o.text("t", "line\n\"quoted\" \\ 用\u{1}");
    o.unsigned("u", u64::MAX);
    o.signed("s", i64::MIN);
    o.text("a", "first");
    o.text("a", "second");
    assert_eq!(
        o.into_text(),
        "{\"a\":\"second\",\"s\":-9223372036854775808,\
         \"t\":\"line\\n\\\"quoted\\\" \\\\ 用\\u0001\",\"u\":18446744073709551615}"
    );
}
