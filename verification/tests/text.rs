use midtown::json::Json;
use midtown::json_text::{parse, print, print_pretty};
use midtown::path::{joined_path, name_of_file, name_of_parent, path_parts};
use midtown::text::{
    chars_of, find_from, find_last, is_blank, lines_of, list_has, lowered, matches_at,
    parse_unsigned, replace_all, slice, split_at_text, split_on, split_once, to_decimal, trimmed,
    trimmed_back, trimmed_front,
};
use midtown::text_map::{is_before, TextMap};
use midtown::text_set::add_name;

#[test]
fn texts_are_searched_by_character() {
    let text = chars_of("añbañ");
    let pat = chars_of("añ");
    assert!(matches_at(&text, &pat, 3));
    assert!(!matches_at(&text, &pat, 4));
    assert_eq!(find_from(&text, &pat, 0), Some(0));
    assert_eq!(find_from(&text, &pat, 1), Some(3));
    assert_eq!(find_from(&text, &pat, 4), None);
    assert_eq!(find_last(&text, &pat), Some(3));
    assert_eq!(slice(&text, 1, 3), "ñb");
}

#[test]
fn white_space_is_that_of_unicode() {
    assert_eq!(trimmed("\u{3000} a b\t\n"), "a b");
    assert_eq!(trimmed_front("  a "), "a ");
    assert_eq!(trimmed_back("  a "), "  a");
    assert!(is_blank("\u{a0}\n"));
    assert!(!is_blank("x"));
}

#[test]
fn texts_are_cut_as_the_standard_library_cuts_them() {
    for text in ["", "a", "a,b", ",", "a,,b,"] {
        let expected: Vec<&str> = text.split(',').collect();
        assert_eq!(split_on(text, ','), expected);
    }
    for text in ["", "a", "a\n", "a\r\nb", "\n\n", "a\r"] {
        let expected: Vec<&str> = text.lines().collect();
        assert_eq!(lines_of(text), expected, "{text:?}");
    }
    for text in ["", "a=b", "=", "a=b=c", "ab"] {
        let expected = text.split_once('=').map(|(a, b)| (a.to_string(), b.to_string()));
        assert_eq!(split_once(text, '='), expected);
    }
    assert_eq!(
        split_at_text("a---b---c", "---"),
        Some(("a".to_string(), "b---c".to_string()))
    );
    assert_eq!(split_at_text("abc", "---"), None);
    for (text, pat, with) in [("aaa", "aa", "b"), ("abc", "x", "y"), ("a.b.c", ".", "")] {
        assert_eq!(replace_all(text, pat, with), text.replace(pat, with));
    }
}

#[test]
fn numbers_are_written_and_read() {
    assert_eq!(to_decimal(0), "0");
    assert_eq!(to_decimal(u64::MAX), u64::MAX.to_string());
    assert_eq!(parse_unsigned("4294967295", u32::MAX as u64), Some(4294967295));
    assert_eq!(parse_unsigned("4294967296", u32::MAX as u64), None);
    assert_eq!(parse_unsigned("+7", 10), Some(7));
    assert_eq!(parse_unsigned("", 10), None);
    assert_eq!(parse_unsigned("1a", 10), None);
    assert_eq!(lowered("AbÇ"), "abÇ");
}

#[test]
fn maps_keep_the_latest_value_of_a_name() {
    let mut map = TextMap::new();
    map.insert("b", "1");
    map.insert("a", "2");
    map.insert("b", "3");
    assert_eq!(
        map.entries(),
        &vec![("a".to_string(), "2".to_string()), ("b".to_string(), "3".to_string())]
    );
    let mut more = TextMap::new();
    more.insert("a", "9");
    map.insert_all(&more);
    map.remove_value("3");
    assert_eq!(map.get("a"), Some(&"9".to_string()));
    assert!(!map.contains_key("b"));
    assert!(is_before("a", "ab"));
    assert!(!is_before("b", "ab"));
}

#[test]
fn lists_of_names_are_sorted_and_have_each_once() {
    let mut names = vec![];
    for name in ["b", "a", "b", "c", "a"] {
        add_name(&mut names, name);
    }
    assert_eq!(names, ["a", "b", "c"]);
    assert!(list_has(&names, "b"));
    assert!(!list_has(&names, "d"));
}

#[test]
fn paths_are_joined_and_taken_apart() {
    assert_eq!(joined_path("/a", "b"), "/a/b");
    assert_eq!(joined_path("/a/", "b"), "/a/b");
    assert_eq!(path_parts("/a//b/./c").0, ["a", "b", "c"]);
    assert_eq!(name_of_file("/a/b.git"), Some("b.git".to_string()));
    assert_eq!(name_of_parent("/a/b/.git"), Some("b".to_string()));
}

#[test]
fn values_are_read_as_they_were_written() {
    for text in [
        r#"{"a":[1,-2,true,null],"b":{"c":"\"\n"}}"#,
        "18446744073709551615",
        "-9223372036854775808",
        r#""é""#,
    ] {
        let value = parse(text).unwrap();
        assert_eq!(print(&value), text);
        let again = print_pretty(&value).unwrap();
        assert_eq!(print(&parse(&again).unwrap()), text);
        assert_eq!(print(&value.duplicate()), text);
    }
    assert_eq!(parse("-1").unwrap().as_u64(), None);
    assert_eq!(parse("-1").unwrap().as_i64(), Some(-1));
    assert_eq!(parse("1.5").unwrap().as_i64(), None);
    assert_eq!(print(&parse(r#"{"a":1,"a":2}"#).unwrap()), r#"{"a":2}"#);
    assert!(parse("[1,]").is_none());
    assert!(parse(&format!("{}{}", "[".repeat(127), "]".repeat(127))).is_some());
    assert!(parse(&format!("{}{}", "[".repeat(128), "]".repeat(128))).is_none());
    assert_eq!(print(&Json::singleton(Json::text_or_null(&None))), "[null]");
}
