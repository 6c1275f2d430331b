use nocta_core::chars;
use nocta_core::ordered::{insert_sorted, insert_unique, search_sorted, sort_strings};
use nocta_core::string_map::{position_of, same_text, StringMap};

fn v(s: &str) -> Vec<char> {
    chars::chars_of(s)
}

fn s(v: &Vec<char>) -> String {
    chars::string_of(v)
}

const TEXTS: [&str; 14] = [
    "",
    " ",
    "a",
    "  padded\t\n",
    "line one\nline two\r\nline three",
    "\n\nleading blank\n",
    "ends with cr\r",
    "a,b,,c,",
    "././/x//",
    "\u{a0}non breaking\u{2003}",
    "MiXeD Case ÄÖ",
    "quotes: \"'x'\"",
    "\r\n",
    "é\u{1F600}z",
];

#[test]
fn characters_round_trip_through_strings() {
    for text in TEXTS {
        assert_eq!(s(&v(text)), text);
        assert_eq!(v(text), text.chars().collect::<Vec<char>>());
    }
}

#[test]
fn white_space_is_what_the_standard_library_says() {
    for code in 0..=0x10FFFFu32 {
        if let Some(c) = char::from_u32(code) {
            assert_eq!(chars::is_whitespace(c), c.is_whitespace());
        }
    }
}

#[test]
fn trimming_agrees_with_the_standard_library() {
    for text in TEXTS {
        assert_eq!(s(&chars::trim(&v(text))), text.trim());
        assert_eq!(s(&chars::trim_start(&v(text))), text.trim_start());
        assert_eq!(s(&chars::trim_start_pat(&v(text), &v("./"))), text.trim_start_matches("./"));
        assert_eq!(s(&chars::trim_start_pat(&v(text), &v("\n"))), text.trim_start_matches("\n"));
        assert_eq!(s(&chars::trim_end_char(&v(text), '/')), text.trim_end_matches('/'));
        assert_eq!(
            s(&chars::trim_quotes(&v(text))),
            text.trim_matches(|c| c == '"' || c == '\'')
        );
    }
}

#[test]
fn lines_and_pieces_agree_with_the_standard_library() {
    for text in TEXTS {
        let lines: Vec<String> = chars::lines(&v(text)).iter().map(s).collect();
        let expected: Vec<String> = text.lines().map(|l| l.to_string()).collect();
        assert_eq!(lines, expected);
        let pieces: Vec<String> = chars::split_char(&v(text), ',').iter().map(s).collect();
        let expected: Vec<String> = text.split(',').map(|l| l.to_string()).collect();
        assert_eq!(pieces, expected);
        assert_eq!(
            chars::split_once(&v(text), '/').map(|(a, b)| (s(&a), s(&b))),
            text.split_once('/').map(|(a, b)| (a.to_string(), b.to_string()))
        );
        assert_eq!(s(&chars::before_char(&v(text), ',')), text.split(',').next().unwrap());
    }
}

#[test]
fn searching_agrees_with_the_standard_library() {
    for text in TEXTS {
        for pattern in ["", "a", "/", "line", "\n", "x//", "zz"] {
            let found = chars::find(&v(text), &v(pattern));
            let expected = text.find(pattern).map(|byte| text[..byte].chars().count());
            assert_eq!(found, expected);
            assert_eq!(chars::contains(&v(text), &v(pattern)), text.contains(pattern));
            assert_eq!(chars::starts_with(&v(text), &v(pattern)), text.starts_with(pattern));
            assert_eq!(chars::ends_with(&v(text), &v(pattern)), text.ends_with(pattern));
            assert_eq!(
                chars::strip_prefix(&v(text), &v(pattern)).map(|r| s(&r)),
                text.strip_prefix(pattern).map(|r| r.to_string())
            );
            assert_eq!(
                chars::strip_suffix(&v(text), &v(pattern)).map(|r| s(&r)),
                text.strip_suffix(pattern).map(|r| r.to_string())
            );
        }
        assert_eq!(
            chars::rfind_char(&v(text), '/'),
            text.rfind('/').map(|byte| text[..byte].chars().count())
        );
        assert_eq!(
            chars::find_char(&v(text), 'e'),
            text.find('e').map(|byte| text[..byte].chars().count())
        );
    }
}

#[test]
fn case_and_replacement_agree_with_the_standard_library() {
    for text in TEXTS {
        assert_eq!(s(&chars::ascii_lower(&v(text))), text.to_ascii_lowercase());
        assert_eq!(s(&chars::replace_char(&v(text), '/', '\\')), text.replace('/', "\\"));
    }
    assert_eq!(s(&chars::join(&vec![v("a"), v(""), v("b")], &v(", "))), "a, , b");
    assert_eq!(s(&chars::join(&Vec::new(), &v(", "))), "");
    assert_eq!(s(&chars::concat(&v("ab"), &v("cd"))), "abcd");
}

#[test]
fn numbers_are_written_in_base_ten() {
    for n in [0usize, 7, 10, 42, 100, 65535, usize::MAX] {
        assert_eq!(s(&chars::decimal(n)), n.to_string());
    }
}

#[test]
fn order_of_texts_is_the_order_of_strings() {
    for a in TEXTS {
        for b in TEXTS {
            assert_eq!(chars::lex_lt(&v(a), &v(b)), a < b);
            assert_eq!(chars::equal(&v(a), &v(b)), a == b);
            assert_eq!(same_text(a, b), a == b);
        }
    }
}

#[test]
fn sorting_agrees_with_the_standard_library() {
    let items: Vec<String> = TEXTS.iter().chain(TEXTS.iter().take(3)).map(|t| t.to_string()).collect();
    let mut expected = items.clone();
    expected.sort();
    assert_eq!(sort_strings(items), expected);
    let mut list: Vec<String> = Vec::new();
    for item in ["b", "a", "c", "a"] {
        insert_sorted(&mut list, item.to_string());
    }
    assert_eq!(list, vec!["a", "a", "b", "c"]);
    let mut set: Vec<String> = Vec::new();
    for item in ["b", "a", "c", "a", "B"] {
        insert_unique(&mut set, item);
    }
    assert_eq!(set, vec!["B", "a", "b", "c"]);
    assert_eq!(search_sorted(&set, "b"), (2, true));
    assert_eq!(search_sorted(&set, "bb"), (3, false));
    assert_eq!(search_sorted(&set, "A"), (0, false));
    assert_eq!(search_sorted(&set, "z"), (4, false));
}

#[test]
fn string_maps_keep_the_order_of_insertion() {
    let mut map = StringMap::new();
    assert!(map.is_empty());
    map.insert("b".to_string(), "1".to_string());
    map.insert("a".to_string(), "2".to_string());
    map.insert("b".to_string(), "3".to_string());
    map.insert_if_absent("a".to_string(), "4".to_string());
    map.insert_if_absent("c".to_string(), "5".to_string());
    assert_eq!(map.len(), 3);
    assert_eq!(
        map.entries,
        vec![
            ("b".to_string(), "3".to_string()),
            ("a".to_string(), "2".to_string()),
            ("c".to_string(), "5".to_string())
        ]
    );
    assert_eq!(map.get("a").map(String::as_str), Some("2"));
    assert_eq!(map.get("z"), None);
    assert!(map.contains_key("c"));
    assert_eq!(map.index_of("c"), Some(2));
    assert_eq!(map.duplicate(), map);
    assert!(map.has_distinct_names());
    assert_eq!(
        map.sorted_by_name().entries,
        vec![
            ("a".to_string(), "2".to_string()),
            ("b".to_string(), "3".to_string()),
            ("c".to_string(), "5".to_string())
        ]
    );
    let twice = StringMap {
        entries: vec![("a".to_string(), "1".to_string()), ("a".to_string(), "2".to_string())],
    };
    assert!(!twice.has_distinct_names());
    assert_eq!(position_of(&vec!["x".to_string(), "y".to_string()], "y"), Some(1));
    assert_eq!(position_of(&vec!["x".to_string()], "y"), None);
}
