//! Text, numbers, paths, maps and time, held against what std does.

use std::path::Path;

use spec_flow::json::parse;
use spec_flow::maps::{IssueMap, TextMap};
use spec_flow::numbers::{decimal_text, hex_text, parse_u64};
use spec_flow::ordered::{insert_ascending, sort_numbers};
use spec_flow::paths::{file_name, join, parent, paths_equal, within};
use spec_flow::text::{
    rsplit_once, split, split_once, starts_with, str_eq, strip_prefix, trim, trim_end, white_space,
};
use spec_flow::time::{Duration, Timestamp};
use spec_flow::vcs::depends::parse_depends_on;

const TEXTS: [&str; 14] = [
    "",
    "a",
    "@",
    "a@b",
    "a@b@c",
    "@a@",
    "  a b  ",
    "\u{2003}x\u{3000}",
    "é@ü",
    "\n\r\n",
    "@@",
    " ",
    "depends on",
    "x\u{1f}",
];

const PATHS: [&str; 24] = [
    "", "/", ".", "..", "a", "a/", "/a", "/a/", "//a", "a//b", "a/./b", "./a", "a/.", "a/..",
    "/a/b", "/a/b/", "/..", "/.", "//", "./", "../a", "a/b/c", "/a/./", ".a",
];

#[test]
fn text_is_split_and_trimmed_as_std_does_it() {
    for text in TEXTS {
        assert_eq!(trim(text), text.trim());
        assert_eq!(trim_end(text), text.trim_end());
        assert_eq!(split_once(text, '@'), text.split_once('@'));
        assert_eq!(rsplit_once(text, '@'), text.rsplit_once('@'));
        assert_eq!(split(text, '@'), text.split('@').collect::<Vec<&str>>());
        for other in TEXTS {
            assert_eq!(str_eq(text, other), text == other);
            assert_eq!(starts_with(text, other), text.starts_with(other));
            assert_eq!(strip_prefix(text, other), text.strip_prefix(other));
        }
    }
}

#[test]
fn white_space_is_what_std_takes_for_it() {
    for c in '\0'..=char::MAX {
        assert_eq!(white_space(c), c.is_whitespace(), "{:?}", c);
    }
}

#[test]
fn numbers_are_written_and_read_as_std_does_it() {
    for n in [0, 1, 9, 10, 42, 99, 100, 1_000_000, u32::MAX as u64, u64::MAX - 1, u64::MAX] {
        assert_eq!(decimal_text(n), n.to_string());
        assert_eq!(hex_text(n as u128), format!("{:x}", n));
        assert_eq!(parse_u64(&n.to_string()), Some(n));
    }
    assert_eq!(hex_text(u128::MAX), format!("{:x}", u128::MAX));
    for text in [
        "", "+", "-", "+1", "-1", "-0", "00", " 1", "1 ", "1_0", "0x1", "١", "18446744073709551616",
        "018446744073709551615", "99999999999999999999", "+18446744073709551615", "++1",
    ] {
        assert_eq!(parse_u64(text), text.parse::<u64>().ok(), "{:?}", text);
    }
}

#[test]
fn paths_are_taken_apart_as_std_does_it() {
    for path in PATHS {
        let std_path = Path::new(path);
        assert_eq!(parent(path), std_path.parent().map(|p| p.to_str().unwrap()), "{:?}", path);
        assert_eq!(
            file_name(path).as_deref(),
            std_path.file_name().map(|name| name.to_str().unwrap()),
            "{:?}",
            path
        );
        for other in PATHS {
            assert_eq!(join(path, other), std_path.join(other).to_str().unwrap());
            assert_eq!(within(path, other), std_path.starts_with(other), "{:?} {:?}", path, other);
            assert_eq!(paths_equal(path, other), std_path == Path::new(other));
        }
    }
}

#[test]
fn depends_on_is_recognised_whatever_the_letters_are() {
    for c in '\0'..=char::MAX {
        for at in 0.."depends on".len() {
            let phrase: Vec<char> = "depends on".chars().collect();
            if c.is_ascii() || c.to_lowercase().count() != 1 || phrase.contains(&c) {
                let mut letters = phrase.clone();
                letters[at] = c;
                let line: String = letters.into_iter().collect::<String>() + " #7";
                if line.contains('\n') || line.contains('\r') {
                    continue;
                }
                let expected = line.to_lowercase().contains("depends on");
                let hashes = line.matches('#').count();
                let found = !parse_depends_on(&line).is_empty();
                assert_eq!(found, expected && hashes > 0, "{:?}", line);
            }
        }
    }
}

#[test]
fn lines_end_as_std_ends_them() {
    assert_eq!(parse_depends_on("depends on #1\r\n#2\rdepends on #3\n#4"), vec![1, 2, 3]);
    assert_eq!(parse_depends_on("#1 depends on"), vec![1]);
    assert_eq!(parse_depends_on("depends on #99999999999999999999 #4x #+5"), vec![4]);
}

fn members_of(text: &str) -> Option<Vec<(String, Option<u64>)>> {
    let members = parse(text).unwrap().members()?;
    Some(members.into_iter().map(|member| (member.key, member.value.number())).collect())
}

#[test]
fn json_is_read_as_what_it_is() {
    assert!(parse(" null ").unwrap().is_null());
    assert!(!parse("true").unwrap().is_null());
    assert_eq!(parse("\"a\\u0041\"").unwrap().string().unwrap(), "aA");
    assert_eq!(parse("7").unwrap().string(), None);
    assert_eq!(parse(" 7").unwrap().number(), Some(7));
    assert_eq!(parse("-7").unwrap().number(), None);
    let items = parse("[ 1 , [2] ]").unwrap().elements().unwrap();
    assert_eq!(items.len(), 2);
    assert_eq!(items[0].number(), Some(1));
    assert_eq!(items[1].elements().unwrap()[0].number(), Some(2));
    assert!(parse("{}").unwrap().elements().is_none());
    assert!(parse("").is_err());
    assert!(parse("1 2").is_err());
    assert!(parse("{\"a\":}").is_err());
}

#[test]
fn json_objects_give_their_members_in_order() {
    let named = |key: &str, value| (key.to_string(), value);

    assert_eq!(members_of("{ }"), Some(vec![]));
    assert_eq!(
        members_of("{ \"b\" : 1 ,\"a\":[2,{\"c\":3}],\"é\\n\":\n4}"),
        Some(vec![named("b", Some(1)), named("a", None), named("é\n", Some(4))])
    );
    assert_eq!(
        members_of("{\"a\":1,\"a\":2}"),
        Some(vec![named("a", Some(1)), named("a", Some(2))])
    );
    assert_eq!(members_of("{\"a}\":1}"), Some(vec![named("a}", Some(1))]));
    assert_eq!(members_of("[1]"), None);
    assert_eq!(members_of("\"{}\""), None);
    assert_eq!(members_of("{\"\\ud800\":1}"), None);
}

#[test]
fn text_maps_hold_one_value_for_each_key() {
    let mut map = TextMap::new();
    map.insert("a", 1);
    map.insert("b", 2);
    map.insert("a", 3);

    assert_eq!(map.get("a"), Some(&3));
    assert_eq!(map.remove("a"), Some(3));
    assert_eq!(map.get("a"), None);
    assert!(map.contains_key("b"));
    assert_eq!(map.remove("a"), None);
}

#[test]
fn issue_maps_tell_repos_apart() {
    let mut map = IssueMap::new();
    map.insert("a", 7, "x");
    map.insert("a", 3, "y");
    map.insert("b", 7, "z");
    map.insert("a", 7, "w");

    assert_eq!(map.get("a", 7), Some(&"w"));
    assert_eq!(map.get("b", 3), None);
    assert!(map.contains_key("b", 7));
    assert_eq!(map.numbers_in("a"), vec![3, 7]);
}

#[test]
fn numbers_are_sorted_and_kept_sorted() {
    assert_eq!(sort_numbers(&vec![3, 1, 2, 1]), vec![1, 1, 2, 3]);
    let mut numbers = Vec::new();
    for n in [5, 1, 5, 9, 0] {
        insert_ascending(&mut numbers, n);
    }
    assert_eq!(numbers, vec![0, 1, 5, 9]);
}

#[test]
fn times_compare_to_the_nanosecond() {
    let start = Timestamp::from_unix_secs(10).unwrap();
    let span = Duration { secs: 1, nanos: 999_999_999 };

    assert!(!Timestamp { secs: 11, nanos: 999_999_999 }.is_past(start, span));
    assert!(Timestamp { secs: 12, nanos: 0 }.is_past(start, span));
    assert!(Timestamp::from_unix_secs(i64::MAX as u64).is_some());
    assert!(Timestamp::from_unix_secs(i64::MAX as u64 + 1).is_none());
}
