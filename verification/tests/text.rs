use aiutante::text::{
    chars_of, find_from, matches_at, replace_chars, same_text, split_fields, string_of, trim,
    white_space,
};

const SAMPLES: [&str; 16] = [
    "",
    " ",
    "exit",
    "exit\n",
    "  exit \t\r\n",
    "\u{a0}hello\u{3000}",
    "a b",
    " a  b   c ",
    "\tdocker exec\u{2003}-i  box sh\n",
    "no-space",
    "\u{200b}zero\u{200b}",
    "\u{85}next\u{2028}line\u{2029}",
    "\u{1680}ogham\u{205f}",
    "x\u{b}y\u{c}z",
    "  \u{feff} bom ",
    "bash",
];

#[test]
fn white_space_is_what_std_takes_for_it() {
    for c in '\0'..=char::MAX {
        assert_eq!(white_space(c), c.is_whitespace(), "{:?}", c);
    }
}

#[test]
fn trim_removes_white_space_at_both_ends() {
    assert_eq!(trim("  exit \t\r\n"), "exit");
    assert_eq!(trim("a b"), "a b");
    assert_eq!(trim(" \n "), "");
    for sample in SAMPLES {
        assert_eq!(trim(sample), sample.trim(), "{:?}", sample);
    }
}

#[test]
fn split_fields_gives_the_runs_between_white_space() {
    assert_eq!(split_fields(" a  b   c "), vec!["a", "b", "c"]);
    assert!(split_fields(" \t ").is_empty());
    for sample in SAMPLES {
        let expected: Vec<&str> = sample.split_whitespace().collect();
        assert_eq!(split_fields(sample), expected, "{:?}", sample);
    }
}

#[test]
fn characters_and_strings_convert_both_ways() {
    let text = "h\u{e9}llo \u{1f600}";
    let chars = chars_of(text);
    assert_eq!(chars, text.chars().collect::<Vec<char>>());
    assert_eq!(string_of(&chars), text);
    assert!(same_text("a", "a"));
    assert!(!same_text("a", "b"));
}

#[test]
fn search_finds_the_leftmost_occurrence() {
    let text = chars_of("abcabcab");
    let pattern = chars_of("cab");
    assert!(matches_at(&text, &pattern, 2));
    assert!(!matches_at(&text, &pattern, 3));
    assert!(!matches_at(&text, &pattern, 6));
    assert_eq!(find_from(&text, &pattern, 0), Some(2));
    assert_eq!(find_from(&text, &pattern, 3), Some(5));
    assert_eq!(find_from(&text, &pattern, 6), None);
    assert_eq!(find_from(&text, &pattern, 100), None);
}

#[test]
fn replacement_goes_from_the_left_without_overlap() {
    let replaced = |s: &str, p: &str, t: &str| {
        string_of(&replace_chars(&chars_of(s), &chars_of(p), &chars_of(t)))
    };
    assert_eq!(replaced("aaaa", "aa", "b"), "bb");
    assert_eq!(replaced("aaa", "aa", "b"), "ba");
    assert_eq!(replaced("abc", "x", "y"), "abc");
    assert_eq!(replaced("abc", "", "y"), "abc");
    assert_eq!(replaced("a-b-c", "-", ""), "abc");
    for (s, p, t) in [("aXbXc", "X", "--"), ("{{a}}{{a}}", "{{a}}", "{{a}}"), ("", "a", "b")] {
        assert_eq!(replaced(s, p, t), s.replace(p, t));
    }
}
