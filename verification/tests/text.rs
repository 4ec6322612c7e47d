use deck_creator::text::{
    chars_of, find, has_ending, has_part, has_suffix, is_space, join, matches_at, remove_all,
    same_text, slice, split, trim,
};

fn chars(s: &str) -> Vec<char> {
    s.chars().collect()
}

#[test]
fn chars_of_keeps_every_character() {
    assert_eq!(chars_of("a\u{e9}b"), vec!['a', '\u{e9}', 'b']);
    assert_eq!(chars_of(""), Vec::<char>::new());
}

#[test]
fn slice_copies_the_range() {
    assert_eq!(slice(&chars("abcdef"), 2, 4), chars("cd"));
    assert_eq!(slice(&chars("abc"), 1, 1), chars(""));
}

#[test]
fn trim_removes_white_space_at_both_ends() {
    assert_eq!(trim(&chars("  \n\ta b \r\n ")), chars("a b"));
    assert_eq!(trim(&chars("ab")), chars("ab"));
}

#[test]
fn trim_of_white_space_alone_is_empty() {
    assert_eq!(trim(&chars(" \n\t ")), chars(""));
    assert_eq!(trim(&chars("")), chars(""));
}

#[test]
fn trim_knows_white_space_beyond_ascii() {
    assert_eq!(trim(&chars("\u{a0}x\u{2003}")), chars("x"));
}

#[test]
fn is_space_agrees_with_the_standard_library_on_every_character() {
    let mut n: u32 = 0;
    while n <= 0x10FFFF {
        if let Some(c) = char::from_u32(n) {
            assert_eq!(is_space(c), c.is_whitespace(), "U+{:04X}", n);
        }
        n += 1;
    }
}

#[test]
fn is_space_holds_of_the_white_space_characters() {
    for c in [' ', '\t', '\n', '\u{b}', '\u{c}', '\r', '\u{85}', '\u{a0}', '\u{1680}', '\u{2000}',
        '\u{200a}', '\u{2028}', '\u{2029}', '\u{202f}', '\u{205f}', '\u{3000}']
    {
        assert!(is_space(c));
    }
    for c in ['{', 'a', '0', '\u{8}', '\u{e}', '\u{200b}', '\u{180e}', '\u{feff}'] {
        assert!(!is_space(c));
    }
}

#[test]
fn has_ending_looks_at_the_end_only() {
    assert!(has_ending("card.js", ".js"));
    assert!(!has_ending("card.json", ".js"));
    assert!(!has_ending("js", ".js"));
    assert!(has_ending("card.js", ""));
}

#[test]
fn matches_at_compares_in_place() {
    assert!(matches_at(&chars("hello"), &chars("ll"), 2));
    assert!(!matches_at(&chars("hello"), &chars("ll"), 1));
    assert!(!matches_at(&chars("hello"), &chars("lo"), 4));
    assert!(matches_at(&chars("hello"), &chars(""), 5));
    assert!(!matches_at(&chars("hello"), &chars(""), 6));
}

#[test]
fn find_returns_the_first_occurrence() {
    assert_eq!(find(&chars("abcabc"), &chars("bc")), Some(1));
    assert_eq!(find(&chars("abcabc"), &chars("cab")), Some(2));
    assert_eq!(find(&chars("abcabc"), &chars("x")), None);
    assert_eq!(find(&chars("abc"), &chars("abcd")), None);
}

#[test]
fn find_of_the_empty_needle_is_the_start() {
    assert_eq!(find(&chars("abc"), &chars("")), Some(0));
    assert_eq!(find(&chars(""), &chars("")), Some(0));
}

#[test]
fn has_part_searches_the_whole_text() {
    assert!(has_part("card.js", ".js"));
    assert!(!has_part("card.ts", ".js"));
}

#[test]
fn has_suffix_looks_at_the_end_only() {
    assert!(has_suffix(&chars("abc,"), &chars(",")));
    assert!(!has_suffix(&chars("a,bc"), &chars(",")));
    assert!(!has_suffix(&chars(""), &chars(",")));
    assert!(has_suffix(&chars("abc"), &chars("")));
}

#[test]
fn same_text_compares_every_character() {
    assert!(same_text("abc", "abc"));
    assert!(!same_text("abc", "abd"));
    assert!(!same_text("abc", "ab"));
    assert!(same_text("", ""));
}

#[test]
fn remove_all_cuts_from_the_left_without_overlap() {
    assert_eq!(remove_all(&chars("xabxab"), &chars("ab")), chars("xx"));
    assert_eq!(remove_all(&chars("aaa"), &chars("aa")), chars("a"));
    assert_eq!(remove_all(&chars("abc"), &chars("x")), chars("abc"));
}

#[test]
fn remove_all_with_an_empty_needle_cuts_nothing() {
    assert_eq!(remove_all(&chars("abc"), &chars("")), chars("abc"));
}

#[test]
fn split_keeps_empty_pieces() {
    assert_eq!(split("a b", ' '), vec!["a".to_string(), "b".to_string()]);
    assert_eq!(
        split(" a  b ", ' '),
        vec!["".to_string(), "a".to_string(), "".to_string(), "b".to_string(), "".to_string()]
    );
    assert_eq!(split("", ' '), vec!["".to_string()]);
}

#[test]
fn join_puts_the_separator_between_neighbours() {
    let parts = vec!["a".to_string(), "b".to_string(), "c".to_string()];
    assert_eq!(join(&parts, ", "), "a, b, c");
    assert_eq!(join(&vec!["a".to_string()], ", "), "a");
    assert_eq!(join(&Vec::new(), ", "), "");
}

#[test]
fn join_undoes_split() {
    let line = " death  knight ";
    assert_eq!(join(&split(line, ' '), " "), line);
}
