use matrix_commander_ng::text::{
    chars_of, contains_char, contains_text, copy_texts, count_of, decimal_of, ends_with, is_blank,
    is_whitespace, join, matches_at, remove_white, replace_text, same_text, split_text,
    starts_with, string_of, trim, trim_end,
};

fn list(parts: &[&str]) -> Vec<String> {
    parts.iter().map(|p| p.to_string()).collect()
}

#[test]
fn white_space_is_that_of_unicode() {
    for n in 0..0x11_0000u32 {
        if let Some(c) = char::from_u32(n) {
            assert_eq!(is_whitespace(c), c.is_whitespace(), "{n:x}");
        }
    }
}

#[test]
fn trimming() {
    for s in ["", " ", " a b\t\n", "a", "\u{3000}x\u{a0}", "\n\n"] {
        assert_eq!(trim(s), s.trim());
        assert_eq!(trim_end(s), s.trim_end());
        assert_eq!(is_blank(s), s.trim().is_empty());
    }
    assert_eq!(remove_white(" a\tb \u{2003}c\n"), "abc");
}

#[test]
fn searching() {
    assert!(starts_with("mxc://x", "mxc://"));
    assert!(!starts_with("mx", "mxc://"));
    assert!(ends_with("file.tar.gz", ".gz"));
    assert!(!ends_with("gz", ".gz"));
    assert!(contains_char("a:b", ':'));
    assert!(!contains_char("", ':'));
    assert_eq!(count_of("!a:b:c", ':'), 2);
    assert!(contains_text("aaab", "aab"));
    assert!(contains_text("x", ""));
    assert!(!contains_text("ab", "ba"));
    assert!(same_text("é", "é"));
    assert!(!same_text("e", "é"));
}

#[test]
fn replacing_and_splitting_agree_with_std() {
    for s in ["", "aaa", "abcabc", "a\\nb\\n", "\\n\\n\\n", "xaxax"] {
        for p in ["a", "aa", "\\n", "abc", "xax"] {
            assert_eq!(replace_text(s, p, "<>"), s.replace(p, "<>"));
            let parts: Vec<String> = s.split(p).map(|t| t.to_string()).collect();
            assert_eq!(split_text(s, p), parts);
            assert_eq!(join(&parts, p), s);
        }
    }
    assert_eq!(replace_text("ab", "", "-"), "ab");
}

#[test]
fn splitting_at_nothing() {
    let parts: Vec<String> = "ab".split("").map(|t| t.to_string()).collect();
    assert_eq!(split_text("ab", ""), parts);
}

#[test]
fn joining() {
    assert_eq!(join(&list(&[]), ", "), "");
    assert_eq!(join(&list(&["a"]), ", "), "a");
    assert_eq!(join(&list(&["a", "", "b"]), ", "), "a, , b");
}

#[test]
fn decimals() {
    for n in [0, 7, 10, 99, 100, 65535, 1_700_000_000_000, u64::MAX] {
        assert_eq!(decimal_of(n), n.to_string());
    }
}

#[test]
fn characters() {
    let cs = chars_of("aé😀");
    assert_eq!(cs, vec!['a', 'é', '😀']);
    assert_eq!(string_of(&cs, 1, 3), "é😀");
    assert_eq!(string_of(&cs, 2, 2), "");
    assert!(matches_at(&cs, &chars_of("é"), 1));
    assert!(!matches_at(&cs, &chars_of("éé"), 1));
    assert!(!matches_at(&cs, &chars_of("a"), 3));
    assert_eq!(copy_texts(&list(&["x", ""])), list(&["x", ""]));
}
