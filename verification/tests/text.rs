//! Text.
use mox::text::{
    first_word, join, lines, pad_left, pad_right, same_text, split_once, trim, truncate, words,
};

#[test]
fn lines_are_those_of_the_standard_library() {
    for s in ["", "\n", "a", "a\n", "a\nb", "a\r\nb\r", "\r\n", "a\n\nb\n", "\ra\n", "a\r\r\n"] {
        let want: Vec<&str> = s.lines().collect();
        assert_eq!(lines(s), want, "{s:?}");
    }
}

#[test]
fn trimming_takes_all_white_space() {
    for s in ["", " ", "a", " a ", "\t\u{a0}a b\u{3000}\n", "\u{2028}x\u{85}", "\u{200b}x"] {
        assert_eq!(trim(s), s.trim(), "{s:?}");
    }
}

#[test]
fn words_are_cut_at_white_space_and_commas() {
    assert_eq!(words(" a, b,,c ", true), vec!["a", "b", "c"]);
    assert_eq!(words("a,b c", false), vec!["a,b", "c"]);
    assert!(words("  ", false).is_empty());
    assert_eq!(first_word("  x y").as_deref(), Some("x"));
    assert_eq!(first_word("   "), None);
}

#[test]
fn texts_are_joined_and_cut() {
    assert_eq!(join(&vec!["a".into(), "b".into(), "c".into()], ", "), "a, b, c");
    assert_eq!(join(&vec![], ", "), "");
    assert_eq!(split_once("a=b=c", '='), Some(("a", "b=c")));
    assert_eq!(split_once("a", '='), None);
}

#[test]
fn long_texts_end_in_an_ellipsis() {
    assert_eq!(truncate("abcdef", 4), "abc…");
    assert_eq!(truncate("abcd", 4), "abcd");
    assert_eq!(truncate("äöü", 2), "ä…");
}

#[test]
fn padding_counts_characters() {
    assert_eq!(pad_right("ä", 3), format!("{:<3}", "ä"));
    assert_eq!(pad_left("—", 4), format!("{:>4}", "—"));
    assert_eq!(pad_right("long", 2), "long");
    assert_eq!(pad_left("long", 2), "long");
}

#[test]
fn texts_are_told_apart() {
    assert!(same_text("abc", "abc"));
    assert!(!same_text("abc", "abd"));
    assert!(!same_text("abc", "ab"));
    assert!(same_text("", ""));
}

#[test]
fn joined_words_are_split_into_the_same_words() {
    for s in ["", "a", "a b,c", " , x\u{a0}y ,,z"] {
        let ws = words(s, true);
        assert_eq!(words(&join(&ws, ","), true), ws, "{s:?}");
    }
}
