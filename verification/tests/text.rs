use rsdctl::text::{collect_chars, drop_first_word, same_text, split_words, trim};

#[test]
fn trim_removes_white_space_at_both_ends() {
    assert_eq!(trim("  \t a b \n"), "a b");
    assert_eq!(trim("a b"), "a b");
    assert_eq!(trim(""), "");
    assert_eq!(trim(" \n\t "), "");
    assert_eq!(trim("\u{a0}x\u{2003}"), "x");
}

#[test]
fn trim_agrees_with_std() {
    for input in ["", " ", "x", " x", "x ", "  inner  space  ", "\u{3000}wide\u{3000}"] {
        assert_eq!(trim(input), input.trim());
    }
}

#[test]
fn split_words_gives_the_runs_between_white_space() {
    assert_eq!(split_words("  one two\tthree\n"), vec!["one", "two", "three"]);
    assert_eq!(split_words("single"), vec!["single"]);
    assert_eq!(split_words(""), Vec::<String>::new());
    assert_eq!(split_words(" \n "), Vec::<String>::new());
}

#[test]
fn split_words_agrees_with_std() {
    for input in ["", "a", " a  b ", "a\u{a0}b", "http://x.org rest of  it "] {
        let expected: Vec<String> = input.split_whitespace().map(String::from).collect();
        assert_eq!(split_words(input), expected);
    }
}

#[test]
fn drop_first_word_joins_the_rest_with_single_spaces() {
    assert_eq!(drop_first_word("http://example.org  some   words "), "some words");
    assert_eq!(drop_first_word("http://example.org"), "");
    assert_eq!(drop_first_word(""), "");
    assert_eq!(drop_first_word("  a b"), "b");
    assert_eq!(drop_first_word("a b c d"), "b c d");
}

#[test]
fn same_text_compares_characters() {
    assert!(same_text("abc", "abc"));
    assert!(same_text("", ""));
    assert!(!same_text("abc", "abd"));
    assert!(!same_text("abc", "ab"));
    assert!(!same_text("abc", "ABC"));
}

#[test]
fn collect_chars_keeps_order() {
    assert_eq!(collect_chars("héé!"), vec!['h', 'é', 'é', '!']);
    assert_eq!(collect_chars(""), Vec::<char>::new());
}
