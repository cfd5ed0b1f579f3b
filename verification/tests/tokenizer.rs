use rsdctl::token::{chop_into_tokens, Token};

fn word(text: &str) -> Token {
    Token::Word(String::from(text))
}

fn gap(text: &str) -> Token {
    Token::NonWord(String::from(text))
}

fn text_of(token: &Token) -> &str {
    match token {
        Token::Word(text) => text,
        Token::NonWord(text) => text,
    }
}

fn is_word(token: &Token) -> bool {
    matches!(token, Token::Word(_))
}

fn read_back(tokens: &Vec<Token>) -> String {
    let mut text = String::new();
    for token in tokens {
        text.push_str(text_of(token));
    }
    text
}

#[test]
fn empty_input_has_no_tokens() {
    assert_eq!(chop_into_tokens(""), vec![]);
}

#[test]
fn words_and_gaps_alternate() {
    assert_eq!(
        chop_into_tokens("Hello, world!"),
        vec![word("Hello"), gap(", "), word("world"), gap("!")]
    );
}

#[test]
fn leading_gap_comes_first() {
    assert_eq!(chop_into_tokens("  (a) b"), vec![gap("  ("), word("a"), gap(") "), word("b")]);
}

#[test]
fn text_without_word_is_one_non_word() {
    assert_eq!(chop_into_tokens(" ... !? "), vec![gap(" ... !? ")]);
}

#[test]
fn text_without_gap_is_one_word() {
    assert_eq!(chop_into_tokens("abc123"), vec![word("abc123")]);
}

#[test]
fn input_without_leading_gap_starts_with_word() {
    let tokens = chop_into_tokens("word, then more");
    assert!(is_word(&tokens[0]));
    assert_eq!(tokens[0], word("word"));
}

#[test]
fn single_characters() {
    assert_eq!(chop_into_tokens("a"), vec![word("a")]);
    assert_eq!(chop_into_tokens("-"), vec![gap("-")]);
}

#[test]
fn letters_and_digits_of_any_script_are_words() {
    assert_eq!(
        chop_into_tokens("Ærøskøbing – 東京 ٣٤"),
        vec![word("Ærøskøbing"), gap(" – "), word("東京"), gap(" "), word("٣٤")]
    );
}

#[test]
fn underscore_and_apostrophe_split_words() {
    assert_eq!(
        chop_into_tokens("don't snake_case"),
        vec![word("don"), gap("'"), word("t"), gap(" "), word("snake"), gap("_"), word("case")]
    );
}

#[test]
fn tokens_read_back_give_the_input() {
    for input in ["", "a", " ", "The quick, brown fox: 42 jumps!", "\n\ttabs\tand\nlines\n", "naïve café"] {
        assert_eq!(read_back(&chop_into_tokens(input)), input);
    }
}

#[test]
fn neighbours_differ_in_class() {
    for input in ["a b c", "...a...", "x", "1+1=2", "  two  spaces  "] {
        let tokens = chop_into_tokens(input);
        for pair in tokens.windows(2) {
            assert_ne!(is_word(&pair[0]), is_word(&pair[1]));
        }
    }
}

#[test]
fn tokens_are_never_empty_and_of_one_class() {
    let tokens = chop_into_tokens("Mixed: input_with 3 kinds; of (things).");
    for token in &tokens {
        let text = text_of(token);
        assert!(!text.is_empty());
        assert!(text.chars().all(|c| c.is_alphanumeric() == is_word(token)));
    }
}
