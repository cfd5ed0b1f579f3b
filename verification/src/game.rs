//! The rules of the guessing game over an article: which words are shown,
//! and how often a guess occurs.

use vstd::prelude::*;
use vstd::string::*;
use crate::article::{WikiArticle, WikiArticleView};
use crate::section::{Section, SectionView, section_items_view, sections_view};
use crate::text::{lowercase, push_char, same_text, strings_view, to_lowercase};
use crate::token::{Token, TokenView, tokens_view};

verus! {

/// Whether `guess` and `word` are the same word, whatever their case.
pub open spec fn same_word(guess: Seq<char>, word: Seq<char>) -> bool {
    lowercase(guess) == lowercase(word)
}

/// Whether `guesses`, which are kept in lowercase, hold `word`.
pub open spec fn is_guessed_word(word: Seq<char>, guesses: Seq<Seq<char>>) -> bool {
    guesses.contains(lowercase(word))
}

/// Whether every word of the title has been guessed.
pub open spec fn all_words_guessed(title: Seq<TokenView>, guesses: Seq<Seq<char>>) -> bool {
    forall|i: int|
        0 <= i < title.len() ==> ((#[trigger] title[i]) matches TokenView::Word(w)
            ==> is_guessed_word(w, guesses))
}

/// How a word is shown.
#[derive(Debug, Clone, Copy, PartialEq, Eq, Structural)]
pub enum WordDisplay {
    /// The word is the guess that the player has selected.
    Selected,
    /// The word has been guessed, or the whole title has been.
    Revealed,
    /// The word is still hidden.
    Masked,
}

/// How `word` is shown: highlighted where it is the selected guess, in
/// clear where it has been guessed or the title is complete, hidden
/// otherwise.
pub open spec fn display_of(
    word: Seq<char>,
    selected_guess: Seq<char>,
    guesses: Seq<Seq<char>>,
    title_complete: bool,
) -> WordDisplay {
    if same_word(selected_guess, word) {
        WordDisplay::Selected
    } else if is_guessed_word(word, guesses) || title_complete {
        WordDisplay::Revealed
    } else {
        WordDisplay::Masked
    }
}

/// One underscore for each character of `word`.
pub open spec fn masked(word: Seq<char>) -> Seq<char> {
    Seq::new(word.len(), |i: int| '_')
}

/// The text that stands for `word` on the screen: the word itself unless it
/// is hidden, its mask where it is.
pub open spec fn shown_word(
    word: Seq<char>,
    selected_guess: Seq<char>,
    guesses: Seq<Seq<char>>,
    title_complete: bool,
) -> Seq<char> {
    if display_of(word, selected_guess, guesses, title_complete) is Masked {
        masked(word)
    } else {
        word
    }
}

/// The text that stands for a token on the screen: a non-word is always
/// shown as it is.
pub open spec fn shown_token(
    token: TokenView,
    selected_guess: Seq<char>,
    guesses: Seq<Seq<char>>,
    title_complete: bool,
) -> Seq<char> {
    match token {
        TokenView::Word(w) => shown_word(w, selected_guess, guesses, title_complete),
        TokenView::NonWord(w) => w,
    }
}

/// The texts that stand for the tokens, one after the other.
pub open spec fn shown_tokens(
    tokens: Seq<TokenView>,
    selected_guess: Seq<char>,
    guesses: Seq<Seq<char>>,
    title_complete: bool,
) -> Seq<char>
    decreases tokens.len(),
{
    if tokens.len() == 0 {
        Seq::empty()
    } else {
        shown_tokens(tokens.drop_last(), selected_guess, guesses, title_complete) + shown_token(
            tokens.last(),
            selected_guess,
            guesses,
            title_complete,
        )
    }
}

/// Whether the token is the word `word`, whatever their case.
pub open spec fn is_occurrence(word: Seq<char>, token: TokenView) -> bool {
    token matches TokenView::Word(w) && same_word(w, word)
}

/// How often `word` occurs among the tokens.
pub open spec fn count_in_tokens(word: Seq<char>, tokens: Seq<TokenView>) -> nat
    decreases tokens.len(),
{
    if tokens.len() == 0 {
        0
    } else {
        count_in_tokens(word, tokens.drop_last()) + if is_occurrence(word, tokens.last()) {
            1nat
        } else {
            0nat
        }
    }
}

/// How often `word` occurs in a section, the items of a list included.
pub open spec fn count_in_section(word: Seq<char>, section: SectionView) -> nat
    decreases section, 0nat,
{
    match section {
        SectionView::Heading(_, tokens) => count_in_tokens(word, tokens),
        SectionView::Paragraph(tokens) => count_in_tokens(word, tokens),
        SectionView::UnorderedList(items) => count_in_items_upto(word, items, items.len()),
        SectionView::OrderedList(items) => count_in_items_upto(word, items, items.len()),
    }
}

/// How often `word` occurs in the first `n` sections.
pub open spec fn count_in_sections_upto(word: Seq<char>, sections: Seq<SectionView>, n: nat) -> nat
    decreases sections, n,
{
    if n == 0 || n > sections.len() {
        0
    } else {
        count_in_sections_upto(word, sections, (n - 1) as nat) + count_in_section(
            word,
            sections[n - 1],
        )
    }
}

/// How often `word` occurs in the sections.
pub open spec fn count_in_sections(word: Seq<char>, sections: Seq<SectionView>) -> nat
    decreases sections, sections.len() + 1,
{
    count_in_sections_upto(word, sections, sections.len())
}

/// How often `word` occurs in the first `n` items of a list.
pub open spec fn count_in_items_upto(word: Seq<char>, items: Seq<Seq<SectionView>>, n: nat) -> nat
    decreases items, n,
{
    if n == 0 || n > items.len() {
        0
    } else {
        count_in_items_upto(word, items, (n - 1) as nat) + count_in_sections(word, items[n - 1])
    }
}

/// How often `word` occurs in the article, title included.
pub open spec fn count_in_article(word: Seq<char>, article: WikiArticleView) -> nat {
    count_in_tokens(word, article.title) + count_in_sections(word, article.content)
}

/// The count as a machine number, where it is one.
pub open spec fn as_count(n: nat) -> Option<usize> {
    if n <= usize::MAX {
        Some(n as usize)
    } else {
        None
    }
}

/// Whether `guesses` holds `text` as it is.
fn holds(guesses: &Vec<String>, text: &str) -> (found: bool)
    ensures
        found == strings_view(guesses@).contains(text@),
{
    let mut i: usize = 0;
    while i < guesses.len()
        invariant
            i <= guesses.len(),
            forall|k: int| 0 <= k < i ==> strings_view(guesses@)[k] != text@,
        decreases guesses.len() - i,
    {
        if same_text(guesses[i].as_str(), text) {
            proof {
                assert(strings_view(guesses@)[i as int] == text@);
            }
            return true;
        }
        i += 1;
    }
    false
}

/// Whether `word` has been guessed. The guesses are kept in lowercase.
pub fn is_guessed(word: &str, guesses: &Vec<String>) -> (guessed: bool)
    ensures
        guessed == is_guessed_word(word@, strings_view(guesses@)),
{
    let lower = to_lowercase(word);
    holds(guesses, lower.as_str())
}

/// Whether every word of the title has been guessed.
pub fn title_complete(title: &Vec<Token>, guesses: &Vec<String>) -> (complete: bool)
    ensures
        complete == all_words_guessed(tokens_view(title@), strings_view(guesses@)),
{
    let mut i: usize = 0;
    while i < title.len()
        invariant
            i <= title.len(),
            forall|k: int|
                0 <= k < i ==> ((#[trigger] tokens_view(title@)[k]) matches TokenView::Word(w)
                    ==> is_guessed_word(w, strings_view(guesses@))),
        decreases title.len() - i,
    {
        if let Token::Word(w) = &title[i] {
            if !is_guessed(w.as_str(), guesses) {
                proof {
                    assert(tokens_view(title@)[i as int] == TokenView::Word(w@));
                }
                return false;
            }
        }
        i += 1;
    }
    true
}

/// How `word` is shown: highlighted where it is the selected guess, in
/// clear where it has been guessed or the title is complete, hidden
/// otherwise.
pub fn word_display(
    word: &str,
    selected_guess: &str,
    guesses: &Vec<String>,
    title_complete: bool,
) -> (display: WordDisplay)
    ensures
        display == display_of(word@, selected_guess@, strings_view(guesses@), title_complete),
{
    let lower = to_lowercase(word);
    let selected = to_lowercase(selected_guess);
    if same_text(selected.as_str(), lower.as_str()) {
        WordDisplay::Selected
    } else if holds(guesses, lower.as_str()) || title_complete {
        WordDisplay::Revealed
    } else {
        WordDisplay::Masked
    }
}

/// One underscore for each character of `word`.
pub fn mask(word: &str) -> (dashes: String)
    ensures
        dashes@ == masked(word@),
{
    let mut dashes = String::new();
    for c in it: word.chars()
        invariant
            it.seq() == word@,
            dashes@ == Seq::new(it.index() as nat, |i: int| '_'),
    {
        push_char(&mut dashes, '_');
        proof {
            assert(dashes@ =~= Seq::new((it.index() + 1) as nat, |i: int| '_'));
        }
    }
    dashes
}

/// The text that stands for `word` on the screen: the word itself unless it
/// is hidden, its mask where it is.
pub fn get_word(word: &str, selected_guess: &str, guesses: &Vec<String>, title_complete: bool) -> (shown:
    String)
    ensures
        shown@ == shown_word(word@, selected_guess@, strings_view(guesses@), title_complete),
{
    match word_display(word, selected_guess, guesses, title_complete) {
        WordDisplay::Masked => mask(word),
        _ => String::from_str(word),
    }
}

/// The texts that stand for the tokens on the screen, one after the other.
pub fn concat_tokens(
    tokens: &Vec<Token>,
    selected_guess: &str,
    guesses: &Vec<String>,
    title_complete: bool,
) -> (text: String)
    ensures
        text@ == shown_tokens(
            tokens_view(tokens@),
            selected_guess@,
            strings_view(guesses@),
            title_complete,
        ),
{
    let mut result = String::new();
    let mut i: usize = 0;
    while i < tokens.len()
        invariant
            i <= tokens.len(),
            result@ == shown_tokens(
                tokens_view(tokens@).take(i as int),
                selected_guess@,
                strings_view(guesses@),
                title_complete,
            ),
        decreases tokens.len() - i,
    {
        proof {
            let tv = tokens_view(tokens@);
            assert(tv.take(i + 1).drop_last() =~= tv.take(i as int));
            assert(tv.take(i + 1).last() == tokens@[i as int]@);
        }
        match &tokens[i] {
            Token::Word(w) => {
                let shown = get_word(w.as_str(), selected_guess, guesses, title_complete);
                result.append(shown.as_str());
            },
            Token::NonWord(w) => {
                result.append(w.as_str());
            },
        }
        i += 1;
    }
    proof {
        assert(tokens_view(tokens@).take(tokens.len() as int) =~= tokens_view(tokens@));
    }
    result
}

/// How often `word` occurs among the tokens, whatever the case.
pub fn count_word_in_tokens(word: &str, tokens: &Vec<Token>) -> (count: usize)
    ensures
        count == count_in_tokens(word@, tokens_view(tokens@)),
{
    let lower = to_lowercase(word);
    let mut result: usize = 0;
    let mut i: usize = 0;
    while i < tokens.len()
        invariant
            i <= tokens.len(),
            result <= i,
            lower@ == lowercase(word@),
            result == count_in_tokens(word@, tokens_view(tokens@).take(i as int)),
        decreases tokens.len() - i,
    {
        proof {
            let tv = tokens_view(tokens@);
            assert(tv.take(i + 1).drop_last() =~= tv.take(i as int));
            assert(tv.take(i + 1).last() == tokens@[i as int]@);
        }
        if let Token::Word(w) = &tokens[i] {
            let w_lower = to_lowercase(w.as_str());
            if same_text(w_lower.as_str(), lower.as_str()) {
                result += 1;
            }
        }
        i += 1;
    }
    proof {
        assert(tokens_view(tokens@).take(tokens.len() as int) =~= tokens_view(tokens@));
    }
    result
}

/// The count over the first sections never exceeds the count over more of
/// them.
proof fn lemma_count_in_sections_grows(word: Seq<char>, sections: Seq<SectionView>, n: nat, m: nat)
    requires
        n <= m <= sections.len(),
    ensures
        count_in_sections_upto(word, sections, n) <= count_in_sections_upto(word, sections, m),
    decreases m,
{
    if n < m {
        lemma_count_in_sections_grows(word, sections, n, (m - 1) as nat);
    }
}

/// The count over the first items never exceeds the count over more of them.
proof fn lemma_count_in_items_grows(word: Seq<char>, items: Seq<Seq<SectionView>>, n: nat, m: nat)
    requires
        n <= m <= items.len(),
    ensures
        count_in_items_upto(word, items, n) <= count_in_items_upto(word, items, m),
    decreases m,
{
    if n < m {
        lemma_count_in_items_grows(word, items, n, (m - 1) as nat);
    }
}

/// How often `word` occurs in the items of a list; `None` where the count
/// is more than a `usize` holds.
fn count_word_in_items(word: &str, items: &Vec<Vec<Section>>) -> (count: Option<usize>)
    ensures
        count == as_count(
            count_in_items_upto(word@, section_items_view(items@), items@.len()),
        ),
    decreases items, 0nat,
{
    let ghost iv = section_items_view(items@);
    let mut result: usize = 0;
    let mut i: usize = 0;
    while i < items.len()
        invariant
            i <= items.len(),
            iv == section_items_view(items@),
            result == count_in_items_upto(word@, iv, i as nat),
        decreases items.len() - i,
    {
        proof {
            assert(iv[i as int] == sections_view(items@[i as int]@));
            assert(count_in_items_upto(word@, iv, (i + 1) as nat) == count_in_items_upto(
                word@,
                iv,
                i as nat,
            ) + count_in_sections(word@, iv[i as int]));
            lemma_count_in_items_grows(word@, iv, (i + 1) as nat, iv.len());
        }
        match count_word_in_sections(word, &items[i]) {
            None => {
                return None;
            },
            Some(part) => {
                if part > usize::MAX - result {
                    return None;
                }
                result += part;
            },
        }
        i += 1;
    }
    Some(result)
}

/// How often `word` occurs in the sections, whatever the case, the items of
/// lists included; `None` where the count is more than a `usize` holds.
pub fn count_word_in_sections(word: &str, sections: &Vec<Section>) -> (count: Option<usize>)
    ensures
        count == as_count(count_in_sections(word@, sections_view(sections@))),
    decreases sections, 1nat,
{
    let ghost sv = sections_view(sections@);
    let mut result: usize = 0;
    let mut i: usize = 0;
    while i < sections.len()
        invariant
            i <= sections.len(),
            sv == sections_view(sections@),
            result == count_in_sections_upto(word@, sv, i as nat),
        decreases sections.len() - i,
    {
        proof {
            assert(sv[i as int] == sections@[i as int]@);
            assert(count_in_sections_upto(word@, sv, (i + 1) as nat) == count_in_sections_upto(
                word@,
                sv,
                i as nat,
            ) + count_in_section(word@, sv[i as int]));
            lemma_count_in_sections_grows(word@, sv, (i + 1) as nat, sv.len());
        }
        let part = match &sections[i] {
            Section::Heading(_, tokens) => Some(count_word_in_tokens(word, tokens)),
            Section::Paragraph(tokens) => Some(count_word_in_tokens(word, tokens)),
            Section::UnorderedList(items) => count_word_in_items(word, items),
            Section::OrderedList(items) => count_word_in_items(word, items),
        };
        match part {
            None => {
                return None;
            },
            Some(part) => {
                if part > usize::MAX - result {
                    return None;
                }
                result += part;
            },
        }
        i += 1;
    }
    Some(result)
}

/// How often `word` occurs in the article, whatever the case, title
/// included; `None` where the count is more than a `usize` holds.
pub fn count_word_in_article(word: &str, article: &WikiArticle) -> (count: Option<usize>)
    ensures
        count == as_count(count_in_article(word@, article@)),
{
    let in_title = count_word_in_tokens(word, &article.title);
    match count_word_in_sections(word, &article.content) {
        None => None,
        Some(in_content) => {
            if in_content > usize::MAX - in_title {
                None
            } else {
                Some(in_title + in_content)
            }
        },
    }
}

} // verus!
