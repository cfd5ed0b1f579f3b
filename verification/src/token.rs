//! Tokens: maximal runs of alphanumeric or of other characters.

use vstd::prelude::*;
use crate::text::{is_alphanumeric, char_is_alphanumeric, push_char};

verus! {

/// A run of text: a word, or what stands between words.
#[derive(Debug, PartialEq, Eq)]
pub enum Token {
    Word(String),
    NonWord(String),
}

/// The mathematical value of a [`Token`].
pub enum TokenView {
    Word(Seq<char>),
    NonWord(Seq<char>),
}

impl TokenView {
    /// The token of the given class that holds `text`.
    pub open spec fn of(word: bool, text: Seq<char>) -> TokenView {
        if word {
            TokenView::Word(text)
        } else {
            TokenView::NonWord(text)
        }
    }

    /// The characters of the token.
    pub open spec fn text(self) -> Seq<char> {
        match self {
            TokenView::Word(text) => text,
            TokenView::NonWord(text) => text,
        }
    }

    /// Whether the token is a word.
    pub open spec fn is_word(self) -> bool {
        self is Word
    }

    /// A token is never empty, a word holds alphanumeric characters only and
    /// a non-word holds none.
    pub open spec fn well_formed(self) -> bool {
        &&& self.text().len() > 0
        &&& forall|i: int|
            0 <= i < self.text().len() ==> is_alphanumeric(#[trigger] self.text()[i])
                == self.is_word()
    }
}

impl View for Token {
    type V = TokenView;

    open spec fn view(&self) -> TokenView {
        match self {
            Token::Word(text) => TokenView::Word(text@),
            Token::NonWord(text) => TokenView::NonWord(text@),
        }
    }
}

/// The values of a sequence of tokens.
pub open spec fn tokens_view(tokens: Seq<Token>) -> Seq<TokenView> {
    tokens.map_values(|t: Token| t@)
}

/// The tokens of `s`. Reading one more character either lengthens the last
/// token, where the character is of its class, or starts a new token.
pub open spec fn tokens_of(s: Seq<char>) -> Seq<TokenView>
    decreases s.len(),
{
    if s.len() == 0 {
        Seq::empty()
    } else {
        let before = tokens_of(s.drop_last());
        let word = is_alphanumeric(s.last());
        if before.len() > 0 && before.last().is_word() == word {
            before.drop_last().push(TokenView::of(word, before.last().text().push(s.last())))
        } else {
            before.push(TokenView::of(word, seq![s.last()]))
        }
    }
}

/// The texts of the tokens, one after the other.
pub open spec fn concat_texts(tokens: Seq<TokenView>) -> Seq<char>
    decreases tokens.len(),
{
    if tokens.len() == 0 {
        Seq::empty()
    } else {
        concat_texts(tokens.drop_last()) + tokens.last().text()
    }
}

/// No two neighbours are both words or both non-words.
pub open spec fn alternating(tokens: Seq<TokenView>) -> bool {
    forall|i: int, j: int|
        0 <= i && j == i + 1 && j < tokens.len() ==> (#[trigger] tokens[i]).is_word() != (
        #[trigger] tokens[j]).is_word()
}

/// `tokens` splits `s` into maximal runs: every token is well formed,
/// neighbours differ in class, and the texts together give `s` back.
pub open spec fn is_tokenization(tokens: Seq<TokenView>, s: Seq<char>) -> bool {
    &&& forall|i: int| 0 <= i < tokens.len() ==> (#[trigger] tokens[i]).well_formed()
    &&& alternating(tokens)
    &&& concat_texts(tokens) == s
}

/// The tokens read so far: those that are finished, and the run that is
/// still growing, if it has a character yet.
pub open spec fn with_pending(done: Seq<TokenView>, word: bool, run: Seq<char>) -> Seq<TokenView> {
    if run.len() == 0 {
        done
    } else {
        done.push(TokenView::of(word, run))
    }
}

/// `tokens_of(s)` is a tokenization of `s`, and where `s` is not empty its
/// last token is of the class of the last character.
pub proof fn lemma_tokens_of_is_tokenization(s: Seq<char>)
    ensures
        is_tokenization(tokens_of(s), s),
        s.len() > 0 ==> tokens_of(s).len() > 0 && tokens_of(s).last().is_word() == is_alphanumeric(
            s.last(),
        ),
        s.len() == 0 ==> tokens_of(s).len() == 0,
    decreases s.len(),
{
    if s.len() == 0 {
        assert(concat_texts(tokens_of(s)) =~= s);
    } else {
        let prefix = s.drop_last();
        let before = tokens_of(prefix);
        let word = is_alphanumeric(s.last());
        let after = tokens_of(s);
        lemma_tokens_of_is_tokenization(prefix);
        assert(s =~= prefix.push(s.last()));
        if before.len() > 0 && before.last().is_word() == word {
            let grown = TokenView::of(word, before.last().text().push(s.last()));
            assert(after == before.drop_last().push(grown));
            assert(after.drop_last() =~= before.drop_last());
            assert(concat_texts(before) == concat_texts(before.drop_last()) + before.last().text());
            assert(grown.text() == before.last().text().push(s.last()));
            assert(concat_texts(after) == concat_texts(after.drop_last()) + after.last().text());
            assert(concat_texts(after) =~= s);
            assert forall|i: int| 0 <= i < after.len() implies (#[trigger] after[i]).well_formed() by {
                if i < after.len() - 1 {
                    assert(after[i] == before[i]);
                } else {
                    assert(before[i].well_formed());
                }
            }
            assert forall|i: int, j: int| 0 <= i && j == i + 1 && j < after.len() implies (
            #[trigger] after[i]).is_word() != (#[trigger] after[j]).is_word() by {
                assert(after[i] == before[i]);
                assert(before[j].is_word() == after[j].is_word());
            }
        } else {
            let fresh = TokenView::of(word, seq![s.last()]);
            assert(after == before.push(fresh));
            assert(after.drop_last() =~= before);
            assert(concat_texts(after) =~= s);
            assert forall|i: int| 0 <= i < after.len() implies (#[trigger] after[i]).well_formed() by {
                if i < after.len() - 1 {
                    assert(after[i] == before[i]);
                }
            }
            assert forall|i: int, j: int| 0 <= i && j == i + 1 && j < after.len() implies (
            #[trigger] after[i]).is_word() != (#[trigger] after[j]).is_word() by {
                assert(after[i] == before[i]);
                if j < after.len() - 1 {
                    assert(after[j] == before[j]);
                }
            }
        }
    }
}

/// Read back in order, the texts of the tokens of `s` give `s`.
pub proof fn lemma_tokens_round_trip(s: Seq<char>)
    ensures
        concat_texts(tokens_of(s)) == s,
{
    lemma_tokens_of_is_tokenization(s);
}

/// No two neighbours among the tokens of `s` are both words or both
/// non-words.
pub proof fn lemma_tokens_alternate(s: Seq<char>, i: int)
    requires
        0 <= i,
        i + 1 < tokens_of(s).len(),
    ensures
        tokens_of(s)[i].is_word() != tokens_of(s)[i + 1].is_word(),
{
    lemma_tokens_of_is_tokenization(s);
}

/// Every token of `s` is well formed: it is not empty, and its characters
/// are all alphanumeric in a word and all not alphanumeric in a non-word.
pub proof fn lemma_tokens_well_formed(s: Seq<char>, i: int)
    requires
        0 <= i < tokens_of(s).len(),
    ensures
        tokens_of(s)[i].well_formed(),
{
    lemma_tokens_of_is_tokenization(s);
}

/// A text without an alphanumeric character is one non-word, unless it is
/// empty.
pub proof fn lemma_tokens_without_word(s: Seq<char>)
    requires
        s.len() > 0,
        forall|i: int| 0 <= i < s.len() ==> !is_alphanumeric(#[trigger] s[i]),
    ensures
        tokens_of(s) == seq![TokenView::NonWord(s)],
    decreases s.len(),
{
    let prefix = s.drop_last();
    if prefix.len() == 0 {
        assert(tokens_of(prefix) =~= Seq::empty());
        assert(seq![s.last()] =~= s);
        assert(tokens_of(s) =~= seq![TokenView::NonWord(s)]);
    } else {
        assert forall|i: int| 0 <= i < prefix.len() implies !is_alphanumeric(#[trigger] prefix[i]) by {
            assert(prefix[i] == s[i]);
        }
        lemma_tokens_without_word(prefix);
        assert(prefix.push(s.last()) =~= s);
        assert(tokens_of(s) =~= seq![TokenView::NonWord(s)]);
    }
}

/// The first token of a text is of the class of its first character: a text
/// that starts with an alphanumeric character starts with a word.
pub proof fn lemma_first_token_class(s: Seq<char>)
    requires
        s.len() > 0,
    ensures
        tokens_of(s).len() > 0,
        tokens_of(s).first().is_word() == is_alphanumeric(s.first()),
    decreases s.len(),
{
    let prefix = s.drop_last();
    lemma_tokens_of_is_tokenization(prefix);
    if prefix.len() > 0 {
        lemma_first_token_class(prefix);
        assert(prefix.first() == s.first());
    }
}

/// The texts of tokens that are not empty are together at least as long as
/// the last of them.
proof fn lemma_concat_texts_len(tokens: Seq<TokenView>)
    requires
        tokens.len() > 0,
    ensures
        concat_texts(tokens).len() >= tokens.last().text().len(),
{
}

/// A text has one tokenization only: whatever splits `s` into well-formed
/// tokens that alternate is `tokens_of(s)`.
pub proof fn lemma_tokenization_is_unique(tokens: Seq<TokenView>, s: Seq<char>)
    requires
        is_tokenization(tokens, s),
    ensures
        tokens == tokens_of(s),
    decreases s.len(),
{
    if tokens.len() == 0 {
        assert(s.len() == 0);
        assert(tokens =~= tokens_of(s));
    } else {
        let last = tokens.last();
        let text = last.text();
        let front = tokens.drop_last();
        lemma_concat_texts_len(tokens);
        assert(last.well_formed());
        assert(s == concat_texts(front) + text);
        assert(s.last() == text.last());
        let word = is_alphanumeric(s.last());
        assert(word == last.is_word());
        let prefix = s.drop_last();
        if text.len() == 1 {
            assert(prefix =~= concat_texts(front));
            assert forall|i: int, j: int| 0 <= i && j == i + 1 && j < front.len() implies (
            #[trigger] front[i]).is_word() != (#[trigger] front[j]).is_word() by {
                assert(front[i] == tokens[i]);
                assert(front[j] == tokens[j]);
            }
            assert forall|i: int| 0 <= i < front.len() implies (#[trigger] front[i]).well_formed() by {
                assert(front[i] == tokens[i]);
            }
            lemma_tokenization_is_unique(front, prefix);
            if front.len() > 0 {
                assert(front.last() == tokens[tokens.len() - 2]);
                assert(tokens[tokens.len() - 2].is_word() != tokens[tokens.len() - 1].is_word());
            }
            assert(text =~= seq![s.last()]);
            assert(last == TokenView::of(word, seq![s.last()]));
            assert(tokens =~= front.push(last));
        } else {
            let shorter = TokenView::of(word, text.drop_last());
            let before = front.push(shorter);
            assert(before.drop_last() =~= front);
            assert(concat_texts(before) == concat_texts(front) + text.drop_last());
            assert(prefix =~= concat_texts(before));
            assert forall|i: int, j: int| 0 <= i && j == i + 1 && j < before.len() implies (
            #[trigger] before[i]).is_word() != (#[trigger] before[j]).is_word() by {
                assert(before[i] == tokens[i]);
                assert(before[j].is_word() == tokens[j].is_word());
            }
            assert forall|i: int| 0 <= i < before.len() implies (#[trigger] before[i]).well_formed() by {
                if i < front.len() {
                    assert(before[i] == tokens[i]);
                } else {
                    assert forall|k: int| 0 <= k < shorter.text().len() implies is_alphanumeric(
                        #[trigger] shorter.text()[k],
                    ) == shorter.is_word() by {
                        assert(shorter.text()[k] == text[k]);
                    }
                }
            }
            lemma_tokenization_is_unique(before, prefix);
            assert(text.drop_last().push(s.last()) =~= text);
            assert(last == TokenView::of(word, text));
            assert(tokens =~= front.push(last));
        }
    }
}

/// Splits `input` into its tokens: maximal runs of alphanumeric characters
/// (words) and of other characters (non-words), in order.
pub fn chop_into_tokens(input: &str) -> (tokens: Vec<Token>)
    ensures
        tokens_view(tokens@) == tokens_of(input@),
        is_tokenization(tokens_view(tokens@), input@),
{
    let mut result: Vec<Token> = Vec::new();
    let mut run = String::new();
    let mut in_word = false;
    for c in it: input.chars()
        invariant
            it.seq() == input@,
            run@.len() == 0 ==> result@.len() == 0,
            tokens_of(input@.take(it.index())) == with_pending(tokens_view(result@), in_word, run@),
    {
        let ghost done = tokens_view(result@);
        let ghost old_run = run@;
        let ghost old_word = in_word;
        proof {
            assert(input@.take(it.index() + 1).drop_last() =~= input@.take(it.index()));
            assert(input@.take(it.index() + 1).last() == c);
        }
        let word = char_is_alphanumeric(c);
        if !run.as_str().is_empty() && word != in_word {
            result.push(make_token(in_word, run));
            run = String::new();
            proof {
                assert(tokens_view(result@) =~= done.push(TokenView::of(old_word, old_run)));
            }
        }
        in_word = word;
        push_char(&mut run, c);
        proof {
            let before = tokens_of(input@.take(it.index()));
            let now = with_pending(tokens_view(result@), in_word, run@);
            assert(before == with_pending(done, old_word, old_run));
            if old_run.len() == 0 {
                assert(run@ =~= seq![c]);
                assert(before.len() == 0);
            } else if word == old_word {
                assert(before.last() == TokenView::of(old_word, old_run));
                assert(before.drop_last() =~= done);
                assert(run@ == old_run.push(c));
            } else {
                assert(before.last() == TokenView::of(old_word, old_run));
                assert(run@ =~= seq![c]);
            }
            assert(now =~= tokens_of(input@.take(it.index() + 1)));
        }
    }
    proof {
        assert(input@.take(input@.len() as int) =~= input@);
    }
    if !run.as_str().is_empty() {
        let ghost done = tokens_view(result@);
        result.push(make_token(in_word, run));
        proof {
            assert(tokens_view(result@) =~= done.push(TokenView::of(in_word, run@)));
        }
    }
    proof {
        lemma_tokens_of_is_tokenization(input@);
    }
    result
}

/// The token of the given class that holds `text`.
fn make_token(word: bool, text: String) -> (token: Token)
    ensures
        token@ == TokenView::of(word, text@),
{
    if word {
        Token::Word(text)
    } else {
        Token::NonWord(text)
    }
}

} // verus!
