//! Character classes and string primitives that the tokenizer and the
//! segmenter build on.

use vstd::prelude::*;
use vstd::string::*;

verus! {

/// Whether `c` is alphanumeric in the sense of Unicode, as
/// `char::is_alphanumeric` decides it.
pub uninterp spec fn is_alphanumeric(c: char) -> bool;

/// Whether `c` is white space in the sense of Unicode, as
/// `char::is_whitespace` decides it.
pub uninterp spec fn is_whitespace(c: char) -> bool;

/// The lowercase form of a string, as `str::to_lowercase` computes it.
pub uninterp spec fn lowercase(s: Seq<char>) -> Seq<char>;

/// Calls `char::is_alphanumeric`. The contract only gives the answer its name:
/// the Unicode tables behind it are not restated here.
#[verifier::external_body]
pub(crate) fn char_is_alphanumeric(c: char) -> (b: bool)
    ensures
        b == is_alphanumeric(c),
{
    c.is_alphanumeric()
}

/// Calls `char::is_whitespace`. The contract only gives the answer its name.
#[verifier::external_body]
pub(crate) fn char_is_whitespace(c: char) -> (b: bool)
    ensures
        b == is_whitespace(c),
{
    c.is_whitespace()
}

/// Calls `str::to_lowercase`. The contract only gives the result its name:
/// Unicode's case mapping is not restated here.
#[verifier::external_body]
pub(crate) fn to_lowercase(s: &str) -> (lower: String)
    ensures
        lower@ == lowercase(s@),
{
    s.to_lowercase()
}

/// Calls `String::push`, which appends one character to the end of the string.
#[verifier::external_body]
pub(crate) fn push_char(s: &mut String, c: char)
    ensures
        final(s)@ == old(s)@.push(c),
{
    s.push(c)
}

/// `s` without the white space at its start.
pub open spec fn trim_start(s: Seq<char>) -> Seq<char>
    decreases s.len(),
{
    if s.len() > 0 && is_whitespace(s.first()) {
        trim_start(s.drop_first())
    } else {
        s
    }
}

/// `s` without the white space at its end.
pub open spec fn trim_end(s: Seq<char>) -> Seq<char>
    decreases s.len(),
{
    if s.len() > 0 && is_whitespace(s.last()) {
        trim_end(s.drop_last())
    } else {
        s
    }
}

/// `s` without the white space at its start and at its end.
pub open spec fn trimmed(s: Seq<char>) -> Seq<char> {
    trim_end(trim_start(s))
}

/// The words of `s`: its maximal runs of characters that are not white
/// space, in order. Reading one more character lengthens the last word, where
/// the character before it belongs to a word too, or starts a new word;
/// white space adds nothing.
pub open spec fn words_of(s: Seq<char>) -> Seq<Seq<char>>
    decreases s.len(),
{
    if s.len() == 0 {
        Seq::empty()
    } else {
        let before = words_of(s.drop_last());
        if is_whitespace(s.last()) {
            before
        } else if s.len() >= 2 && !is_whitespace(s[s.len() - 2]) {
            before.drop_last().push(before.last().push(s.last()))
        } else {
            before.push(seq![s.last()])
        }
    }
}

/// The words with one space between each two neighbours.
pub open spec fn join_with_spaces(words: Seq<Seq<char>>) -> Seq<char>
    decreases words.len(),
{
    if words.len() == 0 {
        Seq::empty()
    } else if words.len() == 1 {
        words[0]
    } else {
        join_with_spaces(words.drop_last()) + seq![' '] + words.last()
    }
}

/// The words of `s` but the first, with one space between each two
/// neighbours.
pub open spec fn without_first_word(s: Seq<char>) -> Seq<char> {
    if words_of(s).len() == 0 {
        Seq::empty()
    } else {
        join_with_spaces(words_of(s).drop_first())
    }
}

/// The decimal digits, by value.
pub open spec fn digits() -> Seq<char> {
    "0123456789"@
}

/// The number in decimal notation.
pub open spec fn decimal(n: nat) -> Seq<char>
    decreases n,
{
    if n < 10 {
        seq![digits()[n as int]]
    } else {
        decimal(n / 10).push(digits()[(n % 10) as int])
    }
}

/// The values of a sequence of strings.
pub open spec fn strings_view(strings: Seq<String>) -> Seq<Seq<char>> {
    strings.map_values(|s: String| s@)
}

/// The words read so far: those that are finished, and the one that is
/// still growing, if it has a character yet.
pub open spec fn with_pending_word(done: Seq<Seq<char>>, word: Seq<char>) -> Seq<Seq<char>> {
    if word.len() == 0 {
        done
    } else {
        done.push(word)
    }
}

/// Whether the two strings hold the same characters.
pub fn same_text(a: &str, b: &str) -> (same: bool)
    ensures
        same == (a@ == b@),
{
    String::from_str(a) == String::from_str(b)
}

/// The characters of `s`, in order.
pub fn collect_chars(s: &str) -> (chars: Vec<char>)
    ensures
        chars@ == s@,
{
    let mut chars: Vec<char> = Vec::new();
    for c in it: s.chars()
        invariant
            it.seq() == s@,
            chars@ == it.seq().take(it.index()),
    {
        chars.push(c);
    }
    chars
}

/// `s` without the white space at its start and at its end.
pub fn trim(s: &str) -> (result: String)
    ensures
        result@ == trimmed(s@),
{
    let chars = collect_chars(s);
    let mut start: usize = 0;
    proof {
        assert(chars@.skip(0) =~= chars@);
    }
    while start < chars.len() && char_is_whitespace(chars[start])
        invariant
            start <= chars.len(),
            trim_start(s@) == trim_start(chars@.skip(start as int)),
        decreases chars.len() - start,
    {
        proof {
            assert(chars@.skip(start as int).drop_first() =~= chars@.skip(start as int + 1));
        }
        start += 1;
    }
    let mut end: usize = chars.len();
    proof {
        let rest = chars@.skip(start as int);
        assert(rest =~= chars@.subrange(start as int, end as int));
        assert(rest.len() > 0 ==> rest.first() == chars@[start as int]);
        assert(trim_start(rest) == rest);
    }
    while end > start && char_is_whitespace(chars[end - 1])
        invariant
            start <= end <= chars.len(),
            trimmed(s@) == trim_end(chars@.subrange(start as int, end as int)),
        decreases end,
    {
        proof {
            assert(chars@.subrange(start as int, end as int).drop_last() =~= chars@.subrange(
                start as int,
                end as int - 1,
            ));
        }
        end -= 1;
    }
    let mut result = String::new();
    let mut i: usize = start;
    while i < end
        invariant
            start <= i <= end <= chars.len(),
            result@ == chars@.subrange(start as int, i as int),
        decreases end - i,
    {
        push_char(&mut result, chars[i]);
        proof {
            assert(result@ =~= chars@.subrange(start as int, i as int + 1));
        }
        i += 1;
    }
    result
}

/// The words of `s`: its maximal runs of characters that are not white
/// space.
pub fn split_words(s: &str) -> (words: Vec<String>)
    ensures
        strings_view(words@) == words_of(s@),
{
    let mut done: Vec<String> = Vec::new();
    let mut word = String::new();
    for c in it: s.chars()
        invariant
            it.seq() == s@,
            words_of(s@.take(it.index())) == with_pending_word(strings_view(done@), word@),
            word@.len() > 0 <==> it.index() > 0 && !is_whitespace(s@[it.index() - 1]),
    {
        let ghost before = strings_view(done@);
        let ghost old_word = word@;
        proof {
            assert(s@.take(it.index() + 1).drop_last() =~= s@.take(it.index()));
            assert(s@.take(it.index() + 1).last() == c);
        }
        if char_is_whitespace(c) {
            if !word.as_str().is_empty() {
                done.push(word);
                word = String::new();
                proof {
                    assert(strings_view(done@) =~= before.push(old_word));
                }
            }
        } else {
            push_char(&mut word, c);
            proof {
                if old_word.len() == 0 {
                    assert(word@ =~= seq![c]);
                } else {
                    assert(before.push(old_word).drop_last() =~= before);
                }
            }
        }
    }
    proof {
        assert(s@.take(s@.len() as int) =~= s@);
    }
    if !word.as_str().is_empty() {
        let ghost before = strings_view(done@);
        let ghost last = word@;
        done.push(word);
        proof {
            assert(strings_view(done@) =~= before.push(last));
        }
    }
    done
}

/// The words of `text` but the first, with one space between each two
/// neighbours.
pub fn drop_first_word(text: &str) -> (result: String)
    ensures
        result@ == without_first_word(text@),
{
    let words = split_words(text);
    let mut result = String::new();
    if words.len() == 0 {
        return result;
    }
    let ghost rest = strings_view(words@).drop_first();
    let mut i: usize = 1;
    while i < words.len()
        invariant
            1 <= i <= words.len(),
            rest == strings_view(words@).drop_first(),
            result@ == join_with_spaces(rest.take(i - 1)),
        decreases words.len() - i,
    {
        proof {
            reveal_strlit(" ");
            assert(" "@ =~= seq![' ']);
            assert(rest.take(i as int).drop_last() =~= rest.take(i - 1));
            assert(rest.take(i as int).last() == words@[i as int]@);
        }
        if i > 1 {
            result.append(" ");
        }
        result.append(words[i].as_str());
        proof {
            assert(result@ =~= join_with_spaces(rest.take(i as int)));
        }
        i += 1;
    }
    proof {
        assert(rest.take(words.len() - 1) =~= rest);
    }
    result
}

/// The number in decimal notation.
pub fn decimal_text(n: usize) -> (text: String)
    ensures
        text@ == decimal(n as nat),
{
    proof {
        reveal_strlit("0123456789");
    }
    let mut low: Vec<char> = Vec::new();
    let mut rest: usize = n;
    while rest >= 10
        invariant
            digits().len() == 10,
            decimal(n as nat) == decimal(rest as nat) + low@.reverse(),
        decreases rest,
    {
        let digit = "0123456789".get_char(rest % 10);
        proof {
            let longer = low@.push(digit);
            assert(longer.reverse() =~= seq![digit] + low@.reverse());
            assert(decimal(rest as nat) == decimal((rest / 10) as nat).push(digit));
            assert(decimal((rest / 10) as nat).push(digit) + low@.reverse() =~= decimal(
                (rest / 10) as nat,
            ) + longer.reverse());
        }
        low.push(digit);
        rest = rest / 10;
    }
    let mut text = String::new();
    push_char(&mut text, "0123456789".get_char(rest));
    let mut i: usize = low.len();
    while i > 0
        invariant
            i <= low.len(),
            text@ == decimal(rest as nat) + low@.reverse().take(low.len() - i),
        decreases i,
    {
        i -= 1;
        push_char(&mut text, low[i]);
        proof {
            let turned = low@.reverse();
            assert(turned[low.len() - 1 - i] == low@[i as int]);
            assert(turned.take(low.len() - i) =~= turned.take(low.len() - 1 - i).push(low@[i as int]));
            assert(text@ =~= decimal(rest as nat) + turned.take(low.len() - i));
        }
    }
    proof {
        assert(low@.reverse().take(low.len() as int) =~= low@.reverse());
    }
    text
}

} // verus!
