//! The article as plain text with every word blanked, for a terminal.

use vstd::prelude::*;
use vstd::string::*;
use vstd::utf8::encode_utf8;
use crate::section::{Section, SectionView, section_items_view, sections_view};
use crate::text::{decimal, decimal_text, push_char};
use crate::token::{Token, TokenView, tokens_view};

verus! {

/// `count` times the character `c`.
pub open spec fn repeated(c: char, count: nat) -> Seq<char> {
    Seq::new(count, |i: int| c)
}

/// One underscore for each byte that the word takes in UTF-8.
pub open spec fn blanked(word: Seq<char>) -> Seq<char> {
    repeated('_', encode_utf8(word).len())
}

/// A token as plain text: a word blanked, a non-word as it is.
pub open spec fn plain_token(token: TokenView) -> Seq<char> {
    match token {
        TokenView::Word(w) => blanked(w),
        TokenView::NonWord(w) => w,
    }
}

/// The tokens as plain text, one after the other.
pub open spec fn plain_tokens(tokens: Seq<TokenView>) -> Seq<char>
    decreases tokens.len(),
{
    if tokens.len() == 0 {
        Seq::empty()
    } else {
        plain_tokens(tokens.drop_last()) + plain_token(tokens.last())
    }
}

/// What stands on both sides of a heading: as many equals signs as its
/// level, between two spaces.
pub open spec fn heading_marker(level: nat) -> Seq<char> {
    " "@ + repeated('=', level) + " "@
}

/// What stands before the item at `index` of a list: its index and a full
/// stop in an ordered list, an asterisk in an unordered one.
pub open spec fn item_marker(ordered: bool, index: nat) -> Seq<char> {
    if ordered {
        decimal(index) + ". "@
    } else {
        " * "@
    }
}

/// A section as plain text. A paragraph ends in an empty line, and so does
/// a heading between its markers; a list is its items, each behind its
/// marker.
pub open spec fn plain_section(section: SectionView) -> Seq<char>
    decreases section, 0nat,
{
    match section {
        SectionView::Paragraph(tokens) => plain_tokens(tokens) + "\n\n"@,
        SectionView::Heading(level, tokens) => heading_marker(level) + plain_tokens(tokens)
            + heading_marker(level) + "\n\n"@,
        SectionView::OrderedList(items) => plain_items_upto(items, true, items.len()),
        SectionView::UnorderedList(items) => plain_items_upto(items, false, items.len()),
    }
}

/// The first `n` sections as plain text.
pub open spec fn plain_sections_upto(sections: Seq<SectionView>, n: nat) -> Seq<char>
    decreases sections, n,
{
    if n == 0 || n > sections.len() {
        Seq::empty()
    } else {
        plain_sections_upto(sections, (n - 1) as nat) + plain_section(sections[n - 1])
    }
}

/// The sections as plain text, one after the other.
pub open spec fn plain_sections(sections: Seq<SectionView>) -> Seq<char>
    decreases sections, sections.len() + 1,
{
    plain_sections_upto(sections, sections.len())
}

/// The first `n` items of a list as plain text, each behind its marker.
pub open spec fn plain_items_upto(items: Seq<Seq<SectionView>>, ordered: bool, n: nat) -> Seq<char>
    decreases items, n,
{
    if n == 0 || n > items.len() {
        Seq::empty()
    } else {
        plain_items_upto(items, ordered, (n - 1) as nat) + item_marker(ordered, (n - 1) as nat)
            + plain_sections(items[n - 1])
    }
}

/// `count` times the character `c`.
pub fn repeat_char(c: char, count: usize) -> (text: String)
    ensures
        text@ == repeated(c, count as nat),
{
    let mut text = String::new();
    let mut i: usize = 0;
    while i < count
        invariant
            i <= count,
            text@ == repeated(c, i as nat),
        decreases count - i,
    {
        push_char(&mut text, c);
        proof {
            assert(text@ =~= repeated(c, (i + 1) as nat));
        }
        i += 1;
    }
    text
}

/// The tokens as plain text: each word as one underscore for each of its
/// bytes, each non-word as it is.
pub fn render_tokens(tokens: &Vec<Token>) -> (text: String)
    ensures
        text@ == plain_tokens(tokens_view(tokens@)),
{
    let mut text = String::new();
    let mut i: usize = 0;
    while i < tokens.len()
        invariant
            i <= tokens.len(),
            text@ == plain_tokens(tokens_view(tokens@).take(i as int)),
        decreases tokens.len() - i,
    {
        proof {
            let tv = tokens_view(tokens@);
            assert(tv.take(i + 1).drop_last() =~= tv.take(i as int));
            assert(tv.take(i + 1).last() == tokens@[i as int]@);
        }
        match &tokens[i] {
            Token::Word(w) => {
                let blank = repeat_char('_', w.as_str().as_bytes().len());
                text.append(blank.as_str());
            },
            Token::NonWord(w) => {
                text.append(w.as_str());
            },
        }
        i += 1;
    }
    proof {
        assert(tokens_view(tokens@).take(tokens.len() as int) =~= tokens_view(tokens@));
    }
    text
}

/// The items of a list as plain text, each behind its marker.
fn render_items(items: &Vec<Vec<Section>>, ordered: bool) -> (text: String)
    ensures
        text@ == plain_items_upto(section_items_view(items@), ordered, items@.len()),
    decreases items, 0nat,
{
    let ghost iv = section_items_view(items@);
    let mut text = String::new();
    let mut i: usize = 0;
    while i < items.len()
        invariant
            i <= items.len(),
            iv == section_items_view(items@),
            text@ == plain_items_upto(iv, ordered, i as nat),
        decreases items.len() - i,
    {
        proof {
            assert(iv[i as int] == sections_view(items@[i as int]@));
            assert(plain_items_upto(iv, ordered, (i + 1) as nat) == plain_items_upto(
                iv,
                ordered,
                i as nat,
            ) + item_marker(ordered, i as nat) + plain_sections(iv[i as int]));
        }
        if ordered {
            let index = decimal_text(i);
            text.append(index.as_str());
            text.append(". ");
        } else {
            text.append(" * ");
        }
        let item = render_sections(&items[i]);
        text.append(item.as_str());
        i += 1;
    }
    text
}

/// The sections as plain text with every word blanked: paragraphs and
/// headings end in an empty line, a heading stands between markers of its
/// level, and each list item stands behind its index or an asterisk.
pub fn render_sections(sections: &Vec<Section>) -> (text: String)
    ensures
        text@ == plain_sections(sections_view(sections@)),
    decreases sections, 1nat,
{
    let ghost sv = sections_view(sections@);
    let mut text = String::new();
    let mut i: usize = 0;
    while i < sections.len()
        invariant
            i <= sections.len(),
            sv == sections_view(sections@),
            text@ == plain_sections_upto(sv, i as nat),
        decreases sections.len() - i,
    {
        proof {
            assert(sv[i as int] == sections@[i as int]@);
            assert(plain_sections_upto(sv, (i + 1) as nat) == plain_sections_upto(sv, i as nat)
                + plain_section(sv[i as int]));
        }
        match &sections[i] {
            Section::Paragraph(tokens) => {
                let body = render_tokens(tokens);
                text.append(body.as_str());
                text.append("\n\n");
            },
            Section::Heading(level, tokens) => {
                let mut marker = String::from_str(" ");
                let signs = repeat_char('=', *level);
                marker.append(signs.as_str());
                marker.append(" ");
                let body = render_tokens(tokens);
                text.append(marker.as_str());
                text.append(body.as_str());
                text.append(marker.as_str());
                text.append("\n\n");
            },
            Section::OrderedList(items) => {
                let list = render_items(items, true);
                text.append(list.as_str());
            },
            Section::UnorderedList(items) => {
                let list = render_items(items, false);
                text.append(list.as_str());
            },
        }
        i += 1;
    }
    text
}

} // verus!
