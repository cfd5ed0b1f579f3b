//! Sections: the block structure of an article, and the segmenter that
//! groups a sequence of markup nodes into it.

use vstd::prelude::*;
use vstd::string::*;
use crate::inline::{get_inline_text, get_template_text, inline_text, node_text};
use crate::markup::{MarkupNode, MarkupNodeView, items_view, nodes_view};
use crate::text::{drop_first_word, push_char, trim, trimmed, without_first_word};
use crate::token::{
    Token, TokenView, chop_into_tokens, lemma_tokens_of_is_tokenization, tokens_of, tokens_view,
};

verus! {

/// A block of an article. Each item of a list is a sequence of sections of
/// its own.
#[derive(Debug, PartialEq, Eq)]
pub enum Section {
    Heading(usize, Vec<Token>),
    Paragraph(Vec<Token>),
    UnorderedList(Vec<Vec<Section>>),
    OrderedList(Vec<Vec<Section>>),
}

/// The mathematical value of a [`Section`].
pub enum SectionView {
    Heading(nat, Seq<TokenView>),
    Paragraph(Seq<TokenView>),
    UnorderedList(Seq<Seq<SectionView>>),
    OrderedList(Seq<Seq<SectionView>>),
}

/// The value of one section.
pub open spec fn section_view(section: Section) -> SectionView
    decreases section, 0nat,
{
    match section {
        Section::Heading(level, tokens) => SectionView::Heading(level as nat, tokens_view(tokens@)),
        Section::Paragraph(tokens) => SectionView::Paragraph(tokens_view(tokens@)),
        Section::UnorderedList(items) => SectionView::UnorderedList(section_items_view(items@)),
        Section::OrderedList(items) => SectionView::OrderedList(section_items_view(items@)),
    }
}

/// The values of a sequence of sections.
pub open spec fn sections_view(sections: Seq<Section>) -> Seq<SectionView>
    decreases sections, 1nat,
{
    Seq::new(
        sections.len(),
        |i: int|
            if 0 <= i < sections.len() {
                section_view(sections[i])
            } else {
                SectionView::Paragraph(Seq::empty())
            },
    )
}

/// The values of the items of a list.
pub open spec fn section_items_view(items: Seq<Vec<Section>>) -> Seq<Seq<SectionView>>
    decreases items, 2nat,
{
    Seq::new(
        items.len(),
        |i: int|
            if 0 <= i < items.len() {
                sections_view(items[i]@)
            } else {
                Seq::empty()
            },
    )
}

impl View for Section {
    type V = SectionView;

    open spec fn view(&self) -> SectionView {
        section_view(*self)
    }
}

/// What the segmenter holds between two nodes: the sections that are
/// finished, and the text of the paragraph that is still open.
pub struct Segmenter {
    pub sections: Seq<SectionView>,
    pub buffer: Seq<char>,
}

/// Whether a node of this kind closes the paragraph that is open.
pub open spec fn ends_paragraph(node: MarkupNodeView) -> bool {
    ||| node is Heading
    ||| node is HorizontalDivider
    ||| node is OrderedList
    ||| node is ParagraphBreak
    ||| node is UnorderedList
}

/// Closes the open paragraph: where its text holds more than white space,
/// the trimmed text becomes a paragraph. The buffer is empty afterwards.
pub open spec fn flushed(state: Segmenter) -> Segmenter {
    if trimmed(state.buffer).len() > 0 {
        Segmenter {
            sections: state.sections.push(SectionView::Paragraph(tokens_of(trimmed(state.buffer)))),
            buffer: Seq::empty(),
        }
    } else {
        Segmenter { sections: state.sections, buffer: Seq::empty() }
    }
}

/// The state after one more node. A node that ends a paragraph closes the
/// open one first. Then a heading or a list becomes a section at once, inline
/// content is added to the open paragraph, and any other node changes
/// nothing.
pub open spec fn step(state: Segmenter, node: MarkupNodeView) -> Segmenter
    decreases node, 0nat,
{
    let state = if ends_paragraph(node) {
        flushed(state)
    } else {
        state
    };
    match node {
        MarkupNodeView::CharacterEntity(c) => Segmenter { buffer: state.buffer.push(c), ..state },
        MarkupNodeView::ExternalLink(nodes) => Segmenter {
            buffer: state.buffer + without_first_word(inline_text(nodes)),
            ..state
        },
        MarkupNodeView::Heading(level, nodes) => Segmenter {
            sections: state.sections.push(SectionView::Heading(level, tokens_of(inline_text(nodes)))),
            ..state
        },
        MarkupNodeView::Link(text) => Segmenter { buffer: state.buffer + inline_text(text), ..state },
        MarkupNodeView::OrderedList(items) => Segmenter {
            sections: state.sections.push(SectionView::OrderedList(segment_items(items))),
            ..state
        },
        MarkupNodeView::Template(_, _) => Segmenter { buffer: state.buffer + node_text(node), ..state },
        MarkupNodeView::Text(value) => Segmenter { buffer: state.buffer + value, ..state },
        MarkupNodeView::UnorderedList(items) => Segmenter {
            sections: state.sections.push(SectionView::UnorderedList(segment_items(items))),
            ..state
        },
        _ => state,
    }
}

/// The state after the first `n` nodes, from nothing.
pub open spec fn segment_upto(nodes: Seq<MarkupNodeView>, n: nat) -> Segmenter
    decreases nodes, n,
{
    if n == 0 || n > nodes.len() {
        Segmenter { sections: Seq::empty(), buffer: Seq::empty() }
    } else {
        step(segment_upto(nodes, (n - 1) as nat), nodes[n - 1])
    }
}

/// The sections of a sequence of nodes: what is finished after the last
/// node, once the open paragraph is closed.
pub open spec fn segment(nodes: Seq<MarkupNodeView>) -> Seq<SectionView>
    decreases nodes, nodes.len() + 1,
{
    flushed(segment_upto(nodes, nodes.len())).sections
}

/// The sections of each item of a list.
pub open spec fn segment_items(items: Seq<Seq<MarkupNodeView>>) -> Seq<Seq<SectionView>>
    decreases items, 0nat,
{
    Seq::new(
        items.len(),
        |i: int|
            if 0 <= i < items.len() {
                segment(items[i])
            } else {
                Seq::empty()
            },
    )
}

/// A paragraph holds at least one token.
pub open spec fn is_filled(section: SectionView) -> bool {
    section matches SectionView::Paragraph(tokens) ==> tokens.len() > 0
}

/// Closing the open paragraph adds no paragraph without a token.
proof fn lemma_flushed_is_filled(state: Segmenter)
    requires
        forall|i: int| 0 <= i < state.sections.len() ==> is_filled(#[trigger] state.sections[i]),
    ensures
        forall|i: int|
            0 <= i < flushed(state).sections.len() ==> is_filled(#[trigger] flushed(state).sections[i]),
{
    lemma_tokens_of_is_tokenization(trimmed(state.buffer));
}

/// One more node adds no paragraph without a token.
proof fn lemma_step_is_filled(state: Segmenter, node: MarkupNodeView)
    requires
        forall|i: int| 0 <= i < state.sections.len() ==> is_filled(#[trigger] state.sections[i]),
    ensures
        forall|i: int|
            0 <= i < step(state, node).sections.len() ==> is_filled(
                #[trigger] step(state, node).sections[i],
            ),
{
    let start = if ends_paragraph(node) {
        flushed(state)
    } else {
        state
    };
    lemma_flushed_is_filled(state);
    let after = step(state, node);
    assert forall|i: int| 0 <= i < after.sections.len() implies is_filled(
        #[trigger] after.sections[i],
    ) by {
        if i < start.sections.len() {
            assert(after.sections[i] == start.sections[i]);
        }
    }
}

/// After any number of nodes, no finished paragraph is without a token.
proof fn lemma_segment_upto_is_filled(nodes: Seq<MarkupNodeView>, n: nat)
    ensures
        forall|i: int|
            0 <= i < segment_upto(nodes, n).sections.len() ==> is_filled(
                #[trigger] segment_upto(nodes, n).sections[i],
            ),
    decreases n,
{
    if n == 0 || n > nodes.len() {
        assert(segment_upto(nodes, n).sections.len() == 0);
    } else {
        let before = segment_upto(nodes, (n - 1) as nat);
        lemma_segment_upto_is_filled(nodes, (n - 1) as nat);
        lemma_step_is_filled(before, nodes[n - 1]);
        assert(segment_upto(nodes, n) == step(before, nodes[n - 1]));
    }
}

/// White space alone makes no paragraph: every paragraph among the sections
/// of `nodes` holds at least one token.
pub proof fn lemma_no_blank_paragraph(nodes: Seq<MarkupNodeView>, i: int)
    requires
        0 <= i < segment(nodes).len(),
    ensures
        is_filled(segment(nodes)[i]),
{
    lemma_segment_upto_is_filled(nodes, nodes.len());
    lemma_flushed_is_filled(segment_upto(nodes, nodes.len()));
}

/// Two texts with a paragraph break between them give two paragraphs, each
/// with the tokens of its own trimmed text, where neither text is blank.
pub proof fn lemma_paragraph_break_separates(first: Seq<char>, second: Seq<char>)
    requires
        trimmed(first).len() > 0,
        trimmed(second).len() > 0,
    ensures
        segment(
            seq![
                MarkupNodeView::Text(first),
                MarkupNodeView::ParagraphBreak,
                MarkupNodeView::Text(second),
            ],
        ) == seq![
            SectionView::Paragraph(tokens_of(trimmed(first))),
            SectionView::Paragraph(tokens_of(trimmed(second))),
        ],
{
    let nodes = seq![
        MarkupNodeView::Text(first),
        MarkupNodeView::ParagraphBreak,
        MarkupNodeView::Text(second),
    ];
    let start = segment_upto(nodes, 0);
    let one = segment_upto(nodes, 1);
    let two = segment_upto(nodes, 2);
    let three = segment_upto(nodes, 3);
    assert(one == step(start, nodes[0]));
    assert(two == step(one, nodes[1]));
    assert(three == step(two, nodes[2]));
    assert(one.buffer =~= first);
    assert(two.buffer =~= Seq::<char>::empty());
    assert(three.buffer =~= second);
    assert(segment(nodes) =~= seq![
        SectionView::Paragraph(tokens_of(trimmed(first))),
        SectionView::Paragraph(tokens_of(trimmed(second))),
    ]);
}

/// A paragraph break after a text that is blank gives no paragraph.
pub proof fn lemma_blank_text_gives_no_paragraph(blank: Seq<char>)
    requires
        trimmed(blank).len() == 0,
    ensures
        segment(seq![MarkupNodeView::Text(blank), MarkupNodeView::ParagraphBreak]) == Seq::<
            SectionView,
        >::empty(),
{
    let nodes = seq![MarkupNodeView::Text(blank), MarkupNodeView::ParagraphBreak];
    let one = segment_upto(nodes, 1);
    let two = segment_upto(nodes, 2);
    assert(one == step(segment_upto(nodes, 0), nodes[0]));
    assert(two == step(one, nodes[1]));
    assert(one.buffer =~= blank);
    assert(trimmed(Seq::<char>::empty()) =~= Seq::<char>::empty());
    assert(segment(nodes) =~= Seq::<SectionView>::empty());
}

/// The state that the two values stand for.
pub open spec fn state_of(sections: Seq<Section>, buffer: Seq<char>) -> Segmenter {
    Segmenter { sections: sections_view(sections), buffer }
}

/// Closes the open paragraph: where its text holds more than white space,
/// the tokens of the trimmed text are appended as a paragraph. The buffer is
/// empty afterwards.
fn flush_paragraph(result: &mut Vec<Section>, current_para: &mut String)
    ensures
        state_of(final(result)@, final(current_para)@) == flushed(
            state_of(old(result)@, old(current_para)@),
        ),
{
    let ghost before = sections_view(result@);
    let text = trim(current_para.as_str());
    if !text.as_str().is_empty() {
        let tokens = chop_into_tokens(text.as_str());
        result.push(Section::Paragraph(tokens));
        proof {
            assert(sections_view(result@) =~= before.push(
                SectionView::Paragraph(tokens_of(text@)),
            ));
        }
    }
    *current_para = String::new();
}

/// The sections of each item of a list.
fn get_item_sections(items: &Vec<Vec<MarkupNode>>) -> (sections: Vec<Vec<Section>>)
    ensures
        section_items_view(sections@) == segment_items(items_view(items@)),
    decreases items, 0nat,
{
    let mut sections: Vec<Vec<Section>> = Vec::new();
    let mut i: usize = 0;
    while i < items.len()
        invariant
            i <= items.len(),
            sections@.len() == i,
            forall|k: int|
                0 <= k < i ==> sections_view(#[trigger] sections@[k]@) == segment(
                    nodes_view(items@[k]@),
                ),
        decreases items.len() - i,
    {
        let item = get_sections(&items[i]);
        sections.push(item);
        i += 1;
    }
    proof {
        assert(section_items_view(sections@) =~= segment_items(items_view(items@)));
    }
    sections
}

/// Groups the nodes into sections, in source order. Headings and lists
/// become sections of their own, each list item segmented in turn; the inline
/// content between them is gathered into paragraphs, each trimmed, split
/// into tokens, and left out where it holds nothing but white space.
pub fn get_sections(nodes: &Vec<MarkupNode>) -> (sections: Vec<Section>)
    ensures
        sections_view(sections@) == segment(nodes_view(nodes@)),
    decreases nodes, 0nat,
{
    let mut result: Vec<Section> = Vec::new();
    let mut current_para = String::new();
    let mut i: usize = 0;
    proof {
        assert(sections_view(result@) =~= Seq::empty());
    }
    while i < nodes.len()
        invariant
            i <= nodes.len(),
            state_of(result@, current_para@) == segment_upto(nodes_view(nodes@), i as nat),
        decreases nodes.len() - i,
    {
        let node = &nodes[i];
        proof {
            let nv = nodes_view(nodes@);
            assert(nv[i as int] == node@);
            assert(segment_upto(nv, (i + 1) as nat) == step(segment_upto(nv, i as nat), nv[i as int]));
        }
        match node {
            MarkupNode::Heading(_, _)
            | MarkupNode::HorizontalDivider
            | MarkupNode::OrderedList(_)
            | MarkupNode::ParagraphBreak
            | MarkupNode::UnorderedList(_) => {
                flush_paragraph(&mut result, &mut current_para);
            },
            _ => {},
        }
        let ghost before = sections_view(result@);
        match node {
            MarkupNode::CharacterEntity(c) => {
                push_char(&mut current_para, *c);
            },
            MarkupNode::ExternalLink(nodes) => {
                let link_text = get_inline_text(nodes);
                let without_url = drop_first_word(link_text.as_str());
                current_para.append(without_url.as_str());
            },
            MarkupNode::Heading(level, nodes) => {
                let heading_text = get_inline_text(nodes);
                let tokens = chop_into_tokens(heading_text.as_str());
                let section = Section::Heading(*level as usize, tokens);
                result.push(section);
                proof {
                    assert(sections_view(result@) =~= before.push(section@));
                }
            },
            MarkupNode::Link(text) => {
                let link_text = get_inline_text(text);
                current_para.append(link_text.as_str());
            },
            MarkupNode::OrderedList(items) => {
                let section = Section::OrderedList(get_item_sections(items));
                result.push(section);
                proof {
                    assert(sections_view(result@) =~= before.push(section@));
                }
            },
            MarkupNode::Template(_, _) => {
                let template_text = get_template_text(node);
                current_para.append(template_text.as_str());
            },
            MarkupNode::Text(value) => {
                current_para.append(value.as_str());
            },
            MarkupNode::UnorderedList(items) => {
                let section = Section::UnorderedList(get_item_sections(items));
                result.push(section);
                proof {
                    assert(sections_view(result@) =~= before.push(section@));
                }
            },
            _ => {},
        }
        i += 1;
    }
    flush_paragraph(&mut result, &mut current_para);
    result
}

} // verus!
