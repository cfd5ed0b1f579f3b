//! The markup tree that the segmenter reads: the node kinds that matter to
//! it, with everything else folded into `Other`.

use vstd::prelude::*;

verus! {

/// A node of parsed wiki markup.
#[derive(Debug, PartialEq, Eq)]
pub enum MarkupNode {
    /// A character written as an entity.
    CharacterEntity(char),
    /// A link to another site, with the nodes between its brackets.
    ExternalLink(Vec<MarkupNode>),
    /// A heading with its level and its content.
    Heading(u8, Vec<MarkupNode>),
    HorizontalDivider,
    /// A link to another page, with the text that is displayed for it.
    Link(Vec<MarkupNode>),
    /// An ordered list; each item is a sequence of nodes.
    OrderedList(Vec<Vec<MarkupNode>>),
    ParagraphBreak,
    /// A template invocation: its name and its parameters.
    Template(Vec<MarkupNode>, Vec<TemplateParameter>),
    /// Plain text.
    Text(String),
    /// An unordered list; each item is a sequence of nodes.
    UnorderedList(Vec<Vec<MarkupNode>>),
    /// Any other construct.
    Other,
}

/// A parameter of a template invocation.
#[derive(Debug, PartialEq, Eq)]
pub struct TemplateParameter {
    /// The name, where the parameter is written as `name=value`.
    pub name: Option<Vec<MarkupNode>>,
    pub value: Vec<MarkupNode>,
}

/// The mathematical value of a [`MarkupNode`].
pub enum MarkupNodeView {
    CharacterEntity(char),
    ExternalLink(Seq<MarkupNodeView>),
    Heading(nat, Seq<MarkupNodeView>),
    HorizontalDivider,
    Link(Seq<MarkupNodeView>),
    OrderedList(Seq<Seq<MarkupNodeView>>),
    ParagraphBreak,
    Template(Seq<MarkupNodeView>, Seq<TemplateParameterView>),
    Text(Seq<char>),
    UnorderedList(Seq<Seq<MarkupNodeView>>),
    Other,
}

/// The mathematical value of a [`TemplateParameter`].
pub struct TemplateParameterView {
    pub name: Option<Seq<MarkupNodeView>>,
    pub value: Seq<MarkupNodeView>,
}

/// The value of one node.
pub open spec fn node_view(node: MarkupNode) -> MarkupNodeView
    decreases node, 0nat,
{
    match node {
        MarkupNode::CharacterEntity(c) => MarkupNodeView::CharacterEntity(c),
        MarkupNode::ExternalLink(nodes) => MarkupNodeView::ExternalLink(nodes_view(nodes@)),
        MarkupNode::Heading(level, nodes) => MarkupNodeView::Heading(
            level as nat,
            nodes_view(nodes@),
        ),
        MarkupNode::HorizontalDivider => MarkupNodeView::HorizontalDivider,
        MarkupNode::Link(text) => MarkupNodeView::Link(nodes_view(text@)),
        MarkupNode::OrderedList(items) => MarkupNodeView::OrderedList(items_view(items@)),
        MarkupNode::ParagraphBreak => MarkupNodeView::ParagraphBreak,
        MarkupNode::Template(name, parameters) => MarkupNodeView::Template(
            nodes_view(name@),
            parameters_view(parameters@),
        ),
        MarkupNode::Text(value) => MarkupNodeView::Text(value@),
        MarkupNode::UnorderedList(items) => MarkupNodeView::UnorderedList(items_view(items@)),
        MarkupNode::Other => MarkupNodeView::Other,
    }
}

/// The values of a sequence of nodes.
pub open spec fn nodes_view(nodes: Seq<MarkupNode>) -> Seq<MarkupNodeView>
    decreases nodes, 1nat,
{
    Seq::new(
        nodes.len(),
        |i: int|
            if 0 <= i < nodes.len() {
                node_view(nodes[i])
            } else {
                MarkupNodeView::Other
            },
    )
}

/// The values of the items of a list.
pub open spec fn items_view(items: Seq<Vec<MarkupNode>>) -> Seq<Seq<MarkupNodeView>>
    decreases items, 2nat,
{
    Seq::new(
        items.len(),
        |i: int|
            if 0 <= i < items.len() {
                nodes_view(items[i]@)
            } else {
                Seq::empty()
            },
    )
}

/// The value of one parameter.
pub open spec fn parameter_view(parameter: TemplateParameter) -> TemplateParameterView
    decreases parameter, 0nat,
{
    TemplateParameterView {
        name: match parameter.name {
            Some(name) => Some(nodes_view(name@)),
            None => None,
        },
        value: nodes_view(parameter.value@),
    }
}

/// The values of a sequence of parameters.
pub open spec fn parameters_view(parameters: Seq<TemplateParameter>) -> Seq<TemplateParameterView>
    decreases parameters, 1nat,
{
    Seq::new(
        parameters.len(),
        |i: int|
            if 0 <= i < parameters.len() {
                parameter_view(parameters[i])
            } else {
                TemplateParameterView { name: None, value: Seq::empty() }
            },
    )
}

impl View for MarkupNode {
    type V = MarkupNodeView;

    open spec fn view(&self) -> MarkupNodeView {
        node_view(*self)
    }
}

impl View for TemplateParameter {
    type V = TemplateParameterView;

    open spec fn view(&self) -> TemplateParameterView {
        parameter_view(*self)
    }
}

} // verus!
