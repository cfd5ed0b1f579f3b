//! The markup grammar. Wiki text is parsed by the `parse_wiki_text` crate;
//! this module hands its result on as [`MarkupNode`]s.

use vstd::prelude::*;
use crate::markup::{MarkupNode, MarkupNodeView, TemplateParameter, nodes_view};

verus! {

#[verifier::external_type_specification]
#[verifier::external_body]
pub struct ExNode<'a>(parse_wiki_text::Node<'a>);

#[verifier::external_type_specification]
#[verifier::external_body]
pub struct ExListItem<'a>(parse_wiki_text::ListItem<'a>);

#[verifier::external_type_specification]
#[verifier::external_body]
pub struct ExParameter<'a>(parse_wiki_text::Parameter<'a>);

#[verifier::external_type_specification]
#[verifier::external_body]
pub struct ExWarning(parse_wiki_text::Warning);

/// Something in a wiki text that is not well formed: where it stands, in
/// bytes, and what it is.
#[derive(Debug, PartialEq, Eq)]
pub struct MarkupWarning {
    pub start: usize,
    pub end: usize,
    pub message: String,
}

/// The mathematical value of a [`MarkupWarning`].
pub struct MarkupWarningView {
    pub start: nat,
    pub end: nat,
    pub message: Seq<char>,
}

impl View for MarkupWarning {
    type V = MarkupWarningView;

    open spec fn view(&self) -> MarkupWarningView {
        MarkupWarningView {
            start: self.start as nat,
            end: self.end as nat,
            message: self.message@,
        }
    }
}

/// The values of a sequence of warnings.
pub open spec fn warnings_view(warnings: Seq<MarkupWarning>) -> Seq<MarkupWarningView> {
    warnings.map_values(|w: MarkupWarning| w@)
}

/// What parsing a wiki text gives: its nodes, and the warnings that came
/// with them.
#[derive(Debug, PartialEq, Eq)]
pub struct ParsedMarkup {
    pub nodes: Vec<MarkupNode>,
    pub warnings: Vec<MarkupWarning>,
}

/// The mathematical value of a [`ParsedMarkup`].
pub struct ParsedMarkupView {
    pub nodes: Seq<MarkupNodeView>,
    pub warnings: Seq<MarkupWarningView>,
}

impl View for ParsedMarkup {
    type V = ParsedMarkupView;

    open spec fn view(&self) -> ParsedMarkupView {
        ParsedMarkupView { nodes: nodes_view(self.nodes@), warnings: warnings_view(self.warnings@) }
    }
}

/// What `parse_wiki_text` makes of a wiki text under its default
/// configuration: the nodes, kind by kind as [`MarkupNode`] has them, and the
/// warnings.
pub uninterp spec fn parsed_markup(content: Seq<char>) -> ParsedMarkupView;

/// Calls `parse_wiki_text::Configuration::parse` on the default
/// configuration and converts the nodes and the warnings of its output. The
/// parser is made for untrusted input and takes any text. The contract only
/// gives the result its name: the grammar is not restated here.
#[verifier::external_body]
pub(crate) fn parse_markup(content: &str) -> (parsed: ParsedMarkup)
    ensures
        parsed@ == parsed_markup(content@),
{
    let output = parse_wiki_text::Configuration::default().parse(content);
    ParsedMarkup {
        nodes: convert_nodes(&output.nodes),
        warnings: convert_warnings(&output.warnings),
    }
}

/// Converts each `parse_wiki_text::Warning`, in order: its two positions,
/// and its description as `parse_wiki_text::WarningMessage::message` gives it.
#[verifier::external_body]
fn convert_warnings(warnings: &Vec<parse_wiki_text::Warning>) -> Vec<MarkupWarning> {
    warnings.iter().map(
        |w| MarkupWarning { start: w.start, end: w.end, message: String::from(w.message.message()) },
    ).collect()
}

/// Converts each `parse_wiki_text::Node` of a sequence, in order.
#[verifier::external_body]
fn convert_nodes(nodes: &Vec<parse_wiki_text::Node>) -> Vec<MarkupNode> {
    nodes.iter().map(convert_node).collect()
}

/// Converts a `parse_wiki_text::Node` of an inline kind, field by field;
/// the position fields and a link's target are left behind.
#[verifier::external_body]
fn convert_node(node: &parse_wiki_text::Node) -> MarkupNode {
    match node {
        parse_wiki_text::Node::CharacterEntity { character, .. } => MarkupNode::CharacterEntity(
            *character,
        ),
        parse_wiki_text::Node::ExternalLink { nodes, .. } => MarkupNode::ExternalLink(
            convert_nodes(nodes),
        ),
        parse_wiki_text::Node::Link { text, .. } => MarkupNode::Link(convert_nodes(text)),
        parse_wiki_text::Node::Template { name, parameters, .. } => MarkupNode::Template(
            convert_nodes(name),
            convert_parameters(parameters),
        ),
        parse_wiki_text::Node::Text { value, .. } => MarkupNode::Text(String::from(*value)),
        _ => convert_block(node),
    }
}

/// Converts a `parse_wiki_text::Node` of a block kind, field by field; a
/// node of any kind that [`MarkupNode`] does not name becomes `Other`.
#[verifier::external_body]
fn convert_block(node: &parse_wiki_text::Node) -> MarkupNode {
    match node {
        parse_wiki_text::Node::Heading { level, nodes, .. } => MarkupNode::Heading(
            *level,
            convert_nodes(nodes),
        ),
        parse_wiki_text::Node::HorizontalDivider { .. } => MarkupNode::HorizontalDivider,
        parse_wiki_text::Node::OrderedList { items, .. } => MarkupNode::OrderedList(
            convert_items(items),
        ),
        parse_wiki_text::Node::ParagraphBreak { .. } => MarkupNode::ParagraphBreak,
        parse_wiki_text::Node::UnorderedList { items, .. } => MarkupNode::UnorderedList(
            convert_items(items),
        ),
        _ => MarkupNode::Other,
    }
}

/// Converts the nodes of each `parse_wiki_text::ListItem`, in order.
#[verifier::external_body]
fn convert_items(items: &Vec<parse_wiki_text::ListItem>) -> Vec<Vec<MarkupNode>> {
    items.iter().map(|item| convert_nodes(&item.nodes)).collect()
}

/// Converts the name and the value of each `parse_wiki_text::Parameter`, in
/// order.
#[verifier::external_body]
fn convert_parameters(parameters: &Vec<parse_wiki_text::Parameter>) -> Vec<TemplateParameter> {
    parameters.iter().map(
        |p| TemplateParameter { name: p.name.as_ref().map(convert_nodes), value: convert_nodes(&p.value) },
    ).collect()
}

} // verus!
