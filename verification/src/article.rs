//! The article: a tokenized title over the sections of its content.

use vstd::prelude::*;
use vstd::string::*;
use crate::grammar::{
    MarkupWarning, MarkupWarningView, parse_markup, parsed_markup, warnings_view,
};
use crate::text::{decimal, decimal_text};
use crate::markup::{MarkupNode, MarkupNodeView, nodes_view};
use crate::section::{Section, SectionView, get_sections, sections_view, segment};
use crate::token::{Token, TokenView, chop_into_tokens, tokens_of, tokens_view};

verus! {

/// An article as the game shows it.
#[derive(Debug, PartialEq, Eq)]
pub struct WikiArticle {
    pub title: Vec<Token>,
    pub content: Vec<Section>,
}

/// The mathematical value of a [`WikiArticle`].
pub struct WikiArticleView {
    pub title: Seq<TokenView>,
    pub content: Seq<SectionView>,
}

impl View for WikiArticle {
    type V = WikiArticleView;

    open spec fn view(&self) -> WikiArticleView {
        WikiArticleView { title: tokens_view(self.title@), content: sections_view(self.content@) }
    }
}

/// The article with the given title whose content parses to `nodes`: the
/// tokens of the title, which is plain text, over the sections of the nodes.
pub open spec fn article_of(title: Seq<char>, nodes: Seq<MarkupNodeView>) -> WikiArticleView {
    WikiArticleView { title: tokens_of(title), content: segment(nodes) }
}

/// Builds the article from its title and the parsed nodes of its content.
pub fn assemble(title: &str, nodes: &Vec<MarkupNode>) -> (article: WikiArticle)
    ensures
        article@ == article_of(title@, nodes_view(nodes@)),
{
    let content = get_sections(nodes);
    let title_tokens = chop_into_tokens(title);
    WikiArticle { title: title_tokens, content }
}

/// Parses the wiki text `content` and builds the article from it and the
/// title. Every title and every content give an article; what the parser
/// warns of is left behind.
pub fn parse(title: &str, content: &str) -> (article: WikiArticle)
    ensures
        article@ == article_of(title@, parsed_markup(content@).nodes),
{
    let parsed = parse_markup(content);
    assemble(title, &parsed.nodes)
}

/// Parses the wiki text `content` and builds the article from it and the
/// title, as [`parse`] does, and hands on what the parser warns of.
pub fn parse_with_warnings(title: &str, content: &str) -> (result: (WikiArticle, Vec<MarkupWarning>))
    ensures
        result.0@ == article_of(title@, parsed_markup(content@).nodes),
        warnings_view(result.1@) == parsed_markup(content@).warnings,
{
    let parsed = parse_markup(content);
    let article = assemble(title, &parsed.nodes);
    (article, parsed.warnings)
}

/// One warning as a line: where it starts and ends, and what it is.
pub open spec fn warning_line(warning: MarkupWarningView) -> Seq<char> {
    decimal(warning.start) + " - "@ + decimal(warning.end) + ": "@ + warning.message + "\n"@
}

/// The lines of the first `n` warnings.
pub open spec fn warning_lines(warnings: Seq<MarkupWarningView>, n: nat) -> Seq<char>
    decreases n,
{
    if n == 0 || n > warnings.len() {
        Seq::empty()
    } else {
        warning_lines(warnings, (n - 1) as nat) + warning_line(warnings[n - 1])
    }
}

/// The warnings as a text for a log: nothing where there are none, else a
/// line that announces them and one line for each.
pub open spec fn report_of(warnings: Seq<MarkupWarningView>) -> Seq<char> {
    if warnings.len() == 0 {
        Seq::empty()
    } else {
        "Warnings while parsing wiki text:\n"@ + warning_lines(warnings, warnings.len())
    }
}

/// The warnings as a text for a log: nothing where there are none, else a
/// line that announces them and one line for each, with its two positions
/// and its message.
pub fn warning_report(warnings: &Vec<MarkupWarning>) -> (report: String)
    ensures
        report@ == report_of(warnings_view(warnings@)),
{
    let mut report = String::new();
    if warnings.len() == 0 {
        return report;
    }
    report.append("Warnings while parsing wiki text:\n");
    let ghost wv = warnings_view(warnings@);
    let ghost head = "Warnings while parsing wiki text:\n"@;
    let mut i: usize = 0;
    while i < warnings.len()
        invariant
            i <= warnings.len(),
            wv == warnings_view(warnings@),
            head == "Warnings while parsing wiki text:\n"@,
            report@ == head + warning_lines(wv, i as nat),
        decreases warnings.len() - i,
    {
        let warning = &warnings[i];
        let ghost before = report@;
        proof {
            assert(wv[i as int] == warning@);
        }
        let start = decimal_text(warning.start);
        let end = decimal_text(warning.end);
        report.append(start.as_str());
        report.append(" - ");
        report.append(end.as_str());
        report.append(": ");
        report.append(warning.message.as_str());
        report.append("\n");
        proof {
            assert(report@ =~= before + warning_line(wv[i as int]));
            assert(report@ =~= head + warning_lines(wv, (i + 1) as nat));
        }
        i += 1;
    }
    report
}

/// The article depends on the title and the content alone: two articles
/// made from the same title and the same content are equal.
pub proof fn lemma_parse_is_repeatable(
    title: Seq<char>,
    content: Seq<char>,
    first: WikiArticleView,
    second: WikiArticleView,
)
    requires
        first == article_of(title, parsed_markup(content).nodes),
        second == article_of(title, parsed_markup(content).nodes),
    ensures
        first == second,
{
}

/// An article without content has no section.
pub proof fn lemma_no_nodes_no_sections(title: Seq<char>)
    ensures
        article_of(title, Seq::empty()).content == Seq::<SectionView>::empty(),
{
    assert(crate::text::trimmed(Seq::<char>::empty()) =~= Seq::<char>::empty());
    assert(segment(Seq::empty()) =~= Seq::<SectionView>::empty());
}

} // verus!
