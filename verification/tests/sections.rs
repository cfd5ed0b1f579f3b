use rsdctl::article::parse;
use rsdctl::markup::{MarkupNode, TemplateParameter};
use rsdctl::section::{get_sections, Section};
use rsdctl::token::{chop_into_tokens, Token};

fn text(value: &str) -> MarkupNode {
    MarkupNode::Text(String::from(value))
}

fn paragraph(value: &str) -> Section {
    Section::Paragraph(chop_into_tokens(value))
}

#[test]
fn paragraph_break_separates_two_paragraphs() {
    let nodes = vec![text("first run"), MarkupNode::ParagraphBreak, text("second run")];
    assert_eq!(get_sections(&nodes), vec![paragraph("first run"), paragraph("second run")]);
}

#[test]
fn paragraph_break_in_wiki_text() {
    let article = parse("t", "first run\n\nsecond run");
    assert_eq!(
        article.content,
        vec![
            Section::Paragraph(vec![
                Token::Word(String::from("first")),
                Token::NonWord(String::from(" ")),
                Token::Word(String::from("run")),
            ]),
            Section::Paragraph(vec![
                Token::Word(String::from("second")),
                Token::NonWord(String::from(" ")),
                Token::Word(String::from("run")),
            ]),
        ]
    );
}

#[test]
fn white_space_alone_makes_no_paragraph() {
    let nodes = vec![
        text("  \n "),
        MarkupNode::ParagraphBreak,
        text("only this"),
        MarkupNode::ParagraphBreak,
        text("\t"),
        MarkupNode::ParagraphBreak,
        MarkupNode::ParagraphBreak,
        text(" "),
    ];
    assert_eq!(get_sections(&nodes), vec![paragraph("only this")]);
    assert_eq!(get_sections(&vec![text("   ")]), vec![]);
    assert_eq!(get_sections(&vec![]), vec![]);
}

#[test]
fn paragraphs_are_trimmed() {
    let nodes = vec![text("  padded text \n"), MarkupNode::HorizontalDivider, text("\n next ")];
    assert_eq!(get_sections(&nodes), vec![paragraph("padded text"), paragraph("next")]);
}

#[test]
fn blank_buffer_is_dropped_at_a_break() {
    let nodes = vec![text("   "), MarkupNode::ParagraphBreak, text("after")];
    assert_eq!(get_sections(&nodes), vec![paragraph("after")]);
}

#[test]
fn inline_nodes_share_a_paragraph() {
    let nodes = vec![
        text("See "),
        MarkupNode::Link(vec![text("the page")]),
        text(" "),
        MarkupNode::CharacterEntity('&'),
        text(" "),
        MarkupNode::ExternalLink(vec![text("http://example.org  the   site")]),
        MarkupNode::Other,
        text(", "),
        MarkupNode::Template(
            vec![text("cvt")],
            vec![
                TemplateParameter { name: None, value: vec![text("3")] },
                TemplateParameter { name: None, value: vec![text("m")] },
            ],
        ),
        text("."),
    ];
    assert_eq!(get_sections(&nodes), vec![paragraph("See the page & the site, 3 m.")]);
}

#[test]
fn external_link_loses_its_first_word() {
    assert_eq!(
        get_sections(&vec![MarkupNode::ExternalLink(vec![text("http://example.org")])]),
        vec![]
    );
    assert_eq!(
        get_sections(&vec![MarkupNode::ExternalLink(vec![text("http://example.org label")])]),
        vec![paragraph("label")]
    );
    assert_eq!(
        parse("t", "[http://example.org some words] after").content,
        vec![paragraph("some words after")]
    );
}

#[test]
fn heading_closes_the_paragraph_and_stands_alone() {
    let nodes = vec![
        text("intro"),
        MarkupNode::Heading(3, vec![text("A "), MarkupNode::Link(vec![text("Heading")])]),
        text("body"),
    ];
    assert_eq!(
        get_sections(&nodes),
        vec![
            paragraph("intro"),
            Section::Heading(3, chop_into_tokens("A Heading")),
            paragraph("body"),
        ]
    );
}

#[test]
fn heading_text_is_not_trimmed_and_may_be_empty() {
    assert_eq!(
        get_sections(&vec![MarkupNode::Heading(1, vec![text(" x ")])]),
        vec![Section::Heading(1, chop_into_tokens(" x "))]
    );
    assert_eq!(get_sections(&vec![MarkupNode::Heading(0, vec![])]), vec![Section::Heading(0, vec![])]);
}

#[test]
fn heading_in_wiki_text() {
    assert_eq!(
        parse("t", "== Title ==\ntext").content,
        vec![Section::Heading(2, chop_into_tokens("Title")), paragraph("text")]
    );
}

#[test]
fn horizontal_divider_in_wiki_text() {
    assert_eq!(parse("t", "a\n----\nb").content, vec![paragraph("a"), paragraph("b")]);
}

#[test]
fn character_entity_in_wiki_text() {
    assert_eq!(parse("t", "a &amp; b").content, vec![paragraph("a & b")]);
}

#[test]
fn link_shows_its_text() {
    assert_eq!(
        parse("t", "[[Target|shown]] and [[Plain]]").content,
        vec![paragraph("shown and Plain")]
    );
}

#[test]
fn nested_list() {
    let nodes = vec![MarkupNode::UnorderedList(vec![
        vec![text("one")],
        vec![text("two"), MarkupNode::OrderedList(vec![vec![text("nested")]])],
    ])];
    assert_eq!(
        get_sections(&nodes),
        vec![Section::UnorderedList(vec![
            vec![paragraph("one")],
            vec![paragraph("two"), Section::OrderedList(vec![vec![paragraph("nested")]])],
        ])]
    );
}

#[test]
fn nested_list_in_wiki_text() {
    let article = parse("t", "* one\n* two\n*# nested");
    assert_eq!(article.content.len(), 1);
    match &article.content[0] {
        Section::UnorderedList(items) => {
            assert_eq!(items.len(), 2);
            assert_eq!(items[0], vec![paragraph("one")]);
            let lists: Vec<&Section> =
                items[1].iter().filter(|s| matches!(s, Section::OrderedList(_))).collect();
            assert_eq!(lists.len(), 1);
            assert_eq!(lists[0], &Section::OrderedList(vec![vec![paragraph("nested")]]));
        }
        other => panic!("not an unordered list: {:?}", other),
    }
}

#[test]
fn list_closes_the_paragraph_before_it() {
    let nodes = vec![
        text("before"),
        MarkupNode::OrderedList(vec![vec![], vec![text(" ")], vec![text("item")]]),
        text("after"),
    ];
    assert_eq!(
        get_sections(&nodes),
        vec![
            paragraph("before"),
            Section::OrderedList(vec![vec![], vec![], vec![paragraph("item")]]),
            paragraph("after"),
        ]
    );
}

#[test]
fn list_items_may_hold_headings_and_lists() {
    let item = vec![
        MarkupNode::Heading(2, vec![text("In item")]),
        text("text"),
        MarkupNode::UnorderedList(vec![vec![text("deep")]]),
    ];
    assert_eq!(
        get_sections(&vec![MarkupNode::OrderedList(vec![item])]),
        vec![Section::OrderedList(vec![vec![
            Section::Heading(2, chop_into_tokens("In item")),
            paragraph("text"),
            Section::UnorderedList(vec![vec![paragraph("deep")]]),
        ]])]
    );
}

#[test]
fn sections_keep_source_order() {
    let article = parse("t", "intro\n== One ==\nfirst\n# a\n# b\n== Two ==\nsecond");
    let kinds: Vec<&str> = article
        .content
        .iter()
        .map(|s| match s {
            Section::Heading(..) => "heading",
            Section::Paragraph(..) => "paragraph",
            Section::UnorderedList(..) => "unordered",
            Section::OrderedList(..) => "ordered",
        })
        .collect();
    assert_eq!(
        kinds,
        vec!["paragraph", "heading", "paragraph", "ordered", "heading", "paragraph"]
    );
}

#[test]
fn other_nodes_change_nothing() {
    let nodes = vec![text("a"), MarkupNode::Other, text("b"), MarkupNode::Other];
    assert_eq!(get_sections(&nodes), vec![paragraph("ab")]);
    assert_eq!(parse("t", "a<!-- comment -->b").content, vec![paragraph("ab")]);
}
