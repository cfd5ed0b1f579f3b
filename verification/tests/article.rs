use rsdctl::article::{assemble, parse, parse_with_warnings, warning_report, WikiArticle};
use rsdctl::grammar::MarkupWarning;
use rsdctl::markup::MarkupNode;
use rsdctl::section::Section;
use rsdctl::token::Token;

#[test]
fn empty_content_has_no_sections() {
    let article = parse("Title", "");
    assert_eq!(article.content, vec![]);
    assert_eq!(article.title, vec![Token::Word(String::from("Title"))]);
}

#[test]
fn title_is_plain_text() {
    let article = parse("[[A]] {{b}}", "");
    assert_eq!(
        article.title,
        vec![
            Token::NonWord(String::from("[[")),
            Token::Word(String::from("A")),
            Token::NonWord(String::from("]] {{")),
            Token::Word(String::from("b")),
            Token::NonWord(String::from("}}")),
        ]
    );
}

#[test]
fn parsing_twice_gives_the_same_article() {
    let content = "== H ==\nSome ''text'' with {{cvt|5|km}}.\n\n* a\n* b\n";
    assert_eq!(parse("Title", content), parse("Title", content));
}

#[test]
fn assemble_puts_title_over_sections() {
    let nodes = vec![MarkupNode::Text(String::from("Body text"))];
    let article = assemble("My title", &nodes);
    assert_eq!(
        article,
        WikiArticle {
            title: vec![
                Token::Word(String::from("My")),
                Token::NonWord(String::from(" ")),
                Token::Word(String::from("title")),
            ],
            content: vec![Section::Paragraph(vec![
                Token::Word(String::from("Body")),
                Token::NonWord(String::from(" ")),
                Token::Word(String::from("text")),
            ])],
        }
    );
}

#[test]
fn well_formed_text_has_no_warning() {
    let (article, warnings) = parse_with_warnings("Title", "plain text");
    assert_eq!(article, parse("Title", "plain text"));
    assert_eq!(warnings, vec![]);
    assert_eq!(warning_report(&warnings), "");
}

#[test]
fn warnings_come_with_the_article() {
    let content = "\n\ntext {{unclosed";
    let (article, warnings) = parse_with_warnings("Title", content);
    assert_eq!(article, parse("Title", content));
    assert!(!warnings.is_empty());
    assert_eq!(
        warnings[0],
        MarkupWarning { start: 1, end: 2, message: String::from("Repeated empty line.") }
    );
    let report = warning_report(&warnings);
    assert!(report.starts_with("Warnings while parsing wiki text:\n1 - 2: Repeated empty line.\n"));
    assert_eq!(report.lines().count(), warnings.len() + 1);
}

#[test]
fn warning_report_has_one_line_for_each_warning() {
    let warnings = vec![
        MarkupWarning { start: 0, end: 12, message: String::from("First.") },
        MarkupWarning { start: 340, end: 1005, message: String::from("Second one.") },
    ];
    assert_eq!(
        warning_report(&warnings),
        "Warnings while parsing wiki text:\n0 - 12: First.\n340 - 1005: Second one.\n"
    );
    assert_eq!(warning_report(&vec![]), "");
}
