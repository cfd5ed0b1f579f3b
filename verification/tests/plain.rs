use rsdctl::plain::{render_sections, render_tokens, repeat_char};
use rsdctl::text::decimal_text;
use rsdctl::section::Section;
use rsdctl::token::chop_into_tokens;

#[test]
fn decimal_text_writes_the_number() {
    assert_eq!(decimal_text(0), "0");
    assert_eq!(decimal_text(7), "7");
    assert_eq!(decimal_text(10), "10");
    assert_eq!(decimal_text(409), "409");
    assert_eq!(decimal_text(1234567890), "1234567890");
    assert_eq!(decimal_text(usize::MAX), usize::MAX.to_string());
}

#[test]
fn repeat_char_repeats() {
    assert_eq!(repeat_char('=', 3), "===");
    assert_eq!(repeat_char('x', 0), "");
}

#[test]
fn render_tokens_blanks_each_byte_of_a_word() {
    assert_eq!(render_tokens(&chop_into_tokens("Hi, there!")), "__, _____!");
    assert_eq!(render_tokens(&chop_into_tokens("é - 東")), "__ - ___");
    assert_eq!(render_tokens(&vec![]), "");
}

#[test]
fn render_sections_marks_headings_and_items() {
    let sections = vec![
        Section::Heading(2, chop_into_tokens("Top")),
        Section::Paragraph(chop_into_tokens("A b.")),
        Section::OrderedList(vec![
            vec![Section::Paragraph(chop_into_tokens("x"))],
            vec![
                Section::Paragraph(chop_into_tokens("y")),
                Section::UnorderedList(vec![vec![Section::Paragraph(chop_into_tokens("z!"))]]),
            ],
        ]),
        Section::Heading(0, vec![]),
    ];
    assert_eq!(
        render_sections(&sections),
        " == ___ == \n\n_ _.\n\n0. _\n\n1. _\n\n * _!\n\n    \n\n"
    );
    assert_eq!(render_sections(&vec![]), "");
}
