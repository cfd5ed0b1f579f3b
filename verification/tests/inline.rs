use rsdctl::article::parse;
use rsdctl::inline::{
    expand_template, get_inline_text, get_parameter_by_index, get_parameter_by_name,
    get_template_text,
};
use rsdctl::markup::{MarkupNode, TemplateParameter};
use rsdctl::section::Section;
use rsdctl::token::Token;

fn text(value: &str) -> MarkupNode {
    MarkupNode::Text(String::from(value))
}

fn positional(value: &str) -> TemplateParameter {
    TemplateParameter { name: None, value: vec![text(value)] }
}

fn named(name: &str, value: &str) -> TemplateParameter {
    TemplateParameter { name: Some(vec![text(name)]), value: vec![text(value)] }
}

fn template(name: &str, parameters: Vec<TemplateParameter>) -> MarkupNode {
    MarkupNode::Template(vec![text(name)], parameters)
}

fn paragraph_text(content: &str) -> String {
    let article = parse("t", content);
    assert_eq!(article.content.len(), 1, "{:?}", article.content);
    match &article.content[0] {
        Section::Paragraph(tokens) => tokens
            .iter()
            .map(|t| match t {
                Token::Word(w) => w.as_str(),
                Token::NonWord(w) => w.as_str(),
            })
            .collect(),
        other => panic!("not a paragraph: {:?}", other),
    }
}

#[test]
fn abbr_in_wiki_text() {
    assert_eq!(
        paragraph_text("{{abbr|NASA|National Aeronautics and Space Administration}}"),
        "National Aeronautics and Space Administration (NASA)"
    );
}

#[test]
fn cvt_in_wiki_text() {
    assert_eq!(paragraph_text("{{cvt|5|km}}"), "5 km");
    assert_eq!(paragraph_text("{{cvt|5}}"), "5");
    assert_eq!(paragraph_text("{{cvt||km}}"), "??? km");
}

#[test]
fn endash_in_wiki_text() {
    assert_eq!(paragraph_text("{{endash}}"), "–");
}

#[test]
fn unknown_template_in_wiki_text_gives_nothing() {
    assert_eq!(parse("t", "{{foobar|x}}").content, vec![]);
    assert_eq!(paragraph_text("before {{foobar|x}}after"), "before after");
}

#[test]
fn template_name_is_matched_in_any_case() {
    assert_eq!(paragraph_text("{{CVT|5|km}}"), "5 km");
    assert_eq!(paragraph_text("{{Cite Book|title=Dune|author=Herbert}}"), "Dune");
    let node = template("EnDash", vec![]);
    assert_eq!(get_template_text(&node), "–");
}

#[test]
fn expand_template_takes_the_name_in_lowercase() {
    assert_eq!(expand_template("endash", &vec![]), "–");
    assert_eq!(expand_template("Endash", &vec![]), "");
    assert_eq!(expand_template("ENDASH", &vec![]), "");
}

#[test]
fn lang_gives_its_second_parameter() {
    assert_eq!(expand_template("lang", &vec![positional("fr"), positional("bonjour")]), "bonjour");
    assert_eq!(expand_template("lang", &vec![positional("fr")]), "");
    assert_eq!(expand_template("lang", &vec![]), "");
}

#[test]
fn abbr_cases() {
    assert_eq!(expand_template("abbr", &vec![]), "");
    assert_eq!(expand_template("abbr", &vec![positional("NASA")]), "NASA");
    assert_eq!(expand_template("abbr", &vec![positional(""), positional("Long form")]), "Long form");
    assert_eq!(
        expand_template("abbr", &vec![positional("UN"), positional("United Nations")]),
        "United Nations (UN)"
    );
}

#[test]
fn blockquote_cases() {
    assert_eq!(expand_template("blockquote", &vec![]), "");
    assert_eq!(expand_template("blockquote", &vec![positional("To be")]), "“To be”");
    assert_eq!(
        expand_template("blockquote", &vec![positional("To be"), positional("Hamlet")]),
        "“To be” – Hamlet"
    );
    assert_eq!(expand_template("blockquote", &vec![positional(""), positional("Hamlet")]), "");
}

#[test]
fn convert_cases() {
    for kind in ["cvt", "convert"] {
        assert_eq!(expand_template(kind, &vec![]), "");
        assert_eq!(expand_template(kind, &vec![positional("12")]), "12");
        assert_eq!(expand_template(kind, &vec![positional("12"), positional("m")]), "12 m");
        assert_eq!(expand_template(kind, &vec![positional(""), positional("m")]), "??? m");
        assert_eq!(
            expand_template(kind, &vec![positional("12"), positional("m"), positional("ft")]),
            "12 m"
        );
    }
}

#[test]
fn citations_give_their_title() {
    for kind in ["cite book", "cite journal", "cite web", "cite news", "cite report", "cite periodical"] {
        let parameters = vec![named("author", "A. Writer"), named("title", "The Work"), named("year", "1999")];
        assert_eq!(expand_template(kind, &parameters), "The Work");
        assert_eq!(expand_template(kind, &vec![named("author", "A. Writer")]), "");
        assert_eq!(expand_template(kind, &vec![positional("The Work")]), "");
    }
}

#[test]
fn cite_encyclopedia_gives_the_encyclopedia() {
    let parameters = vec![named("title", "Entry"), named("encyclopedia", "Britannica")];
    assert_eq!(expand_template("cite encyclopedia", &parameters), "Britannica");
    assert_eq!(expand_template("cite encyclopedia", &vec![named("title", "Entry")]), "");
}

#[test]
fn unknown_names_give_nothing() {
    let parameters = vec![positional("x"), named("title", "y")];
    for kind in ["foobar", "", "cite", "cite  book", "lang ", "abbreviation"] {
        assert_eq!(expand_template(kind, &parameters), "");
    }
}

#[test]
fn parameter_by_name_takes_the_first_match() {
    let parameters = vec![
        positional("title"),
        named("Title", "wrong case"),
        named("title", "first"),
        named("title", "second"),
    ];
    assert_eq!(get_parameter_by_name(&parameters, "title"), Some(String::from("first")));
    assert_eq!(get_parameter_by_name(&parameters, "Title"), Some(String::from("wrong case")));
    assert_eq!(get_parameter_by_name(&parameters, "missing"), None);
    assert_eq!(get_parameter_by_name(&vec![], "title"), None);
    assert_eq!(get_parameter_by_name(&vec![named("title", "")], "title"), Some(String::new()));
}

#[test]
fn parameter_name_is_flattened_before_it_is_compared() {
    let parameter = TemplateParameter {
        name: Some(vec![text("ti"), MarkupNode::Link(vec![text("tle")])]),
        value: vec![text("found")],
    };
    assert_eq!(get_parameter_by_name(&vec![parameter], "title"), Some(String::from("found")));
}

#[test]
fn parameter_by_index_needs_text() {
    let parameters = vec![positional("a"), positional(""), named("k", "c")];
    assert_eq!(get_parameter_by_index(&parameters, 0), Some(String::from("a")));
    assert_eq!(get_parameter_by_index(&parameters, 1), None);
    assert_eq!(get_parameter_by_index(&parameters, 2), Some(String::from("c")));
    assert_eq!(get_parameter_by_index(&parameters, 3), None);
}

#[test]
fn inline_text_flattens_each_kind() {
    let nodes = vec![
        text("a "),
        MarkupNode::CharacterEntity('&'),
        MarkupNode::Link(vec![text(" b"), MarkupNode::CharacterEntity('!')]),
        MarkupNode::Other,
        MarkupNode::ExternalLink(vec![text("http://x.org dropped")]),
        MarkupNode::Heading(2, vec![text("dropped")]),
        MarkupNode::ParagraphBreak,
        MarkupNode::HorizontalDivider,
        MarkupNode::UnorderedList(vec![vec![text("dropped")]]),
        MarkupNode::OrderedList(vec![vec![text("dropped")]]),
        template("cvt", vec![positional("1"), positional("kg")]),
        text(" z"),
    ];
    assert_eq!(get_inline_text(&nodes), "a & b!1 kg z");
    assert_eq!(get_inline_text(&vec![]), "");
}

#[test]
fn templates_nest_through_parameters() {
    let inner = template("abbr", vec![positional("km"), positional("kilometre")]);
    let outer = MarkupNode::Template(
        vec![text("cvt")],
        vec![positional("5"), TemplateParameter { name: None, value: vec![inner] }],
    );
    assert_eq!(get_template_text(&outer), "5 kilometre (km)");
}
