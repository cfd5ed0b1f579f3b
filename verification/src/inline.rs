//! Flattening of inline markup to plain text: links, character entities and
//! a fixed catalog of templates.

use vstd::prelude::*;
use vstd::string::*;
use crate::markup::{MarkupNode, MarkupNodeView, TemplateParameter, TemplateParameterView, nodes_view, parameters_view};
use crate::text::{lowercase, push_char, same_text, to_lowercase};

verus! {

/// The text that one node stands for. A character entity gives its
/// character, a link the text that is displayed for it, plain text itself, a
/// template what the catalog says of it, and every other node nothing.
pub open spec fn node_text(node: MarkupNodeView) -> Seq<char>
    decreases node, 0nat,
{
    match node {
        MarkupNodeView::CharacterEntity(c) => seq![c],
        MarkupNodeView::Link(text) => inline_text(text),
        MarkupNodeView::Template(name, parameters) => template_text(
            lowercase(inline_text(name)),
            parameters,
        ),
        MarkupNodeView::Text(value) => value,
        _ => Seq::empty(),
    }
}

/// The texts of the first `n` nodes, one after the other.
pub open spec fn inline_text_upto(nodes: Seq<MarkupNodeView>, n: nat) -> Seq<char>
    decreases nodes, n,
{
    if n == 0 || n > nodes.len() {
        Seq::empty()
    } else {
        inline_text_upto(nodes, (n - 1) as nat) + node_text(nodes[n - 1])
    }
}

/// The texts of the nodes, one after the other.
pub open spec fn inline_text(nodes: Seq<MarkupNodeView>) -> Seq<char>
    decreases nodes, nodes.len() + 1,
{
    inline_text_upto(nodes, nodes.len())
}

/// The text of the parameter at `index`, where the list has one there and its
/// text is not empty.
pub open spec fn positional(parameters: Seq<TemplateParameterView>, index: int) -> Option<Seq<char>>
    decreases parameters, 0nat,
{
    if 0 <= index < parameters.len() && inline_text(parameters[index].value).len() > 0 {
        Some(inline_text(parameters[index].value))
    } else {
        None
    }
}

/// The text of the first parameter from `from` on whose name reads `name`.
pub open spec fn named_from(parameters: Seq<TemplateParameterView>, name: Seq<char>, from: int) -> Option<
    Seq<char>,
>
    decreases parameters, parameters.len() - from,
{
    if from < 0 || from >= parameters.len() {
        None
    } else if parameters[from].name is Some && inline_text(parameters[from].name->0) == name {
        Some(inline_text(parameters[from].value))
    } else {
        named_from(parameters, name, from + 1)
    }
}

/// The text of the first parameter whose name reads `name`.
pub open spec fn named(parameters: Seq<TemplateParameterView>, name: Seq<char>) -> Option<Seq<char>>
    decreases parameters, parameters.len() + 1,
{
    named_from(parameters, name, 0)
}

/// The text, or nothing where there is none.
pub open spec fn text_or_empty(text: Option<Seq<char>>) -> Seq<char> {
    match text {
        Some(text) => text,
        None => Seq::empty(),
    }
}

/// An abbreviation: the long form with the short form in brackets, or the
/// one of them that is there.
pub open spec fn abbr_text(short: Option<Seq<char>>, long: Option<Seq<char>>) -> Seq<char> {
    match (long, short) {
        (None, None) => Seq::empty(),
        (Some(long), None) => long,
        (None, Some(short)) => short,
        (Some(long), Some(short)) => long + " ("@ + short + ")"@,
    }
}

/// A quotation between curly quotation marks, followed by a dash and its
/// source where it has one.
pub open spec fn blockquote_text(quote: Option<Seq<char>>, source: Option<Seq<char>>) -> Seq<
    char,
> {
    match (quote, source) {
        (None, _) => Seq::empty(),
        (Some(quote), None) => "“"@ + quote + "”"@,
        (Some(quote), Some(source)) => "“"@ + quote + "”"@ + " – "@ + source,
    }
}

/// A quantity: the number and the unit with a space between them, the
/// number alone, or the unit behind three question marks.
pub open spec fn convert_text(number: Option<Seq<char>>, unit: Option<Seq<char>>) -> Seq<char> {
    match (number, unit) {
        (None, None) => Seq::empty(),
        (Some(number), None) => number,
        (None, Some(unit)) => "??? "@ + unit,
        (Some(number), Some(unit)) => number + " "@ + unit,
    }
}

/// Whether `kind` is one of the citation templates whose text is their title.
pub open spec fn is_titled_citation(kind: Seq<char>) -> bool {
    ||| kind == "cite book"@
    ||| kind == "cite journal"@
    ||| kind == "cite web"@
    ||| kind == "cite news"@
    ||| kind == "cite report"@
    ||| kind == "cite periodical"@
}

/// The text of a template whose name, in lowercase, is `kind`. A name that
/// the catalog does not hold gives the empty text.
pub open spec fn template_text(kind: Seq<char>, parameters: Seq<TemplateParameterView>) -> Seq<char>
    decreases parameters, parameters.len() + 2,
{
    if kind == "lang"@ {
        text_or_empty(positional(parameters, 1))
    } else if kind == "abbr"@ {
        abbr_text(positional(parameters, 0), positional(parameters, 1))
    } else if kind == "blockquote"@ {
        blockquote_text(positional(parameters, 0), positional(parameters, 1))
    } else if kind == "cite encyclopedia"@ {
        text_or_empty(named(parameters, "encyclopedia"@))
    } else if is_titled_citation(kind) {
        text_or_empty(named(parameters, "title"@))
    } else if kind == "cvt"@ || kind == "convert"@ {
        convert_text(positional(parameters, 0), positional(parameters, 1))
    } else if kind == "endash"@ {
        "–"@
    } else {
        Seq::empty()
    }
}

/// The value of a text that may be missing.
pub open spec fn option_text_view(text: Option<String>) -> Option<Seq<char>> {
    match text {
        Some(text) => Some(text@),
        None => None,
    }
}

/// Flattens the nodes to plain text: the texts of the nodes, one after the
/// other.
pub fn get_inline_text(nodes: &Vec<MarkupNode>) -> (text: String)
    ensures
        text@ == inline_text(nodes_view(nodes@)),
    decreases nodes, 0nat,
{
    let mut result = String::new();
    let mut i: usize = 0;
    while i < nodes.len()
        invariant
            i <= nodes.len(),
            result@ == inline_text_upto(nodes_view(nodes@), i as nat),
        decreases nodes.len() - i,
    {
        let node = &nodes[i];
        proof {
            let nv = nodes_view(nodes@);
            assert(nv[i as int] == node@);
            assert(inline_text_upto(nv, (i + 1) as nat) == inline_text_upto(nv, i as nat)
                + node_text(nv[i as int]));
        }
        match node {
            MarkupNode::CharacterEntity(c) => {
                push_char(&mut result, *c);
                proof {
                    assert(node@ == MarkupNodeView::CharacterEntity(*c));
                    assert(node_text(node@) == seq![*c]);
                    assert(result@ =~= inline_text_upto(nodes_view(nodes@), (i + 1) as nat));
                }
            },
            MarkupNode::Link(text) => {
                let link_text = get_inline_text(text);
                result.append(link_text.as_str());
            },
            MarkupNode::Template(_, _) => {
                let template_text = get_template_text(node);
                result.append(template_text.as_str());
            },
            MarkupNode::Text(value) => {
                result.append(value.as_str());
            },
            _ => {
                proof {
                    assert(result@ =~= inline_text_upto(nodes_view(nodes@), (i + 1) as nat));
                }
            },
        }
        i += 1;
    }
    result
}

/// The text of a template invocation: what the catalog says of its name,
/// taken in lowercase, and its parameters.
pub fn get_template_text(template: &MarkupNode) -> (text: String)
    requires
        template is Template,
    ensures
        text@ == node_text(template@),
    decreases template, 0nat,
{
    match template {
        MarkupNode::Template(name, parameters) => {
            let name = get_inline_text(name);
            let kind = to_lowercase(name.as_str());
            expand_template(kind.as_str(), parameters)
        },
        _ => String::new(),
    }
}

/// The text of the parameter at `index`, where the list has one there and its
/// text is not empty.
pub fn get_parameter_by_index(parameters: &Vec<TemplateParameter>, index: usize) -> (text: Option<String>)
    ensures
        option_text_view(text) == positional(parameters_view(parameters@), index as int),
    decreases parameters, 1nat,
{
    if index < parameters.len() {
        proof {
            assert(parameters_view(parameters@)[index as int] == parameters@[index as int]@);
        }
        let text = get_inline_text(&parameters[index].value);
        if text.as_str().is_empty() {
            None
        } else {
            Some(text)
        }
    } else {
        None
    }
}

/// The text of the first parameter whose name, flattened to text, is `name`.
pub fn get_parameter_by_name(parameters: &Vec<TemplateParameter>, name: &str) -> (text: Option<String>)
    ensures
        option_text_view(text) == named(parameters_view(parameters@), name@),
    decreases parameters, 1nat,
{
    let mut i: usize = 0;
    while i < parameters.len()
        invariant
            i <= parameters.len(),
            named(parameters_view(parameters@), name@) == named_from(
                parameters_view(parameters@),
                name@,
                i as int,
            ),
        decreases parameters.len() - i,
    {
        let parameter = &parameters[i];
        proof {
            assert(parameters_view(parameters@)[i as int] == parameter@);
        }
        if let Some(name_nodes) = &parameter.name {
            let n = get_inline_text(name_nodes);
            if same_text(n.as_str(), name) {
                return Some(get_inline_text(&parameter.value));
            }
        }
        i += 1;
    }
    None
}

/// An abbreviation: the long form with the short form in brackets, or the
/// one of them that is there.
fn abbr(short: Option<String>, long: Option<String>) -> (text: String)
    ensures
        text@ == abbr_text(option_text_view(short), option_text_view(long)),
{
    match (long, short) {
        (None, None) => String::new(),
        (Some(long), None) => long,
        (None, Some(short)) => short,
        (Some(long), Some(short)) => {
            let mut result = long;
            result.append(" (");
            result.append(short.as_str());
            result.append(")");
            result
        },
    }
}

/// A quotation between curly quotation marks, followed by a dash and its
/// source where it has one.
fn blockquote(quote: Option<String>, source: Option<String>) -> (text: String)
    ensures
        text@ == blockquote_text(option_text_view(quote), option_text_view(source)),
{
    let mut result = String::new();
    if let Some(q) = quote {
        result.append("“");
        result.append(q.as_str());
        result.append("”");
        if let Some(s) = source {
            result.append(" – ");
            result.append(s.as_str());
        }
    }
    proof {
        assert(Seq::<char>::empty() + "“"@ =~= "“"@);
    }
    result
}

/// A quantity: the number and the unit with a space between them, the
/// number alone, or the unit behind three question marks.
fn convert(number: Option<String>, unit: Option<String>) -> (text: String)
    ensures
        text@ == convert_text(option_text_view(number), option_text_view(unit)),
{
    match (number, unit) {
        (None, None) => String::new(),
        (Some(n), None) => n,
        (None, Some(u)) => {
            let mut result = String::from_str("??? ");
            result.append(u.as_str());
            result
        },
        (Some(n), Some(u)) => {
            let mut result = n;
            result.append(" ");
            result.append(u.as_str());
            result
        },
    }
}

/// The text, or the empty string where there is none.
fn or_empty(text: Option<String>) -> (result: String)
    ensures
        result@ == text_or_empty(option_text_view(text)),
{
    match text {
        Some(text) => text,
        None => String::new(),
    }
}

/// Whether `kind` is one of the citation templates whose text is their title.
fn titled_citation(kind: &str) -> (b: bool)
    ensures
        b == is_titled_citation(kind@),
{
    same_text(kind, "cite book") || same_text(kind, "cite journal") || same_text(kind, "cite web")
        || same_text(kind, "cite news") || same_text(kind, "cite report") || same_text(
        kind,
        "cite periodical",
    )
}

/// The text of a template whose name, in lowercase, is `kind`, by the
/// catalog. A name that the catalog does not hold gives the empty string.
pub fn expand_template(kind: &str, parameters: &Vec<TemplateParameter>) -> (text: String)
    ensures
        text@ == template_text(kind@, parameters_view(parameters@)),
    decreases parameters, 2nat,
{
    if same_text(kind, "lang") {
        or_empty(get_parameter_by_index(parameters, 1))
    } else if same_text(kind, "abbr") {
        let short_form = get_parameter_by_index(parameters, 0);
        let long_form = get_parameter_by_index(parameters, 1);
        abbr(short_form, long_form)
    } else if same_text(kind, "blockquote") {
        let quote = get_parameter_by_index(parameters, 0);
        let source = get_parameter_by_index(parameters, 1);
        blockquote(quote, source)
    } else if same_text(kind, "cite encyclopedia") {
        or_empty(get_parameter_by_name(parameters, "encyclopedia"))
    } else if titled_citation(kind) {
        or_empty(get_parameter_by_name(parameters, "title"))
    } else if same_text(kind, "cvt") || same_text(kind, "convert") {
        let number = get_parameter_by_index(parameters, 0);
        let unit = get_parameter_by_index(parameters, 1);
        convert(number, unit)
    } else if same_text(kind, "endash") {
        String::from_str("–")
    } else {
        String::new()
    }
}

} // verus!
