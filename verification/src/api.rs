//! What is asked of the wiki's web interface, and what is read out of its
//! answers. The requests themselves are made elsewhere.

use vstd::prelude::*;
use vstd::string::*;
use crate::text::{collect_chars, push_char};

verus! {

#[verifier::external_type_specification]
#[verifier::external_body]
pub struct ExJsonValue(serde_json::Value);

#[verifier::external_type_specification]
#[verifier::external_body]
pub struct ExJsonError(serde_json::Error);

/// The strings of a JSON document, each under the JSON pointer that leads
/// to it.
pub uninterp spec fn json_strings(document: serde_json::Value) -> Map<Seq<char>, Seq<char>>;

/// The strings of the JSON document that `text` is, where it is one.
pub uninterp spec fn json_document(text: Seq<char>) -> Option<Map<Seq<char>, Seq<char>>>;

/// Calls `serde_json::from_str` for a `serde_json::Value`. The contract
/// names what the text holds: whether it is a JSON document, and which strings
/// stand in it.
#[verifier::external_body]
fn parse_json(text: &str) -> (parsed: Result<serde_json::Value, serde_json::Error>)
    ensures
        json_document(text@) == match parsed {
            Ok(document) => Some(json_strings(document)),
            Err(_) => None,
        },
{
    serde_json::from_str(text)
}

/// Calls `serde_json::Value::pointer` and, on what it finds,
/// `serde_json::Value::as_str`: the string that stands at the pointer, if
/// there is a value at the pointer and it is a string.
#[verifier::external_body]
fn string_at(document: &serde_json::Value, pointer: &str) -> (found: Option<String>)
    ensures
        match found {
            Some(s) => json_strings(*document).contains_key(pointer@) && json_strings(
                *document,
            )[pointer@] == s@,
            None => !json_strings(*document).contains_key(pointer@),
        },
{
    document.pointer(pointer).and_then(|value| value.as_str()).map(String::from)
}

/// Formats a `serde_json::Error` for display. Nothing is stated of the text.
#[verifier::external_body]
fn describe(error: &serde_json::Error) -> String {
    format!("{}", error)
}

/// Why an answer of the web interface could not be used.
#[derive(Debug, PartialEq, Eq)]
pub enum ApiError {
    /// The answer is not JSON; the text says why.
    MalformedJson(String),
    MissingWikitext,
    MissingTitle,
    MissingLocation,
    /// The redirect does not lead to an article; the text is its target.
    UnexpectedRedirect(String),
}

/// The mathematical value of an [`ApiError`].
pub enum ApiErrorView {
    MalformedJson(Seq<char>),
    MissingWikitext,
    MissingTitle,
    MissingLocation,
    UnexpectedRedirect(Seq<char>),
}

impl View for ApiError {
    type V = ApiErrorView;

    open spec fn view(&self) -> ApiErrorView {
        match self {
            ApiError::MalformedJson(reason) => ApiErrorView::MalformedJson(reason@),
            ApiError::MissingWikitext => ApiErrorView::MissingWikitext,
            ApiError::MissingTitle => ApiErrorView::MissingTitle,
            ApiError::MissingLocation => ApiErrorView::MissingLocation,
            ApiError::UnexpectedRedirect(target) => ApiErrorView::UnexpectedRedirect(target@),
        }
    }
}

impl ApiErrorView {
    /// The error in words.
    pub open spec fn message(self) -> Seq<char> {
        match self {
            ApiErrorView::MalformedJson(reason) => reason,
            ApiErrorView::MissingWikitext => "JSON response did not contain wikitext"@,
            ApiErrorView::MissingTitle => "JSON response did not contain page title"@,
            ApiErrorView::MissingLocation => "Could not find location header"@,
            ApiErrorView::UnexpectedRedirect(target) => "Redirect had unexpected format: "@
                + target,
        }
    }
}

impl ApiError {
    /// The error in words.
    pub fn message(&self) -> (text: String)
        ensures
            text@ == self@.message(),
    {
        match self {
            ApiError::MalformedJson(reason) => reason.clone(),
            ApiError::MissingWikitext => String::from_str("JSON response did not contain wikitext"),
            ApiError::MissingTitle => String::from_str("JSON response did not contain page title"),
            ApiError::MissingLocation => String::from_str("Could not find location header"),
            ApiError::UnexpectedRedirect(target) => {
                let mut text = String::from_str("Redirect had unexpected format: ");
                text.append(target.as_str());
                text
            },
        }
    }
}

/// The address that answers with the wiki text of an article.
pub open spec fn article_address(language: Seq<char>, title: Seq<char>) -> Seq<char> {
    "https://"@ + language + ".wikipedia.org/w/api.php?action=parse&page="@ + title
        + "&prop=wikitext&formatversion=2&format=json"@
}

/// The address that answers with the wiki text of the article `title` of
/// the wiki in `language`.
pub fn article_query(language: &str, title: &str) -> (query: String)
    ensures
        query@ == article_address(language@, title@),
{
    let mut query = String::from_str("https://");
    query.append(language);
    query.append(".wikipedia.org/w/api.php?action=parse&page=");
    query.append(title);
    query.append("&prop=wikitext&formatversion=2&format=json");
    query
}

/// A title or a wiki text that was read, or what was missing.
pub type Fetched = Result<(String, String), ApiError>;

/// The value of what was read.
pub open spec fn fetched_view(fetched: Fetched) -> Result<(Seq<char>, Seq<char>), ApiErrorView> {
    match fetched {
        Ok((title, wikitext)) => Ok((title@, wikitext@)),
        Err(error) => Err(error@),
    }
}

/// The article that two strings of an answer make: the title and the wiki
/// text, where both are there; else what is missing, the wiki text first.
pub open spec fn article_of_fields(wikitext: Option<Seq<char>>, title: Option<Seq<char>>) -> Result<
    (Seq<char>, Seq<char>),
    ApiErrorView,
> {
    match (wikitext, title) {
        (None, _) => Err(ApiErrorView::MissingWikitext),
        (Some(_), None) => Err(ApiErrorView::MissingTitle),
        (Some(wikitext), Some(title)) => Ok((title, wikitext)),
    }
}

/// The string under `pointer`, if the document has one there.
pub open spec fn field(strings: Map<Seq<char>, Seq<char>>, pointer: Seq<char>) -> Option<
    Seq<char>,
> {
    if strings.contains_key(pointer) {
        Some(strings[pointer])
    } else {
        None
    }
}

/// The value of a string that may be missing.
pub open spec fn field_view(text: Option<String>) -> Option<Seq<char>> {
    match text {
        Some(text) => Some(text@),
        None => None,
    }
}

/// The title and the wiki text of an article from the two strings of an
/// answer, where both are there; else the error that says which is
/// missing, the wiki text first.
pub fn article_from_fields(wikitext: Option<String>, title: Option<String>) -> (article: Fetched)
    ensures
        fetched_view(article) == article_of_fields(field_view(wikitext), field_view(title)),
{
    match wikitext {
        None => Err(ApiError::MissingWikitext),
        Some(wikitext) => match title {
            None => Err(ApiError::MissingTitle),
            Some(title) => Ok((title, wikitext)),
        },
    }
}

/// Reads an answer to an article query: the title and the wiki text that
/// stand in it under `/parse/title` and `/parse/wikitext`. An answer that is
/// not JSON is an error, and so is one that lacks either string.
pub fn extract_article(answer: &str) -> (article: Fetched)
    ensures
        match json_document(answer@) {
            None => article matches Err(ApiError::MalformedJson(_)),
            Some(strings) => fetched_view(article) == article_of_fields(
                field(strings, "/parse/wikitext"@),
                field(strings, "/parse/title"@),
            ),
        },
{
    match parse_json(answer) {
        Err(error) => Err(ApiError::MalformedJson(describe(&error))),
        Ok(document) => {
            let wikitext = string_at(&document, "/parse/wikitext");
            let title = string_at(&document, "/parse/title");
            article_from_fields(wikitext, title)
        },
    }
}

/// The start of the address of every article of the English wiki.
pub open spec fn article_prefix() -> Seq<char> {
    "https://en.wikipedia.org/wiki/"@
}

/// The name of the article that a redirect leads to: what follows the
/// prefix in its target.
pub open spec fn redirect_title(location: Option<Seq<char>>) -> Result<Seq<char>, ApiErrorView> {
    match location {
        None => Err(ApiErrorView::MissingLocation),
        Some(target) => if article_prefix().is_prefix_of(target) {
            Ok(target.skip(article_prefix().len() as int))
        } else {
            Err(ApiErrorView::UnexpectedRedirect(target))
        },
    }
}

/// The value of a name that was read, or of what went wrong.
pub open spec fn title_view(title: Result<String, ApiError>) -> Result<Seq<char>, ApiErrorView> {
    match title {
        Ok(title) => Ok(title@),
        Err(error) => Err(error@),
    }
}

/// The value of a target that may be missing.
pub open spec fn location_view(location: Option<&str>) -> Option<Seq<char>> {
    match location {
        Some(target) => Some(target@),
        None => None,
    }
}

/// The name of the article that a redirect leads to. A redirect without a
/// target is an error, and so is one whose target is outside the articles of
/// the English wiki.
pub fn title_from_redirect(location: Option<&str>) -> (title: Result<String, ApiError>)
    ensures
        title_view(title) == redirect_title(location_view(location)),
{
    let target = match location {
        None => {
            return Err(ApiError::MissingLocation);
        },
        Some(target) => target,
    };
    let prefix = collect_chars("https://en.wikipedia.org/wiki/");
    let chars = collect_chars(target);
    if chars.len() < prefix.len() {
        return Err(ApiError::UnexpectedRedirect(String::from_str(target)));
    }
    let mut i: usize = 0;
    while i < prefix.len()
        invariant
            i <= prefix.len() <= chars.len(),
            location == Some(target),
            prefix@ == article_prefix(),
            chars@ == target@,
            forall|k: int| 0 <= k < i ==> prefix@[k] == chars@[k],
        decreases prefix.len() - i,
    {
        if prefix[i] != chars[i] {
            proof {
                if article_prefix().is_prefix_of(target@) {
                    let start = target@.subrange(0, article_prefix().len() as int);
                    assert(start[i as int] == target@[i as int]);
                    assert(article_prefix()[i as int] == start[i as int]);
                }
            }
            return Err(ApiError::UnexpectedRedirect(String::from_str(target)));
        }
        i += 1;
    }
    proof {
        assert(article_prefix() =~= target@.subrange(0, article_prefix().len() as int));
    }
    let mut title = String::new();
    let mut j: usize = prefix.len();
    while j < chars.len()
        invariant
            prefix.len() <= j <= chars.len(),
            title@ == chars@.subrange(prefix.len() as int, j as int),
        decreases chars.len() - j,
    {
        push_char(&mut title, chars[j]);
        proof {
            assert(title@ =~= chars@.subrange(prefix.len() as int, j + 1));
        }
        j += 1;
    }
    proof {
        assert(title@ =~= target@.skip(article_prefix().len() as int));
    }
    Ok(title)
}

} // verus!
