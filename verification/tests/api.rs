use rsdctl::api::{
    article_from_fields, article_query, extract_article, title_from_redirect, ApiError,
};

#[test]
fn article_query_is_the_parse_address() {
    assert_eq!(
        article_query("en", "Rust"),
        "https://en.wikipedia.org/w/api.php?action=parse&page=Rust&prop=wikitext&formatversion=2&format=json"
    );
    assert_eq!(
        article_query("", ""),
        "https://.wikipedia.org/w/api.php?action=parse&page=&prop=wikitext&formatversion=2&format=json"
    );
}

#[test]
fn article_from_fields_needs_both() {
    let text = || Some(String::from("wiki text"));
    let title = || Some(String::from("Title"));
    assert_eq!(
        article_from_fields(text(), title()),
        Ok((String::from("Title"), String::from("wiki text")))
    );
    assert_eq!(article_from_fields(None, title()), Err(ApiError::MissingWikitext));
    assert_eq!(article_from_fields(text(), None), Err(ApiError::MissingTitle));
    assert_eq!(article_from_fields(None, None), Err(ApiError::MissingWikitext));
}

#[test]
fn extract_article_reads_title_and_wikitext() {
    let answer = r#"{"parse":{"title":"Rust","pageid":1,"wikitext":"'''Rust''' is a language."}}"#;
    assert_eq!(
        extract_article(answer),
        Ok((String::from("Rust"), String::from("'''Rust''' is a language.")))
    );
}

#[test]
fn extract_article_reports_what_is_missing() {
    assert_eq!(extract_article(r#"{"parse":{"title":"Rust"}}"#), Err(ApiError::MissingWikitext));
    assert_eq!(extract_article(r#"{"parse":{"wikitext":"x"}}"#), Err(ApiError::MissingTitle));
    assert_eq!(extract_article(r#"{"error":{"code":"missingtitle"}}"#), Err(ApiError::MissingWikitext));
    assert_eq!(
        extract_article(r#"{"parse":{"title":"Rust","wikitext":5}}"#),
        Err(ApiError::MissingWikitext)
    );
    assert_eq!(
        extract_article(r#"{"parse":{"title":null,"wikitext":"x"}}"#),
        Err(ApiError::MissingTitle)
    );
}

#[test]
fn extract_article_rejects_what_is_not_json() {
    for answer in ["", "<html>", "{\"parse\":", "{} trailing"] {
        match extract_article(answer) {
            Err(ApiError::MalformedJson(reason)) => assert!(!reason.is_empty()),
            other => panic!("{:?} gave {:?}", answer, other),
        }
    }
}

#[test]
fn title_from_redirect_strips_the_prefix() {
    assert_eq!(
        title_from_redirect(Some("https://en.wikipedia.org/wiki/Rust_(programming_language)")),
        Ok(String::from("Rust_(programming_language)"))
    );
    assert_eq!(title_from_redirect(Some("https://en.wikipedia.org/wiki/")), Ok(String::new()));
    assert_eq!(
        title_from_redirect(Some("https://en.wikipedia.org/wiki/Çédille")),
        Ok(String::from("Çédille"))
    );
}

#[test]
fn title_from_redirect_rejects_other_targets() {
    for target in ["", "https://de.wikipedia.org/wiki/Rust", "https://en.wikipedia.org/wiki", "Rust"] {
        assert_eq!(
            title_from_redirect(Some(target)),
            Err(ApiError::UnexpectedRedirect(String::from(target)))
        );
    }
    assert_eq!(title_from_redirect(None), Err(ApiError::MissingLocation));
}

#[test]
fn error_messages() {
    assert_eq!(ApiError::MissingWikitext.message(), "JSON response did not contain wikitext");
    assert_eq!(ApiError::MissingTitle.message(), "JSON response did not contain page title");
    assert_eq!(ApiError::MissingLocation.message(), "Could not find location header");
    assert_eq!(
        ApiError::UnexpectedRedirect(String::from("http://x")).message(),
        "Redirect had unexpected format: http://x"
    );
    assert_eq!(ApiError::MalformedJson(String::from("why")).message(), "why");
}
