use wiki_links::node::Node;
use wiki_links::text::{after_last_char, contains_char, contains_str, ends_with_str};
use wiki_links::url::{classify, external_host, file_suffix, label_for, Type, Url, UrlError};

#[test]
fn parse_rejects_relative_text() {
    assert_eq!(Url::new("not a url").unwrap_err(), UrlError::Malformed);
    assert_eq!(Url::new("").unwrap_err(), UrlError::Malformed);
}

#[test]
fn parse_normalises_serialization() {
    let u = Url::new("HTTPS://EN.Wikipedia.org/wiki/Rust").unwrap();
    assert_eq!(u.val(), "https://en.wikipedia.org/wiki/Rust");
    assert_eq!(u.path(), "/wiki/Rust");
}

#[test]
fn wiki_host_detection() {
    assert!(Url::new("https://en.wikipedia.org/wiki/Rust").unwrap().is_wiki());
    assert!(!Url::new("https://example.com/wikipedia.org").unwrap().is_wiki());
    assert!(!Url::new("mailto:someone@example.com").unwrap().is_wiki());
}

#[test]
fn article_classification() {
    let u = Url::new("https://en.wikipedia.org/wiki/Rust_(programming_language)").unwrap();
    assert!(u.is_wiki_article());
    assert_eq!(u.url_type(), Type::Article);
}

#[test]
fn namespaced_wiki_page_is_not_article() {
    let u = Url::new("https://en.wikipedia.org/wiki/Help:Contents").unwrap();
    assert!(u.is_wiki_article());
    assert_eq!(u.url_type(), Type::Other);
}

#[test]
fn file_classification() {
    let u = Url::new("https://upload.wikimedia.org/wikipedia/commons/a/a0/Logo.svg").unwrap();
    assert!(u.is_file());
    assert_eq!(u.url_type(), Type::File);
    let w = Url::new("https://en.wikipedia.org/wiki/File:Logo.png").unwrap();
    assert!(!w.is_wiki_article());
    assert_eq!(w.url_type(), Type::File);
}

#[test]
fn external_article_classification_ignores_case() {
    let u = Url::new("https://example.com/papers/ArXiv.Org/1234").unwrap();
    assert!(u.is_external_article());
    assert_eq!(u.url_type(), Type::ExternalArticle);
    let d = Url::new("https://doi.org/10.1000/182").unwrap();
    assert_eq!(d.url_type(), Type::ExternalArticle);
}

#[test]
fn other_classification() {
    let u = Url::new("https://www.rust-lang.org/").unwrap();
    assert_eq!(u.url_type(), Type::Other);
}

#[test]
fn article_pattern_needs_two_letter_language() {
    let u = Url::new("https://simple.wikipedia.org/wiki/Rust").unwrap();
    assert!(!u.is_wiki_article());
    assert_eq!(u.url_type(), Type::Other);
}

#[test]
fn label_decodes_article_title() {
    let u = Url::new("https://fr.wikipedia.org/wiki/Caf%C3%A9").unwrap();
    assert_eq!(Node::new(u).label(), "Café");
}

#[test]
fn label_of_other_link_is_whole_link() {
    let u = Url::new("https://www.rust-lang.org/learn").unwrap();
    let n = Node::new(u.clone());
    assert_eq!(n.label(), "https://www.rust-lang.org/learn");
    assert_eq!(n.url().val(), u.val());
}

#[test]
fn label_of_file_is_file_name() {
    let u = Url::new("https://upload.wikimedia.org/wikipedia/commons/a/a0/Logo%20big.svg").unwrap();
    assert_eq!(u.val_for_type(), "Logo big.svg");
}

#[test]
fn label_for_undecodable_path_uses_raw_segment() {
    let l = label_for(Type::Article, "v", "/wiki/A%FF", None);
    assert_eq!(l, "A%FF");
    let k = label_for(Type::Other, "v", "/wiki/A", Some(String::from("/wiki/B")));
    assert_eq!(k, "v");
}

#[test]
fn classify_from_given_parts() {
    assert_eq!(classify("x", "/wiki/A", true, "x"), Type::Article);
    assert_eq!(classify("x", "/wiki/A:B", true, "x"), Type::Other);
    assert_eq!(classify("a.jpeg", "/a.jpeg", false, "a.jpeg"), Type::File);
    assert_eq!(classify("X", "/", false, "doi.org/1"), Type::ExternalArticle);
    assert_eq!(classify("X", "/", false, "X"), Type::Other);
}

#[test]
fn suffix_and_host_checks() {
    assert!(file_suffix("a.gif"));
    assert!(!file_suffix("a.gifx"));
    assert!(external_host("https://arxiv.org/abs/1"));
    assert!(!external_host("https://ARXIV.org/abs/1"));
}

#[test]
fn text_searches() {
    assert!(contains_str("abcabd", "abd"));
    assert!(!contains_str("ab", "abc"));
    assert!(contains_str("x", ""));
    assert!(ends_with_str("file.png", ".png"));
    assert!(!ends_with_str("png", ".png"));
    assert!(contains_char("a:b", ':'));
    assert!(!contains_char("ab", ':'));
    assert_eq!(after_last_char("/wiki/Rust", '/'), "Rust");
    assert_eq!(after_last_char("plain", '/'), "plain");
    assert_eq!(after_last_char("trailing/", '/'), "");
}

#[test]
fn links_equal_by_serialization() {
    let a = Url::new("https://en.wikipedia.org/wiki/Rust").unwrap();
    let b = Url::new("HTTPS://en.wikipedia.org/wiki/Rust").unwrap();
    let c = Url::new("https://en.wikipedia.org/wiki/Go").unwrap();
    assert!(a == b);
    assert!(a.same_link(&b));
    assert!(a != c);
}
