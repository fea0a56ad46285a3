//! Links between pages: parsing, classification and display labels.

use vstd::prelude::*;

use crate::text::{
    after_last, after_last_char, contains_char, contains_str, ends_with_str, has_char,
    has_infix, has_suffix,
};

verus! {

/// Host of the wiki whose pages can serve as exploration roots.
pub const WIKI_HOST: &'static str = "wikipedia.org";

/// The kind of page a link leads to.
#[derive(Debug, Clone, Copy, PartialEq, Eq, Structural)]
pub enum Type {
    Article,
    File,
    ExternalArticle,
    Other,
}

/// Why a text was not accepted as a link.
#[derive(Debug, Clone, Copy, PartialEq, Eq, Structural)]
pub enum UrlError {
    /// The text is not an absolute URL.
    Malformed,
}

#[verifier::external_type_specification]
#[verifier::external_body]
pub struct ExParseError(::url::ParseError);

/// What `url::Url::parse` makes of a text: `None` where it fails, else the
/// serialization, the host (empty where there is none) and the path.
pub uninterp spec fn parsed_url(s: Seq<char>) -> Option<(Seq<char>, Seq<char>, Seq<char>)>;

/// What `str::to_lowercase` makes of a text.
pub uninterp spec fn lower_of(s: Seq<char>) -> Seq<char>;

/// What `urlencoding::decode` makes of a text: `None` where the decoded bytes
/// are not UTF-8.
pub uninterp spec fn percent_decoded(s: Seq<char>) -> Option<Seq<char>>;

/// Relies on `url::Url::parse`, with `as_str`, `host_str` and `path` of the
/// parsed value: the outcome depends on the text alone.
#[verifier::external_body]
fn parse_parts(s: &str) -> (r: Result<(String, String, String), ::url::ParseError>)
    ensures
        r.is_ok() == parsed_url(s@).is_some(),
        r matches Ok(p) ==> parsed_url(s@) == Some((p.0@, p.1@, p.2@)),
{
    ::url::Url::parse(s).map(
        |u| (u.as_str().to_string(), u.host_str().unwrap_or("").to_string(), u.path().to_string()),
    )
}

/// Relies on `str::to_lowercase`: the result depends on the text alone.
#[verifier::external_body]
fn lowercase(s: &str) -> (r: String)
    ensures
        r@ == lower_of(s@),
{
    s.to_lowercase()
}

/// Relies on `urlencoding::decode`: the result depends on the text alone, and
/// fails only where the decoded bytes are not UTF-8.
#[verifier::external_body]
fn decode_percent(s: &str) -> (r: Option<String>)
    ensures
        r.is_some() == percent_decoded(s@).is_some(),
        r matches Some(d) ==> percent_decoded(s@) == Some(d@),
{
    urlencoding::decode(s).ok().map(|d| d.into_owned())
}

pub open spec fn is_ascii_lower(c: char) -> bool {
    'a' <= c && c <= 'z'
}

/// The pattern `https://[a-z]{2}\.wikipedia\.org/wiki/([^/.]+)$` matches `s`
/// at position `i`: two lowercase letters of language, then a title of at
/// least one character that holds neither `/` nor `.` and runs to the end.
pub open spec fn article_match_at(s: Seq<char>, i: int) -> bool {
    &&& 0 <= i
    &&& i + 31 <= s.len()
    &&& s.subrange(i, i + 8) == seq!['h', 't', 't', 'p', 's', ':', '/', '/']
    &&& is_ascii_lower(s[i + 8])
    &&& is_ascii_lower(s[i + 9])
    &&& s.subrange(i + 10, i + 30) == seq![
        '.', 'w', 'i', 'k', 'i', 'p', 'e', 'd', 'i', 'a', '.', 'o', 'r', 'g', '/', 'w', 'i', 'k', 'i', '/'
    ]
    &&& forall|k: int| i + 30 <= k < s.len() ==> s[k] != '/' && s[k] != '.'
}

/// The article pattern matches somewhere in `s` (the search is not anchored at
/// the start, only at the end).
pub open spec fn article_match(s: Seq<char>) -> bool {
    exists|i: int| article_match_at(s, i)
}

/// Relies on `regex::Regex::is_match` for the article pattern, which is a valid
/// pattern, so that building it does not fail.
#[verifier::external_body]
fn matches_article_pattern(s: &str) -> (r: bool)
    ensures
        r == article_match(s@),
{
    regex::Regex::new(r"https://[a-z]{2}\.wikipedia\.org/wiki/([^/.]+)$").unwrap().is_match(s)
}

pub open spec fn is_file_link(val: Seq<char>) -> bool {
    ||| has_suffix(val, ".png"@)
    ||| has_suffix(val, ".jpg"@)
    ||| has_suffix(val, ".jpeg"@)
    ||| has_suffix(val, ".gif"@)
    ||| has_suffix(val, ".svg"@)
}

pub open spec fn is_external_article_link(lowered: Seq<char>) -> bool {
    has_infix(lowered, "arxiv.org"@) || has_infix(lowered, "doi.org"@)
}

/// The kind of a link, from its serialization, its path, whether the article
/// pattern matched the serialization, and the lowercased serialization.
pub open spec fn type_of(
    val: Seq<char>,
    path: Seq<char>,
    article: bool,
    lowered: Seq<char>,
) -> Type {
    if article && !has_char(path, ':') {
        Type::Article
    } else if is_file_link(val) {
        Type::File
    } else if is_external_article_link(lowered) {
        Type::ExternalArticle
    } else {
        Type::Other
    }
}

/// The parts of a parsed link.
pub struct UrlView {
    pub val: Seq<char>,
    pub host: Seq<char>,
    pub path: Seq<char>,
}

/// An absolute link, held as the parts that the exploration reads.
#[derive(Clone, Debug, Hash)]
pub struct Url {
    val: String,
    host: String,
    path: String,
}

impl View for Url {
    type V = UrlView;

    closed spec fn view(&self) -> UrlView {
        UrlView { val: self.val@, host: self.host@, path: self.path@ }
    }
}

/// The kind of the link with parts `v`.
#[verifier::opaque]
pub open spec fn kind_of(v: UrlView) -> Type {
    type_of(v.val, v.path, article_match(v.val), lower_of(v.val))
}

impl PartialEq for Url {
    /// Two links are equal when their serializations are.
    fn eq(&self, other: &Url) -> (r: bool) {
        self.val == other.val
    }
}

impl Eq for Url {

}

impl vstd::std_specs::cmp::PartialEqSpecImpl for Url {
    open spec fn obeys_eq_spec() -> bool {
        true
    }

    open spec fn eq_spec(&self, other: &Url) -> bool {
        self@.val == other@.val
    }
}

impl Url {
    /// The kind of this link.
    pub open spec fn kind(&self) -> Type {
        kind_of(self@)
    }

    /// Parses `val` as an absolute link.
    pub fn new(val: &str) -> (r: Result<Url, UrlError>)
        ensures
            r.is_ok() == parsed_url(val@).is_some(),
            r matches Ok(u) ==> parsed_url(val@) == Some((u@.val, u@.host, u@.path)),
            r matches Err(e) ==> e == UrlError::Malformed,
    {
        match parse_parts(val) {
            Ok(parts) => Ok(Url { val: parts.0, host: parts.1, path: parts.2 }),
            Err(_) => Err(UrlError::Malformed),
        }
    }

    /// Whether the link's host is on the wiki.
    pub fn is_wiki(&self) -> (r: bool)
        ensures
            r == has_infix(self@.host, WIKI_HOST@),
    {
        contains_str(self.host.as_str(), WIKI_HOST)
    }

    /// The link's serialization.
    pub fn val(&self) -> (r: &str)
        ensures
            r@ == self@.val,
    {
        self.val.as_str()
    }

    /// Whether `self` and `other` are the same link.
    pub fn same_link(&self, other: &Url) -> (r: bool)
        ensures
            r == (self@.val == other@.val),
    {
        self.val == other.val
    }

    /// The link's path.
    pub fn path(&self) -> (r: &str)
        ensures
            r@ == self@.path,
    {
        self.path.as_str()
    }

    /// The display label: for articles and files the last segment of the
    /// decoded path (of the path itself where it does not decode), otherwise
    /// the whole serialization.
    pub fn val_for_type(&self) -> (r: String)
        ensures
            r@ == label_of(self.kind(), self@.val, self@.path, percent_decoded(self@.path)),
    {
        let kind = self.url_type();
        let decoded = decode_percent(self.path.as_str());
        label_for(kind, self.val.as_str(), self.path.as_str(), decoded)
    }

    /// The kind of this link.
    pub fn url_type(&self) -> (r: Type)
        ensures
            r == self.kind(),
    {
        let article = self.is_wiki_article();
        let lowered = lowercase(self.val.as_str());
        proof {
            reveal(kind_of);
        }
        classify(self.val.as_str(), self.path.as_str(), article, lowered.as_str())
    }

    /// Whether the serialization matches the article pattern.
    pub fn is_wiki_article(&self) -> (r: bool)
        ensures
            r == article_match(self@.val),
    {
        matches_article_pattern(self.val.as_str())
    }

    /// Whether the link leads to an image file.
    pub fn is_file(&self) -> (r: bool)
        ensures
            r == is_file_link(self@.val),
    {
        file_suffix(self.val.as_str())
    }

    /// Whether the link leads to a paper outside the wiki.
    pub fn is_external_article(&self) -> (r: bool)
        ensures
            r == is_external_article_link(lower_of(self@.val)),
    {
        let lowered = lowercase(self.val.as_str());
        external_host(lowered.as_str())
    }
}

/// Whether `val` ends with one of the image suffixes.
pub fn file_suffix(val: &str) -> (r: bool)
    ensures
        r == is_file_link(val@),
{
    ends_with_str(val, ".png") || ends_with_str(val, ".jpg") || ends_with_str(val, ".jpeg")
        || ends_with_str(val, ".gif") || ends_with_str(val, ".svg")
}

/// Whether a lowercased serialization names one of the paper hosts.
pub fn external_host(lowered: &str) -> (r: bool)
    ensures
        r == is_external_article_link(lowered@),
{
    contains_str(lowered, "arxiv.org") || contains_str(lowered, "doi.org")
}

/// The kind of a link, given its serialization, its path, whether the article
/// pattern matched, and its lowercased serialization.
pub fn classify(val: &str, path: &str, article: bool, lowered: &str) -> (r: Type)
    ensures
        r == type_of(val@, path@, article, lowered@),
{
    if article && !contains_char(path, ':') {
        Type::Article
    } else if file_suffix(val) {
        Type::File
    } else if external_host(lowered) {
        Type::ExternalArticle
    } else {
        Type::Other
    }
}

/// The display label of a link of kind `kind`, given the decoded path.
pub open spec fn label_of(
    kind: Type,
    val: Seq<char>,
    path: Seq<char>,
    decoded: Option<Seq<char>>,
) -> Seq<char> {
    match kind {
        Type::Article | Type::File => match decoded {
            Some(d) => after_last(d, '/'),
            None => after_last(path, '/'),
        },
        _ => val,
    }
}

/// The display label of a link of kind `kind`, given its serialization, its
/// path and the decoded path.
pub fn label_for(kind: Type, val: &str, path: &str, decoded: Option<String>) -> (r: String)
    ensures
        r@ == label_of(kind, val@, path@, match decoded {
            Some(d) => Some(d@),
            None => None,
        }),
{
    match kind {
        Type::Article | Type::File => match decoded {
            Some(d) => after_last_char(d.as_str(), '/'),
            None => after_last_char(path, '/'),
        },
        _ => val.to_owned(),
    }
}

} // verus!
