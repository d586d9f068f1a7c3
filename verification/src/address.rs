//! Absolute addresses, split into the parts that the archive reads.

use crate::encoding::form_encoded;
use crate::text::string_views;
use vstd::prelude::*;

verus! {

/// An absolute address with its parts: the whole as written out, the
/// scheme, the host as text, the host where it is a domain name, the path,
/// and the query and fragment where there are any.
#[derive(Debug, Clone, PartialEq, Eq)]
pub struct ResourceUrl {
    pub href: String,
    pub scheme: String,
    pub host: Option<String>,
    pub domain: Option<String>,
    pub path: String,
    pub query: Option<String>,
    pub fragment: Option<String>,
}

/// The parts of an address as texts.
pub struct UrlParts {
    pub href: Seq<char>,
    pub scheme: Seq<char>,
    pub host: Option<Seq<char>>,
    pub domain: Option<Seq<char>>,
    pub path: Seq<char>,
    pub query: Option<Seq<char>>,
    pub fragment: Option<Seq<char>>,
}

/// The text of an optional string.
pub open spec fn opt_view(s: Option<String>) -> Option<Seq<char>> {
    match s {
        Some(t) => Some(t@),
        None => None,
    }
}

impl View for ResourceUrl {
    type V = UrlParts;

    open spec fn view(&self) -> UrlParts {
        UrlParts {
            href: self.href@,
            scheme: self.scheme@,
            host: opt_view(self.host),
            domain: opt_view(self.domain),
            path: self.path@,
            query: opt_view(self.query),
            fragment: opt_view(self.fragment),
        }
    }
}

/// Name of the parts that a text parses to as an absolute address, or
/// nothing where it is none.
pub uninterp spec fn parsed_url(text: Seq<char>) -> Option<UrlParts>;

/// Name of the address that a reference resolves to against a base,
/// written out, or nothing where either does not parse.
pub uninterp spec fn joined_url(base: Seq<char>, reference: Seq<char>) -> Option<Seq<char>>;

/// One pair as it stands in a query string: the name and the value, each
/// encoded as a form field, with `=` between them.
pub open spec fn query_pair(name: Seq<char>, value: Seq<char>) -> Seq<char> {
    form_encoded(name) + seq!['='] + form_encoded(value)
}

/// Name of the address that a text parses to, written out, once one pair
/// for each of the names, with the value at its place, has been appended
/// to its query; nothing where the text is no address.
pub uninterp spec fn address_with_pairs(
    text: Seq<char>,
    names: Seq<Seq<char>>,
    values: Seq<Seq<char>>,
) -> Option<Seq<char>>;

/// `reqwest::Url::parse` and the getters of the parsed address (`as_str`,
/// `scheme`, `host_str`, `domain`, `path`, `query`, `fragment`), moved into
/// the library's type. The contract only names the result.
#[verifier::external_body]
pub(crate) fn parse_url(text: &str) -> (r: Option<ResourceUrl>)
    ensures
        match r {
            Some(u) => parsed_url(text@) == Some(u@),
            None => parsed_url(text@) is None,
        },
{
    let u = reqwest::Url::parse(text).ok()?;
    Some(ResourceUrl {
        href: u.as_str().to_string(),
        scheme: u.scheme().to_string(),
        host: u.host_str().map(|h| h.to_string()),
        domain: u.domain().map(|d| d.to_string()),
        path: u.path().to_string(),
        query: u.query().map(|q| q.to_string()),
        fragment: u.fragment().map(|f| f.to_string()),
    })
}

/// `reqwest::Url::join` on the parsed base: the address that the reference
/// stands for, written out. The contract only names the result.
#[verifier::external_body]
pub(crate) fn join_url(base: &str, reference: &str) -> (r: Option<String>)
    ensures
        match r {
            Some(t) => joined_url(base@, reference@) == Some(t@),
            None => joined_url(base@, reference@) is None,
        },
{
    let b = reqwest::Url::parse(base).ok()?;
    Some(b.join(reference).ok()?.to_string())
}

/// `query_pairs_mut().append_pair` on an address that has no query, and
/// `query` on the result: the query string that holds the one pair, which
/// is the name and the value, each encoded as a form field, with `=`
/// between them.
#[verifier::external_body]
pub(crate) fn encode_query_pair(name: &str, value: &str) -> (r: String)
    ensures
        r@ == query_pair(name@, value@),
{
    let mut u = reqwest::Url::parse("https://example.com").unwrap();
    u.query_pairs_mut().append_pair(name, value);
    u.query().unwrap_or("").to_string()
}

/// `reqwest::Url::parse_with_params`: the text parsed as an address, with
/// the pairs appended to its query, written out; `None` where the text
/// is no address. The contract only names the result.
#[verifier::external_body]
pub(crate) fn parse_with_pairs(text: &str, names: &Vec<String>, values: &Vec<String>) -> (r:
    Option<String>)
    ensures
        match r {
            Some(t) => address_with_pairs(text@, string_views(names@), string_views(values@))
                == Some(t@),
            None => address_with_pairs(text@, string_views(names@), string_views(values@))
                is None,
        },
{
    let u = reqwest::Url::parse_with_params(text, names.iter().zip(values.iter())).ok()?;
    Some(u.as_str().to_string())
}

/// The address that a text parses to, written out, with the pairs of the
/// given names and values in its query: nothing is appended where there
/// are no names, so that an address without pairs gets no `?`.
pub open spec fn address_of(
    text: Seq<char>,
    names: Seq<Seq<char>>,
    values: Seq<Seq<char>>,
) -> Option<Seq<char>> {
    if names.len() == 0 {
        match parsed_url(text) {
            Some(url) => Some(url.href),
            None => None,
        }
    } else {
        address_with_pairs(text, names, values)
    }
}

/// The address that a text parses to, written out, with the pairs of the
/// given names and values in its query; `None` where the text is no
/// address.
pub fn address_with_query(text: &str, names: &Vec<String>, values: &Vec<String>) -> (r: Option<
    String,
>)
    ensures
        opt_view(r) == address_of(text@, string_views(names@), string_views(values@)),
{
    if names.len() == 0 {
        match parse_url(text) {
            Some(url) => Some(url.href),
            None => None,
        }
    } else {
        parse_with_pairs(text, names, values)
    }
}

impl ResourceUrl {
    /// Reads an absolute address.
    pub fn parse(text: &str) -> (r: Option<ResourceUrl>)
        ensures
            match r {
                Some(u) => parsed_url(text@) == Some(u@),
                None => parsed_url(text@) is None,
            },
    {
        parse_url(text)
    }
}

} // verus!
