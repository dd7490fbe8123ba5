//! Absolute URLs. Parsing and reference resolution are the work of the `url`
//! crate; the library keeps of a parsed URL the three things it reads.

use vstd::prelude::*;
use crate::text::{has_prefix, same_text, starts_with, to_chars};

verus! {

/// A parsed absolute URL: its normalised text, its scheme, its host where it
/// has one, and its domain, which is present only where the host is a domain
/// name and not an IP address.
#[derive(Clone, Debug)]
pub struct PageUrl {
    pub href: String,
    pub scheme: String,
    pub host: Option<String>,
    pub domain: Option<String>,
}

/// The mathematical content of a `PageUrl`.
pub struct PageUrlView {
    pub href: Seq<char>,
    pub scheme: Seq<char>,
    pub host: Option<Seq<char>>,
    pub domain: Option<Seq<char>>,
}

impl DeepView for PageUrl {
    type V = PageUrlView;

    open spec fn deep_view(&self) -> PageUrlView {
        PageUrlView {
            href: self.href@,
            scheme: self.scheme@,
            host: self.host.deep_view(),
            domain: self.domain.deep_view(),
        }
    }
}

/// What `url::Url::parse` makes of `input`: `None` where it refuses the
/// text, else the serialisation, scheme, host and domain of the URL it
/// returns.
pub uninterp spec fn parsed_url(input: Seq<char>) -> Option<PageUrlView>;

/// What `url::Url::join` makes of `reference` against the URL parsed from
/// `base`: `None` where either step is refused, else the serialisation of the
/// resolved URL.
pub uninterp spec fn resolved_url(base: Seq<char>, reference: Seq<char>) -> Option<Seq<char>>;

/// Calls `url::Url::parse` and reads `scheme`, `host_str`, `domain` and the
/// serialisation of the result. The contract claims only that the outcome is what
/// `parsed_url` stands for.
#[verifier::external_body]
pub(crate) fn parse_url(input: &str) -> (r: Option<PageUrl>)
    ensures
        r.deep_view() == parsed_url(input@),
{
    match url::Url::parse(input) {
        Ok(u) => Some(PageUrl {
            scheme: u.scheme().to_string(),
            host: u.host_str().map(String::from),
            domain: u.domain().map(String::from),
            href: String::from(u),
        }),
        Err(_) => None,
    }
}

/// Parses `base` with `url::Url::parse` and resolves `reference` against it
/// with `url::Url::join`. The contract claims only that the outcome is what
/// `resolved_url` stands for.
#[verifier::external_body]
pub(crate) fn join_url(base: &str, reference: &str) -> (r: Option<String>)
    ensures
        r.deep_view() == resolved_url(base@, reference@),
{
    match url::Url::parse(base) {
        Ok(u) => u.join(reference).ok().map(String::from),
        Err(_) => None,
    }
}

/// Whether a link is external: its target is written with an `http://` or
/// `https://` prefix, parses as an absolute URL, and that URL's domain differs
/// from the page's.
pub open spec fn external(
    href: Seq<char>,
    target: Option<PageUrlView>,
    page_domain: Option<Seq<char>>,
) -> bool {
    &&& has_prefix(href, "http://"@) || has_prefix(href, "https://"@)
    &&& target is Some
    &&& target->0.domain != page_domain
}

/// A link is never external where its target is not written with a web
/// prefix, where the target does not parse, or where it parses to the page's
/// own domain, whatever its scheme.
pub proof fn lemma_never_external(
    href: Seq<char>,
    target: Option<PageUrlView>,
    page_domain: Option<Seq<char>>,
)
    requires
        !(has_prefix(href, "http://"@) || has_prefix(href, "https://"@)) || target is None || (
        target is Some && target->0.domain == page_domain),
    ensures
        !external(href, target, page_domain),
{
}

/// A scheme over which pages are fetched.
pub open spec fn web_scheme(scheme: Seq<char>) -> bool {
    scheme == "http"@ || scheme == "https"@
}

impl PageUrl {
    /// Whether the scheme is `https`.
    pub fn is_https(&self) -> (r: bool)
        ensures
            r == (self.scheme@ == "https"@),
    {
        same_text(self.scheme.as_str(), "https")
    }

    /// Whether the scheme is `http` or `https`.
    pub fn is_web(&self) -> (r: bool)
        ensures
            r == web_scheme(self.scheme@),
    {
        same_text(self.scheme.as_str(), "http") || same_text(self.scheme.as_str(), "https")
    }
}

/// Whether two optional texts are equal.
pub fn same_domain(a: &Option<String>, b: &Option<String>) -> (r: bool)
    ensures
        r == (a.deep_view() == b.deep_view()),
{
    match (a, b) {
        (Some(x), Some(y)) => same_text(x.as_str(), y.as_str()),
        (None, None) => true,
        _ => false,
    }
}

/// Whether `href` is written with an `http://` or `https://` prefix.
pub fn has_web_prefix(href: &str) -> (r: bool)
    ensures
        r == (has_prefix(href@, "http://"@) || has_prefix(href@, "https://"@)),
{
    let chars = to_chars(href);
    let http = to_chars("http://");
    let https = to_chars("https://");
    starts_with(chars.as_slice(), http.as_slice()) || starts_with(
        chars.as_slice(),
        https.as_slice(),
    )
}

/// Classifies a link whose target has already been parsed: `target` is what
/// parsing `href` gave.
pub fn classify_link(href: &str, target: &Option<PageUrl>, page: &PageUrl) -> (r: bool)
    ensures
        r == external(href@, target.deep_view(), page.deep_view().domain),
{
    if !has_web_prefix(href) {
        return false;
    }
    match target {
        Some(link) => !same_domain(&link.domain, &page.domain),
        None => false,
    }
}

/// Whether `href`, found on `page`, leads to another domain.
pub fn is_external_link(href: &str, page: &PageUrl) -> (r: bool)
    ensures
        r == external(href@, parsed_url(href@), page.deep_view().domain),
{
    if !has_web_prefix(href) {
        return false;
    }
    let target = parse_url(href);
    classify_link(href, &target, page)
}

} // verus!
