//! The security posture of a page, judged from its URL, its response
//! headers, its markup and the resources it loads. The notes are heuristics
//! and advise only.

use vstd::prelude::*;
use crate::dictionary::{key_at, text_values, StringMap};
use crate::resources::{NetworkResource, NetworkResourceView};
use crate::text::{
    contains, has_prefix, has_substring, lowercase, same_text, starts_with, to_chars,
};

verus! {

/// What the security evaluation of one page found.
#[derive(Clone, Debug)]
pub struct SecurityReport {
    pub is_https: bool,
    pub mixed_content: bool,
    pub missing_security_headers: Vec<String>,
    pub insecure_cookies: bool,
    pub csp: Option<String>,
    pub notes: Vec<String>,
}

/// The mathematical content of a `SecurityReport`.
pub struct SecurityReportView {
    pub is_https: bool,
    pub mixed_content: bool,
    pub missing_security_headers: Seq<Seq<char>>,
    pub insecure_cookies: bool,
    pub csp: Option<Seq<char>>,
    pub notes: Seq<Seq<char>>,
}

impl DeepView for SecurityReport {
    type V = SecurityReportView;

    open spec fn deep_view(&self) -> SecurityReportView {
        SecurityReportView {
            is_https: self.is_https,
            mixed_content: self.mixed_content,
            missing_security_headers: self.missing_security_headers.deep_view(),
            insecure_cookies: self.insecure_cookies,
            csp: self.csp.deep_view(),
            notes: self.notes.deep_view(),
        }
    }
}

/// The security headers that a response is expected to carry.
pub open spec fn expected_headers() -> Seq<Seq<char>> {
    seq![
        "strict-transport-security"@,
        "content-security-policy"@,
        "x-frame-options"@,
        "x-content-type-options"@,
        "referrer-policy"@,
    ]
}

/// Some header has a name whose lowercase form is `name`.
pub open spec fn header_received(headers: Map<Seq<char>, Seq<char>>, name: Seq<char>) -> bool {
    exists|key: Seq<char>| #[trigger] headers.contains_key(key) && lowercase(key) == name
}

/// The entries of `expected` that no header matches, in the order of
/// `expected`.
pub open spec fn missing_of(headers: Map<Seq<char>, Seq<char>>, expected: Seq<Seq<char>>) -> Seq<
    Seq<char>,
>
    decreases expected.len(),
{
    if expected.len() == 0 {
        Seq::empty()
    } else {
        let before = missing_of(headers, expected.drop_last());
        if header_received(headers, expected.last()) {
            before
        } else {
            before.push(expected.last())
        }
    }
}

/// Some resource was loaded over plain HTTP.
pub open spec fn plain_resource(resources: Seq<NetworkResourceView>) -> bool {
    exists|i: int| 0 <= i < resources.len() && has_prefix(#[trigger] resources[i].name, "http://"@)
}

/// A secure page that refers to something insecure: the markup that was
/// rendered holds `http://`, or one of its resources was loaded over plain
/// HTTP.
pub open spec fn mixed(
    is_https: bool,
    rendered: Option<Seq<char>>,
    resources: Seq<NetworkResourceView>,
) -> bool {
    is_https && ((rendered is Some && has_substring(rendered->0, "http://"@)) || plain_resource(
        resources,
    ))
}

/// A page that was not served over HTTPS has no mixed content, whatever it
/// refers to.
pub proof fn lemma_plain_page_never_mixed(
    rendered: Option<Seq<char>>,
    resources: Seq<NetworkResourceView>,
)
    ensures
        !mixed(false, rendered, resources),
{
}

/// The content security policy among the headers, looked up under its
/// lowercase name first and under its capitalised name second.
pub open spec fn csp_of(headers: Map<Seq<char>, Seq<char>>) -> Option<Seq<char>> {
    if headers.contains_key("content-security-policy"@) {
        Some(headers["content-security-policy"@])
    } else if headers.contains_key("Content-Security-Policy"@) {
        Some(headers["Content-Security-Policy"@])
    } else {
        None
    }
}

/// A cookie is set whose attributes lack `httponly` or lack `secure`,
/// whatever the case they are written in.
pub open spec fn cookie_insecure(headers: Map<Seq<char>, Seq<char>>) -> bool {
    headers.contains_key("set-cookie"@) && {
        let value = lowercase(headers["set-cookie"@]);
        !has_substring(value, "httponly"@) || !has_substring(value, "secure"@)
    }
}

/// The advice given where jQuery is referred to.
pub open spec fn jquery_note() -> Seq<char> {
    "Detected jquery references; consider checking version for known vulnerabilities"@
}

/// The advice given where WordPress is recognised.
pub open spec fn wordpress_note() -> Seq<char> {
    "WordPress site detected; consider known WP plugin vulnerabilities"@
}

/// `word` occurs in the lowercase form of the served markup or of the
/// rendered markup.
pub open spec fn detected(html: Seq<char>, rendered: Option<Seq<char>>, word: Seq<char>) -> bool {
    has_substring(lowercase(html), word) || (rendered is Some && has_substring(
        lowercase(rendered->0),
        word,
    ))
}

/// The advisory notes for a page.
pub open spec fn notes_of(html: Seq<char>, rendered: Option<Seq<char>>) -> Seq<Seq<char>> {
    let first: Seq<Seq<char>> = if detected(html, rendered, "jquery"@) {
        seq![jquery_note()]
    } else {
        Seq::empty()
    };
    if detected(html, rendered, "wordpress"@) {
        first.push(wordpress_note())
    } else {
        first
    }
}

/// The report for a page.
pub open spec fn report_of(
    is_https: bool,
    headers: Map<Seq<char>, Seq<char>>,
    expected: Seq<Seq<char>>,
    html: Seq<char>,
    rendered: Option<Seq<char>>,
    resources: Seq<NetworkResourceView>,
) -> SecurityReportView {
    SecurityReportView {
        is_https,
        mixed_content: mixed(is_https, rendered, resources),
        missing_security_headers: missing_of(headers, expected),
        insecure_cookies: cookie_insecure(headers),
        csp: csp_of(headers),
        notes: notes_of(html, rendered),
    }
}

/// The security headers that a response is expected to carry.
pub fn default_expected_headers() -> (r: Vec<String>)
    ensures
        r.deep_view() == expected_headers(),
{
    let mut r: Vec<String> = Vec::new();
    r.push("strict-transport-security".to_owned());
    r.push("content-security-policy".to_owned());
    r.push("x-frame-options".to_owned());
    r.push("x-content-type-options".to_owned());
    r.push("referrer-policy".to_owned());
    proof {
        assert(r.deep_view() =~= expected_headers());
    }
    r
}

/// Whether some header has a name whose lowercase form is `name`.
pub fn has_header(headers: &StringMap<String>, name: &str) -> (r: bool)
    ensures
        r == header_received(text_values(headers@), name@),
{
    let entries = headers.entries();
    let mut i: usize = 0;
    while i < entries.len()
        invariant
            i <= entries.len(),
            entries@ == headers.pairs(),
            forall|j: int| 0 <= j < i ==> lowercase((#[trigger] entries@[j]).0@) != name@,
            forall|j: int|
                0 <= j < entries@.len() ==> headers@.contains_key((#[trigger] entries@[j]).0@),
            forall|key: Seq<char>|
                headers@.contains_key(key) ==> exists|j: int| key_at(entries@, key, j),
        decreases entries.len() - i,
    {
        let lower = entries[i].0.as_str().to_lowercase();
        if same_text(lower.as_str(), name) {
            proof {
                let key = entries@[i as int].0@;
                assert(text_values(headers@).contains_key(key));
            }
            return true;
        }
        i += 1;
    }
    proof {
        assert forall|key: Seq<char>| #[trigger]
            text_values(headers@).contains_key(key) implies lowercase(key) != name@ by {
            assert(headers@.contains_key(key));
            let j = choose|j: int| key_at(entries@, key, j);
            assert(entries@[j].0@ == key);
        }
    }
    false
}

/// The entries of `expected` that no header matches.
pub fn missing_headers(headers: &StringMap<String>, expected: &Vec<String>) -> (r: Vec<String>)
    ensures
        r.deep_view() == missing_of(text_values(headers@), expected.deep_view()),
{
    let mut r: Vec<String> = Vec::new();
    let mut i: usize = 0;
    proof {
        assert(expected.deep_view().take(0) =~= Seq::empty());
        assert(r.deep_view() =~= Seq::empty());
    }
    while i < expected.len()
        invariant
            i <= expected.len(),
            r.deep_view() == missing_of(
                text_values(headers@),
                expected.deep_view().take(i as int),
            ),
        decreases expected.len() - i,
    {
        proof {
            let next = expected.deep_view().take(i + 1);
            assert(next.drop_last() =~= expected.deep_view().take(i as int));
            assert(next.last() == expected@[i as int]@);
        }
        if !has_header(headers, expected[i].as_str()) {
            let ghost before = r.deep_view();
            r.push(expected[i].clone());
            proof {
                assert(r.deep_view() =~= before.push(expected@[i as int]@));
            }
        }
        i += 1;
    }
    proof {
        assert(expected.deep_view().take(expected.len() as int) =~= expected.deep_view());
    }
    r
}

/// Whether some resource was loaded over plain HTTP.
pub fn has_plain_resource(resources: &Vec<NetworkResource>) -> (r: bool)
    ensures
        r == plain_resource(resources.deep_view()),
{
    let prefix = to_chars("http://");
    let mut i: usize = 0;
    while i < resources.len()
        invariant
            i <= resources.len(),
            prefix@ == "http://"@,
            forall|j: int|
                0 <= j < i ==> !has_prefix(#[trigger] resources.deep_view()[j].name, "http://"@),
        decreases resources.len() - i,
    {
        let name = to_chars(resources[i].name.as_str());
        if starts_with(name.as_slice(), prefix.as_slice()) {
            proof {
                assert(has_prefix(resources.deep_view()[i as int].name, "http://"@));
            }
            return true;
        }
        i += 1;
    }
    false
}

/// Whether `text` holds `word`.
pub fn holds(text: &str, word: &str) -> (r: bool)
    ensures
        r == has_substring(text@, word@),
{
    let t = to_chars(text);
    let w = to_chars(word);
    contains(t.as_slice(), w.as_slice())
}

/// Whether a secure page refers to something insecure.
pub fn has_mixed_content(
    is_https: bool,
    rendered: &Option<String>,
    resources: &Vec<NetworkResource>,
) -> (r: bool)
    ensures
        r == mixed(is_https, rendered.deep_view(), resources.deep_view()),
{
    if !is_https {
        return false;
    }
    let in_markup = match rendered {
        Some(text) => holds(text.as_str(), "http://"),
        None => false,
    };
    in_markup || has_plain_resource(resources)
}

/// The text stored under `key`, if any.
pub fn header_value(headers: &StringMap<String>, key: &str) -> (r: Option<String>)
    ensures
        r.deep_view() == if text_values(headers@).contains_key(key@) {
            Some(text_values(headers@)[key@])
        } else {
            None
        },
{
    match headers.get(&key.to_owned()) {
        Some(value) => Some(value.clone()),
        None => None,
    }
}

/// The content security policy among the headers.
pub fn content_security_policy(headers: &StringMap<String>) -> (r: Option<String>)
    ensures
        r.deep_view() == csp_of(text_values(headers@)),
{
    match header_value(headers, "content-security-policy") {
        Some(value) => Some(value),
        None => header_value(headers, "Content-Security-Policy"),
    }
}

/// Whether a cookie is set without `httponly` or without `secure`.
pub fn has_insecure_cookies(headers: &StringMap<String>) -> (r: bool)
    ensures
        r == cookie_insecure(text_values(headers@)),
{
    match header_value(headers, "set-cookie") {
        Some(value) => {
            let lower = value.as_str().to_lowercase();
            !holds(lower.as_str(), "httponly") || !holds(lower.as_str(), "secure")
        },
        None => false,
    }
}

/// Whether `word` occurs in the lowercase form of the served or of the
/// rendered markup.
pub fn detects(html: &str, rendered: &Option<String>, word: &str) -> (r: bool)
    ensures
        r == detected(html@, rendered.deep_view(), word@),
{
    let lower = html.to_lowercase();
    if holds(lower.as_str(), word) {
        return true;
    }
    match rendered {
        Some(text) => {
            let lower_rendered = text.as_str().to_lowercase();
            holds(lower_rendered.as_str(), word)
        },
        None => false,
    }
}

/// The advisory notes for a page.
pub fn technology_notes(html: &str, rendered: &Option<String>) -> (r: Vec<String>)
    ensures
        r.deep_view() == notes_of(html@, rendered.deep_view()),
{
    let mut r: Vec<String> = Vec::new();
    if detects(html, rendered, "jquery") {
        r.push(
            "Detected jquery references; consider checking version for known vulnerabilities".to_owned(),
        );
    }
    if detects(html, rendered, "wordpress") {
        r.push("WordPress site detected; consider known WP plugin vulnerabilities".to_owned());
    }
    proof {
        assert(r.deep_view() =~= notes_of(html@, rendered.deep_view()));
    }
    r
}

/// The security report of a page: `html` is the markup as served,
/// `rendered` the markup that the mixed-content check reads.
pub fn security_report(
    is_https: bool,
    headers: &StringMap<String>,
    expected: &Vec<String>,
    html: &str,
    rendered: &Option<String>,
    resources: &Vec<NetworkResource>,
) -> (r: SecurityReport)
    ensures
        r.deep_view() == report_of(
            is_https,
            text_values(headers@),
            expected.deep_view(),
            html@,
            rendered.deep_view(),
            resources.deep_view(),
        ),
{
    SecurityReport {
        is_https,
        mixed_content: has_mixed_content(is_https, rendered, resources),
        missing_security_headers: missing_headers(headers, expected),
        insecure_cookies: has_insecure_cookies(headers),
        csp: content_security_policy(headers),
        notes: technology_notes(html, rendered),
    }
}

} // verus!
