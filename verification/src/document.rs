//! Querying an HTML document. Parsing and selector matching are the work of
//! the `scraper` crate; this module reduces what a query yields to plain
//! values: for each matched element, the attributes that were asked for and
//! the text nodes below it.

use vstd::prelude::*;
use vstd::string::*;
use crate::text::owned_list;

verus! {

/// One matched element: the values of the requested attributes, in the order
/// in which they were requested (absent where the element lacks one), and the
/// text nodes below the element in the order in which the tree yields them.
#[derive(Clone, Debug)]
pub struct Element {
    pub attributes: Vec<Option<String>>,
    pub texts: Vec<String>,
}

/// The mathematical content of an `Element`.
pub struct ElementView {
    pub attributes: Seq<Option<Seq<char>>>,
    pub texts: Seq<Seq<char>>,
}

impl DeepView for Element {
    type V = ElementView;

    open spec fn deep_view(&self) -> ElementView {
        ElementView { attributes: self.attributes.deep_view(), texts: self.texts.deep_view() }
    }
}

/// A question put to a document: a CSS selector, and the names of the
/// attributes to read from each element that matches it.
#[derive(Clone, Debug)]
pub struct Query {
    pub selector: String,
    pub attributes: Vec<String>,
}

/// The mathematical content of a `Query`.
pub struct QueryView {
    pub selector: Seq<char>,
    pub attributes: Seq<Seq<char>>,
}

impl DeepView for Query {
    type V = QueryView;

    open spec fn deep_view(&self) -> QueryView {
        QueryView { selector: self.selector@, attributes: self.attributes.deep_view() }
    }
}

/// What `scraper` yields for one query: `None` where it refuses `selector`,
/// else the elements of the document parsed from `html` that match, in the
/// order in which `Html::select` yields them, each reduced to the attributes
/// named in `attributes` and its text nodes.
pub uninterp spec fn selection(
    html: Seq<char>,
    selector: Seq<char>,
    attributes: Seq<Seq<char>>,
) -> Option<Seq<ElementView>>;

/// The value of the attribute requested at position `i`, absent where the
/// element lacks it or where fewer attributes were requested.
pub open spec fn attribute(e: ElementView, i: int) -> Option<Seq<char>> {
    if 0 <= i < e.attributes.len() {
        e.attributes[i]
    } else {
        None
    }
}

/// The text nodes below an element, concatenated.
pub open spec fn text_of(texts: Seq<Seq<char>>) -> Seq<char>
    decreases texts.len(),
{
    if texts.len() == 0 {
        Seq::empty()
    } else {
        text_of(texts.drop_last()) + texts.last()
    }
}

/// Parses `html` once with `scraper::Html::parse_document` and answers each
/// query with `scraper::Selector::parse` and `Html::select`, reading
/// attributes with `Element::attr` and text nodes with `ElementRef::text`.
/// The contract claims that there is one answer per query and that each
/// answer is what `selection` stands for on that query.
#[verifier::external_body]
fn select_all(html: &str, queries: &Vec<Query>) -> (r: Vec<Option<Vec<Element>>>)
    ensures
        r@.len() == queries@.len(),
        forall|i: int|
            0 <= i < r@.len() ==> (#[trigger] r@[i]).deep_view() == selection(
                html@,
                queries@[i].selector@,
                queries@[i].attributes.deep_view(),
            ),
{
    let document = scraper::Html::parse_document(html);
    queries.iter().map(|q| {
        scraper::Selector::parse(&q.selector).ok().map(|selector| {
            document.select(&selector).map(|e| Element {
                attributes: q.attributes.iter().map(|a| e.value().attr(a).map(String::from)).collect(),
                texts: e.text().map(String::from).collect(),
            }).collect()
        })
    }).collect()
}

/// The answers of the document parsed from `html` to each of `queries`.
pub open spec fn answers(html: Seq<char>, queries: Seq<QueryView>) -> Seq<
    Option<Seq<ElementView>>,
> {
    Seq::new(
        queries.len(),
        |i: int| selection(html, queries[i].selector, queries[i].attributes),
    )
}

/// Answers each of `queries` on the document parsed from `html`, which is
/// parsed once for all of them.
pub fn ask(html: &str, queries: &Vec<Query>) -> (r: Vec<Option<Vec<Element>>>)
    ensures
        r.deep_view() == answers(html@, queries.deep_view()),
{
    let r = select_all(html, queries);
    proof {
        assert(r.deep_view() =~= answers(html@, queries.deep_view()));
    }
    r
}

impl Query {
    /// A query for `selector` that reads the attributes named in `attributes`.
    pub fn new(selector: &str, attributes: &[&str]) -> (r: Query)
        ensures
            r.deep_view().selector == selector@,
            r.deep_view().attributes.len() == attributes@.len(),
            forall|i: int|
                0 <= i < attributes@.len() ==> r.deep_view().attributes[i] == attributes@[i]@,
    {
        let names = owned_list(attributes);
        Query { selector: selector.to_owned(), attributes: names }
    }
}

impl Element {
    /// The value of the attribute requested at position `i`.
    pub fn attribute(&self, i: usize) -> (r: Option<&String>)
        ensures
            r.deep_view() == attribute(self.deep_view(), i as int),
    {
        if i < self.attributes.len() {
            self.attributes[i].as_ref()
        } else {
            None
        }
    }

    /// The text nodes below the element, concatenated.
    pub fn text(&self) -> (r: String)
        ensures
            r@ == text_of(self.deep_view().texts),
    {
        let mut r = String::new();
        let mut i: usize = 0;
        while i < self.texts.len()
            invariant
                i <= self.texts.len(),
                r@ == text_of(self.texts.deep_view().take(i as int)),
            decreases self.texts.len() - i,
        {
            proof {
                let next = self.texts.deep_view().take(i + 1);
                assert(next.drop_last() =~= self.texts.deep_view().take(i as int));
                assert(next.last() == self.texts@[i as int]@);
            }
            r.append(self.texts[i].as_str());
            i += 1;
        }
        proof {
            assert(self.texts.deep_view().take(self.texts.len() as int) =~= self.texts.deep_view());
        }
        r
    }
}

} // verus!
