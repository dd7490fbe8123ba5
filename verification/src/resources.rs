//! The resources that a page refers to, as far as its markup shows them:
//! stylesheets, scripts and images, each resolved against the page's URL.
//! Without a browser there is nothing to measure, so each entry carries the
//! nominal timing and size of its kind.

use vstd::prelude::*;
use crate::document::{answers, ask, attribute, Element, ElementView, Query, QueryView};
use crate::error::AnalysisError;
use crate::page_url::{join_url, resolved_url, PageUrl};

verus! {

/// One resource that a page loads.
#[derive(Clone, Debug)]
pub struct NetworkResource {
    pub name: String,
    pub initiator_type: String,
    pub start_time_ms: u64,
    pub duration_ms: u64,
    pub transfer_size: Option<u64>,
    pub encoded_body_size: Option<u64>,
}

/// The mathematical content of a `NetworkResource`.
pub struct NetworkResourceView {
    pub name: Seq<char>,
    pub initiator_type: Seq<char>,
    pub start_time_ms: u64,
    pub duration_ms: u64,
    pub transfer_size: Option<u64>,
    pub encoded_body_size: Option<u64>,
}

impl DeepView for NetworkResource {
    type V = NetworkResourceView;

    open spec fn deep_view(&self) -> NetworkResourceView {
        NetworkResourceView {
            name: self.name@,
            initiator_type: self.initiator_type@,
            start_time_ms: self.start_time_ms,
            duration_ms: self.duration_ms,
            transfer_size: self.transfer_size,
            encoded_body_size: self.encoded_body_size,
        }
    }
}

/// The kinds of resource that the markup shows.
#[derive(Clone, Copy, Debug, PartialEq, Eq, Structural)]
pub enum ResourceKind {
    Stylesheet,
    Script,
    Image,
}

impl ResourceKind {
    /// The initiator category reported for the kind.
    pub open spec fn initiator(self) -> Seq<char> {
        match self {
            ResourceKind::Stylesheet => "css"@,
            ResourceKind::Script => "script"@,
            ResourceKind::Image => "img"@,
        }
    }

    /// The nominal duration of the kind, in milliseconds.
    pub open spec fn nominal_duration_ms(self) -> u64 {
        match self {
            ResourceKind::Stylesheet => 100,
            ResourceKind::Script => 150,
            ResourceKind::Image => 200,
        }
    }

    /// The nominal size of the kind, in bytes.
    pub open spec fn nominal_size(self) -> u64 {
        match self {
            ResourceKind::Stylesheet => 1024,
            ResourceKind::Script => 2048,
            ResourceKind::Image => 5120,
        }
    }
}

/// The entry for a resource of `kind` whose reference resolved to `name`.
pub open spec fn resource_of(name: Seq<char>, kind: ResourceKind) -> NetworkResourceView {
    NetworkResourceView {
        name,
        initiator_type: kind.initiator(),
        start_time_ms: 0,
        duration_ms: kind.nominal_duration_ms(),
        transfer_size: Some(kind.nominal_size()),
        encoded_body_size: Some(kind.nominal_size()),
    }
}

/// The entries for the elements of one kind, with the reference in slot 0:
/// one for each element that has a reference which resolves against `base`,
/// in element order.
pub open spec fn resources_of(elements: Seq<ElementView>, base: Seq<char>, kind: ResourceKind) -> Seq<
    NetworkResourceView,
>
    decreases elements.len(),
{
    if elements.len() == 0 {
        Seq::empty()
    } else {
        let before = resources_of(elements.drop_last(), base, kind);
        match attribute(elements.last(), 0) {
            Some(reference) => match resolved_url(base, reference) {
                Some(name) => before.push(resource_of(name, kind)),
                None => before,
            },
            None => before,
        }
    }
}

/// The three queries for resources: stylesheets, scripts, images.
pub open spec fn resource_queries() -> Seq<QueryView> {
    seq![
        QueryView { selector: "link[rel='stylesheet']"@, attributes: seq!["href"@] },
        QueryView { selector: "script[src]"@, attributes: seq!["src"@] },
        QueryView { selector: "img[src]"@, attributes: seq!["src"@] },
    ]
}

/// Every one of the three queries was answered.
pub open spec fn resources_complete(found: Seq<Option<Seq<ElementView>>>) -> bool {
    found.len() == 3 && found[0] is Some && found[1] is Some && found[2] is Some
}

/// The resources that the answers to the three queries stand for:
/// stylesheets first, then scripts, then images.
pub open spec fn page_resources(found: Seq<Option<Seq<ElementView>>>, base: Seq<char>) -> Seq<
    NetworkResourceView,
> {
    resources_of(found[0]->0, base, ResourceKind::Stylesheet) + resources_of(
        found[1]->0,
        base,
        ResourceKind::Script,
    ) + resources_of(found[2]->0, base, ResourceKind::Image)
}

/// The entry for a resource of `kind` whose reference resolved to `name`.
pub fn resource_from(name: String, kind: ResourceKind) -> (r: NetworkResource)
    ensures
        r.deep_view() == resource_of(name@, kind),
{
    match kind {
        ResourceKind::Stylesheet => NetworkResource {
            name,
            initiator_type: "css".to_owned(),
            start_time_ms: 0,
            duration_ms: 100,
            transfer_size: Some(1024),
            encoded_body_size: Some(1024),
        },
        ResourceKind::Script => NetworkResource {
            name,
            initiator_type: "script".to_owned(),
            start_time_ms: 0,
            duration_ms: 150,
            transfer_size: Some(2048),
            encoded_body_size: Some(2048),
        },
        ResourceKind::Image => NetworkResource {
            name,
            initiator_type: "img".to_owned(),
            start_time_ms: 0,
            duration_ms: 200,
            transfer_size: Some(5120),
            encoded_body_size: Some(5120),
        },
    }
}

/// Appends to `out` the entries for the elements of one kind.
pub fn push_resources(
    out: &mut Vec<NetworkResource>,
    elements: &Vec<Element>,
    page: &PageUrl,
    kind: ResourceKind,
)
    ensures
        final(out).deep_view() == old(out).deep_view() + resources_of(
            elements.deep_view(),
            page.href@,
            kind,
        ),
{
    let ghost start = out.deep_view();
    let mut i: usize = 0;
    proof {
        assert(elements.deep_view().take(0) =~= Seq::empty());
        assert(start + Seq::<NetworkResourceView>::empty() =~= start);
    }
    while i < elements.len()
        invariant
            i <= elements.len(),
            out.deep_view() == start + resources_of(
                elements.deep_view().take(i as int),
                page.href@,
                kind,
            ),
        decreases elements.len() - i,
    {
        proof {
            let next = elements.deep_view().take(i + 1);
            assert(next.drop_last() =~= elements.deep_view().take(i as int));
            assert(next.last() == elements@[i as int].deep_view());
        }
        match elements[i].attribute(0) {
            Some(reference) => match join_url(page.href.as_str(), reference.as_str()) {
                Some(name) => {
                    let ghost before = out.deep_view();
                    let ghost done = resources_of(
                        elements.deep_view().take(i as int),
                        page.href@,
                        kind,
                    );
                    let ghost added = resource_of(name@, kind);
                    out.push(resource_from(name, kind));
                    proof {
                        assert(out.deep_view() =~= before.push(added));
                        assert((start + done).push(added) =~= start + done.push(added));
                    }
                },
                None => {},
            },
            None => {},
        }
        i += 1;
    }
    proof {
        assert(elements.deep_view().take(elements.len() as int) =~= elements.deep_view());
    }
}

/// The queries for resources.
pub fn build_resource_queries() -> (r: Vec<Query>)
    ensures
        r.deep_view() == resource_queries(),
{
    let mut r: Vec<Query> = Vec::new();
    r.push(Query::new("link[rel='stylesheet']", &["href"]));
    r.push(Query::new("script[src]", &["src"]));
    r.push(Query::new("img[src]", &["src"]));
    proof {
        let got = r.deep_view();
        let want = resource_queries();
        assert(got.len() == want.len());
        assert forall|i: int| 0 <= i < 3 implies got[i] == want[i] by {
            assert(got[i].attributes =~= want[i].attributes);
        }
        assert(got =~= want);
    }
    r
}

/// Assembles the resources of a page from the answers to the three queries.
/// Fails only where an answer is missing.
pub fn assemble_resources(found: &Vec<Option<Vec<Element>>>, page: &PageUrl) -> (r: Result<
    Vec<NetworkResource>,
    AnalysisError,
>)
    ensures
        match r {
            Ok(list) => resources_complete(found.deep_view()) && list.deep_view()
                == page_resources(found.deep_view(), page.href@),
            Err(e) => e is InternalError && !resources_complete(found.deep_view()),
        },
{
    if found.len() != 3 {
        return Err(AnalysisError::InternalError);
    }
    match (&found[0], &found[1], &found[2]) {
        (Some(stylesheets), Some(scripts), Some(images)) => {
            let mut list: Vec<NetworkResource> = Vec::new();
            proof {
                assert(list.deep_view() =~= Seq::empty());
                assert(found.deep_view()[0]->0 == stylesheets.deep_view());
                assert(found.deep_view()[1]->0 == scripts.deep_view());
                assert(found.deep_view()[2]->0 == images.deep_view());
            }
            push_resources(&mut list, stylesheets, page, ResourceKind::Stylesheet);
            push_resources(&mut list, scripts, page, ResourceKind::Script);
            push_resources(&mut list, images, page, ResourceKind::Image);
            proof {
                assert(list.deep_view() =~= page_resources(found.deep_view(), page.href@));
            }
            Ok(list)
        },
        _ => {
            proof {
                assert(found.deep_view()[0] is None || found.deep_view()[1] is None
                    || found.deep_view()[2] is None);
            }
            Err(AnalysisError::InternalError)
        },
    }
}

/// The resources that the page served as `html` from `page` refers to.
/// Fails only where the document engine refuses one of the library's
/// selectors.
pub fn analyze_network_resources(html: &str, page: &PageUrl) -> (r: Result<
    Vec<NetworkResource>,
    AnalysisError,
>)
    ensures
        match r {
            Ok(list) => resources_complete(answers(html@, resource_queries()))
                && list.deep_view() == page_resources(
                answers(html@, resource_queries()),
                page.href@,
            ),
            Err(e) => e is InternalError && !resources_complete(
                answers(html@, resource_queries()),
            ),
        },
{
    let queries = build_resource_queries();
    let found = ask(html, &queries);
    assemble_resources(&found, page)
}

} // verus!
