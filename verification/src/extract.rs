//! Static extraction: the structured fields of a page, read from the elements
//! that the document yields for a fixed set of queries. Absent pieces degrade
//! to defaults; nothing here fails on a page's content.

use vstd::prelude::*;
use vstd::string::*;
use crate::dictionary::{lemma_text_values_insert, text_values, StringMap};
use crate::document::{answers, ask, attribute, text_of, Element, ElementView, Query, QueryView};
use crate::error::AnalysisError;
use crate::page_url::{classify_link, external, has_web_prefix, parse_url, parsed_url, PageUrl, PageUrlView};
use crate::text::{
    collapse_whitespace, from_chars, join, joined, normalized, to_chars, trim, trimmed,
};

verus! {

/// A hyperlink: its display text (the target where the element has no text),
/// its target as written in the markup, and whether it leads off the page's
/// domain.
#[derive(Clone, Debug)]
pub struct LinkInfo {
    pub text: String,
    pub href: String,
    pub is_external: bool,
}

/// The mathematical content of a `LinkInfo`.
pub struct LinkInfoView {
    pub text: Seq<char>,
    pub href: Seq<char>,
    pub is_external: bool,
}

impl DeepView for LinkInfo {
    type V = LinkInfoView;

    open spec fn deep_view(&self) -> LinkInfoView {
        LinkInfoView { text: self.text@, href: self.href@, is_external: self.is_external }
    }
}

/// An image: its alternative text (empty where absent), its source, and its
/// width and height as written in the markup.
#[derive(Clone, Debug)]
pub struct ImageInfo {
    pub alt: String,
    pub src: String,
    pub width: Option<String>,
    pub height: Option<String>,
}

/// The mathematical content of an `ImageInfo`.
pub struct ImageInfoView {
    pub alt: Seq<char>,
    pub src: Seq<char>,
    pub width: Option<Seq<char>>,
    pub height: Option<Seq<char>>,
}

impl DeepView for ImageInfo {
    type V = ImageInfoView;

    open spec fn deep_view(&self) -> ImageInfoView {
        ImageInfoView {
            alt: self.alt@,
            src: self.src@,
            width: self.width.deep_view(),
            height: self.height.deep_view(),
        }
    }
}

/// The title of a page, given its `title` elements: the text of the first,
/// or a fixed default.
pub open spec fn title_of(titles: Seq<ElementView>) -> Seq<char> {
    if titles.len() > 0 {
        text_of(titles[0].texts)
    } else {
        "No title found"@
    }
}

/// The description of a page, given its description `meta` elements with
/// their `content` attribute in slot 0: the content of the first, or a fixed
/// default where there is none or the first has no content.
pub open spec fn description_of(metas: Seq<ElementView>) -> Seq<char> {
    if metas.len() > 0 && attribute(metas[0], 0) is Some {
        attribute(metas[0], 0)->0
    } else {
        "No description found"@
    }
}

/// The tag that a heading of the given level is listed under.
pub open spec fn heading_tag(level: int) -> Seq<char> {
    if level == 1 {
        "H1: "@
    } else if level == 2 {
        "H2: "@
    } else if level == 3 {
        "H3: "@
    } else if level == 4 {
        "H4: "@
    } else if level == 5 {
        "H5: "@
    } else {
        "H6: "@
    }
}

/// The headings of one level, in the order of their elements: the trimmed
/// text of each element behind the level's tag, elements without text left
/// out.
pub open spec fn headings_at(level: int, elements: Seq<ElementView>) -> Seq<Seq<char>>
    decreases elements.len(),
{
    if elements.len() == 0 {
        Seq::empty()
    } else {
        let before = headings_at(level, elements.drop_last());
        let text = trimmed(text_of(elements.last().texts));
        if text.len() > 0 {
            before.push(heading_tag(level) + text)
        } else {
            before
        }
    }
}

/// The link that an anchor element stands for, with its `href` in slot 0
/// and `target` the outcome of parsing that `href`; none where the element
/// has no `href`.
pub open spec fn link_of(
    e: ElementView,
    target: Option<PageUrlView>,
    page_domain: Option<Seq<char>>,
) -> Option<LinkInfoView> {
    match attribute(e, 0) {
        Some(href) => {
            let text = trimmed(text_of(e.texts));
            Some(
                LinkInfoView {
                    text: if text.len() == 0 {
                        href
                    } else {
                        text
                    },
                    href,
                    is_external: external(href, target, page_domain),
                },
            )
        },
        None => None,
    }
}

/// The links of a page, in the order of its anchor elements.
pub open spec fn links_of(elements: Seq<ElementView>, page_domain: Option<Seq<char>>) -> Seq<
    LinkInfoView,
>
    decreases elements.len(),
{
    if elements.len() == 0 {
        Seq::empty()
    } else {
        let before = links_of(elements.drop_last(), page_domain);
        match attribute(elements.last(), 0) {
            Some(href) => before.push(
                link_of(elements.last(), parsed_url(href), page_domain)->0,
            ),
            None => before,
        }
    }
}

/// The image that an `img` element stands for, with `src`, `alt`, `width`
/// and `height` in slots 0 to 3; none where the element has no `src`.
pub open spec fn image_of(e: ElementView) -> Option<ImageInfoView> {
    match attribute(e, 0) {
        Some(src) => Some(
            ImageInfoView {
                alt: match attribute(e, 1) {
                    Some(alt) => alt,
                    None => Seq::empty(),
                },
                src,
                width: attribute(e, 2),
                height: attribute(e, 3),
            },
        ),
        None => None,
    }
}

/// The images of a page, in the order of its `img` elements.
pub open spec fn images_of(elements: Seq<ElementView>) -> Seq<ImageInfoView>
    decreases elements.len(),
{
    if elements.len() == 0 {
        Seq::empty()
    } else {
        let before = images_of(elements.drop_last());
        match image_of(elements.last()) {
            Some(image) => before.push(image),
            None => before,
        }
    }
}

/// `tags` after one more `meta` element, with `name`, `property` and
/// `content` in slots 0 to 2: the content is stored under the name, then
/// under the property, each where present.
pub open spec fn with_meta(tags: Map<Seq<char>, Seq<char>>, e: ElementView) -> Map<
    Seq<char>,
    Seq<char>,
> {
    let content = attribute(e, 2);
    let named = if attribute(e, 0) is Some && content is Some {
        tags.insert(attribute(e, 0)->0, content->0)
    } else {
        tags
    };
    if attribute(e, 1) is Some && content is Some {
        named.insert(attribute(e, 1)->0, content->0)
    } else {
        named
    }
}

/// The meta tags of a page: its `meta` elements applied in order, so that
/// of two elements with one key the later one decides.
pub open spec fn meta_of(elements: Seq<ElementView>) -> Map<Seq<char>, Seq<char>>
    decreases elements.len(),
{
    if elements.len() == 0 {
        Map::empty()
    } else {
        with_meta(meta_of(elements.drop_last()), elements.last())
    }
}

/// Of two `meta` elements that store under one key, the later one decides:
/// after an element with a property and a content, that content is what the
/// property names, whatever was stored before.
pub proof fn lemma_later_meta_wins(elements: Seq<ElementView>)
    requires
        elements.len() > 0,
        attribute(elements.last(), 1) is Some,
        attribute(elements.last(), 2) is Some,
    ensures
        meta_of(elements).contains_key(attribute(elements.last(), 1)->0),
        meta_of(elements)[attribute(elements.last(), 1)->0] == attribute(elements.last(), 2)->0,
{
}

/// The visible text of a page, given its `body` elements: the text nodes of
/// the first joined by spaces, whitespace collapsed and trimmed; empty where
/// there is no body.
pub open spec fn visible_text_of(bodies: Seq<ElementView>) -> Seq<char> {
    if bodies.len() > 0 {
        normalized(joined(bodies[0].texts, " "@))
    } else {
        Seq::empty()
    }
}

/// The title of a page, given its `title` elements.
pub fn title_from(titles: &Vec<Element>) -> (r: String)
    ensures
        r@ == title_of(titles.deep_view()),
        titles@.len() == 0 ==> r@ == "No title found"@,
{
    if titles.len() > 0 {
        titles[0].text()
    } else {
        "No title found".to_owned()
    }
}

/// The description of a page, given its description `meta` elements.
pub fn description_from(metas: &Vec<Element>) -> (r: String)
    ensures
        r@ == description_of(metas.deep_view()),
        metas@.len() == 0 ==> r@ == "No description found"@,
{
    if metas.len() > 0 {
        match metas[0].attribute(0) {
            Some(content) => content.clone(),
            None => "No description found".to_owned(),
        }
    } else {
        "No description found".to_owned()
    }
}

/// The trimmed text of an element.
pub fn trimmed_text(e: &Element) -> (r: String)
    ensures
        r@ == trimmed(text_of(e.deep_view().texts)),
{
    let text = e.text();
    let chars = to_chars(text.as_str());
    let kept = trim(chars.as_slice());
    from_chars(kept.as_slice())
}

/// Appends to `out` the headings of one level.
pub fn push_headings(out: &mut Vec<String>, level: u8, elements: &Vec<Element>)
    requires
        1 <= level <= 6,
    ensures
        final(out).deep_view() == old(out).deep_view() + headings_at(
            level as int,
            elements.deep_view(),
        ),
{
    let ghost start = out.deep_view();
    let mut i: usize = 0;
    proof {
        assert(elements.deep_view().take(0) =~= Seq::empty());
        assert(start + Seq::<Seq<char>>::empty() =~= start);
    }
    while i < elements.len()
        invariant
            i <= elements.len(),
            1 <= level <= 6,
            out.deep_view() == start + headings_at(
                level as int,
                elements.deep_view().take(i as int),
            ),
        decreases elements.len() - i,
    {
        proof {
            let next = elements.deep_view().take(i + 1);
            assert(next.drop_last() =~= elements.deep_view().take(i as int));
            assert(next.last() == elements@[i as int].deep_view());
        }
        let text = trimmed_text(&elements[i]);
        if !text.as_str().is_empty() {
            let tag = if level == 1 {
                "H1: "
            } else if level == 2 {
                "H2: "
            } else if level == 3 {
                "H3: "
            } else if level == 4 {
                "H4: "
            } else if level == 5 {
                "H5: "
            } else {
                "H6: "
            };
            let mut heading = tag.to_owned();
            heading.append(text.as_str());
            let ghost before = out.deep_view();
            out.push(heading);
            proof {
                assert(out.deep_view() =~= before.push(heading_tag(level as int) + text@));
                let done = headings_at(level as int, elements.deep_view().take(i as int));
                assert((start + done).push(heading_tag(level as int) + text@) =~= start
                    + done.push(heading_tag(level as int) + text@));
            }
        }
        i += 1;
    }
    proof {
        assert(elements.deep_view().take(elements.len() as int) =~= elements.deep_view());
    }
}

/// The link that an anchor element stands for, where `target` is what
/// parsing its `href` gave.
pub fn link_from(e: &Element, target: &Option<PageUrl>, page: &PageUrl) -> (r: Option<LinkInfo>)
    ensures
        r.deep_view() == link_of(e.deep_view(), target.deep_view(), page.deep_view().domain),
{
    match e.attribute(0) {
        Some(href) => {
            let text = trimmed_text(e);
            let is_external = classify_link(href.as_str(), target, page);
            Some(
                LinkInfo {
                    text: if text.as_str().is_empty() {
                        href.clone()
                    } else {
                        text
                    },
                    href: href.clone(),
                    is_external,
                },
            )
        },
        None => None,
    }
}

/// The links of a page, in the order of its anchor elements. The target of
/// each is parsed only where it is written with a web prefix, as no other
/// target can be external.
pub fn links_from(elements: &Vec<Element>, page: &PageUrl) -> (r: Vec<LinkInfo>)
    ensures
        r.deep_view() == links_of(elements.deep_view(), page.deep_view().domain),
{
    let mut r: Vec<LinkInfo> = Vec::new();
    let mut i: usize = 0;
    proof {
        assert(elements.deep_view().take(0) =~= Seq::empty());
        assert(r.deep_view() =~= Seq::empty());
    }
    while i < elements.len()
        invariant
            i <= elements.len(),
            r.deep_view() == links_of(
                elements.deep_view().take(i as int),
                page.deep_view().domain,
            ),
        decreases elements.len() - i,
    {
        proof {
            let next = elements.deep_view().take(i + 1);
            assert(next.drop_last() =~= elements.deep_view().take(i as int));
            assert(next.last() == elements@[i as int].deep_view());
        }
        let e = &elements[i];
        match e.attribute(0) {
            Some(href) => {
                let target = if has_web_prefix(href.as_str()) {
                    parse_url(href.as_str())
                } else {
                    None
                };
                match link_from(e, &target, page) {
                    Some(link) => {
                        let ghost before = r.deep_view();
                        let ghost added = link.deep_view();
                        r.push(link);
                        proof {
                            assert(r.deep_view() =~= before.push(added));
                        }
                    },
                    None => {},
                }
            },
            None => {},
        }
        i += 1;
    }
    proof {
        assert(elements.deep_view().take(elements.len() as int) =~= elements.deep_view());
    }
    r
}

/// The image that an `img` element stands for.
pub fn image_from(e: &Element) -> (r: Option<ImageInfo>)
    ensures
        r.deep_view() == image_of(e.deep_view()),
{
    match e.attribute(0) {
        Some(src) => Some(
            ImageInfo {
                alt: match e.attribute(1) {
                    Some(alt) => alt.clone(),
                    None => String::new(),
                },
                src: src.clone(),
                width: match e.attribute(2) {
                    Some(width) => Some(width.clone()),
                    None => None,
                },
                height: match e.attribute(3) {
                    Some(height) => Some(height.clone()),
                    None => None,
                },
            },
        ),
        None => None,
    }
}

/// The images of a page, in the order of its `img` elements.
pub fn images_from(elements: &Vec<Element>) -> (r: Vec<ImageInfo>)
    ensures
        r.deep_view() == images_of(elements.deep_view()),
{
    let mut r: Vec<ImageInfo> = Vec::new();
    let mut i: usize = 0;
    proof {
        assert(elements.deep_view().take(0) =~= Seq::empty());
        assert(r.deep_view() =~= Seq::empty());
    }
    while i < elements.len()
        invariant
            i <= elements.len(),
            r.deep_view() == images_of(elements.deep_view().take(i as int)),
        decreases elements.len() - i,
    {
        proof {
            let next = elements.deep_view().take(i + 1);
            assert(next.drop_last() =~= elements.deep_view().take(i as int));
            assert(next.last() == elements@[i as int].deep_view());
        }
        match image_from(&elements[i]) {
            Some(image) => {
                let ghost before = r.deep_view();
                let ghost added = image.deep_view();
                r.push(image);
                proof {
                    assert(r.deep_view() =~= before.push(added));
                }
            },
            None => {},
        }
        i += 1;
    }
    proof {
        assert(elements.deep_view().take(elements.len() as int) =~= elements.deep_view());
    }
    r
}

/// The meta tags of a page, given its `meta` elements.
pub fn meta_tags_from(elements: &Vec<Element>) -> (r: StringMap<String>)
    ensures
        text_values(r@) == meta_of(elements.deep_view()),
{
    let mut r: StringMap<String> = StringMap::new();
    let mut i: usize = 0;
    proof {
        assert(elements.deep_view().take(0) =~= Seq::empty());
        assert(text_values(r@) =~= Map::empty());
    }
    while i < elements.len()
        invariant
            i <= elements.len(),
            text_values(r@) == meta_of(elements.deep_view().take(i as int)),
        decreases elements.len() - i,
    {
        proof {
            let next = elements.deep_view().take(i + 1);
            assert(next.drop_last() =~= elements.deep_view().take(i as int));
            assert(next.last() == elements@[i as int].deep_view());
        }
        let e = &elements[i];
        match e.attribute(2) {
            Some(content) => {
                match e.attribute(0) {
                    Some(name) => {
                        proof {
                            lemma_text_values_insert(r@, name@, *content);
                        }
                        r.insert(name.clone(), content.clone());
                    },
                    None => {},
                }
                match e.attribute(1) {
                    Some(property) => {
                        proof {
                            lemma_text_values_insert(r@, property@, *content);
                        }
                        r.insert(property.clone(), content.clone());
                    },
                    None => {},
                }
            },
            None => {},
        }
        i += 1;
    }
    proof {
        assert(elements.deep_view().take(elements.len() as int) =~= elements.deep_view());
    }
    r
}

/// The visible text of a page, given its `body` elements.
pub fn visible_text_from(bodies: &Vec<Element>) -> (r: String)
    ensures
        r@ == visible_text_of(bodies.deep_view()),
{
    if bodies.len() > 0 {
        let text = join(&bodies[0].texts, " ");
        let chars = to_chars(text.as_str());
        let collapsed = collapse_whitespace(chars.as_slice());
        let kept = trim(collapsed.as_slice());
        from_chars(kept.as_slice())
    } else {
        String::new()
    }
}

/// What static extraction yields for one page.
#[derive(Debug)]
pub struct ExtractedContent {
    pub title: String,
    pub description: String,
    pub headings: Vec<String>,
    pub links: Vec<LinkInfo>,
    pub images: Vec<ImageInfo>,
    pub meta_tags: StringMap<String>,
    pub text_content: String,
}

/// The mathematical content of an `ExtractedContent`.
pub struct ExtractedContentView {
    pub title: Seq<char>,
    pub description: Seq<char>,
    pub headings: Seq<Seq<char>>,
    pub links: Seq<LinkInfoView>,
    pub images: Seq<ImageInfoView>,
    pub meta_tags: Map<Seq<char>, Seq<char>>,
    pub text_content: Seq<char>,
}

impl DeepView for ExtractedContent {
    type V = ExtractedContentView;

    open spec fn deep_view(&self) -> ExtractedContentView {
        ExtractedContentView {
            title: self.title@,
            description: self.description@,
            headings: self.headings.deep_view(),
            links: self.links.deep_view(),
            images: self.images.deep_view(),
            meta_tags: text_values(self.meta_tags@),
            text_content: self.text_content@,
        }
    }
}

/// The twelve queries of static extraction: the title, the description, the
/// six heading levels, the anchors, the images, the meta elements, the body.
pub open spec fn content_queries() -> Seq<QueryView> {
    seq![
        QueryView { selector: "title"@, attributes: Seq::empty() },
        QueryView { selector: "meta[name='description']"@, attributes: seq!["content"@] },
        QueryView { selector: "h1"@, attributes: Seq::empty() },
        QueryView { selector: "h2"@, attributes: Seq::empty() },
        QueryView { selector: "h3"@, attributes: Seq::empty() },
        QueryView { selector: "h4"@, attributes: Seq::empty() },
        QueryView { selector: "h5"@, attributes: Seq::empty() },
        QueryView { selector: "h6"@, attributes: Seq::empty() },
        QueryView { selector: "a[href]"@, attributes: seq!["href"@] },
        QueryView {
            selector: "img"@,
            attributes: seq!["src"@, "alt"@, "width"@, "height"@],
        },
        QueryView { selector: "meta"@, attributes: seq!["name"@, "property"@, "content"@] },
        QueryView { selector: "body"@, attributes: Seq::empty() },
    ]
}

/// Every one of the twelve queries was answered.
pub open spec fn complete(found: Seq<Option<Seq<ElementView>>>) -> bool {
    found.len() == 12 && forall|i: int| 0 <= i < 12 ==> (#[trigger] found[i]) is Some
}

/// The content that the answers to the twelve queries stand for. Headings
/// come level by level, first to sixth, and in element order within a level.
pub open spec fn content_of(
    found: Seq<Option<Seq<ElementView>>>,
    page_domain: Option<Seq<char>>,
) -> ExtractedContentView {
    ExtractedContentView {
        title: title_of(found[0]->0),
        description: description_of(found[1]->0),
        headings: headings_at(1, found[2]->0) + headings_at(2, found[3]->0) + headings_at(
            3,
            found[4]->0,
        ) + headings_at(4, found[5]->0) + headings_at(5, found[6]->0) + headings_at(
            6,
            found[7]->0,
        ),
        links: links_of(found[8]->0, page_domain),
        images: images_of(found[9]->0),
        meta_tags: meta_of(found[10]->0),
        text_content: visible_text_of(found[11]->0),
    }
}

/// A page without a `title` element is titled with the default, and a page
/// without a description `meta` element is described with the default.
pub proof fn lemma_absent_fields_default(
    found: Seq<Option<Seq<ElementView>>>,
    page_domain: Option<Seq<char>>,
)
    requires
        complete(found),
    ensures
        found[0]->0.len() == 0 ==> content_of(found, page_domain).title == "No title found"@,
        found[1]->0.len() == 0 ==> content_of(found, page_domain).description
            == "No description found"@,
{
}

/// The queries of static extraction.
pub fn build_content_queries() -> (r: Vec<Query>)
    ensures
        r.deep_view() == content_queries(),
{
    let none: [&str; 0] = [];
    let mut r: Vec<Query> = Vec::new();
    r.push(Query::new("title", &none));
    r.push(Query::new("meta[name='description']", &["content"]));
    r.push(Query::new("h1", &none));
    r.push(Query::new("h2", &none));
    r.push(Query::new("h3", &none));
    r.push(Query::new("h4", &none));
    r.push(Query::new("h5", &none));
    r.push(Query::new("h6", &none));
    r.push(Query::new("a[href]", &["href"]));
    r.push(Query::new("img", &["src", "alt", "width", "height"]));
    r.push(Query::new("meta", &["name", "property", "content"]));
    r.push(Query::new("body", &none));
    proof {
        let got = r.deep_view();
        let want = content_queries();
        assert(got.len() == want.len());
        assert forall|i: int| 0 <= i < 12 implies got[i] == want[i] by {
            assert(got[i].attributes =~= want[i].attributes);
        }
        assert(got =~= want);
    }
    r
}

/// Assembles the content of a page from the answers to the twelve queries.
/// Fails only where an answer is missing.
pub fn assemble_content(found: &Vec<Option<Vec<Element>>>, page: &PageUrl) -> (r: Result<
    ExtractedContent,
    AnalysisError,
>)
    ensures
        match r {
            Ok(content) => complete(found.deep_view()) && content.deep_view() == content_of(
                found.deep_view(),
                page.deep_view().domain,
            ),
            Err(e) => e is InternalError && !complete(found.deep_view()),
        },
{
    if found.len() != 12 {
        return Err(AnalysisError::InternalError);
    }
    let mut i: usize = 0;
    while i < 12
        invariant
            i <= 12,
            found@.len() == 12,
            forall|j: int| 0 <= j < i ==> (#[trigger] found@[j]) is Some,
        decreases 12 - i,
    {
        if found[i].is_none() {
            proof {
                assert(found.deep_view()[i as int] is None);
            }
            return Err(AnalysisError::InternalError);
        }
        i += 1;
    }
    proof {
        assert forall|j: int| 0 <= j < 12 implies (#[trigger] found.deep_view()[j]) is Some by {
            assert(found@[j] is Some);
        }
    }
    let mut headings: Vec<String> = Vec::new();
    proof {
        assert(headings.deep_view() =~= Seq::empty());
    }
    let mut level: u8 = 1;
    let ghost view = found.deep_view();
    while level <= 6
        invariant
            1 <= level <= 7,
            found@.len() == 12,
            view == found.deep_view(),
            forall|j: int| 0 <= j < 12 ==> (#[trigger] found@[j]) is Some,
            headings.deep_view() == heading_levels(view, level - 1),
        decreases 7 - level,
    {
        let at = found[(level + 1) as usize].as_ref().unwrap();
        proof {
            assert(view[level + 1]->0 == at.deep_view());
        }
        push_headings(&mut headings, level, at);
        level += 1;
    }
    let content = ExtractedContent {
        title: title_from(found[0].as_ref().unwrap()),
        description: description_from(found[1].as_ref().unwrap()),
        headings,
        links: links_from(found[8].as_ref().unwrap(), page),
        images: images_from(found[9].as_ref().unwrap()),
        meta_tags: meta_tags_from(found[10].as_ref().unwrap()),
        text_content: visible_text_from(found[11].as_ref().unwrap()),
    };
    proof {
        assert(view[0]->0 == found@[0]->0.deep_view());
        assert(view[1]->0 == found@[1]->0.deep_view());
        assert(view[8]->0 == found@[8]->0.deep_view());
        assert(view[9]->0 == found@[9]->0.deep_view());
        assert(view[10]->0 == found@[10]->0.deep_view());
        assert(view[11]->0 == found@[11]->0.deep_view());
        reveal_with_fuel(heading_levels, 7);
        assert(heading_levels(view, 6) =~= content_of(view, page.deep_view().domain).headings);
    }
    Ok(content)
}

/// The headings of the first `levels` levels, level by level.
pub open spec fn heading_levels(found: Seq<Option<Seq<ElementView>>>, levels: int) -> Seq<
    Seq<char>,
>
    decreases levels,
{
    if levels <= 0 {
        Seq::empty()
    } else {
        heading_levels(found, levels - 1) + headings_at(levels, found[levels + 1]->0)
    }
}

/// Extracts the content of the page served as `html` from `page`. Fails only
/// where the document engine refuses one of the library's selectors.
pub fn extract_content(html: &str, page: &PageUrl) -> (r: Result<ExtractedContent, AnalysisError>)
    ensures
        match r {
            Ok(content) => complete(answers(html@, content_queries())) && content.deep_view()
                == content_of(answers(html@, content_queries()), page.deep_view().domain),
            Err(e) => e is InternalError && !complete(answers(html@, content_queries())),
        },
{
    let queries = build_content_queries();
    let found = ask(html, &queries);
    assemble_content(&found, page)
}

} // verus!
