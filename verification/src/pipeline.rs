//! The analysis of one page, as a sequence of decisions. The library does no
//! I/O: it says what to fetch, judges what came back, analyses the markup,
//! says whether to render, and merges everything into one result or one
//! error. The caller performs each action and hands back its outcome.

use vstd::prelude::*;
use crate::analytics::{
    is_social_media_link, mentions_any, metrics_of, text_metrics, word_pattern, Lexicon,
    TextMetrics, TextMetricsView,
};
use crate::dictionary::{lemma_text_values_insert, text_values, StringMap};
use crate::document::answers;
use crate::error::AnalysisError;
use crate::extract::{
    complete, content_of, content_queries, extract_content, ExtractedContent,
    ExtractedContentView, LinkInfo, LinkInfoView,
};
use crate::page_url::{parse_url, parsed_url, web_scheme, PageUrl, PageUrlView};
use crate::patterns::{pattern_accepted, pattern_matches};
use crate::resources::{
    analyze_network_resources, page_resources, resource_queries, resources_complete,
    NetworkResource, NetworkResourceView,
};
use crate::security::{
    default_expected_headers, expected_headers, report_of, security_report, SecurityReport,
    SecurityReportView,
};
use crate::text::lowercase;

verus! {

/// The options of an analysis.
#[derive(Clone, Debug)]
pub struct AnalysisConfig {
    pub timeout_seconds: u64,
    pub user_agent: String,
    pub enable_dynamic_render: bool,
    pub reading_speed_wpm: u32,
    pub expected_security_headers: Vec<String>,
}

impl Default for AnalysisConfig {
    /// Thirty seconds, the library's own user agent, no rendering, two
    /// hundred words a minute, the five expected security headers.
    fn default() -> (r: AnalysisConfig)
        ensures
            r.timeout_seconds == 30,
            r.user_agent@ == "WebScraper/1.0"@,
            !r.enable_dynamic_render,
            r.reading_speed_wpm == 200,
            r.expected_security_headers.deep_view() == expected_headers(),
    {
        AnalysisConfig {
            timeout_seconds: 30,
            user_agent: "WebScraper/1.0".to_owned(),
            enable_dynamic_render: false,
            reading_speed_wpm: 200,
            expected_security_headers: default_expected_headers(),
        }
    }
}

/// `url` is an absolute URL with the scheme `http` or `https`.
pub open spec fn valid_target(url: Seq<char>) -> bool {
    parsed_url(url) is Some && web_scheme(parsed_url(url)->0.scheme)
}

/// A validated target: the URL as the caller wrote it, and what it parses to.
#[derive(Debug)]
pub struct AnalysisRequest {
    url: String,
    page: PageUrl,
}

impl AnalysisRequest {
    #[verifier::type_invariant]
    spec fn well_formed(&self) -> bool {
        parsed_url(self.url@) == Some(self.page.deep_view()) && web_scheme(self.page.scheme@)
    }

    /// The URL as the caller wrote it.
    pub closed spec fn target(&self) -> Seq<char> {
        self.url@
    }

    /// What the URL parses to.
    pub closed spec fn parsed(&self) -> PageUrlView {
        self.page.deep_view()
    }

    /// Validates `url`. It is refused where it does not parse as an absolute
    /// URL or where its scheme is neither `http` nor `https`.
    pub fn new(url: &str) -> (r: Result<AnalysisRequest, AnalysisError>)
        ensures
            match r {
                Ok(request) => valid_target(url@) && request.target() == url@ && Some(
                    request.parsed(),
                ) == parsed_url(url@),
                Err(e) => e is InvalidUrl && !valid_target(url@),
            },
    {
        match parse_url(url) {
            Some(page) => {
                if page.is_web() {
                    Ok(AnalysisRequest { url: url.to_owned(), page })
                } else {
                    Err(AnalysisError::InvalidUrl)
                }
            },
            None => Err(AnalysisError::InvalidUrl),
        }
    }

    /// The URL as the caller wrote it.
    pub fn url(&self) -> (r: &String)
        ensures
            r@ == self.target(),
            valid_target(r@),
    {
        proof {
            use_type_invariant(self);
        }
        &self.url
    }

    /// What the URL parses to.
    pub fn page(&self) -> (r: &PageUrl)
        ensures
            r.deep_view() == self.parsed(),
            Some(r.deep_view()) == parsed_url(self.target()),
            web_scheme(r.scheme@),
    {
        proof {
            use_type_invariant(self);
        }
        &self.page
    }
}

/// What the caller is to fetch: one GET, without retries.
#[derive(Clone, Debug)]
pub struct FetchRequest {
    pub url: String,
    pub timeout_seconds: u64,
    pub user_agent: String,
}

/// What a fetch came to.
#[derive(Clone, Debug)]
pub enum FetchOutcome {
    /// The server answered. `headers` lists name and value of each header
    /// line in the order received.
    Response { status: u16, headers: Vec<(String, String)>, body: String, elapsed_ms: u64 },
    /// No answer: connection, DNS or timeout.
    Failed { reason: String },
}

/// A page as fetched. The headers are keyed by lowercase name.
#[derive(Debug)]
pub struct RawPage {
    pub status: u16,
    pub headers: StringMap<String>,
    pub body: String,
    pub elapsed_ms: u64,
}

/// The mathematical content of a `RawPage`.
pub struct RawPageView {
    pub status: u16,
    pub headers: Map<Seq<char>, Seq<char>>,
    pub body: Seq<char>,
    pub elapsed_ms: u64,
}

impl DeepView for RawPage {
    type V = RawPageView;

    open spec fn deep_view(&self) -> RawPageView {
        RawPageView {
            status: self.status,
            headers: text_values(self.headers@),
            body: self.body@,
            elapsed_ms: self.elapsed_ms,
        }
    }
}

/// The header map of a response: each value under the lowercase form of its
/// name, a later line replacing an earlier one of the same name.
pub open spec fn headers_of(lines: Seq<(Seq<char>, Seq<char>)>) -> Map<Seq<char>, Seq<char>>
    decreases lines.len(),
{
    if lines.len() == 0 {
        Map::empty()
    } else {
        headers_of(lines.drop_last()).insert(lowercase(lines.last().0), lines.last().1)
    }
}

/// A status in 200..=299.
pub open spec fn success_status(status: u16) -> bool {
    200 <= status <= 299
}

/// The header map of a response.
pub fn collect_headers(lines: &Vec<(String, String)>) -> (r: StringMap<String>)
    ensures
        text_values(r@) == headers_of(lines.deep_view()),
{
    let mut r: StringMap<String> = StringMap::new();
    let mut i: usize = 0;
    proof {
        assert(lines.deep_view().take(0) =~= Seq::empty());
        assert(text_values(r@) =~= Map::empty());
    }
    while i < lines.len()
        invariant
            i <= lines.len(),
            text_values(r@) == headers_of(lines.deep_view().take(i as int)),
        decreases lines.len() - i,
    {
        proof {
            let next = lines.deep_view().take(i + 1);
            assert(next.drop_last() =~= lines.deep_view().take(i as int));
            assert(next.last() == lines@[i as int].deep_view());
        }
        let name = lines[i].0.as_str().to_lowercase();
        let value = lines[i].1.clone();
        proof {
            lemma_text_values_insert(r@, name@, value);
        }
        r.insert(name, value);
        i += 1;
    }
    proof {
        assert(lines.deep_view().take(lines.len() as int) =~= lines.deep_view());
    }
    r
}

/// Judges what a fetch came to: a failure is a network error, a status
/// outside 200..=299 is a status error, anything else is the page.
pub fn accept_response(outcome: FetchOutcome) -> (r: Result<RawPage, AnalysisError>)
    ensures
        match outcome {
            FetchOutcome::Failed { reason } => r is Err && r->Err_0.deep_view()
                == (crate::error::AnalysisErrorView::NetworkError { reason: reason@ }),
            FetchOutcome::Response { status, headers, body, elapsed_ms } => if success_status(
                status,
            ) {
                r is Ok && r->Ok_0.deep_view() == (RawPageView {
                    status,
                    headers: headers_of(headers.deep_view()),
                    body: body@,
                    elapsed_ms,
                })
            } else {
                r is Err && r->Err_0.deep_view()
                    == (crate::error::AnalysisErrorView::HttpStatusError { status })
            },
        },
{
    match outcome {
        FetchOutcome::Failed { reason } => Err(AnalysisError::NetworkError { reason }),
        FetchOutcome::Response { status, headers, body, elapsed_ms } => {
            if 200 <= status && status <= 299 {
                let map = collect_headers(&headers);
                Ok(RawPage { status, headers: map, body, elapsed_ms })
            } else {
                Err(AnalysisError::HttpStatusError { status })
            }
        },
    }
}

/// The links among `links` whose target mentions one of `domains`, in order.
pub open spec fn social_of(links: Seq<LinkInfoView>, domains: Seq<Seq<char>>) -> Seq<LinkInfoView>
    decreases links.len(),
{
    if links.len() == 0 {
        Seq::empty()
    } else {
        let before = social_of(links.drop_last(), domains);
        if mentions_any(links.last().href, domains) {
            before.push(links.last())
        } else {
            before
        }
    }
}

/// The links among `links` that lead to a social platform.
pub fn social_links(links: &Vec<LinkInfo>, domains: &Vec<String>) -> (r: Vec<LinkInfo>)
    ensures
        r.deep_view() == social_of(links.deep_view(), domains.deep_view()),
{
    let mut r: Vec<LinkInfo> = Vec::new();
    let mut i: usize = 0;
    proof {
        assert(links.deep_view().take(0) =~= Seq::empty());
        assert(r.deep_view() =~= Seq::empty());
    }
    while i < links.len()
        invariant
            i <= links.len(),
            r.deep_view() == social_of(links.deep_view().take(i as int), domains.deep_view()),
        decreases links.len() - i,
    {
        proof {
            let next = links.deep_view().take(i + 1);
            assert(next.drop_last() =~= links.deep_view().take(i as int));
            assert(next.last() == links@[i as int].deep_view());
        }
        if is_social_media_link(links[i].href.as_str(), domains) {
            let ghost before = r.deep_view();
            let copy = LinkInfo {
                text: links[i].text.clone(),
                href: links[i].href.clone(),
                is_external: links[i].is_external,
            };
            r.push(copy);
            proof {
                assert(r.deep_view() =~= before.push(links@[i as int].deep_view()));
            }
        }
        i += 1;
    }
    proof {
        assert(links.deep_view().take(links.len() as int) =~= links.deep_view());
    }
    r
}

/// What the markup of a page yields without a browser.
#[derive(Debug)]
pub struct StaticAnalysis {
    pub content: ExtractedContent,
    pub metrics: TextMetrics,
    pub social_media_links: Vec<LinkInfo>,
}

/// The mathematical content of a `StaticAnalysis`.
pub struct StaticAnalysisView {
    pub content: ExtractedContentView,
    pub metrics: TextMetricsView,
    pub social_media_links: Seq<LinkInfoView>,
}

impl DeepView for StaticAnalysis {
    type V = StaticAnalysisView;

    open spec fn deep_view(&self) -> StaticAnalysisView {
        StaticAnalysisView {
            content: self.content.deep_view(),
            metrics: self.metrics.deep_view(),
            social_media_links: self.social_media_links.deep_view(),
        }
    }
}

/// The static analysis of the markup `html` served from `page`, where the
/// document engine answers every query.
pub open spec fn static_analysis_of(
    html: Seq<char>,
    page: PageUrlView,
    reading_speed_wpm: u32,
    lexicon: &Lexicon,
) -> StaticAnalysisView {
    let content = content_of(answers(html, content_queries()), page.domain);
    StaticAnalysisView {
        content,
        metrics: metrics_of(
            content.text_content,
            html,
            pattern_matches(word_pattern(), content.text_content),
            reading_speed_wpm,
            lexicon,
        ),
        social_media_links: social_of(content.links, lexicon.social_domains.deep_view()),
    }
}

/// The engines accept what static analysis puts to them: the document engine
/// answers each of the twelve queries on `html`, and the pattern engine
/// accepts the word pattern.
pub open spec fn analysable(html: Seq<char>) -> bool {
    complete(answers(html, content_queries())) && pattern_accepted(word_pattern())
}

/// Analyses the markup of a fetched page. Fails where, and only where, an
/// engine refuses one of the library's selectors or its word pattern.
pub fn analyze_static(
    html: &str,
    page: &PageUrl,
    reading_speed_wpm: u32,
    lexicon: &Lexicon,
) -> (r: Result<StaticAnalysis, AnalysisError>)
    ensures
        match r {
            Ok(analysis) => analysable(html@) && analysis.deep_view() == static_analysis_of(
                html@,
                page.deep_view(),
                reading_speed_wpm,
                lexicon,
            ),
            Err(e) => e is InternalError && !analysable(html@),
        },
{
    let content = match extract_content(html, page) {
        Ok(content) => content,
        Err(e) => {
            return Err(e);
        },
    };
    let metrics = match text_metrics(
        content.text_content.as_str(),
        html,
        reading_speed_wpm,
        lexicon,
    ) {
        Ok(metrics) => metrics,
        Err(e) => {
            return Err(e);
        },
    };
    let social_media_links = social_links(&content.links, &lexicon.social_domains);
    Ok(StaticAnalysis { content, metrics, social_media_links })
}

/// One captured console entry.
#[derive(Clone, Debug)]
pub struct ConsoleLog {
    pub level: String,
    pub message: String,
}

impl DeepView for ConsoleLog {
    type V = (Seq<char>, Seq<char>);

    open spec fn deep_view(&self) -> (Seq<char>, Seq<char>) {
        (self.level@, self.message@)
    }
}

/// What observing a page yields beyond its markup as served: the markup as
/// rendered, a screenshot in base64 where one was taken, the resources that
/// were loaded, and the console output.
#[derive(Clone, Debug)]
pub struct RenderArtifacts {
    pub rendered_html: Option<String>,
    pub screenshot: Option<String>,
    pub network_resources: Vec<NetworkResource>,
    pub console_logs: Vec<ConsoleLog>,
}

/// The mathematical content of a `RenderArtifacts`.
pub struct RenderArtifactsView {
    pub rendered_html: Option<Seq<char>>,
    pub screenshot: Option<Seq<char>>,
    pub network_resources: Seq<NetworkResourceView>,
    pub console_logs: Seq<(Seq<char>, Seq<char>)>,
}

impl DeepView for RenderArtifacts {
    type V = RenderArtifactsView;

    open spec fn deep_view(&self) -> RenderArtifactsView {
        RenderArtifactsView {
            rendered_html: self.rendered_html.deep_view(),
            screenshot: self.screenshot.deep_view(),
            network_resources: self.network_resources.deep_view(),
            console_logs: self.console_logs.deep_view(),
        }
    }
}

/// What a rendering came to.
#[derive(Clone, Debug)]
pub enum RenderOutcome {
    /// The browser rendered the page.
    Rendered(RenderArtifacts),
    /// The browser could not be launched, could not navigate, or a script
    /// failed.
    Failed { reason: String },
}

/// The artifacts that stand in where no browser runs: the markup as served,
/// no screenshot, the resources that the markup refers to, no console output.
pub open spec fn static_artifacts_of(html: Seq<char>, page: PageUrlView) -> RenderArtifactsView {
    RenderArtifactsView {
        rendered_html: Some(html),
        screenshot: None,
        network_resources: page_resources(answers(html, resource_queries()), page.href),
        console_logs: Seq::empty(),
    }
}

/// The artifacts that stand in where no browser runs. Fails only where the
/// document engine refuses one of the library's selectors.
pub fn static_artifacts(html: &str, page: &PageUrl) -> (r: Result<RenderArtifacts, AnalysisError>)
    ensures
        match r {
            Ok(artifacts) => resources_complete(answers(html@, resource_queries()))
                && artifacts.deep_view() == static_artifacts_of(html@, page.deep_view()),
            Err(e) => e is InternalError && !resources_complete(
                answers(html@, resource_queries()),
            ),
        },
{
    match analyze_network_resources(html, page) {
        Ok(network_resources) => {
            let console_logs: Vec<ConsoleLog> = Vec::new();
            proof {
                assert(console_logs.deep_view() =~= Seq::empty());
            }
            Ok(
                RenderArtifacts {
                    rendered_html: Some(html.to_owned()),
                    screenshot: None,
                    network_resources,
                    console_logs,
                },
            )
        },
        Err(e) => Err(e),
    }
}

/// The sole success output of an analysis.
#[derive(Debug)]
pub struct AnalysisResult {
    pub url: String,
    pub response_time_ms: u64,
    pub response_headers: StringMap<String>,
    pub content: ExtractedContent,
    pub metrics: TextMetrics,
    pub social_media_links: Vec<LinkInfo>,
    pub artifacts: RenderArtifacts,
    pub security_report: SecurityReport,
}

/// The mathematical content of an `AnalysisResult`.
pub struct AnalysisResultView {
    pub url: Seq<char>,
    pub response_time_ms: u64,
    pub response_headers: Map<Seq<char>, Seq<char>>,
    pub content: ExtractedContentView,
    pub metrics: TextMetricsView,
    pub social_media_links: Seq<LinkInfoView>,
    pub artifacts: RenderArtifactsView,
    pub security_report: SecurityReportView,
}

impl DeepView for AnalysisResult {
    type V = AnalysisResultView;

    open spec fn deep_view(&self) -> AnalysisResultView {
        AnalysisResultView {
            url: self.url@,
            response_time_ms: self.response_time_ms,
            response_headers: text_values(self.response_headers@),
            content: self.content.deep_view(),
            metrics: self.metrics.deep_view(),
            social_media_links: self.social_media_links.deep_view(),
            artifacts: self.artifacts.deep_view(),
            security_report: self.security_report.deep_view(),
        }
    }
}

/// The result that the parts of an analysis merge into. The security report
/// is drawn up here, from the URL's scheme, the response headers, the markup
/// as served and the artifacts.
pub open spec fn merged(
    url: Seq<char>,
    scheme: Seq<char>,
    page: RawPageView,
    analysis: StaticAnalysisView,
    artifacts: RenderArtifactsView,
    expected: Seq<Seq<char>>,
) -> AnalysisResultView {
    AnalysisResultView {
        url,
        response_time_ms: page.elapsed_ms,
        response_headers: page.headers,
        content: analysis.content,
        metrics: analysis.metrics,
        social_media_links: analysis.social_media_links,
        artifacts,
        security_report: report_of(
            scheme == "https"@,
            page.headers,
            expected,
            page.body,
            artifacts.rendered_html,
            artifacts.network_resources,
        ),
    }
}

/// Merges the parts of an analysis into its result. Nothing is validated
/// here and nothing can fail.
pub fn aggregate(
    request: AnalysisRequest,
    page: RawPage,
    analysis: StaticAnalysis,
    artifacts: RenderArtifacts,
    config: &AnalysisConfig,
) -> (r: AnalysisResult)
    ensures
        r.deep_view() == merged(
            request.target(),
            request.parsed().scheme,
            page.deep_view(),
            analysis.deep_view(),
            artifacts.deep_view(),
            config.expected_security_headers.deep_view(),
        ),
{
    let security_report = security_report(
        request.page().is_https(),
        &page.headers,
        &config.expected_security_headers,
        page.body.as_str(),
        &artifacts.rendered_html,
        &artifacts.network_resources,
    );
    AnalysisResult {
        url: request.url().clone(),
        response_time_ms: page.elapsed_ms,
        response_headers: page.headers,
        content: analysis.content,
        metrics: analysis.metrics,
        social_media_links: analysis.social_media_links,
        artifacts,
        security_report,
    }
}

/// An analysis that waits for its page to be fetched.
#[derive(Debug)]
pub struct PendingFetch {
    pub request: AnalysisRequest,
}

/// An analysis that waits for its page to be rendered.
#[derive(Debug)]
pub struct PendingRender {
    pub request: AnalysisRequest,
    pub page: RawPage,
    pub analysis: StaticAnalysis,
}

/// What the caller is to do next.
#[derive(Debug)]
pub enum Step {
    /// Fetch, then call `on_fetched` with the outcome.
    Fetch(FetchRequest, PendingFetch),
    /// Render the page at the given URL, then call `on_rendered` with the
    /// outcome.
    Render(String, PendingRender),
    /// Return the result.
    Done(AnalysisResult),
    /// Return the error.
    Failed(AnalysisError),
}

/// Begins the analysis of `url`. An invalid target fails at once, before
/// anything is fetched; a valid one asks for exactly one fetch of the URL as
/// written, with the configured timeout and user agent.
pub fn start(url: &str, config: &AnalysisConfig) -> (r: Step)
    ensures
        match r {
            Step::Fetch(fetch, pending) => valid_target(url@) && fetch.url@ == url@
                && fetch.timeout_seconds == config.timeout_seconds && fetch.user_agent@
                == config.user_agent@ && pending.request.target() == url@ && Some(
                pending.request.parsed(),
            ) == parsed_url(url@),
            Step::Failed(e) => e is InvalidUrl && !valid_target(url@),
            _ => false,
        },
{
    match AnalysisRequest::new(url) {
        Ok(request) => Step::Fetch(
            FetchRequest {
                url: url.to_owned(),
                timeout_seconds: config.timeout_seconds,
                user_agent: config.user_agent.clone(),
            },
            PendingFetch { request },
        ),
        Err(e) => Step::Failed(e),
    }
}

/// Continues an analysis with what its fetch came to. A failed fetch and a
/// status outside 200..=299 end it; otherwise the markup is analysed, and
/// the analysis either asks for a rendering or, where rendering is off,
/// ends with the result built on the stand-in artifacts. After a successful
/// fetch it fails where, and only where, an engine refuses a selector or
/// the word pattern of the library.
pub fn on_fetched(
    pending: PendingFetch,
    outcome: FetchOutcome,
    config: &AnalysisConfig,
    lexicon: &Lexicon,
) -> (r: Step)
    ensures
        match outcome {
            FetchOutcome::Failed { reason } => r matches Step::Failed(e) && e.deep_view()
                == (crate::error::AnalysisErrorView::NetworkError { reason: reason@ }),
            FetchOutcome::Response { status, headers, body, elapsed_ms } => if !success_status(
                status,
            ) {
                r matches Step::Failed(e) && e.deep_view()
                    == (crate::error::AnalysisErrorView::HttpStatusError { status })
            } else {
                let page = RawPageView {
                    status,
                    headers: headers_of(headers.deep_view()),
                    body: body@,
                    elapsed_ms,
                };
                let analysis = static_analysis_of(
                    body@,
                    pending.request.parsed(),
                    config.reading_speed_wpm,
                    lexicon,
                );
                match r {
                    Step::Render(url, waiting) => config.enable_dynamic_render && analysable(
                        body@,
                    ) && url@ == pending.request.target() && waiting.request == pending.request
                        && waiting.page.deep_view() == page && waiting.analysis.deep_view()
                        == analysis,
                    Step::Done(result) => !config.enable_dynamic_render && analysable(body@)
                        && resources_complete(answers(body@, resource_queries()))
                        && result.deep_view() == merged(
                        pending.request.target(),
                        pending.request.parsed().scheme,
                        page,
                        analysis,
                        static_artifacts_of(body@, pending.request.parsed()),
                        config.expected_security_headers.deep_view(),
                    ),
                    Step::Failed(e) => e is InternalError && (!analysable(body@) || (
                    !config.enable_dynamic_render && !resources_complete(
                        answers(body@, resource_queries()),
                    ))),
                    Step::Fetch(_, _) => false,
                }
            },
        },
{
    let page = match accept_response(outcome) {
        Ok(page) => page,
        Err(e) => {
            return Step::Failed(e);
        },
    };
    let request = pending.request;
    let analysis = match analyze_static(
        page.body.as_str(),
        request.page(),
        config.reading_speed_wpm,
        lexicon,
    ) {
        Ok(analysis) => analysis,
        Err(e) => {
            return Step::Failed(e);
        },
    };
    if config.enable_dynamic_render {
        let url = request.url().clone();
        Step::Render(url, PendingRender { request, page, analysis })
    } else {
        match static_artifacts(page.body.as_str(), request.page()) {
            Ok(artifacts) => Step::Done(aggregate(request, page, analysis, artifacts, config)),
            Err(e) => Step::Failed(e),
        }
    }
}

/// Ends an analysis with what its rendering came to. A failed rendering
/// fails the whole analysis: nothing of the static analysis is returned.
pub fn on_rendered(pending: PendingRender, outcome: RenderOutcome, config: &AnalysisConfig) -> (r:
    Step)
    ensures
        match outcome {
            RenderOutcome::Failed { reason } => r matches Step::Failed(e) && e.deep_view()
                == (crate::error::AnalysisErrorView::RenderError { reason: reason@ }),
            RenderOutcome::Rendered(artifacts) => r matches Step::Done(result)
                && result.deep_view() == merged(
                pending.request.target(),
                pending.request.parsed().scheme,
                pending.page.deep_view(),
                pending.analysis.deep_view(),
                artifacts.deep_view(),
                config.expected_security_headers.deep_view(),
            ),
        },
{
    match outcome {
        RenderOutcome::Failed { reason } => Step::Failed(AnalysisError::RenderError { reason }),
        RenderOutcome::Rendered(artifacts) => Step::Done(
            aggregate(pending.request, pending.page, pending.analysis, artifacts, config),
        ),
    }
}

} // verus!
