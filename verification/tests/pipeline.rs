use web_scraper::analytics::Lexicon;
use web_scraper::error::AnalysisError;
use web_scraper::pipeline::{
    accept_response, analyze_static, collect_headers, on_fetched, on_rendered, social_links,
    start, static_artifacts, AnalysisConfig, AnalysisRequest, ConsoleLog, FetchOutcome,
    PendingFetch, PendingRender, RenderArtifacts, RenderOutcome, Step,
};
use web_scraper::extract::LinkInfo;
use web_scraper::resources::{resource_from, ResourceKind};

const FIXTURE: &str = "<html><head><title>Fixture</title>\
    <meta name=\"description\" content=\"A test page\"></head>\
    <body><h1>Welcome</h1><p>The cat sat on the mat.</p>\
    <a href=\"/local\">Local</a>\
    <a href=\"https://twitter.com/someone\">Away</a>\
    <img src=\"/logo.png\" alt=\"Logo\">\
    </body></html>";

fn pending(url: &str) -> PendingFetch {
    match start(url, &AnalysisConfig::default()) {
        Step::Fetch(_, pending) => pending,
        other => panic!("fetch expected, got {:?}", other),
    }
}

fn response(status: u16, body: &str) -> FetchOutcome {
    FetchOutcome::Response {
        status,
        headers: vec![
            ("Content-Type".to_string(), "text/html".to_string()),
            ("x-frame-options".to_string(), "DENY".to_string()),
            ("X-Frame-Options".to_string(), "SAMEORIGIN".to_string()),
        ],
        body: body.to_string(),
        elapsed_ms: 42,
    }
}

fn rendering() -> AnalysisConfig {
    let mut config = AnalysisConfig::default();
    config.enable_dynamic_render = true;
    config
}

fn waiting_for_render() -> PendingRender {
    match on_fetched(
        pending("https://site.com/"),
        response(200, FIXTURE),
        &rendering(),
        &Lexicon::standard(),
    ) {
        Step::Render(url, waiting) => {
            assert_eq!(url, "https://site.com/");
            waiting
        }
        other => panic!("render expected, got {:?}", other),
    }
}

#[test]
fn invalid_url_fails_before_any_fetch() {
    for url in ["", "not a url", "site.com", "/relative/path", "http://", "://x", "https://exa mple.com"] {
        match start(url, &AnalysisConfig::default()) {
            Step::Failed(e) => assert_eq!(e, AnalysisError::InvalidUrl),
            other => panic!("{} was not refused: {:?}", url, other),
        }
    }
}

#[test]
fn unsupported_scheme_is_invalid() {
    for url in ["ftp://site.com/file", "mailto:a@site.com", "file:///etc/hosts", "data:text/plain,x"] {
        assert!(matches!(AnalysisRequest::new(url), Err(AnalysisError::InvalidUrl)));
    }
}

#[test]
fn valid_url_asks_for_one_fetch() {
    let mut config = AnalysisConfig::default();
    config.timeout_seconds = 5;
    config.user_agent = "probe/2".to_string();
    match start("HTTP://Site.com:80/a?b#c", &config) {
        Step::Fetch(fetch, pending) => {
            assert_eq!(fetch.url, "HTTP://Site.com:80/a?b#c");
            assert_eq!(fetch.timeout_seconds, 5);
            assert_eq!(fetch.user_agent, "probe/2");
            assert_eq!(pending.request.url(), "HTTP://Site.com:80/a?b#c");
            assert_eq!(pending.request.page().href, "http://site.com/a?b#c");
            assert_eq!(pending.request.page().scheme, "http");
            assert_eq!(pending.request.page().domain, Some("site.com".to_string()));
            assert!(!pending.request.page().is_https());
        }
        other => panic!("fetch expected, got {:?}", other),
    }
}

#[test]
fn default_config_matches_the_documented_defaults() {
    let config = AnalysisConfig::default();
    assert_eq!(config.timeout_seconds, 30);
    assert_eq!(config.user_agent, "WebScraper/1.0");
    assert!(!config.enable_dynamic_render);
    assert_eq!(config.reading_speed_wpm, 200);
    assert_eq!(config.expected_security_headers.len(), 5);
}

#[test]
fn failed_fetch_is_a_network_error() {
    let outcome = FetchOutcome::Failed { reason: "timed out".to_string() };
    match on_fetched(pending("https://site.com/"), outcome, &AnalysisConfig::default(), &Lexicon::standard()) {
        Step::Failed(e) => assert_eq!(e, AnalysisError::NetworkError { reason: "timed out".to_string() }),
        other => panic!("failure expected, got {:?}", other),
    }
}

#[test]
fn status_outside_2xx_is_a_status_error() {
    for status in [199u16, 300, 301, 404, 500, 0, 65535] {
        match accept_response(response(status, "<html></html>")) {
            Err(e) => assert_eq!(e, AnalysisError::HttpStatusError { status }),
            Ok(_) => panic!("status {} was accepted", status),
        }
    }
    for status in [200u16, 204, 299] {
        assert!(accept_response(response(status, "")).is_ok());
    }
    match on_fetched(pending("https://site.com/"), response(404, FIXTURE), &AnalysisConfig::default(), &Lexicon::standard()) {
        Step::Failed(e) => assert_eq!(e, AnalysisError::HttpStatusError { status: 404 }),
        other => panic!("failure expected, got {:?}", other),
    }
}

#[test]
fn headers_are_keyed_in_lowercase_and_last_one_wins() {
    let page = match accept_response(response(200, "body")) {
        Ok(page) => page,
        Err(e) => panic!("page expected: {:?}", e),
    };
    assert_eq!(page.status, 200);
    assert_eq!(page.body, "body");
    assert_eq!(page.elapsed_ms, 42);
    assert_eq!(page.headers.entries().len(), 2);
    assert_eq!(page.headers.get(&"content-type".to_string()), Some(&"text/html".to_string()));
    assert_eq!(page.headers.get(&"x-frame-options".to_string()), Some(&"SAMEORIGIN".to_string()));
    assert!(collect_headers(&Vec::new()).entries().is_empty());
}

#[test]
fn static_analysis_ends_with_the_full_result() {
    let step = on_fetched(
        pending("https://site.com/"),
        response(200, FIXTURE),
        &AnalysisConfig::default(),
        &Lexicon::standard(),
    );
    let result = match step {
        Step::Done(result) => result,
        other => panic!("result expected, got {:?}", other),
    };
    assert_eq!(result.url, "https://site.com/");
    assert_eq!(result.response_time_ms, 42);
    assert_eq!(result.content.title, "Fixture");
    assert_eq!(result.content.description, "A test page");
    assert_eq!(result.content.headings, vec!["H1: Welcome".to_string()]);
    assert_eq!(result.content.links.len(), 2);
    assert_eq!(result.content.links.iter().filter(|l| l.is_external).count(), 1);
    assert_eq!(result.content.images.len(), 1);
    assert_eq!(result.content.text_content, "Welcome The cat sat on the mat. Local Away");
    assert_eq!(result.metrics.word_count, 9);
    assert_eq!(result.metrics.page_size_bytes, FIXTURE.len());
    // Substring matching: "el" in "welcome" and "y" in "away" outnumber "the".
    assert_eq!(result.metrics.language, "Spanish");
    assert_eq!(result.social_media_links.len(), 1);
    assert_eq!(result.social_media_links[0].href, "https://twitter.com/someone");
    assert_eq!(result.artifacts.rendered_html, Some(FIXTURE.to_string()));
    assert_eq!(result.artifacts.screenshot, None);
    assert!(result.artifacts.console_logs.is_empty());
    assert_eq!(result.artifacts.network_resources.len(), 1);
    assert_eq!(result.artifacts.network_resources[0].name, "https://site.com/logo.png");
    assert!(result.security_report.is_https);
    assert!(!result.security_report.mixed_content);
    assert_eq!(result.security_report.missing_security_headers.len(), 4);
    assert_eq!(result.response_headers.entries().len(), 2);
}

#[test]
fn plain_http_page_is_never_mixed() {
    let body = "<body><img src=\"http://cdn.example/a.png\"></body>";
    let step = on_fetched(
        pending("http://site.com/"),
        response(200, body),
        &AnalysisConfig::default(),
        &Lexicon::standard(),
    );
    match step {
        Step::Done(result) => {
            assert!(!result.security_report.is_https);
            assert!(!result.security_report.mixed_content);
        }
        other => panic!("result expected, got {:?}", other),
    }
    let secure = on_fetched(
        pending("https://site.com/"),
        response(200, body),
        &AnalysisConfig::default(),
        &Lexicon::standard(),
    );
    match secure {
        Step::Done(result) => assert!(result.security_report.mixed_content),
        other => panic!("result expected, got {:?}", other),
    }
}

#[test]
fn enabled_rendering_asks_for_a_render() {
    let waiting = waiting_for_render();
    assert_eq!(waiting.analysis.content.title, "Fixture");
    assert_eq!(waiting.page.status, 200);
}

#[test]
fn failed_render_fails_the_whole_analysis() {
    let outcome = RenderOutcome::Failed { reason: "browser launch failed".to_string() };
    match on_rendered(waiting_for_render(), outcome, &rendering()) {
        Step::Failed(e) => {
            assert_eq!(e, AnalysisError::RenderError { reason: "browser launch failed".to_string() })
        }
        other => panic!("failure expected, got {:?}", other),
    }
}

#[test]
fn rendered_artifacts_enter_the_result() {
    let artifacts = RenderArtifacts {
        rendered_html: Some("<html><body>rendered</body></html>".to_string()),
        screenshot: Some("aGVsbG8=".to_string()),
        network_resources: vec![resource_from("http://cdn.example/late.js".to_string(), ResourceKind::Script)],
        console_logs: vec![ConsoleLog { level: "warn".to_string(), message: "careful".to_string() }],
    };
    match on_rendered(waiting_for_render(), RenderOutcome::Rendered(artifacts), &rendering()) {
        Step::Done(result) => {
            assert_eq!(result.content.title, "Fixture");
            assert_eq!(result.artifacts.screenshot, Some("aGVsbG8=".to_string()));
            assert_eq!(result.artifacts.console_logs.len(), 1);
            assert_eq!(result.artifacts.console_logs[0].message, "careful");
            assert_eq!(result.artifacts.network_resources.len(), 1);
            assert!(result.security_report.mixed_content);
        }
        other => panic!("result expected, got {:?}", other),
    }
}

#[test]
fn social_links_keep_their_order() {
    let link = |href: &str| LinkInfo { text: "t".to_string(), href: href.to_string(), is_external: true };
    let links = vec![link("https://reddit.com/r/x"), link("https://example.org"), link("https://discord.com/invite")];
    let social = social_links(&links, &Lexicon::standard().social_domains);
    assert_eq!(social.len(), 2);
    assert_eq!(social[0].href, "https://reddit.com/r/x");
    assert_eq!(social[1].href, "https://discord.com/invite");
    assert!(social[0].is_external);
}

#[test]
fn static_parts_can_be_computed_alone() {
    let request = match AnalysisRequest::new("https://site.com/dir/") {
        Ok(request) => request,
        Err(e) => panic!("request expected: {:?}", e),
    };
    let analysis = match analyze_static(FIXTURE, request.page(), 250, &Lexicon::standard()) {
        Ok(analysis) => analysis,
        Err(e) => panic!("analysis expected: {:?}", e),
    };
    assert_eq!(analysis.metrics.reading_speed_wpm, 250);
    assert_eq!(analysis.content.links.len(), 2);
    let artifacts = match static_artifacts(FIXTURE, request.page()) {
        Ok(artifacts) => artifacts,
        Err(e) => panic!("artifacts expected: {:?}", e),
    };
    assert_eq!(artifacts.network_resources.len(), 1);
    assert_eq!(artifacts.network_resources[0].name, "https://site.com/logo.png");
}
