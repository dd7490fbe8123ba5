use web_scraper::error::{push_decimal, AnalysisError};
use web_scraper::resources::assemble_resources;
use web_scraper::page_url::PageUrl;

#[test]
fn error_messages_name_the_failure() {
    assert_eq!(AnalysisError::InvalidUrl.message(), "Invalid URL format");
    assert_eq!(
        AnalysisError::NetworkError { reason: "connection refused".to_string() }.message(),
        "Network error: connection refused"
    );
    assert_eq!(AnalysisError::HttpStatusError { status: 404 }.message(), "HTTP error: 404");
    assert_eq!(AnalysisError::HttpStatusError { status: 0 }.message(), "HTTP error: 0");
    assert_eq!(AnalysisError::HttpStatusError { status: 65535 }.message(), "HTTP error: 65535");
    assert_eq!(
        AnalysisError::RenderError { reason: "no browser".to_string() }.message(),
        "Render error: no browser"
    );
    assert_eq!(AnalysisError::InternalError.message(), "Internal error");
}

#[test]
fn decimal_form_has_no_leading_zeros() {
    for n in [0u16, 7, 10, 99, 100, 1000, 50005, u16::MAX] {
        let mut text = "n=".to_string();
        push_decimal(&mut text, n);
        assert_eq!(text, format!("n={}", n));
    }
}

#[test]
fn missing_resource_answer_is_an_internal_error() {
    let page = PageUrl {
        href: "https://site.com/".to_string(),
        scheme: "https".to_string(),
        host: Some("site.com".to_string()),
        domain: Some("site.com".to_string()),
    };
    assert!(matches!(
        assemble_resources(&vec![Some(Vec::new()), None, Some(Vec::new())], &page),
        Err(AnalysisError::InternalError)
    ));
    assert!(matches!(
        assemble_resources(&vec![Some(Vec::new()), Some(Vec::new())], &page),
        Err(AnalysisError::InternalError)
    ));
    assert!(matches!(
        assemble_resources(&vec![Some(Vec::new()), Some(Vec::new()), Some(Vec::new())], &page),
        Ok(list) if list.is_empty()
    ));
}
