use web_scraper::dictionary::StringMap;
use web_scraper::resources::{
    analyze_network_resources, resource_from, NetworkResource, ResourceKind,
};
use web_scraper::page_url::PageUrl;
use web_scraper::security::{
    content_security_policy, default_expected_headers, has_header, has_insecure_cookies,
    has_mixed_content, missing_headers, security_report, technology_notes,
};

fn headers(pairs: &[(&str, &str)]) -> StringMap<String> {
    let mut map = StringMap::new();
    for (name, value) in pairs {
        map.insert(name.to_string(), value.to_string());
    }
    map
}

fn resource(name: &str) -> NetworkResource {
    resource_from(name.to_string(), ResourceKind::Image)
}

fn base() -> PageUrl {
    PageUrl {
        href: "https://site.com/dir/page.html".to_string(),
        scheme: "https".to_string(),
        host: Some("site.com".to_string()),
        domain: Some("site.com".to_string()),
    }
}

#[test]
fn all_expected_headers_missing_from_empty_response() {
    let missing = missing_headers(&headers(&[]), &default_expected_headers());
    assert_eq!(
        missing,
        vec![
            "strict-transport-security".to_string(),
            "content-security-policy".to_string(),
            "x-frame-options".to_string(),
            "x-content-type-options".to_string(),
            "referrer-policy".to_string(),
        ]
    );
}

#[test]
fn received_headers_are_matched_whatever_their_case() {
    let received = headers(&[
        ("X-Frame-Options", "DENY"),
        ("strict-transport-security", "max-age=1"),
        ("Server", "x"),
    ]);
    let missing = missing_headers(&received, &default_expected_headers());
    assert_eq!(
        missing,
        vec![
            "content-security-policy".to_string(),
            "x-content-type-options".to_string(),
            "referrer-policy".to_string(),
        ]
    );
    assert!(has_header(&received, "x-frame-options"));
    assert!(!has_header(&received, "X-Frame-Options"));
    assert!(!has_header(&received, "referrer-policy"));
}

#[test]
fn substituted_expected_headers_are_checked() {
    let received = headers(&[("a", "1")]);
    let expected = vec!["b".to_string(), "a".to_string(), "c".to_string()];
    assert_eq!(missing_headers(&received, &expected), vec!["b".to_string(), "c".to_string()]);
}

#[test]
fn mixed_content_needs_a_secure_page() {
    let markup = Some("<img src=\"http://cdn.example/x.png\">".to_string());
    assert!(has_mixed_content(true, &markup, &Vec::new()));
    assert!(!has_mixed_content(false, &markup, &Vec::new()));
    let clean = Some("<img src=\"https://cdn.example/x.png\">".to_string());
    assert!(!has_mixed_content(true, &clean, &Vec::new()));
    assert!(!has_mixed_content(true, &None, &Vec::new()));
}

#[test]
fn mixed_content_is_seen_in_resources() {
    let clean = Some("<p>text</p>".to_string());
    let loaded = vec![resource("https://a.example/x"), resource("http://b.example/y")];
    assert!(has_mixed_content(true, &clean, &loaded));
    assert!(!has_mixed_content(false, &clean, &loaded));
    let embedded = vec![resource("https://a.example/?u=http://b.example")];
    assert!(!has_mixed_content(true, &clean, &embedded));
}

#[test]
fn csp_is_copied_verbatim() {
    let lower = headers(&[("content-security-policy", "default-src 'self'")]);
    assert_eq!(content_security_policy(&lower), Some("default-src 'self'".to_string()));
    let capital = headers(&[("Content-Security-Policy", "Img-Src *")]);
    assert_eq!(content_security_policy(&capital), Some("Img-Src *".to_string()));
    let both = headers(&[("Content-Security-Policy", "two"), ("content-security-policy", "one")]);
    assert_eq!(content_security_policy(&both), Some("one".to_string()));
    assert_eq!(content_security_policy(&headers(&[("x", "y")])), None);
}

#[test]
fn cookies_need_httponly_and_secure() {
    assert!(!has_insecure_cookies(&headers(&[])));
    assert!(!has_insecure_cookies(&headers(&[("set-cookie", "id=1; HttpOnly; Secure")])));
    assert!(has_insecure_cookies(&headers(&[("set-cookie", "id=1; HttpOnly")])));
    assert!(has_insecure_cookies(&headers(&[("set-cookie", "id=1; SECURE")])));
    assert!(has_insecure_cookies(&headers(&[("set-cookie", "id=1")])));
    assert!(!has_insecure_cookies(&headers(&[("Set-Cookie", "id=1")])));
}

#[test]
fn notes_name_detected_technology() {
    let jquery = "Detected jquery references; consider checking version for known vulnerabilities";
    let wordpress = "WordPress site detected; consider known WP plugin vulnerabilities";
    assert!(technology_notes("<p>plain</p>", &None).is_empty());
    assert_eq!(
        technology_notes("<script src=\"/js/jQuery.min.js\"></script>", &None),
        vec![jquery.to_string()]
    );
    assert_eq!(
        technology_notes("<p>plain</p>", &Some("/wp-content/WordPress".to_string())),
        vec![wordpress.to_string()]
    );
    assert_eq!(
        technology_notes("wordpress", &Some("JQUERY".to_string())),
        vec![jquery.to_string(), wordpress.to_string()]
    );
}

#[test]
fn report_combines_the_checks() {
    let received = headers(&[
        ("content-security-policy", "default-src 'self'"),
        ("set-cookie", "sid=1; Secure"),
    ]);
    let rendered = Some("<a href=\"http://x.example\">x</a>".to_string());
    let report = security_report(
        true,
        &received,
        &default_expected_headers(),
        "<html>jquery</html>",
        &rendered,
        &Vec::new(),
    );
    assert!(report.is_https);
    assert!(report.mixed_content);
    assert_eq!(report.missing_security_headers.len(), 4);
    assert!(report.insecure_cookies);
    assert_eq!(report.csp, Some("default-src 'self'".to_string()));
    assert_eq!(report.notes.len(), 1);
    let plain = security_report(false, &received, &Vec::new(), "", &rendered, &Vec::new());
    assert!(!plain.is_https);
    assert!(!plain.mixed_content);
    assert!(plain.missing_security_headers.is_empty());
    assert!(plain.notes.is_empty());
}

#[test]
fn resources_are_resolved_against_the_page() {
    let html = "<html><head><link rel=\"stylesheet\" href=\"/css/a.css\">\
        <link rel=\"icon\" href=\"/favicon.ico\">\
        <script src=\"app.js\"></script><script>inline()</script></head>\
        <body><img src=\"http://cdn.example/i.png\"><img alt=\"none\"></body></html>";
    let found = match analyze_network_resources(html, &base()) {
        Ok(list) => list,
        Err(e) => panic!("resources failed: {:?}", e),
    };
    assert_eq!(found.len(), 3);
    assert_eq!(found[0].name, "https://site.com/css/a.css");
    assert_eq!(found[0].initiator_type, "css");
    assert_eq!(found[0].start_time_ms, 0);
    assert_eq!(found[0].duration_ms, 100);
    assert_eq!(found[0].transfer_size, Some(1024));
    assert_eq!(found[0].encoded_body_size, Some(1024));
    assert_eq!(found[1].name, "https://site.com/dir/app.js");
    assert_eq!(found[1].initiator_type, "script");
    assert_eq!(found[1].duration_ms, 150);
    assert_eq!(found[1].transfer_size, Some(2048));
    assert_eq!(found[2].name, "http://cdn.example/i.png");
    assert_eq!(found[2].initiator_type, "img");
    assert_eq!(found[2].duration_ms, 200);
    assert_eq!(found[2].encoded_body_size, Some(5120));
}

#[test]
fn unresolvable_reference_is_left_out() {
    let html = "<img src=\"http://[bad\"><img src=\"ok.png\">";
    let found = match analyze_network_resources(html, &base()) {
        Ok(list) => list,
        Err(e) => panic!("resources failed: {:?}", e),
    };
    assert_eq!(found.len(), 1);
    assert_eq!(found[0].name, "https://site.com/dir/ok.png");
}
