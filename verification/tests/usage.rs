use web_scraper::dictionary::StringMap;
use web_scraper::models::UsageLog;
use web_scraper::records::RecordId;
use web_scraper::usage::{
    days_for_range, failed_requests, host_counts, period_start, recent_activity,
    requests_remaining, scrape_log, top_keys, usage_totals, UsageTotals,
};

fn id(n: u8) -> RecordId {
    RecordId { bytes: [n; 12] }
}

fn log(success: bool, response_time_ms: i64) -> UsageLog {
    scrape_log(
        id(1),
        id(2),
        "https://site.com/",
        1_700_000_000_000,
        response_time_ms,
        if success { Ok(10) } else { Err("boom".to_string()) },
    )
}

#[test]
fn totals_count_successes_and_timed_requests() {
    let logs = vec![log(true, 100), log(false, 0), log(true, -5), log(false, 300)];
    assert_eq!(
        usage_totals(&logs),
        UsageTotals {
            total_requests: 4,
            successful_requests: 2,
            total_response_time: 400,
            timed_requests: 2,
        }
    );
    assert_eq!(failed_requests(&usage_totals(&logs)), 2);
    assert_eq!(
        usage_totals(&Vec::new()),
        UsageTotals {
            total_requests: 0,
            successful_requests: 0,
            total_response_time: 0,
            timed_requests: 0,
        }
    );
}

#[test]
fn totals_do_not_overflow_on_long_responses() {
    let logs = vec![log(true, i64::MAX), log(true, i64::MAX), log(true, i64::MAX)];
    assert_eq!(usage_totals(&logs).total_response_time, 3 * (i64::MAX as u128));
}

#[test]
fn scrape_log_records_the_outcome() {
    let ok = log(true, 12);
    assert_eq!(ok.id, None);
    assert_eq!(ok.user_id, id(1));
    assert_eq!(ok.api_key_id, id(2));
    assert_eq!(ok.endpoint, "/api/scrape");
    assert_eq!(ok.url_scraped, Some("https://site.com/".to_string()));
    assert_eq!(ok.timestamp, 1_700_000_000_000);
    assert_eq!(ok.response_time_ms, 12);
    assert!(ok.success);
    assert_eq!(ok.error_message, None);
    assert_eq!(ok.data_size_bytes, 10);
    let failed = log(false, 7);
    assert!(!failed.success);
    assert_eq!(failed.error_message, Some("boom".to_string()));
    assert_eq!(failed.data_size_bytes, 0);
}

#[test]
fn recent_activity_mirrors_the_log() {
    let activity = recent_activity(&log(false, 7));
    assert_eq!(activity.endpoint, "/api/scrape");
    assert_eq!(activity.url_scraped, Some("https://site.com/".to_string()));
    assert!(!activity.success);
    assert_eq!(activity.response_time_ms, 7);
    assert!(activity.timestamp.starts_with("2023-11-14 22:13:20"));
    assert_ne!(activity.timestamp, "1700000000000");
}

#[test]
fn range_parameter_maps_to_days() {
    assert_eq!(days_for_range("24h"), 1);
    assert_eq!(days_for_range("7d"), 7);
    assert_eq!(days_for_range("30d"), 30);
    assert_eq!(days_for_range(""), 7);
    assert_eq!(days_for_range("1y"), 7);
    assert_eq!(days_for_range("24H"), 7);
}

#[test]
fn period_and_allowance_are_plain_arithmetic() {
    assert_eq!(period_start(1_700_000_000_000, 30), 1_697_408_000_000);
    assert_eq!(period_start(0, 1), -86_400_000);
    assert_eq!(requests_remaining(0), 10_000);
    assert_eq!(requests_remaining(2_500), 7_500);
    assert_eq!(requests_remaining(12_000), -2_000);
}

#[test]
fn hosts_are_counted_over_parsable_urls() {
    let urls = vec![
        Some("https://a.example/x".to_string()),
        None,
        Some("not a url".to_string()),
        Some("http://A.example:8080/y".to_string()),
        Some("https://b.example/".to_string()),
        Some("mailto:someone@c.example".to_string()),
        Some("https://192.168.0.1/".to_string()),
    ];
    let table = host_counts(&urls);
    assert_eq!(table.get(&"a.example".to_string()), Some(&2));
    assert_eq!(table.get(&"b.example".to_string()), Some(&1));
    assert_eq!(table.get(&"192.168.0.1".to_string()), Some(&1));
    assert_eq!(table.entries().len(), 3);
}

#[test]
fn top_keys_are_the_most_frequent_first() {
    let mut table: StringMap<usize> = StringMap::new();
    for (key, count) in [("a", 3), ("b", 9), ("c", 1), ("d", 7), ("e", 5), ("f", 2), ("g", 8)] {
        table.insert(key.to_string(), count);
    }
    assert_eq!(top_keys(&table, 5), vec!["b", "g", "d", "e", "a"]);
    assert_eq!(top_keys(&table, 0), Vec::<String>::new());
    assert_eq!(top_keys(&table, 100).len(), 7);
    assert_eq!(top_keys(&table, 100)[6], "c");
    assert_eq!(top_keys(&StringMap::new(), 5), Vec::<String>::new());
}
