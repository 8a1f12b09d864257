use river_db::errors::AppError;
use river_db::models::first_forwarded;
use river_db::present::{default_page, default_page_size};
use river_db::query::{default_format, Resolution};
use river_db::schedule::recent_refresh_windows;
use river_db::upstream::{
    classify_status, data_url, history_url, http_failure, id_list, locations_url, rate_limited,
    StatusClass,
};

#[test]
fn id_list_is_bracketed() {
    assert_eq!(id_list(&vec![1270, 1272]), "[1270,1272]");
    assert_eq!(id_list(&vec![]), "[]");
    assert_eq!(id_list(&vec![-3]), "[-3]");
}

#[test]
fn request_urls() {
    let base = "https://logger.local/rest/v1";
    assert_eq!(locations_url(base), "https://logger.local/rest/v1/locations?flatten=true");
    assert_eq!(
        history_url(base, &vec![1, 2], 100, Some(200)),
        "https://logger.local/rest/v1/locations_history?location_ids=[1,2]&date_from=100&date_to=200"
    );
    assert_eq!(
        history_url(base, &vec![7], 100, None),
        "https://logger.local/rest/v1/locations_history?location_ids=[7]&date_from=100"
    );
    assert_eq!(data_url(base, &vec![5, 6]), "https://logger.local/rest/v1/locations_data?location_ids=[5,6]");
}

#[test]
fn upstream_status_classes() {
    assert_eq!(classify_status(429), StatusClass::RateLimited);
    assert_eq!(classify_status(200), StatusClass::Success);
    assert_eq!(classify_status(204), StatusClass::Success);
    assert_eq!(classify_status(404), StatusClass::Failed);
    assert_eq!(classify_status(503), StatusClass::Failed);
    assert_eq!(rate_limited().public_message(), "Vaisala API error: Rate limited (429)");
    assert_eq!(http_failure(404, "nope").public_message(), "Vaisala API error: HTTP 404: nope");
}

#[test]
fn forwarded_header_first_entry() {
    assert_eq!(first_forwarded(" 10.0.0.1 , 10.0.0.2"), "10.0.0.1");
    assert_eq!(first_forwarded("192.168.1.9"), "192.168.1.9");
    assert_eq!(first_forwarded(""), "");
}

#[test]
fn recent_refresh_covers_day_and_week() {
    let (hourly, daily) = recent_refresh_windows(1_000_000);
    assert_eq!(hourly.resolution, Resolution::Hourly);
    assert_eq!((hourly.start, hourly.end), (1_000_000 - 86_400, 1_000_000));
    assert_eq!(daily.resolution, Resolution::Daily);
    assert_eq!((daily.start, daily.end), (1_000_000 - 604_800, 1_000_000));
}

#[test]
fn query_defaults() {
    assert_eq!(default_format(), "json");
    assert_eq!(default_page(), 1);
    assert_eq!(default_page_size(), 100);
}

#[test]
fn bulk_refusal_is_503() {
    let e = AppError::bulk_refused();
    assert_eq!(e.status_code(), 503);
    assert_eq!(e.public_message(), "Too many concurrent bulk requests. Please try again later.");
}
