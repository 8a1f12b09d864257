use river_db::config::{Config, ConfigError, Deployment};
use river_db::errors::AppError;
use river_db::models::FallbackIpKeyExtractor;
use river_db::present::{csv_line, format_duration, page_window, rollup_header_cells};

#[test]
fn durations_read_naturally() {
    assert_eq!(format_duration(None), "ongoing");
    assert_eq!(format_duration(Some(0)), "1m");
    assert_eq!(format_duration(Some(59)), "1m");
    assert_eq!(format_duration(Some(150)), "2m");
    assert_eq!(format_duration(Some(9000)), "2h 30m");
    assert_eq!(format_duration(Some(90_061)), "1d 1h 1m");
    assert_eq!(format_duration(Some(-5)), "ongoing");
}

#[test]
fn csv_lines_keep_empty_cells() {
    let names = vec!["MDepthmm".to_string(), "MBattV".to_string()];
    assert_eq!(csv_line("time", &names), "time,MDepthmm,MBattV\n");
    let cells = vec!["0.12".to_string(), String::new()];
    assert_eq!(csv_line("2020-06-24T22:45:00+00:00", &cells), "2020-06-24T22:45:00+00:00,0.12,\n");
    assert_eq!(csv_line("time", &vec![]), "time\n");
}

#[test]
fn rollup_header_has_four_cells_per_sensor() {
    let names = vec!["A".to_string()];
    assert_eq!(rollup_header_cells(&names), vec!["A_avg", "A_min", "A_max", "A_count"]);
}

#[test]
fn events_page_window_is_clamped() {
    assert_eq!(page_window(1, 100), (100, 0));
    assert_eq!(page_window(3, 5000), (1000, 2000));
    assert_eq!(page_window(0, 0), (1, 0));
    assert_eq!(page_window(i32::MIN, -3), (1, 0));
}

#[test]
fn error_kinds_map_to_statuses() {
    assert_eq!(AppError::BadRequest("x".to_string()).status_code(), 400);
    assert_eq!(AppError::NotFound("x".to_string()).status_code(), 404);
    assert_eq!(AppError::ServiceUnavailable("x".to_string()).status_code(), 503);
    assert_eq!(AppError::VaisalaApi("x".to_string()).status_code(), 502);
    assert_eq!(AppError::Database("x".to_string()).status_code(), 500);
    assert_eq!(AppError::Internal("x".to_string()).status_code(), 500);
    assert_eq!(AppError::Config("x".to_string()).status_code(), 500);
    assert_eq!(AppError::Database("secret".to_string()).public_message(), "Database error");
    assert_eq!(AppError::Internal("secret".to_string()).public_message(), "Internal server error");
    assert_eq!(AppError::VaisalaApi("boom".to_string()).public_message(), "Vaisala API error: boom");
    assert_eq!(
        AppError::ServiceUnavailable("Too many concurrent bulk requests. Please try again later.".to_string())
            .public_message(),
        "Too many concurrent bulk requests. Please try again later."
    );
}

#[test]
fn deployment_labels() {
    assert_eq!(Deployment::from_str("PROD"), Deployment::Prod);
    assert_eq!(Deployment::from_str("development"), Deployment::Dev);
    assert_eq!(Deployment::from_str("Staging"), Deployment::Stage);
    assert_eq!(Deployment::from_str("anything"), Deployment::Local);
}

#[test]
fn bind_address_joins_host_and_port() {
    let c = Config {
        database_url: String::new(),
        vaisala_base_url: String::new(),
        vaisala_bearer_token: String::new(),
        vaisala_skip_tls_verify: true,
        vaisala_max_history_days: 90,
        sync_readings_interval_seconds: 300,
        sync_device_status_interval_seconds: 1800,
        sync_retry_max: 3,
        sync_retry_delay_seconds: 60,
        api_host: "0.0.0.0".to_string(),
        api_port: 3000,
        disable_rate_limiting: false,
        rate_limit_metadata_per_second: 1,
        rate_limit_metadata_burst: 60,
        rate_limit_data_per_second: 10,
        rate_limit_data_burst: 60,
        bulk_concurrent_limit: 5,
        cache_ttl_seconds: 300,
        cache_max_bytes: 209_715_200,
        deployment: Deployment::Local,
    };
    assert_eq!(c.bind_address(), "0.0.0.0:3000");
    assert_eq!(
        ConfigError::Missing("DATABASE_URL".to_string()).message(),
        "Missing required environment variable: DATABASE_URL"
    );
}

#[test]
fn rate_limit_key_fallback_chain() {
    let x = FallbackIpKeyExtractor;
    assert_eq!(x.pick_key(Some(1u32), Some(2), Some(3), 127), 1);
    assert_eq!(x.pick_key(None, Some(2u32), Some(3), 127), 2);
    assert_eq!(x.pick_key(None, None, Some(3u32), 127), 3);
    assert_eq!(x.pick_key(None::<u32>, None, None, 127), 127);
}
