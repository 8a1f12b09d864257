use river_db::columns::{reshape, time_axis, Sample};
use std::sync::Arc;

use river_db::query::{
    bulk_admission, determine_format, is_bulk_format, is_cached_format, parse_sensor_types, resolve_node,
    validate_rollup_window, validate_window, NamedNode, Resolution, WindowError,
};

const DAY_US: i64 = 86_400_000_000;

#[test]
fn rollup_window_over_ninety_days_is_refused() {
    assert_eq!(validate_rollup_window(0, 90 * DAY_US + 1), Err(WindowError::SpanTooLong));
    assert_eq!(validate_rollup_window(0, 90 * DAY_US), Ok(()));
}

#[test]
fn rollup_window_end_not_after_start_is_refused() {
    assert_eq!(validate_rollup_window(5, 5), Err(WindowError::EndNotAfterStart));
    assert_eq!(validate_rollup_window(6, 5), Err(WindowError::EndNotAfterStart));
}

#[test]
fn raw_window_checks_order_only_when_both_given() {
    assert_eq!(validate_window(Some(10), Some(10)), Err(WindowError::EndNotAfterStart));
    assert_eq!(validate_window(Some(10), Some(11)), Ok(()));
    assert_eq!(validate_window(None, Some(1)), Ok(()));
    assert_eq!(validate_window(Some(10), None), Ok(()));
}

#[test]
fn resolutions_map_to_views() {
    assert_eq!(Resolution::parse("hourly").unwrap().view_name(), "readings_hourly");
    assert_eq!(Resolution::parse("daily").unwrap().view_name(), "readings_daily");
    assert_eq!(Resolution::parse("weekly").unwrap().view_name(), "readings_weekly");
    assert_eq!(Resolution::parse("monthly").unwrap().view_name(), "readings_monthly");
    assert_eq!(Resolution::parse("Hourly"), None);
    assert_eq!(Resolution::parse("yearly"), None);
}

#[test]
fn format_precedence() {
    assert_eq!(determine_format("CSV", Some("application/x-ndjson")), "csv");
    assert_eq!(determine_format("json", Some("text/csv, application/x-ndjson")), "ndjson");
    assert_eq!(determine_format("json", Some("text/csv")), "csv");
    assert_eq!(determine_format("json", Some("application/json")), "json");
    assert_eq!(determine_format("json", None), "json");
    assert!(is_bulk_format("csv") && is_bulk_format("ndjson") && !is_bulk_format("json"));
    assert!(is_cached_format("json") && !is_cached_format("csv"));
}

#[test]
fn sensor_type_filter_is_split_and_trimmed() {
    assert_eq!(parse_sensor_types("Depth, Battery ,CDOM"), vec!["Depth", "Battery", "CDOM"]);
    assert_eq!(parse_sensor_types(""), vec![""]);
    assert_eq!(parse_sensor_types("a,,b"), vec!["a", "", "b"]);
}

fn stations() -> Vec<NamedNode> {
    vec![
        NamedNode { id: 0x11, name: "Sion".to_string() },
        NamedNode { id: 0x67e5_5044_10b1_426f_9247_bb68_0e5f_e0c8, name: "Martigny".to_string() },
    ]
}

#[test]
fn case_insensitive_resolution_scenario() {
    let nodes = stations();
    let by_lower = resolve_node(&nodes, "martigny");
    let by_name = resolve_node(&nodes, "Martigny");
    let by_id = resolve_node(&nodes, "67e55044-10b1-426f-9247-bb680e5fe0c8");
    assert_eq!(by_lower, Some(0x67e5_5044_10b1_426f_9247_bb68_0e5f_e0c8));
    assert_eq!(by_lower, by_name);
    assert_eq!(by_lower, by_id);
    assert_eq!(resolve_node(&nodes, "MARTIGNY"), by_name);
}

#[test]
fn resolution_ignores_order_and_reports_unknown() {
    let mut nodes = stations();
    let before = resolve_node(&nodes, "sion");
    nodes.reverse();
    assert_eq!(resolve_node(&nodes, "SION"), before);
    assert_eq!(resolve_node(&nodes, "nowhere"), None);
    assert_eq!(resolve_node(&nodes, "00000000-0000-0000-0000-000000000001"), None);
}

#[test]
fn reshape_aligns_columns() {
    let rows = vec![
        Sample { sensor_id: 1, time: 600, value: Some(1u64) },
        Sample { sensor_id: 1, time: 1200, value: Some(2u64) },
        Sample { sensor_id: 2, time: 0, value: Some(3u64) },
        Sample { sensor_id: 2, time: 1200, value: Some(4u64) },
    ];
    let c = reshape(&rows, &vec![1, 2, 3], None);
    assert_eq!(c.times, vec![0, 600, 1200]);
    assert_eq!(c.columns[0], vec![None, Some(1), Some(2)]);
    assert_eq!(c.columns[1], vec![Some(3), None, Some(4)]);
    // a sensor without readings keeps its column, all empty
    assert_eq!(c.columns[2], vec![None, None, None]);
}

#[test]
fn reshape_rollup_counts_default_to_zero() {
    let rows = vec![Sample { sensor_id: 5, time: 3600, value: (Some(2u64), 7i64) }];
    let c = reshape(&rows, &vec![5, 6], (None, 0i64));
    assert_eq!(c.times, vec![3600]);
    assert_eq!(c.columns[0], vec![(Some(2), 7)]);
    assert_eq!(c.columns[1], vec![(None, 0)]);
}

#[test]
fn time_axis_is_sorted_and_distinct() {
    let rows: Vec<Sample<u8>> = vec![
        Sample { sensor_id: 1, time: 30, value: 0 },
        Sample { sensor_id: 2, time: 10, value: 0 },
        Sample { sensor_id: 3, time: 30, value: 0 },
        Sample { sensor_id: 1, time: -5, value: 0 },
    ];
    assert_eq!(time_axis(&rows), vec![-5, 10, 30]);
    assert!(time_axis::<u8>(&vec![]).is_empty());
}

#[test]
fn bulk_admission_scenario() {
    let gate = Arc::new(tokio::sync::Semaphore::new(2));
    let first = bulk_admission(&gate, "csv").unwrap();
    let second = bulk_admission(&gate, "ndjson").unwrap();
    assert!(first.is_some() && second.is_some());
    match bulk_admission(&gate, "csv") {
        Err(e) => {
            assert_eq!(e.status_code(), 503);
            assert_eq!(e.public_message(), "Too many concurrent bulk requests. Please try again later.");
        }
        Ok(_) => panic!("a third bulk request must be refused"),
    }
    // JSON needs no permit
    assert!(bulk_admission(&gate, "json").unwrap().is_none());
    // a finished download frees its slot
    drop(first);
    assert!(bulk_admission(&gate, "csv").unwrap().is_some());
}
