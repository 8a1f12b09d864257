use river_db::readings::{
    history_request, needs_full_sync, plan_location_stream, plan_stream, round_to_slot, DataPoint,
    RawDataPoint, SensorCursor,
};
use river_db::schedule::{follow_up, RetryAction, RetryPolicy, TickFollowUp};
use river_db::sync_state::{error_patch, mark_full_sync, success_patch, upsert, SyncState, SyncStatus};

fn point(t: i64, v: Option<f64>) -> DataPoint {
    DataPoint::from_raw(&RawDataPoint { timestamp: t, value_bits: v.map(|x| x.to_bits()), logged: true })
}

#[test]
fn rounding_aligns_to_nearest_slot() {
    assert_eq!(round_to_slot(1_593_038_703), 1_593_039_000);
    assert_eq!(round_to_slot(1_593_038_699), 1_593_038_400);
    assert_eq!(round_to_slot(1_593_039_295), 1_593_039_000);
    assert_eq!(round_to_slot(1_593_039_900), 1_593_040_200);
    assert_eq!(round_to_slot(299), 0);
    assert_eq!(round_to_slot(300), 600);
    assert_eq!(round_to_slot(0), 0);
    assert_eq!(round_to_slot(-1000) % 600, 0);
}

#[test]
fn rounded_insertion_scenario() {
    // 1593038703.8 arrives as a float; it is cut to whole seconds first
    let points = vec![
        point(1_593_038_703, Some(0.12)),
        point(1_593_039_295, Some(0.13)),
        point(1_593_039_900, None),
    ];
    // each time goes to ((epoch + 300) / 600) * 600
    let plan = plan_stream(&points, None);
    assert_eq!(plan.rows.len(), 3);
    assert_eq!(plan.rows[0].time, 1_593_039_000);
    assert_eq!(f64::from_bits(plan.rows[0].value_bits), 0.12);
    assert_eq!(plan.rows[1].time, 1_593_039_000);
    assert_eq!(f64::from_bits(plan.rows[1].value_bits), 0.13);
    assert_eq!(plan.rows[2].time, 1_593_040_200);
    assert_eq!(f64::from_bits(plan.rows[2].value_bits), 0.0);
    assert!(plan.rows.iter().all(|r| r.logged));
    assert_eq!(plan.latest, Some(1_593_039_900));
    // the second tick, incremental from the recorded mark, adds nothing
    let again = plan_stream(&points, plan.latest);
    assert!(again.rows.is_empty());
    assert_eq!(again.latest, None);
}

#[test]
fn every_planned_time_is_slot_aligned() {
    let points: Vec<DataPoint> = (0..50).map(|k| point(1_700_000_000 + 37 * k, Some(1.0))).collect();
    let plan = plan_stream(&points, None);
    assert!(plan.rows.iter().all(|r| r.time % 600 == 0));
}

#[test]
fn old_points_are_dropped_in_incremental_mode() {
    let points = vec![point(100, Some(1.0)), point(700, Some(2.0)), point(650, Some(3.0))];
    let plan = plan_stream(&points, Some(650));
    assert_eq!(plan.rows.len(), 1);
    assert_eq!(plan.rows[0].time, 600);
    assert_eq!(plan.latest, Some(700));
}

#[test]
fn empty_stream_plans_nothing() {
    let plan = plan_stream(&Vec::new(), None);
    assert!(plan.rows.is_empty());
    assert_eq!(plan.latest, None);
}

#[test]
fn full_sync_is_due_when_missing_or_old() {
    let now = 1_000_000i64;
    assert!(needs_full_sync(&vec![], now));
    assert!(needs_full_sync(&vec![Some(now - 10), None], now));
    assert!(needs_full_sync(&vec![Some(now - 86_401)], now));
    assert!(!needs_full_sync(&vec![Some(now - 86_400), Some(now)], now));
}

#[test]
fn history_request_starts_at_the_earliest_mark() {
    let now = 10_000_000i64;
    let sensors = vec![
        SensorCursor { sensor_id: 1, location_id: 11, last_data_time: Some(now - 500) },
        SensorCursor { sensor_id: 2, location_id: 12, last_data_time: Some(now - 900) },
    ];
    let req = history_request(&sensors, false, now, 90);
    assert_eq!(req.location_ids, vec![11, 12]);
    assert_eq!(req.from, now - 900);
    let full = history_request(&sensors, true, now, 90);
    assert_eq!(full.from, now - 90 * 86_400);
    let fresh = vec![SensorCursor { sensor_id: 3, location_id: 13, last_data_time: None }];
    assert_eq!(history_request(&fresh, false, now, 90).from, now - 90 * 86_400);
}

#[test]
fn stream_of_unknown_location_is_ignored() {
    let sensors = vec![SensorCursor { sensor_id: 1, location_id: 11, last_data_time: Some(1000) }];
    let points = vec![point(2000, Some(1.0))];
    assert!(plan_location_stream(&sensors, false, 99, &points).is_none());
    let (id, plan) = plan_location_stream(&sensors, false, 11, &points).unwrap();
    assert_eq!(id, 1);
    assert_eq!(plan.rows.len(), 1);
    // a full sync ignores the mark
    let old = vec![point(500, Some(1.0))];
    assert!(plan_location_stream(&sensors, false, 11, &old).unwrap().1.rows.is_empty());
    assert_eq!(plan_location_stream(&sensors, true, 11, &old).unwrap().1.rows.len(), 1);
}

#[test]
fn success_then_error_patches() {
    let s = upsert(None, success_patch(1234, 2000));
    assert_eq!(s.last_data_time, Some(1234));
    assert_eq!(s.status, SyncStatus::Success);
    assert_eq!(s.retry_count, 0);
    assert_eq!(s.last_full_sync, None);
    let e = upsert(Some(s), error_patch(0, "Rate limited (429)".to_string(), 3000));
    assert_eq!(e.status, SyncStatus::Error);
    assert_eq!(e.retry_count, 1);
    assert_eq!(e.last_data_time, Some(1234));
    assert_eq!(e.error_message.as_deref(), Some("Rate limited (429)"));
    assert_eq!(e.last_sync_attempt, Some(3000));
    let saturated = error_patch(i32::MAX, String::new(), 1);
    assert_eq!(saturated.retry_count, Some(i32::MAX));
}

#[test]
fn repeated_success_patch_is_idempotent() {
    let once = upsert(Some(SyncState::pending()), success_patch(50, 60));
    let twice = upsert(Some(upsert(Some(SyncState::pending()), success_patch(50, 60))), success_patch(50, 60));
    assert_eq!(once.last_data_time, twice.last_data_time);
    assert_eq!(once.status, twice.status);
    assert_eq!(once.retry_count, twice.retry_count);
    assert_eq!(once.last_sync_attempt, twice.last_sync_attempt);
}

#[test]
fn full_sync_stamp_advances_every_sensor() {
    let mut states = vec![SyncState::pending(), upsert(None, success_patch(5, 6))];
    states[1].last_full_sync = Some(100);
    mark_full_sync(&mut states, 200);
    assert!(states.iter().all(|s| s.last_full_sync == Some(200)));
    assert_eq!(states[1].last_data_time, Some(5));
}

#[test]
fn retries_are_capped() {
    let policy = RetryPolicy { max_retries: 3, delay_seconds: 60 };
    assert_eq!(policy.after_attempt(0, true), (RetryAction::Finish { succeeded: true }, 0));
    assert_eq!(policy.after_attempt(0, false), (RetryAction::RetryAfter(60), 1));
    assert_eq!(policy.after_attempt(2, false), (RetryAction::RetryAfter(60), 3));
    assert_eq!(policy.after_attempt(3, false), (RetryAction::Finish { succeeded: false }, 4));
    let none = RetryPolicy { max_retries: 0, delay_seconds: 5 };
    assert_eq!(none.after_attempt(0, false), (RetryAction::Finish { succeeded: false }, 1));
}

#[test]
fn tick_follow_up() {
    assert_eq!(follow_up(true, true), TickFollowUp::MarkFullSyncAndRefreshAll);
    assert_eq!(follow_up(false, true), TickFollowUp::RefreshRecent);
    assert_eq!(follow_up(true, false), TickFollowUp::Nothing);
}

#[test]
fn high_water_mark_bounds_planned_times() {
    let points = vec![point(100, Some(1.0)), point(700, Some(2.0)), point(1290, Some(3.0))];
    let plan = plan_stream(&points, None);
    let mark = plan.latest.unwrap();
    assert_eq!(mark, 1290);
    assert!(plan.rows.iter().all(|r| r.time <= mark));
    // a mark just past a half slot rounds up: the row lies within 300 s of it
    let late = plan_stream(&vec![point(1_593_038_703, Some(1.0))], None);
    let m = late.latest.unwrap();
    assert_eq!(late.rows[0].time, 1_593_039_000);
    assert!(late.rows[0].time > m && late.rows[0].time <= m + 300);
}
