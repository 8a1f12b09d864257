use river_db::alarms::{
    alarm_sensors, alarm_station, create_alarm, deactivate_alarm, plan_alarm_sync, update_alarm,
    Alarm, FetchedAction, SensorLink, UpstreamAlarm,
};
use river_db::events::{event_links, events_from, fetch_more, LocationIdValue, PaginationMeta};

fn upstream(id: i32, locs: Vec<i32>) -> UpstreamAlarm {
    UpstreamAlarm {
        id,
        severity: 2,
        description: "High".to_string(),
        error_text: String::new(),
        when_on: 1000,
        when_off: None,
        when_ack: None,
        when_condition: None,
        duration_sec_bits: 30.0f64.to_bits(),
        status: true,
        is_system: false,
        serial_number: "SN1".to_string(),
        location: String::new(),
        zone: "Z1".to_string(),
        location_ids: locs,
        ack_required: true,
        ack_comments: None,
        ack_action_taken: None,
    }
}

fn sensors() -> Vec<SensorLink> {
    vec![
        SensorLink { location_id: 10, sensor_id: 100, station_id: 1000 },
        SensorLink { location_id: 11, sensor_id: 101, station_id: 1001 },
    ]
}

#[test]
fn new_alarm_takes_station_of_first_known_location() {
    let locs = vec![99, 11, 10];
    assert_eq!(alarm_station(&locs, &sensors()), Some(1001));
    assert_eq!(alarm_sensors(&locs, &sensors()), vec![101, 100]);
    assert_eq!(alarm_station(&vec![99], &sensors()), None);
    assert!(alarm_sensors(&vec![], &sensors()).is_empty());
}

#[test]
fn alarm_lifecycle_scenario() {
    // T0: alarm 17 is active upstream and unknown locally: it is created
    let fetched = vec![upstream(17, vec![10])];
    let plan = plan_alarm_sync(&vec![], &fetched, &sensors());
    assert!(plan.deactivate.is_empty());
    let stored = match &plan.per_fetched[0] {
        FetchedAction::Create { station_id, sensor_ids } => {
            assert_eq!(*station_id, Some(1000));
            assert_eq!(sensor_ids, &vec![100]);
            create_alarm(upstream(17, vec![10]), *station_id, 5000)
        }
        FetchedAction::Update(_) => panic!("expected a creation"),
    };
    assert_eq!(stored.when_on, 1000);
    assert_eq!(stored.error_text, None);
    assert_eq!(stored.zone_text.as_deref(), Some("Z1"));
    assert_eq!(stored.location_text, None);
    assert!(stored.status);

    // T1: absent upstream: marked inactive at T1, onset kept
    let id = stored.id;
    let stored_list = vec![stored];
    let plan = plan_alarm_sync(&stored_list, &vec![], &sensors());
    assert_eq!(plan.deactivate, vec![0]);
    let stored = stored_list.into_iter().next().unwrap();
    let off: Alarm = deactivate_alarm(stored, 7000);
    assert!(!off.status);
    assert_eq!(off.when_off, Some(7000));
    assert_eq!(off.when_on, 1000);
    assert_eq!(off.id, id);

    // T2: active again: the update path re-activates it
    let fetched = vec![upstream(17, vec![10])];
    let off_list = vec![off];
    let plan = plan_alarm_sync(&off_list, &fetched, &sensors());
    assert!(matches!(plan.per_fetched[0], FetchedAction::Update(0)));
    assert!(plan.deactivate.is_empty());
    let off = off_list.into_iter().next().unwrap();
    let on = update_alarm(off, upstream(17, vec![10]), 9000);
    assert!(on.status);
    assert_eq!(on.when_off, None);
    assert_eq!(on.when_on, 1000);
    assert_eq!(on.station_id, Some(1000));
    assert_eq!(on.updated_at, Some(9000));
    assert_eq!(on.id, id);
}

#[test]
fn inactive_alarms_are_not_deactivated_again() {
    let off = deactivate_alarm(create_alarm(upstream(3, vec![]), None, 1), 2);
    let plan = plan_alarm_sync(&vec![off], &vec![], &sensors());
    assert!(plan.deactivate.is_empty());
}

#[test]
fn events_start_marker() {
    assert_eq!(events_from(None), "7d");
    assert_eq!(events_from(Some(1_700_000_000)), "1700000000");
    assert_eq!(events_from(Some(0)), "0");
    assert_eq!(events_from(Some(-42)), "-42");
    assert_eq!(events_from(Some(i64::MIN)), i64::MIN.to_string());
}

#[test]
fn events_paging_stops_on_total_or_short_page() {
    assert!(fetch_more(1, 1000, 2500, 1000));
    assert!(!fetch_more(3, 1000, 2500, 500));
    assert!(!fetch_more(2, 1000, 2000, 1000));
    assert!(!fetch_more(1, 1000, 5000, 999));
    assert!(!fetch_more(1, 1000, 5000, 0));
    assert_eq!(PaginationMeta::total_of(&None), 0);
}

#[test]
fn event_links_follow_numeric_location_ids() {
    assert_eq!(event_links(&Some(LocationIdValue::Int(11)), &sensors()), (Some(101), Some(1001)));
    assert_eq!(event_links(&Some(LocationIdValue::String("N/A".to_string())), &sensors()), (None, None));
    assert_eq!(event_links(&Some(LocationIdValue::Int(5)), &sensors()), (None, None));
    assert_eq!(event_links(&None, &sensors()), (None, None));
    assert_eq!(LocationIdValue::Int(4).as_int(), Some(4));
}
