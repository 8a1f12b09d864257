use river_db::discovery::{
    classify_location, derive_sensor_type, find_station_node, plan_discovery, sensor_record,
    station_path_of, LocationAttributes, LocationDataAttributes, LocationKind,
};

fn loc(path: &str, node_id: i32, leaf: bool, deleted: bool) -> LocationAttributes {
    LocationAttributes {
        zone_type_name: String::new(),
        description: String::new(),
        path: path.to_string(),
        text: String::new(),
        pos: 0,
        node_id,
        pause: false,
        leaf,
        type_id: 0,
        node_type: 0,
        deleted,
    }
}

fn details(id: i32, name: &str, path: &str) -> LocationDataAttributes {
    LocationDataAttributes {
        id,
        zone: String::new(),
        location_name: name.to_string(),
        location_description: String::new(),
        location_path: path.to_string(),
        decimal_places: 2,
        display_units: "mm".to_string(),
        channel_id: 0,
        logger_serial_number: String::new(),
        probe_serial_number: "P-7".to_string(),
        sample_interval_sec: 600,
        timestamp: 0,
        device_status: "OK".to_string(),
        battery_level: 90,
        battery_state: 1,
        signal_quality: 4,
        unreachable: false,
    }
}

#[test]
fn sensor_types_follow_keyword_order() {
    assert_eq!(derive_sensor_type("MDepthmm"), "Depth");
    assert_eq!(derive_sensor_type("MCDOMppb"), "CDOM");
    assert_eq!(derive_sensor_type("MTurbNTU"), "Turbidity");
    assert_eq!(derive_sensor_type("MBattV"), "Battery");
    assert_eq!(derive_sensor_type("MDOdegC"), "DO_Temperature");
    assert_eq!(derive_sensor_type("MDOTdegC"), "DO_Temperature");
    assert_eq!(derive_sensor_type("MDOuM"), "Dissolved_O2");
    assert_eq!(derive_sensor_type("MConduSCm"), "Conductivity");
    assert_eq!(derive_sensor_type("MCondTdegC"), "Cond_Temperature");
    assert_eq!(derive_sensor_type("Xyz"), "Xyz");
    assert_eq!(derive_sensor_type(""), "");
    // the first group that matches wins
    assert_eq!(derive_sensor_type("depthBatt"), "Depth");
}

#[test]
fn classification_by_depth_and_leaf() {
    assert!(matches!(classify_location("viewLinc/Z1", false, false), LocationKind::Zone { ref name } if name == "Z1"));
    match classify_location("viewLinc/Z1/S1", false, false) {
        LocationKind::Station { zone, name } => {
            assert_eq!(zone, "Z1");
            assert_eq!(name, "S1");
        }
        _ => panic!("expected a station"),
    }
    assert!(matches!(classify_location("viewLinc/Z1/S1/MDepthmm", true, false), LocationKind::Sensor));
    assert!(matches!(classify_location("viewLinc/Z1/S1/MDepthmm", true, true), LocationKind::Skip));
    assert!(matches!(classify_location("viewLinc", false, false), LocationKind::Skip));
    assert!(matches!(classify_location("viewLinc/Z1", true, false), LocationKind::Skip));
    assert!(matches!(classify_location("viewLinc/Z1/S1/X", false, false), LocationKind::Skip));
}

#[test]
fn station_path_is_three_segment_prefix() {
    assert_eq!(station_path_of("viewLinc/Z1/S1/MDepthmm").as_deref(), Some("viewLinc/Z1/S1"));
    assert_eq!(station_path_of("viewLinc/Z1/S1"), None);
    assert_eq!(station_path_of("a/b/c/d/e").as_deref(), Some("a/b/c"));
}

#[test]
fn first_run_discovery_scenario() {
    let locations = vec![
        loc("viewLinc/Z1", 7, false, false),
        loc("viewLinc/Z1/S1", 42, false, false),
        loc("viewLinc/Z1/S1/MDepthmm", 1001, true, false),
    ];
    let plan = plan_discovery(&locations, &vec![], &vec![], &vec![]);
    assert_eq!(plan.zones.len(), 1);
    assert_eq!(plan.zones[0].name, "Z1");
    assert_eq!(plan.zones[0].description, None);
    assert_eq!(plan.stations.len(), 1);
    assert_eq!(plan.stations[0].name, "S1");
    assert_eq!(plan.stations[0].zone_name, "Z1");
    assert_eq!(plan.stations[0].node_id, 42);
    assert_eq!(plan.sensor_location_ids, vec![1001]);

    let d = details(1001, "MDepthmm", "viewLinc/Z1/S1/MDepthmm");
    assert_eq!(find_station_node(&d.location_path, &locations), Some(42));
    let s = sensor_record(&d, 0xABCD);
    assert_eq!(s.station_id, 0xABCD);
    assert_eq!(s.location_id, 1001);
    assert_eq!(s.name, "MDepthmm");
    assert_eq!(s.sensor_type, "Depth");
    assert_eq!(s.display_units.as_deref(), Some("mm"));
    assert_eq!(s.sample_interval_sec, Some(600));
    assert_eq!(s.channel_id, None);
    assert_eq!(s.device_serial_number, None);
    assert_eq!(s.probe_serial_number.as_deref(), Some("P-7"));
    assert!(s.is_active);
}

#[test]
fn discovery_skips_known_deleted_and_repeated() {
    let locations = vec![
        loc("viewLinc/Z1", 1, false, false),
        loc("viewLinc/Z2", 2, false, false),
        loc("viewLinc/Z2", 3, false, false),
        loc("viewLinc/Z3", 4, false, true),
        loc("viewLinc/Z2/S9", 9, false, false),
        loc("viewLinc/Z2/S9b", 9, false, false),
        loc("viewLinc/Z2/S9/A", 100, true, false),
        loc("viewLinc/Z2/S9/B", 101, true, false),
    ];
    let plan = plan_discovery(&locations, &vec!["Z1".to_string()], &vec![], &vec![101]);
    assert_eq!(plan.zones.len(), 1);
    assert_eq!(plan.zones[0].name, "Z2");
    assert_eq!(plan.stations.len(), 1);
    assert_eq!(plan.stations[0].name, "S9");
    assert_eq!(plan.sensor_location_ids, vec![100]);
}

#[test]
fn sensor_without_station_location_has_none() {
    let locations = vec![loc("viewLinc/Z1", 1, false, false)];
    assert_eq!(find_station_node("viewLinc/Z1/S1/X", &locations), None);
    assert_eq!(find_station_node("viewLinc/Z1", &locations), None);
}
