use bus_tracker::api;
use bus_tracker::PositionStore;

#[test]
fn submit_then_fetch_returns_submitted_position() {
    let mut store = PositionStore::new();
    let before = chrono::Utc::now().timestamp_millis();
    let lat = 45.5f64;
    let lon = -73.6f64;
    let stored = api::submit_position(&mut store, "12".to_string(), lat.to_bits(), lon.to_bits());
    let after = chrono::Utc::now().timestamp_millis();

    let fetched = store.get(&"12".to_string()).expect("position should be found");
    assert_eq!(fetched, stored);
    assert_eq!(f64::from_bits(fetched.latitude_bits), 45.5);
    assert_eq!(f64::from_bits(fetched.longitude_bits), -73.6);
    assert!(fetched.timestamp_ms >= before);
    assert!(fetched.timestamp_ms <= after);
}

#[test]
fn resubmit_overwrites_first_position() {
    let mut store = PositionStore::new();
    api::submit_position(&mut store, "7".to_string(), 1.0f64.to_bits(), 2.0f64.to_bits());
    api::submit_position(&mut store, "7".to_string(), 3.5f64.to_bits(), 4.5f64.to_bits());

    let fetched = store.get(&"7".to_string()).expect("position should be found");
    assert_eq!(f64::from_bits(fetched.latitude_bits), 3.5);
    assert_eq!(f64::from_bits(fetched.longitude_bits), 4.5);
    assert_ne!(f64::from_bits(fetched.latitude_bits), 1.0);
}

#[test]
fn fetch_unknown_vehicle_is_not_found() {
    let store = PositionStore::new();
    assert!(store.get(&"ghost".to_string()).is_none());
}

#[test]
fn fetch_after_stop_sharing_is_not_found() {
    let mut store = PositionStore::new();
    api::submit_position(&mut store, "bus42".to_string(), 0.5f64.to_bits(), 0.25f64.to_bits());
    let ack = api::stop_sharing(&mut store, &"bus42".to_string());
    assert_eq!(ack, Some("Partage arrêté pour le bus bus42".to_string()));
    assert!(store.get(&"bus42".to_string()).is_none());
}

#[test]
fn stop_sharing_unknown_vehicle_is_not_found() {
    let mut store = PositionStore::new();
    assert_eq!(api::stop_sharing(&mut store, &"never".to_string()), None);
}

#[test]
fn stop_sharing_twice_reports_not_found_the_second_time() {
    let mut store = PositionStore::new();
    api::submit_position(&mut store, "9".to_string(), 1.0f64.to_bits(), 1.0f64.to_bits());
    assert!(api::stop_sharing(&mut store, &"9".to_string()).is_some());
    assert_eq!(api::stop_sharing(&mut store, &"9".to_string()), None);
}

#[test]
fn stop_sharing_leaves_other_vehicles_alone() {
    let mut store = PositionStore::new();
    api::submit_position(&mut store, "a".to_string(), 1.0f64.to_bits(), 2.0f64.to_bits());
    api::submit_position(&mut store, "b".to_string(), 3.0f64.to_bits(), 4.0f64.to_bits());
    api::stop_sharing(&mut store, &"a".to_string());
    let b = store.get(&"b".to_string()).expect("b should still be there");
    assert_eq!(f64::from_bits(b.latitude_bits), 3.0);
}

#[test]
fn distinct_vehicles_do_not_contaminate_each_other() {
    let mut store = PositionStore::new();
    let n = 25u32;
    for i in 0..n {
        let lat = f64::from(i) + 0.5;
        let lon = -f64::from(i) - 0.25;
        api::submit_position(&mut store, format!("bus{}", i), lat.to_bits(), lon.to_bits());
    }
    for i in 0..n {
        let fetched = store.get(&format!("bus{}", i)).expect("each vehicle should be found");
        assert_eq!(f64::from_bits(fetched.latitude_bits), f64::from(i) + 0.5);
        assert_eq!(f64::from_bits(fetched.longitude_bits), -f64::from(i) - 0.25);
    }
}

#[test]
fn vehicle_ids_are_case_sensitive_and_untrimmed() {
    let mut store = PositionStore::new();
    api::submit_position(&mut store, "Bus1".to_string(), 1.0f64.to_bits(), 2.0f64.to_bits());
    assert!(store.get(&"bus1".to_string()).is_none());
    assert!(store.get(&"Bus1 ".to_string()).is_none());
    assert!(store.get(&"Bus1".to_string()).is_some());
}

#[test]
fn position_saved_message_is_exact() {
    assert_eq!(api::msg_position_saved(), "Position enregistrée");
}

#[test]
fn bus_not_found_message_is_exact() {
    assert_eq!(api::msg_bus_not_found(), "Bus introuvable");
}

#[test]
fn stop_message_carries_the_vehicle_id() {
    assert_eq!(api::stop_message("12"), "Partage arrêté pour le bus 12");
    assert_eq!(api::stop_message(""), "Partage arrêté pour le bus ");
}

#[test]
fn service_descriptor_is_valid_json_with_the_endpoints() {
    let text = api::service_descriptor();
    let v: serde_json::Value = serde_json::from_str(&text).expect("descriptor should be JSON");
    assert_eq!(v["message"], serde_json::Value::from("API de suivi de bus en temps réel"));
    assert_eq!(v["version"], serde_json::Value::from("1.0"));
    assert_eq!(v["status"], serde_json::Value::from("active"));
    assert_eq!(v["endpoints"]["post_position"], serde_json::Value::from("POST /api/position"));
    assert_eq!(
        v["endpoints"]["get_position"],
        serde_json::Value::from("GET /api/position/{bus_number}")
    );
    assert_eq!(v["endpoints"]["stop_sharing"], serde_json::Value::from("POST /api/stopSharing"));
    assert_eq!(
        v["endpoints"]["get_line"],
        serde_json::Value::from("GET /api/line/{bus_number}")
    );
}
