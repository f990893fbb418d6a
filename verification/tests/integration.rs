use faero::integration::{
    degraded_wireless_profile, stub_bluetooth_endpoint, stub_opcua_endpoint, stub_plc_endpoint,
    stub_robot_controller_endpoint, stub_ros2_endpoint, stub_wifi_endpoint,
    IntegrationStubRegistry, LinkDegradationProfile, NetworkCaptureDataset,
};
use faero::project::LinkMetrics;

fn wifi_trace() -> NetworkCaptureDataset {
    NetworkCaptureDataset {
        id: "trace_wifi_001".to_string(),
        endpoint_id: "ext_wifi_001".to_string(),
        capture_type: "pcap".to_string(),
        timestamp_range: "2026-04-06T00:00:00Z/2026-04-06T00:00:10Z".to_string(),
        asset_refs: vec![
            "assets/blobs/trace_wifi_001.pcap".to_string(),
            "assets/blobs/trace_wifi_001.sidecar.json".to_string(),
        ],
        link_metrics: LinkMetrics {
            latency_ms: Some(20),
            ..LinkMetrics::default()
        },
        status: "ready".to_string(),
    }
}

#[test]
fn seeded_registry_contains_requested_stubs() {
    let registry = IntegrationStubRegistry::seeded();

    assert_eq!(registry.endpoint_count(), 6);
    assert_eq!(
        registry.endpoint("ext_ros2_001").map(|endpoint| &endpoint.name),
        Some(&"ROS2 Bridge".to_string())
    );
    assert_eq!(
        registry
            .endpoint("ext_robot_001")
            .map(|endpoint| endpoint.transport_profile.transport_kind.as_str()),
        Some("robot_controller")
    );
    assert_eq!(
        registry
            .endpoint("ext_ble_001")
            .map(|endpoint| endpoint.transport_profile.transport_kind.as_str()),
        Some("bluetooth_le")
    );
}

#[test]
fn link_degradation_increases_latency_and_drop_rate() {
    let registry = IntegrationStubRegistry::seeded();
    let metrics = registry
        .simulate_link("ext_wifi_001", Some(&degraded_wireless_profile()))
        .expect("wifi endpoint should exist");

    assert_eq!(metrics.drop_rate.map(f64::from_bits), Some(0.05));
    assert_eq!(metrics.latency_ms, Some(138));
}

#[test]
fn replay_trace_returns_basic_report() {
    let mut registry = IntegrationStubRegistry::seeded();
    registry.register_trace(wifi_trace());

    let report = registry
        .replay_trace("trace_wifi_001", Some(&degraded_wireless_profile()))
        .expect("trace should replay");

    assert_eq!(report.sample_count, 2);
    assert!(report.replayable);
    assert!(report.degraded);
    assert_eq!(report.effective_metrics.latency_ms, Some(140));
}

#[test]
fn simulate_link_returns_live_metrics_and_none_for_unknown_endpoint() {
    let registry = IntegrationStubRegistry::seeded();

    let live_metrics = registry
        .simulate_link("ext_wifi_001", None)
        .expect("wifi endpoint should exist");
    assert_eq!(live_metrics.latency_ms, Some(18));
    assert_eq!(live_metrics.drop_rate.map(f64::from_bits), Some(0.0));

    assert!(registry.simulate_link("missing.endpoint", None).is_none());
}

#[test]
fn replay_trace_returns_none_when_trace_is_missing() {
    let registry = IntegrationStubRegistry::seeded();
    assert!(registry.replay_trace("missing.trace", None).is_none());
}

#[test]
fn binding_report_counts_registered_bindings() {
    let registry = IntegrationStubRegistry::seeded();
    let report = registry
        .binding_report("ext_plc_001")
        .expect("plc endpoint should exist");

    assert_eq!(report.binding_count, 1);
    assert_eq!(report.invalid_binding_count, 0);
}

#[test]
fn stub_factories_produce_expected_transport_kinds() {
    assert_eq!(stub_ros2_endpoint().transport_profile.transport_kind, "ros2");
    assert_eq!(stub_opcua_endpoint().transport_profile.transport_kind, "opcua");
    assert_eq!(stub_plc_endpoint().transport_profile.transport_kind, "plc");
    assert_eq!(
        stub_robot_controller_endpoint().transport_profile.transport_kind,
        "robot_controller"
    );
    assert_eq!(stub_wifi_endpoint().transport_profile.transport_kind, "wifi");
    assert_eq!(stub_bluetooth_endpoint().transport_profile.transport_kind, "bluetooth_le");
}

#[test]
fn malformed_controller_bindings_are_counted() {
    let mut registry = IntegrationStubRegistry::seeded();
    registry.register_binding("ext_plc_001", "plc.cycle_stop");
    registry.register_binding("ext_robot_001", "program-status");
    registry.register_binding("ext_wifi_001", "telemetry-status");

    let plc = registry.binding_report("ext_plc_001").expect("plc endpoint");
    assert_eq!(plc.binding_count, 2);
    assert_eq!(plc.invalid_binding_count, 1);
    let robot = registry.binding_report("ext_robot_001").expect("robot endpoint");
    assert_eq!(robot.invalid_binding_count, 1);
    let wifi = registry.binding_report("ext_wifi_001").expect("wifi endpoint");
    assert_eq!(wifi.binding_count, 2);
    assert_eq!(wifi.invalid_binding_count, 0);
    assert!(registry.binding_report("ext_missing").is_none());
}

#[test]
fn degradation_divides_bandwidth_and_lowers_signal_strength() {
    let registry = IntegrationStubRegistry::seeded();
    let metrics = registry
        .simulate_link("ext_ble_001", Some(&degraded_wireless_profile()))
        .expect("ble endpoint should exist");
    assert_eq!(metrics.latency_ms, Some(155));
    assert_eq!(metrics.jitter_ms, Some(35));
    assert_eq!(metrics.rssi_dbm, Some(-77));
    assert_eq!(metrics.bandwidth_kbps, Some(85));

    let zero_divider = LinkDegradationProfile {
        latency_penalty_ms: 0,
        jitter_penalty_ms: 0,
        drop_rate: 0.5_f64.to_bits(),
        rssi_penalty_dbm: 0,
        bandwidth_divider: 0,
    };
    let unchanged = registry
        .simulate_link("ext_plc_001", Some(&zero_divider))
        .expect("plc endpoint should exist");
    assert_eq!(unchanged.bandwidth_kbps, Some(1000));
    assert_eq!(unchanged.rssi_dbm, None);
    assert_eq!(unchanged.drop_rate.map(f64::from_bits), Some(0.5));
}

#[test]
fn registering_an_endpoint_again_replaces_it() {
    let mut registry = IntegrationStubRegistry::default();
    registry.register_endpoint(stub_plc_endpoint());
    let mut renamed = stub_plc_endpoint();
    renamed.name = "PLC Renamed".to_string();
    registry.register_endpoint(renamed);
    assert_eq!(registry.endpoint_count(), 1);
    assert_eq!(registry.endpoint("ext_plc_001").map(|e| e.name.as_str()), Some("PLC Renamed"));

    let replay = registry.replay_trace("trace_wifi_001", None);
    assert!(replay.is_none());
    registry.register_trace(wifi_trace());
    let replay = registry.replay_trace("trace_wifi_001", None).expect("trace registered");
    assert!(!replay.degraded);
    assert_eq!(replay.effective_metrics.latency_ms, Some(20));
    assert_eq!(replay.capture_id, "trace_wifi_001");
}
