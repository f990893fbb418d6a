use faero::commissioning::{
    build_commissioning_report, max_abs_deviation, start_commissioning_session,
    AsBuiltMeasurement, CommissioningCapture,
};

fn measurement(id: &str, target_id: &str, deviation_mm: f32, tolerance_mm: f32, capture: &str) -> AsBuiltMeasurement {
    AsBuiltMeasurement {
        id: id.to_string(),
        target_id: target_id.to_string(),
        deviation_mm: deviation_mm.to_bits(),
        tolerance_mm: tolerance_mm.to_bits(),
        source_capture_id: capture.to_string(),
    }
}

fn sample_measurements() -> Vec<AsBuiltMeasurement> {
    vec![
        measurement("m1", "fixture_a", 0.5, 1.0, "cap_001"),
        measurement("m2", "fixture_b", 1.5, 1.0, "cap_002"),
    ]
}

fn capture(id: &str) -> CommissioningCapture {
    CommissioningCapture {
        id: id.to_string(),
        source: "wifi".to_string(),
        capture_type: "point_cloud".to_string(),
        asset_ref: format!("captures/{id}.pcd"),
    }
}

#[test]
fn starts_a_commissioning_session_with_adjustment_journal() {
    let session = start_commissioning_session("com_001".to_string(), vec![capture("cap_001")]);

    assert_eq!(session.session_id, "com_001");
    assert_eq!(session.status, "capturing");
    assert!(f32::from_bits(session.progress_ratio) > 0.35);
    assert_eq!(session.adjustments.len(), 2);
}

#[test]
fn counts_measurements_within_tolerance() {
    let report = build_commissioning_report(&sample_measurements());

    assert_eq!(report.accepted_count, 1);
    assert_eq!(report.rejected_count, 1);
}

#[test]
fn treats_negative_deviation_as_valid_when_within_tolerance() {
    let report = build_commissioning_report(&[measurement("m1", "fixture_a", -0.7, 1.0, "cap_001")]);

    assert_eq!(report.accepted_count, 1);
    assert_eq!(report.rejected_count, 0);
}

#[test]
fn empty_measurement_sets_give_an_empty_report() {
    let report = build_commissioning_report(&[]);
    assert_eq!(report.accepted_count, 0);
    assert_eq!(report.rejected_count, 0);
    assert_eq!(f32::from_bits(max_abs_deviation(&[])), 0.0);
}

#[test]
fn progress_follows_the_capture_count_in_f32() {
    for count in 0..6usize {
        let captures = (0..count).map(|index| capture(&format!("cap_{index:03}"))).collect::<Vec<_>>();
        let session = start_commissioning_session("com_002".to_string(), captures);
        let expected = if count == 0 {
            0.2_f32
        } else {
            (0.35_f32 + count as f32 * 0.25).min(1.0)
        };
        assert_eq!(session.progress_ratio, expected.to_bits(), "captures: {count}");
        assert_eq!(session.captures.len(), count);
        assert_eq!(session.status, if count == 0 { "open" } else { "capturing" });
    }
    let session = start_commissioning_session("com_003".to_string(), Vec::new());
    assert_eq!(session.adjustments[0].id, "adj_001");
    assert_eq!(session.adjustments[0].status, "done");
    assert_eq!(session.adjustments[1].target_id, "sensor_rig.main");
    assert_eq!(session.adjustments[1].action, "review lidar extrinsics");
    assert_eq!(session.adjustments[1].status, "pending");
}

#[test]
fn nan_and_negative_tolerances_reject_and_zero_matches_zero() {
    let report = build_commissioning_report(&[
        measurement("m1", "a", f32::NAN, 1.0, "c"),
        measurement("m2", "b", 0.1, f32::NAN, "c"),
        measurement("m3", "c", 0.1, -1.0, "c"),
        measurement("m4", "d", -0.0, 0.0, "c"),
        measurement("m5", "e", 0.0, -0.0, "c"),
        measurement("m6", "f", 1.0, 1.0, "c"),
        measurement("m7", "g", f32::INFINITY, f32::INFINITY, "c"),
    ]);
    assert_eq!(report.accepted_count, 4);
    assert_eq!(report.rejected_count, 3);
}

#[test]
fn largest_absolute_deviation_skips_nan() {
    let measurements = vec![
        measurement("m1", "a", -2.5, 1.0, "c"),
        measurement("m2", "b", f32::NAN, 1.0, "c"),
        measurement("m3", "c", 1.25, 1.0, "c"),
    ];
    assert_eq!(f32::from_bits(max_abs_deviation(&measurements)), 2.5);
    let expected = measurements
        .iter()
        .map(|m| f32::from_bits(m.deviation_mm).abs())
        .fold(0.0_f32, f32::max);
    assert_eq!(max_abs_deviation(&measurements), expected.to_bits());
}
