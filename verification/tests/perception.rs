use faero::perception::{
    calibrate_scored_rig, check_perception_inputs, perception_error_message, perception_status,
    seeded_sensor_rig, total_point_count, unknown_obstacle_count, PerceptionError,
    PointCloudFrame, SensorKind, SensorRigDefinition,
};

fn quality(sync_skew_ms: f32, residual_mm: f32) -> u32 {
    (1.0 - sync_skew_ms / 50.0 - residual_mm / 10.0).clamp(0.0_f32, 1.0).to_bits()
}

fn calibrate(rig: &SensorRigDefinition, sync_skew_ms: f32, residual_mm: f32) -> Result<faero::perception::CalibrationProfile, PerceptionError> {
    calibrate_scored_rig(rig, sync_skew_ms.to_bits(), residual_mm.to_bits(), quality(sync_skew_ms, residual_mm))
}

fn frame(point_count: u32, coverage_ratio: f32, timestamp_ms: u32, observed_obstacle_count: u32) -> PointCloudFrame {
    PointCloudFrame {
        point_count,
        coverage_ratio: coverage_ratio.to_bits(),
        timestamp_ms,
        observed_obstacle_count,
    }
}

fn sample_frames() -> Vec<PointCloudFrame> {
    vec![frame(1200, 0.80, 0, 2), frame(1500, 0.90, 80, 3)]
}

#[test]
fn seeded_rig_contains_multiple_sensor_kinds() {
    let rig = seeded_sensor_rig("rig_001".to_string(), "Demo Rig".to_string());
    assert_eq!(rig.mounts.len(), 3);
    assert!(rig.mounts.iter().any(|mount| mount.sensor_kind == SensorKind::Lidar3d));
    assert!(rig.mounts.iter().any(|mount| mount.sensor_kind == SensorKind::SafetyLidar));
}

#[test]
fn calibrates_rig_and_surfaces_warning_thresholds() {
    let rig = seeded_sensor_rig("rig_001".to_string(), "Demo Rig".to_string());
    let profile = calibrate(&rig, 9.0, 1.8).expect("calibration should succeed");

    assert_eq!(profile.status, "warning");
    assert_eq!(profile.rig_id, "rig_001");
    assert_eq!(profile.warnings.len(), 2);
    assert!(f32::from_bits(profile.quality_score) < 1.0);
}

#[test]
fn rejects_invalid_rigs_frames_and_calibration_values() {
    let empty_rig = SensorRigDefinition {
        id: "rig_empty".to_string(),
        name: "Empty".to_string(),
        base_frame_id: "world".to_string(),
        mounts: Vec::new(),
    };
    assert_eq!(calibrate(&empty_rig, 1.0, 0.1), Err(PerceptionError::EmptyRig));
    let rig = seeded_sensor_rig("rig_001".to_string(), "Demo Rig".to_string());
    assert_eq!(calibrate(&rig, 90.0, 0.1), Err(PerceptionError::InvalidSyncSkew));
    assert!(calibrate(&rig, 1.0, 0.1).is_ok());
    assert_eq!(check_perception_inputs(&rig, &[]), Err(PerceptionError::EmptyDataset));
    assert_eq!(
        check_perception_inputs(&rig, &[frame(10, 1.2, 0, 0)]),
        Err(PerceptionError::InvalidCoverage)
    );
}

#[test]
fn seeded_rig_places_its_sensors() {
    let rig = seeded_sensor_rig("rig_002".to_string(), "Cell Rig".to_string());
    assert_eq!(rig.base_frame_id, "cell.world");
    let front = &rig.mounts[0];
    assert_eq!(front.offset_mm.map(f32::from_bits), [420.0, 120.0, 1650.0]);
    assert_eq!(front.yaw_pitch_roll_deg.map(f32::from_bits), [0.0, -5.0, 0.0]);
    assert_eq!(f32::from_bits(front.sample_rate_hz), 15.0);
    let camera = &rig.mounts[1];
    assert_eq!(camera.sensor_id, "sensor_cam_overhead");
    assert_eq!(camera.offset_mm.map(f32::from_bits), [0.0, 0.0, 2400.0]);
    assert_eq!(camera.yaw_pitch_roll_deg.map(f32::from_bits), [0.0, -90.0, 0.0]);
    assert_eq!(f32::from_bits(camera.sample_rate_hz), 30.0);
    let safety = &rig.mounts[2];
    assert_eq!(safety.frame_id, "cell.lidar.safety");
    assert_eq!(safety.offset_mm.map(f32::from_bits), [850.0, -300.0, 700.0]);
    assert_eq!(safety.yaw_pitch_roll_deg.map(f32::from_bits), [0.0, 0.0, 180.0]);
    assert_eq!(f32::from_bits(safety.sample_rate_hz), 25.0);
}

#[test]
fn calibration_edges_and_stable_profiles() {
    let rig = seeded_sensor_rig("rig_001".to_string(), "Demo Rig".to_string());
    let stable = calibrate(&rig, 2.5, 0.4).expect("stable calibration");
    assert_eq!(stable.status, "stable");
    assert!(stable.warnings.is_empty());
    assert_eq!(stable.quality_score, quality(2.5, 0.4));
    assert!(calibrate(&rig, 50.0, 0.0).is_ok());
    assert!(calibrate(&rig, 0.0, 0.0).is_ok());
    assert_eq!(calibrate(&rig, -0.1, 0.0), Err(PerceptionError::InvalidSyncSkew));
    assert_eq!(calibrate(&rig, f32::NAN, 0.0), Err(PerceptionError::InvalidSyncSkew));
    assert_eq!(calibrate(&rig, 1.0, -0.5), Err(PerceptionError::InvalidResidual));
    let skew_only = calibrate(&rig, 8.5, 1.5).expect("skew warning");
    assert_eq!(skew_only.warnings, vec!["synchronization drift approaching warning threshold".to_string()]);
    let residual_only = calibrate(&rig, 8.0, 1.6).expect("residual warning");
    assert_eq!(residual_only.warnings, vec!["extrinsic residual above nominal target".to_string()]);
    assert_eq!(perception_error_message(PerceptionError::InvalidResidual), "residual mm must stay non-negative");
}

#[test]
fn run_counts_points_and_unknown_obstacles() {
    let rig = seeded_sensor_rig("rig_001".to_string(), "Demo Rig".to_string());
    let frames = sample_frames();
    assert!(check_perception_inputs(&rig, &frames).is_ok());
    assert_eq!(total_point_count(&frames), 2700);
    assert_eq!(unknown_obstacle_count(&frames, 2), 1);
    assert_eq!(unknown_obstacle_count(&frames, 5), 0);
    assert_eq!(unknown_obstacle_count(&[], 0), 0);
    assert_eq!(perception_status("stable", 0, 3), "clear");
    assert_eq!(perception_status("stable", 1, 3), "warning");
    assert_eq!(perception_status("warning", 0, 0), "review");
}
