use faero::robotics::{CartesianPose, RobotTarget};
use faero::workspace::{
    format_perception_run_entity_detail, format_robot_cell_entity_detail, ordered_target_preview,
    PerceptionRunEntitySummary, RobotCellEntitySummary,
};

fn target(id: &str) -> RobotTarget {
    RobotTarget {
        id: id.to_string(),
        pose: CartesianPose::default(),
        nominal_speed_mm_s: 100,
        dwell_time_ms: 0,
    }
}

#[test]
fn target_preview_joins_ids_in_order() {
    assert_eq!(ordered_target_preview(&[]), "");
    assert_eq!(ordered_target_preview(&[target("pick")]), "pick");
    assert_eq!(
        ordered_target_preview(&[target("approach"), target("pick"), target("place")]),
        "approach -> pick -> place"
    );
}

#[test]
fn perception_run_detail_lists_frames_and_unknowns() {
    let summary = PerceptionRunEntitySummary {
        status: "warning".to_string(),
        frame_count: 2,
        average_coverage_ratio: 0.85_f64.to_bits(),
        unknown_obstacle_count: 1,
        deviation_count: 2,
    };
    assert_eq!(format_perception_run_entity_detail(&summary), "warning | 2 frame(s) | 1 unknown");
}

#[test]
fn robot_cell_detail_shows_blocked_state_and_preview() {
    let mut summary = RobotCellEntitySummary {
        scene_assembly_id: Some("ent_asm_cell_001".to_string()),
        target_preview: Some("a -> b".to_string()),
        target_count: 3,
        path_length_mm: 900.0_f64.to_bits(),
        max_segment_mm: 450.0_f64.to_bits(),
        estimated_cycle_time_ms: 3491,
        equipment_count: 3,
        sequence_count: 1,
        safety_zone_count: 2,
        signal_count: 5,
        controller_transition_count: 4,
        blocked_sequence_detected: true,
        blocked_state_id: None,
        warning_count: 0,
    };
    assert_eq!(
        format_robot_cell_entity_detail(&summary),
        "3 pts | 3 equip | 5 sig | 4 tr | ent_asm_cell_001 | 3491 ms | blocked state | a -> b"
    );
    summary.blocked_sequence_detected = false;
    summary.scene_assembly_id = None;
    summary.target_preview = None;
    assert_eq!(
        format_robot_cell_entity_detail(&summary),
        "3 pts | 3 equip | 5 sig | 4 tr | scene | 3491 ms"
    );
}
