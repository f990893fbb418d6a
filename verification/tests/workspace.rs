use faero::assembly::{AssemblySolveStatus, JointType, MateType, Transform3D};
use faero::geometry::SketchConstraintState;
use faero::safety::{SafetyStatus, SafetyZoneKind};
use faero::sim::SimulationStatus;
use faero::text::{decimal_string, padded_decimal};
use faero::types::{SignalComparator, SignalKind, SignalValue};
use faero::workspace::{
    assembly_joint_type_label, assembly_solve_status_label, endpoint_address_label,
    format_assembly_entity_detail, format_safety_report_entity_detail, open_spec_excerpt,
    robot_cell_contact_pairs, robot_cell_control_model, robot_cell_control_summary,
    robot_cell_controller_entity_id, robot_cell_controller_state_machine,
    robot_cell_equipment_entity_id, robot_cell_model, robot_cell_occurrence_id,
    robot_cell_part_entity_id, robot_cell_robot_entity_id, robot_cell_safety_zone_entity_id,
    robot_cell_scene_assembly_entity_id, robot_cell_scene_mates, robot_cell_scene_occurrences,
    robot_cell_sequence_entity_id, robot_cell_signal_definitions, robot_cell_signal_entity_id,
    robot_cell_target_entity_id, robot_cell_token, safety_status_label, sample_plugin_manifest,
    sample_safety_interlocks, sample_safety_zones, sanitize_path_segment,
    simulation_status_label, sketch_constraint_state_label, AssemblyEntitySummary,
    SafetyReportEntitySummary,
};

#[test]
fn path_segments_keep_safe_characters_only() {
    assert_eq!(sanitize_path_segment("pick-and-place-demo.faero"), "pick-and-place-demo_faero");
    assert_eq!(sanitize_path_segment("fixture:test"), "fixture_test");
    assert_eq!(sanitize_path_segment("__a b__"), "a_b");
    assert_eq!(sanitize_path_segment("///"), "workspace");
    assert_eq!(sanitize_path_segment(""), "workspace");
    assert_eq!(sanitize_path_segment("été"), "t");
}

#[test]
fn endpoint_labels_cover_every_address_shape() {
    assert_eq!(endpoint_address_label(Some("edge.local"), Some(9001), Some("/telemetry"), None), "edge.local:9001/telemetry");
    assert_eq!(endpoint_address_label(Some("edge.local"), Some(0), None, Some("dev")), "edge.local:0");
    assert_eq!(endpoint_address_label(Some("edge.local"), None, Some("/t"), None), "edge.local/t");
    assert_eq!(endpoint_address_label(Some("edge.local"), None, None, None), "edge.local");
    assert_eq!(endpoint_address_label(None, Some(80), None, Some("ble:01")), "ble:01");
    assert_eq!(endpoint_address_label(None, None, None, None), "n/a");
}

#[test]
fn open_spec_excerpt_takes_the_first_filled_line() {
    assert_eq!(open_spec_excerpt("## Intent\nCellule lisible en clair.\n"), "Intent");
    assert_eq!(open_spec_excerpt("\n   \r\n  Plain line  \nnext"), "Plain line");
    assert_eq!(open_spec_excerpt("###"), "");
    assert_eq!(open_spec_excerpt(" \n\t\n"), "Document OpenSpec sans contenu");
    assert_eq!(open_spec_excerpt(""), "Document OpenSpec sans contenu");
}

#[test]
fn labels_are_snake_case() {
    assert_eq!(sketch_constraint_state_label(SketchConstraintState::UnderConstrained), "under_constrained");
    assert_eq!(sketch_constraint_state_label(SketchConstraintState::WellConstrained), "well_constrained");
    assert_eq!(sketch_constraint_state_label(SketchConstraintState::OverConstrained), "over_constrained");
    assert_eq!(assembly_solve_status_label(AssemblySolveStatus::Solved), "solved");
    assert_eq!(assembly_solve_status_label(AssemblySolveStatus::Conflicting), "conflicting");
    assert_eq!(assembly_joint_type_label(JointType::Fixed), "fixed");
    assert_eq!(assembly_joint_type_label(JointType::Revolute), "revolute");
    assert_eq!(assembly_joint_type_label(JointType::Prismatic), "prismatic");
    assert_eq!(simulation_status_label(&SimulationStatus::Completed), "completed");
    assert_eq!(simulation_status_label(&SimulationStatus::Warning), "warning");
    assert_eq!(simulation_status_label(&SimulationStatus::Collided), "collided");
    assert_eq!(safety_status_label(&SafetyStatus::Clear), "clear");
    assert_eq!(safety_status_label(&SafetyStatus::Warning), "warning");
    assert_eq!(safety_status_label(&SafetyStatus::Blocked), "blocked");
}

#[test]
fn robot_cell_ids_derive_from_the_cell_token() {
    assert_eq!(robot_cell_token("ent_cell_001"), "001");
    assert_eq!(robot_cell_token("custom"), "custom");
    assert_eq!(robot_cell_scene_assembly_entity_id("ent_cell_001"), "ent_asm_cell_001");
    assert_eq!(robot_cell_part_entity_id("ent_cell_001", "robot"), "ent_part_robot_001");
    assert_eq!(robot_cell_occurrence_id("tool"), "occ_tool_001");
    assert_eq!(robot_cell_robot_entity_id("ent_cell_001"), "ent_robot_001");
    assert_eq!(robot_cell_equipment_entity_id("ent_cell_001", "conveyor"), "ent_conveyor_001");
    assert_eq!(robot_cell_sequence_entity_id("ent_cell_001"), "ent_seq_001");
    assert_eq!(robot_cell_target_entity_id("ent_cell_001", "pick"), "ent_target_001_pick");
    assert_eq!(robot_cell_safety_zone_entity_id("ent_cell_001", "warning"), "ent_zone_001_warning");
    assert_eq!(robot_cell_controller_entity_id("ent_cell_001"), "ent_ctrl_001");
    assert_eq!(robot_cell_signal_entity_id("ent_cell_001", "cycle_start"), "ent_sig_001_cycle_start");
}

#[test]
fn generated_control_model_validates_and_blocks_in_idle() {
    let signals = robot_cell_signal_definitions(true);
    assert_eq!(signals.len(), 5);
    assert_eq!(signals[1].kind, SignalKind::Scalar);
    assert_eq!(signals[1].initial_value, SignalValue::Scalar(0.62f64.to_bits()));
    assert_eq!(signals[4].initial_value, SignalValue::Text("auto".to_string()));
    let controller = robot_cell_controller_state_machine("ent_cell_001");
    assert_eq!(controller.id, "ctrl_001");
    assert_eq!(controller.name, "Controller 001");
    assert_eq!(controller.transitions[1].conditions[0].comparator, SignalComparator::GreaterThanOrEqual);
    assert_eq!(controller.transitions[2].conditions[0].expected_value, SignalValue::Scalar(0.95f64.to_bits()));

    let model = robot_cell_control_model("ent_cell_001", true);
    let summary = robot_cell_control_summary(&model).expect("control should validate");
    assert_eq!(summary.signal_count, 5);
    assert_eq!(summary.controller_transition_count, 3);
    assert!(summary.blocked_sequence_detected);
    assert_eq!(summary.blocked_state_id.as_deref(), Some("idle"));
}

#[test]
fn generated_cell_structure_and_scene_are_consistent() {
    let zones = sample_safety_zones();
    assert_eq!(zones[0].kind, SafetyZoneKind::Warning);
    assert!(!zones[1].active);
    let interlocks = sample_safety_interlocks();
    assert!(interlocks[1].requires_manual_reset);
    let cell = robot_cell_model("ent_cell_001", &zones);
    assert_eq!(cell.safety_zone_ids, vec!["ent_zone_001_warning".to_string(), "ent_zone_001_protective".to_string()]);
    assert_eq!(
        cell.equipment_ids,
        vec!["ent_conveyor_001".to_string(), "ent_fixture_001".to_string(), "ent_tool_001".to_string()]
    );

    let occurrences = robot_cell_scene_occurrences("ent_cell_001");
    assert_eq!(occurrences[0].transform, Transform3D::default());
    assert_eq!(f64::from_bits(occurrences[2].transform.y_mm), -140.0);
    assert_eq!(occurrences[3].definition_entity_id, "ent_part_tool_001");
    let mates = robot_cell_scene_mates();
    assert_eq!(mates[1].mate_type, MateType::Offset { distance_mm: 360.0f64.to_bits() });
    assert_eq!(mates[2].right_occurrence_id, "occ_tool_001");

    let pairs = robot_cell_contact_pairs("ent_cell_001");
    assert_eq!(pairs[0].id, "pair_001_tool_fixture");
    assert_eq!(pairs[1].right_entity_id, "ent_conveyor_001");
    assert_eq!(f64::from_bits(pairs[1].base_clearance_mm), 0.36);
}

#[test]
fn entity_details_read_as_one_line() {
    let assembly = AssemblyEntitySummary {
        status: "solved".to_string(),
        occurrence_count: 4,
        mate_count: 3,
        joint_count: 0,
        joint_state_summary: None,
        degrees_of_freedom_estimate: 0,
        warning_count: 0,
    };
    assert_eq!(
        format_assembly_entity_detail(&assembly),
        "solved | 4 occ | 3 mates | 0 joints | no joint state | 0 ddl"
    );
    let safety = SafetyReportEntitySummary {
        status: "warning".to_string(),
        inhibited: false,
        active_zone_count: 1,
        blocking_interlock_count: 12,
        advisory_zone_count: 1,
    };
    assert_eq!(format_safety_report_entity_detail(&safety), "warning | 1 active | 12 block");
}

#[test]
fn numbers_print_in_decimal_with_padding() {
    assert_eq!(decimal_string(0), "0");
    assert_eq!(decimal_string(9001), "9001");
    assert_eq!(decimal_string(u64::MAX), u64::MAX.to_string());
    assert_eq!(padded_decimal(7, 3), "007");
    assert_eq!(padded_decimal(1234, 3), "1234");
    let manifest = sample_plugin_manifest(2, "plg.desktop.runtime");
    assert_eq!(manifest.id, "ent_plugin_002");
    assert_eq!(manifest.permissions, vec!["project.read".to_string(), "plugin.ui.mount".to_string()]);
}
