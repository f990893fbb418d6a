use faero::robotics::{
    check_sequence_targets, validate_robot_cell_structure, validate_target_models, CartesianPose,
    EquipmentModel, EquipmentParameterSet, EquipmentType, RobotCellModel, RobotCellStructureSummary,
    RobotModel, RobotPayloadLimits, RobotSequenceModel, RobotTarget, RobotTargetModel,
    RobotToolMountRef, RobotWorkspaceBounds, RoboticsError,
};

fn sample_robot_cell_model() -> RobotCellModel {
    RobotCellModel {
        id: "ent_cell_001".to_string(),
        scene_assembly_id: "ent_asm_cell_001".to_string(),
        robot_ids: vec!["ent_robot_001".to_string()],
        equipment_ids: vec![
            "ent_conveyor_001".to_string(),
            "ent_fixture_001".to_string(),
            "ent_tool_001".to_string(),
        ],
        safety_zone_ids: vec![
            "ent_zone_001_warning".to_string(),
            "ent_zone_001_protective".to_string(),
        ],
        sequence_ids: vec!["ent_seq_001".to_string()],
        controller_model_ids: vec!["ent_ctrl_001".to_string()],
    }
}

fn sample_robot_model() -> RobotModel {
    RobotModel {
        id: "ent_robot_001".to_string(),
        cell_id: "ent_cell_001".to_string(),
        kinematic_chain: vec![
            "base".to_string(),
            "shoulder".to_string(),
            "wrist".to_string(),
            "tool".to_string(),
        ],
        joint_ids: vec!["joint_axis_001".to_string()],
        tool_mount_ref: RobotToolMountRef {
            equipment_id: "ent_tool_001".to_string(),
            role: "tool".to_string(),
        },
        workspace_bounds: RobotWorkspaceBounds {
            reach_radius_mm: 1_450.0f64.to_bits(),
            vertical_span_mm: 1_900.0f64.to_bits(),
        },
        payload_limits: RobotPayloadLimits {
            nominal_kg: 8.0f64.to_bits(),
            max_kg: 12.0f64.to_bits(),
        },
        calibration_state: "seeded".to_string(),
    }
}

fn sample_equipment_models() -> Vec<EquipmentModel> {
    vec![
        EquipmentModel {
            id: "ent_conveyor_001".to_string(),
            cell_id: "ent_cell_001".to_string(),
            equipment_type: EquipmentType::Conveyor,
            assembly_occurrence_id: "occ_conveyor_001".to_string(),
            parameter_set: EquipmentParameterSet {
                width_mm: 850.0f64.to_bits(),
                height_mm: 220.0f64.to_bits(),
                depth_mm: 600.0f64.to_bits(),
                nominal_speed_mm_s: Some(320),
            },
            io_port_ids: vec!["sig_cycle_start".to_string()],
        },
        EquipmentModel {
            id: "ent_fixture_001".to_string(),
            cell_id: "ent_cell_001".to_string(),
            equipment_type: EquipmentType::Workstation,
            assembly_occurrence_id: "occ_fixture_001".to_string(),
            parameter_set: EquipmentParameterSet {
                width_mm: 640.0f64.to_bits(),
                height_mm: 180.0f64.to_bits(),
                depth_mm: 480.0f64.to_bits(),
                nominal_speed_mm_s: None,
            },
            io_port_ids: vec!["sig_progress_gate".to_string()],
        },
        EquipmentModel {
            id: "ent_tool_001".to_string(),
            cell_id: "ent_cell_001".to_string(),
            equipment_type: EquipmentType::Gripper,
            assembly_occurrence_id: "occ_tool_001".to_string(),
            parameter_set: EquipmentParameterSet {
                width_mm: 110.0f64.to_bits(),
                height_mm: 80.0f64.to_bits(),
                depth_mm: 140.0f64.to_bits(),
                nominal_speed_mm_s: None,
            },
            io_port_ids: vec!["sig_payload_released".to_string()],
        },
    ]
}

fn sample_robot_sequence_model() -> RobotSequenceModel {
    RobotSequenceModel {
        id: "ent_seq_001".to_string(),
        cell_id: "ent_cell_001".to_string(),
        robot_id: "ent_robot_001".to_string(),
        target_ids: vec![
            "ent_target_001_pick".to_string(),
            "ent_target_001_transfer".to_string(),
            "ent_target_001_place".to_string(),
        ],
        path_length_mm: 896.0f64.to_bits(),
        estimated_cycle_time_ms: 3_491,
    }
}

fn sample_target_models() -> Vec<RobotTargetModel> {
    vec![
        RobotTargetModel {
            id: "ent_target_001_pick".to_string(),
            cell_id: "ent_cell_001".to_string(),
            sequence_id: "ent_seq_001".to_string(),
            target_key: "pick".to_string(),
            order_index: 1,
            pose: CartesianPose {
                x_mm: 0.0f64.to_bits(),
                y_mm: 0.0f64.to_bits(),
                z_mm: 120.0f64.to_bits(),
            },
            nominal_speed_mm_s: 250,
            dwell_time_ms: 120,
        },
        RobotTargetModel {
            id: "ent_target_001_transfer".to_string(),
            cell_id: "ent_cell_001".to_string(),
            sequence_id: "ent_seq_001".to_string(),
            target_key: "transfer".to_string(),
            order_index: 2,
            pose: CartesianPose {
                x_mm: 450.0f64.to_bits(),
                y_mm: 60.0f64.to_bits(),
                z_mm: 240.0f64.to_bits(),
            },
            nominal_speed_mm_s: 320,
            dwell_time_ms: 40,
        },
        RobotTargetModel {
            id: "ent_target_001_place".to_string(),
            cell_id: "ent_cell_001".to_string(),
            sequence_id: "ent_seq_001".to_string(),
            target_key: "place".to_string(),
            order_index: 3,
            pose: CartesianPose {
                x_mm: 860.0f64.to_bits(),
                y_mm: 120.0f64.to_bits(),
                z_mm: 140.0f64.to_bits(),
            },
            nominal_speed_mm_s: 240,
            dwell_time_ms: 160,
        },
    ]
}

#[test]
fn validates_robot_cell_structure_with_consistent_support_graph() {
    let summary = validate_robot_cell_structure(
        &sample_robot_cell_model(),
        &[sample_robot_model()],
        &sample_equipment_models(),
        &[sample_robot_sequence_model()],
    )
    .expect("structure should validate");

    assert_eq!(
        summary,
        RobotCellStructureSummary {
            robot_count: 1,
            equipment_count: 3,
            safety_zone_count: 2,
            sequence_count: 1,
            controller_count: 1,
        }
    );
}

#[test]
fn rejects_robot_cell_structure_with_invalid_refs_or_counts() {
    let mut cell = sample_robot_cell_model();
    cell.equipment_ids.push("ent_fixture_001".to_string());
    assert_eq!(
        validate_robot_cell_structure(
            &cell,
            &[sample_robot_model()],
            &sample_equipment_models(),
            &[sample_robot_sequence_model()],
        ),
        Err(RoboticsError::InvalidRobotCellStructure)
    );

    let mut bad_sequence = sample_robot_sequence_model();
    bad_sequence.robot_id = "ent_robot_missing".to_string();
    assert_eq!(
        validate_robot_cell_structure(
            &sample_robot_cell_model(),
            &[sample_robot_model()],
            &sample_equipment_models(),
            &[bad_sequence],
        ),
        Err(RoboticsError::InvalidRobotSequenceSet)
    );
}

#[test]
fn validates_target_models_and_preserves_ordered_robot_targets() {
    let ordered =
        validate_target_models("ent_cell_001", "ent_seq_001", &sample_target_models())
            .expect("target models should validate");

    assert_eq!(
        ordered
            .iter()
            .map(|target| target.id.as_str())
            .collect::<Vec<_>>(),
        vec!["pick", "transfer", "place"]
    );
    assert_eq!(ordered[1].pose.x_mm, 450.0f64.to_bits());
}

#[test]
fn rejects_target_models_with_duplicate_order_or_invalid_scope() {
    let mut models = sample_target_models();
    models[1].order_index = 1;
    assert_eq!(
        validate_target_models("ent_cell_001", "ent_seq_001", &models),
        Err(RoboticsError::InvalidRobotTargetModelSet)
    );

    let mut wrong_scope = sample_target_models();
    wrong_scope[0].sequence_id = "ent_seq_other".to_string();
    assert_eq!(
        validate_target_models("ent_cell_001", "ent_seq_001", &wrong_scope),
        Err(RoboticsError::InvalidRobotTargetModelSet)
    );
}

#[test]
fn rejects_empty_sequences() {
    assert_eq!(check_sequence_targets(&[]), Err(RoboticsError::EmptySequence));
}

#[test]
fn rejects_duplicate_targets_or_zero_speed() {
    assert_eq!(
        check_sequence_targets(&[
            RobotTarget {
                id: "dup".to_string(),
                pose: CartesianPose::default(),
                nominal_speed_mm_s: 100,
                dwell_time_ms: 0,
            },
            RobotTarget {
                id: "dup".to_string(),
                pose: CartesianPose::default(),
                nominal_speed_mm_s: 100,
                dwell_time_ms: 0,
            },
        ]),
        Err(RoboticsError::InvalidTargetSet)
    );
    assert_eq!(
        check_sequence_targets(&[RobotTarget {
            id: "bad".to_string(),
            pose: CartesianPose::default(),
            nominal_speed_mm_s: 0,
            dwell_time_ms: 0,
        }]),
        Err(RoboticsError::InvalidTargetSet)
    );
}

#[test]
fn rejects_non_finite_target_positions() {
    assert_eq!(
        check_sequence_targets(&[RobotTarget {
            id: "bad_pose".to_string(),
            pose: CartesianPose {
                x_mm: f64::NAN.to_bits(),
                y_mm: 0.0f64.to_bits(),
                z_mm: 0.0f64.to_bits(),
            },
            nominal_speed_mm_s: 100,
            dwell_time_ms: 0,
        }]),
        Err(RoboticsError::InvalidPose)
    );
}

#[test]
fn target_models_are_sorted_by_order_index_whatever_the_input_order() {
    let mut models = sample_target_models();
    models.reverse();
    let ordered = validate_target_models("ent_cell_001", "ent_seq_001", &models).expect("valid");
    assert_eq!(
        ordered.iter().map(|target| target.id.as_str()).collect::<Vec<_>>(),
        vec!["pick", "transfer", "place"]
    );
    assert_eq!(ordered[0].dwell_time_ms, 120);
    assert_eq!(ordered[2].nominal_speed_mm_s, 240);
}

#[test]
fn target_models_reject_empty_zero_order_and_bad_pose() {
    assert_eq!(
        validate_target_models("ent_cell_001", "ent_seq_001", &[]),
        Err(RoboticsError::EmptySequence)
    );
    let mut zero = sample_target_models();
    zero[0].order_index = 0;
    assert_eq!(
        validate_target_models("ent_cell_001", "ent_seq_001", &zero),
        Err(RoboticsError::InvalidRobotTargetModelSet)
    );
    let mut bad_pose = sample_target_models();
    bad_pose[2].pose.z_mm = f64::INFINITY.to_bits();
    assert_eq!(
        validate_target_models("ent_cell_001", "ent_seq_001", &bad_pose),
        Err(RoboticsError::InvalidPose)
    );
}

#[test]
fn structure_rejects_bad_robot_equipment_and_sequence_models() {
    let mut heavy = sample_robot_model();
    heavy.payload_limits.max_kg = 4.0f64.to_bits();
    assert_eq!(
        validate_robot_cell_structure(
            &sample_robot_cell_model(),
            &[heavy],
            &sample_equipment_models(),
            &[sample_robot_sequence_model()],
        ),
        Err(RoboticsError::InvalidRobotModelSet)
    );

    let mut flat = sample_equipment_models();
    flat[1].parameter_set.height_mm = (-0.0f64).to_bits();
    assert_eq!(
        validate_robot_cell_structure(
            &sample_robot_cell_model(),
            &[sample_robot_model()],
            &flat,
            &[sample_robot_sequence_model()],
        ),
        Err(RoboticsError::InvalidEquipmentModelSet)
    );

    let mut nan_path = sample_robot_sequence_model();
    nan_path.path_length_mm = f64::NAN.to_bits();
    assert_eq!(
        validate_robot_cell_structure(
            &sample_robot_cell_model(),
            &[sample_robot_model()],
            &sample_equipment_models(),
            &[nan_path],
        ),
        Err(RoboticsError::InvalidRobotSequenceSet)
    );

    assert_eq!(
        validate_robot_cell_structure(
            &sample_robot_cell_model(),
            &[],
            &sample_equipment_models(),
            &[sample_robot_sequence_model()],
        ),
        Err(RoboticsError::InvalidRobotModelSet)
    );
}

#[test]
fn sequence_checks_accept_a_valid_sequence() {
    let targets = vec![
        RobotTarget { id: "a".to_string(), pose: CartesianPose::default(), nominal_speed_mm_s: 10, dwell_time_ms: 0 },
        RobotTarget { id: "b".to_string(), pose: CartesianPose::default(), nominal_speed_mm_s: 10, dwell_time_ms: 5 },
    ];
    assert_eq!(check_sequence_targets(&targets), Ok(()));
}
