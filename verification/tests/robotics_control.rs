use faero::robotics::{
    summarize_robot_cell_control, validate_robot_cell_control, RobotCellControlModel,
    RobotCellControlSummary, RoboticsError,
};
use faero::types::{
    ControlTransition, ControllerState, ControllerStateMachine, SignalAssignment,
    SignalComparator, SignalCondition, SignalDefinition, SignalKind, SignalValue,
};

fn sample_control_model() -> RobotCellControlModel {
    RobotCellControlModel {
        cell_id: "ent_cell_001".to_string(),
        signals: vec![
            SignalDefinition {
                id: "sig_cycle_start".to_string(),
                name: "Cycle Start".to_string(),
                kind: SignalKind::Boolean,
                initial_value: SignalValue::Bool(false),
                unit: None,
                tags: vec!["control".to_string()],
            },
            SignalDefinition {
                id: "sig_progress_gate".to_string(),
                name: "Progress Gate".to_string(),
                kind: SignalKind::Scalar,
                initial_value: SignalValue::Scalar(0.62f64.to_bits()),
                unit: Some("ratio".to_string()),
                tags: vec!["control".to_string()],
            },
            SignalDefinition {
                id: "sig_safety_clear".to_string(),
                name: "Safety Clear".to_string(),
                kind: SignalKind::Boolean,
                initial_value: SignalValue::Bool(true),
                unit: None,
                tags: vec!["safety".to_string()],
            },
            SignalDefinition {
                id: "sig_payload_released".to_string(),
                name: "Payload Released".to_string(),
                kind: SignalKind::Boolean,
                initial_value: SignalValue::Bool(false),
                unit: None,
                tags: vec!["process".to_string()],
            },
            SignalDefinition {
                id: "sig_operator_mode".to_string(),
                name: "Operator Mode".to_string(),
                kind: SignalKind::Text,
                initial_value: SignalValue::Text("auto".to_string()),
                unit: None,
                tags: vec!["control".to_string(), "text".to_string()],
            },
        ],
        controller: ControllerStateMachine {
            id: "ctrl_001".to_string(),
            name: "Controller 001".to_string(),
            initial_state_id: "idle".to_string(),
            states: vec![
                ControllerState {
                    id: "idle".to_string(),
                    name: "Idle".to_string(),
                    terminal: false,
                },
                ControllerState {
                    id: "transfer".to_string(),
                    name: "Transfer".to_string(),
                    terminal: false,
                },
                ControllerState {
                    id: "place".to_string(),
                    name: "Place".to_string(),
                    terminal: false,
                },
                ControllerState {
                    id: "done".to_string(),
                    name: "Done".to_string(),
                    terminal: true,
                },
            ],
            transitions: vec![
                ControlTransition {
                    id: "tr_start_cycle".to_string(),
                    from_state_id: "idle".to_string(),
                    to_state_id: "transfer".to_string(),
                    conditions: vec![
                        SignalCondition {
                            signal_id: "sig_cycle_start".to_string(),
                            comparator: SignalComparator::Equal,
                            expected_value: SignalValue::Bool(true),
                        },
                        SignalCondition {
                            signal_id: "sig_safety_clear".to_string(),
                            comparator: SignalComparator::Equal,
                            expected_value: SignalValue::Bool(true),
                        },
                    ],
                    assignments: vec![],
                    description: Some("cycle_start_confirmed".to_string()),
                },
                ControlTransition {
                    id: "tr_reach_place".to_string(),
                    from_state_id: "transfer".to_string(),
                    to_state_id: "place".to_string(),
                    conditions: vec![SignalCondition {
                        signal_id: "sig_progress_gate".to_string(),
                        comparator: SignalComparator::GreaterThanOrEqual,
                        expected_value: SignalValue::Scalar(0.55f64.to_bits()),
                    }],
                    assignments: vec![],
                    description: Some("progress_gate_reached".to_string()),
                },
                ControlTransition {
                    id: "tr_finish_cycle".to_string(),
                    from_state_id: "place".to_string(),
                    to_state_id: "done".to_string(),
                    conditions: vec![SignalCondition {
                        signal_id: "sig_progress_gate".to_string(),
                        comparator: SignalComparator::GreaterThanOrEqual,
                        expected_value: SignalValue::Scalar(0.95f64.to_bits()),
                    }],
                    assignments: vec![SignalAssignment {
                        signal_id: "sig_payload_released".to_string(),
                        value: SignalValue::Bool(true),
                    }],
                    description: Some("placement_complete".to_string()),
                },
            ],
        },
    }
}

#[test]
fn control_summary_reports_blocked_initial_state_deterministically() {
    let summary =
        summarize_robot_cell_control(&sample_control_model()).expect("control should validate");

    assert_eq!(
        summary,
        RobotCellControlSummary {
            signal_count: 5,
            controller_transition_count: 3,
            blocked_sequence_detected: true,
            blocked_state_id: Some("idle".to_string()),
        }
    );
}

#[test]
fn control_summary_reaches_terminal_state_when_conditions_are_met() {
    let mut control = sample_control_model();
    control.signals[0].initial_value = SignalValue::Bool(true);
    control.signals[1].initial_value = SignalValue::Scalar(1.0f64.to_bits());

    let summary =
        summarize_robot_cell_control(&control).expect("control should reach terminal");

    assert_eq!(summary.signal_count, 5);
    assert_eq!(summary.controller_transition_count, 3);
    assert!(!summary.blocked_sequence_detected);
    assert_eq!(summary.blocked_state_id, None);
}

#[test]
fn rejects_invalid_signal_values_for_declared_kind() {
    let mut control = sample_control_model();
    control.signals[0].initial_value = SignalValue::Scalar(1.0f64.to_bits());

    assert_eq!(
        validate_robot_cell_control(&control),
        Err(RoboticsError::InvalidSignalValueForKind {
            signal_id: "sig_cycle_start".to_string(),
            expected_kind: SignalKind::Boolean,
            context: "signal.initialValue",
        })
    );

    control = sample_control_model();
    control.controller.transitions[2].assignments[0].value =
        SignalValue::Text("released".to_string());
    assert_eq!(
        validate_robot_cell_control(&control),
        Err(RoboticsError::InvalidSignalValueForKind {
            signal_id: "sig_payload_released".to_string(),
            expected_kind: SignalKind::Boolean,
            context: "assignment.value",
        })
    );
}

#[test]
fn rejects_missing_controller_states_and_signal_references() {
    let mut control = sample_control_model();
    control.controller.initial_state_id = "missing".to_string();
    assert_eq!(
        validate_robot_cell_control(&control),
        Err(RoboticsError::UnknownInitialControllerState(
            "missing".to_string()
        ))
    );

    control = sample_control_model();
    control.controller.transitions[0].to_state_id = "missing".to_string();
    assert_eq!(
        validate_robot_cell_control(&control),
        Err(RoboticsError::UnknownControllerTransitionState {
            transition_id: "tr_start_cycle".to_string(),
            state_id: "missing".to_string(),
        })
    );

    control = sample_control_model();
    control.controller.transitions[1].conditions[0].signal_id = "sig_missing".to_string();
    assert_eq!(
        validate_robot_cell_control(&control),
        Err(RoboticsError::UnknownControllerSignal {
            transition_id: "tr_reach_place".to_string(),
            signal_id: "sig_missing".to_string(),
        })
    );
}

#[test]
fn rejects_incompatible_signal_comparators() {
    let mut control = sample_control_model();
    control.controller.transitions[0].conditions[0].comparator = SignalComparator::GreaterThan;

    assert_eq!(
        validate_robot_cell_control(&control),
        Err(RoboticsError::InvalidSignalComparator {
            transition_id: "tr_start_cycle".to_string(),
            signal_id: "sig_cycle_start".to_string(),
            comparator: SignalComparator::GreaterThan,
            kind: SignalKind::Boolean,
        })
    );
}

#[test]
fn nan_scalars_never_satisfy_ordering_guards() {
    let mut control = sample_control_model();
    control.signals[0].initial_value = SignalValue::Bool(true);
    control.signals[1].initial_value = SignalValue::Scalar(f64::NAN.to_bits());
    let summary = summarize_robot_cell_control(&control).expect("control should validate");
    assert!(summary.blocked_sequence_detected);
    assert_eq!(summary.blocked_state_id, Some("transfer".to_string()));
}

#[test]
fn assignments_feed_later_guards() {
    let mut control = sample_control_model();
    control.signals[0].initial_value = SignalValue::Bool(true);
    control.signals[1].initial_value = SignalValue::Scalar(0.6f64.to_bits());
    let summary = summarize_robot_cell_control(&control).expect("control should validate");
    assert_eq!(summary.blocked_state_id, Some("place".to_string()));
}

#[test]
fn control_model_rejects_blank_and_duplicate_ids() {
    let mut control = sample_control_model();
    control.cell_id = "  ".to_string();
    assert_eq!(
        validate_robot_cell_control(&control),
        Err(RoboticsError::InvalidRobotCellControlModel)
    );
    let mut control = sample_control_model();
    control.signals[2].id = "sig_cycle_start".to_string();
    assert_eq!(
        validate_robot_cell_control(&control),
        Err(RoboticsError::InvalidRobotCellControlModel)
    );
    let mut control = sample_control_model();
    control.controller.states[1].id = "idle".to_string();
    assert_eq!(
        validate_robot_cell_control(&control),
        Err(RoboticsError::InvalidControllerStateMachine)
    );
    let mut control = sample_control_model();
    control.controller.transitions[2].id = "tr_start_cycle".to_string();
    assert_eq!(
        validate_robot_cell_control(&control),
        Err(RoboticsError::InvalidControllerStateMachine)
    );
    let _ = RobotCellControlSummary {
        signal_count: 0,
        controller_transition_count: 0,
        blocked_sequence_detected: false,
        blocked_state_id: None,
    };
}
