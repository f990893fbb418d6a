use faero::sim::{
    simulate_trace, simulation_status, sorted_changes, step_timestamp_ms, ScheduledSignalChange,
    SimulationContactPair, SimulationError, SimulationRequest, SimulationStatus, SimulationTrace,
};
use faero::types::{
    ControlTransition, ControllerState, ControllerStateMachine, SignalAssignment,
    SignalComparator, SignalCondition, SignalDefinition, SignalKind, SignalValue,
};

fn nominal_request() -> SimulationRequest {
    SimulationRequest {
        scenario_name: "pick-and-place".to_string(),
        seed: 42,
        engine_version: "faero-sim@0.2.0".to_string(),
        step_count: 10,
        planned_cycle_time_ms: 3_640,
        path_length_mm: 890.0f64.to_bits(),
        endpoint_count: 1,
        safety_zone_count: 1,
        signals: Vec::new(),
        controller: None,
        scheduled_signal_changes: Vec::new(),
        contact_pairs: Vec::new(),
    }
}

fn simple_controller() -> ControllerStateMachine {
    ControllerStateMachine {
        id: "ctrl_pick".to_string(),
        name: "Pick Controller".to_string(),
        initial_state_id: "idle".to_string(),
        states: vec![
            ControllerState { id: "idle".to_string(), name: "Idle".to_string(), terminal: false },
            ControllerState { id: "done".to_string(), name: "Done".to_string(), terminal: true },
        ],
        transitions: vec![ControlTransition {
            id: "tr_cycle_start".to_string(),
            from_state_id: "idle".to_string(),
            to_state_id: "done".to_string(),
            conditions: vec![SignalCondition {
                signal_id: "sig_cycle_start".to_string(),
                comparator: SignalComparator::Equal,
                expected_value: SignalValue::Bool(true),
            }],
            assignments: vec![SignalAssignment {
                signal_id: "sig_part_present".to_string(),
                value: SignalValue::Bool(false),
            }],
            description: Some("cycle completed".to_string()),
        }],
    }
}

fn signal(id: &str, name: &str, value: bool, tag: &str) -> SignalDefinition {
    SignalDefinition {
        id: id.to_string(),
        name: name.to_string(),
        kind: SignalKind::Boolean,
        initial_value: SignalValue::Bool(value),
        unit: None,
        tags: vec![tag.to_string()],
    }
}

fn status_of(trace: &SimulationTrace) -> SimulationStatus {
    simulation_status(trace.collision_count, trace.blocked_sequence_detected, false)
}

fn same_trace(a: &SimulationTrace, b: &SimulationTrace) -> bool {
    a.seed == b.seed
        && a.engine_version == b.engine_version
        && a.cycle_time_ms == b.cycle_time_ms
        && a.collision_count == b.collision_count
        && a.blocked_sequence_detected == b.blocked_sequence_detected
        && a.blocked_state_id == b.blocked_state_id
        && a.signal_samples == b.signal_samples
        && a.controller_state_samples == b.controller_state_samples
        && a.contacts == b.contacts
}

#[test]
fn run_simulation_is_deterministic_for_a_seed() {
    let request = nominal_request();

    let first = simulate_trace(&request).expect("simulation should run");
    let second = simulate_trace(&request).expect("simulation should run twice");

    assert!(same_trace(&first, &second));
    assert_eq!(status_of(&first), SimulationStatus::Completed);
    assert_eq!(first.seed, 42);
    assert_eq!(first.engine_version, "faero-sim@0.2.0");
    assert_eq!(first.collision_count, 0);
    assert_eq!(first.cycle_time_ms, 3_655);
}

#[test]
fn different_seeds_produce_different_results() {
    let first = simulate_trace(&SimulationRequest { seed: 1, ..nominal_request() }).expect("simulation should run");
    let second = simulate_trace(&SimulationRequest { seed: 2, ..nominal_request() }).expect("simulation should run");

    assert!(!same_trace(&first, &second));
}

#[test]
fn controller_can_advance_to_a_terminal_state() {
    let summary = simulate_trace(&SimulationRequest {
        signals: vec![
            signal("sig_cycle_start", "Cycle Start", false, "control"),
            signal("sig_part_present", "Part Present", true, "process"),
        ],
        controller: Some(simple_controller()),
        scheduled_signal_changes: vec![ScheduledSignalChange {
            step_index: 2,
            signal_id: "sig_cycle_start".to_string(),
            value: SignalValue::Bool(true),
            reason: "operator_start".to_string(),
        }],
        ..nominal_request()
    })
    .expect("simulation should run");

    assert!(!summary.blocked_sequence_detected);
    assert_eq!(
        summary.controller_state_samples.last().map(|sample| sample.state_id.as_str()),
        Some("done")
    );
    assert!(summary
        .signal_samples
        .iter()
        .any(|sample| sample.signal_id == "sig_part_present" && sample.value == SignalValue::Bool(false)));
}

#[test]
fn detects_a_blocked_sequence_when_transition_never_fires() {
    let summary = simulate_trace(&SimulationRequest {
        signals: vec![signal("sig_cycle_start", "Cycle Start", false, "control")],
        controller: Some(simple_controller()),
        ..nominal_request()
    })
    .expect("simulation should run");

    assert_eq!(status_of(&summary), SimulationStatus::Warning);
    assert!(summary.blocked_sequence_detected);
    assert_eq!(summary.blocked_state_id.as_deref(), Some("idle"));
}

#[test]
fn missing_safety_can_produce_a_collision_state() {
    let summary = simulate_trace(&SimulationRequest {
        safety_zone_count: 0,
        seed: 6,
        contact_pairs: vec![SimulationContactPair {
            id: "pair_conveyor".to_string(),
            left_entity_id: "ent_tool_001".to_string(),
            right_entity_id: "ent_conveyor_001".to_string(),
            base_clearance_mm: 0.4f64.to_bits(),
        }],
        ..nominal_request()
    })
    .expect("simulation should run");

    assert_eq!(status_of(&summary), SimulationStatus::Collided);
    assert!(summary.collision_count > 0);
    assert_eq!(summary.contacts.len(), summary.collision_count as usize);
    assert_eq!(summary.contacts[0].pair.id, "pair_conveyor");
}

#[test]
fn rejects_zero_step_runs() {
    assert_eq!(
        simulate_trace(&SimulationRequest {
            scenario_name: "invalid".to_string(),
            seed: 0,
            engine_version: "faero-sim@0.2.0".to_string(),
            step_count: 0,
            planned_cycle_time_ms: 100,
            path_length_mm: 10.0f64.to_bits(),
            endpoint_count: 0,
            safety_zone_count: 0,
            signals: Vec::new(),
            controller: None,
            scheduled_signal_changes: Vec::new(),
            contact_pairs: Vec::new(),
        })
        .err(),
        Some(SimulationError::InvalidStepCount)
    );
}

#[test]
fn rejects_invalid_cycle_time_and_path_length() {
    assert_eq!(
        simulate_trace(&SimulationRequest { planned_cycle_time_ms: 0, ..nominal_request() }).err(),
        Some(SimulationError::InvalidCycleTime)
    );
    assert_eq!(
        simulate_trace(&SimulationRequest { path_length_mm: (-1.0f64).to_bits(), ..nominal_request() }).err(),
        Some(SimulationError::InvalidPathLength)
    );
}

#[test]
fn non_finite_path_lengths_are_rejected() {
    for bad in [f64::NAN, f64::INFINITY, f64::NEG_INFINITY] {
        assert_eq!(
            simulate_trace(&SimulationRequest { path_length_mm: bad.to_bits(), ..nominal_request() }).err(),
            Some(SimulationError::InvalidPathLength)
        );
    }
    assert!(simulate_trace(&SimulationRequest { path_length_mm: (-0.0f64).to_bits(), ..nominal_request() }).is_ok());
}

#[test]
fn blank_engine_version_falls_back_to_the_default() {
    let trace = simulate_trace(&SimulationRequest { engine_version: "  ".to_string(), ..nominal_request() })
        .expect("simulation should run");
    assert_eq!(trace.engine_version, "faero-sim@0.2.0");
    let trace = simulate_trace(&SimulationRequest { engine_version: "custom@1".to_string(), ..nominal_request() })
        .expect("simulation should run");
    assert_eq!(trace.engine_version, "custom@1");
}

#[test]
fn unknown_controller_states_are_reported() {
    let mut controller = simple_controller();
    controller.initial_state_id = "nowhere".to_string();
    assert_eq!(
        simulate_trace(&SimulationRequest { controller: Some(controller), ..nominal_request() }).err(),
        Some(SimulationError::UnknownInitialState("nowhere".to_string()))
    );

    let mut controller = simple_controller();
    controller.transitions[0].to_state_id = "ghost".to_string();
    controller.transitions[0].conditions.clear();
    assert_eq!(
        simulate_trace(&SimulationRequest { controller: Some(controller), ..nominal_request() }).err(),
        Some(SimulationError::UnknownTransitionState {
            transition_id: "tr_cycle_start".to_string(),
            state_id: "ghost".to_string(),
        })
    );
}

#[test]
fn samples_follow_the_schedule_and_the_transition() {
    let trace = simulate_trace(&SimulationRequest {
        signals: vec![
            signal("sig_cycle_start", "Cycle Start", false, "control"),
            signal("sig_part_present", "Part Present", true, "process"),
        ],
        controller: Some(simple_controller()),
        scheduled_signal_changes: vec![ScheduledSignalChange {
            step_index: 2,
            signal_id: "sig_cycle_start".to_string(),
            value: SignalValue::Bool(true),
            reason: "operator_start".to_string(),
        }],
        ..nominal_request()
    })
    .expect("simulation should run");

    // cycle 3655 ms over 10 steps: step 2 ends at 3655 * 3 / 10 = 1096 ms.
    let signal_view: Vec<(u32, u32, &str, &str)> = trace
        .signal_samples
        .iter()
        .map(|s| (s.step_index, s.timestamp_ms, s.signal_id.as_str(), s.reason.as_str()))
        .collect();
    assert_eq!(
        signal_view,
        vec![
            (0, 0, "sig_cycle_start", "initial_value"),
            (0, 0, "sig_part_present", "initial_value"),
            (2, 1096, "sig_cycle_start", "operator_start"),
            (2, 1096, "sig_part_present", "transition:tr_cycle_start"),
        ]
    );
    let state_view: Vec<(u32, u32, &str, &str)> = trace
        .controller_state_samples
        .iter()
        .map(|s| (s.step_index, s.timestamp_ms, s.state_id.as_str(), s.reason.as_str()))
        .collect();
    assert_eq!(state_view, vec![(0, 0, "idle", "initial_state"), (2, 1096, "done", "cycle completed")]);
}

#[test]
fn blocked_runs_record_a_final_blocked_sample() {
    let trace = simulate_trace(&SimulationRequest {
        signals: vec![signal("sig_cycle_start", "Cycle Start", false, "control")],
        controller: Some(simple_controller()),
        ..nominal_request()
    })
    .expect("simulation should run");
    let last = trace.controller_state_samples.last().expect("a blocked sample");
    assert_eq!((last.step_index, last.timestamp_ms), (9, 3_655));
    assert_eq!(last.reason, "sequence_blocked");
    assert_eq!(trace.controller_state_samples.len(), 2);
}

#[test]
fn scheduled_changes_sort_by_step_then_signal_stably() {
    let change = |step: u32, id: &str, reason: &str| ScheduledSignalChange {
        step_index: step,
        signal_id: id.to_string(),
        value: SignalValue::Bool(true),
        reason: reason.to_string(),
    };
    let sorted = sorted_changes(&vec![
        change(3, "b", "1"),
        change(1, "z", "2"),
        change(3, "a", "3"),
        change(1, "z", "4"),
        change(0, "m", "5"),
    ]);
    let order: Vec<&str> = sorted.iter().map(|c| c.reason.as_str()).collect();
    assert_eq!(order, vec!["5", "2", "4", "3", "1"]);
}

#[test]
fn collisions_spread_over_the_run_with_default_pair() {
    // no safety zone: (seed + steps) % 3 = (1 + 10) % 3 = 2 collisions.
    let trace = simulate_trace(&SimulationRequest { safety_zone_count: 0, seed: 1, ..nominal_request() })
        .expect("simulation should run");
    assert_eq!(trace.cycle_time_ms, 3_640 + 6 + 1);
    assert_eq!(trace.collision_count, 2);
    let slots: Vec<(u32, u32, u32, &str)> = trace
        .contacts
        .iter()
        .map(|c| (c.collision_index, c.step_index, c.timestamp_ms, c.pair.id.as_str()))
        .collect();
    // steps 10/3 = 3 and 20/3 = 6; timestamps 3647 * 4 / 10 and 3647 * 7 / 10.
    assert_eq!(slots, vec![(0, 3, 1458, "pair_default"), (1, 6, 2552, "pair_default")]);
    assert_eq!(trace.contacts[0].pair.base_clearance_mm, 0.8f64.to_bits());
    // with endpoints above two: (seed + endpoints) % 2.
    let trace = simulate_trace(&SimulationRequest { endpoint_count: 3, seed: 2, ..nominal_request() })
        .expect("simulation should run");
    assert_eq!(trace.collision_count, 1);
}

#[test]
fn step_timestamps_end_on_the_cycle() {
    assert_eq!(step_timestamp_ms(0, 1, 500), 500);
    assert_eq!(step_timestamp_ms(0, 4, 1000), 250);
    assert_eq!(step_timestamp_ms(3, 4, 1000), 1000);
    assert_eq!(step_timestamp_ms(0, 3, 100), 33);
}

#[test]
fn status_puts_collisions_before_warnings() {
    assert_eq!(simulation_status(1, true, true), SimulationStatus::Collided);
    assert_eq!(simulation_status(0, false, true), SimulationStatus::Warning);
    assert_eq!(simulation_status(0, true, false), SimulationStatus::Warning);
    assert_eq!(simulation_status(0, false, false), SimulationStatus::Completed);
}

#[test]
fn timestamps_past_the_last_step_keep_counting() {
    assert_eq!(faero::sim::step_timestamp_ms(5, 4, 100), 150);
    assert_eq!(faero::sim::step_timestamp_ms(3, 4, 100), 100);
    assert_eq!(faero::sim::step_timestamp_ms(7, 1, 100), 100);
    assert_eq!(
        faero::sim::step_timestamp_ms(u32::MAX - 1, 2, u32::MAX),
        ((u64::from(u32::MAX) * u64::from(u32::MAX)) / 2) as u32
    );
}
