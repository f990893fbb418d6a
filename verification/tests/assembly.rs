use faero::assembly::{
    assembly_report, assembly_status, joint_degrees_of_freedom, plan_assembly, AssemblyError,
    AssemblySolveStatus, JointType, MateConstraint, MateType, Occurrence, PropagationStep,
    Transform3D,
};

fn occurrences() -> Vec<Occurrence> {
    vec![
        Occurrence {
            id: "occ_a".to_string(),
            definition_entity_id: "ent_part_001".to_string(),
            transform: Transform3D::default(),
        },
        Occurrence {
            id: "occ_b".to_string(),
            definition_entity_id: "ent_part_002".to_string(),
            transform: Transform3D::default(),
        },
        Occurrence {
            id: "occ_c".to_string(),
            definition_entity_id: "ent_part_003".to_string(),
            transform: Transform3D::default(),
        },
    ]
}

fn mate(id: &str, left: &str, right: &str, mate_type: MateType) -> MateConstraint {
    MateConstraint {
        id: id.to_string(),
        left_occurrence_id: left.to_string(),
        right_occurrence_id: right.to_string(),
        mate_type,
    }
}

fn offset(distance_mm: f64) -> MateType {
    MateType::Offset { distance_mm: distance_mm.to_bits() }
}

#[test]
fn solves_when_occurrences_are_connected_and_propagates_offsets() {
    let constraints = vec![
        mate("mate_ab", "occ_a", "occ_b", MateType::Coincident),
        mate("mate_bc", "occ_b", "occ_c", offset(25.0)),
    ];
    let plan = plan_assembly(&occurrences(), &constraints).expect("connected occurrences should solve");

    assert_eq!(assembly_status(plan.all_connected, false), AssemblySolveStatus::Solved);
    assert_eq!(plan.constrained_occurrence_count, 3);
    assert_eq!(plan.total_mate_count, 2);
    assert_eq!(plan.degrees_of_freedom_estimate, 0);
    // occ_c is placed from occ_b through mate_bc, on its right side: x = 0 + 0 + 25.
    let step = plan
        .steps
        .iter()
        .find(|step| step.solves && step.to_index == 2)
        .expect("occ_c should be placed");
    assert_eq!((step.constraint_index, step.from_index, step.toward_right), (1, 1, true));
    let x_b = 0.0f64;
    let x_c = x_b + f64::from_bits(25.0f64.to_bits());
    assert_eq!(x_c, 25.0);
    // Every placed occurrence is checked back along its mate, never over-constrained.
    assert!(plan.steps.iter().filter(|step| !step.solves).count() == 2);
}

#[test]
fn marks_underconnected_assemblies_as_conflicting() {
    let constraints = vec![mate("mate_ab", "occ_a", "occ_b", MateType::Coincident)];
    let plan = plan_assembly(&occurrences(), &constraints).expect("partial graph should still report");

    assert!(!plan.all_connected);
    assert_eq!(assembly_status(plan.all_connected, false), AssemblySolveStatus::Conflicting);
    assert_eq!(plan.degrees_of_freedom_estimate, 3);
    assert_eq!(plan.solved, vec![true, true, false]);
}

#[test]
fn rejects_invalid_occurrences_and_constraints() {
    assert_eq!(
        plan_assembly(
            &[Occurrence {
                id: "occ_a".to_string(),
                definition_entity_id: "ent_part_001".to_string(),
                transform: Transform3D::default(),
            }],
            &[],
        )
        .err(),
        Some(AssemblyError::NotEnoughOccurrences)
    );
    assert_eq!(
        plan_assembly(
            &[
                Occurrence {
                    id: "occ_a".to_string(),
                    definition_entity_id: "ent_part_001".to_string(),
                    transform: Transform3D::default(),
                },
                Occurrence {
                    id: "occ_a".to_string(),
                    definition_entity_id: "ent_part_002".to_string(),
                    transform: Transform3D::default(),
                },
            ],
            &[],
        )
        .err(),
        Some(AssemblyError::InvalidOccurrenceSet)
    );
    assert_eq!(
        plan_assembly(&occurrences(), &[mate("mate_bad", "occ_a", "occ_a", MateType::Coincident)]).err(),
        Some(AssemblyError::InvalidConstraintGraph)
    );
    assert_eq!(
        plan_assembly(&occurrences(), &[mate("mate_offset", "occ_a", "occ_b", offset(-1.0))]).err(),
        Some(AssemblyError::NegativeOffset)
    );
}

#[test]
fn rejects_unknown_occurrences_and_duplicate_reverse_pairs() {
    assert_eq!(
        plan_assembly(&occurrences(), &[mate("mate_unknown", "occ_a", "missing", MateType::Coincident)]).err(),
        Some(AssemblyError::InvalidConstraintGraph)
    );
    assert_eq!(
        plan_assembly(
            &occurrences(),
            &[
                mate("mate_ba", "occ_b", "occ_a", MateType::Coincident),
                mate("mate_ab", "occ_a", "occ_b", MateType::Coincident),
            ],
        )
        .err(),
        Some(AssemblyError::InvalidConstraintGraph)
    );
}

#[test]
fn joint_types_expose_expected_mvp_degrees_of_freedom() {
    assert_eq!(joint_degrees_of_freedom(JointType::Fixed), 0);
    assert_eq!(joint_degrees_of_freedom(JointType::Revolute), 1);
    assert_eq!(joint_degrees_of_freedom(JointType::Prismatic), 1);
}

#[test]
fn plan_visits_mates_breadth_first_in_mate_order() {
    // a-b, a-c, b-c: b and c are placed from a, then b and c check each other.
    let constraints = vec![
        mate("m_ab", "occ_a", "occ_b", MateType::Coincident),
        mate("m_ca", "occ_c", "occ_a", offset(5.0)),
        mate("m_bc", "occ_b", "occ_c", MateType::Coincident),
    ];
    let plan = plan_assembly(&occurrences(), &constraints).expect("triangle should plan");
    let step = |c: usize, f: usize, t: usize, solves: bool, toward_right: bool| PropagationStep {
        constraint_index: c,
        from_index: f,
        to_index: t,
        solves,
        toward_right,
    };
    assert_eq!(
        plan.steps,
        vec![
            step(0, 0, 1, true, true),
            step(1, 0, 2, true, false),
            step(0, 1, 0, false, false),
            step(2, 1, 2, false, true),
            step(1, 2, 0, false, true),
            step(2, 2, 1, false, false),
        ]
    );
    assert!(plan.all_connected);
    assert_eq!(plan.degrees_of_freedom_estimate, 0);
}

#[test]
fn negative_zero_and_nan_offsets_are_not_negative() {
    assert!(plan_assembly(&occurrences(), &[mate("m", "occ_a", "occ_b", offset(-0.0))]).is_ok());
    assert!(plan_assembly(&occurrences(), &[mate("m", "occ_a", "occ_b", offset(f64::NAN))]).is_ok());
}

#[test]
fn first_refused_mate_decides_the_error() {
    assert_eq!(
        plan_assembly(
            &occurrences(),
            &[
                mate("m1", "occ_a", "occ_b", offset(-2.0)),
                mate("m2", "occ_a", "occ_a", MateType::Coincident),
            ],
        )
        .err(),
        Some(AssemblyError::NegativeOffset)
    );
    assert_eq!(
        plan_assembly(
            &[
                Occurrence {
                    id: "".to_string(),
                    definition_entity_id: "ent".to_string(),
                    transform: Transform3D::default(),
                },
                Occurrence {
                    id: "occ_b".to_string(),
                    definition_entity_id: "ent".to_string(),
                    transform: Transform3D::default(),
                },
            ],
            &[],
        )
        .err(),
        Some(AssemblyError::InvalidOccurrenceSet)
    );
}

#[test]
fn isolated_occurrences_raise_the_freedom_estimate() {
    let mut occs = occurrences();
    occs.push(Occurrence {
        id: "occ_d".to_string(),
        definition_entity_id: "ent_part_004".to_string(),
        transform: Transform3D::default(),
    });
    let plan = plan_assembly(&occs, &[]).expect("no mates still plans");
    assert_eq!(plan.degrees_of_freedom_estimate, 9);
    assert_eq!(plan.constrained_occurrence_count, 0);
    assert!(plan.steps.is_empty());
    assert_eq!(assembly_status(plan.all_connected, false), AssemblySolveStatus::Conflicting);
    assert_eq!(assembly_status(true, true), AssemblySolveStatus::Conflicting);
}

#[test]
fn report_lists_occurrences_in_order_and_warns_exactly_when_not_solved() {
    let occs = occurrences();
    let constraints = vec![
        mate("mate_ab", "occ_a", "occ_b", MateType::Coincident),
        mate("mate_bc", "occ_b", "occ_c", offset(25.0)),
    ];
    let plan = plan_assembly(&occs, &constraints).expect("plan");
    let placed = Transform3D { x_mm: 25.0f64.to_bits(), ..Transform3D::default() };
    let placements = vec![Transform3D { x_mm: 99.0f64.to_bits(), ..Transform3D::default() }, Transform3D::default(), placed];
    let no_conflict = vec![false; plan.steps.len()];
    let report = assembly_report(&occs, &constraints, &plan, &placements, &no_conflict);
    assert_eq!(report.status, AssemblySolveStatus::Solved);
    assert!(report.warnings.is_empty());
    assert_eq!(
        report.solved_occurrences.iter().map(|s| s.occurrence_id.as_str()).collect::<Vec<_>>(),
        vec!["occ_a", "occ_b", "occ_c"]
    );
    assert_eq!(report.solved_occurrences[0].transform, occs[0].transform);
    assert_eq!(report.solved_occurrences[2].transform, placed);
    assert_eq!(report.total_mate_count, 2);
    assert_eq!(report.degrees_of_freedom_estimate, 0);

    let check = plan.steps.iter().position(|step| !step.solves).expect("a check step");
    let mut conflicts = no_conflict.clone();
    conflicts[check] = true;
    let report = assembly_report(&occs, &constraints, &plan, &placements, &conflicts);
    assert_eq!(report.status, AssemblySolveStatus::Conflicting);
    assert_eq!(report.warnings.len(), 1);
    assert!(report.warnings[0].starts_with("constraint `mate_"));
    assert!(report.warnings[0].contains("` over-constrains occurrence `occ_"));

    let partial = vec![mate("mate_ab", "occ_a", "occ_b", MateType::Coincident)];
    let plan = plan_assembly(&occs, &partial).expect("partial plan");
    let report = assembly_report(&occs, &partial, &plan, &placements, &vec![false; plan.steps.len()]);
    assert_eq!(report.status, AssemblySolveStatus::Conflicting);
    assert_eq!(report.warnings, vec!["assembly graph is under-connected".to_string()]);
    assert_eq!(report.solved_occurrences[2].transform, occs[2].transform);
    assert_eq!(report.degrees_of_freedom_estimate, 3);
}
