use faero::optimization::{
    rank_scored_candidates, recommendation, run_scored_study, seeded_study, validate_study,
    OptimizationCandidate, OptimizationError, OptimizationStudy,
};

fn score(candidate: &OptimizationCandidate) -> u32 {
    (candidate.safety_margin_mm as f32 * 2.0
        - candidate.cycle_time_ms as f32 * 0.01
        - candidate.energy_wh as f32 * 0.05)
        .to_bits()
}

fn scores(candidates: &[OptimizationCandidate]) -> Vec<u32> {
    candidates.iter().map(score).collect()
}

fn candidate(id: &str, cycle_time_ms: u32, energy_wh: u32, safety_margin_mm: u32) -> OptimizationCandidate {
    OptimizationCandidate {
        id: id.to_string(),
        cycle_time_ms,
        energy_wh,
        safety_margin_mm,
    }
}

#[test]
fn seeded_study_is_populated_with_objectives_constraints_and_variables() {
    let study = seeded_study("study_001".to_string());

    assert_eq!(study.objectives.len(), 3);
    assert_eq!(study.constraints.len(), 2);
    assert_eq!(study.variables.len(), 2);
    assert_eq!(study.candidates.len(), 3);
}

#[test]
fn ranks_candidates_by_weighted_score() {
    let candidates = [candidate("fast", 900, 70, 15), candidate("balanced", 1_050, 40, 20)];
    let ranked = rank_scored_candidates(&candidates, &scores(&candidates)).expect("study should rank");

    assert_eq!(ranked[0].id, "balanced");
    assert!(f32::from_bits(ranked[0].score) > f32::from_bits(ranked[1].score));
}

#[test]
fn runs_study_and_selects_a_best_candidate() {
    let study = seeded_study("study_001".to_string());
    let report = run_scored_study(&study, &scores(&study.candidates)).expect("study should run");

    assert_eq!(report.candidate_count, 3);
    assert!(report.best_candidate_id.is_some());
    assert_eq!(report.ranked_candidates.len(), 3);
    assert!(report
        .ranked_candidates
        .iter()
        .any(|candidate| candidate.recommendation == "apply"));
}

#[test]
fn rejects_empty_or_invalid_studies() {
    assert_eq!(rank_scored_candidates(&[], &[]), Err(OptimizationError::EmptyStudy));
    let only = vec![candidate("only", 1_000, 50, 20)];
    let study = OptimizationStudy {
        id: "study_001".to_string(),
        objectives: Vec::new(),
        constraints: Vec::new(),
        variables: Vec::new(),
        candidates: only.clone(),
    };
    assert_eq!(
        run_scored_study(&study, &scores(&only)),
        Err(OptimizationError::EmptyObjectives)
    );

    let mut invalid = seeded_study("study_invalid".to_string());
    invalid.variables[0].current = 2.0_f32.to_bits();
    assert_eq!(
        run_scored_study(&invalid, &scores(&invalid.candidates)),
        Err(OptimizationError::InvalidVariableBounds)
    );
}

#[test]
fn seeded_study_ranks_balanced_then_safe_then_fast() {
    let study = seeded_study("study_002".to_string());
    let report = run_scored_study(&study, &scores(&study.candidates)).expect("study should run");
    let order = report
        .ranked_candidates
        .iter()
        .map(|candidate| (candidate.id.as_str(), candidate.recommendation.as_str()))
        .collect::<Vec<_>>();
    assert_eq!(
        order,
        vec![
            ("candidate_safe", "apply"),
            ("candidate_balanced", "review"),
            ("candidate_fast", "reject"),
        ]
    );
    assert_eq!(report.best_candidate_id.as_deref(), Some("candidate_safe"));
    assert_eq!(f32::from_bits(study.variables[0].current), 0.82);
    assert_eq!(f32::from_bits(study.variables[1].maximum), 120.0);
}

#[test]
fn ties_keep_their_order_and_nan_ranks_first_or_last_by_sign() {
    let candidates = [
        candidate("a", 1, 1, 1),
        candidate("b", 1, 1, 1),
        candidate("c", 1, 1, 1),
        candidate("d", 1, 1, 1),
    ];
    let given = [1.0_f32.to_bits(), f32::NAN.to_bits(), 1.0_f32.to_bits(), (-f32::NAN).to_bits()];
    let ranked = rank_scored_candidates(&candidates, &given).expect("ranks");
    let ids = ranked.iter().map(|r| r.id.as_str()).collect::<Vec<_>>();
    assert_eq!(ids, vec!["b", "a", "c", "d"]);
    assert_eq!(ranked[0].recommendation, "reject");
}

#[test]
fn recommendation_thresholds() {
    assert_eq!(recommendation(33.0_f32.to_bits()), "apply");
    assert_eq!(recommendation(32.99_f32.to_bits()), "review");
    assert_eq!(recommendation(26.0_f32.to_bits()), "review");
    assert_eq!(recommendation(25.9_f32.to_bits()), "reject");
    assert_eq!(recommendation(f32::INFINITY.to_bits()), "apply");
    assert_eq!(recommendation(f32::NAN.to_bits()), "reject");
}

#[test]
fn bounds_check_accepts_edges_and_ignores_nan() {
    let mut study = seeded_study("study_003".to_string());
    study.variables[0].current = study.variables[0].minimum;
    assert!(validate_study(&study).is_ok());
    study.variables[0].current = f32::NAN.to_bits();
    assert!(validate_study(&study).is_ok());
    study.variables[1].current = (-1.0_f32).to_bits();
    assert_eq!(validate_study(&study), Err(OptimizationError::InvalidVariableBounds));
    study.candidates.clear();
    assert_eq!(validate_study(&study), Err(OptimizationError::EmptyStudy));
}
