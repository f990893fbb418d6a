use faero::json::{JsonNumber, JsonValue};
use faero::ai::AiProfilePreset;
use faero::explain::{
    build_structured_explain, critique_passes, explain_from_facts, latest_entity_by_type, AiRiskLevel, CritiqueInput,
    ExplainFacts, ProposedPayload, RunFacts, SafetyReportFacts,
};
use faero::project::{EntityData, EntityRecord, ProjectDocument};

fn model(value: &serde_json::Value) -> JsonValue {
    match value {
        serde_json::Value::Null => JsonValue::Null,
        serde_json::Value::Bool(b) => JsonValue::Bool(*b),
        serde_json::Value::Number(n) => JsonValue::Number(if let Some(u) = n.as_u64() {
            JsonNumber::PosInt(u)
        } else if let Some(i) = n.as_i64() {
            JsonNumber::NegInt(i)
        } else {
            JsonNumber::Float(n.as_f64().expect("finite").to_bits())
        }),
        serde_json::Value::String(s) => JsonValue::Text(s.clone()),
        serde_json::Value::Array(items) => JsonValue::array(items.iter().map(model).collect()),
        serde_json::Value::Object(map) => JsonValue::object(map.iter().map(|(k, v)| (k.clone(), model(v))).collect()),
    }
}

fn json(text: &str) -> JsonValue {
    model(&serde_json::from_str(text).expect("test json should parse"))
}

fn entity(id: &str, entity_type: &str, name: &str, data: &str) -> EntityRecord {
    EntityRecord {
        id: id.to_string(),
        entity_type: entity_type.to_string(),
        name: name.to_string(),
        revision: "rev_seed".to_string(),
        status: "active".to_string(),
        data: EntityData::Json(json(data)),
    }
}

fn sample_document() -> ProjectDocument {
    let mut document = ProjectDocument::empty("AI Demo".to_string());
    document.metadata.project_id = "prj_ai_001".to_string();
    document.nodes.insert(
        "ent_cell_001".to_string(),
        entity("ent_cell_001", "RobotCell", "Cellule Demo", r#"{"robotIds":["ent_robot_001"]}"#),
    );
    document
}

#[test]
fn structured_explain_proposes_commands_for_blocked_runs() {
    let mut document = sample_document();
    document.nodes.insert(
        "ent_sig_001".to_string(),
        entity(
            "ent_sig_001",
            "Signal",
            "Progress Gate",
            r#"{"signalId":"sig_progress_gate","kind":"scalar","currentValue":0.62,"parameterSet":{"unit":"ratio"}}"#,
        ),
    );
    document.nodes.insert(
        "ent_run_001".to_string(),
        entity(
            "ent_run_001",
            "SimulationRun",
            "Run Demo",
            r#"{"robotCellId":"ent_cell_001","summary":{"collisionCount":0,"blockedSequenceDetected":true,"blockedStateId":"transfer","cycleTimeMs":3497},"contacts":[]}"#,
        ),
    );

    let explain = build_structured_explain(&document, "explique le blocage", AiProfilePreset::Furnace);

    assert!(explain.proposed_commands.iter().any(|command| command.kind == "entity.properties.update"));
    assert!(explain.proposed_commands.iter().any(|command| command.kind == "simulation.run.start"));
    assert_eq!(explain.runtime_profile, "furnace");
    assert!(explain.critique_passes.len() >= 2);
}

#[test]
fn blocked_run_explanation_reads_the_run_summary() {
    let mut document = sample_document();
    document.nodes.insert(
        "ent_sig_001".to_string(),
        entity("ent_sig_001", "Signal", "Progress Gate", r#"{"signalId":"sig_progress_gate","kind":"scalar"}"#),
    );
    document.nodes.insert(
        "ent_run_001".to_string(),
        entity(
            "ent_run_001",
            "SimulationRun",
            "Run Demo",
            r#"{"robotCellId":"ent_cell_001","summary":{"collisionCount":0,"blockedSequenceDetected":true,"blockedStateId":"transfer","cycleTimeMs":3497},"contacts":[]}"#,
        ),
    );
    let explain = build_structured_explain(&document, "explique le blocage", AiProfilePreset::Balanced);
    assert_eq!(
        explain.summary,
        "Le dernier run se termine sans collision mais avec une sequence bloquee sur Run Demo."
    );
    assert_eq!(explain.risk_level, AiRiskLevel::Medium);
    assert_eq!(explain.base_confidence, 0.86_f64.to_bits());
    assert_eq!(explain.explanation[0], "Le run ent_run_001 garde un temps de cycle de 3497 ms.");
    assert_eq!(explain.explanation[1], "La machine a etats reste bloquee dans l etat `transfer`.");
    assert_eq!(explain.proposed_commands.len(), 2);
    assert_eq!(explain.proposed_commands[0].kind, "entity.properties.update");
    assert_eq!(explain.proposed_commands[0].target_id.as_deref(), Some("ent_sig_001"));
    assert_eq!(explain.proposed_commands[0].payload, ProposedPayload::CurrentValueScalar(1.0_f64.to_bits()));
    assert_eq!(explain.proposed_commands[1].kind, "simulation.run.start");
    assert_eq!(explain.proposed_commands[1].target_id.as_deref(), Some("ent_cell_001"));
    assert_eq!(
        explain.limitations,
        vec!["Aucun rapport safety disponible dans le graphe courant.".to_string()]
    );
    assert_eq!(explain.context_refs.len(), 4);
    assert_eq!(explain.context_refs[0].path, "metadata.projectId");
    assert_eq!(explain.context_refs[3].path, "sequenceValidation.estimatedCycleTimeMs");
    assert_eq!(explain.critique_passes.len(), 1);
    assert_eq!(explain.critique_passes[0].summary, "Le critic interne ne detecte pas de contradiction majeure dans les artefacts locaux.");
    assert_eq!(explain.explanation.last().map(String::as_str), Some("Critique critic: Le critic interne ne detecte pas de contradiction majeure dans les artefacts locaux."));
}

#[test]
fn empty_project_explanation_lists_its_limitations() {
    let document = ProjectDocument::empty("Vide".to_string());
    let explain = build_structured_explain(&document, "  quoi de neuf  ", AiProfilePreset::Max);
    assert_eq!(explain.summary, "Le projet Vide contient 0 entites exploitables.");
    assert_eq!(explain.risk_level, AiRiskLevel::Low);
    assert_eq!(explain.base_confidence, 0.58_f64.to_bits());
    assert_eq!(explain.limitations.len(), 3);
    assert_eq!(explain.limitations[0], "Le modele n a trouve ni run de simulation ni rapport safety persiste.");
    assert_eq!(explain.limitations[1], "Aucun run de simulation disponible dans le graphe courant.");
    assert_eq!(explain.explanation[0], "La demande \"quoi de neuf\" a ete analysee a partir du graphe projet courant.");
    assert!(explain.proposed_commands.is_empty());
    assert_eq!(explain.critique_passes.len(), 2);
    let critic = &explain.critique_passes[0];
    assert_eq!(critic.summary, "2 point(s) de vigilance detecte(s).");
    assert_eq!(critic.issues, vec!["contexte local trop court".to_string(), "aucun run de simulation local".to_string()]);
    assert_eq!(critic.confidence_penalties, vec![0.08_f64.to_bits(), 0.12_f64.to_bits()]);
    assert_eq!(explain.critique_passes[1].stage, "critic_consistency");
    assert!(explain.critique_passes[1].issues.is_empty());
}

#[test]
fn blocking_safety_report_comes_first_for_safety_questions() {
    let mut document = sample_document();
    document.nodes.insert(
        "ent_sig_002".to_string(),
        entity("ent_sig_002", "Signal", "Safety Clear", r#"{"signalId":"sig_safety_clear","kind":"boolean"}"#),
    );
    document.nodes.insert(
        "ent_safety_001".to_string(),
        entity(
            "ent_safety_001",
            "SafetyReport",
            "Safety Demo",
            r#"{"robotCellId":"ent_cell_001","summary":{"inhibited":true,"status":"blocked","blockingInterlockCount":1,"activeZoneCount":2,"causeZoneIds":["zone_a",3,"zone_b"]}}"#,
        ),
    );
    let explain = build_structured_explain(&document, "Pourquoi le SAFETY bloque ?", AiProfilePreset::Balanced);
    assert_eq!(explain.summary, "Le dernier rapport safety bloque l action avec 1 interlock(s) sur Safety Demo.");
    assert_eq!(explain.risk_level, AiRiskLevel::High);
    assert_eq!(explain.explanation[0], "Le rapport ent_safety_001 expose 2 zone(s) active(s) et 1 interlock(s) bloquant(s).");
    assert_eq!(explain.explanation[1], "Les causes explicites du blocage sont: zone_a, zone_b.");
    assert_eq!(explain.proposed_commands.len(), 2);
    assert_eq!(explain.proposed_commands[0].payload, ProposedPayload::CurrentValueBool(true));
    assert_eq!(explain.proposed_commands[0].target_id.as_deref(), Some("ent_sig_002"));
    assert_eq!(explain.proposed_commands[1].kind, "analyze.safety");
    assert_eq!(explain.critique_passes[0].issues, vec!["aucun run de simulation local".to_string()]);
}

#[test]
fn latest_entity_is_the_greatest_id_of_its_type() {
    let mut document = sample_document();
    document.nodes.insert("a".to_string(), entity("ent_run_002", "SimulationRun", "B", "{}"));
    document.nodes.insert("b".to_string(), entity("ent_run_010", "SimulationRun", "C", "{}"));
    document.nodes.insert("c".to_string(), entity("ent_run_001", "SimulationRun", "A", "{}"));
    let latest = latest_entity_by_type(&document, "SimulationRun").expect("a run should be found");
    assert_eq!(latest.id, "ent_run_010");
    assert!(latest_entity_by_type(&document, "SafetyReport").is_none());
}

#[test]
fn critique_grows_with_the_profile() {
    let input = CritiqueInput {
        context_ref_count: 3,
        proposed_command_count: 3,
        no_run_limitation: false,
        has_perception_run: false,
        has_commissioning_session: true,
        has_safety_report: false,
        has_simulation_run: true,
    };
    let passes = critique_passes(&input, "Compare le LIDAR scan", AiProfilePreset::Furnace);
    assert_eq!(passes.len(), 3);
    assert_eq!(passes[0].issues, vec!["aucun run perception local".to_string()]);
    assert_eq!(passes[0].confidence_penalties, vec![0.14_f64.to_bits(), 0.03_f64.to_bits()]);
    assert_eq!(passes[0].adjustments.len(), 2);
    assert_eq!(passes[1].issues, vec!["simulation available without a recent safety report".to_string()]);
    assert_eq!(passes[1].confidence_penalties, vec![0.04_f64.to_bits()]);
    assert_eq!(passes[2].stage, "critic_final");
    assert_eq!(critique_passes(&input, "bonjour", AiProfilePreset::Balanced).len(), 1);
}

#[test]
fn collision_questions_skip_the_safety_report_for_the_run() {
    let facts = ExplainFacts {
        project_name: "Demo".to_string(),
        node_count: 4,
        safety_report: Some(SafetyReportFacts {
            id: "ent_safety_001".to_string(),
            name: "Safety".to_string(),
            inhibited: Some(false),
            status: None,
            blocking_interlock_count: None,
            active_zone_count: Some(1),
            cause_zone_ids: None,
            robot_cell_id: None,
        }),
        run: Some(RunFacts {
            id: "ent_run_001".to_string(),
            name: "Run".to_string(),
            collision_count: Some(2),
            blocked_sequence_detected: None,
            blocked_state_id: None,
            cycle_time_ms: Some(1200),
            first_contact: None,
            robot_cell_id: None,
        }),
        robot_cell_id: None,
        safety_clear_signal: None,
        progress_gate_signal: None,
        cycle_start_signal: Some("ent_sig_003".to_string()),
        has_perception_run: false,
        has_commissioning_session: false,
    };
    let explain = explain_from_facts(&facts, "Une collision ?", AiProfilePreset::Balanced);
    assert_eq!(explain.summary, "Le dernier run detecte 2 collision(s) sur Run.");
    assert_eq!(explain.risk_level, AiRiskLevel::High);
    assert_eq!(explain.proposed_commands[0].payload, ProposedPayload::CurrentValueBool(false));
    let safety = explain_from_facts(&facts, "et la securite ?", AiProfilePreset::Balanced);
    assert_eq!(safety.summary, "Le dernier rapport safety reste unknown avec 1 zone(s) active(s) sur Safety.");
    assert_eq!(safety.risk_level, AiRiskLevel::Medium);
}
