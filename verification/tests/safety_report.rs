use faero::json::{JsonNumber, JsonValue};
use faero::project::{EntityData, EntityRecord};
use faero::safety::{SafetyInterlock, SafetyZone, SafetyZoneKind};
use faero::safety_report::safety_report_entity;
use faero::session::{SessionStep, ShellCommand, WorkspaceSession};
use faero::workspace::{sample_safety_interlocks, sample_safety_zones};

fn data(entity: &EntityRecord) -> &JsonValue {
    match &entity.data {
        EntityData::Json(v) => v,
        _ => panic!("reports hold plain JSON"),
    }
}

fn count(v: &JsonValue, key: &str) -> Option<u64> {
    v.get(key).and_then(|x| x.as_u64())
}

fn text<'a>(v: &'a JsonValue, key: &str) -> Option<&'a str> {
    v.get(key).and_then(|x| x.as_text()).map(String::as_str)
}

fn robot_cell(id: &str) -> EntityRecord {
    // The engine generates the cell's geometry in floating point; only its
    // id matters to the safety analysis, which reads its safety setup.
    EntityRecord {
        id: id.to_string(),
        entity_type: "RobotCell".to_string(),
        name: "RobotCell-001".to_string(),
        revision: "rev_seed".to_string(),
        status: "active".to_string(),
        data: EntityData::Json(JsonValue::Null),
    }
}

#[test]
fn safety_analysis_creates_a_report_entity_and_activity() {
    let mut session = WorkspaceSession::empty("Session".to_string());

    let command = match session.execute_command("analyze.safety") {
        SessionStep::Delegated(command) => command,
        other => panic!("the session reads the cell's safety setup through its caller: {other:?}"),
    };
    assert_eq!(command, ShellCommand::AnalyzeSafety);
    session
        .complete_entity_creation("entity.create.robot_cell", robot_cell("ent_cell_001"), "cellule".to_string())
        .expect("cell should be created");
    let result = session
        .complete_safety_analysis("ent_cell_001", &sample_safety_zones(), &sample_safety_interlocks())
        .expect("safety command should run");

    let report = session.graph.document().nodes.get("ent_safe_002").cloned().expect("safety report should be created");
    assert_eq!(report.entity_type, "SafetyReport");
    assert_eq!(report.name, "SafetyReport-002");
    let summary = data(&report).get("summary").expect("safety summary should exist");

    assert_eq!(result.status, "applied");
    assert_eq!(result.message, "rapport safety genere: warning | 1 zone(s) actives | 0 blocage(s)");
    assert_eq!(text(summary, "status"), Some("warning"));
    assert_eq!(summary.get("inhibited").and_then(|x| x.as_bool()), Some(false));
    assert_eq!(count(summary, "activeZoneCount"), Some(1));
    assert_eq!(count(summary, "advisoryZoneCount"), Some(1));
    assert!(session.system_activity.iter().any(|entry| entry.kind == "analysis.safety.generated"));
}

#[test]
fn active_protective_zone_blocks_the_move() {
    let zones = vec![
        SafetyZone { id: "zone_lidar".to_string(), kind: SafetyZoneKind::LidarProtective, active: true },
        SafetyZone { id: "zone_warn".to_string(), kind: SafetyZoneKind::Warning, active: false },
    ];
    let interlocks = vec![SafetyInterlock {
        id: "int_stop".to_string(),
        source_zone_id: "zone_lidar".to_string(),
        inhibited_action: "robot.move".to_string(),
        requires_manual_reset: true,
    }];
    let report = safety_report_entity("ent_safe_009", "Report", "ent_cell_004", &zones, &interlocks, "robot.move");
    assert_eq!(report.id, "ent_safe_009");
    assert_eq!(report.revision, "rev_seed");
    let d = data(&report);
    assert_eq!(text(d, "robotCellId"), Some("ent_cell_004"));
    assert_eq!(text(d, "attemptedAction"), Some("robot.move"));
    assert_eq!(d.get("parameterSet").and_then(|p| p.get("attemptedAction")), Some(&JsonValue::Text("robot.move".to_string())));
    let summary = d.get("summary").expect("summary");
    assert_eq!(text(summary, "status"), Some("blocked"));
    assert_eq!(summary.get("inhibited"), Some(&JsonValue::Bool(true)));
    assert_eq!(summary.get("blockingInterlockCount"), Some(&JsonValue::Number(JsonNumber::PosInt(1))));
    assert_eq!(count(summary, "advisoryZoneCount"), Some(0));
    let causes = summary.get("causeZoneIds").and_then(|c| c.items()).expect("causes");
    assert_eq!(causes, vec![JsonValue::Text("zone_lidar".to_string())]);
    let zone = d.get("zones").and_then(|z| z.items()).expect("zones")[0].clone();
    assert_eq!(text(&zone, "kind"), Some("lidar_protective"));
    let lock = d.get("interlocks").and_then(|z| z.items()).expect("interlocks")[0].clone();
    assert_eq!(text(&lock, "sourceZoneId"), Some("zone_lidar"));
    assert_eq!(lock.get("requiresManualReset"), Some(&JsonValue::Bool(true)));
}

#[test]
fn a_taken_report_id_is_refused() {
    let mut session = WorkspaceSession::empty("Session".to_string());
    let mut taken = robot_cell("ent_safe_002");
    taken.entity_type = "SafetyReport".to_string();
    session.complete_entity_creation("x", taken, "x".to_string()).expect("first entity");
    let journal = session.system_activity.len();
    assert!(session.complete_safety_analysis("ent_cell_001", &[], &[]).is_err());
    assert_eq!(session.system_activity.len(), journal);
    assert_eq!(session.graph.entity_count(), 1);
}
