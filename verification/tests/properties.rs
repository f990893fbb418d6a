use faero::json::{JsonFields, JsonNumber, JsonValue};
use faero::project::{EntityData, EntityRecord};
use faero::properties::{path_segments_of, signal_properties_data, PropertiesStep};
use faero::session::WorkspaceSession;

fn model(value: &serde_json::Value) -> JsonValue {
    match value {
        serde_json::Value::Null => JsonValue::Null,
        serde_json::Value::Bool(b) => JsonValue::Bool(*b),
        serde_json::Value::Number(n) => JsonValue::Number(if let Some(u) = n.as_u64() {
            JsonNumber::PosInt(u)
        } else if let Some(i) = n.as_i64() {
            JsonNumber::NegInt(i)
        } else {
            JsonNumber::Float(n.as_f64().expect("finite").to_bits())
        }),
        serde_json::Value::String(s) => JsonValue::Text(s.clone()),
        serde_json::Value::Array(items) => JsonValue::array(items.iter().map(model).collect()),
        serde_json::Value::Object(map) => JsonValue::object(map.iter().map(|(k, v)| (k.clone(), model(v))).collect()),
    }
}

fn json(text: &str) -> JsonValue {
    model(&serde_json::from_str(text).expect("test json should parse"))
}

fn zone_entity() -> EntityRecord {
    EntityRecord {
        id: "ent_zone_001".to_string(),
        entity_type: "SafetyZone".to_string(),
        name: "Zone A".to_string(),
        revision: "rev_seed".to_string(),
        status: "active".to_string(),
        data: EntityData::Json(json(
            r#"{"tags":["safety"],"parameterSet":{"widthMm":400,"heightMm":300,"depthMm":200},"note":"x"}"#,
        )),
    }
}

fn session_with_zone() -> WorkspaceSession {
    let mut session = WorkspaceSession::empty("Session".to_string());
    session
        .complete_entity_creation("entity.create.safety_zone", zone_entity(), "zone creee".to_string())
        .expect("zone should be created");
    session
}

fn stored(session: &WorkspaceSession, id: &str) -> EntityRecord {
    session.graph.document().nodes.get(id).cloned().expect("entity should exist")
}

fn data(entity: &EntityRecord) -> &JsonValue {
    match &entity.data {
        EntityData::Json(v) => v,
        _ => panic!("edited data is plain JSON"),
    }
}

fn texts(value: Option<&JsonValue>) -> Vec<String> {
    value
        .and_then(|v| v.items())
        .unwrap_or_default()
        .iter()
        .map(|v| v.as_text().cloned().unwrap_or_default())
        .collect()
}

#[test]
fn property_edit_renames_retags_and_sets_paths() {
    let mut session = session_with_zone();
    let journal_before = session.system_activity.len();
    let step = session.update_entity_properties(
        "ent_zone_001",
        &json(r#"{"name":"  Zone B  ","tags":[" cell ","",7,"guard"],"parameterSet.widthMm":450,"meta.owner.team":"ops"}"#),
    );
    let result = match step {
        PropertiesStep::Done(result) => result,
        other => panic!("edit should apply: {other:?}"),
    };
    assert_eq!(result.command_id, "entity.properties.update");
    assert_eq!(result.status, "applied");
    assert_eq!(result.message, "proprietes mises a jour pour ent_zone_001");

    let zone = stored(&session, "ent_zone_001");
    assert_eq!(zone.name, "Zone B");
    assert_eq!(zone.entity_type, "SafetyZone");
    assert!(zone.revision.starts_with("rev_") && zone.revision != "rev_seed");
    let d = data(&zone);
    assert_eq!(texts(d.get("tags")), vec!["cell".to_string(), "guard".to_string()]);
    let params = d.get("parameterSet").expect("parameters stay");
    assert_eq!(params.get("widthMm").and_then(|v| v.as_u64()), Some(450));
    assert_eq!(params.get("heightMm").and_then(|v| v.as_u64()), Some(300));
    let team = d.get("meta").and_then(|m| m.get("owner")).and_then(|o| o.get("team")).and_then(|t| t.as_text());
    assert_eq!(team.map(String::as_str), Some("ops"));
    assert_eq!(d.get("note").and_then(|v| v.as_text()).map(String::as_str), Some("x"));

    assert_eq!(session.system_activity.len(), journal_before + 1);
    let last = session.system_activity.last().expect("journal entry");
    assert_eq!(last.kind, "entity.properties.updated");
    assert_eq!(last.target_id.as_deref(), Some("ent_zone_001"));
}

#[test]
fn property_edit_keeps_name_and_tags_when_absent() {
    let mut session = session_with_zone();
    match session.update_entity_properties("ent_zone_001", &json(r#"{"name":"   ","note":"y"}"#)) {
        PropertiesStep::Done(_) => {}
        other => panic!("edit should apply: {other:?}"),
    }
    let zone = stored(&session, "ent_zone_001");
    assert_eq!(zone.name, "Zone A");
    assert_eq!(texts(data(&zone).get("tags")), vec!["safety".to_string()]);
    assert_eq!(data(&zone).get("note").and_then(|v| v.as_text()).map(String::as_str), Some("y"));
}

fn rejected(step: PropertiesStep) -> String {
    match step {
        PropertiesStep::Rejected(message) => message,
        other => panic!("edit should be refused: {other:?}"),
    }
}

#[test]
fn property_edit_refusals_leave_the_session_unchanged() {
    let mut session = session_with_zone();
    let commands = session.graph.document().commands.len();
    let journal = session.system_activity.len();

    assert_eq!(
        rejected(session.update_entity_properties("ent_missing", &json(r#"{"name":"x"}"#))),
        "entite introuvable: ent_missing"
    );
    assert_eq!(
        rejected(session.update_entity_properties("ent_zone_001", &json("[1,2]"))),
        "les changements doivent former un objet JSON"
    );
    assert_eq!(
        rejected(session.update_entity_properties("ent_zone_001", &json(r#"{"tags":"safety"}"#))),
        "tags doit rester un tableau"
    );
    assert_eq!(
        rejected(session.update_entity_properties("ent_zone_001", &json(r#"{" . ":1}"#))),
        "chemin de propriete vide"
    );
    assert_eq!(
        rejected(session.update_entity_properties("ent_zone_001", &json(r#"{"parameterSet.heightMm":0}"#))),
        "parameterSet.heightMm doit rester strictement positif"
    );
    assert_eq!(
        rejected(session.update_entity_properties("ent_zone_001", &json(r#"{"parameterSet.depthMm":-2.5}"#))),
        "parameterSet.depthMm doit rester strictement positif"
    );

    assert_eq!(session.graph.document().commands.len(), commands);
    assert_eq!(session.system_activity.len(), journal);
    assert_eq!(stored(&session, "ent_zone_001").name, "Zone A");
}

#[test]
fn part_and_control_edits_are_handed_back() {
    let mut session = WorkspaceSession::empty("Session".to_string());
    let mut part = zone_entity();
    part.id = "ent_part_001".to_string();
    part.entity_type = "Part".to_string();
    session
        .complete_entity_creation("entity.create.part", part, "piece".to_string())
        .expect("part should be created");
    let journal = session.system_activity.len();
    match session.update_entity_properties("ent_part_001", &json(r#"{"parameterSet.widthMm":10}"#)) {
        PropertiesStep::Delegated => {}
        other => panic!("part geometry is rebuilt by the caller: {other:?}"),
    }
    assert_eq!(session.system_activity.len(), journal);
    // Header checks still come first.
    assert_eq!(
        rejected(session.update_entity_properties("ent_part_001", &json(r#"{"tags":{}}"#))),
        "tags doit rester un tableau"
    );
}

#[test]
fn dotted_paths_drop_blank_segments() {
    let segments: Vec<String> = path_segments_of(" a.. b . c");
    assert_eq!(segments, vec![" a".to_string(), " b ".to_string(), " c".to_string()]);
    assert!(path_segments_of(" . ").is_empty());
}

fn fields(text: &str) -> JsonFields {
    match json(text) {
        JsonValue::Object(f) => f,
        _ => panic!("changes are an object"),
    }
}

fn signal_data() -> EntityData {
    EntityData::Json(json(r#"{"cellId":"ent_cell_001","kind":"scalar","currentValue":0.62,"tags":["control"]}"#))
}

fn current_value(result: Result<JsonFields, String>) -> JsonValue {
    let fs = result.expect("signal edit should apply");
    JsonValue::Object(fs).get("currentValue").cloned().expect("current value")
}

#[test]
fn signal_edits_fall_back_to_the_kind_default() {
    let tags = vec!["control".to_string()];
    assert_eq!(
        current_value(signal_properties_data(&signal_data(), &tags, &fields(r#"{"kind":"text"}"#))),
        JsonValue::Text(String::new())
    );
    assert_eq!(
        current_value(signal_properties_data(&signal_data(), &tags, &fields(r#"{"currentValue":true}"#))),
        JsonValue::Number(JsonNumber::Float(0.0f64.to_bits()))
    );
    assert_eq!(
        current_value(signal_properties_data(&signal_data(), &tags, &fields(r#"{"kind":"boolean"}"#))),
        JsonValue::Bool(false)
    );
    assert_eq!(
        current_value(signal_properties_data(&signal_data(), &tags, &fields(r#"{"kind":"text","currentValue":"manual"}"#))),
        JsonValue::Text("manual".to_string())
    );
    assert_eq!(
        current_value(signal_properties_data(&signal_data(), &tags, &fields(r#"{"currentValue":3}"#))),
        JsonValue::Number(JsonNumber::PosInt(3))
    );
}

#[test]
fn signal_edits_keep_a_known_kind() {
    let tags: Vec<String> = Vec::new();
    assert_eq!(
        signal_properties_data(&signal_data(), &tags, &fields(r#"{"kind":"analog"}"#)).err(),
        Some("le kind du signal doit etre boolean, scalar ou text".to_string())
    );
    assert_eq!(
        signal_properties_data(&signal_data(), &tags, &fields(r#"{"kind":1}"#)).err(),
        Some("le signal doit conserver un kind valide".to_string())
    );
    let no_kind = EntityData::Json(json(r#"{"currentValue":1}"#));
    assert_eq!(
        signal_properties_data(&no_kind, &tags, &fields("{}")).err(),
        Some("le signal doit conserver un kind valide".to_string())
    );
}
