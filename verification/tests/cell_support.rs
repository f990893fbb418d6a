use faero::cell_support::{robot_cell_signal_entities, robot_cell_zone_entities, strip_signal_prefix};
use faero::json::{JsonNumber, JsonValue};
use faero::project::{EntityData, EntityRecord};
use faero::safety::{SafetyInterlock, SafetyZone, SafetyZoneKind};
use faero::workspace::{robot_cell_control_model, sample_safety_interlocks, sample_safety_zones};

fn data(entity: &EntityRecord) -> &JsonValue {
    match &entity.data {
        EntityData::Json(v) => v,
        _ => panic!("support entities hold plain JSON"),
    }
}

fn text<'a>(v: &'a JsonValue, key: &str) -> Option<&'a str> {
    v.get(key).and_then(|x| x.as_text()).map(String::as_str)
}

fn texts(v: &JsonValue, key: &str) -> Vec<String> {
    v.get(key)
        .and_then(|x| x.items())
        .unwrap_or_default()
        .iter()
        .map(|x| x.as_text().cloned().unwrap_or_default())
        .collect()
}

#[test]
fn zone_entities_name_their_kind_and_interlocks() {
    let zones = sample_safety_zones();
    let interlocks = sample_safety_interlocks();
    let entities = robot_cell_zone_entities("ent_cell_001", "Robot Cell", &zones, &interlocks);
    assert_eq!(entities.len(), 2);

    let warning = &entities[0];
    assert_eq!(warning.id, "ent_zone_001_warning");
    assert_eq!(warning.entity_type, "SafetyZoneModel");
    assert_eq!(warning.name, "Robot Cell / zone_warning_perimeter");
    assert_eq!(warning.revision, "rev_seed");
    assert_eq!(warning.status, "active");
    let d = data(warning);
    assert_eq!(text(d, "id"), Some("ent_zone_001_warning"));
    assert_eq!(text(d, "cellId"), Some("ent_cell_001"));
    assert_eq!(text(d, "zoneId"), Some("zone_warning_perimeter"));
    assert_eq!(text(d, "zoneKind"), Some("warning"));
    assert_eq!(d.get("active").and_then(|x| x.as_bool()), Some(true));
    assert_eq!(texts(d, "interlockIds"), vec!["int_warning_reduce_speed".to_string()]);

    let lidar = &entities[1];
    assert_eq!(lidar.id, "ent_zone_001_protective");
    let d = data(lidar);
    assert_eq!(text(d, "zoneKind"), Some("lidar_protective"));
    assert_eq!(d.get("active").and_then(|x| x.as_bool()), Some(false));
    assert_eq!(texts(d, "interlockIds"), vec!["int_lidar_stop_move".to_string()]);
}

#[test]
fn zone_entities_gather_every_interlock_of_their_zone() {
    let zones = vec![SafetyZone { id: "z".to_string(), kind: SafetyZoneKind::ProtectiveStop, active: true }];
    let lock = |id: &str, zone: &str| SafetyInterlock {
        id: id.to_string(),
        source_zone_id: zone.to_string(),
        inhibited_action: "robot.move".to_string(),
        requires_manual_reset: false,
    };
    let interlocks = vec![lock("a", "z"), lock("b", "other"), lock("c", "z")];
    let entities = robot_cell_zone_entities("cell_x", "X", &zones, &interlocks);
    assert_eq!(entities[0].id, "ent_zone_cell_x_protective");
    assert_eq!(text(data(&entities[0]), "zoneKind"), Some("protective_stop"));
    assert_eq!(texts(data(&entities[0]), "interlockIds"), vec!["a".to_string(), "c".to_string()]);
}

#[test]
fn signal_entities_carry_initial_values_and_units() {
    let control = robot_cell_control_model("ent_cell_001", true);
    let entities = robot_cell_signal_entities("ent_cell_001", "Robot Cell", &control);
    assert_eq!(entities.len(), 5);
    let ids: Vec<&str> = entities.iter().map(|e| e.id.as_str()).collect();
    assert_eq!(
        ids,
        vec![
            "ent_sig_001_cycle_start",
            "ent_sig_001_progress_gate",
            "ent_sig_001_safety_clear",
            "ent_sig_001_payload_released",
            "ent_sig_001_operator_mode"
        ]
    );
    assert!(entities.iter().all(|e| e.entity_type == "Signal" && e.revision == "rev_seed"));
    assert_eq!(entities[1].name, "Robot Cell / Progress Gate");

    let gate = data(&entities[1]);
    assert_eq!(text(gate, "kind"), Some("scalar"));
    assert_eq!(text(gate, "signalId"), Some("sig_progress_gate"));
    assert_eq!(gate.get("currentValue"), Some(&JsonValue::Number(JsonNumber::Float(0.62f64.to_bits()))));
    assert_eq!(gate.get("initialValue"), gate.get("currentValue"));
    let params = gate.get("parameterSet").expect("parameters");
    assert_eq!(text(params, "unit"), Some("ratio"));
    assert_eq!(params.get("currentValue"), gate.get("currentValue"));
    assert_eq!(texts(gate, "tags"), vec!["control".to_string(), "scalar".to_string()]);

    let safety = data(&entities[2]);
    assert_eq!(safety.get("currentValue"), Some(&JsonValue::Bool(true)));
    assert_eq!(safety.get("parameterSet").and_then(|p| p.get("unit")), Some(&JsonValue::Null));
    let mode = data(&entities[4]);
    assert_eq!(text(mode, "currentValue"), Some("auto"));
    assert_eq!(text(mode, "kind"), Some("text"));
}

#[test]
fn signal_prefixes_are_stripped_repeatedly() {
    assert_eq!(strip_signal_prefix("sig_sig_gate"), "gate");
    assert_eq!(strip_signal_prefix("gate"), "gate");
    assert_eq!(strip_signal_prefix("sig_"), "");
    assert_eq!(strip_signal_prefix("sig"), "sig");
}
