use faero::json::{JsonNumber, JsonValue};
use faero::project::ProjectDocument;
use faero::storage::{assemble_project_document, jsonl_records, jsonl_text, project_file_layout, ProjectFileKind};

fn model(value: &serde_json::Value) -> JsonValue {
    match value {
        serde_json::Value::Null => JsonValue::Null,
        serde_json::Value::Bool(b) => JsonValue::Bool(*b),
        serde_json::Value::Number(n) => JsonValue::Number(if let Some(u) = n.as_u64() {
            JsonNumber::PosInt(u)
        } else if let Some(i) = n.as_i64() {
            JsonNumber::NegInt(i)
        } else {
            JsonNumber::Float(n.as_f64().expect("finite").to_bits())
        }),
        serde_json::Value::String(s) => JsonValue::Text(s.clone()),
        serde_json::Value::Array(items) => JsonValue::array(items.iter().map(model).collect()),
        serde_json::Value::Object(map) => JsonValue::object(map.iter().map(|(k, v)| (k.clone(), model(v))).collect()),
    }
}

fn json(text: &str) -> JsonValue {
    model(&serde_json::from_str(text).expect("test json should parse"))
}


#[test]
fn jsonl_text_ends_every_line_and_writes_nothing_for_no_payload() {
    assert_eq!(jsonl_text(&[]), "");
    assert_eq!(
        jsonl_text(&["{\"a\":1}".to_string(), "{\"b\":2}".to_string()]),
        "{\"a\":1}\n{\"b\":2}\n"
    );
    assert_eq!(jsonl_text(&["".to_string()]), "");
    assert_eq!(jsonl_text(&["".to_string(), "x".to_string()]), "\nx\n");
}

#[test]
fn jsonl_records_skip_blank_lines_and_carriage_returns() {
    assert_eq!(
        jsonl_records("{\"a\":1}\n\n   \n{\"b\":2}\r\n{\"c\":3}"),
        vec!["{\"a\":1}", "{\"b\":2}", "{\"c\":3}"]
    );
    assert!(jsonl_records("").is_empty());
    assert!(jsonl_records("\n\r\n  \n").is_empty());
    assert_eq!(jsonl_records(" padded \n"), vec![" padded "]);
}

#[test]
fn jsonl_round_trip_keeps_payloads() {
    let payloads = vec![
        "{\"commandId\":\"cmd_0001\"}".to_string(),
        "{\"commandId\":\"cmd_0002\"}".to_string(),
        "{\"commandId\":\"cmd_0003\"}".to_string(),
    ];
    let text = jsonl_text(&payloads);
    assert_eq!(jsonl_records(&text), payloads);
    let lines = text.lines().filter(|line| !line.trim().is_empty()).map(str::to_string).collect::<Vec<_>>();
    assert_eq!(jsonl_records(&text), lines);
}

fn empty_json() -> JsonValue {
    json("{}")
}

fn entity(id: &str, name: &str) -> faero::project::EntityRecord {
    faero::project::EntityRecord {
        id: id.to_string(),
        entity_type: "Part".to_string(),
        name: name.to_string(),
        revision: "rev_seed".to_string(),
        status: "active".to_string(),
        data: faero::project::EntityData::Json(empty_json()),
    }
}

#[test]
fn layout_files_each_record_under_its_id_in_key_order() {
    let mut document = ProjectDocument::empty("Demo".to_string());
    document.nodes.insert("ent_b".to_string(), entity("ent_b", "B"));
    document.nodes.insert("ent_a".to_string(), entity("ent_a", "A"));
    let files = project_file_layout(&document);
    let paths = files.iter().map(|f| f.path.as_str()).collect::<Vec<_>>();
    assert_eq!(
        paths,
        vec![
            "project.yaml",
            "graph/nodes/ent_a.json",
            "graph/nodes/ent_b.json",
            "graph/edges.jsonl",
            "plugins/state/plugins.json",
            "events/commands.jsonl",
            "events/events.jsonl",
        ]
    );
    assert_eq!(files[1].kind, ProjectFileKind::Node("ent_a".to_string()));
    assert_eq!(files[0].kind, ProjectFileKind::Metadata);
}

#[test]
fn assembled_documents_key_records_by_id_later_ones_winning() {
    let metadata = ProjectDocument::empty("Demo".to_string()).metadata;
    let document = assemble_project_document(
        metadata,
        vec![entity("ent_a", "first"), entity("ent_b", "B"), entity("ent_a", "second")],
        Vec::new(),
        Vec::new(),
        Vec::new(),
        Vec::new(),
        vec![("plg.a".to_string(), true), ("plg.a".to_string(), false)],
        Vec::new(),
        Vec::new(),
    );
    assert_eq!(document.nodes.len(), 2);
    assert_eq!(document.nodes.get("ent_a").map(|e| e.name.as_str()), Some("second"));
    assert_eq!(document.plugin_states.get("plg.a"), Some(&false));
    assert_eq!(document.metadata.name, "Demo");
    assert!(document.open_spec_documents.is_empty());
}
