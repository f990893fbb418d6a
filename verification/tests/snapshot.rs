use faero::json::{JsonNumber, JsonValue};
use faero::project::{CoreCommand, EntityData, EntityRecord, ProjectDocument, ProjectGraph};
use faero::snapshot::{connection_mode_as_str, open_spec_summaries, plugin_summaries, recent_activity, ActivityEntry};
use faero::types::{ConnectionMode, OpenSpecDocument, PluginManifest};

fn model(value: &serde_json::Value) -> JsonValue {
    match value {
        serde_json::Value::Null => JsonValue::Null,
        serde_json::Value::Bool(b) => JsonValue::Bool(*b),
        serde_json::Value::Number(n) => JsonValue::Number(if let Some(u) = n.as_u64() {
            JsonNumber::PosInt(u)
        } else if let Some(i) = n.as_i64() {
            JsonNumber::NegInt(i)
        } else {
            JsonNumber::Float(n.as_f64().expect("finite").to_bits())
        }),
        serde_json::Value::String(s) => JsonValue::Text(s.clone()),
        serde_json::Value::Array(items) => JsonValue::array(items.iter().map(model).collect()),
        serde_json::Value::Object(map) => JsonValue::object(map.iter().map(|(k, v)| (k.clone(), model(v))).collect()),
    }
}

fn json(text: &str) -> JsonValue {
    model(&serde_json::from_str(text).expect("test json should parse"))
}


fn entry(id: &str, timestamp: &str) -> ActivityEntry {
    ActivityEntry {
        id: id.to_string(),
        channel: "system".to_string(),
        kind: "workspace.loaded".to_string(),
        timestamp: timestamp.to_string(),
        target_id: None,
    }
}

#[test]
fn recent_activity_keeps_the_twelve_newest_entries() {
    let document = ProjectDocument::empty("Demo".to_string());
    let mut extra = Vec::new();
    for i in 0..14 {
        extra.push(entry(&format!("sys_{:04}", i + 1), &format!("2026-04-06T12:00:{:02}Z", i + 1)));
    }
    let feed = recent_activity(&document, &extra);
    assert_eq!(feed.len(), 12);
    assert_eq!(feed[0].id, "sys_0014");
    assert_eq!(feed[11].id, "sys_0003");
}

#[test]
fn equal_timestamps_put_the_greater_id_first() {
    let document = ProjectDocument::empty("Demo".to_string());
    let extra = vec![
        entry("sys_0001", "2026-04-06T12:00:05Z"),
        entry("sys_0003", "2026-04-06T12:00:05Z"),
        entry("sys_0002", "2026-04-06T12:00:09Z"),
    ];
    let feed = recent_activity(&document, &extra);
    let ids: Vec<&str> = feed.iter().map(|e| e.id.as_str()).collect();
    assert_eq!(ids, vec!["sys_0002", "sys_0003", "sys_0001"]);
}

#[test]
fn recent_activity_includes_the_command_and_event_logs() {
    let mut graph = ProjectGraph::new("Demo".to_string());
    graph
        .apply_command(CoreCommand::CreateEntity(EntityRecord {
            id: "ent_part_001".to_string(),
            entity_type: "Part".to_string(),
            name: "Bracket".to_string(),
            revision: "rev_seed".to_string(),
            status: "active".to_string(),
            data: EntityData::Json(json("{}")),
        }))
        .expect("entity should be created");
    let feed = recent_activity(graph.document(), &[]);
    assert_eq!(feed.len(), 2);
    assert!(feed.iter().any(|e| e.channel == "command" && e.target_id.as_deref() == Some("ent_part_001")));
    assert!(feed.iter().any(|e| e.channel == "event"));
}

#[test]
fn plugins_and_documents_are_listed_in_key_order() {
    let mut document = ProjectDocument::empty("Demo".to_string());
    for (key, version) in [("plg.z", "2.0.0"), ("plg.a", "1.0.0")] {
        document.plugin_manifests.insert(
            key.to_string(),
            PluginManifest {
                id: format!("ent_{key}"),
                plugin_id: key.to_string(),
                version: version.to_string(),
                capabilities: Vec::new(),
                permissions: Vec::new(),
                entrypoints: Vec::new(),
                compatibility: Vec::new(),
                status: "installed".to_string(),
            },
        );
    }
    document.plugin_states.insert("plg.z".to_string(), true);
    let plugins = plugin_summaries(&document);
    assert_eq!(plugins[0].plugin_id, "plg.a");
    assert!(!plugins[0].enabled);
    assert_eq!(plugins[1].plugin_id, "plg.z");
    assert!(plugins[1].enabled);

    document.open_spec_documents.insert(
        "ops_001".to_string(),
        OpenSpecDocument {
            id: "ops_001".to_string(),
            title: "Cellule".to_string(),
            kind: "spec".to_string(),
            status: "draft".to_string(),
            body_format: "markdown".to_string(),
            entity_refs: vec!["ent_cell_001".to_string()],
            external_refs: Vec::new(),
            tags: vec!["cell".to_string(), "demo".to_string()],
            updated_at: "2026-04-01".to_string(),
            content: "Premiere ligne".to_string(),
        },
    );
    let docs = open_spec_summaries(&document);
    assert_eq!(docs.len(), 1);
    assert_eq!(docs[0].linked_entity_count, 1);
    assert_eq!(docs[0].tag_count, 2);
}

#[test]
fn connection_modes_have_snake_case_labels() {
    assert_eq!(connection_mode_as_str(ConnectionMode::Live), "live");
    assert_eq!(connection_mode_as_str(ConnectionMode::Replay), "replay");
    assert_eq!(connection_mode_as_str(ConnectionMode::Emulated), "emulated");
    assert_eq!(connection_mode_as_str(ConnectionMode::Gateway), "gateway");
}

fn entity(id: &str, entity_type: &str) -> EntityRecord {
    EntityRecord {
        id: id.to_string(),
        entity_type: entity_type.to_string(),
        name: id.to_string(),
        revision: "rev_seed".to_string(),
        status: "active".to_string(),
        data: EntityData::Json(json("{}")),
    }
}

#[test]
fn loads_pick_and_place_fixture_into_backend_status() {
    // The pick-and-place fixture's collections, as its files describe them.
    let mut document = ProjectDocument::empty("Pick And Place Demo".to_string());
    document.nodes.insert("ent_cell_001".to_string(), entity("ent_cell_001", "RobotCell"));
    document.nodes.insert("ent_part_001".to_string(), entity("ent_part_001", "Part"));
    document.endpoints.insert("ext_robot_001".to_string(), faero::integration::stub_robot_controller_endpoint());
    let (_, stream) = faero::session::sample_endpoint_with_stream(4);
    document.streams.insert(stream.id.clone(), stream);
    document.plugin_manifests.insert(
        "plg.integration.viewer".to_string(),
        faero::workspace::sample_plugin_manifest(1, "plg.integration.viewer"),
    );

    let status = faero::snapshot::status_from_document("pick-and-place-demo.faero", &document);

    assert_eq!(status.runtime, "tauri-rust");
    assert_eq!(status.fixture_id, "pick-and-place-demo.faero");
    assert_eq!(status.project_name, "Pick And Place Demo");
    assert_eq!(status.entity_count, 2);
    assert_eq!(status.endpoint_count, 1);
    assert_eq!(status.stream_count, 1);
    assert_eq!(status.plugin_count, 1);
}
