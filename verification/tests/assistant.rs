use faero::json::{JsonNumber, JsonValue};
use faero::ai::{
    available_profiles, language_instruction, unavailable_runtime_status, AiConversationMessage,
    AiProfilePreset, AiRuntimeConfig, AiRuntimeStatus,
};
use faero::assistant::{
    build_fallback_answer, build_ollama_messages, build_project_summary, build_system_prompt,
    chat_message, collect_context_references, fallback_response, finish_chat, format_endpoint,
    normalize_answer, plan_chat, summarize_named_items, AiError, ChatStep,
};
use faero::project::{EntityData, EntityRecord, ExternalEndpoint, LinkMetrics, ProjectDocument, TelemetryStream};
use faero::types::{
    Addressing, ConnectionMode, EndpointType, PluginManifest, QosProfile, StreamDirection,
    TimingProfile, TransportProfile,
};

fn model(value: &serde_json::Value) -> JsonValue {
    match value {
        serde_json::Value::Null => JsonValue::Null,
        serde_json::Value::Bool(b) => JsonValue::Bool(*b),
        serde_json::Value::Number(n) => JsonValue::Number(if let Some(u) = n.as_u64() {
            JsonNumber::PosInt(u)
        } else if let Some(i) = n.as_i64() {
            JsonNumber::NegInt(i)
        } else {
            JsonNumber::Float(n.as_f64().expect("finite").to_bits())
        }),
        serde_json::Value::String(s) => JsonValue::Text(s.clone()),
        serde_json::Value::Array(items) => JsonValue::array(items.iter().map(model).collect()),
        serde_json::Value::Object(map) => JsonValue::object(map.iter().map(|(k, v)| (k.clone(), model(v))).collect()),
    }
}

fn json(text: &str) -> JsonValue {
    model(&serde_json::from_str(text).expect("test json should parse"))
}

fn sample_endpoint() -> ExternalEndpoint {
    ExternalEndpoint {
        id: "ext_wifi_001".to_string(),
        name: "WiFi Edge".to_string(),
        endpoint_type: EndpointType::WifiDevice,
        transport_profile: TransportProfile {
            transport_kind: "wifi".to_string(),
            adapter_id: Some("wlan0".to_string()),
            discovery_mode: Some("mdns".to_string()),
            credential_policy: Some("runtime_prompt".to_string()),
            security_mode: Some("wpa3".to_string()),
        },
        connection_profile: json(r#"{"retryBackoffMs":250}"#),
        addressing: Addressing {
            host: Some("edge-box.local".to_string()),
            port: Some(9001),
            path: Some("/telemetry".to_string()),
            device_id: None,
        },
        signal_map_ids: vec!["sig_001".to_string()],
        mode: ConnectionMode::Live,
        link_metrics: LinkMetrics {
            latency_ms: Some(12),
            jitter_ms: Some(2),
            drop_rate: Some(0.0_f64.to_bits()),
            rssi_dbm: Some(-44),
            bandwidth_kbps: Some(8_000),
        },
        status: "ready".to_string(),
    }
}

fn sample_document() -> ProjectDocument {
    let mut document = ProjectDocument::empty("AI Demo".to_string());
    document.metadata.project_id = "prj_ai_001".to_string();
    document.nodes.insert(
        "ent_cell_001".to_string(),
        EntityRecord {
            id: "ent_cell_001".to_string(),
            entity_type: "RobotCell".to_string(),
            name: "Cellule Demo".to_string(),
            revision: "rev_seed".to_string(),
            status: "active".to_string(),
            data: EntityData::Json(json(r#"{"robotIds":["ent_robot_001"]}"#)),
        },
    );
    document.endpoints.insert("ext_wifi_001".to_string(), sample_endpoint());
    document.streams.insert(
        "str_001".to_string(),
        TelemetryStream {
            id: "str_001".to_string(),
            name: "BumperStatus".to_string(),
            endpoint_id: "ext_wifi_001".to_string(),
            stream_type: "mqtt_topic".to_string(),
            direction: StreamDirection::Inbound,
            codec_profile: json(r#"{"encoding":"json"}"#),
            schema_ref: "schemas/telemetry/bumper-status.schema.json".to_string(),
            timing_profile: TimingProfile {
                expected_rate_hz: 20,
                max_latency_ms: 80,
            },
            qos_profile: QosProfile {
                delivery: "at_least_once".to_string(),
                ordering: "best_effort".to_string(),
            },
            status: "ready".to_string(),
        },
    );
    document.plugin_manifests.insert(
        "plg.integration.viewer".to_string(),
        PluginManifest {
            id: "ent_plugin_001".to_string(),
            plugin_id: "plg.integration.viewer".to_string(),
            version: "0.1.0".to_string(),
            capabilities: vec!["panel".to_string()],
            permissions: vec!["project.read".to_string()],
            entrypoints: vec!["plugins/integration-viewer/index.js".to_string()],
            compatibility: vec!["faero-core@0.1".to_string()],
            status: "installed".to_string(),
        },
    );
    document.plugin_states.insert("plg.integration.viewer".to_string(), true);
    document
}

fn default_config() -> AiRuntimeConfig {
    AiRuntimeConfig::from_settings(None, None, None)
}

#[test]
fn project_summary_contains_core_workspace_counts() {
    let summary = build_project_summary(&sample_document());

    assert!(summary.contains("projectName: AI Demo"));
    assert!(summary.contains("entities(1):"));
    assert!(summary.contains("endpoints(1):"));
    assert!(summary.contains("streams(1):"));
    assert!(summary.contains("plugins(1):"));
}

#[test]
fn fallback_answer_mentions_project_and_endpoint() {
    let document = sample_document();
    let runtime = unavailable_runtime_status(
        &default_config(),
        "offline".to_string(),
        vec!["gemma3:27b".to_string()],
        None,
        None,
    );

    let answer = build_fallback_answer("fr", "Resume le projet", &document, &runtime);
    assert!(answer.contains("AI Demo"));
    assert!(answer.contains(runtime.endpoint.as_str()));
}

#[test]
fn helpers_cover_locales_labels_references_and_normalization() {
    let document = sample_document();
    let prompt = build_system_prompt("es", &document, AiProfilePreset::Furnace);
    assert!(prompt.contains("Answer in Spanish."));
    assert!(prompt.contains("Runtime profile: furnace."));
    assert_eq!(language_instruction("en"), "in English");
    assert_eq!(language_instruction("es"), "in Spanish");
    assert_eq!(language_instruction("fr"), "in French");

    let history = [
        AiConversationMessage {
            role: "system".to_string(),
            content: "ignore".to_string(),
        },
        AiConversationMessage {
            role: "user".to_string(),
            content: " besoin ".to_string(),
        },
    ];
    let messages = build_ollama_messages("fr", &history, "Etat courant", &document, AiProfilePreset::Max);
    assert_eq!(messages[0].role, "system");
    assert_eq!(messages[1].role, "user");
    assert_eq!(messages.last().map(|message| message.role.as_str()), Some("user"));

    let references = collect_context_references(&document);
    assert_eq!(references[0], "project:prj_ai_001");
    assert!(references.iter().any(|reference| reference == "endpoint:ext_wifi_001"));

    assert_eq!(StreamDirection::Inbound.as_str(), "inbound");
    assert_eq!(StreamDirection::Outbound.as_str(), "outbound");
    assert_eq!(StreamDirection::Bidirectional.as_str(), "bidirectional");
    assert_eq!(EndpointType::Ros2.as_str(), "ros2");
    assert_eq!(EndpointType::Opcua.as_str(), "opcua");
    assert_eq!(EndpointType::Plc.as_str(), "plc");
    assert_eq!(EndpointType::RobotController.as_str(), "robot_controller");
    assert_eq!(EndpointType::BluetoothLe.as_str(), "bluetooth_le");
    assert_eq!(EndpointType::BluetoothClassic.as_str(), "bluetooth_classic");
    assert_eq!(EndpointType::MqttBroker.as_str(), "mqtt_broker");
    assert_eq!(EndpointType::WebsocketPeer.as_str(), "websocket_peer");
    assert_eq!(EndpointType::TcpStream.as_str(), "tcp_stream");
    assert_eq!(EndpointType::UdpStream.as_str(), "udp_stream");
    assert_eq!(EndpointType::SerialDevice.as_str(), "serial_device");
    assert_eq!(EndpointType::FieldbusTrace.as_str(), "fieldbus_trace");
    assert_eq!(EndpointType::CustomStream.as_str(), "custom_stream");

    assert_eq!(
        normalize_answer("  ".to_string(), "fr", &document),
        build_fallback_answer(
            "fr",
            "assistant returned an empty answer",
            &document,
            &AiRuntimeStatus {
                available: false,
                provider: "ollama".to_string(),
                endpoint: "http://127.0.0.1:11434".to_string(),
                mode: "fallback-local".to_string(),
                local_only: true,
                active_profile: "balanced".to_string(),
                available_profiles: available_profiles(),
                active_model: None,
                available_models: Vec::new(),
                gemma3_models: Vec::new(),
                warning: Some("empty assistant answer".to_string()),
            },
        )
    );
    assert_eq!(normalize_answer("  already clean  ".to_string(), "fr", &document), "already clean");
}

#[test]
fn format_endpoint_covers_address_variants_and_summary_none_case() {
    let mut document = sample_document();
    document.plugin_states.insert("plg.integration.viewer".to_string(), false);
    let host_port_path = sample_endpoint();
    assert!(format_endpoint(&host_port_path).contains("edge-box.local:9001/telemetry"));

    let host_port = ExternalEndpoint {
        addressing: Addressing {
            host: Some("edge-box.local".to_string()),
            port: Some(9001),
            path: None,
            device_id: None,
        },
        ..host_port_path.clone()
    };
    assert!(format_endpoint(&host_port).ends_with("@ edge-box.local:9001"));

    let host_path = ExternalEndpoint {
        addressing: Addressing {
            host: Some("edge-box.local".to_string()),
            port: None,
            path: Some("/telemetry".to_string()),
            device_id: None,
        },
        ..host_port_path.clone()
    };
    assert!(format_endpoint(&host_path).ends_with("@ edge-box.local/telemetry"));

    let host_only = ExternalEndpoint {
        addressing: Addressing {
            host: Some("edge-box.local".to_string()),
            port: None,
            path: None,
            device_id: None,
        },
        ..host_port_path.clone()
    };
    assert!(format_endpoint(&host_only).ends_with("@ edge-box.local"));

    let device_only = ExternalEndpoint {
        addressing: Addressing {
            host: None,
            port: None,
            path: None,
            device_id: Some("dev-01".to_string()),
        },
        ..host_port_path.clone()
    };
    assert!(format_endpoint(&device_only).ends_with("@ dev-01"));

    let none_address = ExternalEndpoint {
        addressing: Addressing::default(),
        ..host_port_path
    };
    assert!(format_endpoint(&none_address).ends_with("@ n/a"));

    let none_summary = summarize_named_items(&Vec::new());
    assert_eq!(none_summary, "none");

    let summary = build_project_summary(&document);
    assert!(summary.contains("[disabled]"));
}

#[test]
fn project_summary_lists_collections_in_key_order() {
    let mut document = sample_document();
    for (key, name) in [("ent_zeta", "Zeta"), ("ent_alpha", "Alpha"), ("ent_mid", "Mid")] {
        document.nodes.insert(
            key.to_string(),
            EntityRecord {
                id: key.to_string(),
                entity_type: "Part".to_string(),
                name: name.to_string(),
                revision: "rev_seed".to_string(),
                status: "active".to_string(),
                data: EntityData::Json(json("{}")),
            },
        );
    }
    let summary = build_project_summary(&document);
    assert_eq!(
        summary,
        "projectName: AI Demo\nprojectId: prj_ai_001\nfixtureUnits: mm / deg / kg\n\
entities(4): Alpha [Part] (ent_alpha); Cellule Demo [RobotCell] (ent_cell_001); Mid [Part] (ent_mid); Zeta [Part] (ent_zeta)\n\
endpoints(1): WiFi Edge [wifi_device] (ext_wifi_001) @ edge-box.local:9001/telemetry\n\
streams(1): BumperStatus [inbound] on ext_wifi_001\n\
plugins(1): plg.integration.viewer v0.1.0 [enabled]\n\
commandsRecorded: 0\neventsRecorded: 0"
    );
    let references = collect_context_references(&document);
    assert_eq!(
        references,
        vec![
            "project:prj_ai_001",
            "entity:ent_alpha",
            "entity:ent_cell_001",
            "entity:ent_mid",
            "endpoint:ext_wifi_001",
            "stream:str_001",
            "plugin:plg.integration.viewer",
        ]
    );
}

#[test]
fn summaries_show_at_most_eight_items() {
    let items = (1..=10).map(|i| format!("item{i}")).collect::<Vec<_>>();
    assert_eq!(
        summarize_named_items(&items),
        "item1; item2; item3; item4; item5; item6; item7; item8"
    );
    assert_eq!(summarize_named_items(&items[..1].to_vec()), "item1");
}

#[test]
fn references_stop_at_eight() {
    let mut document = sample_document();
    for key in ["ent_b", "ent_c", "ent_d"] {
        document.nodes.insert(
            key.to_string(),
            EntityRecord {
                id: key.to_string(),
                entity_type: "Part".to_string(),
                name: key.to_string(),
                revision: "rev".to_string(),
                status: "active".to_string(),
                data: EntityData::Json(json("{}")),
            },
        );
    }
    let mut second = sample_endpoint();
    second.id = "ext_a".to_string();
    document.endpoints.insert("ext_a".to_string(), second);
    let mut stream = document.streams.get("str_001").expect("stream").clone();
    stream.id = "str_000".to_string();
    document.streams.insert("str_000".to_string(), stream);
    let references = collect_context_references(&document);
    assert_eq!(references.len(), 8);
    assert_eq!(references[1], "entity:ent_b");
    assert_eq!(references[4], "endpoint:ext_a");
    assert_eq!(references[7], "stream:str_001");
}

#[test]
fn fallback_answers_in_three_languages() {
    let document = sample_document();
    let config = default_config();
    let mut runtime = unavailable_runtime_status(&config, "offline".to_string(), Vec::new(), None, None);
    let en = build_fallback_answer("en", "status?", &document, &runtime);
    assert_eq!(
        en,
        "The local AI runtime did not answer, so I am staying in grounded local-summary mode.\n\
Project: AI Demo | 1 entites | 1 endpoints | 1 flux | 1 plugins.\nYour request was: \"status?\".\n\
You can continue asking about the current project, but for live model-backed answers check Ollama on http://127.0.0.1:11434 and ensure a local model is loaded."
    );
    runtime.available = true;
    runtime.active_model = Some("gemma3:4b".to_string());
    let es = build_fallback_answer("es", "estado", &document, &runtime);
    assert!(es.starts_with("El runtime de IA local es accesible, pero el modelo gemma3:4b no termino"));
    assert!(es.contains("\nProyecto: AI Demo | 1 entites"));
    runtime.active_model = None;
    let fr = build_fallback_answer("de", "etat", &document, &runtime);
    assert!(fr.starts_with("Le runtime IA local est joignable, mais le modele inconnu n a pas termine"));
    assert!(fr.ends_with("et la presence d un modele local charge."));
}

#[test]
fn chat_rejects_blank_messages_and_trims_others() {
    assert_eq!(chat_message("   "), Err(AiError::EmptyMessage));
    assert_eq!(chat_message("  Etat ?  "), Ok("Etat ?".to_string()));
    assert_eq!(AiError::EmptyMessage.message(), "empty chat message");
    assert_eq!(AiError::Http("timeout".to_string()).message(), "http error: timeout");
}

#[test]
fn chat_plans_fallbacks_and_model_requests() {
    let document = sample_document();
    let config = default_config();

    let offline = plan_chat(&config, "en", &[], "status", &document, None, None, Err("http error: refused".to_string()));
    match offline {
        ChatStep::Reply(reply) => {
            assert_eq!(reply.source, "fallback-local");
            assert_eq!(reply.warnings.len(), 1);
            assert!(reply.warnings[0].starts_with("http error: refused"));
            assert!(!reply.runtime.available);
            assert_eq!(reply.references[0], "project:prj_ai_001");
        }
        ChatStep::Ask(_) => panic!("an unreachable server cannot be asked"),
    }

    let no_models = plan_chat(&config, "en", &[], "status", &document, None, None, Ok(Vec::new()));
    match no_models {
        ChatStep::Reply(reply) => {
            assert_eq!(reply.source, "fallback-local");
            assert!(reply.warnings[0].starts_with("no preferred local model found"));
        }
        ChatStep::Ask(_) => panic!("no model to ask"),
    }

    let history = [AiConversationMessage {
        role: "assistant".to_string(),
        content: "bonjour".to_string(),
    }];
    let asked = plan_chat(
        &config,
        "fr",
        &history,
        "Etat courant",
        &document,
        None,
        Some("max"),
        Ok(vec!["gemma3:27b".to_string(), "gemma3:4b".to_string()]),
    );
    let request = match asked {
        ChatStep::Ask(request) => request,
        ChatStep::Reply(_) => panic!("a listed model should be asked"),
    };
    assert_eq!(request.model, "gemma3:27b");
    assert_eq!(request.messages.len(), 3);
    assert_eq!(request.messages[1].content, "bonjour");
    assert_eq!(request.messages[2].content, "Etat courant");

    let reply = finish_chat(&config, "fr", "Etat courant", &document, None, request, Ok("  Tout va bien.  ".to_string()));
    assert_eq!(reply.answer, "Tout va bien.");
    assert_eq!(reply.source, "ollama-local");

    let asked_again = plan_chat(
        &config,
        "fr",
        &[],
        "Etat courant",
        &document,
        None,
        None,
        Ok(vec!["gemma3:4b".to_string()]),
    );
    let request = match asked_again {
        ChatStep::Ask(request) => request,
        ChatStep::Reply(_) => panic!("a listed model should be asked"),
    };
    let failed = finish_chat(&config, "fr", "Etat courant", &document, None, request, Err("http error: timeout".to_string()));
    assert_eq!(failed.source, "degraded-local");
    assert_eq!(failed.runtime.mode, "degraded-chat");
    assert!(failed.answer.contains("Projet: AI Demo"));
    assert!(failed.warnings[0].starts_with("http error: timeout"));

    let reply = fallback_response("en", "hello", &document, None, unavailable_runtime_status(&config, "down".to_string(), Vec::new(), None, None));
    assert!(reply.answer.contains("Your request was: \"hello\""));
}
