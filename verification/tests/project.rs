use faero::json::{JsonNumber, JsonValue};
use faero::assembly::{
    assembly_status, plan_assembly, AssemblyError, AssemblySolveStatus, JointType, MateConstraint,
    MateType, Occurrence, Transform3D,
};
use faero::assembly_edits::{
    add_joint, add_mate, add_occurrence, assembly_event_kind, prepare_joint, remove_mate,
    set_joint_state, solve_refusal, transform_occurrence, validate_joint_axis, AssemblyJoint,
    AssemblyParts, JointAxis, JointLimits,
};
use faero::keyed::KeyedMap;
use faero::project::{
    CoreCommand, CoreError, EntityData, EntityRecord, ExternalEndpoint, LinkMetrics, Payload,
    ProjectDocument, ProjectGraph, TelemetryStream,
};
use faero::types::{
    Addressing, ConnectionMode, EndpointType, PluginManifest, QosProfile, SignalValue,
    StreamDirection, TimingProfile, TransportProfile,
};

fn model(value: &serde_json::Value) -> JsonValue {
    match value {
        serde_json::Value::Null => JsonValue::Null,
        serde_json::Value::Bool(b) => JsonValue::Bool(*b),
        serde_json::Value::Number(n) => JsonValue::Number(if let Some(u) = n.as_u64() {
            JsonNumber::PosInt(u)
        } else if let Some(i) = n.as_i64() {
            JsonNumber::NegInt(i)
        } else {
            JsonNumber::Float(n.as_f64().expect("finite").to_bits())
        }),
        serde_json::Value::String(s) => JsonValue::Text(s.clone()),
        serde_json::Value::Array(items) => JsonValue::array(items.iter().map(model).collect()),
        serde_json::Value::Object(map) => JsonValue::object(map.iter().map(|(k, v)| (k.clone(), model(v))).collect()),
    }
}

fn json(text: &str) -> JsonValue {
    model(&serde_json::from_str(text).expect("test json should parse"))
}

fn sample_entity() -> EntityRecord {
    EntityRecord {
        id: "ent_part_001".to_string(),
        entity_type: "Part".to_string(),
        name: "Bracket-A".to_string(),
        revision: "rev_seed".to_string(),
        status: "active".to_string(),
        data: EntityData::Json(json(r#"{"geometrySource":"parametric","parameterSet":{"width":120}}"#)),
    }
}

fn sample_entity_with_id(id: &str, name: &str) -> EntityRecord {
    EntityRecord { id: id.to_string(), name: name.to_string(), ..sample_entity() }
}

fn sample_signal() -> EntityRecord {
    EntityRecord {
        id: "ent_sig_001".to_string(),
        entity_type: "Signal".to_string(),
        name: "CycleStart".to_string(),
        revision: "rev_seed".to_string(),
        status: "active".to_string(),
        data: EntityData::Json(json(
            r#"{"signalId":"sig_cycle_start","kind":"boolean","initialValue":false,"currentValue":false,"tags":["control","mvp"]}"#,
        )),
    }
}

fn sample_endpoint() -> ExternalEndpoint {
    ExternalEndpoint {
        id: "ext_wifi_001".to_string(),
        name: "AMR-Lidar-WiFi-01".to_string(),
        endpoint_type: EndpointType::WifiDevice,
        transport_profile: TransportProfile {
            transport_kind: "wifi".to_string(),
            adapter_id: Some("wlan0".to_string()),
            discovery_mode: Some("mdns".to_string()),
            credential_policy: Some("runtime_prompt".to_string()),
            security_mode: Some("wpa3".to_string()),
        },
        connection_profile: json(r#"{"retryBackoffMs":250}"#),
        addressing: Addressing {
            host: Some("amr-lidar-01.local".to_string()),
            port: Some(9001),
            path: Some("/telemetry".to_string()),
            device_id: None,
        },
        signal_map_ids: vec!["sig_lidar_001".to_string()],
        mode: ConnectionMode::Live,
        link_metrics: LinkMetrics {
            latency_ms: Some(14),
            jitter_ms: Some(2),
            drop_rate: Some(0.0f64.to_bits()),
            rssi_dbm: Some(-51),
            bandwidth_kbps: Some(12000),
        },
        status: "connected".to_string(),
    }
}

fn sample_stream(endpoint_id: &str) -> TelemetryStream {
    TelemetryStream {
        id: "str_bumper_001".to_string(),
        name: "BumperStatus".to_string(),
        endpoint_id: endpoint_id.to_string(),
        stream_type: "mqtt_topic".to_string(),
        direction: StreamDirection::Inbound,
        codec_profile: json(r#"{"encoding":"json"}"#),
        schema_ref: "schemas/telemetry/bumper-status.schema.json".to_string(),
        timing_profile: TimingProfile { expected_rate_hz: 20, max_latency_ms: 80 },
        qos_profile: QosProfile { delivery: "at_least_once".to_string(), ordering: "best_effort".to_string() },
        status: "ready".to_string(),
    }
}

fn sample_plugin() -> PluginManifest {
    PluginManifest {
        id: "ent_plugin_001".to_string(),
        plugin_id: "plg.integration.viewer".to_string(),
        version: "0.1.0".to_string(),
        capabilities: vec!["panel".to_string()],
        permissions: vec!["project.read".to_string(), "integration.observe".to_string()],
        entrypoints: vec!["plugins/integration-viewer/index.js".to_string()],
        compatibility: vec!["faero-core@0.1".to_string()],
        status: "installed".to_string(),
    }
}

fn demo() -> ProjectGraph {
    ProjectGraph::new("Demo".to_string())
}

#[test]
fn creates_entity_and_records_command_event() {
    let mut graph = demo();
    let event = graph.apply_command(CoreCommand::CreateEntity(sample_entity())).expect("entity should be created");

    assert_eq!(graph.entity_count(), 1);
    assert_eq!(event.kind, "entity.created");
    assert_eq!(graph.document().commands.len(), 1);
    assert_eq!(graph.document().events.len(), 1);
}

#[test]
fn sets_signal_values_through_a_core_command() {
    let mut graph = demo();
    graph.apply_command(CoreCommand::CreateEntity(sample_signal())).expect("signal should be created");

    let event = graph
        .apply_command(CoreCommand::SetSignalValue { entity_id: "ent_sig_001".to_string(), value: SignalValue::Bool(true) })
        .expect("signal value should update");

    assert_eq!(event.kind, "signal.value.updated");
    let node = graph.document().nodes.get("ent_sig_001").expect("signal node");
    match &node.data {
        EntityData::WithCurrentValue(_, value) => assert_eq!(*value, SignalValue::Bool(true)),
        EntityData::Json(_) => panic!("current value should be set"),
    }
    assert_eq!(node.revision, "rev_0002");
}

#[test]
fn replaces_existing_entity_and_advances_revision() {
    let mut graph = demo();
    graph.apply_command(CoreCommand::CreateEntity(sample_entity())).expect("entity should be created");

    let mut updated = sample_entity();
    updated.name = "Bracket-B".to_string();
    updated.data = EntityData::Json(json(r#"{"geometrySource":"parametric","parameterSet":{"width":140}}"#));

    let event = graph.apply_command(CoreCommand::ReplaceEntity(updated)).expect("entity should update");

    assert_eq!(event.kind, "entity.updated");
    assert_eq!(graph.document().nodes.get("ent_part_001").map(|n| n.name.as_str()), Some("Bracket-B"));
    assert_eq!(graph.document().nodes.get("ent_part_001").map(|n| n.revision.as_str()), Some("rev_0002"));
    assert_eq!(graph.document().commands.len(), 2);
    assert_eq!(graph.document().commands[1].base_revision.as_deref(), Some("rev_seed"));
}

#[test]
fn stream_requires_existing_endpoint() {
    let mut graph = demo();
    let error = graph
        .apply_command(CoreCommand::RegisterStream(sample_stream("missing")))
        .expect_err("stream without endpoint should fail");
    assert_eq!(error, CoreError::UnknownEndpoint("missing".to_string()));
}

#[test]
fn registers_endpoint_stream_and_plugin() {
    let mut graph = demo();
    graph.apply_command(CoreCommand::RegisterEndpoint(sample_endpoint())).expect("endpoint should register");
    graph.apply_command(CoreCommand::RegisterStream(sample_stream("ext_wifi_001"))).expect("stream should register");
    graph.apply_command(CoreCommand::InstallPlugin(sample_plugin())).expect("plugin should install");

    assert_eq!(graph.endpoint_count(), 1);
    assert_eq!(graph.document().streams.len(), 1);
    assert_eq!(graph.plugin_state().get("plg.integration.viewer"), Some(&false));
}

#[test]
fn reconstructs_graph_from_document_and_keeps_counters_moving_forward() {
    let mut seed = demo();
    seed.apply_command(CoreCommand::CreateEntity(sample_entity())).expect("entity should seed");
    seed.apply_command(CoreCommand::InstallPlugin(sample_plugin())).expect("plugin should seed");

    let mut graph = ProjectGraph::from_document(seed.into_document());
    graph
        .apply_command(CoreCommand::SetPluginEnabled { plugin_id: "plg.integration.viewer".to_string(), enabled: true })
        .expect("plugin should enable");

    assert_eq!(graph.plugin_state().get("plg.integration.viewer"), Some(&true));
    assert_eq!(graph.document().commands.last().map(|command| command.command_id.as_str()), Some("cmd_0003"));
    assert_eq!(graph.document().events.last().map(|event| event.revision.as_str()), Some("rev_0003"));
}

#[test]
fn accessors_reflect_current_document_state() {
    let mut graph = demo();
    graph.apply_command(CoreCommand::RegisterEndpoint(sample_endpoint())).expect("endpoint should register");
    graph.apply_command(CoreCommand::RegisterStream(sample_stream("ext_wifi_001"))).expect("stream should register");
    graph.apply_command(CoreCommand::InstallPlugin(sample_plugin())).expect("plugin should install");

    assert_eq!(graph.project_name(), "Demo");
    assert_eq!(graph.stream_count(), 1);
    assert_eq!(graph.plugin_count(), 1);
}

#[test]
fn rejects_duplicate_entity_endpoint_stream_and_plugin() {
    let mut graph = demo();
    graph.apply_command(CoreCommand::CreateEntity(sample_entity())).expect("entity should register");
    let duplicate_entity = graph
        .apply_command(CoreCommand::CreateEntity(sample_entity()))
        .expect_err("duplicate entity should fail");
    assert_eq!(duplicate_entity, CoreError::EntityAlreadyExists("ent_part_001".to_string()));

    graph.apply_command(CoreCommand::RegisterEndpoint(sample_endpoint())).expect("endpoint should register");
    let duplicate_endpoint = graph
        .apply_command(CoreCommand::RegisterEndpoint(sample_endpoint()))
        .expect_err("duplicate endpoint should fail");
    assert_eq!(duplicate_endpoint, CoreError::EndpointAlreadyExists("ext_wifi_001".to_string()));

    graph.apply_command(CoreCommand::RegisterStream(sample_stream("ext_wifi_001"))).expect("stream should register");
    let duplicate_stream = graph
        .apply_command(CoreCommand::RegisterStream(sample_stream("ext_wifi_001")))
        .expect_err("duplicate stream should fail");
    assert_eq!(duplicate_stream, CoreError::StreamAlreadyExists("str_bumper_001".to_string()));

    graph.apply_command(CoreCommand::InstallPlugin(sample_plugin())).expect("plugin should install");
    let duplicate_plugin = graph
        .apply_command(CoreCommand::InstallPlugin(sample_plugin()))
        .expect_err("duplicate plugin should fail");
    assert_eq!(duplicate_plugin, CoreError::PluginAlreadyInstalled("plg.integration.viewer".to_string()));

    let missing_entity = graph
        .apply_command(CoreCommand::ReplaceEntity(EntityRecord { id: "missing".to_string(), ..sample_entity() }))
        .expect_err("missing entity update should fail");
    assert_eq!(missing_entity, CoreError::EntityNotFound("missing".to_string()));
}

#[test]
fn plugin_enable_disable_requires_installation_and_records_both_states() {
    let mut graph = demo();
    let missing = graph
        .apply_command(CoreCommand::SetPluginEnabled { plugin_id: "missing.plugin".to_string(), enabled: true })
        .expect_err("unknown plugin should fail");
    assert_eq!(missing, CoreError::PluginNotInstalled("missing.plugin".to_string()));

    graph.apply_command(CoreCommand::InstallPlugin(sample_plugin())).expect("plugin should install");
    graph
        .apply_command(CoreCommand::SetPluginEnabled { plugin_id: "plg.integration.viewer".to_string(), enabled: true })
        .expect("plugin should enable");
    let disabled = graph
        .apply_command(CoreCommand::SetPluginEnabled { plugin_id: "plg.integration.viewer".to_string(), enabled: false })
        .expect("plugin should disable");

    assert_eq!(disabled.kind, "plugin.disabled");
    assert_eq!(graph.plugin_state().get("plg.integration.viewer"), Some(&false));
}

#[test]
fn commands_and_events_are_numbered_and_linked() {
    let mut graph = demo();
    let first = graph.apply_command(CoreCommand::CreateEntity(sample_entity())).expect("created");
    let second = graph.apply_command(CoreCommand::RegisterEndpoint(sample_endpoint())).expect("registered");
    assert_eq!(first.event_id, "evt_0001");
    assert_eq!(first.caused_by_command_id, "cmd_0001");
    assert_eq!(first.revision, "rev_0001");
    assert_eq!(second.event_id, "evt_0002");
    assert_eq!(second.caused_by_command_id, "cmd_0002");
    assert_eq!(second.kind, "integration.connected");
    assert_eq!(second.project_id, "prj_0001");
    assert_eq!(second.timestamp, "2026-04-06T00:00:01Z");
    let command = &graph.document().commands[1];
    assert_eq!(command.kind, "wireless.endpoint.create");
    assert_eq!(command.actor_id, "system.scaffold");
    assert_eq!(command.timestamp, "2026-04-06T00:00:00Z");
    assert_eq!(graph.document().metadata.updated_at, "2026-04-06T00:00:01Z");
    assert!(matches!(&command.payload, Payload::Endpoint(e) if e.id == "ext_wifi_001"));
}

#[test]
fn refused_commands_leave_no_trace() {
    let mut graph = demo();
    graph.apply_command(CoreCommand::CreateEntity(sample_entity())).expect("created");
    assert_eq!(
        graph
            .apply_command(CoreCommand::SetSignalValue { entity_id: "ent_part_001".to_string(), value: SignalValue::Bool(true) })
            .err(),
        Some(CoreError::EntityIsNotSignal("ent_part_001".to_string()))
    );
    assert_eq!(
        graph
            .apply_command(CoreCommand::SetSignalValue { entity_id: "nope".to_string(), value: SignalValue::Bool(true) })
            .err(),
        Some(CoreError::SignalEntityNotFound("nope".to_string()))
    );
    assert_eq!(graph.document().commands.len(), 1);
    assert_eq!(graph.document().events.len(), 1);
    let next = graph.apply_command(CoreCommand::CreateEntity(sample_entity_with_id("ent_part_002", "B"))).expect("created");
    assert_eq!(next.event_id, "evt_0002");
}

#[test]
fn numbering_resumes_after_the_largest_loaded_numbers() {
    let mut document = ProjectDocument::empty("Loaded".to_string());
    let mut node = sample_entity();
    node.revision = "rev_0041".to_string();
    document.nodes.insert(node.id.clone(), node);
    let mut other = sample_entity_with_id("ent_part_009", "Other");
    other.revision = "rev_x".to_string();
    document.nodes.insert(other.id.clone(), other);
    let graph = ProjectGraph::from_document(document);
    let mut graph = graph;
    let event = graph.apply_command(CoreCommand::CreateEntity(sample_entity_with_id("ent_new", "New"))).expect("created");
    assert_eq!(event.revision, "rev_0042");
    assert_eq!(event.event_id, "evt_0001");
    assert_eq!(event.caused_by_command_id, "cmd_0001");
    let plain: KeyedMap<bool> = KeyedMap::new();
    assert_eq!(plain.len(), 0);
}

fn occurrence(id: &str, definition: &str) -> Occurrence {
    Occurrence { id: id.to_string(), definition_entity_id: definition.to_string(), transform: Transform3D::default() }
}

fn mate(id: &str, left: &str, right: &str) -> MateConstraint {
    MateConstraint {
        id: id.to_string(),
        left_occurrence_id: left.to_string(),
        right_occurrence_id: right.to_string(),
        mate_type: MateType::Coincident,
    }
}

fn sample_joint(id: &str, joint_type: JointType) -> AssemblyJoint {
    AssemblyJoint {
        id: id.to_string(),
        joint_type,
        source_occurrence_id: "occ_001".to_string(),
        target_occurrence_id: "occ_002".to_string(),
        axis: JointAxis { x: 0.0f64.to_bits(), y: 0.0f64.to_bits(), z: 1.0f64.to_bits() },
        limits: Some(JointLimits { min: (-1.57f64).to_bits(), max: 1.57f64.to_bits() }),
        current_position: 0.0f64.to_bits(),
        degrees_of_freedom: 0,
    }
}

fn two_occurrence_parts() -> AssemblyParts {
    let mut parts = AssemblyParts { occurrences: Vec::new(), mate_constraints: Vec::new(), joints: Vec::new() };
    add_occurrence(&mut parts, occurrence("occ_001", "ent_part_001")).expect("first occurrence");
    add_occurrence(&mut parts, occurrence("occ_002", "ent_part_002")).expect("second occurrence");
    parts
}

#[test]
fn assembly_commands_persist_occurrences_mates_and_emit_solve_status() {
    let mut graph = demo();
    graph.apply_command(CoreCommand::CreateEntity(sample_entity_with_id("ent_part_001", "Part-A"))).expect("part a");
    graph.apply_command(CoreCommand::CreateEntity(sample_entity_with_id("ent_part_002", "Part-B"))).expect("part b");
    assert!(graph.check_occurrence_definition("ent_part_001").is_ok());

    let mut parts = AssemblyParts { occurrences: Vec::new(), mate_constraints: Vec::new(), joints: Vec::new() };
    add_occurrence(&mut parts, occurrence("occ_001", "ent_part_001")).expect("first occurrence");
    let first = plan_assembly(&parts.occurrences, &parts.mate_constraints).err().expect("one occurrence cannot solve");
    assert_eq!(first, AssemblyError::NotEnoughOccurrences);
    assert!(solve_refusal(first).is_none());
    assert_eq!(assembly_event_kind(None, AssemblySolveStatus::Conflicting), "assembly.unsolved");

    add_occurrence(&mut parts, occurrence("occ_002", "ent_part_002")).expect("second occurrence");
    let plan = plan_assembly(&parts.occurrences, &parts.mate_constraints).expect("two occurrences plan");
    assert_eq!(assembly_status(plan.all_connected, false), AssemblySolveStatus::Conflicting);

    add_mate(&mut parts, mate("mate_001", "occ_001", "occ_002")).expect("mate should be added");
    let plan = plan_assembly(&parts.occurrences, &parts.mate_constraints).expect("mated occurrences plan");
    let status = assembly_status(plan.all_connected, false);
    assert_eq!(assembly_event_kind(None, status), "assembly.solved");
    assert_eq!(parts.occurrences.len(), 2);
    assert_eq!(parts.mate_constraints.len(), 1);
}

#[test]
fn assembly_commands_reject_invalid_references_and_duplicates() {
    let mut graph = demo();
    graph.apply_command(CoreCommand::CreateEntity(sample_entity())).expect("part should exist");
    let mut parts = AssemblyParts { occurrences: Vec::new(), mate_constraints: Vec::new(), joints: Vec::new() };
    add_occurrence(&mut parts, occurrence("occ_001", "ent_part_001")).expect("occurrence should be added");

    let duplicate = add_occurrence(&mut parts, occurrence("occ_001", "ent_part_001")).expect_err("duplicate occurrence should fail");
    assert_eq!(duplicate, CoreError::AssemblyOccurrenceAlreadyExists("occ_001".to_string()));

    let missing_definition = graph.check_occurrence_definition("missing").expect_err("missing definition should fail");
    assert_eq!(missing_definition, CoreError::AssemblyDefinitionNotFound("missing".to_string()));

    let missing_mate = remove_mate(&mut parts, "mate_missing").expect_err("missing mate should fail");
    assert_eq!(missing_mate, CoreError::AssemblyMateNotFound("mate_missing".to_string()));
}

#[test]
fn joint_commands_persist_state_and_record_auditable_activity() {
    let mut parts = two_occurrence_parts();
    let mut joint = sample_joint("joint_001", JointType::Revolute);
    prepare_joint(&mut joint).expect("joint should be valid");
    add_joint(&mut parts, joint).expect("joint should be created");
    set_joint_state(&mut parts, "joint_001", 0.5f64.to_bits()).expect("joint state should update");
    assert_eq!(assembly_event_kind(Some("joint.state.changed"), AssemblySolveStatus::Solved), "joint.state.changed");

    assert_eq!(parts.joints.len(), 1);
    assert_eq!(parts.joints[0].degrees_of_freedom, 1);
    assert_eq!(f64::from_bits(parts.joints[0].current_position), 0.5);
}

#[test]
fn joint_commands_reject_invalid_limits_and_state() {
    let mut parts = two_occurrence_parts();

    let mut invalid_occurrence_joint = sample_joint("joint_missing", JointType::Revolute);
    invalid_occurrence_joint.target_occurrence_id = "missing".to_string();
    assert_eq!(add_joint(&mut parts, invalid_occurrence_joint).err(), Some(CoreError::AssemblyJointInvalidOccurrences));

    let mut invalid_limits_joint = sample_joint("joint_invalid", JointType::Prismatic);
    invalid_limits_joint.limits = Some(JointLimits { min: 2.0f64.to_bits(), max: 1.0f64.to_bits() });
    assert_eq!(prepare_joint(&mut invalid_limits_joint).err(), Some(CoreError::AssemblyJointLimitsInvalid));

    let mut fixed_joint = sample_joint("joint_fixed", JointType::Fixed);
    fixed_joint.limits = Some(JointLimits { min: 0.0f64.to_bits(), max: 0.0f64.to_bits() });
    prepare_joint(&mut fixed_joint).expect("fixed joint should be valid");
    add_joint(&mut parts, fixed_joint).expect("fixed joint should be created");

    let invalid_state = set_joint_state(&mut parts, "joint_fixed", 0.1f64.to_bits()).expect_err("fixed joints should reject non-zero state");
    assert_eq!(invalid_state, CoreError::AssemblyJointStateInvalid("fixed joints must stay at position 0".to_string()));
}

#[test]
fn joint_axis_and_state_edge_cases() {
    let zero = JointAxis { x: 0.0f64.to_bits(), y: (-0.0f64).to_bits(), z: f64::EPSILON.to_bits() };
    assert_eq!(validate_joint_axis(zero), Err(CoreError::AssemblyJointAxisInvalid));
    let nan = JointAxis { x: f64::NAN.to_bits(), y: 0, z: 0 };
    assert_eq!(validate_joint_axis(nan), Ok(()));
    let mut joint = sample_joint("j", JointType::Revolute);
    joint.current_position = f64::INFINITY.to_bits();
    assert_eq!(
        prepare_joint(&mut joint).err(),
        Some(CoreError::AssemblyJointStateInvalid("current position must be finite".to_string()))
    );
    let mut parts = two_occurrence_parts();
    let mut ok = sample_joint("j", JointType::Revolute);
    prepare_joint(&mut ok).expect("valid");
    add_joint(&mut parts, ok).expect("added");
    assert_eq!(
        set_joint_state(&mut parts, "j", 2.0f64.to_bits()).err(),
        Some(CoreError::AssemblyJointStateInvalid("current position must stay within joint limits".to_string()))
    );
    assert_eq!(set_joint_state(&mut parts, "k", 0).err(), Some(CoreError::AssemblyJointNotFound("k".to_string())));
}

#[test]
fn mates_and_moves_follow_their_rules() {
    let mut parts = two_occurrence_parts();
    assert_eq!(
        add_mate(&mut parts, mate("m", "occ_001", "nowhere")).err(),
        Some(CoreError::AssemblyOccurrenceNotFound("nowhere".to_string()))
    );
    add_mate(&mut parts, mate("m", "occ_001", "occ_002")).expect("mate");
    assert_eq!(add_mate(&mut parts, mate("m", "occ_002", "occ_001")).err(), Some(CoreError::AssemblyMateAlreadyExists("m".to_string())));
    remove_mate(&mut parts, "m").expect("removed");
    assert!(parts.mate_constraints.is_empty());
    let moved = Transform3D { x_mm: 5.0f64.to_bits(), y_mm: 0, z_mm: 0, yaw_deg: 0 };
    transform_occurrence(&mut parts, "occ_002", moved).expect("moved");
    assert_eq!(parts.occurrences[1].transform, moved);
    assert_eq!(
        transform_occurrence(&mut parts, "occ_404", moved).err(),
        Some(CoreError::AssemblyOccurrenceNotFound("occ_404".to_string()))
    );
}

#[test]
fn project_document_scaffold_has_expected_defaults() {
    let document = ProjectDocument::empty("Demo".to_string());

    assert_eq!(document.metadata.name, "Demo");
    assert_eq!(document.metadata.project_id, "prj_0001");
    assert_eq!(document.metadata.display_units.length, "mm");
    assert!(document.nodes.is_empty());
}
