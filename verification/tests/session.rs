use faero::json::{JsonNumber, JsonValue};
use faero::project::{CoreError, EntityData, EntityRecord, ProjectDocument, ProjectGraph};
use faero::safety::{SafetyInterlock, SafetyZone, SafetyZoneKind};
use faero::session::{
    edit_entity_name, edit_entity_tags, parse_shell_command, review_open_spec, simulation_run_request, SessionStep, ShellCommand, WorkspaceSession,
};
use faero::snapshot::{open_spec_summaries, plugin_summaries, recent_activity};
use faero::types::{OpenSpecDocument, SignalValue};
use faero::workspace::{robot_cell_control_model, sample_safety_interlocks, sample_safety_zones, RobotCellEntitySummary};

fn model(value: &serde_json::Value) -> JsonValue {
    match value {
        serde_json::Value::Null => JsonValue::Null,
        serde_json::Value::Bool(b) => JsonValue::Bool(*b),
        serde_json::Value::Number(n) => JsonValue::Number(if let Some(u) = n.as_u64() {
            JsonNumber::PosInt(u)
        } else if let Some(i) = n.as_i64() {
            JsonNumber::NegInt(i)
        } else {
            JsonNumber::Float(n.as_f64().expect("finite").to_bits())
        }),
        serde_json::Value::String(s) => JsonValue::Text(s.clone()),
        serde_json::Value::Array(items) => JsonValue::array(items.iter().map(model).collect()),
        serde_json::Value::Object(map) => JsonValue::object(map.iter().map(|(k, v)| (k.clone(), model(v))).collect()),
    }
}

fn json(text: &str) -> JsonValue {
    model(&serde_json::from_str(text).expect("test json should parse"))
}


fn open_spec(id: &str, title: &str, updated_at: &str) -> OpenSpecDocument {
    OpenSpecDocument {
        id: id.to_string(),
        title: title.to_string(),
        kind: "spec".to_string(),
        status: "draft".to_string(),
        body_format: "markdown".to_string(),
        entity_refs: Vec::new(),
        external_refs: Vec::new(),
        tags: Vec::new(),
        updated_at: updated_at.to_string(),
        content: "# Titre\nCorps".to_string(),
    }
}

fn document_with_specs() -> ProjectDocument {
    let mut document = ProjectDocument::empty("Pick And Place Demo".to_string());
    document
        .open_spec_documents
        .insert("ops_001".to_string(), open_spec("ops_001", "Cellule", "2026-04-01T10:00:00Z"));
    document
        .open_spec_documents
        .insert("ops_002".to_string(), open_spec("ops_002", "Securite", "2026-04-03T10:00:00Z"));
    document
}

fn done(step: SessionStep) -> faero::session::CommandResult {
    match step {
        SessionStep::Done(result) => result,
        SessionStep::Refused(error) => panic!("command refused: {:?}", error),
        SessionStep::Delegated(command) => panic!("command handed back: {:?}", command),
    }
}

#[test]
fn help_openspec_reports_readable_documents_and_logs_activity() {
    let document = document_with_specs();
    let mut session = WorkspaceSession::open("pick-and-place-demo".to_string(), ProjectGraph::from_document(document));

    let result = done(session.execute_command("help.openspec"));
    let open_specs = open_spec_summaries(session.graph.document());
    let activity = recent_activity(session.graph.document(), &session.system_activity);

    assert_eq!(result.status, "applied");
    assert!(result.message.contains("document(s) OpenSpec"));
    assert_eq!(open_specs.len(), 2);
    assert!(activity.iter().any(|entry| entry.kind == "help.openspec.reviewed"));
}

#[test]
fn openspec_review_names_the_latest_document() {
    let mut session = WorkspaceSession::open("fixture".to_string(), ProjectGraph::from_document(document_with_specs()));
    let result = done(session.execute_command("help.openspec"));
    assert_eq!(result.message, "2 document(s) OpenSpec lisible(s) | dernier: Securite");
    let entry = session.system_activity.last().expect("the review is logged");
    assert_eq!(entry.target_id.as_deref(), Some("ops_002"));

    let mut empty = WorkspaceSession::empty("Vide".to_string());
    let result = done(empty.execute_command("help.openspec"));
    assert_eq!(result.message, "aucun document OpenSpec enregistre dans ce projet");
    assert_eq!(empty.system_activity[1].target_id, None);
}

#[test]
fn openspec_review_keeps_the_last_of_equal_dates() {
    let mut document = ProjectDocument::empty("Demo".to_string());
    document.open_spec_documents.insert("a".to_string(), open_spec("a", "First", "2026-04-03"));
    document.open_spec_documents.insert("b".to_string(), open_spec("b", "Second", "2026-04-03"));
    document.open_spec_documents.insert("c".to_string(), open_spec("c", "Older", "2026-04-01"));
    let (count, id, title) = review_open_spec(&document);
    assert_eq!(count, 3);
    assert_eq!(id.as_deref(), Some("b"));
    assert_eq!(title.as_deref(), Some("Second"));
}

#[test]
fn system_journal_numbers_and_clocks_its_entries() {
    let mut session = WorkspaceSession::empty("Demo".to_string());
    assert_eq!(session.fixture_id, "session:untitled");
    assert_eq!(session.system_activity.len(), 1);
    assert_eq!(session.system_activity[0].id, "sys_0001");
    assert_eq!(session.system_activity[0].channel, "system");
    assert_eq!(session.system_activity[0].kind, "workspace.created");
    assert_eq!(session.system_activity[0].timestamp, "2026-04-06T12:00:01Z");
    session.system_counter = 125;
    session.push_system_activity("project.saved", None);
    let entry = session.system_activity.last().expect("an entry was added");
    assert_eq!(entry.id, "sys_0125");
    assert_eq!(entry.timestamp, "2026-04-06T12:02:05Z");
    assert_eq!(session.system_counter, 126);
}

#[test]
fn unknown_commands_are_simulated_and_new_projects_reset_the_session() {
    let mut session = WorkspaceSession::open("fixture".to_string(), ProjectGraph::from_document(document_with_specs()));
    let result = done(session.execute_command("view.zoom_in"));
    assert_eq!(result.command_id, "view.zoom_in");
    assert_eq!(result.status, "simulated");
    assert_eq!(result.message, "commande simulee dans le shell desktop");
    assert_eq!(session.system_activity[1].kind, "command.simulated");
    assert_eq!(session.system_activity[1].target_id.as_deref(), Some("view.zoom_in"));

    let result = done(session.execute_command("project.create"));
    assert_eq!(result.message, "nouveau projet de session cree");
    assert_eq!(session.fixture_id, "session:untitled");
    assert_eq!(session.graph.project_name(), "FutureAero Session");
    assert_eq!(session.system_activity.len(), 1);
    assert_eq!(session.system_counter, 2);
}

#[test]
fn simulation_runs_are_handed_back_to_the_engine() {
    let mut session = WorkspaceSession::empty("Demo".to_string());
    match session.execute_command("simulation.run.start") {
        SessionStep::Delegated(command) => assert_eq!(command, ShellCommand::SimulationRunStart),
        _ => panic!("a run needs the simulation engine"),
    }
    assert_eq!(session.system_activity.len(), 1);
    assert_eq!(parse_shell_command("project.save_all"), ShellCommand::ProjectSaveAll);
    assert_eq!(parse_shell_command("analyze.validation_report"), ShellCommand::AnalyzeValidationReport);
    assert_eq!(parse_shell_command("project.save "), ShellCommand::Simulated);
}

fn cell_summary(target_count: usize) -> RobotCellEntitySummary {
    RobotCellEntitySummary {
        scene_assembly_id: None,
        target_preview: None,
        target_count,
        path_length_mm: 1850.5_f64.to_bits(),
        max_segment_mm: 0,
        estimated_cycle_time_ms: 3497,
        equipment_count: 2,
        sequence_count: 1,
        safety_zone_count: 2,
        signal_count: 3,
        controller_transition_count: 4,
        blocked_sequence_detected: false,
        blocked_state_id: None,
        warning_count: 0,
    }
}

#[test]
fn run_request_follows_the_cell_and_its_safety() {
    let zones = sample_safety_zones();
    let interlocks = sample_safety_interlocks();
    let request = simulation_run_request(
        "ent_cell_001",
        "Cellule Demo",
        &cell_summary(4),
        robot_cell_control_model("ent_cell_001", true),
        &zones,
        &interlocks,
        2,
    );
    assert_eq!(request.scenario_name, "Cellule Demo");
    assert_eq!(request.seed, 4 * 97 + 2 * 17);
    assert_eq!(request.engine_version, "faero-sim@0.2.0");
    assert_eq!(request.step_count, 16);
    assert_eq!(request.planned_cycle_time_ms, 3497);
    assert_eq!(request.endpoint_count, 2);
    assert_eq!(request.safety_zone_count, 2);
    assert!(request.controller.is_some());
    assert_eq!(request.scheduled_signal_changes.len(), 3);
    assert_eq!(request.scheduled_signal_changes[2].step_index, 7);
    assert!(matches!(request.scheduled_signal_changes[0].value, SignalValue::Bool(true)));
    assert_eq!(request.contact_pairs.len(), 2);
    assert_eq!(request.contact_pairs[0].id, "pair_001_tool_fixture");

    let blocking = vec![SafetyZone { id: "zone_lidar".to_string(), kind: SafetyZoneKind::LidarProtective, active: true }];
    let stop = vec![SafetyInterlock {
        id: "int_stop".to_string(),
        source_zone_id: "zone_lidar".to_string(),
        inhibited_action: "robot.move".to_string(),
        requires_manual_reset: true,
    }];
    let inhibited = simulation_run_request(
        "ent_cell_001",
        "Cellule Demo",
        &cell_summary(1),
        robot_cell_control_model("ent_cell_001", false),
        &blocking,
        &stop,
        0,
    );
    assert_eq!(inhibited.step_count, 12);
    assert_eq!(inhibited.seed, 97);
    assert_eq!(inhibited.scheduled_signal_changes.len(), 2);
    assert!(matches!(inhibited.scheduled_signal_changes[1].value, SignalValue::Scalar(bits) if bits == 0.62_f64.to_bits()));
}

fn explained_response(document: &ProjectDocument, with_explanation: bool) -> faero::assistant::AiChatResponse {
    let config = faero::ai::AiRuntimeConfig {
        endpoint: "http://127.0.0.1:11434".to_string(),
        timeout_secs: 5,
        preferred_models: vec!["gemma3:4b".to_string()],
    };
    let runtime = faero::ai::unavailable_runtime_status(&config, "down".to_string(), Vec::new(), None, None);
    let structured = if with_explanation {
        Some(faero::explain::build_structured_explain(document, "etat", faero::ai::AiProfilePreset::Balanced))
    } else {
        None
    };
    faero::assistant::fallback_response("fr", "etat", document, structured, runtime)
}

#[test]
fn first_ai_record_opens_a_session() {
    let document = document_with_specs();
    let response = explained_response(&document, true);
    let plan = faero::session::record_plan(&document, faero::session::latest_ai_session(&document), &response)
        .expect("an explained answer can be recorded");
    assert_eq!(plan.suggestion_id, "ent_ai_suggestion_001");
    assert_eq!(plan.session_entity_id, "ent_ai_session_002");
    assert!(!plan.replace_session);
    assert_eq!(plan.session_id, "ai_session_001");
    assert_eq!(plan.created_suggestion_ids, vec!["ent_ai_suggestion_001".to_string()]);
    assert!(plan.accepted_suggestion_ids.is_empty());
    assert_eq!(plan.model_info, "ollama:fallback-local");
    assert_eq!(plan.critic_model_info, "ollama:balanced:critic");
    assert_eq!(plan.critique_pass_count, 1);
    assert_eq!(plan.risk_level, "low");

    let unexplained = explained_response(&document, false);
    let refused = faero::session::record_plan(&document, None, &unexplained);
    assert_eq!(refused, Err("structured AI response missing".to_string()));
}

#[test]
fn later_ai_records_extend_the_latest_session() {
    let mut document = document_with_specs();
    document.nodes.insert(
        "ent_ai_session_002".to_string(),
        faero::project::EntityRecord {
            id: "ent_ai_session_002".to_string(),
            entity_type: "AiSession".to_string(),
            name: "AI Session".to_string(),
            revision: "rev_001".to_string(),
            status: "active".to_string(),
            data: faero::project::EntityData::Json(json(
                r#"{"sessionId":"ai_session_007","createdSuggestionIds":["ent_ai_suggestion_001"],"acceptedSuggestionIds":["ent_ai_suggestion_001",4]}"#,
            )),
        },
    );
    let response = explained_response(&document, true);
    let plan = faero::session::record_plan(&document, faero::session::latest_ai_session(&document), &response)
        .expect("an explained answer can be recorded");
    assert_eq!(plan.suggestion_id, "ent_ai_suggestion_002");
    assert_eq!(plan.session_entity_id, "ent_ai_session_002");
    assert!(plan.replace_session);
    assert_eq!(plan.session_id, "ai_session_007");
    assert_eq!(
        plan.created_suggestion_ids,
        vec!["ent_ai_suggestion_001".to_string(), "ent_ai_suggestion_002".to_string()]
    );
    assert_eq!(plan.accepted_suggestion_ids, vec!["ent_ai_suggestion_001".to_string()]);
}

#[test]
fn property_edits_trim_names_and_tags() {
    assert_eq!(edit_entity_name(Some("  Bracket-B  "), "Bracket-A"), Ok("Bracket-B".to_string()));
    assert_eq!(edit_entity_name(Some("   "), "Bracket-A"), Ok("Bracket-A".to_string()));
    assert_eq!(edit_entity_name(None, " "), Err("le nom ne peut pas etre vide".to_string()));

    let current = vec![Some(" keep ".to_string()), None];
    assert_eq!(edit_entity_tags(None, current.clone()), Ok(vec![" keep ".to_string()]));
    assert_eq!(edit_entity_tags(Some(None), current.clone()), Err("tags doit rester un tableau".to_string()));
    assert_eq!(
        edit_entity_tags(Some(Some(vec![Some(" a ".to_string()), Some("  ".to_string()), None, Some("b".to_string())])), current),
        Ok(vec!["a".to_string(), "b".to_string()])
    );
}

#[test]
fn plugin_command_installs_then_toggles_the_runtime_plugin() {
    let mut session = WorkspaceSession::empty("Demo".to_string());
    let installed = done(session.execute_command("plugin.manage"));
    assert_eq!(installed.command_id, "plugin.manage");
    assert_eq!(installed.status, "applied");
    assert_eq!(installed.message, "plugin runtime installe et active");
    assert_eq!(session.graph.plugin_state().get("plg.desktop.runtime"), Some(&true));
    assert_eq!(session.graph.document().commands.len(), 2);

    let disabled = done(session.execute_command("plugin.manage"));
    assert_eq!(disabled.message, "plugin runtime desactive");
    assert_eq!(session.graph.plugin_state().get("plg.desktop.runtime"), Some(&false));
    let enabled = done(session.execute_command("plugin.manage"));
    assert_eq!(enabled.message, "plugin runtime active");
    assert_eq!(session.graph.plugin_count(), 1);
    assert_eq!(session.graph.document().commands.len(), 4);
}

fn part_entity(index: usize) -> EntityRecord {
    // The shell regenerates the part's geometry in floating point; this is
    // the entity it hands back, with its parameters.
    let width = 120.0 + index as f64 * 12.0;
    let height = 80.0 + index as f64 * 6.0;
    let depth = 10.0 + index as f64 * 2.0;
    EntityRecord {
        id: format!("ent_part_{index:03}"),
        entity_type: "Part".to_string(),
        name: format!("Part-{index:03}"),
        revision: "rev_seed".to_string(),
        status: "active".to_string(),
        data: EntityData::Json(json(&format!(
            r#"{{"geometrySource":"parametric_sketch_extrude","tags":["part","parametric"],"parameterSet":{{"widthMm":{width:.1},"heightMm":{height:.1},"depthMm":{depth:.1}}}}}"#
        ))),
    }
}

fn create_part(session: &mut WorkspaceSession) -> faero::session::CommandResult {
    match session.execute_command("entity.create.part") {
        SessionStep::Delegated(ShellCommand::CreatePart) => {
            let index = session.graph.entity_count() + 1;
            session
                .complete_entity_creation("entity.create.part", part_entity(index), "piece parametrique regeneree".to_string())
                .expect("part should be created")
        }
        _ => panic!("part creation needs the geometry kernel"),
    }
}

#[test]
fn workspace_session_applies_entity_endpoint_and_plugin_commands() {
    let mut session = WorkspaceSession::empty("Session".to_string());

    create_part(&mut session);
    done(session.execute_command("entity.create.external_endpoint"));
    done(session.execute_command("plugin.manage"));

    let plugins = plugin_summaries(session.graph.document());
    assert_eq!(session.graph.entity_count(), 1);
    assert_eq!(session.graph.endpoint_count(), 1);
    assert_eq!(session.graph.stream_count(), 1);
    assert_eq!(session.graph.plugin_count(), 1);
    assert!(plugins[0].enabled);
}

#[test]
fn created_entities_are_refused_twice() {
    let mut session = WorkspaceSession::empty("Session".to_string());
    let created = create_part(&mut session);
    assert_eq!(created.status, "applied");
    let again = session.complete_entity_creation("entity.create.part", part_entity(1), "x".to_string());
    assert!(matches!(again, Err(CoreError::EntityAlreadyExists(id)) if id == "ent_part_001"));
}

#[test]
fn fixture_replay_and_validation_report_only_journal() {
    let mut session = WorkspaceSession::open("fixture-a".to_string(), ProjectGraph::from_document(document_with_specs()));
    let replay = done(session.execute_command("test.run_fixture"));
    assert_eq!(replay.status, "simulated");
    assert_eq!(replay.message, "fixture de test rejouee");
    let report = done(session.execute_command("analyze.validation_report"));
    assert_eq!(report.message, "rapport de validation genere");
    assert_eq!(session.system_activity[1].kind, "test.fixture.executed");
    assert_eq!(session.system_activity[2].kind, "analysis.validation.generated");
    assert_eq!(session.system_activity[2].target_id.as_deref(), Some("fixture-a"));
}

#[test]
fn saves_are_journaled_with_their_path() {
    let mut session = WorkspaceSession::empty("Session".to_string());
    match session.execute_command("project.export") {
        SessionStep::Delegated(ShellCommand::ProjectExport) => {}
        _ => panic!("exports write to disk"),
    }
    let result = session.record_saved(ShellCommand::ProjectExport, "artifacts/exports/session.faero");
    assert_eq!(result.command_id, "project.export");
    assert_eq!(result.message, "export du projet cree dans artifacts/exports/session.faero");
    let entry = session.system_activity.last().expect("logged");
    assert_eq!(entry.kind, "project.exported");
    assert_eq!(entry.id, "sys_0002");
}

#[test]
fn sample_endpoints_take_the_stubs_in_turn() {
    let (ros2, stream) = faero::session::sample_endpoint_with_stream(1);
    assert_eq!(ros2.id, "ext_ros2_001");
    assert_eq!(ros2.name, "ROS2 Bridge 001");
    assert_eq!(ros2.addressing.host.as_deref(), Some("ros2-001.local"));
    assert_eq!(ros2.signal_map_ids, vec!["sig_ros2_001".to_string()]);
    assert_eq!(stream.id, "str_ros2_001");
    assert_eq!(stream.name, "Telemetry-ros2-001");
    assert_eq!(stream.endpoint_id, "ext_ros2_001");
    assert_eq!(stream.stream_type, "ros2_topic");
    assert_eq!(stream.codec_profile, json(r#"{"encoding":"json"}"#));

    let (ble, stream) = faero::session::sample_endpoint_with_stream(12);
    assert_eq!(ble.id, "ext_ble_012");
    assert_eq!(stream.stream_type, "gatt_characteristic");
    let (robot, _) = faero::session::sample_endpoint_with_stream(10);
    assert_eq!(robot.id, "ext_robot_010");
}

#[test]
fn endpoint_command_registers_the_next_sample() {
    let mut session = WorkspaceSession::empty("Demo".to_string());
    let result = done(session.execute_command("entity.create.external_endpoint"));
    assert_eq!(result.message, "endpoint externe, binding et flux telemetrie ajoutes");
    assert_eq!(session.graph.endpoint_count(), 1);
    assert_eq!(session.graph.stream_count(), 1);
    assert!(session.graph.document().endpoints.get("ext_ros2_001").is_some());
    assert!(session.graph.document().streams.get("str_ros2_001").is_some());
    done(session.execute_command("entity.create.external_endpoint"));
    assert!(session.graph.document().endpoints.get("ext_opcua_002").is_some());
    assert_eq!(session.graph.document().commands.len(), 4);
}
