use faero::ai::{
    collect_gemma3_models, combine_warnings, contains_any_keyword, dedupe_preserving_order,
    degraded_runtime_status, has_large_local_model, language_instruction, model_size_b,
    profile_context_window, resolve_model_selection, resolve_profile_selection,
    runtime_status_from_fetch, runtime_status_from_models, select_default_model, trim_history,
    unavailable_runtime_status, AiConversationMessage, AiProfilePreset, AiRuntimeConfig,
};
use faero::text::parse_u64;

#[test]
fn selects_first_available_preferred_model() {
    let models = vec![
        "phi3:mini".to_string(),
        "gemma3:4b".to_string(),
        "gemma3:27b".to_string(),
        "mistral:7b".to_string(),
    ];
    let preferred = vec![
        "gemma3:27b".to_string(),
        "gemma3:12b".to_string(),
        "gemma3:4b".to_string(),
        "phi3:mini".to_string(),
    ];

    assert_eq!(
        select_default_model(&models, &preferred),
        Some("gemma3:27b".to_string())
    );
}

#[test]
fn select_default_model_falls_back_to_first_or_none() {
    let models = vec!["mistral:7b".to_string()];
    let preferred = vec!["gemma3:27b".to_string()];

    assert_eq!(
        select_default_model(&models, &preferred),
        Some("mistral:7b".to_string())
    );
    assert_eq!(select_default_model(&[], &preferred), None);
}

#[test]
fn resolve_model_selection_prefers_requested_model_and_warns_when_missing() {
    let models = vec![
        "gemma3:27b".to_string(),
        "gemma3:12b".to_string(),
        "phi3:mini".to_string(),
    ];
    let preferred = vec![
        "gemma3:27b".to_string(),
        "gemma3:12b".to_string(),
        "gemma3:4b".to_string(),
        "phi3:mini".to_string(),
    ];

    let requested = resolve_model_selection(&models, &preferred, Some("gemma3:12b"));
    assert_eq!(requested.active_model, Some("gemma3:12b".to_string()));
    assert_eq!(requested.warning, None);

    let missing = resolve_model_selection(&models, &preferred, Some("gemma3:4b"));
    assert_eq!(missing.active_model, Some("gemma3:27b".to_string()));
    assert_eq!(
        missing.warning,
        Some("requested local model `gemma3:4b` not available".to_string())
    );
}

#[test]
fn resolve_profile_selection_degrades_when_local_resources_are_insufficient() {
    let large_models = vec!["gemma3:27b".to_string(), "gemma3:12b".to_string()];
    let small_models = vec!["gemma3:4b".to_string(), "phi3:mini".to_string()];

    let furnace = resolve_profile_selection(&large_models, Some("furnace"));
    assert_eq!(furnace.profile, AiProfilePreset::Furnace);
    assert_eq!(furnace.warning, None);

    let degraded = resolve_profile_selection(&small_models, Some("furnace"));
    assert_eq!(degraded.profile, AiProfilePreset::Balanced);
    assert!(degraded
        .warning
        .as_deref()
        .is_some_and(|warning| warning.contains("degraded")));

    let max_profile = resolve_profile_selection(&large_models, Some("max"));
    assert_eq!(max_profile.profile, AiProfilePreset::Max);
}

#[test]
fn collect_gemma3_models_keeps_only_gemma3_variants() {
    let models = vec![
        "phi3:mini".to_string(),
        "gemma3:12b".to_string(),
        "gemma3:27b".to_string(),
        "mistral:7b".to_string(),
    ];

    assert_eq!(
        collect_gemma3_models(&models),
        vec!["gemma3:12b".to_string(), "gemma3:27b".to_string()]
    );
}

#[test]
fn combine_warnings_covers_all_match_arms() {
    assert_eq!(
        combine_warnings(
            Some("primary warning".to_string()),
            Some("secondary warning".to_string())
        ),
        Some("primary warning; secondary warning".to_string())
    );
    assert_eq!(
        combine_warnings(Some("primary warning".to_string()), None),
        Some("primary warning".to_string())
    );
    assert_eq!(
        combine_warnings(None, Some("secondary warning".to_string())),
        Some("secondary warning".to_string())
    );
    assert_eq!(combine_warnings(None, None), None);
}

#[test]
fn trim_history_keeps_recent_user_and_assistant_messages_only() {
    let history = vec![
        AiConversationMessage {
            role: "system".to_string(),
            content: "ignore".to_string(),
        },
        AiConversationMessage {
            role: "user".to_string(),
            content: "first".to_string(),
        },
        AiConversationMessage {
            role: "assistant".to_string(),
            content: "second".to_string(),
        },
        AiConversationMessage {
            role: "user".to_string(),
            content: "  ".to_string(),
        },
    ];

    let trimmed = trim_history(&history);
    assert_eq!(trimmed.len(), 2);
    assert_eq!(trimmed[0].content, "first");
    assert_eq!(trimmed[1].content, "second");
}

fn config() -> AiRuntimeConfig {
    AiRuntimeConfig::from_settings(None, None, None)
}

#[test]
fn runtime_config_defaults_and_overrides() {
    let defaults = config();
    assert_eq!(defaults.endpoint, "http://127.0.0.1:11434");
    assert_eq!(defaults.timeout_secs, 120);
    assert_eq!(
        defaults.preferred_models,
        vec!["gemma3:27b", "gemma3:12b", "gemma3:4b", "phi3:mini"]
    );

    let custom = AiRuntimeConfig::from_settings(
        Some("http://gpu-box:11434".to_string()),
        Some("45".to_string()),
        Some("gemma3:4b".to_string()),
    );
    assert_eq!(custom.endpoint, "http://gpu-box:11434");
    assert_eq!(custom.timeout_secs, 45);
    assert_eq!(
        custom.preferred_models,
        vec!["gemma3:4b", "gemma3:27b", "gemma3:12b", "phi3:mini"]
    );

    let blank = AiRuntimeConfig::from_settings(
        Some("   ".to_string()),
        Some("soon".to_string()),
        Some(" ".to_string()),
    );
    assert_eq!(blank.endpoint, "http://127.0.0.1:11434");
    assert_eq!(blank.timeout_secs, 120);
    assert_eq!(blank.preferred_models.len(), 4);
}

#[test]
fn parse_u64_follows_str_parse() {
    for text in ["0", "42", "+7", "18446744073709551615", "18446744073709551616", "", "+", "-1", " 4", "4 ", "12a"] {
        assert_eq!(parse_u64(text), text.parse::<u64>().ok(), "input {text:?}");
    }
}

#[test]
fn runtime_status_reports_models_profiles_and_warnings() {
    let models = vec![
        "phi3:mini".to_string(),
        "gemma3:4b".to_string(),
        "gemma3:27b".to_string(),
    ];
    let status = runtime_status_from_models(&config(), models.clone(), None, Some("furnace"));
    assert!(status.available);
    assert_eq!(status.provider, "ollama");
    assert_eq!(status.mode, "grounded-chat");
    assert_eq!(status.active_profile, "furnace");
    assert_eq!(status.available_profiles, vec!["balanced", "max", "furnace"]);
    assert_eq!(status.active_model, Some("gemma3:27b".to_string()));
    assert_eq!(status.gemma3_models, vec!["gemma3:4b", "gemma3:27b"]);
    assert_eq!(status.available_models, models);
    assert_eq!(status.warning, None);

    let missing = runtime_status_from_models(&config(), models, Some("llama3:8b"), Some("max"));
    assert_eq!(
        missing.warning,
        Some("requested local model `llama3:8b` not available".to_string())
    );
}

#[test]
fn unavailable_and_degraded_status_prefix_the_cause() {
    let unavailable = unavailable_runtime_status(&config(), "connection refused".to_string(), Vec::new(), None, Some("max"));
    assert!(!unavailable.available);
    assert_eq!(unavailable.mode, "fallback-local");
    assert_eq!(unavailable.active_profile, "max");
    assert_eq!(unavailable.warning, Some("connection refused".to_string()));

    let degraded = degraded_runtime_status(
        &config(),
        "chat failed".to_string(),
        vec!["phi3:mini".to_string()],
        None,
        Some("max"),
    );
    assert!(degraded.available);
    assert_eq!(degraded.mode, "degraded-chat");
    assert_eq!(
        degraded.warning,
        Some("chat failed; requested AI profile `max` degraded to `balanced` because no 12b+ local model is available".to_string())
    );

    let empty = degraded_runtime_status(&config(), "chat failed".to_string(), Vec::new(), None, None);
    assert!(!empty.available);
    assert_eq!(empty.mode, "fallback-local");
}

#[test]
fn status_from_fetch_distinguishes_success_and_failure() {
    let ok = runtime_status_from_fetch(&config(), Ok(vec!["gemma3:12b".to_string()]), None);
    assert!(ok.available);
    assert_eq!(ok.active_model, Some("gemma3:12b".to_string()));
    let failed = runtime_status_from_fetch(&config(), Err("http error".to_string()), None);
    assert!(!failed.available);
    assert_eq!(failed.mode, "fallback-local");
    assert_eq!(failed.warning, Some("http error".to_string()));
    assert_eq!(failed.active_model, None);
}

#[test]
fn model_sizes_are_read_case_insensitively() {
    assert_eq!(model_size_b("gemma3:27b"), Some(27));
    assert_eq!(model_size_b("Gemma3:12B"), Some(12));
    assert_eq!(model_size_b("gemma3:4b"), Some(4));
    assert_eq!(model_size_b("phi3:mini"), None);
    assert!(has_large_local_model(&["x:12B".to_string()], 12));
    assert!(!has_large_local_model(&["x:4b".to_string()], 12));
}

#[test]
fn profile_requests_are_trimmed_and_default_to_balanced() {
    assert_eq!(AiProfilePreset::from_requested(Some("  max ")), AiProfilePreset::Max);
    assert_eq!(AiProfilePreset::from_requested(Some("furnace")), AiProfilePreset::Furnace);
    assert_eq!(AiProfilePreset::from_requested(Some("turbo")), AiProfilePreset::Balanced);
    assert_eq!(AiProfilePreset::from_requested(None), AiProfilePreset::Balanced);
    assert_eq!(profile_context_window(AiProfilePreset::Furnace), 24_576);
    let furnace_to_max = resolve_profile_selection(&["gemma3:12b".to_string()], Some("furnace"));
    assert_eq!(furnace_to_max.profile, AiProfilePreset::Max);
    let no_models = resolve_profile_selection(&[], Some("furnace"));
    assert_eq!(no_models.profile, AiProfilePreset::Furnace);
    assert_eq!(no_models.warning, None);
}

#[test]
fn trim_history_keeps_only_the_last_eight_turns() {
    let history = (0..12)
        .map(|index| AiConversationMessage {
            role: if index % 2 == 0 { "user" } else { "assistant" }.to_string(),
            content: format!(" turn {index} "),
        })
        .collect::<Vec<_>>();
    let trimmed = trim_history(&history);
    assert_eq!(trimmed.len(), 8);
    assert_eq!(trimmed[0].content, "turn 4");
    assert_eq!(trimmed[7].content, "turn 11");
}

#[test]
fn dedupe_keeps_first_occurrences_in_order() {
    assert_eq!(
        dedupe_preserving_order(vec!["b".to_string(), "a".to_string(), "b".to_string(), "c".to_string(), "a".to_string()]),
        vec!["b", "a", "c"]
    );
}

#[test]
fn keywords_and_language_helpers() {
    assert!(contains_any_keyword("Why is the CELL blocked?", &["blocked", "safety"]));
    assert!(!contains_any_keyword("all good", &["blocked", "safety"]));
    assert_eq!(language_instruction("en"), "in English");
    assert_eq!(language_instruction("es"), "in Spanish");
    assert_eq!(language_instruction("de"), "in French");
    assert_eq!(select_default_model(&[], &[]), None);
    let _ = (collect_gemma3_models(&[]), combine_warnings(None, None), resolve_model_selection(&[], &[], Some("  ")));
}
