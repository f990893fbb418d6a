use faero::plugin_host::{allowed_permissions, validate_manifest, PluginHostError, PluginRegistry};
use faero::types::PluginManifest;

fn sample_manifest(permissions: Vec<&str>) -> PluginManifest {
    PluginManifest {
        id: "ent_plugin_001".to_string(),
        plugin_id: "plg.integration.viewer".to_string(),
        version: "0.1.0".to_string(),
        capabilities: vec!["panel".to_string()],
        permissions: permissions.into_iter().map(str::to_string).collect(),
        entrypoints: vec!["plugins/integration-viewer/index.js".to_string()],
        compatibility: vec!["faero-core@0.1".to_string()],
        status: "installed".to_string(),
    }
}

#[test]
fn rejects_unknown_permissions() {
    let error = validate_manifest(&sample_manifest(vec!["project.read", "system.shell"]))
        .expect_err("unknown permission should be rejected");

    assert_eq!(
        error,
        PluginHostError::UnknownPermission(
            "plg.integration.viewer".to_string(),
            "system.shell".to_string()
        )
    );
}

#[test]
fn install_enable_disable_round_trip() {
    let mut registry = PluginRegistry::default();
    registry
        .install(sample_manifest(vec!["project.read", "integration.observe"]))
        .expect("manifest should install");
    registry
        .enable("plg.integration.viewer")
        .expect("plugin should enable");
    assert!(registry.is_enabled("plg.integration.viewer"));

    registry
        .disable("plg.integration.viewer")
        .expect("plugin should disable");
    assert!(!registry.is_enabled("plg.integration.viewer"));
    assert_eq!(registry.installed_count(), 1);
}

#[test]
fn allowed_permissions_are_the_five_policy_entries_in_order() {
    assert_eq!(
        allowed_permissions(),
        vec![
            "integration.control",
            "integration.observe",
            "plugin.ui.mount",
            "project.read",
            "project.write"
        ]
    );
}

#[test]
fn first_unknown_permission_is_reported() {
    let error = validate_manifest(&sample_manifest(vec!["net.raw", "system.shell"]))
        .expect_err("unknown permission should be rejected");
    assert_eq!(
        error,
        PluginHostError::UnknownPermission("plg.integration.viewer".to_string(), "net.raw".to_string())
    );
    assert_eq!(validate_manifest(&sample_manifest(vec![])), Ok(()));
}

#[test]
fn install_twice_is_refused_and_keeps_the_count() {
    let mut registry = PluginRegistry::new();
    registry.install(sample_manifest(vec!["project.read"])).expect("first install");
    assert_eq!(
        registry.install(sample_manifest(vec!["project.write"])),
        Err(PluginHostError::AlreadyInstalled("plg.integration.viewer".to_string()))
    );
    assert_eq!(registry.installed_count(), 1);
}

#[test]
fn install_with_unknown_permission_leaves_registry_empty() {
    let mut registry = PluginRegistry::new();
    assert!(registry.install(sample_manifest(vec!["system.shell"])).is_err());
    assert_eq!(registry.installed_count(), 0);
}

#[test]
fn enable_and_disable_require_installation() {
    let mut registry = PluginRegistry::new();
    assert_eq!(
        registry.enable("plg.missing"),
        Err(PluginHostError::NotInstalled("plg.missing".to_string()))
    );
    assert_eq!(
        registry.disable("plg.missing"),
        Err(PluginHostError::NotInstalled("plg.missing".to_string()))
    );
    assert!(!registry.is_enabled("plg.missing"));
}

#[test]
fn enabling_twice_and_disabling_a_disabled_plugin_are_idempotent() {
    let mut registry = PluginRegistry::new();
    registry.install(sample_manifest(vec!["plugin.ui.mount"])).expect("install");
    registry.enable("plg.integration.viewer").expect("enable");
    registry.enable("plg.integration.viewer").expect("enable again");
    assert!(registry.is_enabled("plg.integration.viewer"));
    registry.disable("plg.integration.viewer").expect("disable");
    assert!(!registry.is_enabled("plg.integration.viewer"));
    registry.disable("plg.integration.viewer").expect("disable again");
    assert!(!registry.is_enabled("plg.integration.viewer"));
}
