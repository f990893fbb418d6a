use faero::safety::{
    evaluate_safety, SafetyInterlock, SafetyStatus, SafetyZone, SafetyZoneKind,
};

#[test]
fn blocks_an_action_when_an_active_protective_zone_matches() {
    let evaluation = evaluate_safety(
        &[SafetyZone {
            id: "zone_stop".to_string(),
            kind: SafetyZoneKind::ProtectiveStop,
            active: true,
        }],
        &[SafetyInterlock {
            id: "int_stop".to_string(),
            source_zone_id: "zone_stop".to_string(),
            inhibited_action: "robot.move".to_string(),
            requires_manual_reset: true,
        }],
        "robot.move",
    );

    assert_eq!(evaluation.status, SafetyStatus::Blocked);
    assert!(evaluation.inhibited);
    assert_eq!(evaluation.cause_zone_ids, vec!["zone_stop".to_string()]);
    assert_eq!(evaluation.blocking_interlock_count, 1);
}

#[test]
fn ignores_inactive_zones() {
    let evaluation = evaluate_safety(
        &[SafetyZone {
            id: "zone_stop".to_string(),
            kind: SafetyZoneKind::ProtectiveStop,
            active: false,
        }],
        &[SafetyInterlock {
            id: "int_stop".to_string(),
            source_zone_id: "zone_stop".to_string(),
            inhibited_action: "robot.move".to_string(),
            requires_manual_reset: true,
        }],
        "robot.move",
    );

    assert_eq!(evaluation.status, SafetyStatus::Clear);
    assert!(!evaluation.inhibited);
    assert!(evaluation.cause_zone_ids.is_empty());
}

#[test]
fn warns_when_only_advisory_zones_are_active() {
    let evaluation = evaluate_safety(
        &[SafetyZone {
            id: "zone_warn".to_string(),
            kind: SafetyZoneKind::Warning,
            active: true,
        }],
        &[],
        "robot.move",
    );

    assert_eq!(evaluation.status, SafetyStatus::Warning);
    assert!(!evaluation.inhibited);
    assert_eq!(evaluation.advisory_zone_count, 1);
}

#[test]
fn ignores_interlocks_for_other_actions() {
    let evaluation = evaluate_safety(
        &[SafetyZone {
            id: "zone_warn".to_string(),
            kind: SafetyZoneKind::LidarProtective,
            active: true,
        }],
        &[SafetyInterlock {
            id: "int_stop".to_string(),
            source_zone_id: "zone_warn".to_string(),
            inhibited_action: "robot.stop".to_string(),
            requires_manual_reset: false,
        }],
        "robot.move",
    );

    assert_eq!(evaluation.status, SafetyStatus::Clear);
    assert!(!evaluation.inhibited);
}

#[test]
fn blocking_outranks_warning_and_counts_every_firing_interlock() {
    let zones = [
        SafetyZone { id: "z_warn".to_string(), kind: SafetyZoneKind::Warning, active: true },
        SafetyZone { id: "z_stop".to_string(), kind: SafetyZoneKind::ProtectiveStop, active: true },
        SafetyZone { id: "z_off".to_string(), kind: SafetyZoneKind::Warning, active: false },
    ];
    let interlocks = [
        SafetyInterlock {
            id: "i1".to_string(),
            source_zone_id: "z_stop".to_string(),
            inhibited_action: "robot.move".to_string(),
            requires_manual_reset: true,
        },
        SafetyInterlock {
            id: "i2".to_string(),
            source_zone_id: "z_off".to_string(),
            inhibited_action: "robot.move".to_string(),
            requires_manual_reset: false,
        },
        SafetyInterlock {
            id: "i3".to_string(),
            source_zone_id: "z_warn".to_string(),
            inhibited_action: "robot.move".to_string(),
            requires_manual_reset: false,
        },
    ];
    let evaluation = evaluate_safety(&zones, &interlocks, "robot.move");
    assert_eq!(evaluation.status, SafetyStatus::Blocked);
    assert_eq!(evaluation.cause_zone_ids, vec!["z_stop".to_string(), "z_warn".to_string()]);
    assert_eq!(evaluation.blocking_interlock_count, 2);
    assert_eq!(evaluation.active_zone_count, 2);
    assert_eq!(evaluation.advisory_zone_count, 1);
}

#[test]
fn no_zones_means_clear() {
    let evaluation = evaluate_safety(&[], &[], "robot.move");
    assert_eq!(evaluation.status, SafetyStatus::Clear);
    assert_eq!(evaluation.active_zone_count, 0);
}
