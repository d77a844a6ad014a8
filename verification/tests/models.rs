use alert_timer::{
    alert_payloads, snapshot_from_phase, AlertPhase, AlertSnapshot, AppSettings, OverlaySettings,
    SkillProfile, TimerPhase,
};

fn settings_with_profile(profile: SkillProfile) -> AppSettings {
    AppSettings {
        profiles: vec![profile],
        overlay: OverlaySettings {
            border_thickness_px: 8,
        },
    }
}

fn valid_profile() -> SkillProfile {
    SkillProfile {
        id: "janus".to_string(),
        name: "야누스".to_string(),
        key: "A".to_string(),
        duration_seconds: 120,
        warning_before_seconds: 5,
        color: "#ff3344".to_string(),
        cycle_key_count: 3,
        enabled: true,
    }
}

#[test]
fn default_janus_key_is_closing_bracket() {
    let settings = AppSettings::default();

    assert_eq!(settings.profiles[0].id, "janus");
    assert_eq!(settings.profiles[0].key, "]");
}

#[test]
fn validation_accepts_inclusive_boundary_values() {
    let mut profile = valid_profile();
    profile.duration_seconds = 5;
    profile.warning_before_seconds = 4;
    profile.cycle_key_count = 1;
    profile.color = "#A1b2C3".to_string();

    let mut settings = settings_with_profile(profile);
    settings.overlay.border_thickness_px = 2;
    assert!(settings.validate().is_ok());

    settings.overlay.border_thickness_px = 32;
    settings.profiles[0].duration_seconds = 3600;
    settings.profiles[0].warning_before_seconds = 3599;
    settings.profiles[0].cycle_key_count = 10;
    assert!(settings.validate().is_ok());
}

#[test]
fn validation_rejects_values_just_outside_boundaries() {
    let mut settings = settings_with_profile(valid_profile());

    settings.overlay.border_thickness_px = 1;
    assert!(settings.validate().is_err());
    settings.overlay.border_thickness_px = 33;
    assert!(settings.validate().is_err());
    settings.overlay.border_thickness_px = 8;

    settings.profiles[0].duration_seconds = 4;
    assert!(settings.validate().is_err());
    settings.profiles[0].duration_seconds = 3601;
    assert!(settings.validate().is_err());
    settings.profiles[0].duration_seconds = 120;

    settings.profiles[0].warning_before_seconds = 120;
    assert!(settings.validate().is_err());
    settings.profiles[0].warning_before_seconds = 5;

    settings.profiles[0].cycle_key_count = 0;
    assert!(settings.validate().is_err());
    settings.profiles[0].cycle_key_count = 11;
    assert!(settings.validate().is_err());
    settings.profiles[0].cycle_key_count = 3;
}

#[test]
fn validation_allows_blank_key_only_when_profile_is_disabled() {
    let mut profile = valid_profile();
    profile.key = " ".to_string();
    assert!(settings_with_profile(profile.clone()).validate().is_err());

    profile.enabled = false;
    assert!(settings_with_profile(profile).validate().is_ok());
}

#[test]
fn validation_rejects_empty_identity_fields() {
    let mut profile = valid_profile();
    profile.id = " ".to_string();
    assert!(settings_with_profile(profile).validate().is_err());

    let mut profile = valid_profile();
    profile.name = " ".to_string();
    assert!(settings_with_profile(profile).validate().is_err());
}

#[test]
fn validation_rejects_non_hex_colors() {
    let mut profile = valid_profile();
    profile.color = "#zzzzzz".to_string();

    assert!(settings_with_profile(profile).validate().is_err());
}

#[test]
fn timer_profile_conversion_uses_milliseconds() {
    let profile = valid_profile();
    let timer_profile = profile.to_timer_profile();

    assert_eq!(timer_profile.id, "janus");
    assert_eq!(timer_profile.duration_ms, 120_000);
    assert_eq!(timer_profile.warning_before_ms, 5_000);
    assert_eq!(timer_profile.cycle_key_count, 3);
}

#[test]
fn snapshots_and_alert_payloads_map_phases_for_frontend() {
    let timer_profile = valid_profile().to_timer_profile();

    assert_eq!(
        snapshot_from_phase(&timer_profile, TimerPhase::Waiting).phase,
        "waiting"
    );
    assert_eq!(
        snapshot_from_phase(&timer_profile, TimerPhase::Waiting).warning_before_ms,
        5_000
    );
    assert_eq!(
        snapshot_from_phase(&timer_profile, TimerPhase::Running { remaining_ms: 1 }).phase,
        "running"
    );
    assert_eq!(
        snapshot_from_phase(&timer_profile, TimerPhase::Warning { remaining_ms: 1 }).phase,
        "warning"
    );
    assert_eq!(
        snapshot_from_phase(&timer_profile, TimerPhase::Expired { overdue_ms: 1 }).phase,
        "expired"
    );

    let payloads = alert_payloads(&[
        AlertSnapshot {
            profile_id: "warning".to_string(),
            name: "warning".to_string(),
            color: "#111111".to_string(),
            phase: AlertPhase::Warning,
            remaining_ms: Some(1),
            overdue_ms: None,
        },
        AlertSnapshot {
            profile_id: "expired".to_string(),
            name: "expired".to_string(),
            color: "#222222".to_string(),
            phase: AlertPhase::Expired,
            remaining_ms: None,
            overdue_ms: Some(1),
        },
    ]);

    assert_eq!(payloads[0].phase, "warning");
    assert_eq!(payloads[1].phase, "expired");
}
