use alert_timer::{
    inactive_overlay_payload, key_diagnostic, key_name_from_vk, overlay_frame, overlay_payload,
    relaunch_as_admin, status, timer_snapshots, AlertPhase, AlertSnapshot, AppSettings, KeyPress,
    OverlaySettings, SkillProfile, TimerEngine, CYCLE_RESET_AFTER_MS,
};

fn valid_profile(name: &str) -> SkillProfile {
    SkillProfile {
        id: name.to_string(),
        name: name.to_string(),
        key: "A".to_string(),
        duration_seconds: 120,
        warning_before_seconds: 5,
        color: "#ff3344".to_string(),
        cycle_key_count: 3,
        enabled: true,
    }
}

fn settings(profiles: Vec<SkillProfile>, border: u16) -> AppSettings {
    AppSettings {
        profiles,
        overlay: OverlaySettings {
            border_thickness_px: border,
        },
    }
}

#[test]
fn default_settings_pass_validation() {
    assert_eq!(AppSettings::default().validate(), Ok(()));
}

#[test]
fn border_error_is_reported_before_profile_errors() {
    let mut broken = valid_profile("x");
    broken.duration_seconds = 1;
    assert_eq!(
        settings(vec![broken], 40).validate(),
        Err("테두리 두께는 2-32px 사이여야 합니다.".to_string())
    );
}

#[test]
fn each_rule_reports_its_own_message() {
    let check = |edit: fn(&mut SkillProfile), expected: &str| {
        let mut p = valid_profile("야누스");
        edit(&mut p);
        assert_eq!(settings(vec![p], 8).validate(), Err(expected.to_string()));
    };
    check(|p| p.id = "\t".to_string(), "프로필 ID가 비어 있습니다.");
    check(|p| p.name = "".to_string(), "프로필 이름이 비어 있습니다.");
    check(|p| p.key = " ".to_string(), "야누스 프로필의 키가 비어 있습니다.");
    check(|p| p.duration_seconds = 3_601, "야누스 타이머는 5-3600초 사이여야 합니다.");
    check(
        |p| p.warning_before_seconds = 120,
        "야누스 점멸 시작 시간은 타이머 시간보다 작아야 합니다.",
    );
    check(
        |p| p.cycle_key_count = 0,
        "야누스 한 사이클 키 입력 수는 1-10 사이여야 합니다.",
    );
    check(|p| p.color = "#12345".to_string(), "야누스 색상은 #RRGGBB 형식이어야 합니다.");
    check(|p| p.color = "ff33440".to_string(), "야누스 색상은 #RRGGBB 형식이어야 합니다.");
    check(|p| p.color = "#ab\u{e9}cd".to_string(), "야누스 색상은 #RRGGBB 형식이어야 합니다.");
}

#[test]
fn the_first_broken_profile_is_reported() {
    let mut first = valid_profile("first");
    first.cycle_key_count = 11;
    let mut second = valid_profile("second");
    second.duration_seconds = 0;
    assert_eq!(
        settings(vec![valid_profile("ok"), first, second], 8).validate(),
        Err("first 한 사이클 키 입력 수는 1-10 사이여야 합니다.".to_string())
    );
}

#[test]
fn conversion_saturates_huge_durations_and_sets_cycle_reset_time() {
    let mut p = valid_profile("x");
    p.duration_seconds = u64::MAX;
    p.warning_before_seconds = u64::MAX / 1000;
    let profiles = settings(vec![p], 8).to_timer_profiles();
    assert_eq!(profiles.len(), 1);
    assert_eq!(profiles[0].duration_ms, u64::MAX);
    assert_eq!(profiles[0].warning_before_ms, (u64::MAX / 1000) * 1000);
    assert_eq!(profiles[0].cycle_reset_after_ms, CYCLE_RESET_AFTER_MS);
    assert_eq!(CYCLE_RESET_AFTER_MS, 30_000);
}

#[test]
fn key_names_cover_digits_letters_function_and_named_keys() {
    assert_eq!(key_name_from_vk(0x30), Some("0".to_string()));
    assert_eq!(key_name_from_vk(0x5A), Some("Z".to_string()));
    assert_eq!(key_name_from_vk(0x70), Some("F1".to_string()));
    assert_eq!(key_name_from_vk(0x79), Some("F10".to_string()));
    assert_eq!(key_name_from_vk(0x87), Some("F24".to_string()));
    assert_eq!(key_name_from_vk(0x21), Some("PageUp".to_string()));
    assert_eq!(key_name_from_vk(0x1B), Some("Escape".to_string()));
    assert_eq!(key_name_from_vk(0x2F), None);
    assert_eq!(key_name_from_vk(0x88), None);
}

#[test]
fn relaunch_outcomes() {
    assert_eq!(
        relaunch_as_admin(None),
        Err("관리자 권한 재시작은 Windows에서만 지원됩니다.".to_string())
    );
    assert_eq!(relaunch_as_admin(Some((33, 5))), Ok(()));
    assert_eq!(
        relaunch_as_admin(Some((32, 1223))),
        Err("관리자 권한 재시작 요청에 실패했습니다. Windows error code: 1223".to_string())
    );
    assert_eq!(
        relaunch_as_admin(Some((0, 0))),
        Err("관리자 권한 재시작 요청에 실패했습니다. Windows error code: 0".to_string())
    );
}

#[test]
fn relaunch_is_offered_only_to_unelevated_processes_where_supported() {
    let s = status(false, true);
    assert!(!s.is_elevated);
    assert!(s.can_relaunch_as_admin);
    let s = status(true, true);
    assert!(s.is_elevated);
    assert!(!s.can_relaunch_as_admin);
    assert!(!status(false, false).can_relaunch_as_admin);
}

#[test]
fn snapshots_follow_profiles_and_phases() {
    let mut engine = TimerEngine::new(
        settings(vec![valid_profile("a"), valid_profile("b")], 8).to_timer_profiles(),
    );
    engine.handle_key_press("a", 0);
    let snapshots = timer_snapshots(&engine, 116_000);
    assert_eq!(snapshots.len(), 2);
    assert_eq!(snapshots[0].profile_id, "a");
    assert_eq!(snapshots[0].phase, "warning");
    assert_eq!(snapshots[0].remaining_ms, Some(4_000));
    assert_eq!(snapshots[0].warning_before_ms, 5_000);
    assert_eq!(snapshots[1].profile_id, "b");
    assert_eq!(snapshots[1].phase, "warning");
}

#[test]
fn overlay_payload_carries_frame_border_and_alerts() {
    let alerts = vec![AlertSnapshot {
        profile_id: "p".to_string(),
        name: "P".to_string(),
        color: "#123456".to_string(),
        phase: AlertPhase::Expired,
        remaining_ms: None,
        overdue_ms: Some(3),
    }];
    assert!(overlay_payload(None, 8, &alerts).is_none());

    let payload = overlay_payload(overlay_frame(&alerts, 0), 12, &alerts).unwrap();
    assert!(payload.active);
    assert_eq!(payload.color, "#123456");
    assert!(payload.visible);
    assert_eq!(payload.intensity, "expired");
    assert_eq!(payload.border_thickness_px, 12);
    assert_eq!(payload.alerts.len(), 1);
    assert_eq!(payload.alerts[0].name, "P");
    assert_eq!(payload.alerts[0].phase, "expired");

    let idle = inactive_overlay_payload();
    assert!(!idle.active);
    assert_eq!(idle.color, "transparent");
    assert!(!idle.visible);
    assert_eq!(idle.intensity, "none");
    assert_eq!(idle.border_thickness_px, 0);
    assert!(idle.alerts.is_empty());
}

#[test]
fn key_diagnostic_without_foreground_application() {
    let diagnostic = key_diagnostic(
        &KeyPress {
            key: "A".to_string(),
            application: None,
        },
        &[],
        7,
    );
    assert_eq!(diagnostic.key, "A");
    assert_eq!(diagnostic.foreground_process, None);
    assert_eq!(diagnostic.foreground_title, None);
    assert!(diagnostic.reset_profile_ids.is_empty());
    assert_eq!(diagnostic.observed_at_ms, 7);
}
