use alert_timer::{
    overlay_frame, AlertPhase, AlertSnapshot, AppSettings, OverlayIntensity, TimerEngine,
    TimerEvent, TimerPhase, TimerProfile,
};

fn profile(id: &str, key: &str, cycle_key_count: u8) -> TimerProfile {
    TimerProfile {
        id: id.to_string(),
        name: id.to_string(),
        key: key.to_string(),
        duration_ms: 10_000,
        warning_before_ms: 2_000,
        color: "#ff3344".to_string(),
        cycle_key_count,
        cycle_reset_after_ms: 30_000,
        enabled: true,
    }
}

fn alert(id: &str, color: &str, phase: AlertPhase) -> AlertSnapshot {
    AlertSnapshot {
        profile_id: id.to_string(),
        name: id.to_string(),
        color: color.to_string(),
        phase,
        remaining_ms: None,
        overdue_ms: None,
    }
}

fn reset(id: &str) -> Vec<TimerEvent> {
    vec![TimerEvent::Reset {
        profile_id: id.to_string(),
    }]
}

#[test]
fn default_janus_cycle_resets_on_first_and_fourth_press() {
    let mut engine = TimerEngine::new(AppSettings::default().to_timer_profiles());

    assert_eq!(engine.handle_key_press("]", 0), reset("janus"));
    assert_eq!(engine.handle_key_press("]", 1_000), Vec::<TimerEvent>::new());
    assert_eq!(engine.handle_key_press("]", 2_000), Vec::<TimerEvent>::new());
    assert_eq!(engine.handle_key_press("]", 3_000), reset("janus"));
    assert_eq!(
        engine.phase("janus", 3_000),
        Some(TimerPhase::Running {
            remaining_ms: 120_000
        })
    );
}

#[test]
fn unfinished_cycle_is_abandoned_after_the_reset_time() {
    let mut engine = TimerEngine::new(vec![profile("p", "A", 3)]);

    assert_eq!(engine.handle_key_press("A", 0), reset("p"));
    assert_eq!(engine.handle_key_press("A", 1_000), Vec::<TimerEvent>::new());
    assert_eq!(engine.handle_key_press("A", 30_000), reset("p"));
    assert_eq!(engine.handle_key_press("A", 30_001), Vec::<TimerEvent>::new());
}

#[test]
fn warning_or_expired_timer_resets_on_next_press_whatever_the_count() {
    let mut long_cycle = profile("p", "A", 3);
    long_cycle.cycle_reset_after_ms = 100_000;
    let mut engine = TimerEngine::new(vec![long_cycle]);

    assert_eq!(engine.handle_key_press("A", 0), reset("p"));
    assert_eq!(engine.handle_key_press("A", 7_999), Vec::<TimerEvent>::new());
    assert_eq!(
        engine.phase("p", 8_500),
        Some(TimerPhase::Warning { remaining_ms: 1_500 })
    );
    assert_eq!(engine.handle_key_press("A", 8_500), reset("p"));
    assert_eq!(engine.handle_key_press("A", 9_000), Vec::<TimerEvent>::new());
    assert_eq!(engine.handle_key_press("A", 20_000), reset("p"));
}

#[test]
fn zero_cycle_key_count_counts_as_one_press_per_cycle() {
    let mut engine = TimerEngine::new(vec![profile("p", "A", 0)]);

    assert_eq!(engine.handle_key_press("A", 0), reset("p"));
    assert_eq!(engine.handle_key_press("A", 1), reset("p"));
}

#[test]
fn key_names_are_trimmed_of_unicode_whitespace_and_compared_ignoring_ascii_case() {
    let mut engine = TimerEngine::new(vec![profile("p", "\u{3000}page\tup\u{a0}", 1)]);

    assert_eq!(engine.handle_key_press("PAGE\tUP", 0), reset("p"));
    assert_eq!(engine.handle_key_press("page up", 1), Vec::<TimerEvent>::new());
    assert_eq!(engine.handle_key_press(" PageUp ", 2), Vec::<TimerEvent>::new());
}

#[test]
fn other_keys_leave_every_timer_waiting() {
    let mut engine = TimerEngine::new(vec![profile("p", "A", 1)]);

    assert_eq!(engine.handle_key_press("Z", 0), Vec::<TimerEvent>::new());
    assert_eq!(engine.phase("p", 0), Some(TimerPhase::Waiting));
    assert!(engine.active_alerts(100_000).is_empty());
}

#[test]
fn one_press_resets_every_matching_timer_in_profile_order() {
    let mut engine = TimerEngine::new(vec![
        profile("first", "A", 1),
        profile("other", "B", 1),
        profile("second", "a", 1),
    ]);

    assert_eq!(
        engine.handle_key_press("A", 0),
        vec![
            TimerEvent::Reset {
                profile_id: "first".to_string()
            },
            TimerEvent::Reset {
                profile_id: "second".to_string()
            },
        ]
    );
    assert_eq!(engine.phase("other", 0), Some(TimerPhase::Waiting));
}

#[test]
fn phase_reports_the_first_timer_with_the_id() {
    let mut engine = TimerEngine::new(vec![profile("dup", "A", 1), profile("dup", "B", 1)]);

    engine.handle_key_press("B", 0);
    assert_eq!(engine.phase("dup", 0), Some(TimerPhase::Waiting));
    engine.handle_key_press("A", 1_000);
    assert_eq!(
        engine.phase("dup", 1_000),
        Some(TimerPhase::Running {
            remaining_ms: 10_000
        })
    );
}

#[test]
fn zero_duration_timer_expires_at_once() {
    let mut instant = profile("p", "A", 1);
    instant.duration_ms = 0;
    let mut engine = TimerEngine::new(vec![instant]);

    engine.handle_key_press("A", 5);
    assert_eq!(engine.phase("p", 5), Some(TimerPhase::Expired { overdue_ms: 0 }));
    let alerts = engine.active_alerts(7);
    assert_eq!(alerts.len(), 1);
    assert_eq!(alerts[0].phase, AlertPhase::Expired);
    assert_eq!(alerts[0].overdue_ms, Some(2));
    assert_eq!(alerts[0].remaining_ms, None);
}

#[test]
fn warning_alert_carries_remaining_time() {
    let mut engine = TimerEngine::new(vec![profile("p", "A", 1)]);

    engine.handle_key_press("A", 0);
    let alerts = engine.active_alerts(9_000);
    assert_eq!(alerts.len(), 1);
    assert_eq!(alerts[0].name, "p");
    assert_eq!(alerts[0].remaining_ms, Some(1_000));
    assert_eq!(alerts[0].overdue_ms, None);
}

#[test]
fn overlay_colors_take_turns_every_400_ms() {
    let alerts = vec![
        alert("a", "#000001", AlertPhase::Warning),
        alert("b", "#000002", AlertPhase::Warning),
        alert("c", "#000003", AlertPhase::Warning),
    ];

    let colors: Vec<String> = [0u64, 399, 400, 800, 1_200]
        .iter()
        .map(|now| overlay_frame(&alerts, *now).unwrap().color)
        .collect();
    assert_eq!(colors, vec!["#000001", "#000001", "#000002", "#000003", "#000001"]);
}

#[test]
fn expired_border_blinks_every_300_ms() {
    let alerts = vec![alert("a", "#000001", AlertPhase::Expired)];

    let visible: Vec<bool> = [0u64, 299, 300, 599, 600]
        .iter()
        .map(|now| overlay_frame(&alerts, *now).unwrap().visible)
        .collect();
    assert_eq!(visible, vec![true, true, false, false, true]);
    assert_eq!(
        overlay_frame(&alerts, 0).unwrap().intensity,
        OverlayIntensity::Expired
    );
}

#[test]
fn replace_profiles_keeps_profiles_in_order() {
    let mut engine = TimerEngine::new(vec![]);
    assert!(engine.profiles().is_empty());

    engine.replace_profiles(vec![profile("x", "A", 1), profile("y", "B", 2)]);
    let ids: Vec<String> = engine.profiles().into_iter().map(|p| p.id).collect();
    assert_eq!(ids, vec!["x", "y"]);
    assert_eq!(engine.phase("y", 0), Some(TimerPhase::Waiting));
}
