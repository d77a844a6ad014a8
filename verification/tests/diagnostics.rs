use alert_timer::{key_diagnostic, ActiveApplication, KeyPress, TimerEvent};

#[test]
fn key_diagnostic_records_foreground_app_and_reset_profiles() {
    let diagnostic = key_diagnostic(
        &KeyPress {
            key: "]".to_string(),
            application: Some(ActiveApplication {
                process_name: "MapleStory.exe".to_string(),
                window_title: "MapleStory".to_string(),
            }),
        },
        &[TimerEvent::Reset {
            profile_id: "janus".to_string(),
        }],
        12_345,
    );

    assert_eq!(diagnostic.key, "]");
    assert_eq!(
        diagnostic.foreground_process.as_deref(),
        Some("MapleStory.exe")
    );
    assert_eq!(diagnostic.foreground_title.as_deref(), Some("MapleStory"));
    assert_eq!(diagnostic.reset_profile_ids, vec!["janus".to_string()]);
    assert_eq!(diagnostic.observed_at_ms, 12_345);
}
