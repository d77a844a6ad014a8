use alert_timer::missing_app_filter_profile_ids;

#[test]
fn missing_app_filter_ids_detects_legacy_profiles_only() {
    let contents = r##"{
      "profiles": [
        {
          "id": "janus",
          "name": "야누스",
          "key": "]",
          "duration_seconds": 120,
          "warning_before_seconds": 5,
          "color": "#ff3344",
          "cycle_key_count": 3,
          "enabled": true
        },
        {
          "id": "all-apps",
          "name": "All Apps",
          "key": "A",
          "app_filter": "",
          "duration_seconds": 120,
          "warning_before_seconds": 5,
          "color": "#20c7a7",
          "cycle_key_count": 1,
          "enabled": true
        }
      ],
      "overlay": {
        "border_thickness_px": 8
      }
    }"##;

    assert_eq!(
        missing_app_filter_profile_ids(contents),
        vec!["janus".to_string()]
    );
}

#[test]
fn text_that_is_not_a_settings_object_has_no_legacy_profiles() {
    assert!(missing_app_filter_profile_ids("not json").is_empty());
    assert!(missing_app_filter_profile_ids("[]").is_empty());
    assert!(missing_app_filter_profile_ids(r#"{"profiles": {"id": "x"}}"#).is_empty());
    assert!(missing_app_filter_profile_ids(r#"{"overlay": {}}"#).is_empty());
}

#[test]
fn legacy_profiles_need_an_object_with_a_string_id() {
    let contents = r#"{"profiles": [
        {"id": "a"},
        "b",
        {"id": 3},
        {"name": "no id"},
        {"id": "c", "app_filter": null},
        {"id": "d", "app_filter_x": 1}
    ]}"#;
    assert_eq!(
        missing_app_filter_profile_ids(contents),
        vec!["a".to_string(), "d".to_string()]
    );
}
