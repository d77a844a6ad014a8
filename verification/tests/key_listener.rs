use alert_timer::key_name_from_vk;

#[test]
fn maps_closing_bracket_key() {
    assert_eq!(key_name_from_vk(0xDD), Some("]".to_string()));
}
