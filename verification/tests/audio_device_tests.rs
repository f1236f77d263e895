use sonify_health::audio_device::{select_device, text_contains};

fn devices() -> Vec<Option<String>> {
    vec![Some("HDA Intel PCH".to_string()), None, Some("USB Audio Device".to_string())]
}

#[test]
fn device_found_by_case_insensitive_substring() {
    assert_eq!(select_device(&devices(), "usb"), Some(2));
    assert_eq!(select_device(&devices(), "INTEL"), Some(0));
    assert_eq!(select_device(&devices(), "bluetooth"), None);
    assert_eq!(select_device(&vec![None], "usb"), None);
}

#[test]
fn first_matching_device_wins() {
    assert_eq!(select_device(&devices(), "a"), Some(0));
    assert_eq!(select_device(&devices(), ""), Some(0));
}

#[test]
fn substring_search() {
    assert!(text_contains("hello world", "o w"));
    assert!(text_contains("abc", ""));
    assert!(text_contains("abc", "abc"));
    assert!(!text_contains("abc", "abcd"));
    assert!(!text_contains("abc", "cb"));
}
