use vudo::icon::{cache_dir, needs_write};

#[test]
fn cache_dir_prefers_xdg_then_home() {
    assert_eq!(cache_dir(Some("/x"), Some("/h")), Some(vec!["/x".to_string(), "vudo".to_string()]));
    assert_eq!(
        cache_dir(Some(""), Some("/h")),
        Some(vec!["/h".to_string(), ".cache".to_string(), "vudo".to_string()])
    );
    assert_eq!(cache_dir(None, None), None);
}

#[test]
fn icon_rewritten_when_missing_or_resized() {
    assert!(needs_write(None, 10));
    assert!(needs_write(Some(9), 10));
    assert!(!needs_write(Some(10), 10));
}
