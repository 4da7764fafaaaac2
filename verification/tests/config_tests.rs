use image_folder_viewer::config::AppConfig;
use image_folder_viewer::profile::{ensure_profile_extension, AppState, ProfileData, WindowState};

fn paths(config: &AppConfig) -> Vec<String> {
    config.recent_profiles.iter().map(|p| p.path.clone()).collect()
}

#[test]
fn default_config() {
    let config = AppConfig::default();
    assert_eq!(config.version, "1.0");
    assert!(config.recent_profiles.is_empty());
    assert_eq!(config.max_recent_profiles, 10);
    assert_eq!(config.theme, "system");
}

#[test]
fn add_recent_goes_to_the_front() {
    let mut config = AppConfig::default();
    config.add_recent("/p/a.ivprofile".to_string(), "a".to_string(), "t1".to_string());
    config.add_recent("/p/b.ivprofile".to_string(), "b".to_string(), "t2".to_string());
    assert_eq!(paths(&config), vec!["/p/b.ivprofile", "/p/a.ivprofile"]);
    assert_eq!(config.recent_profiles[0].name, "b");
    assert_eq!(config.recent_profiles[0].last_opened_at, "t2");
}

#[test]
fn add_recent_deduplicates_by_path() {
    let mut config = AppConfig::default();
    config.add_recent("/p/a.ivprofile".to_string(), "a".to_string(), "t1".to_string());
    config.add_recent("/p/b.ivprofile".to_string(), "b".to_string(), "t2".to_string());
    config.add_recent("/p/a.ivprofile".to_string(), "a".to_string(), "t3".to_string());
    assert_eq!(paths(&config), vec!["/p/a.ivprofile", "/p/b.ivprofile"]);
    assert_eq!(config.recent_profiles[0].last_opened_at, "t3");
}

#[test]
fn add_recent_clips_to_the_bound() {
    let mut config = AppConfig::default();
    config.max_recent_profiles = 3;
    for i in 0..5 {
        config.add_recent(format!("/p/{}.ivprofile", i), format!("{}", i), "t".to_string());
    }
    assert_eq!(paths(&config), vec!["/p/4.ivprofile", "/p/3.ivprofile", "/p/2.ivprofile"]);
}

#[test]
fn remove_recent_drops_only_that_path() {
    let mut config = AppConfig::default();
    config.add_recent("/p/a.ivprofile".to_string(), "a".to_string(), "t1".to_string());
    config.add_recent("/p/b.ivprofile".to_string(), "b".to_string(), "t2".to_string());
    config.remove_recent(&"/p/a.ivprofile".to_string());
    assert_eq!(paths(&config), vec!["/p/b.ivprofile"]);
    config.remove_recent(&"/p/missing.ivprofile".to_string());
    assert_eq!(paths(&config), vec!["/p/b.ivprofile"]);
}

#[test]
fn default_window_state() {
    let w = WindowState::default();
    assert_eq!((w.x, w.y, w.width, w.height), (None, None, 1280, 800));
}

#[test]
fn default_app_state() {
    let s = AppState::default();
    assert_eq!(s.last_page, "index");
    assert_eq!(s.last_card_id, None);
    assert_eq!(s.last_image_index, 0);
    assert!(!s.h_flip_enabled);
    assert!(!s.shuffle_enabled);
}

#[test]
fn new_profile_is_empty_and_stamped() {
    let p = ProfileData::new("2024-01-01T00:00:00Z".to_string());
    assert_eq!(p.version, "1.0");
    assert_eq!(p.updated_at, "2024-01-01T00:00:00Z");
    assert!(p.cards.is_empty());
    assert!(p.tags.is_empty());
    assert!(p.card_tags.is_empty());
    assert_eq!(p.app_state.last_page, "index");
}

#[test]
fn set_updated_at_restamps() {
    let mut p = ProfileData::new("t1".to_string());
    p.set_updated_at("t2".to_string());
    assert_eq!(p.updated_at, "t2");
    assert_eq!(p.version, "1.0");
}

#[test]
fn profile_extension_is_appended_once() {
    assert_eq!(
        ensure_profile_extension("/p/mine".to_string()),
        "/p/mine.ivprofile"
    );
    assert_eq!(
        ensure_profile_extension("/p/mine.ivprofile".to_string()),
        "/p/mine.ivprofile"
    );
    assert_eq!(ensure_profile_extension("".to_string()), ".ivprofile");
    // The check is case-sensitive, as a path comparison should be.
    assert_eq!(
        ensure_profile_extension("/p/mine.IVPROFILE".to_string()),
        "/p/mine.IVPROFILE.ivprofile"
    );
}
