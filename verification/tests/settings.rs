use basalt::settings::{
    default_emulation_remote_paths, emulation_remote_paths_from,
    emulation_remote_paths_from_settings, launcher_display_settings_from,
    launcher_display_settings_from_settings, normalize_emulation_remote_paths,
    normalize_launcher_display_settings, save_emulation_remote_paths,
    save_launcher_display_settings,
    DEFAULT_REMOTE_ROMS_ROOT_DIR, DEFAULT_REMOTE_SAVES_ROOT_DIR,
};

#[test]
fn remote_paths_fall_back_to_defaults() {
    let d = default_emulation_remote_paths();
    assert_eq!(d.roms_root_dir, DEFAULT_REMOTE_ROMS_ROOT_DIR);
    let p = emulation_remote_paths_from(Some("  /mnt/roms ".to_string()), Some("   ".to_string()));
    assert_eq!(p.roms_root_dir, "/mnt/roms");
    assert_eq!(p.saves_root_dir, DEFAULT_REMOTE_SAVES_ROOT_DIR);
}

#[test]
fn remote_paths_to_store_must_not_be_blank() {
    assert_eq!(
        normalize_emulation_remote_paths(" ", "/s").err(),
        Some("Remote ROM root path cannot be empty".to_string())
    );
    assert_eq!(
        normalize_emulation_remote_paths("/r", "").err(),
        Some("Remote save root path cannot be empty".to_string())
    );
    let p = normalize_emulation_remote_paths(" /r ", " /s ").unwrap();
    assert_eq!((p.roms_root_dir.as_str(), p.saves_root_dir.as_str()), ("/r", "/s"));
    let back = emulation_remote_paths_from(Some(p.roms_root_dir.clone()), Some(p.saves_root_dir.clone()));
    assert_eq!(back.roms_root_dir, "/r");
}

#[test]
fn fullscreen_wins_over_maximized() {
    let s = launcher_display_settings_from(Some(true), Some(true));
    assert!(s.fullscreen_enabled && !s.maximized_enabled);
    let s = launcher_display_settings_from(None, Some(true));
    assert!(!s.fullscreen_enabled && s.maximized_enabled);
    let stored = normalize_launcher_display_settings(true, true);
    assert!(stored.fullscreen_enabled && !stored.maximized_enabled);
    let back = launcher_display_settings_from(Some(stored.fullscreen_enabled), Some(stored.maximized_enabled));
    assert_eq!((back.fullscreen_enabled, back.maximized_enabled), (true, false));
}

#[test]
fn settings_file_is_read_for_remote_paths() {
    let d = emulation_remote_paths_from_settings(None).unwrap();
    assert_eq!(d.roms_root_dir, DEFAULT_REMOTE_ROMS_ROOT_DIR);
    assert_eq!(d.saves_root_dir, DEFAULT_REMOTE_SAVES_ROOT_DIR);
    let blank = emulation_remote_paths_from_settings(Some("  \n")).unwrap();
    assert_eq!(blank.roms_root_dir, DEFAULT_REMOTE_ROMS_ROOT_DIR);
    let p = emulation_remote_paths_from_settings(Some(
        r#"{"emulation": {"remote_roms_root_dir": " /r ", "remote_saves_root_dir": 5}}"#,
    ))
    .unwrap();
    assert_eq!(p.roms_root_dir, "/r");
    assert_eq!(p.saves_root_dir, DEFAULT_REMOTE_SAVES_ROOT_DIR);
    let other = emulation_remote_paths_from_settings(Some("[1, 2]")).unwrap();
    assert_eq!(other.roms_root_dir, DEFAULT_REMOTE_ROMS_ROOT_DIR);
    assert!(emulation_remote_paths_from_settings(Some("{not json")).is_err());
}

#[test]
fn settings_file_is_read_for_window_settings() {
    let s = launcher_display_settings_from_settings(Some(
        r#"{"launcher": {"fullscreen": true, "maximized": true}}"#,
    ))
    .unwrap();
    assert!(s.fullscreen_enabled);
    assert!(!s.maximized_enabled);
    let s = launcher_display_settings_from_settings(Some(r#"{"launcher": {"maximized": true}}"#)).unwrap();
    assert!(!s.fullscreen_enabled);
    assert!(s.maximized_enabled);
    assert!(launcher_display_settings_from_settings(Some("nope")).is_err());
}

#[test]
fn saving_remote_paths_keeps_other_settings() {
    let existing = r#"{"launcher": {"fullscreen": true}, "emulation": {"other": 1, "remote_roms_root_dir": "/old"}}"#;
    let (saved, text) = save_emulation_remote_paths(Some(existing), " /new/roms ", "/new/saves").unwrap();
    assert_eq!(saved.roms_root_dir, "/new/roms");
    assert_eq!(saved.saves_root_dir, "/new/saves");
    let root: serde_json::Value = serde_json::from_str(&text).unwrap();
    assert_eq!(root["launcher"]["fullscreen"], serde_json::Value::Bool(true));
    assert_eq!(root["emulation"]["other"].as_u64(), Some(1));
    assert_eq!(root["emulation"]["remote_roms_root_dir"].as_str(), Some("/new/roms"));
    assert_eq!(root["emulation"]["remote_saves_root_dir"].as_str(), Some("/new/saves"));
    let back = emulation_remote_paths_from_settings(Some(&text)).unwrap();
    assert_eq!(back.roms_root_dir, "/new/roms");
    assert_eq!(back.saves_root_dir, "/new/saves");
    assert_eq!(
        save_emulation_remote_paths(Some(existing), "/r", "  ").err(),
        Some("Remote save root path cannot be empty".to_string())
    );
}

#[test]
fn saving_replaces_broken_settings() {
    let (_, text) = save_emulation_remote_paths(Some("{broken"), "/r", "/s").unwrap();
    let root: serde_json::Value = serde_json::from_str(&text).unwrap();
    assert_eq!(root.as_object().unwrap().len(), 1);
    let (_, text) = save_emulation_remote_paths(Some(r#"{"emulation": 3, "x": [1]}"#), "/r", "/s").unwrap();
    let root: serde_json::Value = serde_json::from_str(&text).unwrap();
    assert_eq!(root["emulation"].as_object().unwrap().len(), 2);
    assert_eq!(root["x"][0].as_u64(), Some(1));
}

#[test]
fn saving_window_settings_writes_the_launcher_section() {
    let (saved, text) = save_launcher_display_settings(None, true, true);
    assert!(saved.fullscreen_enabled);
    assert!(!saved.maximized_enabled);
    let root: serde_json::Value = serde_json::from_str(&text).unwrap();
    assert_eq!(root["launcher"]["fullscreen"], serde_json::Value::Bool(true));
    assert_eq!(root["launcher"]["maximized"], serde_json::Value::Bool(false));
    let back = launcher_display_settings_from_settings(Some(&text)).unwrap();
    assert!(back.fullscreen_enabled);
    assert!(!back.maximized_enabled);
}
