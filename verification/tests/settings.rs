use vispeak::paths::StoragePath;
use vispeak::settings::{
    clear_active_model_if, default_app_language, default_cancel_hotkey, default_clipboard_after,
    default_history_limit, default_microphone_gain_bits, default_overlay_position,
    default_overlay_skin, default_push_to_talk, default_send_after, default_text_input_method,
    default_theme, default_true, get_settings_dir, get_settings_path, load_settings, migrate_settings,
    model_settings_for, ModelSettings, ModelSettingsMap, Settings,
};

#[test]
fn field_defaults() {
    assert!(default_push_to_talk());
    assert_eq!(default_cancel_hotkey(), "Escape");
    assert_eq!(default_overlay_skin(), "full");
    assert_eq!(default_overlay_position(), "bottom-center");
    assert_eq!(f32::from_bits(default_microphone_gain_bits()), 1.0f32);
    assert_eq!(default_app_language(), "system");
    assert_eq!(default_theme(), "system");
    assert!(default_true());
    assert_eq!(default_text_input_method(), "paste");
    assert_eq!(default_clipboard_after(), "restore");
    assert_eq!(default_send_after(), "none");
    assert_eq!(default_history_limit(), 10);
}

#[test]
fn settings_defaults() {
    let s = Settings::default();
    assert_eq!(s.active_model, None);
    assert_eq!(s.hotkey, "Control+Space");
    assert_eq!(s.microphone, None);
    assert!(s.model_settings.is_empty());
    assert!(!s.autostart && !s.silent_start && s.sound_cues && !s.duck_audio);
    assert!(!s.trailing_space && s.push_to_talk);
    assert_eq!(s.cancel_hotkey, "Escape");
    assert_eq!(s.history_limit, 10);
    let m = ModelSettings::default();
    assert_eq!(m.language, "auto");
    assert_eq!(m.initial_prompt, None);
}

#[test]
fn missing_file_gives_defaults() {
    let (s, save) = load_settings(None, Some("ru".to_string()), Some(true));
    assert!(!save);
    assert_eq!(s.hotkey, "Control+Space");
    assert!(!s.silent_start);
    assert!(s.model_settings.is_empty());
}

#[test]
fn retired_hotkey_spelling_is_migrated() {
    let mut s = Settings::default();
    s.hotkey = "CommandOrControl+Shift+K".to_string();
    let (s, save) = load_settings(Some(s), None, None);
    assert!(save);
    assert_eq!(s.hotkey, "Control+Shift+K");
    let (s2, save2) = load_settings(Some(s), None, None);
    assert!(!save2);
    assert_eq!(s2.hotkey, "Control+Shift+K");
}

#[test]
fn legacy_language_applies_to_every_model() {
    let mut s = Settings::default();
    let changed = migrate_settings(&mut s, Some("de".to_string()), None);
    assert!(changed);
    let ids: Vec<&str> = s.model_settings.as_vec().iter().map(|(id, _)| id.as_str()).collect();
    assert_eq!(ids, vec!["tiny", "base", "small", "medium", "large-v3-turbo", "parakeet", "canary", "gigaam", "nemotron", "qwen"]);
    assert!(s.model_settings.as_vec().iter().all(|(_, m)| m.language == "de" && m.initial_prompt.is_none()));
    // Existing per-model settings are kept.
    let changed = migrate_settings(&mut s, Some("fr".to_string()), None);
    assert!(!changed);
    assert_eq!(model_settings_for(&s.model_settings, "canary").language, "de");
}

#[test]
fn legacy_start_minimized_becomes_silent_start() {
    let mut s = Settings::default();
    assert!(!migrate_settings(&mut s, None, Some(false)));
    assert!(!s.silent_start);
    assert!(migrate_settings(&mut s, None, Some(true)));
    assert!(s.silent_start);
    assert!(!migrate_settings(&mut s, None, Some(true)));
}

#[test]
fn model_settings_lookup() {
    let mut map = ModelSettingsMap::new();
    map.insert("tiny".to_string(), ModelSettings { language: "en".to_string(), initial_prompt: Some("Hi".to_string()) });
    let m = model_settings_for(&map, "tiny");
    assert_eq!(m.language, "en");
    assert_eq!(m.initial_prompt.as_deref(), Some("Hi"));
    let d = model_settings_for(&map, "base");
    assert_eq!(d.language, "auto");
    assert!(map.get("base").is_none());
}

#[test]
fn model_settings_ids_stay_unique() {
    let mut map = ModelSettingsMap::new();
    map.insert("tiny".to_string(), ModelSettings { language: "en".to_string(), initial_prompt: None });
    map.insert("base".to_string(), ModelSettings { language: "ru".to_string(), initial_prompt: None });
    // Setting a model again replaces its entry in place.
    map.insert("tiny".to_string(), ModelSettings { language: "de".to_string(), initial_prompt: None });
    assert_eq!(map.as_vec().len(), 2);
    assert_eq!(map.as_vec()[0].0, "tiny");
    assert_eq!(model_settings_for(&map, "tiny").language, "de");
    // Building from entries: the last entry for an identifier wins.
    let built = ModelSettingsMap::from_entries(vec![
        ("a".to_string(), ModelSettings { language: "en".to_string(), initial_prompt: None }),
        ("b".to_string(), ModelSettings { language: "fr".to_string(), initial_prompt: None }),
        ("a".to_string(), ModelSettings { language: "es".to_string(), initial_prompt: None }),
    ]);
    let ids: Vec<&str> = built.as_vec().iter().map(|(id, _)| id.as_str()).collect();
    assert_eq!(ids, vec!["a", "b"]);
    assert_eq!(model_settings_for(&built, "a").language, "es");
    assert!(!built.is_empty());
}

#[test]
fn settings_path() {
    let roaming = StoragePath::from_components(vec!["C:".to_string(), "AppData".to_string(), "Roaming".to_string()]);
    assert_eq!(get_settings_dir(&roaming).components, vec!["C:", "AppData", "Roaming", "Vispeak"]);
    let p = get_settings_path(&roaming);
    assert_eq!(p.components, vec!["C:", "AppData", "Roaming", "Vispeak", "settings.json"]);
    // The same location on every call.
    assert_eq!(get_settings_path(&roaming).components, p.components);
}

#[test]
fn forgetting_the_deleted_model() {
    let mut s = Settings::default();
    s.active_model = Some("base".to_string());
    assert!(!clear_active_model_if(&mut s, "tiny"));
    assert_eq!(s.active_model.as_deref(), Some("base"));
    assert!(clear_active_model_if(&mut s, "base"));
    assert_eq!(s.active_model, None);
}
