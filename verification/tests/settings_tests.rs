use cryptum_text::settings::{
    resolve_settings, scheme_id, settings_path, settings_path_from, settings_path_in,
    toggled_theme, AppSettings,
};

#[test]
fn the_defaults_are_as_documented() {
    let d = AppSettings::default();
    assert_eq!(d.editor_theme, "Adwaita");
    assert!(d.editor_monospace);
    assert!(d.editor_use_spaces_for_tabs);
    assert_eq!(d.editor_tab_width, 4);
    assert!(d.view_file_list);
    assert!(d.view_mini_map);
    assert!(!d.view_hidden_files);
}

#[test]
fn loaded_settings_win_over_the_defaults() {
    let loaded = AppSettings {
        editor_theme: "Adwaita Dark".to_string(),
        editor_monospace: false,
        editor_use_spaces_for_tabs: false,
        editor_tab_width: 8,
        view_file_list: false,
        view_mini_map: false,
        view_hidden_files: true,
    };
    let r = resolve_settings(Some(loaded));
    assert_eq!(r.editor_theme, "Adwaita Dark");
    assert!(!r.editor_monospace);
    assert!(!r.editor_use_spaces_for_tabs);
    assert_eq!(r.editor_tab_width, 8);
    assert!(!r.view_file_list);
    assert!(!r.view_mini_map);
    assert!(r.view_hidden_files);
}

#[test]
fn the_fallback_is_the_defaults_in_every_field() {
    let r = resolve_settings(None);
    assert_eq!(r.editor_theme, "Adwaita");
    assert!(r.editor_monospace);
    assert!(r.editor_use_spaces_for_tabs);
    assert_eq!(r.editor_tab_width, 4);
    assert!(r.view_file_list);
    assert!(r.view_mini_map);
    assert!(!r.view_hidden_files);
}

#[test]
fn a_clone_holds_the_same_settings() {
    let mut s = AppSettings::default();
    s.editor_tab_width = 7;
    s.editor_theme = "Adwaita Dark".to_string();
    let c = s.clone();
    assert_eq!(c.editor_tab_width, 7);
    assert_eq!(c.editor_theme, "Adwaita Dark");
    assert_eq!(c.view_mini_map, s.view_mini_map);
    assert_eq!(c.view_file_list, s.view_file_list);
}

#[test]
fn themes_select_their_schemes() {
    assert_eq!(scheme_id("Adwaita"), Some("Adwaita"));
    assert_eq!(scheme_id("Adwaita Dark"), Some("Adwaita-dark"));
    assert_eq!(scheme_id("Adwaita-dark"), None);
    assert_eq!(scheme_id("adwaita"), None);
    assert_eq!(scheme_id(""), None);
}

#[test]
fn toggling_switches_between_the_two_themes() {
    assert_eq!(toggled_theme("Adwaita"), Some("Adwaita Dark"));
    assert_eq!(toggled_theme("Adwaita Dark"), Some("Adwaita"));
    assert_eq!(toggled_theme("Solarized"), None);
    assert_eq!(toggled_theme(""), None);
}

#[test]
fn the_settings_file_lies_in_the_configuration_directory() {
    assert_eq!(
        settings_path_in("/home/alice/.config"),
        "/home/alice/.config/cryptum-text-settings.json"
    );
    assert_eq!(
        settings_path_in("/home/alice/.config/"),
        "/home/alice/.config/cryptum-text-settings.json"
    );
    assert_eq!(settings_path_in(""), "cryptum-text-settings.json");
}

#[test]
fn the_settings_file_of_the_user_has_the_fixed_name() {
    match settings_path() {
        Some(path) => {
            assert!(path.ends_with("cryptum-text-settings.json"));
            assert!(path.len() > "cryptum-text-settings.json".len());
        }
        None => {}
    }
}

#[test]
fn without_a_configuration_directory_there_is_no_settings_file() {
    assert_eq!(settings_path_from(None), None);
    assert_eq!(
        settings_path_from(Some("/home/alice/.config".to_string())),
        Some("/home/alice/.config/cryptum-text-settings.json".to_string())
    );
    assert_eq!(
        settings_path_from(Some(String::new())),
        Some("cryptum-text-settings.json".to_string())
    );
}
