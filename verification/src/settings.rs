//! The persisted preferences: their defaults, the fallback when none could
//! be loaded, the editor themes and the place of the settings file.

use vstd::prelude::*;
use crate::path::{join, path_join};
use crate::text::text_eq;

verus! {

/// The preferences that are kept between runs.
#[derive(Debug)]
pub struct AppSettings {
    pub editor_theme: String,
    pub editor_monospace: bool,
    pub editor_use_spaces_for_tabs: bool,
    pub editor_tab_width: u32,
    pub view_file_list: bool,
    pub view_mini_map: bool,
    pub view_hidden_files: bool,
}

/// The mathematical value of [`AppSettings`].
pub struct AppSettingsView {
    pub editor_theme: Seq<char>,
    pub editor_monospace: bool,
    pub editor_use_spaces_for_tabs: bool,
    pub editor_tab_width: u32,
    pub view_file_list: bool,
    pub view_mini_map: bool,
    pub view_hidden_files: bool,
}

impl View for AppSettings {
    type V = AppSettingsView;

    open spec fn view(&self) -> AppSettingsView {
        AppSettingsView {
            editor_theme: self.editor_theme@,
            editor_monospace: self.editor_monospace,
            editor_use_spaces_for_tabs: self.editor_use_spaces_for_tabs,
            editor_tab_width: self.editor_tab_width,
            view_file_list: self.view_file_list,
            view_mini_map: self.view_mini_map,
            view_hidden_files: self.view_hidden_files,
        }
    }
}

/// The preferences of a first run: the light theme, a monospace font, four
/// spaces for a tab, the side bar and the mini map shown and hidden files
/// not shown.
pub open spec fn default_settings() -> AppSettingsView {
    AppSettingsView {
        editor_theme: "Adwaita"@,
        editor_monospace: true,
        editor_use_spaces_for_tabs: true,
        editor_tab_width: 4,
        view_file_list: true,
        view_mini_map: true,
        view_hidden_files: false,
    }
}

/// The preferences to go by: those that were loaded, else the defaults, in
/// every field.
pub open spec fn resolved_settings(loaded: Option<AppSettingsView>) -> AppSettingsView {
    match loaded {
        Some(settings) => settings,
        None => default_settings(),
    }
}

impl Default for AppSettings {
    fn default() -> (r: Self)
        ensures
            r@ == default_settings(),
    {
        AppSettings {
            editor_theme: "Adwaita".to_owned(),
            editor_monospace: true,
            editor_use_spaces_for_tabs: true,
            editor_tab_width: 4,
            view_file_list: true,
            view_mini_map: true,
            view_hidden_files: false,
        }
    }
}

impl Clone for AppSettings {
    fn clone(&self) -> (r: Self)
        ensures
            r@ == self@,
    {
        AppSettings {
            editor_theme: self.editor_theme.clone(),
            editor_monospace: self.editor_monospace,
            editor_use_spaces_for_tabs: self.editor_use_spaces_for_tabs,
            editor_tab_width: self.editor_tab_width,
            view_file_list: self.view_file_list,
            view_mini_map: self.view_mini_map,
            view_hidden_files: self.view_hidden_files,
        }
    }
}

/// The preferences to go by after an attempt to load them. `loaded` is
/// `None` where the settings could not be had: no configuration directory,
/// a file that is missing, empty or malformed. The result is then the
/// defaults, and never an error.
pub fn resolve_settings(loaded: Option<AppSettings>) -> (r: AppSettings)
    ensures
        r@ == resolved_settings(
            match loaded {
                Some(settings) => Some(settings@),
                None => None,
            },
        ),
{
    match loaded {
        Some(settings) => settings,
        None => AppSettings::default(),
    }
}

/// The style scheme that a theme name selects, for the two themes that the
/// editor knows.
pub open spec fn scheme_of_theme(theme: Seq<char>) -> Option<Seq<char>> {
    if theme == "Adwaita"@ {
        Some("Adwaita"@)
    } else if theme == "Adwaita Dark"@ {
        Some("Adwaita-dark"@)
    } else {
        None
    }
}

/// The other one of the two themes; `None` for a name that is neither.
pub open spec fn other_theme(theme: Seq<char>) -> Option<Seq<char>> {
    if theme == "Adwaita Dark"@ {
        Some("Adwaita"@)
    } else if theme == "Adwaita"@ {
        Some("Adwaita Dark"@)
    } else {
        None
    }
}

/// The identifier of the style scheme for the theme named `theme`. `None`
/// for an unknown theme, which leaves the scheme in use as it is.
pub fn scheme_id(theme: &str) -> (r: Option<&'static str>)
    ensures
        r is Some <==> scheme_of_theme(theme@) is Some,
        r matches Some(id) ==> id@ == scheme_of_theme(theme@)->0,
{
    if text_eq(theme, "Adwaita") {
        Some("Adwaita")
    } else if text_eq(theme, "Adwaita Dark") {
        Some("Adwaita-dark")
    } else {
        None
    }
}

/// The theme to switch to from the theme named `theme`: the dark one from
/// the light one and the light one from the dark one. `None` for an unknown
/// theme, from which there is nothing to switch to.
pub fn toggled_theme(theme: &str) -> (r: Option<&'static str>)
    ensures
        r is Some <==> other_theme(theme@) is Some,
        r matches Some(name) ==> name@ == other_theme(theme@)->0,
{
    if text_eq(theme, "Adwaita Dark") {
        Some("Adwaita")
    } else if text_eq(theme, "Adwaita") {
        Some("Adwaita Dark")
    } else {
        None
    }
}

/// The name of the settings file.
pub open spec fn settings_file_name() -> Seq<char> {
    "cryptum-text-settings.json"@
}

/// The settings file in the configuration directory `config_dir`.
pub fn settings_path_in(config_dir: &str) -> (r: String)
    ensures
        r@ == join(config_dir@, settings_file_name()),
{
    path_join(config_dir, "cryptum-text-settings.json")
}

/// The settings file for what the platform reports as the user's
/// configuration directory: the file of the fixed name in that directory,
/// and none where there is no such directory.
pub fn settings_path_from(config_dir: Option<String>) -> (r: Option<String>)
    ensures
        r is Some <==> config_dir is Some,
        r matches Some(p) ==> p@ == join(config_dir->0@, settings_file_name()),
{
    match config_dir {
        Some(dir) => Some(settings_path_in(dir.as_str())),
        None => None,
    }
}

/// The user's configuration directory, from `dirs::config_dir`. Which
/// directory that is depends on the platform and on the environment, so
/// nothing is claimed of the result. A directory whose name is not valid
/// Unicode counts as none.
#[verifier::external_body]
fn user_config_dir() -> (r: Option<String>) {
    dirs::config_dir().and_then(|dir| dir.into_os_string().into_string().ok())
}

/// The settings file of the current user: the file of that name in the
/// user's configuration directory. `None` where the platform reports no
/// such directory.
pub fn settings_path() -> (r: Option<String>)
    ensures
        r matches Some(p) ==> exists|dir: Seq<char>| p@ == join(dir, settings_file_name()),
{
    settings_path_from(user_config_dir())
}

} // verus!
