use cryptum_text::folder::{EntryKind, EntryStat, IoError, RawEntry};
use cryptum_text::model::{Action, ItemVis, Message, SaveOutcome, State};
use cryptum_text::settings::AppSettings;
use cryptum_text::update::{
    handle_messages, load_file, load_folder, load_settings, save_file, save_settings,
    toggle_buffer_style, update_vis,
};

fn shown(actions: &Vec<Action>) -> String {
    format!("{:?}", actions)
}

fn raw_file(name: &str) -> RawEntry {
    RawEntry { name: name.to_string(), stat: Some(EntryStat { is_file: true, is_dir: false }) }
}

fn raw_dir(name: &str) -> RawEntry {
    RawEntry { name: name.to_string(), stat: Some(EntryStat { is_file: false, is_dir: true }) }
}

fn listing() -> Vec<RawEntry> {
    vec![raw_file(".env"), raw_file("a.rs"), raw_dir("src"), raw_file("x.txt")]
}

fn child_names(state: &State, n: usize) -> Vec<String> {
    state.tree.children(n).iter().map(|c| state.tree.entry(*c).unwrap().name).collect()
}

fn with_folder(path: &str) -> State {
    let mut state = State::init(String::new());
    let actions = handle_messages(&mut state, Message::FolderResponse(path.to_string()));
    assert_eq!(shown(&actions), format!("[ReadFolder(0, {:?})]", path));
    let actions = handle_messages(&mut state, Message::FolderLoaded(0, Ok(listing())));
    assert!(actions.is_empty());
    state
}

#[test]
fn the_state_starts_empty() {
    let state = State::init("notes.md".to_string());
    assert_eq!(state.current_file_path, "notes.md");
    assert_eq!(state.current_folder_path, "");
    assert!(state.view_hidden);
    assert_eq!(state.tree.root(), None);
    assert_eq!(state.buffer_style, "Adwaita Dark");
    assert!(state.editor_monospace);
    assert!(!state.editor_use_spaces_for_tabs);
    assert_eq!(state.editor_tab_width, 8);
    assert!(state.side_bar_visible);
    assert!(state.mini_map_visible);
    assert!(!state.fullscreen);
    assert_eq!(state.git_info, (String::new(), false));
}

#[test]
fn a_new_file_clears_buffer_and_path() {
    let mut state = State::init("/a/b.txt".to_string());
    let actions = handle_messages(&mut state, Message::NewFile);
    assert_eq!(shown(&actions), "[SetBufferText(\"\")]");
    assert_eq!(state.current_file_path, "");
}

#[test]
fn requests_show_their_dialogs() {
    let mut state = State::init(String::new());
    assert_eq!(shown(&handle_messages(&mut state, Message::FolderRequest)), "[ShowFolderDialog]");
    assert_eq!(shown(&handle_messages(&mut state, Message::OpenRequest)), "[ShowOpenDialog]");
    assert_eq!(shown(&handle_messages(&mut state, Message::SaveAsRequest)), "[ShowSaveAsDialog]");
    assert_eq!(
        shown(&handle_messages(&mut state, Message::ShowKeyboardShortcuts)),
        "[ShowKeyboardShortcuts]"
    );
    assert_eq!(shown(&handle_messages(&mut state, Message::ShowPreferences)), "[ShowPreferences]");
    assert_eq!(shown(&handle_messages(&mut state, Message::ShowAbout)), "[ShowAbout]");
    assert_eq!(shown(&handle_messages(&mut state, Message::LoadSettings)), "[ReadSettings]");
    assert_eq!(
        shown(&handle_messages(&mut state, Message::QuickToast("hello".to_string()))),
        "[Toast(\"hello\")]"
    );
    assert!(handle_messages(&mut state, Message::Ignore).is_empty());
    assert!(handle_messages(&mut state, Message::CursorPositionChanged).is_empty());
    assert_eq!(
        shown(&handle_messages(&mut state, Message::ClearEditor)),
        "[SetBufferText(\"\"), UndoBuffer]"
    );
}

#[test]
fn opening_a_folder_roots_the_tree_there() {
    let state = with_folder("/work");
    assert_eq!(state.current_folder_path, "/work");
    assert_eq!(state.tree.select(0), Some(("/work".to_string(), EntryKind::Directory)));
    assert_eq!(child_names(&state, 0), vec![".env", "a.rs", "src", "x.txt"]);
    assert_eq!(state.tree.entry(2).unwrap().absolute_path, "/work/a.rs");
}

#[test]
fn a_folder_that_cannot_be_read_is_notified() {
    let mut state = State::init(String::new());
    handle_messages(&mut state, Message::FolderResponse("/gone".to_string()));
    let actions =
        handle_messages(&mut state, Message::FolderLoaded(0, Err(IoError::NotFound)));
    assert_eq!(shown(&actions), "[Toast(\"Failed to Read Folder!\")]");
    assert_eq!(state.current_folder_path, "/gone");
    assert!(!state.tree.is_materialized(0));
    assert!(state.tree.children(0).is_empty());
    let actions = load_folder(&mut state, 0, Err(IoError::PermissionDenied));
    assert_eq!(shown(&actions), "[Toast(\"Failed to Read Folder!\")]");
}

#[test]
fn a_listing_for_an_unknown_node_is_dropped() {
    let mut state = with_folder("/work");
    let actions = handle_messages(&mut state, Message::FolderLoaded(77, Ok(listing())));
    assert!(actions.is_empty());
    let actions = handle_messages(&mut state, Message::FolderLoaded(0, Ok(vec![raw_file("z")])));
    assert!(actions.is_empty());
    assert_eq!(child_names(&state, 0), vec![".env", "a.rs", "src", "x.txt"]);
}

#[test]
fn opening_a_file_reads_it_and_then_sets_the_path() {
    let mut state = State::init(String::new());
    let actions = handle_messages(&mut state, Message::OpenResponse("/work/a.rs".to_string()));
    assert_eq!(shown(&actions), "[ReadFile(\"/work/a.rs\")]");
    assert_eq!(state.current_file_path, "");
    let actions = handle_messages(
        &mut state,
        Message::FileLoaded("/work/a.rs".to_string(), Ok("fn main() {}\n".to_string())),
    );
    assert_eq!(
        shown(&actions),
        "[SetBufferText(\"fn main() {}\\n\"), GuessSyntax(\"/work/a.rs\")]"
    );
    assert_eq!(state.current_file_path, "/work/a.rs");
}

#[test]
fn a_file_that_cannot_be_read_leaves_the_state() {
    let mut state = State::init("/work/old.txt".to_string());
    let actions = load_file(&mut state, "/work/new.txt".to_string(), Err(IoError::NotFound));
    assert_eq!(shown(&actions), "[Toast(\"Error when loading file!\")]");
    assert_eq!(state.current_file_path, "/work/old.txt");
}

#[test]
fn saving_writes_to_the_current_file() {
    let mut state = State::init("/work/a.rs".to_string());
    let actions = handle_messages(&mut state, Message::SaveFile);
    assert_eq!(shown(&actions), "[WriteFile(\"/work/a.rs\")]");
    assert_eq!(shown(&save_file(&state)), "[WriteFile(\"/work/a.rs\")]");
    assert!(handle_messages(&mut state, Message::FileSaved(SaveOutcome::Written)).is_empty());
    assert_eq!(state.current_file_path, "/work/a.rs");
}

#[test]
fn saving_a_new_document_asks_where_to() {
    let mut state = State::init(String::new());
    let actions = handle_messages(&mut state, Message::SaveFile);
    assert_eq!(shown(&actions), "[ShowSaveAsDialog]");
}

#[test]
fn a_file_that_cannot_be_opened_for_writing_falls_back_to_save_as() {
    let mut state = State::init("/work".to_string());
    assert_eq!(shown(&handle_messages(&mut state, Message::SaveFile)), "[WriteFile(\"/work\")]");
    let actions = handle_messages(&mut state, Message::FileSaved(SaveOutcome::CannotOpen));
    assert_eq!(shown(&actions), "[ShowSaveAsDialog]");
    assert_eq!(state.current_file_path, "/work");
}

#[test]
fn a_failed_write_is_notified() {
    let mut state = State::init("/work/a.rs".to_string());
    let actions = handle_messages(&mut state, Message::FileSaved(SaveOutcome::WriteFailed));
    assert_eq!(shown(&actions), "[Toast(\"Error when saving file!\")]");
}

#[test]
fn save_as_writes_to_the_chosen_place_and_keeps_the_path() {
    let mut state = State::init("/work/a.rs".to_string());
    let actions = handle_messages(&mut state, Message::SaveAsResponse("/work/b.rs".to_string()));
    assert_eq!(shown(&actions), "[WriteFileAs(\"/work/b.rs\")]");
    assert_eq!(state.current_file_path, "/work/a.rs");
    assert!(handle_messages(&mut state, Message::FileSavedAs(SaveOutcome::Written)).is_empty());
    for failure in [SaveOutcome::CannotOpen, SaveOutcome::WriteFailed] {
        let actions = handle_messages(&mut state, Message::FileSavedAs(failure));
        assert_eq!(shown(&actions), "[Toast(\"Error when saving file!\")]");
    }
}

#[test]
fn open_then_save_writes_the_same_text_back() {
    let mut state = State::init(String::new());
    let path = "/work/x.txt".to_string();
    let text = "first line\nsecond line".to_string();
    handle_messages(&mut state, Message::OpenResponse(path.clone()));
    let loaded = handle_messages(&mut state, Message::FileLoaded(path.clone(), Ok(text.clone())));
    let buffer = match &loaded[0] {
        Action::SetBufferText(t) => t.clone(),
        other => panic!("unexpected action {:?}", other),
    };
    assert_eq!(buffer.as_bytes(), text.as_bytes());
    let saved = handle_messages(&mut state, Message::SaveFile);
    assert_eq!(shown(&saved), "[WriteFile(\"/work/x.txt\")]");
}

#[test]
fn selecting_a_file_in_the_tree_loads_it() {
    let mut state = with_folder("/work");
    let actions = handle_messages(&mut state, Message::LoadFileFromTree(2));
    assert_eq!(shown(&actions), "[ReadFile(\"/work/a.rs\")]");
    assert!(handle_messages(&mut state, Message::LoadFileFromTree(3)).is_empty());
    assert!(handle_messages(&mut state, Message::LoadFileFromTree(0)).is_empty());
    let actions = handle_messages(&mut state, Message::LoadFileFromTree(40));
    assert_eq!(shown(&actions), "[Toast(\"Failed to resolve the selected item!\")]");
    assert_eq!(state.current_file_path, "");
}

#[test]
fn expanding_a_folder_reads_it_once() {
    let mut state = with_folder("/work");
    let actions = handle_messages(&mut state, Message::ExpandFolder(3));
    assert_eq!(shown(&actions), "[ReadFolder(3, \"/work/src\")]");
    handle_messages(&mut state, Message::FolderLoaded(3, Ok(vec![raw_file("lib.rs")])));
    assert_eq!(child_names(&state, 3), vec!["lib.rs"]);
    assert_eq!(state.tree.visible_rows(), vec![1, 2, 3, 5, 4]);
    assert!(handle_messages(&mut state, Message::CollapseFolder(3)).is_empty());
    assert_eq!(state.tree.visible_rows(), vec![1, 2, 3, 4]);
    assert!(handle_messages(&mut state, Message::ExpandFolder(3)).is_empty());
    assert_eq!(state.tree.visible_rows(), vec![1, 2, 3, 5, 4]);
    assert!(handle_messages(&mut state, Message::ExpandFolder(2)).is_empty());
}

#[test]
fn deleting_moves_to_the_trash_and_reads_the_folder_anew() {
    let mut state = with_folder("/work");
    let actions = handle_messages(&mut state, Message::DeleteItem(4));
    assert_eq!(shown(&actions), "[MoveToTrash(4, \"/work/x.txt\")]");
    let actions = handle_messages(&mut state, Message::ItemTrashed(4, Ok(())));
    assert_eq!(shown(&actions), "[ReadFolder(0, \"/work\")]");
    assert!(state.tree.children(0).is_empty());
    let after = vec![raw_dir("src"), raw_file(".env"), raw_file("a.rs")];
    handle_messages(&mut state, Message::FolderLoaded(0, Ok(after)));
    assert_eq!(child_names(&state, 0), vec!["src", ".env", "a.rs"]);
    assert!(!child_names(&state, 0).contains(&"x.txt".to_string()));
    handle_messages(&mut state, Message::RefreshFileList);
    let after = vec![raw_dir("src"), raw_file(".env"), raw_file("a.rs")];
    handle_messages(&mut state, Message::FolderLoaded(0, Ok(after)));
    assert!(!child_names(&state, 0).contains(&"x.txt".to_string()));
}

#[test]
fn a_failed_delete_is_notified_and_the_folder_is_read_anew() {
    let mut state = with_folder("/work");
    let actions =
        handle_messages(&mut state, Message::ItemTrashed(4, Err(IoError::PermissionDenied)));
    assert_eq!(
        shown(&actions),
        "[Toast(\"Failed to move item to trash!\"), ReadFolder(0, \"/work\")]"
    );
}

#[test]
fn deleting_inside_a_subfolder_reads_that_folder_anew() {
    let mut state = with_folder("/work");
    handle_messages(&mut state, Message::ExpandFolder(3));
    handle_messages(&mut state, Message::FolderLoaded(3, Ok(vec![raw_file("lib.rs")])));
    let actions = handle_messages(&mut state, Message::DeleteItem(5));
    assert_eq!(shown(&actions), "[MoveToTrash(5, \"/work/src/lib.rs\")]");
    let actions = handle_messages(&mut state, Message::ItemTrashed(5, Ok(())));
    assert_eq!(shown(&actions), "[ReadFolder(3, \"/work/src\")]");
    assert_eq!(child_names(&state, 0), vec![".env", "a.rs", "src", "x.txt"]);
    handle_messages(&mut state, Message::FolderLoaded(3, Ok(Vec::new())));
    assert!(state.tree.children(3).is_empty());
    assert!(state.tree.is_expanded(3));
}

#[test]
fn the_open_folder_itself_is_not_deleted() {
    let mut state = with_folder("/work");
    assert!(handle_messages(&mut state, Message::DeleteItem(0)).is_empty());
    let actions = handle_messages(&mut state, Message::DeleteItem(50));
    assert_eq!(shown(&actions), "[Toast(\"Failed to resolve the selected item!\")]");
}

#[test]
fn navigating_up_goes_to_the_parent() {
    let mut state = with_folder("/home/user/project");
    let actions = handle_messages(&mut state, Message::UpDir);
    assert_eq!(shown(&actions), "[ReadFolder(0, \"/home/user\")]");
    assert_eq!(state.current_folder_path, "/home/user");
    assert_eq!(state.tree.select(0), Some(("/home/user".to_string(), EntryKind::Directory)));
    assert!(!state.tree.is_materialized(0));
    assert!(!state.tree.contains(1));
}

#[test]
fn navigating_up_at_the_root_changes_nothing() {
    let mut state = with_folder("/");
    let before = child_names(&state, 0);
    let actions = handle_messages(&mut state, Message::UpDir);
    assert!(actions.is_empty());
    assert_eq!(state.current_folder_path, "/");
    assert_eq!(child_names(&state, 0), before);
    let mut state = State::init(String::new());
    assert!(handle_messages(&mut state, Message::UpDir).is_empty());
    assert_eq!(state.current_folder_path, "");
    assert_eq!(state.tree.root(), None);
}

#[test]
fn refreshing_reads_the_open_folder_anew() {
    let mut state = with_folder("/work");
    let actions = handle_messages(&mut state, Message::RefreshFileList);
    assert_eq!(shown(&actions), "[ReadFolder(0, \"/work\")]");
    assert!(!state.tree.is_materialized(0));
    handle_messages(&mut state, Message::FolderLoaded(0, Ok(listing())));
    let first = child_names(&state, 0);
    handle_messages(&mut state, Message::RefreshFileList);
    handle_messages(&mut state, Message::FolderLoaded(0, Ok(listing())));
    assert_eq!(child_names(&state, 0), first);
    let mut empty = State::init(String::new());
    assert!(handle_messages(&mut empty, Message::RefreshFileList).is_empty());
}

#[test]
fn refreshing_retries_a_folder_that_could_not_be_read() {
    let mut state = State::init(String::new());
    handle_messages(&mut state, Message::FolderResponse("/late".to_string()));
    handle_messages(&mut state, Message::FolderLoaded(0, Err(IoError::NotFound)));
    let actions = handle_messages(&mut state, Message::RefreshFileList);
    assert_eq!(shown(&actions), "[ReadFolder(0, \"/late\")]");
}

#[test]
fn toggling_hidden_files_reads_anew_and_persists() {
    let mut state = with_folder("/work");
    assert!(state.view_hidden);
    let actions = handle_messages(&mut state, Message::ToggleHiddenFiles);
    assert!(!state.view_hidden);
    assert_eq!(actions.len(), 2);
    assert_eq!(format!("{:?}", actions[0]), "ReadFolder(0, \"/work\")");
    match &actions[1] {
        Action::WriteSettings(settings) => assert!(!settings.view_hidden_files),
        other => panic!("unexpected action {:?}", other),
    }
    handle_messages(&mut state, Message::FolderLoaded(0, Ok(listing())));
    assert_eq!(child_names(&state, 0), vec!["a.rs", "src", "x.txt"]);
    let mut empty = State::init(String::new());
    let actions = handle_messages(&mut empty, Message::ToggleHiddenFiles);
    assert_eq!(actions.len(), 1);
    assert!(!empty.view_hidden);
}

#[test]
fn view_toggles_flip_and_persist() {
    let mut state = State::init(String::new());
    let actions = handle_messages(&mut state, Message::ToggleFileList);
    assert!(!state.side_bar_visible);
    assert_eq!(actions.len(), 1);
    let actions = handle_messages(&mut state, Message::ToggleMiniMap);
    assert!(!state.mini_map_visible);
    match &actions[0] {
        Action::WriteSettings(settings) => assert!(!settings.view_mini_map),
        other => panic!("unexpected action {:?}", other),
    }
    assert!(handle_messages(&mut state, Message::ToggleFullscreen).is_empty());
    assert!(state.fullscreen);
    assert!(handle_messages(&mut state, Message::ToggleFullscreen).is_empty());
    assert!(!state.fullscreen);
}

#[test]
fn the_theme_toggles_between_light_and_dark() {
    let mut state = State::init(String::new());
    let actions = handle_messages(&mut state, Message::ToggleBufferStyleScheme);
    assert_eq!(state.buffer_style, "Adwaita");
    match &actions[0] {
        Action::WriteSettings(settings) => assert_eq!(settings.editor_theme, "Adwaita"),
        other => panic!("unexpected action {:?}", other),
    }
    toggle_buffer_style(&mut state);
    assert_eq!(state.buffer_style, "Adwaita Dark");
    state.buffer_style = "Solarized".to_string();
    toggle_buffer_style(&mut state);
    assert_eq!(state.buffer_style, "Solarized");
}

#[test]
fn editor_preferences_are_set_and_persisted() {
    let mut state = State::init(String::new());
    let actions = handle_messages(&mut state, Message::UpdateMonospace(false));
    assert!(!state.editor_monospace);
    assert_eq!(actions.len(), 1);
    handle_messages(&mut state, Message::UpdateTabType(true));
    assert!(state.editor_use_spaces_for_tabs);
    let actions = handle_messages(&mut state, Message::UpdateTabWidth(2));
    assert_eq!(state.editor_tab_width, 2);
    match &actions[0] {
        Action::WriteSettings(settings) => {
            assert_eq!(settings.editor_tab_width, 2);
            assert!(settings.editor_use_spaces_for_tabs);
            assert!(!settings.editor_monospace);
            assert_eq!(settings.editor_theme, "Adwaita Dark");
            assert!(settings.view_file_list);
            assert!(settings.view_mini_map);
            assert!(settings.view_hidden_files);
        }
        other => panic!("unexpected action {:?}", other),
    }
}

#[test]
fn visibility_is_set_per_item() {
    let mut state = State::init(String::new());
    handle_messages(&mut state, Message::UpdateVisibility(ItemVis::SideBar, false));
    assert!(!state.side_bar_visible);
    handle_messages(&mut state, Message::UpdateVisibility(ItemVis::MiniMap, false));
    assert!(!state.mini_map_visible);
    let actions =
        handle_messages(&mut state, Message::UpdateVisibility(ItemVis::HiddenFiles, false));
    assert!(!state.view_hidden);
    assert_eq!(actions.len(), 1);
    update_vis(ItemVis::MiniMap, true, &mut state);
    assert!(state.mini_map_visible);
    assert!(!state.side_bar_visible);
}

#[test]
fn loaded_settings_are_taken_over() {
    let mut state = State::init(String::new());
    let loaded = AppSettings {
        editor_theme: "Adwaita".to_string(),
        editor_monospace: false,
        editor_use_spaces_for_tabs: true,
        editor_tab_width: 3,
        view_file_list: false,
        view_mini_map: false,
        view_hidden_files: false,
    };
    let actions = handle_messages(&mut state, Message::SettingsLoaded(Some(loaded)));
    assert!(actions.is_empty());
    assert_eq!(state.buffer_style, "Adwaita");
    assert!(!state.editor_monospace);
    assert!(state.editor_use_spaces_for_tabs);
    assert_eq!(state.editor_tab_width, 3);
    assert!(!state.side_bar_visible);
    assert!(!state.mini_map_visible);
    assert!(!state.view_hidden);
}

#[test]
fn settings_that_could_not_be_loaded_fall_back_to_the_defaults() {
    let mut state = State::init(String::new());
    state.editor_monospace = false;
    state.editor_tab_width = 13;
    state.mini_map_visible = false;
    state.side_bar_visible = false;
    assert_eq!(state.buffer_style, "Adwaita Dark");
    load_settings(&mut state, None);
    assert_eq!(state.buffer_style, "Adwaita");
    assert!(state.editor_monospace);
    assert!(state.editor_use_spaces_for_tabs);
    assert_eq!(state.editor_tab_width, 4);
    assert!(state.side_bar_visible);
    assert!(state.mini_map_visible);
    assert!(!state.view_hidden);
    let saved = save_settings(&state);
    let defaults = AppSettings::default();
    assert_eq!(saved.editor_theme, defaults.editor_theme);
    assert_eq!(saved.view_file_list, defaults.view_file_list);
    assert_eq!(saved.editor_monospace, defaults.editor_monospace);
    assert_eq!(saved.editor_use_spaces_for_tabs, defaults.editor_use_spaces_for_tabs);
    assert_eq!(saved.editor_tab_width, defaults.editor_tab_width);
    assert_eq!(saved.view_mini_map, defaults.view_mini_map);
    assert_eq!(saved.view_hidden_files, defaults.view_hidden_files);
}

#[test]
fn an_unknown_theme_in_the_settings_keeps_the_theme_in_use() {
    let mut state = State::init(String::new());
    let mut loaded = AppSettings::default();
    loaded.editor_theme = "Solarized".to_string();
    loaded.editor_tab_width = 2;
    load_settings(&mut state, Some(loaded));
    assert_eq!(state.buffer_style, "Adwaita Dark");
    assert_eq!(state.editor_tab_width, 2);
}

#[test]
fn the_folder_is_shown_in_the_file_manager_when_one_is_open() {
    let mut state = State::init(String::new());
    assert!(handle_messages(&mut state, Message::OpenFolderExternal).is_empty());
    let mut state = with_folder("/work");
    let actions = handle_messages(&mut state, Message::OpenFolderExternal);
    assert_eq!(shown(&actions), "[OpenFolderExternal(\"/work\")]");
}

#[test]
fn the_branch_is_recorded() {
    let mut state = State::init(String::new());
    assert!(handle_messages(&mut state, Message::GitHead(Some("main".to_string()))).is_empty());
    assert_eq!(state.git_info, ("main".to_string(), true));
    assert!(handle_messages(&mut state, Message::GitHead(None)).is_empty());
    assert_eq!(state.git_info, (String::new(), false));
}

#[test]
fn a_folder_is_listed_in_the_order_read() {
    let mut state = State::init(String::new());
    handle_messages(&mut state, Message::FolderResponse("/work".to_string()));
    let read = vec![raw_file("zeta"), raw_dir("alpha"), raw_file(".mid"), raw_file("beta")];
    handle_messages(&mut state, Message::FolderLoaded(0, Ok(read)));
    assert_eq!(child_names(&state, 0), vec!["zeta", "alpha", ".mid", "beta"]);
    handle_messages(&mut state, Message::ToggleHiddenFiles);
    let read = vec![raw_file("zeta"), raw_dir("alpha"), raw_file(".mid"), raw_file("beta")];
    handle_messages(&mut state, Message::FolderLoaded(0, Ok(read)));
    assert_eq!(child_names(&state, 0), vec!["zeta", "alpha", "beta"]);
}

#[test]
fn where_the_platform_hides_nothing_every_file_is_listed() {
    let mut state = State::init(String::new());
    assert!(state.dot_prefix_hides);
    state.dot_prefix_hides = false;
    state.view_hidden = false;
    handle_messages(&mut state, Message::FolderResponse("/work".to_string()));
    handle_messages(&mut state, Message::FolderLoaded(0, Ok(listing())));
    assert_eq!(child_names(&state, 0), vec![".env", "a.rs", "src", "x.txt"]);
}

#[test]
fn the_side_bar_flag_is_persisted_and_restored() {
    let mut state = State::init(String::new());
    let actions = handle_messages(&mut state, Message::ToggleFileList);
    assert!(!state.side_bar_visible);
    match &actions[0] {
        Action::WriteSettings(settings) => assert!(!settings.view_file_list),
        other => panic!("unexpected action {:?}", other),
    }
    let saved = save_settings(&state);
    let mut fresh = State::init(String::new());
    assert!(fresh.side_bar_visible);
    load_settings(&mut fresh, Some(saved));
    assert!(!fresh.side_bar_visible);
    load_settings(&mut fresh, None);
    assert!(fresh.side_bar_visible);
}
