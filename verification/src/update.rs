//! How the state answers a message: the one place where it changes.
//!
//! Reading, writing and showing dialogs are left to the caller as actions;
//! what came of an action returns as a message.

use vstd::prelude::*;
use crate::folder::{
    entry_of,
    is_listed,
    law_hidden_files_filter,
    law_snapshot_holds_the_listed,
    raw_views,
    snapshot,
    snapshot_entries,
    EntryKind,
    IoError,
    RawEntry,
    RawEntryView,
};
use crate::model::{
    action_views,
    and_action,
    no_action,
    one_action,
    two_actions,
    Action,
    ActionView,
    ItemVis,
    Message,
    SaveOutcome,
    State,
    StateView,
};
use crate::path::{law_parent_is_a_proper_prefix, lemma_root_has_no_parent, parent, path_parent};
use crate::settings::{
    default_settings,
    other_theme,
    resolve_settings,
    resolved_settings,
    scheme_id,
    scheme_of_theme,
    toggled_theme,
    AppSettings,
    AppSettingsView,
};
use crate::tree::{
    child_entries,
    is_directory,
    is_filled_from,
    is_fresh_root,
    is_node,
    is_reset_of,
    lemma_filled_children,
    TreeNode,
};

verus! {

/// The preferences that a state stands for.
pub open spec fn settings_of(s: StateView) -> AppSettingsView {
    AppSettingsView {
        editor_theme: s.buffer_style,
        editor_monospace: s.editor_monospace,
        editor_use_spaces_for_tabs: s.editor_use_spaces_for_tabs,
        editor_tab_width: s.editor_tab_width,
        view_file_list: s.side_bar_visible,
        view_mini_map: s.mini_map_visible,
        view_hidden_files: s.view_hidden,
    }
}

/// The state after preferences were loaded, or could not be: the loaded
/// ones, else the defaults, are taken over in every field. Only a loaded
/// theme that the editor does not know leaves the theme in use.
pub open spec fn with_settings(s: StateView, loaded: Option<AppSettingsView>) -> StateView {
    let settings = resolved_settings(loaded);
    StateView {
        buffer_style: if scheme_of_theme(settings.editor_theme) is Some {
            settings.editor_theme
        } else {
            s.buffer_style
        },
        editor_monospace: settings.editor_monospace,
        editor_use_spaces_for_tabs: settings.editor_use_spaces_for_tabs,
        editor_tab_width: settings.editor_tab_width,
        side_bar_visible: settings.view_file_list,
        mini_map_visible: settings.view_mini_map,
        view_hidden: settings.view_hidden_files,
        ..s
    }
}

/// The state after the editor's theme was toggled: the other of the two
/// themes, or the same one where it is neither.
pub open spec fn with_theme_toggled(s: StateView) -> StateView {
    StateView {
        buffer_style: match other_theme(s.buffer_style) {
            Some(theme) => theme,
            None => s.buffer_style,
        },
        ..s
    }
}

/// The state after one part of the window was shown or hidden.
pub open spec fn with_visibility(s: StateView, item: ItemVis, vis: bool) -> StateView {
    match item {
        ItemVis::SideBar => StateView { side_bar_visible: vis, ..s },
        ItemVis::MiniMap => StateView { mini_map_visible: vis, ..s },
        ItemVis::HiddenFiles => StateView { view_hidden: vis, ..s },
    }
}

/// Whether a state lists the files whose names start with a dot: where the
/// user asked for hidden files, and where the platform does not hide such
/// files at all.
pub open spec fn lists_dot_files(s: StateView) -> bool {
    s.view_hidden || !s.dot_prefix_hides
}

/// The path of node `n`.
pub open spec fn node_path(tree: Seq<TreeNode>, n: int) -> Seq<char> {
    tree[n].entry.absolute_path@
}

/// What a state asks for when the directory `n` is to be read anew: its
/// listing, where the node is the root or was expanded.
pub open spec fn reload_actions(s: StateView, n: int) -> Seq<ActionView> {
    if is_directory(s.tree, n) && (n == 0 || s.tree[n].expanded) {
        seq![ActionView::ReadFolder(n as usize, node_path(s.tree, n))]
    } else {
        Seq::empty()
    }
}

/// `t` is `s` with what was read below the directory `n` forgotten. Where
/// `n` is no directory of the tree, `t` is `s`.
pub open spec fn is_reloading(s: StateView, t: StateView, n: int) -> bool {
    if is_directory(s.tree, n) {
        t == (StateView { tree: t.tree, ..s }) && is_reset_of(s.tree, t.tree, n)
    } else {
        t == s
    }
}

/// The folder whose listing holds node `n`: its parent, or the root where
/// `n` has none or names no node.
pub open spec fn folder_of(tree: Seq<TreeNode>, n: int) -> int {
    if is_node(tree, n) && tree[n].parent is Some {
        tree[n].parent->0 as int
    } else {
        0
    }
}

/// `t` is `s` with the listing of the directory `node` taken in: its
/// snapshot under the state's hidden-file policy becomes the children of
/// the node, in the order read. A listing for a node that is not waiting
/// for one is dropped.
pub open spec fn is_folder_loaded(
    s: StateView,
    t: StateView,
    node: int,
    listing: Seq<RawEntryView>,
) -> bool {
    if is_directory(s.tree, node) && !s.tree[node].materialized {
        &&& t == (StateView { tree: t.tree, ..s })
        &&& is_filled_from(
            s.tree,
            t.tree,
            node,
            snapshot(node_path(s.tree, node), listing, lists_dot_files(s)),
        )
    } else {
        t == s
    }
}

/// The state `t` and the actions with which the state `s` answers
/// `message`.
pub open spec fn is_answer(
    s: StateView,
    message: Message,
    t: StateView,
    actions: Seq<ActionView>,
) -> bool {
    match message {
        Message::NewFile => {
            &&& t == (StateView { current_file_path: Seq::empty(), ..s })
            &&& actions == seq![ActionView::SetBufferText(Seq::empty())]
        },
        Message::FolderRequest => t == s && actions == seq![ActionView::ShowFolderDialog],
        Message::FolderResponse(path) => {
            &&& t == (StateView { current_folder_path: path@, tree: t.tree, ..s })
            &&& is_fresh_root(t.tree, path@)
            &&& actions == seq![ActionView::ReadFolder(0, path@)]
        },
        Message::OpenRequest => t == s && actions == seq![ActionView::ShowOpenDialog],
        Message::OpenResponse(path) => t == s && actions == seq![ActionView::ReadFile(path@)],
        Message::SaveAsRequest => t == s && actions == seq![ActionView::ShowSaveAsDialog],
        Message::SaveAsResponse(path) => t == s && actions == seq![
            ActionView::WriteFileAs(path@),
        ],
        Message::SaveFile => {
            &&& t == s
            &&& actions == if s.current_file_path.len() == 0 {
                seq![ActionView::ShowSaveAsDialog]
            } else {
                seq![ActionView::WriteFile(s.current_file_path)]
            }
        },
        Message::ClearEditor => {
            &&& t == s
            &&& actions == seq![ActionView::SetBufferText(Seq::empty()), ActionView::UndoBuffer]
        },
        Message::ToggleFileList => {
            &&& t == (StateView { side_bar_visible: !s.side_bar_visible, ..s })
            &&& actions == seq![ActionView::WriteSettings(settings_of(t))]
        },
        Message::ToggleHiddenFiles => {
            &&& is_reloading(StateView { view_hidden: !s.view_hidden, ..s }, t, 0)
            &&& actions == reload_actions(s, 0).push(ActionView::WriteSettings(settings_of(t)))
        },
        Message::ToggleMiniMap => {
            &&& t == (StateView { mini_map_visible: !s.mini_map_visible, ..s })
            &&& actions == seq![ActionView::WriteSettings(settings_of(t))]
        },
        Message::ToggleBufferStyleScheme => {
            &&& t == with_theme_toggled(s)
            &&& actions == seq![ActionView::WriteSettings(settings_of(t))]
        },
        Message::ToggleFullscreen => {
            &&& t == (StateView { fullscreen: !s.fullscreen, ..s })
            &&& actions == Seq::<ActionView>::empty()
        },
        Message::ShowKeyboardShortcuts => t == s && actions == seq![
            ActionView::ShowKeyboardShortcuts,
        ],
        Message::ShowPreferences => t == s && actions == seq![ActionView::ShowPreferences],
        Message::ShowAbout => t == s && actions == seq![ActionView::ShowAbout],
        Message::LoadFileFromTree(n) => {
            &&& t == s
            &&& actions == if !is_node(s.tree, n as int) {
                seq![ActionView::Toast("Failed to resolve the selected item!"@)]
            } else if s.tree[n as int].entry.kind == EntryKind::File {
                seq![ActionView::ReadFile(node_path(s.tree, n as int))]
            } else {
                Seq::empty()
            }
        },
        Message::ExpandFolder(n) => {
            if is_directory(s.tree, n as int) && !s.tree[n as int].materialized {
                t == s && actions == seq![ActionView::ReadFolder(n, node_path(s.tree, n as int))]
            } else if is_node(s.tree, n as int) && s.tree[n as int].materialized {
                &&& t == (StateView {
                    tree: s.tree.update(
                        n as int,
                        (TreeNode { expanded: true, ..s.tree[n as int] }),
                    ),
                    ..s
                })
                &&& actions == Seq::<ActionView>::empty()
            } else {
                t == s && actions == Seq::<ActionView>::empty()
            }
        },
        Message::CollapseFolder(n) => {
            &&& actions == Seq::<ActionView>::empty()
            &&& t == if is_node(s.tree, n as int) {
                StateView {
                    tree: s.tree.update(
                        n as int,
                        (TreeNode { expanded: false, ..s.tree[n as int] }),
                    ),
                    ..s
                }
            } else {
                s
            }
        },
        Message::DeleteItem(n) => {
            &&& t == s
            &&& actions == if !is_node(s.tree, n as int) {
                seq![ActionView::Toast("Failed to resolve the selected item!"@)]
            } else if n != 0 {
                seq![ActionView::MoveToTrash(n, node_path(s.tree, n as int))]
            } else {
                Seq::empty()
            }
        },
        Message::OpenFolderExternal => {
            &&& t == s
            &&& actions == if s.current_folder_path.len() == 0 {
                Seq::empty()
            } else {
                seq![ActionView::OpenFolderExternal(s.current_folder_path)]
            }
        },
        Message::UpDir => match parent(s.current_folder_path) {
            Some(up) => {
                &&& t == (StateView { current_folder_path: up, tree: t.tree, ..s })
                &&& is_fresh_root(t.tree, up)
                &&& actions == seq![ActionView::ReadFolder(0, up)]
            },
            None => t == s && actions == Seq::<ActionView>::empty(),
        },
        Message::RefreshFileList => is_reloading(s, t, 0) && actions == reload_actions(s, 0),
        Message::LoadSettings => t == s && actions == seq![ActionView::ReadSettings],
        Message::UpdateMonospace(value) => {
            &&& t == (StateView { editor_monospace: value, ..s })
            &&& actions == seq![ActionView::WriteSettings(settings_of(t))]
        },
        Message::UpdateTabType(use_spaces) => {
            &&& t == (StateView { editor_use_spaces_for_tabs: use_spaces, ..s })
            &&& actions == seq![ActionView::WriteSettings(settings_of(t))]
        },
        Message::UpdateTabWidth(tab_width) => {
            &&& t == (StateView { editor_tab_width: tab_width, ..s })
            &&& actions == seq![ActionView::WriteSettings(settings_of(t))]
        },
        Message::UpdateVisibility(item, vis) => {
            &&& t == with_visibility(s, item, vis)
            &&& actions == seq![ActionView::WriteSettings(settings_of(t))]
        },
        Message::CursorPositionChanged => t == s && actions == Seq::<ActionView>::empty(),
        Message::QuickToast(text) => t == s && actions == seq![ActionView::Toast(text@)],
        Message::Ignore => t == s && actions == Seq::<ActionView>::empty(),
        Message::FileLoaded(path, read) => match read {
            Ok(text) => {
                &&& t == (StateView { current_file_path: path@, ..s })
                &&& actions == seq![
                    ActionView::SetBufferText(text@),
                    ActionView::GuessSyntax(path@),
                ]
            },
            Err(_) => t == s && actions == seq![ActionView::Toast("Error when loading file!"@)],
        },
        Message::FileSaved(outcome) => {
            &&& t == s
            &&& actions == match outcome {
                SaveOutcome::Written => Seq::empty(),
                SaveOutcome::CannotOpen => seq![ActionView::ShowSaveAsDialog],
                SaveOutcome::WriteFailed => seq![ActionView::Toast("Error when saving file!"@)],
            }
        },
        Message::FileSavedAs(outcome) => {
            &&& t == s
            &&& actions == match outcome {
                SaveOutcome::Written => Seq::empty(),
                _ => seq![ActionView::Toast("Error when saving file!"@)],
            }
        },
        Message::FolderLoaded(node, listing) => match listing {
            Ok(raws) => {
                &&& is_folder_loaded(s, t, node as int, raw_views(raws@))
                &&& actions == Seq::<ActionView>::empty()
            },
            Err(_) => t == s && actions == seq![ActionView::Toast("Failed to Read Folder!"@)],
        },
        Message::ItemTrashed(node, result) => {
            let folder = folder_of(s.tree, node as int);
            &&& is_reloading(s, t, folder)
            &&& actions == match result {
                Ok(_) => reload_actions(s, folder),
                Err(_) => seq![ActionView::Toast("Failed to move item to trash!"@)]
                    + reload_actions(s, folder),
            }
        },
        Message::SettingsLoaded(loaded) => {
            &&& t == with_settings(
                s,
                match loaded {
                    Some(settings) => Some(settings@),
                    None => None,
                },
            )
            &&& actions == Seq::<ActionView>::empty()
        },
        Message::GitHead(head) => {
            &&& t == (StateView {
                git_info: match head {
                    Some(branch) => (branch@, true),
                    None => (Seq::empty(), false),
                },
                ..s
            })
            &&& actions == Seq::<ActionView>::empty()
        },
    }
}

/// The preferences to persist for `state`.
pub fn save_settings(state: &State) -> (r: AppSettings)
    ensures
        r@ == settings_of(state@),
{
    AppSettings {
        editor_theme: state.buffer_style.clone(),
        editor_monospace: state.editor_monospace,
        editor_use_spaces_for_tabs: state.editor_use_spaces_for_tabs,
        editor_tab_width: state.editor_tab_width,
        view_file_list: state.side_bar_visible,
        view_mini_map: state.mini_map_visible,
        view_hidden_files: state.view_hidden,
    }
}

/// Takes over the preferences that were loaded. `loaded` is `None` where
/// they could not be had: the state then goes by the defaults, in every
/// field.
pub fn load_settings(state: &mut State, loaded: Option<AppSettings>)
    ensures
        final(state)@ == with_settings(
            old(state)@,
            match loaded {
                Some(settings) => Some(settings@),
                None => None,
            },
        ),
{
    let settings = resolve_settings(loaded);
    if scheme_id(settings.editor_theme.as_str()).is_some() {
        state.buffer_style = settings.editor_theme;
    }
    state.editor_monospace = settings.editor_monospace;
    state.editor_use_spaces_for_tabs = settings.editor_use_spaces_for_tabs;
    state.editor_tab_width = settings.editor_tab_width;
    state.side_bar_visible = settings.view_file_list;
    state.mini_map_visible = settings.view_mini_map;
    state.view_hidden = settings.view_hidden_files;
}

/// Switches between the light and the dark theme.
pub fn toggle_buffer_style(state: &mut State)
    ensures
        final(state)@ == with_theme_toggled(old(state)@),
{
    match toggled_theme(state.buffer_style.as_str()) {
        Some(theme) => {
            state.buffer_style = theme.to_owned();
        },
        None => {},
    }
}

/// Shows or hides one part of the window.
pub fn update_vis(item: ItemVis, vis: bool, state: &mut State)
    ensures
        final(state)@ == with_visibility(old(state)@, item, vis),
{
    match item {
        ItemVis::SideBar => {
            state.side_bar_visible = vis;
        },
        ItemVis::MiniMap => {
            state.mini_map_visible = vis;
        },
        ItemVis::HiddenFiles => {
            state.view_hidden = vis;
        },
    }
}

/// Takes in what came of reading the file at `path`: its text goes to the
/// editor and the file becomes the current one. A failed read is notified
/// and changes nothing.
pub fn load_file(state: &mut State, path: String, read: Result<String, IoError>) -> (r: Vec<
    Action,
>)
    ensures
        is_answer(old(state)@, Message::FileLoaded(path, read), final(state)@, action_views(r@)),
{
    match read {
        Ok(text) => {
            state.current_file_path = path.clone();
            two_actions(Action::SetBufferText(text), Action::GuessSyntax(path))
        },
        Err(_) => one_action(Action::Toast("Error when loading file!".to_owned())),
    }
}

/// What to do about the file in the editor when it is to be saved: write it
/// where it came from, or ask for a place where it came from nowhere.
pub fn save_file(state: &State) -> (r: Vec<Action>)
    ensures
        is_answer(state@, Message::SaveFile, state@, action_views(r@)),
{
    if state.current_file_path.as_str().unicode_len() == 0 {
        one_action(Action::ShowSaveAsDialog)
    } else {
        one_action(Action::WriteFile(state.current_file_path.clone()))
    }
}

/// Forgets what was read below the directory `n` and asks for its listing
/// where the node is the root or was expanded.
pub fn reload_folder(state: &mut State, n: usize) -> (r: Vec<Action>)
    ensures
        is_reloading(old(state)@, final(state)@, n as int),
        action_views(r@) == reload_actions(old(state)@, n as int),
{
    let found = state.tree.select(n);
    let was_expanded = state.tree.refresh(n);
    match found {
        Some((path, EntryKind::Directory)) => {
            if n == 0 || was_expanded.is_some() {
                one_action(Action::ReadFolder(n, path))
            } else {
                no_action()
            }
        },
        _ => no_action(),
    }
}

/// Takes in what came of reading the directory of `node`: the snapshot of
/// the listing becomes the node's children. A failed read is notified and
/// changes nothing.
pub fn load_folder(state: &mut State, node: usize, listing: Result<Vec<RawEntry>, IoError>) -> (r:
    Vec<Action>)
    ensures
        is_answer(
            old(state)@,
            Message::FolderLoaded(node, listing),
            final(state)@,
            action_views(r@),
        ),
{
    match listing {
        Err(_) => one_action(Action::Toast("Failed to Read Folder!".to_owned())),
        Ok(raws) => {
            match state.tree.select(node) {
                Some((path, _)) => {
                    let show_hidden = state.view_hidden || !state.dot_prefix_hides;
                    let entries = snapshot_entries(path.as_str(), &raws, show_hidden);
                    state.tree.materialize(node, &entries);
                },
                None => {},
            }
            no_action()
        },
    }
}

/// The folder whose listing holds `node`.
fn folder_holding(state: &State, node: usize) -> (r: usize)
    ensures
        r == folder_of(state@.tree, node as int),
{
    match state.tree.parent(node) {
        Some(p) => p,
        None => 0,
    }
}

/// Roots the tree at the current folder, forgetting the tree that was, and
/// asks for the folder's listing.
pub fn load_folder_view(state: &mut State) -> (r: Vec<Action>)
    ensures
        final(state)@ == (StateView { tree: final(state)@.tree, ..old(state)@ }),
        is_fresh_root(final(state)@.tree, old(state)@.current_folder_path),
        action_views(r@) == seq![ActionView::ReadFolder(0, old(state)@.current_folder_path)],
{
    state.tree.set_root(state.current_folder_path.as_str());
    one_action(Action::ReadFolder(0, state.current_folder_path.clone()))
}

/// Opens the folder at `path`: it becomes the current folder and the root
/// of a new tree, whose listing is asked for.
pub fn open_folder(state: &mut State, path: String) -> (r: Vec<Action>)
    ensures
        is_answer(old(state)@, Message::FolderResponse(path), final(state)@, action_views(r@)),
{
    state.current_folder_path = path;
    load_folder_view(state)
}

/// Goes to the parent of the current folder. Nothing happens where it has
/// none: at the root of the file system and while no folder is open.
pub fn navigate_up(state: &mut State) -> (r: Vec<Action>)
    ensures
        is_answer(old(state)@, Message::UpDir, final(state)@, action_views(r@)),
{
    match path_parent(state.current_folder_path.as_str()) {
        Some(up) => {
            state.current_folder_path = up;
            load_folder_view(state)
        },
        None => no_action(),
    }
}

/// Answers the selection of node `n`: a file is to be read into the editor,
/// a directory or anything else is left alone. A selection that resolves to
/// no node is notified.
pub fn select_in_tree(state: &State, n: usize) -> (r: Vec<Action>)
    ensures
        is_answer(state@, Message::LoadFileFromTree(n), state@, action_views(r@)),
{
    match state.tree.select(n) {
        Some((path, EntryKind::File)) => one_action(Action::ReadFile(path)),
        Some(_) => no_action(),
        None => one_action(Action::Toast("Failed to resolve the selected item!".to_owned())),
    }
}

/// Shows the children of the directory `n`, asking for its listing where
/// it was not read yet.
pub fn expand_folder(state: &mut State, n: usize) -> (r: Vec<Action>)
    ensures
        is_answer(old(state)@, Message::ExpandFolder(n), final(state)@, action_views(r@)),
{
    match state.tree.expand(n) {
        Some(path) => one_action(Action::ReadFolder(n, path)),
        None => no_action(),
    }
}

/// Hides the children of node `n`.
pub fn collapse_folder(state: &mut State, n: usize) -> (r: Vec<Action>)
    ensures
        is_answer(old(state)@, Message::CollapseFolder(n), final(state)@, action_views(r@)),
{
    state.tree.collapse(n);
    no_action()
}

/// Asks for the file of node `n` to be moved to the trash. The root, which
/// is the open folder itself, is not deleted. A selection that resolves to
/// no node is notified.
pub fn delete_item(state: &State, n: usize) -> (r: Vec<Action>)
    ensures
        is_answer(state@, Message::DeleteItem(n), state@, action_views(r@)),
{
    match state.tree.select(n) {
        Some((path, _)) => {
            if n != 0 {
                one_action(Action::MoveToTrash(n, path))
            } else {
                no_action()
            }
        },
        None => one_action(Action::Toast("Failed to resolve the selected item!".to_owned())),
    }
}

/// Takes in what came of moving the file of `node` to the trash. A failure
/// is notified; either way the folder that listed the node is read anew.
pub fn item_trashed(state: &mut State, node: usize, result: Result<(), IoError>) -> (r: Vec<
    Action,
>)
    ensures
        is_answer(
            old(state)@,
            Message::ItemTrashed(node, result),
            final(state)@,
            action_views(r@),
        ),
{
    let folder = folder_holding(state, node);
    let reload = reload_folder(state, folder);
    match result {
        Ok(_) => reload,
        Err(_) => {
            let mut actions = one_action(Action::Toast("Failed to move item to trash!".to_owned()));
            let mut reload = reload;
            let ghost first = action_views(actions@);
            let ghost rest = action_views(reload@);
            actions.append(&mut reload);
            assert(action_views(actions@) =~= first + rest);
            actions
        },
    }
}

/// Takes in how saving the current file ended: where the file could not be
/// opened for writing, a place to save to is asked for; where writing
/// failed, that is notified.
pub fn file_saved(outcome: SaveOutcome) -> (r: Vec<Action>)
    ensures
        forall|s: StateView| is_answer(s, Message::FileSaved(outcome), s, action_views(r@)),
{
    match outcome {
        SaveOutcome::Written => no_action(),
        SaveOutcome::CannotOpen => one_action(Action::ShowSaveAsDialog),
        SaveOutcome::WriteFailed => one_action(Action::Toast("Error when saving file!".to_owned())),
    }
}

/// Takes in how saving to a chosen place ended: a failure is notified.
pub fn file_saved_as(outcome: SaveOutcome) -> (r: Vec<Action>)
    ensures
        forall|s: StateView| is_answer(s, Message::FileSavedAs(outcome), s, action_views(r@)),
{
    match outcome {
        SaveOutcome::Written => no_action(),
        _ => one_action(Action::Toast("Error when saving file!".to_owned())),
    }
}

/// Shows hidden files where they were not shown, and the other way round;
/// the open folder is read anew and the preferences are persisted.
pub fn toggle_hidden_files(state: &mut State) -> (r: Vec<Action>)
    ensures
        is_answer(old(state)@, Message::ToggleHiddenFiles, final(state)@, action_views(r@)),
{
    state.view_hidden = !state.view_hidden;
    let actions = reload_folder(state, 0);
    and_action(actions, Action::WriteSettings(save_settings(state)))
}

/// Records the branch that the open folder's repository is on; `None`
/// where the folder lies in no repository.
pub fn set_git_head(state: &mut State, head: Option<String>)
    ensures
        is_answer(old(state)@, Message::GitHead(head), final(state)@, Seq::<ActionView>::empty()),
{
    match head {
        Some(branch) => {
            state.git_info = (branch, true);
        },
        None => {
            state.git_info = (String::new(), false);
        },
    }
}

/// Answers `message`: changes the state and says what is to be done.
#[verifier::spinoff_prover]
#[verifier::rlimit(50)]
pub fn handle_messages(state: &mut State, message: Message) -> (r: Vec<Action>)
    ensures
        is_answer(old(state)@, message, final(state)@, action_views(r@)),
{
    match message {
        // File
        Message::NewFile => {
            state.current_file_path = String::new();
            one_action(Action::SetBufferText(String::new()))
        },
        Message::FolderRequest => one_action(Action::ShowFolderDialog),
        Message::FolderResponse(path) => open_folder(state, path),
        Message::OpenRequest => one_action(Action::ShowOpenDialog),
        Message::OpenResponse(path) => one_action(Action::ReadFile(path)),
        Message::SaveAsRequest => one_action(Action::ShowSaveAsDialog),
        Message::SaveAsResponse(path) => one_action(Action::WriteFileAs(path)),
        Message::SaveFile => save_file(state),
        // Edit
        Message::ClearEditor => two_actions(
            Action::SetBufferText(String::new()),
            Action::UndoBuffer,
        ),
        // View
        Message::ToggleFileList => {
            state.side_bar_visible = !state.side_bar_visible;
            one_action(Action::WriteSettings(save_settings(state)))
        },
        Message::ToggleHiddenFiles => toggle_hidden_files(state),
        Message::ToggleMiniMap => {
            state.mini_map_visible = !state.mini_map_visible;
            one_action(Action::WriteSettings(save_settings(state)))
        },
        Message::ToggleBufferStyleScheme => {
            toggle_buffer_style(state);
            one_action(Action::WriteSettings(save_settings(state)))
        },
        Message::ToggleFullscreen => {
            state.fullscreen = !state.fullscreen;
            no_action()
        },
        // About
        Message::ShowKeyboardShortcuts => one_action(Action::ShowKeyboardShortcuts),
        Message::ShowPreferences => one_action(Action::ShowPreferences),
        Message::ShowAbout => one_action(Action::ShowAbout),
        // File tree
        Message::LoadFileFromTree(n) => select_in_tree(state, n),
        Message::ExpandFolder(n) => expand_folder(state, n),
        Message::CollapseFolder(n) => collapse_folder(state, n),
        Message::DeleteItem(n) => delete_item(state, n),
        Message::OpenFolderExternal => {
            if state.current_folder_path.as_str().unicode_len() == 0 {
                no_action()
            } else {
                one_action(Action::OpenFolderExternal(state.current_folder_path.clone()))
            }
        },
        Message::UpDir => navigate_up(state),
        Message::RefreshFileList => reload_folder(state, 0),
        // Other
        Message::LoadSettings => one_action(Action::ReadSettings),
        Message::UpdateMonospace(value) => {
            state.editor_monospace = value;
            one_action(Action::WriteSettings(save_settings(state)))
        },
        Message::UpdateTabType(use_spaces) => {
            state.editor_use_spaces_for_tabs = use_spaces;
            one_action(Action::WriteSettings(save_settings(state)))
        },
        Message::UpdateTabWidth(tab_width) => {
            state.editor_tab_width = tab_width;
            one_action(Action::WriteSettings(save_settings(state)))
        },
        Message::UpdateVisibility(item, vis) => {
            update_vis(item, vis, state);
            one_action(Action::WriteSettings(save_settings(state)))
        },
        Message::CursorPositionChanged => no_action(),
        Message::QuickToast(text) => one_action(Action::Toast(text)),
        Message::Ignore => no_action(),
        // What came of an action
        Message::FileLoaded(path, read) => load_file(state, path, read),
        Message::FileSaved(outcome) => file_saved(outcome),
        Message::FileSavedAs(outcome) => file_saved_as(outcome),
        Message::FolderLoaded(node, listing) => load_folder(state, node, listing),
        Message::ItemTrashed(node, result) => item_trashed(state, node, result),
        Message::SettingsLoaded(loaded) => {
            load_settings(state, loaded);
            no_action()
        },
        Message::GitHead(head) => {
            set_git_head(state, head);
            no_action()
        },
    }
}

/// Refreshing the open folder twice, with the same listing read both
/// times, shows the same children in the same order both times.
pub proof fn law_refresh_is_idempotent(
    s0: StateView,
    s1: StateView,
    s2: StateView,
    s3: StateView,
    s4: StateView,
    listing: Vec<RawEntry>,
    a1: Seq<ActionView>,
    a2: Seq<ActionView>,
    a3: Seq<ActionView>,
    a4: Seq<ActionView>,
)
    requires
        is_directory(s0.tree, 0),
        is_answer(s0, Message::RefreshFileList, s1, a1),
        is_answer(s1, Message::FolderLoaded(0, Ok(listing)), s2, a2),
        is_answer(s2, Message::RefreshFileList, s3, a3),
        is_answer(s3, Message::FolderLoaded(0, Ok(listing)), s4, a4),
    ensures
        child_entries(s2.tree, 0) == snapshot(
            node_path(s0.tree, 0),
            raw_views(listing@),
            lists_dot_files(s0),
        ),
        child_entries(s4.tree, 0) == child_entries(s2.tree, 0),
{
    let entries = snapshot(node_path(s0.tree, 0), raw_views(listing@), lists_dot_files(s0));
    lemma_filled_children(s1.tree, s2.tree, 0, entries);
    lemma_filled_children(s3.tree, s4.tree, 0, entries);
}

/// A folder is listed in the order in which it was read: where dot files
/// are listed its children are the children read, one for one; otherwise
/// they are those whose names do not start with a dot, in the same order.
pub proof fn law_folder_is_listed_in_the_order_read(
    s: StateView,
    t: StateView,
    node: usize,
    listing: Vec<RawEntry>,
    actions: Seq<ActionView>,
)
    requires
        is_directory(s.tree, node as int),
        !s.tree[node as int].materialized,
        is_answer(s, Message::FolderLoaded(node, Ok(listing)), t, actions),
    ensures
        child_entries(t.tree, node as int) == snapshot(
            node_path(s.tree, node as int),
            raw_views(listing@),
            lists_dot_files(s),
        ),
        lists_dot_files(s) ==> child_entries(t.tree, node as int).len() == listing@.len(),
        lists_dot_files(s) ==> forall|j: int|
            0 <= j < listing@.len() ==> (#[trigger] child_entries(t.tree, node as int)[j]).name
                == listing@[j].name@,
{
    let dir = node_path(s.tree, node as int);
    let raws = raw_views(listing@);
    lemma_filled_children(s.tree, t.tree, node as int, snapshot(dir, raws, lists_dot_files(s)));
    if lists_dot_files(s) {
        law_hidden_files_filter(dir, raws);
    }
}

/// Once an item was moved to the trash and its folder was read anew, the
/// folder lists no name that the new listing does not hold: an item that is
/// gone from the disk is gone from the tree.
pub proof fn law_trashed_item_is_not_listed(
    s0: StateView,
    s1: StateView,
    s2: StateView,
    node: usize,
    folder: usize,
    result: Result<(), IoError>,
    listing: Vec<RawEntry>,
    name: Seq<char>,
    a1: Seq<ActionView>,
    a2: Seq<ActionView>,
)
    requires
        folder == folder_of(s0.tree, node as int),
        is_directory(s0.tree, folder as int),
        is_answer(s0, Message::ItemTrashed(node, result), s1, a1),
        is_answer(s1, Message::FolderLoaded(folder, Ok(listing)), s2, a2),
        forall|j: int| 0 <= j < listing@.len() ==> (#[trigger] listing@[j]).name@ != name,
    ensures
        forall|k: int|
            0 <= k < child_entries(s2.tree, folder as int).len() ==> (#[trigger] child_entries(
                s2.tree,
                folder as int,
            )[k]).name != name,
{
    let raws = raw_views(listing@);
    let dir = node_path(s1.tree, folder as int);
    let entries = snapshot(dir, raws, lists_dot_files(s1));
    lemma_filled_children(s1.tree, s2.tree, folder as int, entries);
    law_snapshot_holds_the_listed(dir, raws, lists_dot_files(s1));
    assert forall|k: int| 0 <= k < entries.len() implies (#[trigger] entries[k]).name != name by {
        assert(entries.contains(entries[k]));
        let j = choose|j: int|
            0 <= j < raws.len() && is_listed(#[trigger] raws[j], lists_dot_files(s1)) && entries[k]
                == entry_of(dir, raws[j]);
        assert(raws[j].name == listing@[j].name@);
    }
}

/// A file that cannot be opened for writing is never dropped in silence:
/// the answer is to ask where to save it instead.
pub proof fn law_save_falls_back_to_save_as(s: StateView, t: StateView, actions: Seq<ActionView>)
    requires
        is_answer(s, Message::FileSaved(SaveOutcome::CannotOpen), t, actions),
    ensures
        t == s,
        actions == seq![ActionView::ShowSaveAsDialog],
{
}

/// Opening a file and saving it at once writes the text that was read back
/// to the file that it was read from.
pub proof fn law_open_then_save_writes_back(
    s0: StateView,
    s1: StateView,
    s2: StateView,
    s3: StateView,
    path: String,
    text: String,
    a1: Seq<ActionView>,
    a2: Seq<ActionView>,
    a3: Seq<ActionView>,
)
    requires
        path@.len() > 0,
        is_answer(s0, Message::OpenResponse(path), s1, a1),
        is_answer(s1, Message::FileLoaded(path, Ok(text)), s2, a2),
        is_answer(s2, Message::SaveFile, s3, a3),
    ensures
        a1 == seq![ActionView::ReadFile(path@)],
        a2[0] == ActionView::SetBufferText(text@),
        a3 == seq![ActionView::WriteFile(path@)],
        s3.current_file_path == path@,
{
}

/// Loading the preferences never fails: where none could be had, the
/// state goes by the defaults in every field, the theme among them, and
/// nothing else of the state changes.
pub proof fn law_settings_fall_back_to_defaults(
    s: StateView,
    t: StateView,
    actions: Seq<ActionView>,
)
    requires
        is_answer(s, Message::SettingsLoaded(None), t, actions),
    ensures
        settings_of(t) == default_settings(),
        t.buffer_style == "Adwaita"@,
        t.current_file_path == s.current_file_path,
        t.current_folder_path == s.current_folder_path,
        t.tree == s.tree,
        actions == Seq::<ActionView>::empty(),
{
}

/// What was persisted is restored: loading the preferences that a state
/// stands for gives a state that stands for the same preferences, the side
/// bar among them, as long as the theme is one that the editor knows.
pub proof fn law_saved_settings_are_restored(
    saved: StateView,
    s: StateView,
    t: StateView,
    loaded: AppSettings,
    actions: Seq<ActionView>,
)
    requires
        loaded@ == settings_of(saved),
        scheme_of_theme(saved.buffer_style) is Some,
        is_answer(s, Message::SettingsLoaded(Some(loaded)), t, actions),
    ensures
        settings_of(t) == settings_of(saved),
        t.side_bar_visible == saved.side_bar_visible,
{
}

/// Going up either changes nothing or leaves a shorter path: going up
/// again and again comes to rest.
pub proof fn law_navigate_up_shortens_the_path(
    s: StateView,
    t: StateView,
    actions: Seq<ActionView>,
)
    requires
        is_answer(s, Message::UpDir, t, actions),
    ensures
        t == s || t.current_folder_path.len() < s.current_folder_path.len(),
{
    law_parent_is_a_proper_prefix(s.current_folder_path);
}

/// At the root of the file system, going up changes nothing and asks for
/// nothing.
pub proof fn law_navigate_up_stops_at_root(s: StateView, t: StateView, actions: Seq<ActionView>)
    requires
        s.current_folder_path == seq!['/'],
        is_answer(s, Message::UpDir, t, actions),
    ensures
        t == s,
        actions == Seq::<ActionView>::empty(),
{
    lemma_root_has_no_parent();
}

} // verus!
