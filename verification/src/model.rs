//! The editor's state, the messages that change it and the actions that it
//! asks of its surroundings.

use vstd::prelude::*;
use crate::folder::{IoError, RawEntry};
use crate::settings::{AppSettings, AppSettingsView};
use crate::tree::{LazyTree, TreeNode};

verus! {

/// What is open and how it is shown. The widgets are not part of it: they
/// are made to show what the state says.
#[derive(Debug)]
pub struct State {
    /// The file in the editor; empty for a new document that was not saved.
    pub current_file_path: String,
    /// The folder in the side bar; empty while none is open.
    pub current_folder_path: String,
    /// Whether the side bar lists hidden files.
    pub view_hidden: bool,
    /// Whether the platform hides a file whose name starts with a dot, as
    /// Unix does. Where it does not, every file is listed.
    pub dot_prefix_hides: bool,
    /// The tree over the open folder.
    pub tree: LazyTree,
    /// The name of the editor theme in use.
    pub buffer_style: String,
    pub editor_monospace: bool,
    pub editor_use_spaces_for_tabs: bool,
    pub editor_tab_width: u32,
    pub side_bar_visible: bool,
    pub mini_map_visible: bool,
    pub fullscreen: bool,
    /// The branch that the open folder's repository is on, and whether the
    /// folder lies in a repository at all.
    pub git_info: (String, bool),
}

/// The mathematical value of a [`State`].
pub struct StateView {
    pub current_file_path: Seq<char>,
    pub current_folder_path: Seq<char>,
    pub view_hidden: bool,
    pub dot_prefix_hides: bool,
    pub tree: Seq<TreeNode>,
    pub buffer_style: Seq<char>,
    pub editor_monospace: bool,
    pub editor_use_spaces_for_tabs: bool,
    pub editor_tab_width: u32,
    pub side_bar_visible: bool,
    pub mini_map_visible: bool,
    pub fullscreen: bool,
    pub git_info: (Seq<char>, bool),
}

impl View for State {
    type V = StateView;

    open spec fn view(&self) -> StateView {
        StateView {
            current_file_path: self.current_file_path@,
            current_folder_path: self.current_folder_path@,
            view_hidden: self.view_hidden,
            dot_prefix_hides: self.dot_prefix_hides,
            tree: self.tree@,
            buffer_style: self.buffer_style@,
            editor_monospace: self.editor_monospace,
            editor_use_spaces_for_tabs: self.editor_use_spaces_for_tabs,
            editor_tab_width: self.editor_tab_width,
            side_bar_visible: self.side_bar_visible,
            mini_map_visible: self.mini_map_visible,
            fullscreen: self.fullscreen,
            git_info: (self.git_info.0@, self.git_info.1),
        }
    }
}

/// The state at start-up, with `current_file_path` as the file in the
/// editor: no folder open, the dark theme, the editor as it is built, and
/// the hidden-file convention of Unix. A caller on a platform without that
/// convention clears `dot_prefix_hides`.
pub open spec fn initial_state(current_file_path: Seq<char>) -> StateView {
    StateView {
        current_file_path,
        current_folder_path: Seq::empty(),
        view_hidden: true,
        dot_prefix_hides: true,
        tree: Seq::empty(),
        buffer_style: "Adwaita Dark"@,
        editor_monospace: true,
        editor_use_spaces_for_tabs: false,
        editor_tab_width: 8,
        side_bar_visible: true,
        mini_map_visible: true,
        fullscreen: false,
        git_info: (Seq::empty(), false),
    }
}

impl State {
    /// The state at start-up.
    pub fn init(current_file_path: String) -> (r: State)
        ensures
            r@ == initial_state(current_file_path@),
    {
        let tree = LazyTree::new();
        assert(tree@ =~= Seq::<TreeNode>::empty());
        State {
            current_file_path,
            current_folder_path: String::new(),
            view_hidden: true,
            dot_prefix_hides: true,
            tree,
            buffer_style: "Adwaita Dark".to_owned(),
            editor_monospace: true,
            editor_use_spaces_for_tabs: false,
            editor_tab_width: 8,
            side_bar_visible: true,
            mini_map_visible: true,
            fullscreen: false,
            git_info: (String::new(), false),
        }
    }
}

/// A part of the window that can be shown or not.
#[derive(Clone, Copy, Debug, PartialEq, Eq, Structural)]
pub enum ItemVis {
    SideBar,
    MiniMap,
    HiddenFiles,
}

/// How an attempt to save the editor's text ended.
#[derive(Clone, Copy, Debug, PartialEq, Eq, Structural)]
pub enum SaveOutcome {
    /// The text is in the file.
    Written,
    /// The file could not be created or opened for writing.
    CannotOpen,
    /// The file was opened, but the text could not be written.
    WriteFailed,
}

/// What the user asked for, or what came of an earlier action.
#[derive(Debug)]
pub enum Message {
    // File
    NewFile,
    FolderRequest,
    FolderResponse(String),
    OpenRequest,
    OpenResponse(String),
    SaveAsRequest,
    SaveAsResponse(String),
    SaveFile,
    // Edit
    ClearEditor,
    // View
    ToggleFileList,
    ToggleHiddenFiles,
    ToggleMiniMap,
    ToggleBufferStyleScheme,
    ToggleFullscreen,
    // About
    ShowKeyboardShortcuts,
    ShowPreferences,
    ShowAbout,
    // File tree
    LoadFileFromTree(usize),
    ExpandFolder(usize),
    CollapseFolder(usize),
    DeleteItem(usize),
    OpenFolderExternal,
    UpDir,
    RefreshFileList,
    // Other
    LoadSettings,
    UpdateMonospace(bool),
    UpdateTabType(bool),
    UpdateTabWidth(u32),
    UpdateVisibility(ItemVis, bool),
    CursorPositionChanged,
    QuickToast(String),
    Ignore,
    // What came of an action
    FileLoaded(String, Result<String, IoError>),
    FileSaved(SaveOutcome),
    FileSavedAs(SaveOutcome),
    FolderLoaded(usize, Result<Vec<RawEntry>, IoError>),
    ItemTrashed(usize, Result<(), IoError>),
    SettingsLoaded(Option<AppSettings>),
    GitHead(Option<String>),
}

/// Work that the state machine leaves to its surroundings. An action that
/// reads or writes is answered with the message that carries its outcome.
#[derive(Debug)]
pub enum Action {
    /// Replace the editor's text.
    SetBufferText(String),
    /// Undo the last change of the editor's text.
    UndoBuffer,
    ShowOpenDialog,
    ShowFolderDialog,
    ShowSaveAsDialog,
    ShowKeyboardShortcuts,
    ShowPreferences,
    ShowAbout,
    /// Read the file; answered with `FileLoaded`.
    ReadFile(String),
    /// Write the editor's text to the file; answered with `FileSaved`.
    WriteFile(String),
    /// Write the editor's text to the file; answered with `FileSavedAs`.
    WriteFileAs(String),
    /// Read the directory of the node; answered with `FolderLoaded`.
    ReadFolder(usize, String),
    /// Move the node's file to the trash; answered with `ItemTrashed`.
    MoveToTrash(usize, String),
    /// Show the folder in the platform's file manager.
    OpenFolderExternal(String),
    /// Load the persisted preferences; answered with `SettingsLoaded`.
    ReadSettings,
    /// Persist the preferences.
    WriteSettings(AppSettings),
    /// Choose the syntax highlighting for the file.
    GuessSyntax(String),
    /// Show a passing notification.
    Toast(String),
}

/// The mathematical value of an [`Action`].
pub enum ActionView {
    SetBufferText(Seq<char>),
    UndoBuffer,
    ShowOpenDialog,
    ShowFolderDialog,
    ShowSaveAsDialog,
    ShowKeyboardShortcuts,
    ShowPreferences,
    ShowAbout,
    ReadFile(Seq<char>),
    WriteFile(Seq<char>),
    WriteFileAs(Seq<char>),
    ReadFolder(usize, Seq<char>),
    MoveToTrash(usize, Seq<char>),
    OpenFolderExternal(Seq<char>),
    ReadSettings,
    WriteSettings(AppSettingsView),
    GuessSyntax(Seq<char>),
    Toast(Seq<char>),
}

impl View for Action {
    type V = ActionView;

    open spec fn view(&self) -> ActionView {
        match self {
            Action::SetBufferText(text) => ActionView::SetBufferText(text@),
            Action::UndoBuffer => ActionView::UndoBuffer,
            Action::ShowOpenDialog => ActionView::ShowOpenDialog,
            Action::ShowFolderDialog => ActionView::ShowFolderDialog,
            Action::ShowSaveAsDialog => ActionView::ShowSaveAsDialog,
            Action::ShowKeyboardShortcuts => ActionView::ShowKeyboardShortcuts,
            Action::ShowPreferences => ActionView::ShowPreferences,
            Action::ShowAbout => ActionView::ShowAbout,
            Action::ReadFile(path) => ActionView::ReadFile(path@),
            Action::WriteFile(path) => ActionView::WriteFile(path@),
            Action::WriteFileAs(path) => ActionView::WriteFileAs(path@),
            Action::ReadFolder(node, path) => ActionView::ReadFolder(*node, path@),
            Action::MoveToTrash(node, path) => ActionView::MoveToTrash(*node, path@),
            Action::OpenFolderExternal(path) => ActionView::OpenFolderExternal(path@),
            Action::ReadSettings => ActionView::ReadSettings,
            Action::WriteSettings(settings) => ActionView::WriteSettings(settings@),
            Action::GuessSyntax(path) => ActionView::GuessSyntax(path@),
            Action::Toast(text) => ActionView::Toast(text@),
        }
    }
}

/// The values of a sequence of actions.
pub open spec fn action_views(actions: Seq<Action>) -> Seq<ActionView> {
    actions.map_values(|a: Action| a@)
}

/// No action.
pub fn no_action() -> (r: Vec<Action>)
    ensures
        action_views(r@) == Seq::<ActionView>::empty(),
{
    let r: Vec<Action> = Vec::new();
    assert(action_views(r@) =~= Seq::<ActionView>::empty());
    r
}

/// The one action `a`.
pub fn one_action(a: Action) -> (r: Vec<Action>)
    ensures
        action_views(r@) == seq![a@],
{
    let mut r: Vec<Action> = Vec::new();
    r.push(a);
    assert(action_views(r@) =~= seq![a@]);
    r
}

/// The action `a`, then the action `b`.
pub fn two_actions(a: Action, b: Action) -> (r: Vec<Action>)
    ensures
        action_views(r@) == seq![a@, b@],
{
    let mut r: Vec<Action> = Vec::new();
    r.push(a);
    r.push(b);
    assert(action_views(r@) =~= seq![a@, b@]);
    r
}

/// `actions` followed by `a`.
pub fn and_action(actions: Vec<Action>, a: Action) -> (r: Vec<Action>)
    ensures
        action_views(r@) == action_views(actions@).push(a@),
{
    let mut r = actions;
    r.push(a);
    assert(action_views(r@) =~= action_views(actions@).push(a@));
    r
}

} // verus!
