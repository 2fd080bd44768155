//! The logic of a small source-code editor: classifying paths, taking
//! directory snapshots, a lazily materialised folder tree, the dispatch of
//! user intents and the persisted preferences.

pub mod file_type;
pub mod folder;
pub mod model;
pub mod path;
pub mod settings;
pub mod text;
pub mod tree;
pub mod update;
pub mod view;
