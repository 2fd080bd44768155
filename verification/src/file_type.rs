//! The label shown for a file, chosen by its extension.

use vstd::prelude::*;
use crate::path::{extension, path_extension};
use crate::text::text_eq;

verus! {

/// The label of an extension: an exact, case-sensitive match against the
/// table of known extensions.
pub open spec fn label_of_extension(ext: Seq<char>) -> Option<Seq<char>> {
    // Text, configuration and markup
    if ext == "axaml"@ {
        Some("AXAML"@)
    } else if ext == "base"@ {
        Some("Obsidian Base File"@)
    } else if ext == "css"@ {
        Some("CSS"@)
    } else if ext == "hbs"@ {
        Some("Handlebars"@)
    } else if ext == "html"@ {
        Some("HTML"@)
    } else if ext == "hxml"@ {
        Some("Haxe Build File"@)
    } else if ext == "ini"@ {
        Some("INI"@)
    } else if ext == "json"@ {
        Some("JSON"@)
    } else if ext == "jsonc"@ {
        Some("JSONC"@)
    } else if ext == "md"@ {
        Some("Markdown"@)
    } else if ext == "norg"@ {
        Some("Neorg"@)
    } else if ext == "org"@ {
        Some("Org Mode File"@)
    } else if ext == "toml"@ {
        Some("TOML"@)
    } else if ext == "txt"@ {
        Some("Text File"@)
    } else if ext == "xaml"@ {
        Some("XAML"@)
    } else if ext == "xml"@ {
        Some("XML"@)
    // Shell scripts
    } else if ext == "fish"@ {
        Some("Fish Script"@)
    } else if ext == "ps1"@ {
        Some("PowerShell Script"@)
    } else if ext == "sh"@ {
        Some("Shell Script"@)
    // Source files
    } else if ext == "c"@ {
        Some("C"@)
    } else if ext == "cr"@ {
        Some("Crystal"@)
    } else if ext == "cs"@ {
        Some("C#"@)
    } else if ext == "el"@ {
        Some("ELisp"@)
    } else if ext == "elm"@ {
        Some("Elm"@)
    } else if ext == "erl"@ {
        Some("Erlang"@)
    } else if ext == "ex"@ {
        Some("Elixir"@)
    } else if ext == "exs"@ {
        Some("Elixir"@)
    } else if ext == "gd"@ {
        Some("GDScript"@)
    } else if ext == "gleam"@ {
        Some("Gleam"@)
    } else if ext == "h"@ {
        Some("Header File"@)
    } else if ext == "hrl"@ {
        Some("Erlang Header"@)
    } else if ext == "hx"@ {
        Some("Haxe"@)
    } else if ext == "java"@ {
        Some("Java"@)
    } else if ext == "jl"@ {
        Some("Julia"@)
    } else if ext == "js"@ {
        Some("JavaScript"@)
    } else if ext == "kt"@ {
        Some("Kotlin"@)
    } else if ext == "lisp"@ {
        Some("Common Lisp"@)
    } else if ext == "lua"@ {
        Some("Lua"@)
    } else if ext == "ml"@ {
        Some("OCaml"@)
    } else if ext == "php"@ {
        Some("PHP"@)
    } else if ext == "py"@ {
        Some("Python"@)
    } else if ext == "rb"@ {
        Some("Ruby"@)
    } else if ext == "rs"@ {
        Some("Rust"@)
    } else if ext == "ts"@ {
        Some("TypeScript"@)
    } else if ext == "v"@ {
        Some("V"@)
    } else if ext == "vala"@ {
        Some("Vala"@)
    } else if ext == "vim"@ {
        Some("Vimscript"@)
    } else if ext == "vimrc"@ {
        Some("Vimscript"@)
    } else if ext == "zig"@ {
        Some("Zig"@)
    } else {
        None
    }
}

/// The label of a path: that of its extension, where it has one.
pub open spec fn label_of_path(file: Seq<char>) -> Option<Seq<char>> {
    match extension(file) {
        Some(ext) => label_of_extension(ext),
        None => None,
    }
}

/// Looks an extension up in the table of known extensions.
pub fn extension_label(ext: &str) -> (r: Option<&'static str>)
    ensures
        r is Some <==> label_of_extension(ext@) is Some,
        r matches Some(label) ==> label@ == label_of_extension(ext@)->0,
{
    let label: Option<&'static str> =
    if text_eq(ext, "axaml") {
        Some("AXAML")
    } else if text_eq(ext, "base") {
        Some("Obsidian Base File")
    } else if text_eq(ext, "css") {
        Some("CSS")
    } else if text_eq(ext, "hbs") {
        Some("Handlebars")
    } else if text_eq(ext, "html") {
        Some("HTML")
    } else if text_eq(ext, "hxml") {
        Some("Haxe Build File")
    } else if text_eq(ext, "ini") {
        Some("INI")
    } else if text_eq(ext, "json") {
        Some("JSON")
    } else if text_eq(ext, "jsonc") {
        Some("JSONC")
    } else if text_eq(ext, "md") {
        Some("Markdown")
    } else if text_eq(ext, "norg") {
        Some("Neorg")
    } else if text_eq(ext, "org") {
        Some("Org Mode File")
    } else if text_eq(ext, "toml") {
        Some("TOML")
    } else if text_eq(ext, "txt") {
        Some("Text File")
    } else if text_eq(ext, "xaml") {
        Some("XAML")
    } else if text_eq(ext, "xml") {
        Some("XML")
    } else if text_eq(ext, "fish") {
        Some("Fish Script")
    } else if text_eq(ext, "ps1") {
        Some("PowerShell Script")
    } else if text_eq(ext, "sh") {
        Some("Shell Script")
    } else if text_eq(ext, "c") {
        Some("C")
    } else if text_eq(ext, "cr") {
        Some("Crystal")
    } else if text_eq(ext, "cs") {
        Some("C#")
    } else if text_eq(ext, "el") {
        Some("ELisp")
    } else if text_eq(ext, "elm") {
        Some("Elm")
    } else if text_eq(ext, "erl") {
        Some("Erlang")
    } else if text_eq(ext, "ex") {
        Some("Elixir")
    } else if text_eq(ext, "exs") {
        Some("Elixir")
    } else if text_eq(ext, "gd") {
        Some("GDScript")
    } else if text_eq(ext, "gleam") {
        Some("Gleam")
    } else if text_eq(ext, "h") {
        Some("Header File")
    } else if text_eq(ext, "hrl") {
        Some("Erlang Header")
    } else if text_eq(ext, "hx") {
        Some("Haxe")
    } else if text_eq(ext, "java") {
        Some("Java")
    } else if text_eq(ext, "jl") {
        Some("Julia")
    } else if text_eq(ext, "js") {
        Some("JavaScript")
    } else if text_eq(ext, "kt") {
        Some("Kotlin")
    } else if text_eq(ext, "lisp") {
        Some("Common Lisp")
    } else if text_eq(ext, "lua") {
        Some("Lua")
    } else if text_eq(ext, "ml") {
        Some("OCaml")
    } else if text_eq(ext, "php") {
        Some("PHP")
    } else if text_eq(ext, "py") {
        Some("Python")
    } else if text_eq(ext, "rb") {
        Some("Ruby")
    } else if text_eq(ext, "rs") {
        Some("Rust")
    } else if text_eq(ext, "ts") {
        Some("TypeScript")
    } else if text_eq(ext, "v") {
        Some("V")
    } else if text_eq(ext, "vala") {
        Some("Vala")
    } else if text_eq(ext, "vim") {
        Some("Vimscript")
    } else if text_eq(ext, "vimrc") {
        Some("Vimscript")
    } else if text_eq(ext, "zig") {
        Some("Zig")
    } else {
        None
    };
    label
}

/// A descriptive label for the file at `file`, by its extension. `None`
/// where the path has no extension or the extension is not a known one.
pub fn update_file_type(file: &str) -> (r: Option<String>)
    ensures
        r is Some <==> label_of_path(file@) is Some,
        r matches Some(label) ==> label@ == label_of_path(file@)->0,
{
    match path_extension(file) {
        Some(ext) => match extension_label(ext.as_str()) {
            Some(label) => Some(label.to_owned()),
            None => None,
        },
        None => None,
    }
}

} // verus!
