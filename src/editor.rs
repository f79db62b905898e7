//! The code editors a project can be opened in. Whether an editor is
//! installed is found out by the caller, for each entry of the catalog.

use crate::text::same_text;
use vstd::prelude::*;

verus! {

pub struct Editor {
    pub id: String,
    pub name: String,
    pub command: String,
    pub installed: bool,
}

pub struct EditorList {
    pub editors: Vec<Editor>,
}

/// The known editors, in display order: id, name, command.
pub open spec fn catalog() -> Seq<(Seq<char>, Seq<char>, Seq<char>)> {
    seq![
        ("trae"@, "Trae"@, "trae"@),
        ("vscode"@, "VSCode"@, "code"@),
        ("cursor"@, "Cursor"@, "cursor"@),
        ("webstorm"@, "WebStorm"@, "webstorm"@),
        ("intellij"@, "IntelliJ IDEA"@, "idea"@),
        ("sublime"@, "Sublime Text"@, "subl"@),
        ("atom"@, "Atom"@, "atom"@),
    ]
}

/// `e` is entry `i` of the catalog, installed as `installed` says.
pub open spec fn is_catalog_entry(e: Editor, i: int, installed: bool) -> bool {
    &&& e.id@ == catalog()[i].0
    &&& e.name@ == catalog()[i].1
    &&& e.command@ == catalog()[i].2
    &&& e.installed == installed
}

fn editor(id: &str, name: &str, command: &str, installed: bool) -> (r: Editor)
    ensures
        r.id@ == id@,
        r.name@ == name@,
        r.command@ == command@,
        r.installed == installed,
{
    Editor {
        id: String::from_str(id),
        name: String::from_str(name),
        command: String::from_str(command),
        installed,
    }
}

/// Whether `installed` marks entry `i` as installed.
pub open spec fn flag(installed: Seq<bool>, i: int) -> bool {
    i < installed.len() && installed[i]
}

fn flag_at(installed: &Vec<bool>, i: usize) -> (r: bool)
    ensures
        r == flag(installed@, i as int),
{
    i < installed.len() && installed[i]
}

/// The catalog, with entry `i` marked installed when `installed[i]` is
/// true. An entry without a flag counts as not installed.
pub fn get_available_editors(installed: &Vec<bool>) -> (r: Result<Vec<Editor>, String>)
    ensures
        r matches Ok(v) && v@.len() == catalog().len() && forall|i: int|
            0 <= i < v@.len() ==> is_catalog_entry(#[trigger] v@[i], i, flag(installed@, i)),
{
    let mut v: Vec<Editor> = Vec::new();
    v.push(editor("trae", "Trae", "trae", flag_at(installed, 0)));
    v.push(editor("vscode", "VSCode", "code", flag_at(installed, 1)));
    v.push(editor("cursor", "Cursor", "cursor", flag_at(installed, 2)));
    v.push(editor("webstorm", "WebStorm", "webstorm", flag_at(installed, 3)));
    v.push(editor("intellij", "IntelliJ IDEA", "idea", flag_at(installed, 4)));
    v.push(editor("sublime", "Sublime Text", "subl", flag_at(installed, 5)));
    v.push(editor("atom", "Atom", "atom", flag_at(installed, 6)));
    Ok(v)
}

/// The catalog with every entry marked as not installed.
pub fn editor_catalog() -> (r: Vec<Editor>)
    ensures
        r@.len() == catalog().len(),
        forall|i: int| 0 <= i < r@.len() ==> is_catalog_entry(#[trigger] r@[i], i, false),
{
    let none: Vec<bool> = Vec::new();
    match get_available_editors(&none) {
        Ok(v) => v,
        Err(_) => Vec::new(),
    }
}

/// The application bundle name of an editor on macOS.
pub open spec fn app_name_of(id: Seq<char>) -> Option<Seq<char>> {
    if id == "cursor"@ {
        Some("Cursor"@)
    } else if id == "trae"@ {
        Some("Trae"@)
    } else if id == "vscode"@ {
        Some("Visual Studio Code"@)
    } else if id == "webstorm"@ {
        Some("WebStorm"@)
    } else if id == "intellij"@ {
        Some("IntelliJ IDEA"@)
    } else if id == "sublime"@ {
        Some("Sublime Text"@)
    } else if id == "atom"@ {
        Some("Atom"@)
    } else {
        None
    }
}

pub fn app_name_for_editor_id(editor_id: &str) -> (r: Option<&'static str>)
    ensures
        match app_name_of(editor_id@) {
            Some(n) => r matches Some(s) && s@ == n,
            None => r is None,
        },
{
    if same_text(editor_id, "cursor") {
        Some("Cursor")
    } else if same_text(editor_id, "trae") {
        Some("Trae")
    } else if same_text(editor_id, "vscode") {
        Some("Visual Studio Code")
    } else if same_text(editor_id, "webstorm") {
        Some("WebStorm")
    } else if same_text(editor_id, "intellij") {
        Some("IntelliJ IDEA")
    } else if same_text(editor_id, "sublime") {
        Some("Sublime Text")
    } else if same_text(editor_id, "atom") {
        Some("Atom")
    } else {
        None
    }
}

} // verus!
