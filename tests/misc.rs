use runproject::knowledge::{sort_by_title, KnowledgeFile};
use runproject::editor::{app_name_for_editor_id, editor_catalog, get_available_editors};
use runproject::git::{checkout_args, parse_branch_line, parse_branches};
use runproject::knowledge::{
    file_id_from_path, is_md_extension, is_md_file, title_from_filename, title_from_stem,
    title_from_text,
};
use runproject::platform::{build_shell_command, opener_program, Platform};
use runproject::project::{choose_node_version, detect_package_manager};
use runproject::registry::Registry;
use runproject::webview::{apply_pos_correction, update_pos_correction, PosCorrections};

#[test]
fn editors_marked_installed_by_flag() {
    let editors = get_available_editors(&vec![false, true]).unwrap();
    assert_eq!(editors.len(), 7);
    assert_eq!(editors[0].id, "trae");
    assert!(!editors[0].installed);
    assert_eq!(editors[1].command, "code");
    assert!(editors[1].installed);
    assert_eq!(editors[4].name, "IntelliJ IDEA");
    assert!(!editors[6].installed);
    let ids: Vec<String> = editor_catalog().into_iter().map(|e| e.id).collect();
    assert_eq!(ids, vec!["trae", "vscode", "cursor", "webstorm", "intellij", "sublime", "atom"]);
}

#[test]
fn editor_app_names() {
    assert_eq!(app_name_for_editor_id("vscode"), Some("Visual Studio Code"));
    assert_eq!(app_name_for_editor_id("atom"), Some("Atom"));
    assert_eq!(app_name_for_editor_id("emacs"), None);
}

#[test]
fn package_manager_from_lock_files() {
    assert_eq!(detect_package_manager(true, true), "pnpm");
    assert_eq!(detect_package_manager(false, true), "yarn");
    assert_eq!(detect_package_manager(false, false), "npm");
}

#[test]
fn position_corrections() {
    let mut reg: PosCorrections = Registry::new();
    let label = "browser".to_string();
    assert_eq!(apply_pos_correction(&reg, &label, 10, 20), (10, 20));
    update_pos_correction(&mut reg, &label, 3, -4);
    assert_eq!(apply_pos_correction(&reg, &label, 10, 20), (13, 16));
    update_pos_correction(&mut reg, &label, 300, 0);
    assert_eq!(apply_pos_correction(&reg, &label, 10, 20), (13, 16));
    update_pos_correction(&mut reg, &label, -200, 200);
    assert_eq!(apply_pos_correction(&reg, &label, 0, 0), (-197, 196));
}

#[test]
fn git_branch_listing() {
    let out = "main::*\nfeature/x:: \n\n  ::*\nbare\n";
    let b = parse_branches(out);
    let got: Vec<(String, bool)> = b.into_iter().map(|g| (g.name, g.is_current)).collect();
    assert_eq!(
        got,
        vec![("main".to_string(), true), ("feature/x".to_string(), false), ("bare".to_string(), false)]
    );
    let one = parse_branch_line("  dev :: * ").unwrap();
    assert_eq!((one.name.as_str(), one.is_current), ("dev", true));
    assert!(parse_branch_line("   ").is_none());
}

#[test]
fn markdown_notes() {
    assert!(is_md_file("notes/a.MD"));
    assert!(is_md_file("/x/y/readme.md"));
    assert!(!is_md_file("notes/a.txt"));
    assert!(!is_md_file("notes/md"));
    assert!(is_md_extension("mD"));
    assert!(!is_md_extension("mdx"));
    assert_eq!(file_id_from_path("notes/my-note.md"), "my-note");
    assert_eq!(file_id_from_path(""), "untitled");
    assert_eq!(title_from_filename("notes/_my-first_note.md"), "my first note");
    assert_eq!(title_from_stem("a-b_c"), "a b c");
}

#[test]
fn headings_give_titles() {
    assert_eq!(title_from_text("intro\n# Hello World  \n# Second"), Some("Hello World".to_string()));
    assert_eq!(title_from_text("## Sub\ntext"), None);
    assert_eq!(title_from_text(""), None);
}

#[test]
fn notes_sorted_by_title_stably() {
    let note = |id: &str, title: &str| KnowledgeFile {
        id: id.to_string(),
        title: title.to_string(),
        path: format!("/n/{}.md", id),
    };
    let sorted = sort_by_title(vec![note("c", "b"), note("a", "a"), note("d", "b"), note("b", "B")]);
    let ids: Vec<String> = sorted.into_iter().map(|f| f.id).collect();
    assert_eq!(ids, vec!["b", "a", "c", "d"]);
    assert!(sort_by_title(Vec::new()).is_empty());
}

#[test]
fn shell_invocations() {
    let w = build_shell_command(Platform::Windows, Some("/bin/zsh"), "ls");
    assert_eq!(w.program, "powershell.exe");
    assert_eq!(w.args, vec!["-NoProfile", "-Command", "ls"]);
    let m = build_shell_command(Platform::MacOs, None, "ls");
    assert_eq!((m.program.as_str(), m.args.clone()), ("zsh", vec!["-lc".to_string(), "ls".to_string()]));
    let l = build_shell_command(Platform::Linux, Some("/usr/bin/fish"), "ls");
    assert_eq!((l.program.as_str(), l.args.clone()), ("/usr/bin/fish", vec!["-c".to_string(), "ls".to_string()]));
    let b = build_shell_command(Platform::Linux, Some("/bin/bash"), "ls");
    assert_eq!(b.args[0], "-lc");
}

#[test]
fn folder_openers() {
    assert_eq!(opener_program(Platform::Windows), "explorer");
    assert_eq!(opener_program(Platform::MacOs), "open");
    assert_eq!(opener_program(Platform::Linux), "xdg-open");
}

#[test]
fn checkout_arguments() {
    assert_eq!(checkout_args("  dev "), Ok(vec!["checkout".to_string(), "dev".to_string()]));
    assert_eq!(checkout_args("   "), Err("branch name must not be empty".to_string()));
}

#[test]
fn node_version_sources() {
    assert_eq!(choose_node_version(Some(" 18.2\n"), Some(">=16")), Some("18.2".to_string()));
    assert_eq!(choose_node_version(Some("  \n"), Some(">=16")), Some(">=16".to_string()));
    assert_eq!(choose_node_version(None, None), None);
}
