use runproject::nvm::{
    ensure_node_version, get_highest_version, install_args, list_args, normalize_version_token,
    parse_versions, switch_to_highest_version, text_less, use_args, wrap_command_with_node,
    NodeVersionManager,
};

fn strings(v: &[&str]) -> Vec<String> {
    v.iter().map(|s| s.to_string()).collect()
}

#[test]
fn manager_labels() {
    assert_eq!(NodeVersionManager::Nvm.label(), "nvm");
    assert_eq!(NodeVersionManager::Fnm.label(), "fnm");
    assert_eq!(NodeVersionManager::NvmWindows.label(), "nvm-windows");
}

#[test]
fn wrapping_commands_per_manager() {
    assert_eq!(
        wrap_command_with_node(Some(NodeVersionManager::Nvm), "18", "npm test"),
        Ok("source ~/.nvm/nvm.sh && nvm use 18 && npm test".to_string())
    );
    assert_eq!(
        wrap_command_with_node(Some(NodeVersionManager::Fnm), "20", "npm test"),
        Ok("eval \"$(fnm env --shell=bash)\" && fnm use 20 && npm test".to_string())
    );
    assert_eq!(
        wrap_command_with_node(Some(NodeVersionManager::NvmWindows), "20", "npm test"),
        Ok("nvm use 20; if ($LASTEXITCODE -ne 0) { exit $LASTEXITCODE }; npm test".to_string())
    );
    assert_eq!(
        wrap_command_with_node(None, "20", "npm test"),
        Err("no Node version manager found (nvm or fnm)".to_string())
    );
}

#[test]
fn highest_version_uses_string_order() {
    assert_eq!(get_highest_version(&strings(&["v16.0.0", "v18.2.0", "v9.1.0"])), Some("v9.1.0".to_string()));
    assert_eq!(get_highest_version(&strings(&["18", "18.1"])), Some("18.1".to_string()));
    assert_eq!(get_highest_version(&Vec::new()), None);
}

#[test]
fn text_order() {
    assert!(text_less("abc", "abd"));
    assert!(text_less("ab", "abc"));
    assert!(!text_less("abc", "abc"));
    assert!(!text_less("b", "a"));
}

#[test]
fn version_tokens() {
    assert_eq!(normalize_version_token("v18.17.0"), Some("v18.17.0".to_string()));
    assert_eq!(normalize_version_token("18.0.0*"), Some("18.0.0".to_string()));
    assert_eq!(normalize_version_token("->v16.20.2"), Some("v16.20.2".to_string()));
    assert_eq!(normalize_version_token("(default)"), None);
    assert_eq!(normalize_version_token("system"), None);
    assert_eq!(normalize_version_token("*"), None);
}

#[test]
fn version_listing_is_sorted_and_unique() {
    let out = "    v18.17.0\n->     v20.5.1 (default)\n  v18.17.0\ndefault -> lts/*\nsystem\n";
    assert_eq!(parse_versions(out), strings(&["v18.17.0", "v20.5.1"]));
    assert_eq!(parse_versions(""), Vec::<String>::new());
}

#[test]
fn manager_arguments() {
    assert_eq!(list_args(NodeVersionManager::Nvm), strings(&["list", "--no-colors"]));
    assert_eq!(list_args(NodeVersionManager::Fnm), strings(&["list"]));
    assert_eq!(install_args("18"), strings(&["install", "18"]));
    assert_eq!(use_args(NodeVersionManager::Fnm, "18"), strings(&["default", "18"]));
    assert_eq!(use_args(NodeVersionManager::NvmWindows, "18"), strings(&["use", "18"]));
}

#[test]
fn ensure_installs_only_when_missing() {
    let p = ensure_node_version(Some(NodeVersionManager::Nvm), "18", &strings(&["16", "18"])).unwrap();
    assert_eq!(p.steps, vec![strings(&["use", "18"])]);
    assert_eq!(p.message, "switched to Node 18 (using nvm)");
    let p = ensure_node_version(Some(NodeVersionManager::Fnm), "20", &strings(&["18"])).unwrap();
    assert_eq!(p.steps, vec![strings(&["install", "20"]), strings(&["default", "20"])]);
    assert!(ensure_node_version(None, "20", &Vec::new()).is_err());
}

#[test]
fn switch_to_highest() {
    let p = switch_to_highest_version(Some(NodeVersionManager::Nvm), &strings(&["16", "18"]), &strings(&["16"]))
        .unwrap();
    assert_eq!(p.steps, vec![strings(&["install", "18"]), strings(&["use", "18"])]);
    assert_eq!(p.message, "switched to highest version: 18");
    assert_eq!(
        switch_to_highest_version(Some(NodeVersionManager::Nvm), &Vec::new(), &Vec::new()).err(),
        Some("no Node version available".to_string())
    );
    assert_eq!(
        switch_to_highest_version(None, &strings(&["18"]), &Vec::new()).err(),
        Some("no Node version manager found (nvm or fnm)".to_string())
    );
}
