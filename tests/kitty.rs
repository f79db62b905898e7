use runproject::kitty::{next_start_step, ProbeOutcome, StartStep};
use runproject::shell::{
    kill_by_pattern_command, kitty_close_window_command, kitty_list_command,
    kitty_probe_command, kitty_quit_command, kitty_start_command,
};
use runproject::kitty::{
    build_execution_command, cleanup_completed_tabs, get_all_tabs, get_package_manager_prefix,
    get_socket_path, get_tab_status, prefix_for_lowered, register_kitty_tab,
    sanitize_command_id, shutdown_all_kitty_instances, unregister_kitty_tab, update_tab_status,
    KittyConfig, KittyTab, TabRegistry, TabStatus,
};
use runproject::platform::Platform;
use runproject::nvm::NodeVersionManager;
use runproject::registry::Registry;
use runproject::shell::{
    kitty_window_command, escape_double_quotes, escape_single_quotes, kitty_close_tab_command, kitty_launch_command,
    make_tab_title,
};

fn tab(id: &str, socket: &str, status: TabStatus) -> KittyTab {
    KittyTab {
        id: id.to_string(),
        title: format!("title {}", id),
        project_name: "web".to_string(),
        command_name: "dev".to_string(),
        working_dir: "/work/web".to_string(),
        command: "npm run dev".to_string(),
        socket_path: socket.to_string(),
        status,
        created_at: 1,
        pid: None,
    }
}

#[test]
fn tab_status_names() {
    assert_eq!(TabStatus::Running.to_string(), "running");
    assert_eq!(TabStatus::Completed.to_string(), "completed");
    assert_eq!(TabStatus::Error.to_string(), "error");
    assert_eq!(TabStatus::Terminated.to_string(), "terminated");
}

#[test]
fn default_kitty_config() {
    let c = KittyConfig::default();
    assert_eq!(c.socket_prefix, "kitty-runproject");
    assert_eq!(c.max_retries, 20);
    assert_eq!(c.retry_delay_ms, 500);
    assert_eq!(c.config_file, Some("NONE".to_string()));
}

#[test]
fn sanitize_replaces_dashes_and_spaces() {
    assert_eq!(sanitize_command_id("web-dev build 1"), "web_dev_build_1");
    assert_eq!(sanitize_command_id(""), "");
    assert_eq!(sanitize_command_id("plain"), "plain");
}

#[test]
fn socket_paths_per_platform() {
    let c = KittyConfig::default();
    assert_eq!(get_socket_path("a-b", &c, Platform::Linux), "unix:@kitty-runproject-a_b");
    assert_eq!(get_socket_path("a b", &c, Platform::MacOs), "unix:/tmp/kitty-runproject-a_b.sock");
}

#[test]
fn package_manager_prefixes() {
    assert_eq!(get_package_manager_prefix("yarn", "install"), "yarn ");
    assert_eq!(get_package_manager_prefix("yarn", "dev"), "yarn run ");
    assert_eq!(get_package_manager_prefix("pnpm", "Add lodash"), "pnpm ");
    assert_eq!(get_package_manager_prefix("pnpm", "build"), "pnpm run ");
    assert_eq!(get_package_manager_prefix("npm", "install"), "npm run ");
    assert_eq!(get_package_manager_prefix("bun", "dev"), "npm run ");
    assert_eq!(get_package_manager_prefix("yarn", "NPM run dev"), "");
    assert_eq!(get_package_manager_prefix("npm", "pnpm test"), "");
}

#[test]
fn prefix_for_already_lowered_command() {
    assert_eq!(prefix_for_lowered("yarn", "remove x"), "yarn ");
    assert_eq!(prefix_for_lowered("yarn", "NPM run dev"), "yarn run ");
}

#[test]
fn execution_command_without_node_version() {
    let r = build_execution_command("dev", None, "npm", None);
    assert_eq!(r, Ok("npm run dev".to_string()));
}

#[test]
fn execution_command_under_node_version() {
    let r = build_execution_command("dev", Some("18"), "yarn", Some(NodeVersionManager::Nvm));
    assert_eq!(r, Ok("source ~/.nvm/nvm.sh && nvm use 18 && yarn run dev".to_string()));
    let r = build_execution_command("dev", Some("18"), "yarn", None);
    assert!(r.is_err());
}

#[test]
fn tab_table_operations() {
    let mut reg: TabRegistry = Registry::new();
    register_kitty_tab(&mut reg, tab("t1", "unix:@k-1", TabStatus::Running));
    register_kitty_tab(&mut reg, tab("t2", "unix:@k-2", TabStatus::Running));
    let t1 = "t1".to_string();
    assert_eq!(get_tab_status(&reg, &t1).map(|t| t.status), Some(TabStatus::Running));
    assert!(update_tab_status(&mut reg, &t1, TabStatus::Completed).is_ok());
    assert_eq!(get_tab_status(&reg, &t1).map(|t| t.status), Some(TabStatus::Completed));
    assert_eq!(
        update_tab_status(&mut reg, &"zz".to_string(), TabStatus::Error),
        Err("tab not found".to_string())
    );
    let mut ids: Vec<String> = get_all_tabs(&reg).into_iter().map(|t| t.id).collect();
    ids.sort();
    assert_eq!(ids, vec!["t1".to_string(), "t2".to_string()]);
    assert_eq!(unregister_kitty_tab(&mut reg, &"t2".to_string()).map(|t| t.id), Some("t2".to_string()));
    assert!(unregister_kitty_tab(&mut reg, &"t2".to_string()).is_none());
    assert!(get_tab_status(&reg, &"t2".to_string()).is_none());
}

#[test]
fn cleanup_forgets_finished_tabs() {
    let mut reg: TabRegistry = Registry::new();
    register_kitty_tab(&mut reg, tab("a", "s", TabStatus::Running));
    register_kitty_tab(&mut reg, tab("b", "s", TabStatus::Completed));
    register_kitty_tab(&mut reg, tab("c", "s", TabStatus::Error));
    register_kitty_tab(&mut reg, tab("d", "s", TabStatus::Terminated));
    assert_eq!(cleanup_completed_tabs(&mut reg), 3);
    let left: Vec<String> = get_all_tabs(&reg).into_iter().map(|t| t.id).collect();
    assert_eq!(left, vec!["a".to_string()]);
    assert_eq!(cleanup_completed_tabs(&mut reg), 0);
}

#[test]
fn shutdown_lists_each_socket_once() {
    let mut reg: TabRegistry = Registry::new();
    register_kitty_tab(&mut reg, tab("a", "unix:@one", TabStatus::Running));
    register_kitty_tab(&mut reg, tab("b", "unix:@two", TabStatus::Completed));
    register_kitty_tab(&mut reg, tab("c", "unix:@one", TabStatus::Running));
    let mut sockets = shutdown_all_kitty_instances(&mut reg);
    sockets.sort();
    assert_eq!(sockets, vec!["unix:@one".to_string(), "unix:@two".to_string()]);
    assert!(get_all_tabs(&reg).is_empty());
}

#[test]
fn quoting_for_shells() {
    assert_eq!(escape_single_quotes("it's"), "it'\\''s");
    assert_eq!(escape_double_quotes("say \"hi\""), "say \\\"hi\\\"");
    assert_eq!(make_tab_title("web", "dev", "c1"), "web - dev (c1)");
}

#[test]
fn launch_and_close_commands() {
    let cmd = kitty_launch_command("unix:@k", "c1", "web", "dev", "/w", "npm run dev");
    assert_eq!(
        cmd,
        "kitty @ --to 'unix:@k' launch --type=tab --tab-title 'web - dev (c1)' --cwd '/w' --hold bash -lc 'printf '\\''\\n$ %s\\n'\\'' \"npm run dev\" && cd '\\''/w'\\'' && npm run dev ; exec $SHELL'"
    );
    assert_eq!(kitty_close_tab_command("unix:@k", Some("3")), "kitty @ --to 'unix:@k' close-tab --match id:3");
    assert_eq!(kitty_close_tab_command("unix:@k", None), "kitty @ --to 'unix:@k' close-tab");
}

#[test]
fn start_wait_steps() {
    assert!(next_start_step(0, 20, ProbeOutcome::Ready) == StartStep::Ready);
    assert!(next_start_step(0, 20, ProbeOutcome::NotReady) == StartStep::Retry);
    assert!(next_start_step(18, 20, ProbeOutcome::ProbeFailed) == StartStep::Retry);
    assert!(next_start_step(19, 20, ProbeOutcome::NotReady) == StartStep::TimedOut);
    assert!(next_start_step(0, 0, ProbeOutcome::NotReady) == StartStep::TimedOut);
}

#[test]
fn remote_control_commands() {
    assert_eq!(kitty_quit_command("unix:@k"), "kitty @ --to 'unix:@k' quit");
    assert_eq!(kitty_probe_command("unix:@k"), "kitty @ --to 'unix:@k' ls");
    assert_eq!(kitty_list_command("unix:@k"), "kitty @ --to 'unix:@k' ls --json");
    assert_eq!(kitty_close_window_command("unix:@k"), "kitty @ --to unix:@k close-window");
    assert_eq!(
        kitty_start_command("unix:@k", Some(&"NONE".to_string()), "/it's"),
        "kitty --listen-on 'unix:@k' --config NONE --directory '/it'\\''s' --override allow_remote_control=yes"
    );
    assert_eq!(
        kitty_start_command("unix:@k", None, "/w"),
        "kitty --listen-on 'unix:@k'  --directory '/w' --override allow_remote_control=yes"
    );
    assert_eq!(kill_by_pattern_command("a-b-c"), "pkill -f 'a_b_c' || echo 'no matching process'");
}

#[test]
fn kitty_window_command_line() {
    assert_eq!(
        kitty_window_command("web", "dev", "unix:@k", "/w", "echo 'x'"),
        r#"kitty --title 'web - dev' --listen-on 'unix:@k' --config NONE --directory '/w' --hold bash -c 'echo '\''x'\'''"#
    );
}
