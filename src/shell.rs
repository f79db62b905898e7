//! Shell command lines handed to `sh -c` to drive kitty: quoting and the
//! remote-control commands themselves.

use crate::text::join2;
use vstd::prelude::*;

verus! {

/// `s` with each occurrence of `target` replaced by `rep`.
pub open spec fn replaced(s: Seq<char>, target: char, rep: Seq<char>) -> Seq<char>
    decreases s.len(),
{
    if s.len() == 0 {
        Seq::empty()
    } else {
        replaced(s.drop_last(), target, rep) + (if s.last() == target {
            rep
        } else {
            seq![s.last()]
        })
    }
}

/// Replaces each `target` character of `s` by `rep`.
pub fn replace_char(s: &str, target: char, rep: &str) -> (r: String)
    ensures
        r@ == replaced(s@, target, rep@),
{
    let n = s.unicode_len();
    let mut out = String::new();
    let mut i: usize = 0;
    while i < n
        invariant
            n == s@.len(),
            i <= n,
            out@ == replaced(s@.subrange(0, i as int), target, rep@),
        decreases n - i,
    {
        let ghost pre = s@.subrange(0, i as int);
        if s.get_char(i) == target {
            out.append(rep);
        } else {
            out.append(s.substring_char(i, i + 1));
        }
        i = i + 1;
        assert(s@.subrange(0, i as int).drop_last() =~= pre);
    }
    assert(s@.subrange(0, n as int) =~= s@);
    out
}

/// `s` made safe inside single quotes: each `'` becomes `'\''`.
pub open spec fn single_quoted_body(s: Seq<char>) -> Seq<char> {
    replaced(s, '\'', "'\\''"@)
}

pub fn escape_single_quotes(s: &str) -> (r: String)
    ensures
        r@ == single_quoted_body(s@),
{
    replace_char(s, '\'', "'\\''")
}

/// `s` made safe inside double quotes as far as quotes go: each `"`
/// becomes `\"`.
pub fn escape_double_quotes(s: &str) -> (r: String)
    ensures
        r@ == replaced(s@, '"', "\\\""@),
{
    replace_char(s, '"', "\\\"")
}

/// Title of the tab that runs a project command.
pub open spec fn tab_title(project: Seq<char>, command_name: Seq<char>, command_id: Seq<char>) -> Seq<
    char,
> {
    project + " - "@ + command_name + " ("@ + command_id + ")"@
}

pub fn make_tab_title(project: &str, command_name: &str, command_id: &str) -> (r: String)
    ensures
        r@ == tab_title(project@, command_name@, command_id@),
{
    let mut t = join2(project, " - ");
    t.append(command_name);
    t.append(" (");
    t.append(command_id);
    t.append(")");
    t
}

/// The script a new tab runs: echo the command, enter the directory, run
/// it, then stay in an interactive shell.
pub open spec fn tab_script(working_dir: Seq<char>, command: Seq<char>) -> Seq<char> {
    "printf '\\n$ %s\\n' \""@ + replaced(command, '"', "\\\""@) + "\" && cd '"@ + single_quoted_body(
        working_dir,
    ) + "' && "@ + single_quoted_body(command) + " ; exec $SHELL"@
}

/// The remote-control command that opens a tab running `command`.
pub open spec fn launch_tab_command(
    socket_path: Seq<char>,
    title: Seq<char>,
    working_dir: Seq<char>,
    command: Seq<char>,
) -> Seq<char> {
    "kitty @ --to '"@ + socket_path + "' launch --type=tab --tab-title '"@ + single_quoted_body(title)
        + "' --cwd '"@ + single_quoted_body(working_dir) + "' --hold bash -lc '"@
        + single_quoted_body(tab_script(working_dir, command)) + "'"@
}

/// The command line that opens a kitty tab for a project command.
pub fn kitty_launch_command(
    socket_path: &str,
    command_id: &str,
    project_name: &str,
    command_name: &str,
    working_dir: &str,
    final_command: &str,
) -> (r: String)
    ensures
        r@ == launch_tab_command(
            socket_path@,
            tab_title(project_name@, command_name@, command_id@),
            working_dir@,
            final_command@,
        ),
{
    let dir = escape_single_quotes(working_dir);
    let title = make_tab_title(project_name, command_name, command_id);
    let shown = escape_double_quotes(final_command);
    let cmd = escape_single_quotes(final_command);
    let mut script = join2("printf '\\n$ %s\\n' \"", shown.as_str());
    script.append("\" && cd '");
    script.append(dir.as_str());
    script.append("' && ");
    script.append(cmd.as_str());
    script.append(" ; exec $SHELL");
    let script = escape_single_quotes(script.as_str());
    let title = escape_single_quotes(title.as_str());
    let mut r = join2("kitty @ --to '", socket_path);
    r.append("' launch --type=tab --tab-title '");
    r.append(title.as_str());
    r.append("' --cwd '");
    r.append(dir.as_str());
    r.append("' --hold bash -lc '");
    r.append(script.as_str());
    r.append("'");
    r
}

pub open spec fn close_tab_command(socket_path: Seq<char>, tab_id: Option<Seq<char>>) -> Seq<char> {
    match tab_id {
        Some(id) => "kitty @ --to '"@ + socket_path + "' close-tab --match id:"@ + id,
        None => "kitty @ --to '"@ + socket_path + "' close-tab"@,
    }
}

/// The command line that closes a tab (or the active one).
pub fn kitty_close_tab_command(socket_path: &str, tab_id: Option<&str>) -> (r: String)
    ensures
        r@ == close_tab_command(
            socket_path@,
            match tab_id {
                Some(t) => Some(t@),
                None => None,
            },
        ),
{
    let mut r = join2("kitty @ --to '", socket_path);
    match tab_id {
        Some(id) => {
            r.append("' close-tab --match id:");
            r.append(id);
        },
        None => {
            r.append("' close-tab");
        },
    }
    r
}

/// `kitty @ --to '<socket>' <action>`: a remote-control command.
pub open spec fn remote_command(socket_path: Seq<char>, action: Seq<char>) -> Seq<char> {
    "kitty @ --to '"@ + socket_path + "' "@ + action
}

fn remote(socket_path: &str, action: &str) -> (r: String)
    ensures
        r@ == remote_command(socket_path@, action@),
{
    let mut r = join2("kitty @ --to '", socket_path);
    r.append("' ");
    r.append(action);
    r
}

/// The command that asks a kitty instance to quit.
pub fn kitty_quit_command(socket_path: &str) -> (r: String)
    ensures
        r@ == remote_command(socket_path@, "quit"@),
{
    remote(socket_path, "quit")
}

/// The command that lists an instance's windows; it succeeds once the
/// instance listens on its socket.
pub fn kitty_probe_command(socket_path: &str) -> (r: String)
    ensures
        r@ == remote_command(socket_path@, "ls"@),
{
    remote(socket_path, "ls")
}

/// The command that lists an instance's windows as JSON.
pub fn kitty_list_command(socket_path: &str) -> (r: String)
    ensures
        r@ == remote_command(socket_path@, "ls --json"@),
{
    remote(socket_path, "ls --json")
}

pub open spec fn close_window_command(socket_path: Seq<char>) -> Seq<char> {
    "kitty @ --to "@ + socket_path + " close-window"@
}

/// The command that closes the active window of an instance.
pub fn kitty_close_window_command(socket_path: &str) -> (r: String)
    ensures
        r@ == close_window_command(socket_path@),
{
    let mut r = join2("kitty @ --to ", socket_path);
    r.append(" close-window");
    r
}

pub open spec fn start_command(
    socket_path: Seq<char>,
    config_file: Option<Seq<char>>,
    working_dir: Seq<char>,
) -> Seq<char> {
    "kitty --listen-on '"@ + socket_path + "' "@ + (match config_file {
        Some(f) => "--config "@ + f,
        None => Seq::empty(),
    }) + " --directory '"@ + single_quoted_body(working_dir)
        + "' --override allow_remote_control=yes"@
}

/// The command that starts a kitty instance listening on `socket_path`.
pub fn kitty_start_command(socket_path: &str, config_file: Option<&String>, working_dir: &str) -> (r:
    String)
    ensures
        r@ == start_command(
            socket_path@,
            match config_file {
                Some(f) => Some(f@),
                None => None,
            },
            working_dir@,
        ),
{
    let dir = escape_single_quotes(working_dir);
    let mut r = join2("kitty --listen-on '", socket_path);
    r.append("' ");
    match config_file {
        Some(f) => {
            r.append("--config ");
            r.append(f.as_str());
        },
        None => {},
    }
    r.append(" --directory '");
    r.append(dir.as_str());
    r.append("' --override allow_remote_control=yes");
    r
}

pub open spec fn kill_command(pattern: Seq<char>) -> Seq<char> {
    "pkill -f '"@ + pattern + "' || echo 'no matching process'"@
}

/// The fallback that kills the processes of a command by name: its id with
/// dashes turned into underscores.
pub fn kill_by_pattern_command(command_id: &str) -> (r: String)
    ensures
        r@ == kill_command(replaced(command_id@, '-', "_"@)),
{
    let pattern = replace_char(command_id, '-', "_");
    let mut r = join2("pkill -f '", pattern.as_str());
    r.append("' || echo 'no matching process'");
    r
}

pub open spec fn window_command(
    project_name: Seq<char>,
    command_name: Seq<char>,
    socket_path: Seq<char>,
    working_dir: Seq<char>,
    command: Seq<char>,
) -> Seq<char> {
    "kitty --title '"@ + project_name + " - "@ + command_name + "' --listen-on '"@ + socket_path
        + "' --config NONE --directory '"@ + working_dir + "' --hold bash -c '"@
        + single_quoted_body(command) + "'"@
}

/// The command that opens a new kitty window running a project command.
pub fn kitty_window_command(
    project_name: &str,
    command_name: &str,
    socket_path: &str,
    working_dir: &str,
    final_command: &str,
) -> (r: String)
    ensures
        r@ == window_command(project_name@, command_name@, socket_path@, working_dir@, final_command@),
{
    let body = escape_single_quotes(final_command);
    let mut r = join2("kitty --title '", project_name);
    r.append(" - ");
    r.append(command_name);
    r.append("' --listen-on '");
    r.append(socket_path);
    r.append("' --config NONE --directory '");
    r.append(working_dir);
    r.append("' --hold bash -c '");
    r.append(body.as_str());
    r.append("'");
    r
}

} // verus!
