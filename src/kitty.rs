//! Commands run in tabs of the kitty terminal: tab records, the table of
//! known tabs, and the rules that shape socket paths and command lines.
//! Talking to kitty itself is left to the caller.

use crate::nvm::{wrap_command_with_node, wrapped_command, no_manager_message, NodeVersionManager};
use crate::platform::Platform;
use crate::registry::Registry;
use crate::text::{is_prefix, join2, listed, same_text, starts_with_text};
use vstd::prelude::*;

verus! {

#[derive(Debug, Clone, Copy, PartialEq, Eq, Structural)]
pub enum TabStatus {
    Running,
    Completed,
    Error,
    Terminated,
}

pub open spec fn status_name(s: TabStatus) -> Seq<char> {
    match s {
        TabStatus::Running => "running"@,
        TabStatus::Completed => "completed"@,
        TabStatus::Error => "error"@,
        TabStatus::Terminated => "terminated"@,
    }
}

impl TabStatus {
    pub fn to_string(&self) -> (r: &'static str)
        ensures
            r@ == status_name(*self),
    {
        match self {
            TabStatus::Running => "running",
            TabStatus::Completed => "completed",
            TabStatus::Error => "error",
            TabStatus::Terminated => "terminated",
        }
    }
}

/// A command running (or run) in a kitty tab.
pub struct KittyTab {
    pub id: String,
    pub title: String,
    pub project_name: String,
    pub command_name: String,
    pub working_dir: String,
    pub command: String,
    pub socket_path: String,
    pub status: TabStatus,
    pub created_at: u64,
    pub pid: Option<u32>,
}

/// A field-by-field copy of `t`.
pub fn copy_tab(t: &KittyTab) -> (r: KittyTab)
    ensures
        r == *t,
{
    KittyTab {
        id: t.id.clone(),
        title: t.title.clone(),
        project_name: t.project_name.clone(),
        command_name: t.command_name.clone(),
        working_dir: t.working_dir.clone(),
        command: t.command.clone(),
        socket_path: t.socket_path.clone(),
        status: t.status,
        created_at: t.created_at,
        pid: t.pid,
    }
}

/// How kitty instances are started and reached.
pub struct KittyConfig {
    pub socket_prefix: String,
    pub max_retries: u32,
    pub retry_delay_ms: u64,
    pub config_file: Option<String>,
}

impl Default for KittyConfig {
    fn default() -> (r: KittyConfig)
        ensures
            r.socket_prefix@ == "kitty-runproject"@,
            r.max_retries == 20,
            r.retry_delay_ms == 500,
            r.config_file matches Some(f) && f@ == "NONE"@,
    {
        KittyConfig {
            socket_prefix: String::from_str("kitty-runproject"),
            max_retries: 20,
            retry_delay_ms: 500,
            config_file: Some(String::from_str("NONE")),
        }
    }
}

/// `s` with each `-` and each space turned into `_`.
pub open spec fn sanitized(s: Seq<char>) -> Seq<char> {
    s.map_values(|c: char| if c == '-' || c == ' ' { '_' } else { c })
}

/// Makes a command id safe to embed in a socket name.
pub fn sanitize_command_id(command_id: &str) -> (r: String)
    ensures
        r@ == sanitized(command_id@),
{
    let n = command_id.unicode_len();
    let mut out = String::new();
    let mut i: usize = 0;
    while i < n
        invariant
            n == command_id@.len(),
            i <= n,
            out@ == sanitized(command_id@.subrange(0, i as int)),
        decreases n - i,
    {
        let c = command_id.get_char(i);
        proof {
            reveal_strlit("_");
        }
        if c == '-' || c == ' ' {
            out.append("_");
        } else {
            out.append(command_id.substring_char(i, i + 1));
        }
        i = i + 1;
        assert(sanitized(command_id@.subrange(0, i as int)) =~= sanitized(
            command_id@.subrange(0, i - 1),
        ).push(sanitized(command_id@)[i - 1]));
        assert(out@ =~= sanitized(command_id@.subrange(0, i as int)));
    }
    assert(command_id@.subrange(0, n as int) =~= command_id@);
    out
}

pub open spec fn socket_path(id: Seq<char>, prefix: Seq<char>, platform: Platform) -> Seq<char> {
    match platform {
        Platform::MacOs => "unix:/tmp/"@ + prefix + "-"@ + sanitized(id) + ".sock"@,
        _ => "unix:@"@ + prefix + "-"@ + sanitized(id),
    }
}

/// The remote-control socket of the kitty instance that runs `command_id`:
/// a file under `/tmp` on macOS, an abstract socket elsewhere.
pub fn get_socket_path(command_id: &str, config: &KittyConfig, platform: Platform) -> (r: String)
    ensures
        r@ == socket_path(command_id@, config.socket_prefix@, platform),
{
    let id = sanitize_command_id(command_id);
    match platform {
        Platform::MacOs => {
            let mut s = join2("unix:/tmp/", config.socket_prefix.as_str());
            s.append("-");
            s.append(id.as_str());
            s.append(".sock");
            s
        },
        _ => {
            let mut s = join2("unix:@", config.socket_prefix.as_str());
            s.append("-");
            s.append(id.as_str());
            s
        },
    }
}

/// The lower-case form of a text, as `str::to_lowercase` gives it.
pub uninterp spec fn lower_of(s: Seq<char>) -> Seq<char>;

/// Relies on `str::to_lowercase`: full Unicode lower-casing, a function of
/// the characters alone.
#[verifier::external_body]
fn lowercase(s: &str) -> (r: String)
    ensures
        r@ == lower_of(s@),
{
    s.to_lowercase()
}

/// Whether a script name is a direct package-manager subcommand.
pub open spec fn is_direct_subcommand(lowered: Seq<char>) -> bool {
    is_prefix("install"@, lowered) || is_prefix("add"@, lowered) || is_prefix("remove"@, lowered)
}

/// The prefix that runs a (lower-cased) command with package manager `pm`:
/// none when the command already names a package manager.
pub open spec fn manager_prefix(pm: Seq<char>, lowered: Seq<char>) -> Seq<char> {
    if is_prefix("npm "@, lowered) || is_prefix("yarn "@, lowered) || is_prefix("pnpm "@, lowered) {
        Seq::empty()
    } else if pm == "yarn"@ {
        if is_direct_subcommand(lowered) {
            "yarn "@
        } else {
            "yarn run "@
        }
    } else if pm == "pnpm"@ {
        if is_direct_subcommand(lowered) {
            "pnpm "@
        } else {
            "pnpm run "@
        }
    } else {
        "npm run "@
    }
}

/// `manager_prefix` of an already lower-cased command.
pub fn prefix_for_lowered(package_manager: &str, lowered: &str) -> (r: &'static str)
    ensures
        r@ == manager_prefix(package_manager@, lowered@),
{
    if starts_with_text(lowered, "npm ") || starts_with_text(lowered, "yarn ")
        || starts_with_text(lowered, "pnpm ") {
        proof {
            reveal_strlit("");
        }
        return "";
    }
    let direct = starts_with_text(lowered, "install") || starts_with_text(lowered, "add")
        || starts_with_text(lowered, "remove");
    if same_text(package_manager, "yarn") {
        if direct {
            "yarn "
        } else {
            "yarn run "
        }
    } else if same_text(package_manager, "pnpm") {
        if direct {
            "pnpm "
        } else {
            "pnpm run "
        }
    } else {
        "npm run "
    }
}

/// The package-manager prefix for `command`, judged case-insensitively.
pub fn get_package_manager_prefix(package_manager: &str, command: &str) -> (r: &'static str)
    ensures
        r@ == manager_prefix(package_manager@, lower_of(command@)),
{
    let lowered = lowercase(command);
    prefix_for_lowered(package_manager, lowered.as_str())
}

/// The command line that runs `command` in a project: prefixed for its
/// package manager and, when a Node version is asked for, wrapped to run
/// under it with the detected version manager.
pub fn build_execution_command(
    command: &str,
    node_version: Option<&str>,
    package_manager: &str,
    manager: Option<NodeVersionManager>,
) -> (r: Result<String, String>)
    ensures
        ({
            let base = manager_prefix(package_manager@, lower_of(command@)) + command@;
            match node_version {
                None => r matches Ok(s) && s@ == base,
                Some(v) => match manager {
                    None => r matches Err(e) && e@ == no_manager_message(),
                    Some(m) => r matches Ok(s) && s@ == wrapped_command(m, v@, base),
                },
            }
        }),
{
    let prefix = get_package_manager_prefix(package_manager, command);
    let base = join2(prefix, command);
    match node_version {
        None => Ok(base),
        Some(v) => wrap_command_with_node(manager, v, base.as_str()),
    }
}

/// The table of known tabs, keyed by tab id.
pub type TabRegistry = Registry<KittyTab>;

/// Records a tab under its id, replacing any earlier record of that id.
pub fn register_kitty_tab(reg: &mut TabRegistry, tab: KittyTab)
    requires
        old(reg).wf(),
    ensures
        final(reg).wf(),
        final(reg)@ == old(reg)@.insert(tab.id@, tab),
{
    let id = tab.id.clone();
    reg.insert(id, tab);
}

/// A copy of the record of `tab_id`, if there is one.
pub fn get_tab_status(reg: &TabRegistry, tab_id: &String) -> (r: Option<KittyTab>)
    requires
        reg.wf(),
    ensures
        r == (if reg@.contains_key(tab_id@) {
            Some(reg@[tab_id@])
        } else {
            None
        }),
{
    match reg.get(tab_id) {
        Some(t) => Some(copy_tab(t)),
        None => None,
    }
}

pub open spec fn tab_not_found_message() -> Seq<char> {
    "tab not found"@
}

/// `t` with its status set to `s`.
pub open spec fn with_status(t: KittyTab, s: TabStatus) -> KittyTab {
    KittyTab { status: s, ..t }
}

/// Sets the status of a known tab.
pub fn update_tab_status(reg: &mut TabRegistry, tab_id: &String, status: TabStatus) -> (r: Result<
    (),
    String,
>)
    requires
        old(reg).wf(),
    ensures
        final(reg).wf(),
        r is Ok <==> old(reg)@.contains_key(tab_id@),
        r matches Err(e) ==> e@ == tab_not_found_message() && final(reg)@ == old(reg)@,
        r is Ok ==> final(reg)@ == old(reg)@.insert(tab_id@, with_status(old(reg)@[tab_id@], status)),
{
    match reg.remove(tab_id) {
        None => Err(String::from_str("tab not found")),
        Some(t) => {
            let mut t = t;
            t.status = status;
            reg.insert(tab_id.clone(), t);
            proof {
                assert(final(reg)@ =~= old(reg)@.insert(
                    tab_id@,
                    with_status(old(reg)@[tab_id@], status),
                ));
            }
            Ok(())
        },
    }
}

/// Forgets a tab and returns its record, if it was known.
pub fn unregister_kitty_tab(reg: &mut TabRegistry, tab_id: &String) -> (r: Option<KittyTab>)
    requires
        old(reg).wf(),
    ensures
        final(reg).wf(),
        final(reg)@ == old(reg)@.remove(tab_id@),
        r == (if old(reg)@.contains_key(tab_id@) {
            Some(old(reg)@[tab_id@])
        } else {
            None
        }),
{
    reg.remove(tab_id)
}

/// Copies of all tab records, one per known tab id.
pub fn get_all_tabs(reg: &TabRegistry) -> (r: Vec<KittyTab>)
    requires
        reg.wf(),
    ensures
        r@.len() == reg@.len(),
        forall|i: int|
            0 <= i < r@.len() ==> reg@.contains_key(#[trigger] reg.key_at(i)) && r@[i] == reg@[reg.key_at(
                i,
            )],
        forall|k: Seq<char>|
            #[trigger] reg@.contains_key(k) ==> exists|i: int| 0 <= i < r@.len() && #[trigger] reg.key_at(i) == k,
        forall|i: int, j: int| 0 <= i < j < r@.len() ==> reg.key_at(i) != reg.key_at(j),
{
    let values = reg.values();
    let mut out: Vec<KittyTab> = Vec::new();
    let mut i: usize = 0;
    while i < values.len()
        invariant
            i <= values@.len(),
            out@.len() == i,
            forall|j: int| 0 <= j < i ==> out@[j] == values@[j],
        decreases values@.len() - i,
    {
        out.push(copy_tab(&values[i]));
        i = i + 1;
    }
    out
}

/// Whether a tab's command is over: completed, failed or terminated.
pub open spec fn is_finished(s: TabStatus) -> bool {
    s is Completed || s is Error || s is Terminated
}

/// The ids of `m` whose tabs are finished.
pub open spec fn finished_ids(m: Map<Seq<char>, KittyTab>) -> Set<Seq<char>> {
    m.dom().filter(|k: Seq<char>| is_finished(m[k].status))
}

/// Forgets every finished tab; returns how many were forgotten.
pub fn cleanup_completed_tabs(reg: &mut TabRegistry) -> (r: usize)
    requires
        old(reg).wf(),
    ensures
        final(reg).wf(),
        final(reg)@ == old(reg)@.remove_keys(finished_ids(old(reg)@)),
        r == old(reg)@.len() - final(reg)@.len(),
{
    let ghost m0 = reg@;
    proof {
        reg.lemma_finite();
    }
    let initial_count = reg.len();
    let mut doomed: Vec<String> = Vec::new();
    {
        let keys = reg.keys();
        let values = reg.values();
        let mut i: usize = 0;
        while i < keys.len()
            invariant
                i <= keys@.len(),
                keys@.len() == values@.len(),
                reg@ == m0,
                forall|j: int| 0 <= j < keys@.len() ==> (#[trigger] keys@[j])@ == reg.key_at(j),
                forall|j: int|
                    0 <= j < values@.len() ==> reg@.contains_key(#[trigger] reg.key_at(j))
                        && values@[j] == reg@[reg.key_at(j)],
                forall|t: int|
                    0 <= t < doomed@.len() ==> finished_ids(m0).contains(#[trigger] doomed@[t]@),
                forall|j: int|
                    0 <= j < i && is_finished(values@[j].status) ==> listed(doomed@, (#[trigger] keys@[j])@),
            decreases keys@.len() - i,
        {
            let ghost prev = doomed@;
            if is_finished_status(values[i].status) {
                let ghost t = doomed@.len();
                doomed.push(keys[i].clone());
                assert(doomed@[t as int]@ == keys@[i as int]@);
            }
            proof {
                assert forall|j: int|
                    0 <= j <= i && is_finished(values@[j].status) implies listed(doomed@, (#[trigger] keys@[j])@) by {
                    if j < i {
                        let t = choose|t: int| 0 <= t < prev.len() && (#[trigger] prev[t])@ == keys@[j]@;
                        assert(doomed@[t] == prev[t]);
                    } else {
                        assert(doomed@[prev.len() as int]@ == keys@[j]@);
                    }
                }
                assert forall|t: int|
                    0 <= t < doomed@.len() implies finished_ids(m0).contains(#[trigger] doomed@[t]@) by {
                    if t < prev.len() {
                        assert(doomed@[t] == prev[t]);
                    } else {
                        assert(reg@.contains_key(reg.key_at(i as int)));
                    }
                }
            }
            i = i + 1;
        }
        assert forall|k: Seq<char>| #[trigger] finished_ids(m0).contains(k) implies listed(doomed@, k) by {
            let j = choose|j: int| 0 <= j < values@.len() && #[trigger] reg.key_at(j) == k;
            assert(keys@[j]@ == k);
        }
    }
    let mut t: usize = 0;
    while t < doomed.len()
        invariant
            reg.wf(),
            t <= doomed@.len(),
            reg@ == m0.remove_keys(Set::new(|k: Seq<char>| exists|u: int| 0 <= u < t && (#[trigger] doomed@[u])@ == k)),
        decreases doomed@.len() - t,
    {
        let ghost before = reg@;
        reg.remove(&doomed[t]);
        t = t + 1;
        assert(reg@ =~= m0.remove_keys(Set::new(|k: Seq<char>| exists|u: int| 0 <= u < t && (#[trigger] doomed@[u])@ == k)));
    }
    proof {
        let gone = Set::new(|k: Seq<char>| exists|u: int| 0 <= u < doomed@.len() && (#[trigger] doomed@[u])@ == k);
        assert(gone =~= finished_ids(m0));
        assert(reg@.dom().subset_of(m0.dom()));
        reg.lemma_finite();
        vstd::set_lib::lemma_len_subset(reg@.dom(), m0.dom());
    }
    initial_count - reg.len()
}

fn is_finished_status(s: TabStatus) -> (r: bool)
    ensures
        r == is_finished(s),
{
    match s {
        TabStatus::Running => false,
        _ => true,
    }
}

/// Some tab of `m` runs in the kitty instance at socket `s`.
pub open spec fn is_socket_of(m: Map<Seq<char>, KittyTab>, s: Seq<char>) -> bool {
    exists|k: Seq<char>| m.contains_key(k) && (#[trigger] m[k]).socket_path@ == s
}

/// Forgets all tabs and returns the distinct sockets of the kitty instances
/// that ran them, so that the caller can shut each instance down.
pub fn shutdown_all_kitty_instances(reg: &mut TabRegistry) -> (r: Vec<String>)
    requires
        old(reg).wf(),
    ensures
        final(reg).wf(),
        final(reg)@ == Map::<Seq<char>, KittyTab>::empty(),
        forall|i: int, j: int| 0 <= i < j < r@.len() ==> r@[i]@ != r@[j]@,
        forall|i: int| 0 <= i < r@.len() ==> is_socket_of(old(reg)@, #[trigger] r@[i]@),
        forall|k: Seq<char>|
            #[trigger] old(reg)@.contains_key(k) ==> exists|i: int|
                0 <= i < r@.len() && r@[i]@ == old(reg)@[k].socket_path@,
{
    let mut sockets: Vec<String> = Vec::new();
    {
        let values = reg.values();
        let mut i: usize = 0;
        while i < values.len()
            invariant
                i <= values@.len(),
                forall|j: int|
                    0 <= j < values@.len() ==> reg@.contains_key(#[trigger] reg.key_at(j))
                        && values@[j] == reg@[reg.key_at(j)],
                forall|a: int, b: int| 0 <= a < b < sockets@.len() ==> sockets@[a]@ != sockets@[b]@,
                forall|a: int| 0 <= a < sockets@.len() ==> is_socket_of(reg@, #[trigger] sockets@[a]@),
                forall|j: int|
                    0 <= j < i ==> exists|a: int|
                        0 <= a < sockets@.len() && sockets@[a]@ == (#[trigger] values@[j]).socket_path@,
            decreases values@.len() - i,
        {
            let path = &values[i].socket_path;
            let mut seen = false;
            let mut a: usize = 0;
            while a < sockets.len()
                invariant
                    a <= sockets@.len(),
                    seen ==> exists|b: int| 0 <= b < sockets@.len() && sockets@[b]@ == path@,
                    !seen ==> forall|b: int| 0 <= b < a ==> sockets@[b]@ != path@,
                decreases sockets@.len() - a,
            {
                if same_text(sockets[a].as_str(), path.as_str()) {
                    seen = true;
                }
                a = a + 1;
            }
            let ghost prev = sockets@;
            if !seen {
                proof {
                    assert(reg@[reg.key_at(i as int)].socket_path@ == path@);
                }
                sockets.push(path.clone());
            }
            proof {
                assert forall|j: int| 0 <= j <= i implies exists|a: int|
                    0 <= a < sockets@.len() && sockets@[a]@ == (#[trigger] values@[j]).socket_path@ by {
                    if j < i {
                        let a = choose|a: int|
                            0 <= a < prev.len() && prev[a]@ == (#[trigger] values@[j]).socket_path@;
                        assert(sockets@[a] == prev[a]);
                    } else if seen {
                        let b = choose|b: int| 0 <= b < prev.len() && prev[b]@ == path@;
                        assert(sockets@[b] == prev[b]);
                    } else {
                        assert(sockets@[prev.len() as int]@ == path@);
                    }
                }
            }
            i = i + 1;
        }
        assert forall|k: Seq<char>| #[trigger] reg@.contains_key(k) implies exists|i: int|
            0 <= i < sockets@.len() && sockets@[i]@ == reg@[k].socket_path@ by {
            let j = choose|j: int| 0 <= j < values@.len() && #[trigger] reg.key_at(j) == k;
            assert(values@[j].socket_path@ == reg@[k].socket_path@);
        }
    }
    reg.clear();
    sockets
}

/// What one probe of a starting kitty instance's socket gave.
#[derive(Clone, Copy, PartialEq, Eq, Structural)]
pub enum ProbeOutcome {
    Ready,
    NotReady,
    ProbeFailed,
}

/// What to do after a probe while waiting for a kitty instance.
#[derive(Clone, Copy, PartialEq, Eq, Structural)]
pub enum StartStep {
    /// The instance listens: done.
    Ready,
    /// Wait the configured delay and probe again.
    Retry,
    /// The retries are used up.
    TimedOut,
}

/// The wait for a new instance: after probe number `attempt` (from 0) it is
/// ready, or it is probed again while fewer than `max_retries` probes were made.
pub fn next_start_step(attempt: u32, max_retries: u32, probe: ProbeOutcome) -> (r: StartStep)
    ensures
        probe == ProbeOutcome::Ready ==> r == StartStep::Ready,
        probe != ProbeOutcome::Ready ==> (r == StartStep::Retry <==> attempt as int + 1 < max_retries),
        probe != ProbeOutcome::Ready ==> (r == StartStep::TimedOut <==> attempt as int + 1
            >= max_retries),
{
    match probe {
        ProbeOutcome::Ready => StartStep::Ready,
        _ => {
            if attempt < max_retries && attempt + 1 < max_retries {
                StartStep::Retry
            } else {
                StartStep::TimedOut
            }
        },
    }
}

} // verus!
