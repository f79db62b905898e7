//! Node version managers (nvm, fnm, nvm-windows): the commands that drive
//! them and the choices made from their answers. Detecting which manager is
//! installed, and running its commands, is left to the caller.

use crate::text::{join2, lines_of, listed, same_text, slice_text, split_lines, split_words, words_of};
use vstd::prelude::*;

verus! {

#[derive(Clone, Copy, PartialEq, Eq, Structural)]
pub enum NodeVersionManager {
    Nvm,
    Fnm,
    NvmWindows,
}

pub open spec fn label_of(m: NodeVersionManager) -> Seq<char> {
    match m {
        NodeVersionManager::Nvm => "nvm"@,
        NodeVersionManager::Fnm => "fnm"@,
        NodeVersionManager::NvmWindows => "nvm-windows"@,
    }
}

impl NodeVersionManager {
    pub fn label(&self) -> (r: &'static str)
        ensures
            r@ == label_of(*self),
    {
        match self {
            NodeVersionManager::Nvm => "nvm",
            NodeVersionManager::Fnm => "fnm",
            NodeVersionManager::NvmWindows => "nvm-windows",
        }
    }
}

pub open spec fn no_manager_message() -> Seq<char> {
    "no Node version manager found (nvm or fnm)"@
}

fn no_manager() -> (r: String)
    ensures
        r@ == no_manager_message(),
{
    String::from_str("no Node version manager found (nvm or fnm)")
}

/// The shell text that runs `command` under Node `version` with manager `m`.
pub open spec fn wrapped_command(m: NodeVersionManager, version: Seq<char>, command: Seq<char>) -> Seq<
    char,
> {
    match m {
        NodeVersionManager::Nvm => "source ~/.nvm/nvm.sh && nvm use "@ + version + " && "@ + command,
        NodeVersionManager::Fnm => "eval \"$(fnm env --shell=bash)\" && fnm use "@ + version
            + " && "@ + command,
        NodeVersionManager::NvmWindows => "nvm use "@ + version
            + "; if ($LASTEXITCODE -ne 0) { exit $LASTEXITCODE }; "@ + command,
    }
}

/// Prefixes `command` so that it runs under Node `version`, with the
/// detected manager; fails when no manager was detected.
pub fn wrap_command_with_node(manager: Option<NodeVersionManager>, version: &str, command: &str) -> (r:
    Result<String, String>)
    ensures
        match manager {
            None => r matches Err(e) && e@ == no_manager_message(),
            Some(m) => r matches Ok(s) && s@ == wrapped_command(m, version@, command@),
        },
{
    let m = match manager {
        None => return Err(no_manager()),
        Some(m) => m,
    };
    let (head, sep) = match m {
        NodeVersionManager::Nvm => ("source ~/.nvm/nvm.sh && nvm use ", " && "),
        NodeVersionManager::Fnm => ("eval \"$(fnm env --shell=bash)\" && fnm use ", " && "),
        NodeVersionManager::NvmWindows => (
            "nvm use ",
            "; if ($LASTEXITCODE -ne 0) { exit $LASTEXITCODE }; ",
        ),
    };
    let mut s = join2(head, version);
    s.append(sep);
    s.append(command);
    Ok(s)
}

/// Strict order of strings as `str` compares them: lexicographic on code
/// points (the same order as on their UTF-8 bytes).
pub open spec fn text_lt(a: Seq<char>, b: Seq<char>) -> bool {
    exists|k: int| #[trigger] first_difference(a, b, k)
}

/// `k` is where `a` and `b` part, with `a` below `b` there.
pub open spec fn first_difference(a: Seq<char>, b: Seq<char>, k: int) -> bool {
    &&& 0 <= k <= a.len()
    &&& k <= b.len()
    &&& a.subrange(0, k) == b.subrange(0, k)
    &&& ((k == a.len() && k < b.len()) || (k < a.len() && k < b.len() && a[k] < b[k]))
}

pub proof fn lemma_text_lt_irreflexive(a: Seq<char>)
    ensures
        !text_lt(a, a),
{
}

pub proof fn lemma_text_lt_transitive(a: Seq<char>, b: Seq<char>, c: Seq<char>)
    requires
        text_lt(a, b),
        text_lt(b, c),
    ensures
        text_lt(a, c),
{
    let k1 = choose|k: int| #[trigger] first_difference(a, b, k);
    let k2 = choose|k: int| #[trigger] first_difference(b, c, k);
    let k = if k1 < k2 { k1 } else { k2 };
    assert(a.subrange(0, k) =~= b.subrange(0, k1).subrange(0, k));
    assert(b.subrange(0, k) =~= c.subrange(0, k2).subrange(0, k));
    assert(a.subrange(0, k) =~= c.subrange(0, k));
    if k1 < k2 {
        assert(b[k1] == b.subrange(0, k2)[k1]);
        assert(c[k1] == c.subrange(0, k2)[k1]);
    } else if k2 < k1 {
        assert(a[k2] == a.subrange(0, k1)[k2]);
        assert(b[k2] == b.subrange(0, k1)[k2]);
    }
    assert(first_difference(a, c, k));
}

/// `a < b` in the order of `text_lt`.
pub fn text_less(a: &str, b: &str) -> (r: bool)
    ensures
        r == text_lt(a@, b@),
{
    let n = a.unicode_len();
    let m = b.unicode_len();
    let mut i: usize = 0;
    while i < n && i < m
        invariant
            n == a@.len(),
            m == b@.len(),
            i <= n,
            i <= m,
            a@.subrange(0, i as int) == b@.subrange(0, i as int),
        decreases n - i,
    {
        let x = a.get_char(i);
        let y = b.get_char(i);
        if x != y {
            let lt = x < y;
            proof {
                if lt {
                    assert(first_difference(a@, b@, i as int));
                } else {
                    assert forall|k: int| !#[trigger] first_difference(a@, b@, k) by {
                        if first_difference(a@, b@, k) && k > i {
                            assert(a@[i as int] == a@.subrange(0, k)[i as int]);
                            assert(b@[i as int] == b@.subrange(0, k)[i as int]);
                        }
                        if first_difference(a@, b@, k) && k < i {
                            assert(a@[k] == a@.subrange(0, i as int)[k]);
                            assert(b@[k] == b@.subrange(0, i as int)[k]);
                        }
                    }
                }
            }
            return lt;
        }
        i = i + 1;
        assert(a@.subrange(0, i as int) =~= a@.subrange(0, i - 1).push(x));
        assert(b@.subrange(0, i as int) =~= b@.subrange(0, i - 1).push(y));
    }
    let r = n < m;
    proof {
        if r {
            assert(first_difference(a@, b@, n as int));
        } else {
            assert forall|k: int| !#[trigger] first_difference(a@, b@, k) by {
                if first_difference(a@, b@, k) && k < i {
                    assert(a@[k] == a@.subrange(0, i as int)[k]);
                    assert(b@[k] == b@.subrange(0, i as int)[k]);
                }
            }
        }
    }
    r
}

/// The greatest of `versions` as strings compare, or `None` for none.
pub fn get_highest_version(versions: &Vec<String>) -> (r: Option<String>)
    ensures
        r is None <==> versions@.len() == 0,
        r matches Some(h) ==> (exists|i: int| 0 <= i < versions@.len() && versions@[i]@ == h@)
            && forall|j: int| 0 <= j < versions@.len() ==> !text_lt(h@, #[trigger] versions@[j]@),
{
    if versions.len() == 0 {
        return None;
    }
    let mut highest: usize = 0;
    let mut i: usize = 1;
    proof {
        lemma_text_lt_irreflexive(versions@[0]@);
    }
    while i < versions.len()
        invariant
            1 <= i <= versions@.len(),
            highest < i,
            forall|j: int| 0 <= j < i ==> !text_lt(versions@[highest as int]@, #[trigger] versions@[j]@),
        decreases versions@.len() - i,
    {
        if text_less(versions[highest].as_str(), versions[i].as_str()) {
            proof {
                let h = versions@[highest as int]@;
                let v = versions@[i as int]@;
                lemma_text_lt_irreflexive(v);
                assert forall|j: int| 0 <= j <= i implies !text_lt(v, #[trigger] versions@[j]@) by {
                    if j < i && text_lt(v, versions@[j]@) {
                        lemma_text_lt_transitive(h, v, versions@[j]@);
                    }
                }
            }
            highest = i;
        }
        i = i + 1;
    }
    Some(versions[highest].clone())
}

/// `a` holds exactly the arguments `s`.
pub open spec fn is_args(a: Vec<String>, s: Seq<Seq<char>>) -> bool {
    a@.len() == s.len() && forall|i: int| 0 <= i < s.len() ==> (#[trigger] a@[i])@ == s[i]
}

pub open spec fn list_step(m: NodeVersionManager) -> Seq<Seq<char>> {
    match m {
        NodeVersionManager::Nvm => seq!["list"@, "--no-colors"@],
        _ => seq!["list"@],
    }
}

pub open spec fn install_step(version: Seq<char>) -> Seq<Seq<char>> {
    seq!["install"@, version]
}

pub open spec fn use_step(m: NodeVersionManager, version: Seq<char>) -> Seq<Seq<char>> {
    match m {
        NodeVersionManager::Fnm => seq!["default"@, version],
        _ => seq!["use"@, version],
    }
}

fn args2(a: &str, b: &str) -> (r: Vec<String>)
    ensures
        is_args(r, seq![a@, b@]),
{
    let mut r: Vec<String> = Vec::new();
    r.push(String::from_str(a));
    r.push(String::from_str(b));
    r
}

/// Arguments that make manager `m` list the installed versions.
pub fn list_args(m: NodeVersionManager) -> (r: Vec<String>)
    ensures
        is_args(r, list_step(m)),
{
    match m {
        NodeVersionManager::Nvm => args2("list", "--no-colors"),
        _ => {
            let mut r: Vec<String> = Vec::new();
            r.push(String::from_str("list"));
            r
        },
    }
}

/// Arguments that make manager `m` install Node `version`.
pub fn install_args(version: &str) -> (r: Vec<String>)
    ensures
        is_args(r, install_step(version@)),
{
    args2("install", version)
}

/// Arguments that make manager `m` switch to Node `version`.
pub fn use_args(m: NodeVersionManager, version: &str) -> (r: Vec<String>)
    ensures
        is_args(r, use_step(m, version@)),
{
    match m {
        NodeVersionManager::Fnm => args2("default", version),
        _ => args2("use", version),
    }
}

/// Commands to run with a manager, in order, and what to report once all
/// of them succeeded.
pub struct NodeSwitchPlan {
    pub manager: NodeVersionManager,
    pub steps: Vec<Vec<String>>,
    pub message: String,
}

pub open spec fn switched_message(m: NodeVersionManager, version: Seq<char>) -> Seq<char> {
    "switched to Node "@ + version + " (using "@ + label_of(m) + ")"@
}

/// `p` installs `version` with `m` when it is not among `installed`, then
/// switches to it.
pub open spec fn switch_plan(
    p: NodeSwitchPlan,
    m: NodeVersionManager,
    version: Seq<char>,
    installed: Seq<String>,
) -> bool {
    &&& p.manager == m
    &&& if exists|i: int| 0 <= i < installed.len() && (#[trigger] installed[i])@ == version {
        p.steps@.len() == 1 && is_args(p.steps@[0], use_step(m, version))
    } else {
        p.steps@.len() == 2 && is_args(p.steps@[0], install_step(version)) && is_args(
            p.steps@[1],
            use_step(m, version),
        )
    }
}

fn is_installed(installed: &Vec<String>, version: &str) -> (r: bool)
    ensures
        r == exists|i: int| 0 <= i < installed@.len() && (#[trigger] installed@[i])@ == version@,
{
    let mut i: usize = 0;
    while i < installed.len()
        invariant
            i <= installed@.len(),
            forall|j: int| 0 <= j < i ==> (#[trigger] installed@[j])@ != version@,
        decreases installed@.len() - i,
    {
        if same_text(installed[i].as_str(), version) {
            return true;
        }
        i = i + 1;
    }
    false
}

fn plan_for(m: NodeVersionManager, version: &str, installed: &Vec<String>) -> (r: NodeSwitchPlan)
    ensures
        switch_plan(r, m, version@, installed@),
        r.message@ == switched_message(m, version@),
{
    let mut steps: Vec<Vec<String>> = Vec::new();
    if !is_installed(installed, version) {
        steps.push(install_args(version));
    }
    steps.push(use_args(m, version));
    let mut message = join2("switched to Node ", version);
    message.append(" (using ");
    message.append(m.label());
    message.append(")");
    NodeSwitchPlan { manager: m, steps, message }
}

/// Makes Node `version` the active one: with the detected manager, install
/// it unless `installed` (the manager's list) has it, then switch to it.
pub fn ensure_node_version(
    manager: Option<NodeVersionManager>,
    version: &str,
    installed: &Vec<String>,
) -> (r: Result<NodeSwitchPlan, String>)
    ensures
        manager is None ==> (r matches Err(e) && e@ == no_manager_message()),
        manager is Some ==> (r matches Ok(p) && switch_plan(p, manager->0, version@, installed@)
            && p.message@ == switched_message(manager->0, version@)),
{
    match manager {
        None => Err(no_manager()),
        Some(m) => {
            let p = plan_for(m, version, installed);
            Ok(p)
        },
    }
}

pub open spec fn no_version_message() -> Seq<char> {
    "no Node version available"@
}

pub open spec fn highest_message(version: Seq<char>) -> Seq<char> {
    "switched to highest version: "@ + version
}

/// Switches to the greatest of `versions`, as `ensure_node_version` does.
pub fn switch_to_highest_version(
    manager: Option<NodeVersionManager>,
    versions: &Vec<String>,
    installed: &Vec<String>,
) -> (r: Result<NodeSwitchPlan, String>)
    ensures
        manager is None ==> (r matches Err(e) && e@ == no_manager_message()),
        manager is Some && versions@.len() == 0 ==> (r matches Err(e) && e@
            == no_version_message()),
        r matches Ok(p) ==> exists|i: int|
            0 <= i < versions@.len() && switch_plan(p, manager->0, (#[trigger] versions@[i])@, installed@)
                && (forall|j: int|
                0 <= j < versions@.len() ==> !text_lt(versions@[i]@, #[trigger] versions@[j]@))
                && p.message@ == highest_message(versions@[i]@),
        manager is Some && versions@.len() > 0 ==> r is Ok,
{
    let m = match manager {
        None => return Err(no_manager()),
        Some(m) => m,
    };
    match get_highest_version(versions) {
        None => Err(String::from_str("no Node version available")),
        Some(h) => {
            let mut p = plan_for(m, h.as_str(), installed);
            p.message = join2("switched to highest version: ", h.as_str());
            Ok(p)
        },
    }
}

/// Two different texts are ordered one way or the other.
pub proof fn lemma_text_lt_total(a: Seq<char>, b: Seq<char>)
    requires
        a != b,
    ensures
        text_lt(a, b) || text_lt(b, a),
{
    assert(a.subrange(0, 0) =~= b.subrange(0, 0));
    lemma_text_lt_scan(a, b, 0);
}

proof fn lemma_text_lt_scan(a: Seq<char>, b: Seq<char>, k: int)
    requires
        a != b,
        0 <= k <= a.len(),
        k <= b.len(),
        a.subrange(0, k) == b.subrange(0, k),
    ensures
        text_lt(a, b) || text_lt(b, a),
    decreases a.len() - k,
{
    if k == a.len() || k == b.len() {
        if a.len() == b.len() {
            assert(a =~= a.subrange(0, k));
            assert(b =~= b.subrange(0, k));
        } else if k == a.len() {
            assert(first_difference(a, b, k));
        } else {
            assert(first_difference(b, a, k));
        }
    } else if a[k] != b[k] {
        if a[k] < b[k] {
            assert(first_difference(a, b, k));
        } else {
            assert(first_difference(b, a, k));
        }
    } else {
        assert(a.subrange(0, k + 1) =~= a.subrange(0, k).push(a[k]));
        assert(b.subrange(0, k + 1) =~= b.subrange(0, k).push(b[k]));
        lemma_text_lt_scan(a, b, k + 1);
    }
}

/// Characters that may belong to a version number.
pub open spec fn is_version_char(c: char) -> bool {
    ('0' <= c && c <= '9') || c == 'v' || c == '.'
}

pub open spec fn is_digit(c: char) -> bool {
    '0' <= c && c <= '9'
}

pub open spec fn strip_front(s: Seq<char>) -> Seq<char>
    decreases s.len(),
{
    if s.len() == 0 || is_version_char(s[0]) {
        s
    } else {
        strip_front(s.drop_first())
    }
}

pub open spec fn strip_back(s: Seq<char>) -> Seq<char>
    decreases s.len(),
{
    if s.len() == 0 || is_version_char(s.last()) {
        s
    } else {
        strip_back(s.drop_last())
    }
}

/// `s` without the characters at either end that cannot be part of a version.
pub open spec fn version_trim(s: Seq<char>) -> Seq<char> {
    strip_back(strip_front(s))
}

/// Position of the first `v` in `s`, if any.
pub open spec fn first_v(s: Seq<char>) -> Option<int> {
    if exists|k: int| 0 <= k < s.len() && s[k] == 'v' {
        Some(choose|k: int| 0 <= k < s.len() && s[k] == 'v' && forall|j: int| 0 <= j < k ==> s[j] != 'v')
    } else {
        None
    }
}

/// The version a word of a manager's listing names, if any: the word trimmed
/// to version characters when that starts with a digit; otherwise the part
/// from its first `v`, trimmed, when that is `v` followed by a digit.
pub open spec fn version_in(token: Seq<char>) -> Option<Seq<char>> {
    let a = version_trim(token);
    if a.len() > 0 && is_digit(a[0]) {
        Some(a)
    } else {
        match first_v(token) {
            Some(p) => {
                let b = version_trim(token.subrange(p, token.len() as int));
                if b.len() >= 2 && b[0] == 'v' && is_digit(b[1]) {
                    Some(b)
                } else {
                    None
                }
            },
            None => None,
        }
    }
}

fn is_version_char_exec(c: char) -> (r: bool)
    ensures
        r == is_version_char(c),
{
    ('0' <= c && c <= '9') || c == 'v' || c == '.'
}

fn trim_version_chars(s: &str) -> (r: String)
    ensures
        r@ == version_trim(s@),
{
    let n = s.unicode_len();
    let mut lo: usize = 0;
    assert(s@.subrange(0, n as int) =~= s@);
    while lo < n && !is_version_char_exec(s.get_char(lo))
        invariant
            n == s@.len(),
            lo <= n,
            strip_front(s@) == strip_front(s@.subrange(lo as int, n as int)),
        decreases n - lo,
    {
        assert(s@.subrange(lo as int, n as int).drop_first() =~= s@.subrange(lo + 1, n as int));
        lo = lo + 1;
    }
    let ghost front = s@.subrange(lo as int, n as int);
    assert(strip_front(s@) == front);
    let mut hi: usize = n;
    while hi > lo && !is_version_char_exec(s.get_char(hi - 1))
        invariant
            n == s@.len(),
            lo <= hi <= n,
            front == s@.subrange(lo as int, n as int),
            strip_back(front) == strip_back(s@.subrange(lo as int, hi as int)),
        decreases hi,
    {
        assert(s@.subrange(lo as int, hi as int).drop_last() =~= s@.subrange(lo as int, hi - 1));
        hi = hi - 1;
    }
    slice_text(s, lo, hi)
}

fn find_v(s: &str) -> (r: Option<usize>)
    ensures
        r matches Some(i) ==> i < s@.len(),
        first_v(s@) == (match r {
            Some(i) => Some(i as int),
            None => None,
        }),
{
    let n = s.unicode_len();
    let mut i: usize = 0;
    while i < n
        invariant
            n == s@.len(),
            i <= n,
            forall|j: int| 0 <= j < i ==> s@[j] != 'v',
        decreases n - i,
    {
        if s.get_char(i) == 'v' {
            proof {
                let p = choose|k: int| 0 <= k < s@.len() && s@[k] == 'v' && forall|j: int| 0 <= j < k ==> s@[j] != 'v';
                if p < i {
                } else if i < p {
                }
            }
            return Some(i);
        }
        i = i + 1;
    }
    None
}

/// The version named by one word of a manager's listing.
pub fn normalize_version_token(token: &str) -> (r: Option<String>)
    ensures
        match version_in(token@) {
            Some(v) => r is Some && r->0@ == v,
            None => r is None,
        },
{
    let a = trim_version_chars(token);
    if a.unicode_len() > 0 {
        let c = a.as_str().get_char(0);
        if '0' <= c && c <= '9' {
            return Some(a);
        }
    }
    match find_v(token) {
        Some(p) => {
            let n = token.unicode_len();
            let candidate = slice_text(token, p, n);
            let b = trim_version_chars(candidate.as_str());
            if b.unicode_len() >= 2 && b.as_str().get_char(0) == 'v' {
                let d = b.as_str().get_char(1);
                if '0' <= d && d <= '9' {
                    return Some(b);
                }
            }
            None
        },
        None => None,
    }
}

/// The first word of `words` that names a version.
pub open spec fn first_version(words: Seq<Seq<char>>) -> Option<Seq<char>>
    decreases words.len(),
{
    if words.len() == 0 {
        None
    } else {
        match version_in(words[0]) {
            Some(v) => Some(v),
            None => first_version(words.drop_first()),
        }
    }
}

fn version_of_line(line: &str) -> (r: Option<String>)
    ensures
        match first_version(words_of(line@)) {
            Some(v) => r is Some && r->0@ == v,
            None => r is None,
        },
{
    let words = split_words(line);
    let ghost ws = words_of(line@);
    let n = words.len();
    let mut i: usize = 0;
    assert(ws.subrange(0, n as int) =~= ws);
    while i < n
        invariant
            n == words@.len(),
            n == ws.len(),
            ws == words_of(line@),
            i <= n,
            forall|j: int| 0 <= j < n ==> (#[trigger] words@[j])@ == ws[j],
            first_version(ws) == first_version(ws.subrange(i as int, n as int)),
        decreases n - i,
    {
        assert(ws.subrange(i as int, n as int)[0] == ws[i as int]);
        match normalize_version_token(words[i].as_str()) {
            Some(v) => {
                return Some(v);
            },
            None => {},
        }
        assert(ws.subrange(i as int, n as int).drop_first() =~= ws.subrange(i + 1, n as int));
        i = i + 1;
    }
    None
}

/// The versions named on `lines`, one at most per line, as a set.
pub open spec fn versions_named(lines: Seq<Seq<char>>) -> Set<Seq<char>> {
    Set::new(|v: Seq<char>| exists|i: int| 0 <= i < lines.len() && first_version(words_of(#[trigger] lines[i])) == Some(v))
}

/// `v` is strictly increasing in text order.
pub open spec fn strictly_sorted(v: Seq<String>) -> bool {
    forall|i: int, j: int| 0 <= i < j < v.len() ==> text_lt(v[i]@, v[j]@)
}

/// The Node versions a manager's listing names: on each line the first
/// word that names one; sorted in text order, each once.
pub fn parse_versions(output: &str) -> (r: Vec<String>)
    ensures
        strictly_sorted(r@),
        forall|v: Seq<char>| versions_named(lines_of(output@)).contains(v) <==> #[trigger] listed(r@, v),
{
    let lines = split_lines(output);
    let ghost ls = lines_of(output@);
    let mut out: Vec<String> = Vec::new();
    let mut i: usize = 0;
    while i < lines.len()
        invariant
            i <= lines@.len(),
            lines@.len() == ls.len(),
            ls == lines_of(output@),
            forall|j: int| 0 <= j < lines@.len() ==> (#[trigger] lines@[j])@ == ls[j],
            strictly_sorted(out@),
            forall|v: Seq<char>|
                versions_named(ls.subrange(0, i as int)).contains(v) <==> #[trigger] listed(out@, v),
        decreases lines@.len() - i,
    {
        let ghost before = out@;
        let ghost pre = ls.subrange(0, i as int);
        let ghost next = ls.subrange(0, i + 1);
        let found = version_of_line(lines[i].as_str());
        match found {
            Some(v) => {
                insert_sorted(&mut out, v);
            },
            None => {},
        }
        proof {
            assert forall|v: Seq<char>| versions_named(next).contains(v) <==> #[trigger] listed(out@, v) by {
                if versions_named(next).contains(v) {
                    let j = choose|j: int| 0 <= j < next.len() && first_version(words_of(#[trigger] next[j])) == Some(v);
                    if j < i {
                        assert(pre[j] == next[j]);
                        assert(versions_named(pre).contains(v));
                    }
                }
                if versions_named(pre).contains(v) {
                    let j = choose|j: int| 0 <= j < pre.len() && first_version(words_of(#[trigger] pre[j])) == Some(v);
                    assert(next[j] == pre[j]);
                    assert(versions_named(next).contains(v));
                }
                if first_version(words_of(ls[i as int])) == Some(v) {
                    assert(next[i as int] == ls[i as int]);
                    assert(versions_named(next).contains(v));
                }
            }
        }
        i = i + 1;
    }
    assert(ls.subrange(0, lines@.len() as int) =~= ls);
    out
}

/// Inserts `v` at its place in a strictly sorted list, unless it is there.
fn insert_sorted(out: &mut Vec<String>, v: String)
    requires
        strictly_sorted(old(out)@),
    ensures
        strictly_sorted(final(out)@),
        forall|w: Seq<char>| #[trigger] listed(final(out)@, w) <==> (w == v@ || listed(old(out)@, w)),
{
    let n = out.len();
    let mut p: usize = 0;
    while p < n && text_less(out[p].as_str(), v.as_str())
        invariant
            n == out@.len(),
            p <= n,
            forall|k: int| 0 <= k < p ==> text_lt((#[trigger] out@[k])@, v@),
        decreases n - p,
    {
        p = p + 1;
    }
    if p < n && same_text(out[p].as_str(), v.as_str()) {
        return;
    }
    let ghost old_out = out@;
    proof {
        if p < n {
            lemma_text_lt_total(old_out[p as int]@, v@);
            assert(text_lt(v@, old_out[p as int]@));
        }
    }
    out.insert(p, v);
    proof {
        assert forall|a: int, b: int| 0 <= a < b < out@.len() implies text_lt(out@[a]@, out@[b]@) by {
            if b < p {
                assert(out@[a] == old_out[a] && out@[b] == old_out[b]);
            } else if b == p {
                assert(out@[a] == old_out[a]);
            } else if a == p {
                assert(out@[b] == old_out[b - 1]);
                if b - 1 > p {
                    lemma_text_lt_transitive(v@, old_out[p as int]@, old_out[b - 1]@);
                }
            } else if a < p {
                assert(out@[a] == old_out[a] && out@[b] == old_out[b - 1]);
            } else {
                assert(out@[a] == old_out[a - 1] && out@[b] == old_out[b - 1]);
            }
        }
        assert forall|w: Seq<char>| #[trigger] listed(out@, w) <==> (w == v@ || listed(old_out, w)) by {
            if listed(out@, w) {
                let k = choose|k: int| 0 <= k < out@.len() && (#[trigger] out@[k])@ == w;
                if k < p {
                    assert(out@[k] == old_out[k]);
                } else if k > p {
                    assert(out@[k] == old_out[k - 1]);
                }
            }
            if w == v@ {
                assert(out@[p as int]@ == w);
            }
            if listed(old_out, w) {
                let k = choose|k: int| 0 <= k < old_out.len() && (#[trigger] old_out[k])@ == w;
                if k < p {
                    assert(out@[k] == old_out[k]);
                } else {
                    assert(out@[k + 1] == old_out[k]);
                }
            }
        }
    }
}

} // verus!
