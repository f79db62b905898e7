//! Git branches of a project, read from the output of
//! `git for-each-ref --format=%(refname:short)::%(HEAD) refs/heads`.
//! Running git is left to the caller.

use crate::text::{lines_of, same_text, slice_text, split_lines, trim_text, trimmed};
use vstd::prelude::*;

verus! {

pub struct GitBranch {
    pub name: String,
    pub is_current: bool,
}

/// The separator `::` starts at position `k` of `l`.
pub open spec fn sep_at(l: Seq<char>, k: int) -> bool {
    0 <= k && k + 1 < l.len() && l[k] == ':' && l[k + 1] == ':'
}

/// Name and head marker of a line: split at the first `::` (all of the line
/// is the name when there is none), both parts trimmed.
pub open spec fn split_branch_line(l: Seq<char>) -> (Seq<char>, Seq<char>) {
    if exists|k: int| #[trigger] sep_at(l, k) {
        let k = choose|k: int| sep_at(l, k) && forall|j: int| 0 <= j < k ==> !#[trigger] sep_at(l, j);
        (trimmed(l.subrange(0, k)), trimmed(l.subrange(k + 2, l.len() as int)))
    } else {
        (trimmed(l), Seq::empty())
    }
}

/// The branch a line describes, if any: blank lines and lines with an empty
/// name describe none; the branch is current when the marker is `*`.
pub open spec fn branch_of_line(l: Seq<char>) -> Option<(Seq<char>, bool)> {
    let (name, flag) = split_branch_line(l);
    if trimmed(l).len() == 0 || name.len() == 0 {
        None
    } else {
        Some((name, flag == "*"@))
    }
}

pub open spec fn branches_of(lines: Seq<Seq<char>>) -> Seq<(Seq<char>, bool)>
    decreases lines.len(),
{
    if lines.len() == 0 {
        Seq::empty()
    } else {
        let rest = branches_of(lines.drop_last());
        match branch_of_line(lines.last()) {
            Some(b) => rest.push(b),
            None => rest,
        }
    }
}

/// `v` lists exactly the branches `s`, in order.
pub open spec fn is_branch_list(v: Seq<GitBranch>, s: Seq<(Seq<char>, bool)>) -> bool {
    v.len() == s.len() && forall|i: int|
        0 <= i < s.len() ==> (#[trigger] v[i]).name@ == s[i].0 && v[i].is_current == s[i].1
}

/// Position of the first `::` in `l`, if any.
fn find_separator(l: &str) -> (r: Option<usize>)
    ensures
        match r {
            Some(k) => sep_at(l@, k as int) && forall|j: int| 0 <= j < k ==> !#[trigger] sep_at(l@, j),
            None => forall|j: int| !#[trigger] sep_at(l@, j),
        },
{
    let n = l.unicode_len();
    let mut k: usize = 0;
    while k < n
        invariant
            n == l@.len(),
            k <= n,
            forall|j: int| 0 <= j < k ==> !#[trigger] sep_at(l@, j),
        decreases n - k,
    {
        if k + 1 < n && l.get_char(k) == ':' && l.get_char(k + 1) == ':' {
            return Some(k);
        }
        k = k + 1;
    }
    None
}

/// The branch described by one output line.
pub fn parse_branch_line(line: &str) -> (r: Option<GitBranch>)
    ensures
        match branch_of_line(line@) {
            None => r is None,
            Some(b) => r matches Some(g) && g.name@ == b.0 && g.is_current == b.1,
        },
{
    let whole = trim_text(line);
    let (name, flag) = match find_separator(line) {
        Some(k) => {
            proof {
                assert(sep_at(line@, k as int) && forall|j: int|
                    0 <= j < k ==> !#[trigger] sep_at(line@, j));
                let kk = choose|kk: int|
                    sep_at(line@, kk) && forall|j: int| 0 <= j < kk ==> !#[trigger] sep_at(line@, j);
                if kk < k {
                } else if k < kk {
                }
                assert(kk == k as int);
                assert(split_branch_line(line@) == (
                    trimmed(line@.subrange(0, k as int)),
                    trimmed(line@.subrange(k + 2, line@.len() as int)),
                ));
            }
            let n = line.unicode_len();
            let head = slice_text(line, 0, k);
            let tail = slice_text(line, k + 2, n);
            (trim_text(head.as_str()), trim_text(tail.as_str()))
        },
        None => {
            proof {
                reveal_strlit("");
            }
            (trim_text(line), String::from_str(""))
        },
    };
    assert(split_branch_line(line@) == (name@, flag@));
    if whole.unicode_len() == 0 || name.unicode_len() == 0 {
        return None;
    }
    proof {
        reveal_strlit("*");
    }
    let is_current = same_text(flag.as_str(), "*");
    Some(GitBranch { name, is_current })
}

/// The branches listed in `for-each-ref` output, in order.
pub fn parse_branches(output: &str) -> (r: Vec<GitBranch>)
    ensures
        is_branch_list(r@, branches_of(lines_of(output@))),
{
    let lines = split_lines(output);
    let ghost ls = lines_of(output@);
    let mut out: Vec<GitBranch> = Vec::new();
    let mut i: usize = 0;
    while i < lines.len()
        invariant
            i <= lines@.len(),
            lines@.len() == ls.len(),
            forall|j: int| 0 <= j < lines@.len() ==> (#[trigger] lines@[j])@ == ls[j],
            is_branch_list(out@, branches_of(ls.subrange(0, i as int))),
        decreases lines@.len() - i,
    {
        let ghost pre = ls.subrange(0, i as int);
        let ghost next = ls.subrange(0, i + 1);
        assert(next.drop_last() =~= pre);
        match parse_branch_line(lines[i].as_str()) {
            Some(b) => out.push(b),
            None => {},
        }
        i = i + 1;
    }
    assert(ls.subrange(0, lines@.len() as int) =~= ls);
    out
}

pub open spec fn empty_branch_message() -> Seq<char> {
    "branch name must not be empty"@
}

/// The git arguments that check out `branch` (trimmed); a blank name is
/// refused.
pub fn checkout_args(branch: &str) -> (r: Result<Vec<String>, String>)
    ensures
        r is Err <==> trimmed(branch@).len() == 0,
        r matches Err(e) ==> e@ == empty_branch_message(),
        r matches Ok(a) ==> a@.len() == 2 && a@[0]@ == "checkout"@ && a@[1]@ == trimmed(branch@),
{
    let name = trim_text(branch);
    if name.unicode_len() == 0 {
        return Err(String::from_str("branch name must not be empty"));
    }
    let mut args: Vec<String> = Vec::new();
    args.push(String::from_str("checkout"));
    args.push(name);
    Ok(args)
}

} // verus!
