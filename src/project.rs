//! Projects found in a workspace: one per sub-directory holding a
//! `package.json`. Reading the directories is left to the caller.

use crate::text::{trim_text, trimmed};
use vstd::prelude::*;

verus! {

pub struct ProjectCommand {
    pub name: String,
    pub script: String,
}

pub struct Project {
    pub name: String,
    pub path: String,
    pub node_version: Option<String>,
    pub package_manager: String,
    pub commands: Vec<ProjectCommand>,
}

pub struct Workspace {
    pub path: String,
    pub name: String,
    pub projects: Vec<Project>,
}

pub open spec fn package_manager_of(has_pnpm_lock: bool, has_yarn_lock: bool) -> Seq<char> {
    if has_pnpm_lock {
        "pnpm"@
    } else if has_yarn_lock {
        "yarn"@
    } else {
        "npm"@
    }
}

/// The package manager a project uses, judged by its lock file:
/// `pnpm-lock.yaml` wins over `yarn.lock`; without either it is npm.
pub fn detect_package_manager(has_pnpm_lock: bool, has_yarn_lock: bool) -> (r: String)
    ensures
        r@ == package_manager_of(has_pnpm_lock, has_yarn_lock),
{
    if has_pnpm_lock {
        String::from_str("pnpm")
    } else if has_yarn_lock {
        String::from_str("yarn")
    } else {
        String::from_str("npm")
    }
}

/// The Node version a project asks for: the trimmed content of its
/// `.nvmrc` when that is not blank, else the `engines.node` of its
/// `package.json`.
pub open spec fn node_version_of(nvmrc: Option<Seq<char>>, engines_node: Option<Seq<char>>) -> Option<
    Seq<char>,
> {
    match nvmrc {
        Some(c) if trimmed(c).len() > 0 => Some(trimmed(c)),
        _ => engines_node,
    }
}

pub fn choose_node_version(nvmrc: Option<&str>, engines_node: Option<&str>) -> (r: Option<String>)
    ensures
        r is None <==> node_version_of(
            match nvmrc {
                Some(c) => Some(c@),
                None => None,
            },
            match engines_node {
                Some(e) => Some(e@),
                None => None,
            },
        ) is None,
        r is Some ==> node_version_of(
            match nvmrc {
                Some(c) => Some(c@),
                None => None,
            },
            match engines_node {
                Some(e) => Some(e@),
                None => None,
            },
        ) == Some(r->0@),
{
    if let Some(content) = nvmrc {
        let version = trim_text(content);
        if version.unicode_len() > 0 {
            return Some(version);
        }
    }
    match engines_node {
        Some(e) => Some(String::from_str(e)),
        None => None,
    }
}

} // verus!
