//! What differs between the operating systems the runner supports: how a
//! command line is handed to a shell, and what opens a folder.

use crate::text::same_text;
use vstd::prelude::*;

verus! {

#[derive(Clone, Copy, PartialEq, Eq, Structural)]
pub enum Platform {
    Linux,
    MacOs,
    Windows,
}

/// The last component of a path, as `Path::file_name` gives it.
pub uninterp spec fn file_name_of(path: Seq<char>) -> Option<Seq<char>>;

/// Relies on `Path::file_name`: a function of the path text alone. The
/// name of a path given as `str` is valid UTF-8.
#[verifier::external_body]
fn path_file_name(path: &str) -> (r: Option<String>)
    ensures
        match r {
            Some(n) => file_name_of(path@) == Some(n@),
            None => file_name_of(path@) is None,
        },
{
    std::path::Path::new(path).file_name().and_then(|n| n.to_str()).map(|n| n.to_string())
}

/// A program and its arguments.
pub struct Invocation {
    pub program: String,
    pub args: Vec<String>,
}

pub open spec fn default_shell(p: Platform) -> Seq<char> {
    if p == Platform::MacOs {
        "zsh"@
    } else {
        "bash"@
    }
}

/// The flag that makes a shell run one command: bash and zsh start as
/// login shells, so that the user's profile is read.
pub open spec fn command_flag(shell_name: Seq<char>) -> Seq<char> {
    if shell_name == "bash"@ || shell_name == "zsh"@ {
        "-lc"@
    } else {
        "-c"@
    }
}

/// `inv` runs `program` with exactly `args`.
pub open spec fn invokes(inv: Invocation, program: Seq<char>, args: Seq<Seq<char>>) -> bool {
    &&& inv.program@ == program
    &&& inv.args@.len() == args.len()
    &&& forall|i: int| 0 <= i < args.len() ==> (#[trigger] inv.args@[i])@ == args[i]
}

/// How to run `command` in a shell: PowerShell on Windows; elsewhere the
/// user's shell (`shell_var`, the value of `$SHELL`), else the platform's
/// default one.
pub fn build_shell_command(platform: Platform, shell_var: Option<&str>, command: &str) -> (r:
    Invocation)
    ensures
        platform == Platform::Windows ==> invokes(
            r,
            "powershell.exe"@,
            seq!["-NoProfile"@, "-Command"@, command@],
        ),
        platform != Platform::Windows ==> ({
            let shell = match shell_var {
                Some(s) => s@,
                None => default_shell(platform),
            };
            let name = match file_name_of(shell) {
                Some(n) => n,
                None => default_shell(platform),
            };
            invokes(r, shell, seq![command_flag(name), command@])
        }),
{
    if platform == Platform::Windows {
        let mut args: Vec<String> = Vec::new();
        args.push(String::from_str("-NoProfile"));
        args.push(String::from_str("-Command"));
        args.push(String::from_str(command));
        return Invocation { program: String::from_str("powershell.exe"), args };
    }
    let default = if platform == Platform::MacOs {
        "zsh"
    } else {
        "bash"
    };
    let shell = match shell_var {
        Some(s) => String::from_str(s),
        None => String::from_str(default),
    };
    let name = match path_file_name(shell.as_str()) {
        Some(n) => n,
        None => String::from_str(default),
    };
    let flag = if same_text(name.as_str(), "bash") || same_text(name.as_str(), "zsh") {
        "-lc"
    } else {
        "-c"
    };
    let mut args: Vec<String> = Vec::new();
    args.push(String::from_str(flag));
    args.push(String::from_str(command));
    Invocation { program: shell, args }
}

pub open spec fn opener_of(p: Platform) -> Seq<char> {
    match p {
        Platform::Windows => "explorer"@,
        Platform::MacOs => "open"@,
        Platform::Linux => "xdg-open"@,
    }
}

/// The program that opens a folder in the desktop's file manager.
pub fn opener_program(platform: Platform) -> (r: &'static str)
    ensures
        r@ == opener_of(platform),
{
    match platform {
        Platform::Windows => "explorer",
        Platform::MacOs => "open",
        Platform::Linux => "xdg-open",
    }
}

} // verus!
