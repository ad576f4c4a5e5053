//! Installing the release: the shell environment file and the line that
//! sources it from a shell profile.
use vstd::prelude::*;
use vstd::string::*;

use crate::text::{contains_str, occurs_in};

verus! {

/// The version of a release.
#[derive(Debug, Clone)]
pub struct VersionInfo {
    pub version: String,
}

impl Default for VersionInfo {
    fn default() -> (r: Self)
        ensures
            r.version@ == Seq::<char>::empty(),
    {
        VersionInfo { version: String::new() }
    }
}

/// The line that sources the environment file from a shell profile.
pub open spec fn source_env_line() -> Seq<char> {
    "source $HOME/.hypertext/env\n"@
}

/// The line that sources the environment file from a shell profile.
pub fn get_source_env() -> (r: String)
    ensures
        r@ == source_env_line(),
{
    String::from_str("source $HOME/.hypertext/env\n")
}

/// The content of the environment file: `bin_dir` put first in the
/// `PATH`.
pub open spec fn env_content(bin_dir: Seq<char>) -> Seq<char> {
    "export PATH=\""@ + bin_dir + ":$PATH\"\n"@
}

/// The content of the environment file for the binaries in `bin_dir`.
pub fn get_env_content(bin_dir: &str) -> (r: String)
    ensures
        r@ == env_content(bin_dir@),
{
    let mut r = String::from_str("export PATH=\"");
    r.append(bin_dir);
    r.append(":$PATH\"\n");
    r
}

/// The profile files, under the home directory, of the shells whose
/// profile the installer updates: `bash` and `zsh`.
pub open spec fn shell_files(shell: Seq<char>) -> Option<Seq<Seq<char>>> {
    if shell == "bash"@ {
        Some(seq![".profile"@, ".bashrc"@])
    } else if shell == "zsh"@ {
        Some(seq![".profile"@, ".zshrc"@])
    } else {
        None
    }
}

/// The profile files of the shell named `shell`, when the installer knows
/// the shell.
pub fn profile_files(shell: &str) -> (r: Option<Vec<String>>)
    ensures
        match r {
            Some(v) => shell_files(shell@) == Some(crate::split::views(v@)),
            None => shell_files(shell@) is None,
        },
{
    if crate::text::str_eq(shell, "bash") {
        let v = vec![String::from_str(".profile"), String::from_str(".bashrc")];
        proof {
            assert(crate::split::views(v@) =~= seq![".profile"@, ".bashrc"@]);
        }
        Some(v)
    } else if crate::text::str_eq(shell, "zsh") {
        let v = vec![String::from_str(".profile"), String::from_str(".zshrc")];
        proof {
            assert(crate::split::views(v@) =~= seq![".profile"@, ".zshrc"@]);
        }
        Some(v)
    } else {
        None
    }
}

/// The new content of a shell profile: the profile with the source line
/// appended, or nothing when the profile already holds that line.
pub fn profile_update(contents: &str) -> (r: Option<String>)
    ensures
        match r {
            Some(c) => !occurs_in(contents@, source_env_line()) && c@ == contents@
                + source_env_line(),
            None => occurs_in(contents@, source_env_line()),
        },
{
    let line = get_source_env();
    if contains_str(contents, line.as_str()) {
        None
    } else {
        let mut c = contents.to_owned();
        c.append(line.as_str());
        Some(c)
    }
}

} // verus!
