//! Build hooks: commands run before or after a build, or when a file they
//! watch changes.
use vstd::prelude::*;
use vstd::string::*;

use crate::path::path_joined;
use crate::path::join_path;
use crate::split::views;
use crate::text::{starts_with, str_eq};

verus! {

/// When a hook runs.
#[derive(Debug, Clone, Copy, PartialEq, Eq, Structural)]
pub enum Phase {
    Before,
    After,
}

/// A hook of the site configuration.
#[derive(Debug, Clone)]
pub struct Hook {
    /// The command; one that starts with `.` is relative to the project.
    pub path: String,
    /// The command's arguments.
    pub args: Option<Vec<String>>,
    /// Whether the hook runs after the build rather than before it.
    pub after: Option<bool>,
    /// The build profiles the hook runs for; every profile when absent.
    pub profiles: Option<Vec<String>>,
    /// Whether the command's standard output is shown.
    pub stdout: Option<bool>,
    /// Whether the command's standard error is shown.
    pub stderr: Option<bool>,
}

/// Whether the hook runs in `phase` of a build with profile `name`.
pub open spec fn runs_in(h: Hook, phase: Phase, name: Seq<char>) -> bool {
    let after = h.after == Some(true);
    &&& (match phase {
        Phase::Before => !after,
        Phase::After => after,
    })
    &&& (match h.profiles {
        Some(p) => views(p@).contains(name),
        None => true,
    })
}

/// The hooks that run in `phase` of a build with profile `name`, in order.
pub open spec fn hooks_in(hooks: Seq<Hook>, phase: Phase, name: Seq<char>) -> Seq<Hook>
    decreases hooks.len(),
{
    if hooks.len() == 0 {
        Seq::empty()
    } else {
        let before = hooks_in(hooks.drop_last(), phase, name);
        if runs_in(hooks.last(), phase, name) {
            before.push(hooks.last())
        } else {
            before
        }
    }
}

/// Whether `names` holds `name`.
fn holds_name(names: &Vec<String>, name: &str) -> (r: bool)
    ensures
        r == views(names@).contains(name@),
{
    let mut i: usize = 0;
    while i < names.len()
        invariant
            i <= names@.len(),
            forall|k: int| 0 <= k < i ==> (#[trigger] names@[k])@ != name@,
        decreases names@.len() - i,
    {
        if str_eq(names[i].as_str(), name) {
            proof {
                assert(views(names@)[i as int] == name@);
            }
            return true;
        }
        i = i + 1;
    }
    proof {
        if views(names@).contains(name@) {
            let k = choose|k: int| 0 <= k < views(names@).len() && views(names@)[k] == name@;
            assert(names@[k]@ == name@);
        }
    }
    false
}

/// Whether the hook runs in `phase` of a build with profile `name`.
pub fn runs(h: &Hook, phase: Phase, name: &str) -> (r: bool)
    ensures
        r == runs_in(*h, phase, name@),
{
    let after = match h.after {
        Some(a) => a,
        None => false,
    };
    let in_phase = match phase {
        Phase::Before => !after,
        Phase::After => after,
    };
    let in_profile = match &h.profiles {
        Some(p) => holds_name(p, name),
        None => true,
    };
    in_phase && in_profile
}

/// The hooks that run in `phase` of a build with profile `name`, in order.
pub fn collect<'a>(hooks: &'a Vec<Hook>, phase: Phase, name: &str) -> (r: Vec<&'a Hook>)
    ensures
        r@.len() == hooks_in(hooks@, phase, name@).len(),
        forall|i: int| 0 <= i < r@.len() ==> *r@[i] == hooks_in(hooks@, phase, name@)[i],
{
    let mut r: Vec<&'a Hook> = Vec::new();
    let mut i: usize = 0;
    while i < hooks.len()
        invariant
            i <= hooks@.len(),
            r@.len() == hooks_in(hooks@.take(i as int), phase, name@).len(),
            forall|k: int| 0 <= k < r@.len() ==> *r@[k] == hooks_in(hooks@.take(i as int), phase, name@)[k],
        decreases hooks@.len() - i,
    {
        proof {
            assert(hooks@.take(i + 1).drop_last() =~= hooks@.take(i as int));
            assert(hooks@.take(i + 1).last() == hooks@[i as int]);
        }
        if runs(&hooks[i], phase, name) {
            r.push(&hooks[i]);
        }
        i = i + 1;
    }
    proof {
        assert(hooks@.take(hooks@.len() as int) =~= hooks@);
    }
    r
}

/// The command a hook runs: the program, its arguments, the directory it
/// runs in, its environment, and whether its output is shown.
#[derive(Debug, Clone)]
pub struct Command {
    pub program: String,
    pub args: Vec<String>,
    pub current_dir: String,
    pub envs: Vec<(String, String)>,
    pub inherit_stdout: bool,
    pub inherit_stderr: bool,
}

/// The program of a hook: a command that starts with `.` is joined to the
/// project root.
pub open spec fn program_of(path: Seq<char>, project_root: Seq<char>) -> Seq<char> {
    if path.len() > 0 && path[0] == '.' {
        path_joined(project_root, path)
    } else {
        path
    }
}

/// The environment of a hook: the node environment, the project root, the
/// build source and target, and the changed file when there is one.
pub open spec fn env_of(
    node_env: Seq<char>,
    project_root: Seq<char>,
    source: Seq<char>,
    target: Seq<char>,
    changed: Option<Seq<char>>,
) -> Seq<(Seq<char>, Seq<char>)> {
    let base = seq![
        ("NODE_ENV"@, node_env),
        ("BUILD_PROJECT"@, project_root),
        ("BUILD_SOURCE"@, source),
        ("BUILD_TARGET"@, target),
    ];
    match changed {
        Some(f) => base.push(("BUILD_FILE"@, f)),
        None => base,
    }
}

/// The views of a list of environment pairs.
pub open spec fn env_view(v: Seq<(String, String)>) -> Seq<(Seq<char>, Seq<char>)> {
    v.map_values(|e: (String, String)| (e.0@, e.1@))
}

/// The command hook `h` runs, from the canonical project root, build
/// source and build target, the node environment and the changed file.
pub fn command(
    h: &Hook,
    project_root: &str,
    source: &str,
    target: &str,
    node_env: &str,
    changed: Option<&str>,
) -> (r: Command)
    ensures
        r.program@ == program_of(h.path@, project_root@),
        r.args@ == (match h.args {
            Some(a) => a@,
            None => Seq::<String>::empty(),
        }),
        r.current_dir@ == project_root@,
        env_view(r.envs@) == env_of(
            node_env@,
            project_root@,
            source@,
            target@,
            match changed {
                Some(f) => Some(f@),
                None => None,
            },
        ),
        r.inherit_stdout == (h.stdout == Some(true)),
        r.inherit_stderr == (h.stderr == Some(true)),
{
    proof {
        reveal_strlit(".");
    }
    let program = if starts_with(h.path.as_str(), ".") {
        proof {
            assert(h.path@.subrange(0, 1) == "."@);
            assert(h.path@[0] == h.path@.subrange(0, 1)[0]);
        }
        join_path(project_root, h.path.as_str())
    } else {
        proof {
            if h.path@.len() > 0 && h.path@[0] == '.' {
                assert(h.path@.subrange(0, 1) =~= "."@);
            }
        }
        h.path.clone()
    };
    let args = match &h.args {
        Some(a) => a.clone(),
        None => Vec::new(),
    };
    let mut envs: Vec<(String, String)> = Vec::new();
    envs.push((String::from_str("NODE_ENV"), node_env.to_owned()));
    envs.push((String::from_str("BUILD_PROJECT"), project_root.to_owned()));
    envs.push((String::from_str("BUILD_SOURCE"), source.to_owned()));
    envs.push((String::from_str("BUILD_TARGET"), target.to_owned()));
    if let Some(f) = changed {
        envs.push((String::from_str("BUILD_FILE"), f.to_owned()));
    }
    proof {
        assert(env_view(envs@) =~= env_of(
            node_env@,
            project_root@,
            source@,
            target@,
            match changed {
                Some(f) => Some(f@),
                None => None,
            },
        ));
    }
    let inherit_stdout = match h.stdout {
        Some(b) => b,
        None => false,
    };
    let inherit_stderr = match h.stderr {
        Some(b) => b,
        None => false,
    };
    Command {
        program,
        args,
        current_dir: project_root.to_owned(),
        envs,
        inherit_stdout,
        inherit_stderr,
    }
}


/// Whether a hook belongs to `phase`: after the build exactly when it says
/// so, before it otherwise.
pub open spec fn in_phase(h: Hook, phase: Phase) -> bool {
    (h.after == Some(true)) == (phase == Phase::After)
}

/// Whether a hook is for the build profile `name`: it lists no profiles,
/// or lists `name`.
pub open spec fn for_profile(h: Hook, name: Seq<char>) -> bool {
    forall|p: Vec<String>| h.profiles == Some(p) ==> views(p@).contains(name)
}

/// The hooks collected for `phase` and profile `name` are the hooks of
/// that phase that are for that profile, in both phases: each collected
/// hook is one of the hooks, belongs to the phase and is for the profile,
/// and each hook that belongs to the phase and is for the profile is
/// collected.
pub proof fn lemma_hooks_in_filters(hooks: Seq<Hook>, phase: Phase, name: Seq<char>)
    ensures
        forall|k: int|
            0 <= k < hooks_in(hooks, phase, name).len() ==> {
                let h = #[trigger] hooks_in(hooks, phase, name)[k];
                hooks.contains(h) && in_phase(h, phase) && for_profile(h, name)
            },
        forall|i: int|
            0 <= i < hooks.len() && in_phase(#[trigger] hooks[i], phase) && for_profile(hooks[i], name)
                ==> hooks_in(hooks, phase, name).contains(hooks[i]),
    decreases hooks.len(),
{
    if hooks.len() > 0 {
        let init = hooks.drop_last();
        let h = hooks.last();
        lemma_hooks_in_filters(init, phase, name);
        let before = hooks_in(init, phase, name);
        let all = hooks_in(hooks, phase, name);
        assert(runs_in(h, phase, name) <==> in_phase(h, phase) && for_profile(h, name)) by {
            if h.profiles is Some {
                let p = h.profiles->0;
                assert(h.profiles == Some(p));
            }
        }
        assert forall|k: int| 0 <= k < all.len() implies {
            let g = #[trigger] all[k];
            hooks.contains(g) && in_phase(g, phase) && for_profile(g, name)
        } by {
            if k < before.len() {
                assert(all[k] == before[k]);
                let j = choose|j: int| 0 <= j < init.len() && init[j] == before[k];
                assert(hooks[j] == init[j]);
            } else {
                assert(all[k] == h);
                assert(hooks[hooks.len() - 1] == h);
            }
        }
        assert forall|i: int|
            0 <= i < hooks.len() && in_phase(#[trigger] hooks[i], phase) && for_profile(hooks[i], name)
                implies all.contains(hooks[i]) by {
            if i < init.len() {
                assert(init[i] == hooks[i]);
                let k = choose|k: int| 0 <= k < before.len() && before[k] == init[i];
                assert(all[k] == before[k]);
            } else {
                assert(hooks[i] == h);
                assert(all[all.len() - 1] == h);
            }
        }
    }
}

} // verus!
