//! Projects of a workspace.
use vstd::prelude::*;

use crate::path::{path_has_prefix, path_starts_with};
use crate::split::views;
use crate::search::{first_match, lemma_first_match, lemma_first_match_at};
use crate::text::str_eq;

verus! {

/// A member of a workspace: its key and the host name it is served at.
#[derive(Debug, Clone)]
pub struct Member {
    pub key: String,
    pub hostname: String,
}

impl Member {
    /// The member `key` served at `hostname`.
    pub fn new(key: String, hostname: String) -> (r: Self)
        ensures
            r.key == key,
            r.hostname == hostname,
    {
        Member { key, hostname }
    }
}

/// The result of rendering a project: the location of each sitemap made.
#[derive(Debug, Clone)]
pub struct ProjectResult {
    pub sitemaps: Vec<String>,
}

impl Default for ProjectResult {
    fn default() -> (r: Self)
        ensures
            r.sitemaps@.len() == 0,
    {
        ProjectResult { sitemaps: Vec::new() }
    }
}


/// An error of a workspace.
#[derive(Debug, Clone)]
pub enum WorkspaceError {
    /// A path that lies outside the site source.
    OutsideSourceTree(String),
    /// Two members with one host name: the host name and the indices of
    /// the two members.
    DuplicateHostName(String, usize, usize),
    /// A project that defines hooks, built without the capability to run
    /// commands: the project's host name.
    NoExecCapability(String),
    /// A custom profile that the settings do not define: its name.
    NoProfile(String),
    /// A custom profile that itself names a profile to build.
    NoProfileInProfile,
}

/// Whether a build with the member filters `filters` builds the member
/// named `name`: every member when there is no filter, and a project that
/// is not a member always.
pub open spec fn selected(filters: Seq<String>, name: Option<Seq<char>>) -> bool {
    match name {
        Some(n) => filters.len() == 0 || views(filters).contains(n),
        None => true,
    }
}

/// Whether a build with the member filters `filters` builds the member
/// named `name`.
pub fn is_selected(filters: &Vec<String>, name: Option<&str>) -> (r: bool)
    ensures
        r == selected(
            filters@,
            match name {
                Some(n) => Some(n@),
                None => None,
            },
        ),
{
    match name {
        None => true,
        Some(n) => {
            if filters.len() == 0 {
                return true;
            }
            let mut i: usize = 0;
            while i < filters.len()
                invariant
                    name matches Some(m) && m@ == n@,
                    i <= filters@.len(),
                    forall|k: int| 0 <= k < i ==> (#[trigger] filters@[k])@ != n@,
                decreases filters@.len() - i,
            {
                if str_eq(filters[i].as_str(), n) {
                    proof {
                        assert(views(filters@)[i as int] == n@);
                    }
                    return true;
                }
                i = i + 1;
            }
            proof {
                if views(filters@).contains(n@) {
                    let k = choose|k: int| 0 <= k < views(filters@).len() && views(filters@)[k] == n@;
                    assert(filters@[k]@ == n@);
                }
            }
            false
        },
    }
}

/// The hosts with the host name `h`.
pub open spec fn same_host(h: Seq<char>) -> spec_fn(String) -> bool {
    |x: String| x@ == h
}

/// The first member before member `j` with the host name of member `j`.
pub open spec fn earlier(hosts: Seq<String>, j: int) -> Option<int> {
    first_match(hosts.take(j), same_host(hosts[j]@))
}

/// The first member whose host name an earlier member has, with the first
/// such earlier member: the earlier and the later index.
pub open spec fn first_duplicate(hosts: Seq<String>) -> Option<(int, int)>
    decreases hosts.len(),
{
    if hosts.len() == 0 {
        None
    } else {
        match first_duplicate(hosts.drop_last()) {
            Some(d) => Some(d),
            None => match earlier(hosts, hosts.len() - 1) {
                Some(i) => Some((i, hosts.len() - 1)),
                None => None,
            },
        }
    }
}

/// The first member before member `j` with the host name of member `j`.
fn find_earlier(hosts: &Vec<String>, j: usize) -> (r: Option<usize>)
    requires
        j < hosts@.len(),
    ensures
        match earlier(hosts@, j as int) {
            Some(i) => r == Some(i as usize) && 0 <= i < j,
            None => r is None,
        },
{
    let ghost p = same_host(hosts@[j as int]@);
    let ghost t = hosts@.take(j as int);
    let mut i: usize = 0;
    while i < j
        invariant
            j < hosts@.len(),
            t == hosts@.take(j as int),
            p == same_host(hosts@[j as int]@),
            i <= j,
            forall|k: int| 0 <= k < i ==> !p(#[trigger] t[k]),
        decreases j - i,
    {
        proof {
            assert(t[i as int] == hosts@[i as int]);
        }
        if str_eq(hosts[i].as_str(), hosts[j].as_str()) {
            proof {
                lemma_first_match_at(t, p, i as int);
            }
            return Some(i);
        }
        i = i + 1;
    }
    proof {
        lemma_first_match(t, p);
    }
    None
}

/// Check that no two members of a workspace share a host name: the error
/// names the first member whose host name an earlier one has, and the
/// first such earlier member.
pub fn check_host_names(hosts: &Vec<String>) -> (r: Result<(), WorkspaceError>)
    ensures
        match first_duplicate(hosts@) {
            Some((i, j)) => (r matches Err(WorkspaceError::DuplicateHostName(h, a, b)) && h@
                == hosts@[j]@ && a == i && b == j),
            None => r is Ok,
        },
{
    let mut j: usize = 0;
    while j < hosts.len()
        invariant
            j <= hosts@.len(),
            first_duplicate(hosts@.take(j as int)) is None,
        decreases hosts@.len() - j,
    {
        let ghost t = hosts@.take(j + 1);
        proof {
            assert(t.drop_last() =~= hosts@.take(j as int));
            assert(t.take(j as int) =~= hosts@.take(j as int));
            assert(t[j as int] == hosts@[j as int]);
            assert(earlier(t, j as int) == earlier(hosts@, j as int));
        }
        match find_earlier(hosts, j) {
            Some(i) => {
                proof {
                    assert(t.len() == j + 1);
                    assert(earlier(t, t.len() - 1) == Some(i as int));
                    assert(first_duplicate(t) == Some((i as int, j as int)));
                    lemma_first_duplicate_prefix(hosts@, j as int + 1);
                }
                return Err(WorkspaceError::DuplicateHostName(hosts[j].clone(), i, j));
            },
            None => {},
        }
        j = j + 1;
    }
    proof {
        assert(hosts@.take(hosts@.len() as int) =~= hosts@);
    }
    Ok(())
}

/// A duplicate found in a prefix is the first duplicate of the whole list.
proof fn lemma_first_duplicate_prefix(hosts: Seq<String>, k: int)
    requires
        0 <= k <= hosts.len(),
        first_duplicate(hosts.take(k)) is Some,
    ensures
        first_duplicate(hosts) == first_duplicate(hosts.take(k)),
    decreases hosts.len() - k,
{
    if k < hosts.len() {
        assert(hosts.take(k + 1).drop_last() =~= hosts.take(k));
        lemma_first_duplicate_prefix(hosts, k + 1);
    } else {
        assert(hosts.take(k) =~= hosts);
    }
}

/// Check that the paths lie within the site source: the error names the
/// first that does not.
pub fn verify(source: &str, paths: &Vec<String>) -> (r: Result<(), WorkspaceError>)
    ensures
        r is Ok <==> forall|k: int| 0 <= k < paths@.len() ==> path_starts_with((#[trigger] paths@[k])@, source@),
        r matches Err(WorkspaceError::OutsideSourceTree(p)) ==> exists|k: int|
            0 <= k < paths@.len() && p@ == (#[trigger] paths@[k])@ && !path_starts_with(paths@[k]@, source@)
                && forall|m: int| 0 <= m < k ==> path_starts_with((#[trigger] paths@[m])@, source@),
        r matches Err(e) ==> e is OutsideSourceTree,
{
    let mut i: usize = 0;
    while i < paths.len()
        invariant
            i <= paths@.len(),
            forall|k: int| 0 <= k < i ==> path_starts_with((#[trigger] paths@[k])@, source@),
        decreases paths@.len() - i,
    {
        if !path_has_prefix(paths[i].as_str(), source) {
            let p = paths[i].clone();
            proof {
                assert(p@ == paths@[i as int]@);
            }
            return Err(WorkspaceError::OutsideSourceTree(p));
        }
        i = i + 1;
    }
    Ok(())
}


/// Refuse to build a project that defines hooks when commands may not be
/// run; the error names the project's host.
pub fn check_exec(has_hooks: bool, can_exec: bool, host: &str) -> (r: Result<(), WorkspaceError>)
    ensures
        r is Err <==> has_hooks && !can_exec,
        r matches Err(e) ==> (e matches WorkspaceError::NoExecCapability(h) && h@ == host@),
{
    if has_hooks && !can_exec {
        return Err(WorkspaceError::NoExecCapability(host.to_owned()));
    }
    Ok(())
}

/// The profile a build lays over the base build settings: none, one of the
/// three built in, or the custom profile at an index of the settings'
/// profiles.
#[derive(Debug, Clone, Copy, PartialEq, Eq, Structural)]
pub enum ProfileChoice {
    Base,
    Debug,
    Release,
    Dist,
    Custom(usize),
}

/// A custom profile of the settings: its name, and whether it names a
/// profile to build itself.
#[derive(Debug, Clone)]
pub struct ProfileEntry {
    pub name: String,
    pub names_profile: bool,
}

/// The built-in profile named `name`, if any.
pub open spec fn builtin_profile(name: Seq<char>) -> Option<ProfileChoice> {
    if name == "debug"@ {
        Some(ProfileChoice::Debug)
    } else if name == "release"@ {
        Some(ProfileChoice::Release)
    } else if name == "dist"@ {
        Some(ProfileChoice::Dist)
    } else {
        None
    }
}

/// No two profiles of the settings share a name.
pub open spec fn distinct_profiles(profiles: Seq<ProfileEntry>) -> bool {
    forall|i: int, j: int|
        0 <= i < profiles.len() && 0 <= j < profiles.len() && i != j ==> (#[trigger] profiles[i]).name@
            != (#[trigger] profiles[j]).name@
}

/// What choosing the custom profile `n` gives: the error that there is no
/// such profile, the error that it names a profile itself, or its index.
pub open spec fn custom_profile(
    profiles: Seq<ProfileEntry>,
    n: Seq<char>,
    r: Result<ProfileChoice, WorkspaceError>,
) -> bool {
    &&& (forall|i: int| 0 <= i < profiles.len() ==> (#[trigger] profiles[i]).name@ != n) ==> (r matches Err(
        WorkspaceError::NoProfile(m),
    ) && m@ == n)
    &&& forall|i: int|
        0 <= i < profiles.len() && (#[trigger] profiles[i]).name@ == n ==> if profiles[i].names_profile {
            r matches Err(WorkspaceError::NoProfileInProfile)
        } else {
            r == Ok::<ProfileChoice, WorkspaceError>(ProfileChoice::Custom(i as usize))
        }
}

/// The profile a build with the profile name `name` lays over the base
/// settings: none without a name, the built-in profile of that name, else
/// the custom profile of that name, which must exist and must not name a
/// profile itself.
pub fn choose_profile(name: Option<&str>, profiles: &Vec<ProfileEntry>) -> (r: Result<
    ProfileChoice,
    WorkspaceError,
>)
    requires
        distinct_profiles(profiles@),
    ensures
        match name {
            None => r == Ok::<ProfileChoice, WorkspaceError>(ProfileChoice::Base),
            Some(n) => match builtin_profile(n@) {
                Some(b) => r == Ok::<ProfileChoice, WorkspaceError>(b),
                None => custom_profile(profiles@, n@, r),
            },
        },
{
    let n = match name {
        None => {
            return Ok(ProfileChoice::Base);
        },
        Some(n) => n,
    };
    if str_eq(n, "debug") {
        return Ok(ProfileChoice::Debug);
    }
    if str_eq(n, "release") {
        return Ok(ProfileChoice::Release);
    }
    if str_eq(n, "dist") {
        return Ok(ProfileChoice::Dist);
    }
    let mut i: usize = 0;
    while i < profiles.len()
        invariant
            name == Some(n),
            builtin_profile(n@) is None,
            distinct_profiles(profiles@),
            i <= profiles@.len(),
            forall|k: int| 0 <= k < i ==> (#[trigger] profiles@[k]).name@ != n@,
        decreases profiles@.len() - i,
    {
        if str_eq(profiles[i].name.as_str(), n) {
            if profiles[i].names_profile {
                return Err(WorkspaceError::NoProfileInProfile);
            }
            return Ok(ProfileChoice::Custom(i));
        }
        i = i + 1;
    }
    Err(WorkspaceError::NoProfile(n.to_owned()))
}

} // verus!
