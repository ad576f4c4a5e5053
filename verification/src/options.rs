//! Build options: the paths a build is limited to.
use vstd::prelude::*;

use crate::path::{is_absolute, join_path, path_has_prefix, path_joined, path_starts_with};
use crate::text::{trim_end_matches, trimmed_end};
use vstd::string::*;
use crate::split::views;

verus! {

/// A path of a build profile under the site source: a path that does not
/// start with `source` is joined to it.
pub open spec fn prefixed(source: Seq<char>, p: Seq<char>) -> Seq<char> {
    if !path_starts_with(p, source) {
        path_joined(source, p)
    } else {
        p
    }
}

/// The paths of a build profile, each put under `source` unless it is
/// already there.
pub fn prefix(source: &str, paths: &Vec<String>) -> (r: Vec<String>)
    ensures
        views(r@) == views(paths@).map_values(|p: Seq<char>| prefixed(source@, p)),
{
    let mut r: Vec<String> = Vec::new();
    let mut i: usize = 0;
    while i < paths.len()
        invariant
            i <= paths@.len(),
            views(r@) == views(paths@.take(i as int)).map_values(|p: Seq<char>| prefixed(source@, p)),
        decreases paths@.len() - i,
    {
        let p = paths[i].as_str();
        let q = if !path_has_prefix(p, source) {
            join_path(source, p)
        } else {
            p.to_owned()
        };
        proof {
            crate::split::lemma_views_push(r@, q);
        }
        r.push(q);
        proof {
            assert(views(r@) =~= views(paths@.take(i + 1)).map_values(|p: Seq<char>| prefixed(source@, p)));
        }
        i = i + 1;
    }
    proof {
        assert(paths@.take(paths@.len() as int) =~= paths@);
    }
    r
}


/// An error of the options of a build profile.
#[derive(Debug, Clone)]
pub enum OptionsError {
    /// The source directory is an absolute path.
    SourceAbsolute(String),
    /// The target directory is an absolute path.
    TargetAbsolute(String),
    /// The profile name is an absolute path.
    ProfileNameAbsolute(String),
}

/// The directories of a build: the site source under the project, and the
/// build output, the profile's directory under the project's target.
pub open spec fn build_dirs(project: Seq<char>, source: Seq<char>, target: Seq<char>, name: Seq<char>) -> (Seq<char>, Seq<char>) {
    (path_joined(project, source), path_joined(path_joined(project, target), name))
}

/// The directories of a build with profile `name`, whose source and target
/// are given relative to the project: an error names the first of the
/// source, the target and the profile name that is absolute.
pub fn build_paths(project: &str, source: &str, target: &str, name: &str) -> (r: Result<(String, String), OptionsError>)
    ensures
        is_absolute(source@) ==> (r matches Err(OptionsError::SourceAbsolute(s)) && s@ == source@),
        !is_absolute(source@) && is_absolute(target@) ==> (r matches Err(OptionsError::TargetAbsolute(s)) && s@ == target@),
        !is_absolute(source@) && !is_absolute(target@) && is_absolute(name@) ==> (r matches Err(OptionsError::ProfileNameAbsolute(s)) && s@ == name@),
        !is_absolute(source@) && !is_absolute(target@) && !is_absolute(name@) ==> (r matches Ok((s, b)) && (s@, b@) == build_dirs(project@, source@, target@, name@)),
{
    if source.unicode_len() > 0 && source.get_char(0) == '/' {
        return Err(OptionsError::SourceAbsolute(source.to_owned()));
    }
    if target.unicode_len() > 0 && target.get_char(0) == '/' {
        return Err(OptionsError::TargetAbsolute(target.to_owned()));
    }
    if name.unicode_len() > 0 && name.get_char(0) == '/' {
        return Err(OptionsError::ProfileNameAbsolute(name.to_owned()));
    }
    let s = join_path(project, source);
    let t = join_path(project, target);
    let b = join_path(t.as_str(), name);
    Ok((s, b))
}

/// Whether a build is forced: as asked, and always when it is live and
/// incremental.
pub open spec fn forced(live: bool, incremental: bool, force: Option<bool>) -> Option<bool> {
    if live && incremental && force != Some(true) {
        Some(true)
    } else {
        force
    }
}

/// Whether a build is forced: a live build overrides incremental builds.
pub fn force_flag(live: bool, incremental: bool, force: Option<bool>) -> (r: Option<bool>)
    ensures
        r == forced(live, incremental, force),
{
    if live && incremental && force != Some(true) {
        Some(true)
    } else {
        force
    }
}

/// The URL a workspace member is linked at: schemeless from its host name
/// in a release, else its development URL, each with a trailing `/`.
pub open spec fn member_url_of(hostname: Seq<char>, release: bool, dev_url: Seq<char>) -> Seq<char> {
    if release {
        "//"@ + trimmed_end(hostname, "/"@) + "/"@
    } else {
        dev_url + "/"@
    }
}

/// The URL a workspace member with host name `hostname` is linked at;
/// `dev_url` is its URL on the development server.
pub fn member_url(hostname: &str, release: bool, dev_url: &str) -> (r: String)
    ensures
        r@ == member_url_of(hostname@, release, dev_url@),
{
    if release {
        let mut u = String::from_str("//");
        let h = trim_end_matches(hostname, "/");
        u.append(h.as_str());
        u.append("/");
        u
    } else {
        let mut u = dev_url.to_owned();
        u.append("/");
        u
    }
}

} // verus!
