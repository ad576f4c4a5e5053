//! Live reload invalidation: the kind of each changed source file, taken
//! from where it lies in the site, and the sets of changes an update works
//! through.
use vstd::prelude::*;
use vstd::string::*;

use crate::path::{components, cur_component, is_absolute, join_path, path_components, path_has_prefix, path_joined, path_starts_with, root_component, same_path, strip_prefix, stripped};
use crate::search::{first_match, lemma_first_match, lemma_first_match_at};
use crate::text::{str_eq, trim_start_matches, trimmed_start};

verus! {

/// Where the site keeps each kind of source file, as canonical paths, and
/// which changed files each watched hook matches.
pub struct Locations {
    /// The site configuration file.
    pub config_file: String,
    /// The layouts directory.
    pub layouts: String,
    /// The partials directory.
    pub partials: String,
    /// The includes directory, where the site has one.
    pub includes: Option<String>,
    /// The build output directory.
    pub build_output: String,
    /// The assets directory.
    pub assets: String,
    /// The directory that holds the collections.
    pub collections: String,
    /// Each collection's key and the directory of its documents.
    pub collection_sources: Vec<(String, String)>,
    /// The file extension of templates.
    pub template_extension: String,
    /// For each watched hook, the changed files it matches.
    pub hooks: Vec<Vec<String>>,
}

/// The kind of a changed file.
#[derive(Debug, Clone, Copy, PartialEq, Eq, Structural)]
pub enum Target {
    /// A file a watched hook matches: the hook's index.
    Hook(usize),
    /// The configuration file or a build product.
    Ignore,
    Layout,
    Partial,
    Include,
    Template,
    Asset,
    /// A document of a collection: the collection's index.
    Collection(usize),
    /// A file in the collections directory that no collection holds.
    Unlisted,
    Page,
    File,
}

/// Whether `files` holds a path with the components of `path`.
pub open spec fn lists(files: Seq<String>, path: Seq<char>) -> bool {
    exists|j: int| 0 <= j < files.len() && components(#[trigger] files[j]@) == components(path)
}

/// The hooks that match `path`.
pub open spec fn hook_lists(path: Seq<char>) -> spec_fn(Vec<String>) -> bool {
    |files: Vec<String>| lists(files@, path)
}

/// The collections whose directory holds `path`.
pub open spec fn source_holds(path: Seq<char>) -> spec_fn((String, String)) -> bool {
    |e: (String, String)| path_starts_with(path, e.1@)
}

/// The component that stands for a parent directory.
pub open spec fn parent_component() -> Seq<char> {
    seq!['.', '.']
}

/// The last component of a path when it names a file or directory.
pub open spec fn file_name(path: Seq<char>) -> Option<Seq<char>> {
    let c = components(path);
    if c.len() > 0 && c.last() != root_component() && c.last() != cur_component() && c.last()
        != parent_component() {
        Some(c.last())
    } else {
        None
    }
}

/// The index of the last `.` in `s`, or -1.
pub open spec fn last_dot(s: Seq<char>) -> int
    decreases s.len(),
{
    if s.len() == 0 {
        -1
    } else if s.last() == '.' {
        s.len() - 1
    } else {
        last_dot(s.drop_last())
    }
}

/// The extension of a path: what follows the last `.` of its file name,
/// where that `.` is not the name's first character.
pub open spec fn extension(path: Seq<char>) -> Option<Seq<char>> {
    match file_name(path) {
        Some(n) => {
            let i = last_dot(n);
            if i <= 0 {
                None
            } else {
                Some(n.subrange(i + 1, n.len() as int))
            }
        },
        None => None,
    }
}

/// The kind of the changed file `path`: the first watched hook that matches
/// it; else the configuration file is ignored; else by the first of the
/// layouts, partials and includes directories that holds it; else a template
/// by its extension; else an ignored build product; else an asset; else a
/// file in the collections directory, by the first collection that holds
/// it; else a page or another file as `is_page` says.
pub open spec fn target_of(loc: Locations, path: Seq<char>, is_page: bool) -> Target {
    match first_match(loc.hooks@, hook_lists(path)) {
        Some(i) => Target::Hook(i as usize),
        None => if components(path) == components(loc.config_file@) {
            Target::Ignore
        } else if path_starts_with(path, loc.layouts@) {
            Target::Layout
        } else if path_starts_with(path, loc.partials@) {
            Target::Partial
        } else if (match loc.includes {
            Some(d) => path_starts_with(path, d@),
            None => false,
        }) {
            Target::Include
        } else if extension(path) == Some(loc.template_extension@) {
            Target::Template
        } else if path_starts_with(path, loc.build_output@) {
            Target::Ignore
        } else if path_starts_with(path, loc.assets@) {
            Target::Asset
        } else if path_starts_with(path, loc.collections@) {
            match first_match(loc.collection_sources@, source_holds(path)) {
                Some(i) => Target::Collection(i as usize),
                None => Target::Unlisted,
            }
        } else if is_page {
            Target::Page
        } else {
            Target::File
        },
    }
}

/// The last `.` of `s` is at `i` when `s[i]` is one (or `i` is -1) and no
/// later character is.
pub proof fn lemma_last_dot(s: Seq<char>, i: int)
    requires
        -1 <= i < s.len(),
        i >= 0 ==> s[i] == '.',
        forall|k: int| i < k < s.len() ==> s[k] != '.',
    ensures
        last_dot(s) == i,
    decreases s.len(),
{
    if s.len() > 0 {
        if i == s.len() - 1 {
        } else {
            assert(s.last() == s[s.len() - 1]);
            let init = s.drop_last();
            assert forall|k: int| i < k < init.len() implies init[k] != '.' by {
                assert(init[k] == s[k]);
            }
            if i >= 0 {
                assert(init[i] == s[i]);
            }
            lemma_last_dot(init, i);
        }
    }
}

/// The extension of `path`.
pub fn extension_of(path: &str) -> (r: Option<String>)
    ensures
        match r {
            Some(e) => extension(path@) == Some(e@),
            None => extension(path@) is None,
        },
{
    let comps = path_components(path);
    let n = comps.len();
    if n == 0 {
        return None;
    }
    let name = comps[n - 1].as_str();
    proof {
        reveal_strlit("/");
        reveal_strlit(".");
        reveal_strlit("..");
        assert("/"@ =~= root_component());
        assert("."@ =~= cur_component());
        assert(".."@ =~= parent_component());
        assert(components(path@).last() == name@);
    }
    if str_eq(name, "/") || str_eq(name, ".") || str_eq(name, "..") {
        return None;
    }
    let len = name.unicode_len();
    let mut i: usize = len;
    while i > 0 && name.get_char(i - 1) != '.'
        invariant
            i <= len,
            len == name@.len(),
            forall|k: int| i <= k < len ==> name@[k] != '.',
        decreases i,
    {
        i = i - 1;
    }
    proof {
        lemma_last_dot(name@, i - 1);
    }
    if i <= 1 {
        return None;
    }
    let e = name.substring_char(i, len).to_owned();
    Some(e)
}

/// Whether `files` holds a path with the components of `path`.
pub fn contains_path(files: &Vec<String>, path: &str) -> (r: bool)
    ensures
        r == lists(files@, path@),
{
    let mut j: usize = 0;
    while j < files.len()
        invariant
            j <= files@.len(),
            forall|k: int| 0 <= k < j ==> components(#[trigger] files@[k]@) != components(path@),
        decreases files@.len() - j,
    {
        if same_path(files[j].as_str(), path) {
            return true;
        }
        j = j + 1;
    }
    false
}

/// The first watched hook that matches `path`.
fn first_hook(hooks: &Vec<Vec<String>>, path: &str) -> (r: Option<usize>)
    ensures
        match first_match(hooks@, hook_lists(path@)) {
            Some(i) => r == Some(i as usize),
            None => r is None,
        },
{
    let ghost p = hook_lists(path@);
    let mut i: usize = 0;
    while i < hooks.len()
        invariant
            p == hook_lists(path@),
            i <= hooks@.len(),
            forall|k: int| 0 <= k < i ==> !p(#[trigger] hooks@[k]),
        decreases hooks@.len() - i,
    {
        if contains_path(&hooks[i], path) {
            proof {
                lemma_first_match_at(hooks@, p, i as int);
            }
            return Some(i);
        }
        i = i + 1;
    }
    proof {
        lemma_first_match(hooks@, p);
    }
    None
}

/// The first collection whose directory holds `path`.
fn first_source(sources: &Vec<(String, String)>, path: &str) -> (r: Option<usize>)
    ensures
        match first_match(sources@, source_holds(path@)) {
            Some(i) => r == Some(i as usize),
            None => r is None,
        },
{
    let ghost p = source_holds(path@);
    let mut i: usize = 0;
    while i < sources.len()
        invariant
            p == source_holds(path@),
            i <= sources@.len(),
            forall|k: int| 0 <= k < i ==> !p(#[trigger] sources@[k]),
        decreases sources@.len() - i,
    {
        if path_has_prefix(path, sources[i].1.as_str()) {
            proof {
                lemma_first_match_at(sources@, p, i as int);
            }
            return Some(i);
        }
        i = i + 1;
    }
    proof {
        lemma_first_match(sources@, p);
    }
    None
}

/// The kind of the changed file `path`.
pub fn target(loc: &Locations, path: &str, is_page: bool) -> (t: Target)
    ensures
        t == target_of(*loc, path@, is_page),
        t matches Target::Collection(k) ==> k < loc.collection_sources@.len(),
        t matches Target::Hook(h) ==> h < loc.hooks@.len(),
{
    proof {
        lemma_first_match(loc.hooks@, hook_lists(path@));
        lemma_first_match(loc.collection_sources@, source_holds(path@));
    }
    if let Some(i) = first_hook(&loc.hooks, path) {
        return Target::Hook(i);
    }
    if same_path(path, loc.config_file.as_str()) {
        return Target::Ignore;
    }
    if path_has_prefix(path, loc.layouts.as_str()) {
        return Target::Layout;
    }
    if path_has_prefix(path, loc.partials.as_str()) {
        return Target::Partial;
    }
    if let Some(d) = &loc.includes {
        if path_has_prefix(path, d.as_str()) {
            return Target::Include;
        }
    }
    let is_template = match extension_of(path) {
        Some(e) => str_eq(e.as_str(), loc.template_extension.as_str()),
        None => false,
    };
    if is_template {
        return Target::Template;
    }
    if path_has_prefix(path, loc.build_output.as_str()) {
        return Target::Ignore;
    }
    if path_has_prefix(path, loc.assets.as_str()) {
        return Target::Asset;
    }
    if path_has_prefix(path, loc.collections.as_str()) {
        return match first_source(&loc.collection_sources, path) {
            Some(i) => Target::Collection(i),
            None => Target::Unlisted,
        };
    }
    if is_page {
        Target::Page
    } else {
        Target::File
    }
}


/// The path sets of the vector: each path taken by its components.
pub open spec fn path_set(v: Seq<String>) -> Set<Seq<Seq<char>>> {
    Set::new(|c: Seq<Seq<char>>| exists|i: int| 0 <= i < v.len() && components(#[trigger] v[i]@) == c)
}

/// No two paths of the vector have the same components.
pub open spec fn distinct(v: Seq<String>) -> bool {
    forall|i: int, j: int|
        0 <= i < v.len() && 0 <= j < v.len() && i != j ==> components(#[trigger] v[i]@)
            != components(#[trigger] v[j]@)
}

/// The hook and file pairs of the vector, each file taken by its components.
pub open spec fn hook_set(v: Seq<(usize, String)>) -> Set<(usize, Seq<Seq<char>>)> {
    Set::new(
        |e: (usize, Seq<Seq<char>>)|
            exists|i: int| 0 <= i < v.len() && (#[trigger] v[i]).0 == e.0 && components(v[i].1@) == e.1,
    )
}

/// No two pairs of the vector are equal.
pub open spec fn distinct_hooks(v: Seq<(usize, String)>) -> bool {
    forall|i: int, j: int|
        0 <= i < v.len() && 0 <= j < v.len() && i != j ==> (#[trigger] v[i]).0 != (#[trigger] v[j]).0
            || components(v[i].1@) != components(v[j].1@)
}

/// The collection key and file pairs of the vector, each file taken by its
/// components.
pub open spec fn keyed_set(v: Seq<(String, String)>) -> Set<(Seq<char>, Seq<Seq<char>>)> {
    Set::new(
        |e: (Seq<char>, Seq<Seq<char>>)|
            exists|i: int| 0 <= i < v.len() && (#[trigger] v[i]).0@ == e.0 && components(v[i].1@) == e.1,
    )
}

/// No two pairs of the vector are equal.
pub open spec fn distinct_keyed(v: Seq<(String, String)>) -> bool {
    forall|i: int, j: int|
        0 <= i < v.len() && 0 <= j < v.len() && i != j ==> (#[trigger] v[i]).0@ != (#[trigger] v[j]).0@
            || components(v[i].1@) != components(v[j].1@)
}

/// Add `p` to a set of paths.
pub fn add_path(v: &mut Vec<String>, p: &str)
    requires
        distinct(old(v)@),
    ensures
        distinct(final(v)@),
        path_set(final(v)@) == path_set(old(v)@).insert(components(p@)),
{
    let mut i: usize = 0;
    while i < v.len()
        invariant
            distinct(v@),
            i <= v@.len(),
            forall|k: int| 0 <= k < i ==> components(#[trigger] v@[k]@) != components(p@),
        decreases v@.len() - i,
    {
        if same_path(v[i].as_str(), p) {
            proof {
                assert(path_set(v@) =~= path_set(v@).insert(components(p@)));
            }
            return;
        }
        i = i + 1;
    }
    let ghost before = v@;
    v.push(p.to_owned());
    proof {
        assert forall|a: int, b: int|
            0 <= a < v@.len() && 0 <= b < v@.len() && a != b implies components(#[trigger] v@[a]@)
            != components(#[trigger] v@[b]@) by {
            if a < before.len() {
                assert(v@[a] == before[a]);
            }
            if b < before.len() {
                assert(v@[b] == before[b]);
            }
        }
        assert forall|c: Seq<Seq<char>>| path_set(v@).contains(c) == path_set(before).insert(
            components(p@),
        ).contains(c) by {
            if path_set(before).contains(c) {
                let k = choose|k: int| 0 <= k < before.len() && components(#[trigger] before[k]@) == c;
                assert(v@[k] == before[k]);
            }
            if c == components(p@) {
                assert(components(v@[before.len() as int]@) == c);
            }
            if path_set(v@).contains(c) {
                let k = choose|k: int| 0 <= k < v@.len() && components(#[trigger] v@[k]@) == c;
                if k < before.len() {
                    assert(v@[k] == before[k]);
                }
            }
        }
        assert(path_set(v@) =~= path_set(before).insert(components(p@)));
    }
}

/// Add the pair of hook `h` and file `p` to a set of pairs.
pub fn add_hook(v: &mut Vec<(usize, String)>, h: usize, p: &str)
    requires
        distinct_hooks(old(v)@),
    ensures
        distinct_hooks(final(v)@),
        hook_set(final(v)@) == hook_set(old(v)@).insert((h, components(p@))),
{
    let mut i: usize = 0;
    while i < v.len()
        invariant
            distinct_hooks(v@),
            i <= v@.len(),
            forall|k: int|
                0 <= k < i ==> (#[trigger] v@[k]).0 != h || components(v@[k].1@) != components(p@),
        decreases v@.len() - i,
    {
        if v[i].0 == h && same_path(v[i].1.as_str(), p) {
            proof {
                assert(hook_set(v@) =~= hook_set(v@).insert((h, components(p@))));
            }
            return;
        }
        i = i + 1;
    }
    let ghost before = v@;
    v.push((h, p.to_owned()));
    proof {
        assert forall|a: int, b: int|
            0 <= a < v@.len() && 0 <= b < v@.len() && a != b implies (#[trigger] v@[a]).0
            != (#[trigger] v@[b]).0 || components(v@[a].1@) != components(v@[b].1@) by {
            if a < before.len() {
                assert(v@[a] == before[a]);
            }
            if b < before.len() {
                assert(v@[b] == before[b]);
            }
        }
        let e0 = (h, components(p@));
        assert forall|e: (usize, Seq<Seq<char>>)| hook_set(v@).contains(e) == hook_set(before).insert(
            e0,
        ).contains(e) by {
            if hook_set(before).contains(e) {
                let k = choose|k: int|
                    0 <= k < before.len() && (#[trigger] before[k]).0 == e.0 && components(
                        before[k].1@,
                    ) == e.1;
                assert(v@[k] == before[k]);
            }
            if e == e0 {
                assert(v@[before.len() as int].0 == h && v@[before.len() as int].1@ == p@);
            }
            if hook_set(v@).contains(e) {
                let k = choose|k: int|
                    0 <= k < v@.len() && (#[trigger] v@[k]).0 == e.0 && components(v@[k].1@) == e.1;
                if k < before.len() {
                    assert(v@[k] == before[k]);
                }
            }
        }
        assert(hook_set(v@) =~= hook_set(before).insert(e0));
    }
}

/// Add the pair of collection key `key` and file `p` to a set of pairs.
pub fn add_keyed(v: &mut Vec<(String, String)>, key: &str, p: &str)
    requires
        distinct_keyed(old(v)@),
    ensures
        distinct_keyed(final(v)@),
        keyed_set(final(v)@) == keyed_set(old(v)@).insert((key@, components(p@))),
{
    let mut i: usize = 0;
    while i < v.len()
        invariant
            distinct_keyed(v@),
            i <= v@.len(),
            forall|k: int|
                0 <= k < i ==> (#[trigger] v@[k]).0@ != key@ || components(v@[k].1@) != components(
                    p@,
                ),
        decreases v@.len() - i,
    {
        if str_eq(v[i].0.as_str(), key) && same_path(v[i].1.as_str(), p) {
            proof {
                assert(keyed_set(v@) =~= keyed_set(v@).insert((key@, components(p@))));
            }
            return;
        }
        i = i + 1;
    }
    let ghost before = v@;
    v.push((key.to_owned(), p.to_owned()));
    proof {
        assert forall|a: int, b: int|
            0 <= a < v@.len() && 0 <= b < v@.len() && a != b implies (#[trigger] v@[a]).0@
            != (#[trigger] v@[b]).0@ || components(v@[a].1@) != components(v@[b].1@) by {
            if a < before.len() {
                assert(v@[a] == before[a]);
            }
            if b < before.len() {
                assert(v@[b] == before[b]);
            }
        }
        let e0 = (key@, components(p@));
        assert forall|e: (Seq<char>, Seq<Seq<char>>)| keyed_set(v@).contains(e) == keyed_set(
            before,
        ).insert(e0).contains(e) by {
            if keyed_set(before).contains(e) {
                let k = choose|k: int|
                    0 <= k < before.len() && (#[trigger] before[k]).0@ == e.0 && components(
                        before[k].1@,
                    ) == e.1;
                assert(v@[k] == before[k]);
            }
            if e == e0 {
                assert(v@[before.len() as int].0@ == key@);
                assert(v@[before.len() as int].1@ == p@);
            }
            if keyed_set(v@).contains(e) {
                let k = choose|k: int|
                    0 <= k < v@.len() && (#[trigger] v@[k]).0@ == e.0 && components(v@[k].1@) == e.1;
                if k < before.len() {
                    assert(v@[k] == before[k]);
                }
            }
        }
        assert(keyed_set(v@) =~= keyed_set(before).insert(e0));
    }
}


/// A changed file to render again.
#[derive(Debug, Clone)]
pub enum Kind {
    Page(String),
    File(String),
}

/// Whether a change is a page, and its path.
pub open spec fn kind_view(k: Kind) -> (bool, Seq<char>) {
    match k {
        Kind::Page(p) => (true, p@),
        Kind::File(p) => (false, p@),
    }
}

/// The views of a list of changes.
pub open spec fn kinds_view(v: Seq<Kind>) -> Seq<(bool, Seq<char>)> {
    v.map_values(|k: Kind| kind_view(k))
}

/// The changes a live reload works through, each set of paths held as a
/// vector of distinct paths.
#[derive(Debug)]
pub struct Invalidation {
    /// Paths that are ignored but kept for debugging.
    pub ignores: Vec<String>,
    /// Paths in the assets directory.
    pub assets: Vec<String>,
    /// Files matched by a watched hook, with the hook's index.
    pub hooks: Vec<(usize, String)>,
    /// Layouts: the pages that use them are rendered again.
    pub layouts: Vec<String>,
    /// Partials, compiled again.
    pub partials: Vec<String>,
    /// Includes.
    pub includes: Vec<String>,
    /// Templates in the site source, compiled again.
    pub templates: Vec<String>,
    /// Pages and other files to render again, in the order they changed.
    pub actions: Vec<Kind>,
    /// Paths that no longer exist.
    pub deletions: Vec<String>,
    /// Documents of collections, with the collection's key.
    pub collections: Vec<(String, String)>,
}

impl Invalidation {
    /// No set holds a path twice.
    pub open spec fn wf(&self) -> bool {
        &&& distinct(self.ignores@)
        &&& distinct(self.assets@)
        &&& distinct_hooks(self.hooks@)
        &&& distinct(self.layouts@)
        &&& distinct(self.partials@)
        &&& distinct(self.includes@)
        &&& distinct(self.templates@)
        &&& distinct(self.deletions@)
        &&& distinct_keyed(self.collections@)
    }

    /// An invalidation with no change.
    pub fn new() -> (r: Self)
        ensures
            r.wf(),
            r.ignores@.len() == 0,
            r.assets@.len() == 0,
            r.hooks@.len() == 0,
            r.layouts@.len() == 0,
            r.partials@.len() == 0,
            r.includes@.len() == 0,
            r.templates@.len() == 0,
            r.actions@.len() == 0,
            r.deletions@.len() == 0,
            r.collections@.len() == 0,
    {
        Invalidation {
            ignores: Vec::new(),
            assets: Vec::new(),
            hooks: Vec::new(),
            layouts: Vec::new(),
            partials: Vec::new(),
            includes: Vec::new(),
            templates: Vec::new(),
            actions: Vec::new(),
            deletions: Vec::new(),
            collections: Vec::new(),
        }
    }

    /// The page when the only change is one page: live reload then goes to
    /// that page.
    pub fn single_page(&self) -> (r: Option<&String>)
        ensures
            r is Some <==> (self.actions@.len() == 1 && self.actions@[0] is Page),
            r matches Some(p) ==> kind_view(self.actions@[0]) == (true, p@),
    {
        if self.actions.len() == 1 {
            if let Kind::Page(path) = &self.actions[0] {
                return Some(path);
            }
        }
        None
    }
}

/// `s` with `c` added when `t` is `want`.
pub open spec fn grown(s: Set<Seq<Seq<char>>>, t: Target, want: Target, c: Seq<Seq<char>>) -> Set<
    Seq<Seq<char>>,
> {
    if t == want {
        s.insert(c)
    } else {
        s
    }
}

/// The components of the changed files of kind `t`.
pub open spec fn changed_as(loc: Locations, paths: Seq<(String, bool)>, t: Target) -> Set<
    Seq<Seq<char>>,
> {
    Set::new(
        |c: Seq<Seq<char>>|
            exists|i: int|
                0 <= i < paths.len() && target_of(loc, (#[trigger] paths[i]).0@, paths[i].1) == t
                    && components(paths[i].0@) == c,
    )
}

/// The changed files matched by a watched hook, with the hook.
pub open spec fn changed_hooks(loc: Locations, paths: Seq<(String, bool)>) -> Set<
    (usize, Seq<Seq<char>>),
> {
    Set::new(
        |e: (usize, Seq<Seq<char>>)|
            exists|i: int|
                0 <= i < paths.len() && target_of(loc, (#[trigger] paths[i]).0@, paths[i].1)
                    == Target::Hook(e.0) && components(paths[i].0@) == e.1,
    )
}

/// The changed documents of collections, with the collection's key.
pub open spec fn changed_collections(loc: Locations, paths: Seq<(String, bool)>) -> Set<
    (Seq<char>, Seq<Seq<char>>),
> {
    Set::new(
        |e: (Seq<char>, Seq<Seq<char>>)|
            exists|i: int, k: usize|
                #![trigger paths[i], loc.collection_sources@[k as int]]
                0 <= i < paths.len() && target_of(loc, paths[i].0@, paths[i].1)
                    == Target::Collection(k) && loc.collection_sources@[k as int].0@ == e.0
                    && components(paths[i].0@) == e.1,
    )
}

/// The changed pages and other files, in order.
pub open spec fn changed_actions(loc: Locations, paths: Seq<(String, bool)>) -> Seq<(bool, Seq<char>)>
    decreases paths.len(),
{
    if paths.len() == 0 {
        Seq::empty()
    } else {
        let before = changed_actions(loc, paths.drop_last());
        let last = paths.last();
        match target_of(loc, last.0@, last.1) {
            Target::Page => before.push((true, last.0@)),
            Target::File => before.push((false, last.0@)),
            _ => before,
        }
    }
}

/// One more changed file adds its components to the set of its kind.
pub proof fn lemma_changed_as_step(loc: Locations, paths: Seq<(String, bool)>, k: int, want: Target)
    requires
        0 <= k < paths.len(),
    ensures
        changed_as(loc, paths.take(k + 1), want) == grown(
            changed_as(loc, paths.take(k), want),
            target_of(loc, paths[k].0@, paths[k].1),
            want,
            components(paths[k].0@),
        ),
{
    let a = paths.take(k + 1);
    let b = paths.take(k);
    let t = target_of(loc, paths[k].0@, paths[k].1);
    let c0 = components(paths[k].0@);
    assert forall|c: Seq<Seq<char>>| changed_as(loc, a, want).contains(c) == grown(
        changed_as(loc, b, want),
        t,
        want,
        c0,
    ).contains(c) by {
        if changed_as(loc, a, want).contains(c) {
            let i = choose|i: int|
                0 <= i < a.len() && target_of(loc, (#[trigger] a[i]).0@, a[i].1) == want
                    && components(a[i].0@) == c;
            if i < k {
                assert(a[i] == b[i]);
            }
        }
        if changed_as(loc, b, want).contains(c) {
            let i = choose|i: int|
                0 <= i < b.len() && target_of(loc, (#[trigger] b[i]).0@, b[i].1) == want
                    && components(b[i].0@) == c;
            assert(a[i] == b[i]);
        }
        if t == want && c == c0 {
            assert(a[k] == paths[k]);
        }
    }
    assert(changed_as(loc, a, want) =~= grown(changed_as(loc, b, want), t, want, c0));
}

/// One more changed file adds its hook pair when a hook matches it.
pub proof fn lemma_changed_hooks_step(loc: Locations, paths: Seq<(String, bool)>, k: int)
    requires
        0 <= k < paths.len(),
    ensures
        changed_hooks(loc, paths.take(k + 1)) == match target_of(loc, paths[k].0@, paths[k].1) {
            Target::Hook(h) => changed_hooks(loc, paths.take(k)).insert(
                (h, components(paths[k].0@)),
            ),
            _ => changed_hooks(loc, paths.take(k)),
        },
{
    let a = paths.take(k + 1);
    let b = paths.take(k);
    let t = target_of(loc, paths[k].0@, paths[k].1);
    let c0 = components(paths[k].0@);
    let rhs = match t {
        Target::Hook(h) => changed_hooks(loc, b).insert((h, c0)),
        _ => changed_hooks(loc, b),
    };
    assert forall|e: (usize, Seq<Seq<char>>)| changed_hooks(loc, a).contains(e) == rhs.contains(
        e,
    ) by {
        if changed_hooks(loc, a).contains(e) {
            let i = choose|i: int|
                0 <= i < a.len() && target_of(loc, (#[trigger] a[i]).0@, a[i].1) == Target::Hook(
                    e.0,
                ) && components(a[i].0@) == e.1;
            if i < k {
                assert(a[i] == b[i]);
            }
        }
        if changed_hooks(loc, b).contains(e) {
            let i = choose|i: int|
                0 <= i < b.len() && target_of(loc, (#[trigger] b[i]).0@, b[i].1) == Target::Hook(
                    e.0,
                ) && components(b[i].0@) == e.1;
            assert(a[i] == b[i]);
        }
        if t == Target::Hook(e.0) && e.1 == c0 {
            assert(a[k] == paths[k]);
        }
    }
    assert(changed_hooks(loc, a) =~= rhs);
}

/// One more changed file adds its collection pair when a collection holds it.
pub proof fn lemma_changed_collections_step(loc: Locations, paths: Seq<(String, bool)>, k: int)
    requires
        0 <= k < paths.len(),
    ensures
        changed_collections(loc, paths.take(k + 1)) == match target_of(
            loc,
            paths[k].0@,
            paths[k].1,
        ) {
            Target::Collection(j) => changed_collections(loc, paths.take(k)).insert(
                (loc.collection_sources@[j as int].0@, components(paths[k].0@)),
            ),
            _ => changed_collections(loc, paths.take(k)),
        },
{
    let a = paths.take(k + 1);
    let b = paths.take(k);
    let t = target_of(loc, paths[k].0@, paths[k].1);
    let c0 = components(paths[k].0@);
    let rhs = match t {
        Target::Collection(j) => changed_collections(loc, b).insert(
            (loc.collection_sources@[j as int].0@, c0),
        ),
        _ => changed_collections(loc, b),
    };
    assert forall|e: (Seq<char>, Seq<Seq<char>>)| changed_collections(loc, a).contains(e)
        == rhs.contains(e) by {
        if changed_collections(loc, a).contains(e) {
            let (i, j) = choose|i: int, j: usize|
                #![trigger a[i], loc.collection_sources@[j as int]]
                0 <= i < a.len() && target_of(loc, a[i].0@, a[i].1)
                    == Target::Collection(j) && loc.collection_sources@[j as int].0@ == e.0
                    && components(a[i].0@) == e.1;
            if i < k {
                assert(a[i] == b[i]);
            }
        }
        if changed_collections(loc, b).contains(e) {
            let (i, j) = choose|i: int, j: usize|
                #![trigger b[i], loc.collection_sources@[j as int]]
                0 <= i < b.len() && target_of(loc, b[i].0@, b[i].1)
                    == Target::Collection(j) && loc.collection_sources@[j as int].0@ == e.0
                    && components(b[i].0@) == e.1;
            assert(a[i] == b[i]);
        }
        match t {
            Target::Collection(j) => {
                if e == (loc.collection_sources@[j as int].0@, c0) {
                    assert(a[k] == paths[k]);
                }
            },
            _ => {},
        }
    }
    assert(changed_collections(loc, a) =~= rhs);
}

/// Record a changed file of kind `t` in the invalidation.
#[verifier::rlimit(40)]
fn record(inv: &mut Invalidation, loc: &Locations, path: &str, t: Target)
    requires
        old(inv).wf(),
        t matches Target::Collection(k) ==> k < loc.collection_sources@.len(),
    ensures
        final(inv).wf(),
        final(inv).deletions == old(inv).deletions,
        path_set(final(inv).ignores@) == grown(path_set(old(inv).ignores@), t, Target::Ignore, components(path@)),
        path_set(final(inv).assets@) == grown(path_set(old(inv).assets@), t, Target::Asset, components(path@)),
        path_set(final(inv).layouts@) == grown(path_set(old(inv).layouts@), t, Target::Layout, components(path@)),
        path_set(final(inv).partials@) == grown(path_set(old(inv).partials@), t, Target::Partial, components(path@)),
        path_set(final(inv).includes@) == grown(path_set(old(inv).includes@), t, Target::Include, components(path@)),
        path_set(final(inv).templates@) == grown(path_set(old(inv).templates@), t, Target::Template, components(path@)),
        hook_set(final(inv).hooks@) == match t {
            Target::Hook(h) => hook_set(old(inv).hooks@).insert((h, components(path@))),
            _ => hook_set(old(inv).hooks@),
        },
        keyed_set(final(inv).collections@) == match t {
            Target::Collection(k) => keyed_set(old(inv).collections@).insert(
                (loc.collection_sources@[k as int].0@, components(path@)),
            ),
            _ => keyed_set(old(inv).collections@),
        },
        kinds_view(final(inv).actions@) == match t {
            Target::Page => kinds_view(old(inv).actions@).push((true, path@)),
            Target::File => kinds_view(old(inv).actions@).push((false, path@)),
            _ => kinds_view(old(inv).actions@),
        },
{
    match t {
        Target::Hook(h) => add_hook(&mut inv.hooks, h, path),
        Target::Ignore => add_path(&mut inv.ignores, path),
        Target::Layout => add_path(&mut inv.layouts, path),
        Target::Partial => add_path(&mut inv.partials, path),
        Target::Include => add_path(&mut inv.includes, path),
        Target::Template => add_path(&mut inv.templates, path),
        Target::Asset => add_path(&mut inv.assets, path),
        Target::Collection(k) => add_keyed(&mut inv.collections, loc.collection_sources[k].0.as_str(), path),
        Target::Unlisted => {},
        Target::Page => {
            let ghost before = inv.actions@;
            inv.actions.push(Kind::Page(path.to_owned()));
            proof {
                assert(kinds_view(inv.actions@) =~= kinds_view(before).push((true, path@)));
            }
        },
        Target::File => {
            let ghost before = inv.actions@;
            inv.actions.push(Kind::File(path.to_owned()));
            proof {
                assert(kinds_view(inv.actions@) =~= kinds_view(before).push((false, path@)));
            }
        },
    }
}

/// The invalidation for a set of changes: the `deleted` paths no longer
/// exist; each of `paths` is a canonical path that exists and is not
/// ignored, with whether the site takes it as a page.
#[verifier::rlimit(40)]
pub fn get_invalidation(loc: &Locations, deleted: &Vec<String>, paths: &Vec<(String, bool)>) -> (r:
    Invalidation)
    ensures
        r.wf(),
        path_set(r.deletions@) == path_set(deleted@),
        path_set(r.ignores@) == changed_as(*loc, paths@, Target::Ignore),
        path_set(r.assets@) == changed_as(*loc, paths@, Target::Asset),
        path_set(r.layouts@) == changed_as(*loc, paths@, Target::Layout),
        path_set(r.partials@) == changed_as(*loc, paths@, Target::Partial),
        path_set(r.includes@) == changed_as(*loc, paths@, Target::Include),
        path_set(r.templates@) == changed_as(*loc, paths@, Target::Template),
        hook_set(r.hooks@) == changed_hooks(*loc, paths@),
        keyed_set(r.collections@) == changed_collections(*loc, paths@),
        kinds_view(r.actions@) == changed_actions(*loc, paths@),
{
    let mut inv = Invalidation::new();
    let mut d: usize = 0;
    proof {
        assert(path_set(inv.deletions@) =~= path_set(deleted@.take(0)));
    }
    while d < deleted.len()
        invariant
            inv.wf(),
            d <= deleted@.len(),
            path_set(inv.deletions@) == path_set(deleted@.take(d as int)),
            inv.ignores@.len() == 0,
            inv.assets@.len() == 0,
            inv.hooks@.len() == 0,
            inv.layouts@.len() == 0,
            inv.partials@.len() == 0,
            inv.includes@.len() == 0,
            inv.templates@.len() == 0,
            inv.actions@.len() == 0,
            inv.collections@.len() == 0,
        decreases deleted@.len() - d,
    {
        add_path(&mut inv.deletions, deleted[d].as_str());
        proof {
            lemma_path_set_step(deleted@, d as int);
        }
        d = d + 1;
    }
    proof {
        assert(deleted@.take(deleted@.len() as int) =~= deleted@);
        let e = paths@.take(0);
        assert(path_set(inv.ignores@) =~= changed_as(*loc, e, Target::Ignore));
        assert(path_set(inv.assets@) =~= changed_as(*loc, e, Target::Asset));
        assert(path_set(inv.layouts@) =~= changed_as(*loc, e, Target::Layout));
        assert(path_set(inv.partials@) =~= changed_as(*loc, e, Target::Partial));
        assert(path_set(inv.includes@) =~= changed_as(*loc, e, Target::Include));
        assert(path_set(inv.templates@) =~= changed_as(*loc, e, Target::Template));
        assert(hook_set(inv.hooks@) =~= changed_hooks(*loc, e));
        assert(keyed_set(inv.collections@) =~= changed_collections(*loc, e));
        assert(kinds_view(inv.actions@) =~= changed_actions(*loc, e));
    }
    let ghost dels = path_set(inv.deletions@);
    let mut i: usize = 0;
    while i < paths.len()
        invariant
            inv.wf(),
            i <= paths@.len(),
            path_set(inv.deletions@) == dels,
            path_set(inv.ignores@) == changed_as(*loc, paths@.take(i as int), Target::Ignore),
            path_set(inv.assets@) == changed_as(*loc, paths@.take(i as int), Target::Asset),
            path_set(inv.layouts@) == changed_as(*loc, paths@.take(i as int), Target::Layout),
            path_set(inv.partials@) == changed_as(*loc, paths@.take(i as int), Target::Partial),
            path_set(inv.includes@) == changed_as(*loc, paths@.take(i as int), Target::Include),
            path_set(inv.templates@) == changed_as(*loc, paths@.take(i as int), Target::Template),
            hook_set(inv.hooks@) == changed_hooks(*loc, paths@.take(i as int)),
            keyed_set(inv.collections@) == changed_collections(*loc, paths@.take(i as int)),
            kinds_view(inv.actions@) == changed_actions(*loc, paths@.take(i as int)),
        decreases paths@.len() - i,
    {
        let t = target(loc, paths[i].0.as_str(), paths[i].1);
        record(&mut inv, loc, paths[i].0.as_str(), t);
        proof {
            let k = i as int;
            lemma_changed_as_step(*loc, paths@, k, Target::Ignore);
            lemma_changed_as_step(*loc, paths@, k, Target::Asset);
            lemma_changed_as_step(*loc, paths@, k, Target::Layout);
            lemma_changed_as_step(*loc, paths@, k, Target::Partial);
            lemma_changed_as_step(*loc, paths@, k, Target::Include);
            lemma_changed_as_step(*loc, paths@, k, Target::Template);
            lemma_changed_hooks_step(*loc, paths@, k);
            lemma_changed_collections_step(*loc, paths@, k);
            assert(paths@.take(k + 1).drop_last() =~= paths@.take(k));
            assert(paths@.take(k + 1).last() == paths@[k]);
        }
        i = i + 1;
    }
    proof {
        assert(paths@.take(paths@.len() as int) =~= paths@);
    }
    inv
}

/// One more path adds its components to the path set.
pub proof fn lemma_path_set_step(v: Seq<String>, k: int)
    requires
        0 <= k < v.len(),
    ensures
        path_set(v.take(k + 1)) == path_set(v.take(k)).insert(components(v[k]@)),
{
    let a = v.take(k + 1);
    let b = v.take(k);
    assert forall|c: Seq<Seq<char>>| path_set(a).contains(c) == path_set(b).insert(
        components(v[k]@),
    ).contains(c) by {
        if path_set(a).contains(c) {
            let i = choose|i: int| 0 <= i < a.len() && components(#[trigger] a[i]@) == c;
            if i < k {
                assert(a[i] == b[i]);
            }
        }
        if path_set(b).contains(c) {
            let i = choose|i: int| 0 <= i < b.len() && components(#[trigger] b[i]@) == c;
            assert(a[i] == b[i]);
        }
        if c == components(v[k]@) {
            assert(a[k] == v[k]);
        }
    }
    assert(path_set(a) =~= path_set(b).insert(components(v[k]@)));
}


/// A step of an update, in the order an update takes them.
#[derive(Debug, Clone, Copy, PartialEq, Eq, Structural)]
pub enum Step {
    /// Remove the deleted files.
    Deletions,
    /// Run the hooks whose files changed.
    Hooks,
    /// Compile the changed templates again.
    Templates,
    /// Compile the changed partials again.
    Partials,
    /// Invalidate the includes.
    Includes,
    /// Compile the changed layouts and mark the pages that use them.
    Layouts,
    /// Rebuild the collections that changed or may list a changed page.
    Collections,
    /// Drop synthetic pages from the pages to render on request.
    FilterSynthetics,
    /// Render the change at this index of the actions.
    Render(usize),
}

/// `step` alone when `cond` holds, else nothing.
pub open spec fn step_if<A>(cond: bool, step: A) -> Seq<A> {
    if cond {
        seq![step]
    } else {
        Seq::empty()
    }
}

/// Whether some change is a page.
pub open spec fn has_page(actions: Seq<Kind>) -> bool {
    exists|i: int| 0 <= i < actions.len() && (#[trigger] actions[i]) is Page
}

/// The steps of an update: each kind of change that is present, in a fixed
/// order, then the collections when one changed or a page changed, then
/// dropping synthetic pages, then each change rendered in order.
pub open spec fn plan_of(inv: Invalidation) -> Seq<Step> {
    step_if(inv.deletions@.len() > 0, Step::Deletions) + step_if(inv.hooks@.len() > 0, Step::Hooks)
        + step_if(inv.templates@.len() > 0, Step::Templates) + step_if(
        inv.partials@.len() > 0,
        Step::Partials,
    ) + step_if(inv.includes@.len() > 0, Step::Includes) + step_if(
        inv.layouts@.len() > 0,
        Step::Layouts,
    ) + step_if(inv.collections@.len() > 0 || has_page(inv.actions@), Step::Collections) + seq![
        Step::FilterSynthetics,
    ] + Seq::new(inv.actions@.len(), |i: int| Step::Render(i as usize))
}

/// Append `step` when `cond` holds.
fn push_if<A>(v: &mut Vec<A>, cond: bool, step: A)
    ensures
        final(v)@ == old(v)@ + step_if(cond, step),
{
    if cond {
        v.push(step);
    } else {
        assert(old(v)@ + step_if(cond, step) =~= old(v)@);
    }
}

/// The steps an update takes for `inv`.
#[verifier::rlimit(40)]
pub fn plan(inv: &Invalidation) -> (r: Vec<Step>)
    ensures
        r@ == plan_of(*inv),
{
    let mut pages = false;
    let mut j: usize = 0;
    while j < inv.actions.len()
        invariant
            j <= inv.actions@.len(),
            pages == exists|k: int| 0 <= k < j && (#[trigger] inv.actions@[k]) is Page,
        decreases inv.actions@.len() - j,
    {
        if let Kind::Page(_) = &inv.actions[j] {
            pages = true;
        }
        j = j + 1;
    }
    let mut r: Vec<Step> = Vec::new();
    push_if(&mut r, inv.deletions.len() > 0, Step::Deletions);
    push_if(&mut r, inv.hooks.len() > 0, Step::Hooks);
    push_if(&mut r, inv.templates.len() > 0, Step::Templates);
    push_if(&mut r, inv.partials.len() > 0, Step::Partials);
    push_if(&mut r, inv.includes.len() > 0, Step::Includes);
    push_if(&mut r, inv.layouts.len() > 0, Step::Layouts);
    push_if(&mut r, inv.collections.len() > 0 || pages, Step::Collections);
    r.push(Step::FilterSynthetics);
    let ghost head = r@;
    let mut i: usize = 0;
    while i < inv.actions.len()
        invariant
            i <= inv.actions@.len(),
            r@ == head + Seq::new(i as nat, |k: int| Step::Render(k as usize)),
        decreases inv.actions@.len() - i,
    {
        r.push(Step::Render(i));
        proof {
            assert(head + Seq::new((i + 1) as nat, |k: int| Step::Render(k as usize)) =~= (head
                + Seq::new(i as nat, |k: int| Step::Render(k as usize))).push(Step::Render(i)));
        }
        i = i + 1;
    }
    proof {
        assert(r@ =~= plan_of(*inv));
    }
    r
}

/// The paths of the pages among the changes, in order.
pub open spec fn pages_of(actions: Seq<Kind>) -> Seq<Seq<char>>
    decreases actions.len(),
{
    if actions.len() == 0 {
        Seq::empty()
    } else {
        let before = pages_of(actions.drop_last());
        match actions.last() {
            Kind::Page(p) => before.push(p@),
            Kind::File(_) => before,
        }
    }
}

/// The paths of the changed pages, in order: the pages a collection may
/// list.
pub fn page_paths(inv: &Invalidation) -> (r: Vec<String>)
    ensures
        crate::split::views(r@) == pages_of(inv.actions@),
{
    let mut r: Vec<String> = Vec::new();
    let mut i: usize = 0;
    while i < inv.actions.len()
        invariant
            i <= inv.actions@.len(),
            crate::split::views(r@) == pages_of(inv.actions@.take(i as int)),
        decreases inv.actions@.len() - i,
    {
        proof {
            assert(inv.actions@.take(i + 1).drop_last() =~= inv.actions@.take(i as int));
        }
        if let Kind::Page(p) = &inv.actions[i] {
            let q = p.clone();
            proof {
                crate::split::lemma_views_push(r@, q);
            }
            r.push(q);
        }
        i = i + 1;
    }
    proof {
        assert(inv.actions@.take(inv.actions@.len() as int) =~= inv.actions@);
    }
    r
}


/// A change an update with the whole-site rules handles.
#[derive(Debug, Clone)]
pub enum Action {
    /// An asset: the whole site is built again.
    Asset(String),
    /// A page to render again.
    Page(String),
    /// Another file to copy again.
    File(String),
    /// A document of a collection.
    CollectionsDocument(String),
}

/// The kind of an action.
#[derive(Debug, Clone, Copy, PartialEq, Eq, Structural)]
pub enum ActionKind {
    Asset,
    Page,
    File,
    CollectionsDocument,
}

/// The kind and path of an action.
pub open spec fn action_view(a: Action) -> (ActionKind, Seq<char>) {
    match a {
        Action::Asset(p) => (ActionKind::Asset, p@),
        Action::Page(p) => (ActionKind::Page, p@),
        Action::File(p) => (ActionKind::File, p@),
        Action::CollectionsDocument(p) => (ActionKind::CollectionsDocument, p@),
    }
}

/// The views of a list of actions.
pub open spec fn actions_view(v: Seq<Action>) -> Seq<(ActionKind, Seq<char>)> {
    v.map_values(|a: Action| action_view(a))
}

/// How a rule builds the site.
#[derive(Debug, Clone, Copy, PartialEq, Eq, Structural)]
pub enum Strategy {
    /// Build the whole site again.
    Full,
    /// Build every page again.
    Page,
    /// Handle each action in turn.
    Mixed,
}

/// The changes of a live reload under the whole-site rules: an asset
/// builds the whole site again.
#[derive(Debug)]
pub struct Rule {
    /// Notify the connected clients.
    pub notify: bool,
    /// Load the site data again.
    pub reload: bool,
    /// How the site is built.
    pub strategy: Strategy,
    /// Paths that are ignored but kept for debugging.
    pub ignores: Vec<String>,
    /// Files matched by a watched hook, with the hook's index.
    pub hooks: Vec<(usize, String)>,
    /// Layouts.
    pub layouts: Vec<String>,
    /// Partials.
    pub partials: Vec<String>,
    /// Templates in the site source.
    pub templates: Vec<String>,
    /// The changes to handle, in order.
    pub actions: Vec<Action>,
    /// Paths that no longer exist.
    pub deletions: Vec<String>,
}

impl Rule {
    /// No set holds a path twice.
    pub open spec fn wf(&self) -> bool {
        &&& distinct(self.ignores@)
        &&& distinct_hooks(self.hooks@)
        &&& distinct(self.layouts@)
        &&& distinct(self.partials@)
        &&& distinct(self.templates@)
        &&& distinct(self.deletions@)
    }

    /// The page when the only action is one page.
    pub fn single_page(&self) -> (r: Option<&String>)
        ensures
            r is Some <==> (self.actions@.len() == 1 && self.actions@[0] is Page),
            r matches Some(p) ==> action_view(self.actions@[0]) == (ActionKind::Page, p@),
    {
        if self.actions.len() == 1 {
            if let Action::Page(path) = &self.actions[0] {
                return Some(path);
            }
        }
        None
    }
}

/// The actions of the changed files under the whole-site rules, in order.
pub open spec fn rule_actions(loc: Locations, paths: Seq<(String, bool)>) -> Seq<(ActionKind, Seq<char>)>
    decreases paths.len(),
{
    if paths.len() == 0 {
        Seq::empty()
    } else {
        let before = rule_actions(loc, paths.drop_last());
        let last = paths.last();
        match target_of(loc, last.0@, last.1) {
            Target::Asset => before.push((ActionKind::Asset, last.0@)),
            Target::Collection(_) => before.push((ActionKind::CollectionsDocument, last.0@)),
            Target::Page => before.push((ActionKind::Page, last.0@)),
            Target::File => before.push((ActionKind::File, last.0@)),
            _ => before,
        }
    }
}

/// Whether some changed file is an asset.
pub open spec fn has_asset(loc: Locations, paths: Seq<(String, bool)>) -> bool {
    exists|i: int| 0 <= i < paths.len() && target_of(loc, (#[trigger] paths[i]).0@, paths[i].1) == Target::Asset
}

/// The rule for a set of changes, where the site has no includes directory
/// and each collection's directory is that of its documents: the
/// `deleted` paths no longer exist; each of `paths` is a canonical path
/// that exists, with whether the site takes it as a page.
#[verifier::rlimit(40)]
pub fn get_rule(loc: &Locations, deleted: &Vec<String>, paths: &Vec<(String, bool)>) -> (r: Rule)
    requires
        loc.includes is None,
    ensures
        r.wf(),
        r.notify,
        !r.reload,
        r.strategy == (if has_asset(*loc, paths@) { Strategy::Full } else { Strategy::Mixed }),
        path_set(r.deletions@) == path_set(deleted@),
        path_set(r.ignores@) == changed_as(*loc, paths@, Target::Ignore),
        path_set(r.layouts@) == changed_as(*loc, paths@, Target::Layout),
        path_set(r.partials@) == changed_as(*loc, paths@, Target::Partial),
        path_set(r.templates@) == changed_as(*loc, paths@, Target::Template),
        hook_set(r.hooks@) == changed_hooks(*loc, paths@),
        actions_view(r.actions@) == rule_actions(*loc, paths@),
{
    let inv = get_invalidation(loc, deleted, paths);
    let mut actions: Vec<Action> = Vec::new();
    let mut full = false;
    let mut i: usize = 0;
    while i < paths.len()
        invariant
            i <= paths@.len(),
            actions_view(actions@) == rule_actions(*loc, paths@.take(i as int)),
            full == has_asset(*loc, paths@.take(i as int)),
        decreases paths@.len() - i,
    {
        let t = target(loc, paths[i].0.as_str(), paths[i].1);
        let p = paths[i].0.clone();
        let ghost before = actions@;
        match t {
            Target::Asset => {
                full = true;
                actions.push(Action::Asset(p));
            },
            Target::Collection(_) => actions.push(Action::CollectionsDocument(p)),
            Target::Page => actions.push(Action::Page(p)),
            Target::File => actions.push(Action::File(p)),
            _ => {},
        }
        proof {
            let k = i as int;
            let a = paths@.take(k + 1);
            let b = paths@.take(k);
            assert(a.drop_last() =~= b);
            assert(a.last() == paths@[k]);
            assert(actions_view(actions@) =~= rule_actions(*loc, a));
            if has_asset(*loc, a) {
                let j = choose|j: int| 0 <= j < a.len() && target_of(*loc, (#[trigger] a[j]).0@, a[j].1) == Target::Asset;
                if j < k {
                    assert(a[j] == b[j]);
                }
            }
            if has_asset(*loc, b) {
                let j = choose|j: int| 0 <= j < b.len() && target_of(*loc, (#[trigger] b[j]).0@, b[j].1) == Target::Asset;
                assert(a[j] == b[j]);
            }
            if t == Target::Asset {
                assert(a[k] == paths@[k]);
            }
        }
        i = i + 1;
    }
    proof {
        assert(paths@.take(paths@.len() as int) =~= paths@);
    }
    Rule {
        notify: true,
        reload: false,
        strategy: if full { Strategy::Full } else { Strategy::Mixed },
        ignores: inv.ignores,
        hooks: inv.hooks,
        layouts: inv.layouts,
        partials: inv.partials,
        templates: inv.templates,
        actions,
        deletions: inv.deletions,
    }
}


/// A step of an update under the whole-site rules.
#[derive(Debug, Clone, Copy, PartialEq, Eq, Structural)]
pub enum RuleStep {
    /// Remove the deleted files.
    Deletions,
    /// Run the hooks whose files changed.
    Hooks,
    /// Render the whole site.
    RenderAll,
    /// Compile the changed templates again.
    Templates,
    /// Compile the changed partials again.
    Partials,
    /// Compile the changed layouts again.
    Layouts,
    /// Render the action at this index.
    Render(usize),
    /// Stop: the next action is one that only a full build handles.
    Unhandled,
}

/// Whether an action is one that only a full build handles.
pub open spec fn unhandled() -> spec_fn(Action) -> bool {
    |a: Action| a is Asset || a is CollectionsDocument
}

/// The renders of the actions in order, up to the first that is not
/// handled, which stops the update.
pub open spec fn renders_of(actions: Seq<Action>) -> Seq<RuleStep> {
    match first_match(actions, unhandled()) {
        Some(u) => Seq::new(u as nat, |i: int| RuleStep::Render(i as usize)).push(RuleStep::Unhandled),
        None => Seq::new(actions.len(), |i: int| RuleStep::Render(i as usize)),
    }
}

/// The steps of an update under the whole-site rules: the deletions and
/// hooks when present, then either the whole site, or the changed
/// templates, partials and layouts followed by each action in order.
pub open spec fn rule_plan_of(rule: Rule) -> Seq<RuleStep> {
    step_if(rule.deletions@.len() > 0, RuleStep::Deletions) + step_if(
        rule.hooks@.len() > 0,
        RuleStep::Hooks,
    ) + if rule.strategy is Mixed {
        step_if(rule.templates@.len() > 0, RuleStep::Templates) + step_if(
            rule.partials@.len() > 0,
            RuleStep::Partials,
        ) + step_if(rule.layouts@.len() > 0, RuleStep::Layouts) + renders_of(rule.actions@)
    } else {
        seq![RuleStep::RenderAll]
    }
}

/// The steps an update takes for `rule`.
#[verifier::rlimit(40)]
pub fn rule_plan(rule: &Rule) -> (r: Vec<RuleStep>)
    ensures
        r@ == rule_plan_of(*rule),
{
    let mut r: Vec<RuleStep> = Vec::new();
    push_if(&mut r, rule.deletions.len() > 0, RuleStep::Deletions);
    push_if(&mut r, rule.hooks.len() > 0, RuleStep::Hooks);
    match rule.strategy {
        Strategy::Mixed => {},
        _ => {
            r.push(RuleStep::RenderAll);
            proof {
                assert(r@ =~= rule_plan_of(*rule));
            }
            return r;
        },
    }
    push_if(&mut r, rule.templates.len() > 0, RuleStep::Templates);
    push_if(&mut r, rule.partials.len() > 0, RuleStep::Partials);
    push_if(&mut r, rule.layouts.len() > 0, RuleStep::Layouts);
    let ghost head = r@;
    let ghost p = unhandled();
    proof {
        assert(rule_plan_of(*rule) =~= head + renders_of(rule.actions@));
    }
    let mut i: usize = 0;
    while i < rule.actions.len()
        invariant
            rule_plan_of(*rule) == head + renders_of(rule.actions@),
            p == unhandled(),
            i <= rule.actions@.len(),
            forall|k: int| 0 <= k < i ==> !p(#[trigger] rule.actions@[k]),
            r@ == head + Seq::new(i as nat, |k: int| RuleStep::Render(k as usize)),
        decreases rule.actions@.len() - i,
    {
        match &rule.actions[i] {
            Action::Asset(_) | Action::CollectionsDocument(_) => {
                r.push(RuleStep::Unhandled);
                proof {
                    lemma_first_match_at(rule.actions@, p, i as int);
                    assert(renders_of(rule.actions@) == Seq::new(i as nat, |k: int| RuleStep::Render(k as usize)).push(RuleStep::Unhandled));
                    assert(r@ =~= head + renders_of(rule.actions@));
                }
                return r;
            },
            _ => {},
        }
        r.push(RuleStep::Render(i));
        proof {
            assert(head + Seq::new((i + 1) as nat, |k: int| RuleStep::Render(k as usize)) =~= (head
                + Seq::new(i as nat, |k: int| RuleStep::Render(k as usize))).push(
                RuleStep::Render(i),
            ));
        }
        i = i + 1;
    }
    proof {
        lemma_first_match(rule.actions@, p);
        assert(r@ =~= head + renders_of(rule.actions@));
    }
    r
}


/// The kind of a changed file depends on its path only through the path's
/// components, and on whether it is a page only between a page and another
/// file.
pub proof fn lemma_target_by_components(loc: Locations, p: Seq<char>, q: Seq<char>, a: bool, b: bool)
    requires
        components(p) == components(q),
    ensures
        target_of(loc, p, a) == target_of(loc, q, b) || (target_of(loc, p, a) == Target::Page
            && target_of(loc, q, b) == Target::File) || (target_of(loc, p, a) == Target::File
            && target_of(loc, q, b) == Target::Page),
{
    assert(hook_lists(p) =~= hook_lists(q));
    assert(source_holds(p) =~= source_holds(q));
}

/// A changed file lands in one set of kinds only: no path is in the sets of
/// two different kinds.
pub proof fn lemma_kinds_disjoint(loc: Locations, paths: Seq<(String, bool)>, t1: Target, t2: Target, c: Seq<Seq<char>>)
    requires
        t1 != t2,
        t1 != Target::Page && t1 != Target::File,
        changed_as(loc, paths, t1).contains(c),
    ensures
        !changed_as(loc, paths, t2).contains(c),
{
    let i = choose|i: int|
        0 <= i < paths.len() && target_of(loc, (#[trigger] paths[i]).0@, paths[i].1) == t1
            && components(paths[i].0@) == c;
    if changed_as(loc, paths, t2).contains(c) {
        let j = choose|j: int|
            0 <= j < paths.len() && target_of(loc, (#[trigger] paths[j]).0@, paths[j].1) == t2
                && components(paths[j].0@) == c;
        lemma_target_by_components(loc, paths[i].0@, paths[j].0@, paths[i].1, paths[j].1);
    }
}


/// The name of a path without its extension: the file stem, by which a
/// layout or partial is known.
pub open spec fn file_stem(path: Seq<char>) -> Option<Seq<char>> {
    match file_name(path) {
        Some(n) => {
            let i = last_dot(n);
            if i <= 0 {
                Some(n)
            } else {
                Some(n.subrange(0, i))
            }
        },
        None => None,
    }
}

/// The file stem of `path`.
pub fn file_stem_of(path: &str) -> (r: Option<String>)
    ensures
        match r {
            Some(e) => file_stem(path@) == Some(e@),
            None => file_stem(path@) is None,
        },
{
    let comps = path_components(path);
    let n = comps.len();
    if n == 0 {
        return None;
    }
    let name = comps[n - 1].as_str();
    proof {
        reveal_strlit("/");
        reveal_strlit(".");
        reveal_strlit("..");
        assert("/"@ =~= root_component());
        assert("."@ =~= cur_component());
        assert(".."@ =~= parent_component());
        assert(components(path@).last() == name@);
    }
    if str_eq(name, "/") || str_eq(name, ".") || str_eq(name, "..") {
        return None;
    }
    let len = name.unicode_len();
    let mut i: usize = len;
    while i > 0 && name.get_char(i - 1) != '.'
        invariant
            i <= len,
            len == name@.len(),
            forall|k: int| i <= k < len ==> name@[k] != '.',
        decreases i,
    {
        i = i - 1;
    }
    proof {
        lemma_last_dot(name@, i - 1);
    }
    if i <= 1 {
        return Some(name.to_owned());
    }
    Some(name.substring_char(0, i - 1).to_owned())
}

/// A page as a layout update sees it.
#[derive(Debug, Clone)]
pub struct PageInfo {
    /// The file the page is rendered from.
    pub path: String,
    /// Whether the page stands alone, without a layout.
    pub standalone: bool,
    /// The name of the page's layout.
    pub layout: Option<String>,
    /// The page's href, where it has one.
    pub href: Option<String>,
}

/// Whether a page uses the layout named `name` and has an href: such a
/// page is rendered again when the layout changes.
pub open spec fn uses_layout(p: PageInfo, name: Seq<char>) -> bool {
    !p.standalone && (p.layout matches Some(l) && l@ == name) && p.href is Some
}

/// The href and file of each page that uses the layout named `name`.
pub open spec fn layout_pages_of(pages: Seq<PageInfo>, name: Seq<char>) -> Seq<(Seq<char>, Seq<char>)>
    decreases pages.len(),
{
    if pages.len() == 0 {
        Seq::empty()
    } else {
        let before = layout_pages_of(pages.drop_last(), name);
        let p = pages.last();
        if uses_layout(p, name) {
            before.push((p.href.unwrap()@, p.path@))
        } else {
            before
        }
    }
}

/// The href and file of each page that uses the layout named `name`, in
/// order: the pages to render again when the layout changes.
#[verifier::rlimit(40)]
pub fn layout_pages(pages: &Vec<PageInfo>, name: &str) -> (r: Vec<(String, String)>)
    ensures
        r@.map_values(|e: (String, String)| (e.0@, e.1@)) == layout_pages_of(pages@, name@),
{
    let mut r: Vec<(String, String)> = Vec::new();
    let mut i: usize = 0;
    while i < pages.len()
        invariant
            i <= pages@.len(),
            r@.map_values(|e: (String, String)| (e.0@, e.1@)) == layout_pages_of(pages@.take(i as int), name@),
        decreases pages@.len() - i,
    {
        let p = &pages[i];
        proof {
            assert(pages@.take(i + 1).drop_last() =~= pages@.take(i as int));
            assert(pages@.take(i + 1).last() == pages@[i as int]);
        }
        if !p.standalone {
            if let Some(l) = &p.layout {
                if str_eq(l.as_str(), name) {
                    if let Some(h) = &p.href {
                        let ghost before = r@;
                        r.push((h.clone(), p.path.clone()));
                        proof {
                            assert(r@.map_values(|e: (String, String)| (e.0@, e.1@)) =~= before.map_values(
                                |e: (String, String)| (e.0@, e.1@),
                            ).push((h@, p.path@)));
                        }
                    }
                }
            }
        }
        i = i + 1;
    }
    proof {
        assert(pages@.take(pages@.len() as int) =~= pages@);
    }
    r
}

/// Whether a locale gives an href.
pub open spec fn gives_href() -> spec_fn(Option<String>) -> bool {
    |h: Option<String>| h is Some
}

/// The page to go to after an edit, with follow-edits on: the href the
/// first locale gives the changed file, without a trailing `index.html`.
pub open spec fn page_href_of(follow_edits: bool, hrefs: Seq<Option<String>>) -> Option<Seq<char>> {
    if !follow_edits {
        None
    } else {
        match first_match(hrefs, gives_href()) {
            Some(i) => Some(crate::render::search_url_of(hrefs[i].unwrap()@, false)),
            None => None,
        }
    }
}

/// The page to go to after an edit: `hrefs` holds, for each locale in
/// order, the href its collation gives the changed file.
pub fn find_page_href(follow_edits: bool, hrefs: &Vec<Option<String>>) -> (r: Option<String>)
    ensures
        match r {
            Some(h) => page_href_of(follow_edits, hrefs@) == Some(h@),
            None => page_href_of(follow_edits, hrefs@) is None,
        },
{
    if !follow_edits {
        return None;
    }
    let ghost p = gives_href();
    let mut i: usize = 0;
    while i < hrefs.len()
        invariant
            follow_edits,
            p == gives_href(),
            i <= hrefs@.len(),
            forall|k: int| 0 <= k < i ==> !p(#[trigger] hrefs@[k]),
        decreases hrefs@.len() - i,
    {
        if let Some(h) = &hrefs[i] {
            proof {
                lemma_first_match_at(hrefs@, p, i as int);
                assert(hrefs@[i as int].unwrap() == *h);
            }
            let u = crate::render::search_url(h.as_str(), false);
            proof {
                assert(first_match(hrefs@, gives_href()) == Some(i as int));
                assert(u@ == crate::render::search_url_of(h@, false));
            }
            return Some(u);
        }
        i = i + 1;
    }
    proof {
        lemma_first_match(hrefs@, p);
    }
    None
}


/// The path by which a deleted file is removed: relative to the project
/// when the project path is absolute, else to the working directory; the
/// path itself when it is not under that directory.
pub open spec fn deletion_path_of(path: Seq<char>, project: Seq<char>, cwd: Seq<char>) -> Seq<char> {
    let base = if is_absolute(project) {
        project
    } else {
        cwd
    };
    match stripped(path, base) {
        Some(r) => r,
        None => path,
    }
}

/// The path by which the deleted file `path` is removed.
pub fn deletion_path(path: &str, project: &str, cwd: &str) -> (r: String)
    ensures
        r@ == deletion_path_of(path@, project@, cwd@),
{
    let base = if project.unicode_len() > 0 && project.get_char(0) == '/' {
        project
    } else {
        cwd
    };
    match strip_prefix(path, base) {
        Some(r) => r,
        None => path.to_owned(),
    }
}

/// The build product of the page at `href`: the href without its leading
/// `/`, under the build target.
pub open spec fn build_file_of(target: Seq<char>, href: Seq<char>) -> Seq<char> {
    path_joined(target, trimmed_start(href, "/"@))
}

/// The build product of the page at `href` under the build target.
pub fn build_file_for(target: &str, href: &str) -> (r: String)
    ensures
        r@ == build_file_of(target@, href@),
{
    let rel = trim_start_matches(href, "/");
    join_path(target, rel.as_str())
}

/// Whether removing a build product also removes its directory when it
/// is empty: for an `index.html` file.
pub open spec fn removes_directory(path: Seq<char>) -> bool {
    file_name(path) == Some("index.html"@)
}

/// Whether removing the build product `path` also removes its directory
/// when it is empty.
pub fn is_index_file(path: &str) -> (r: bool)
    ensures
        r == removes_directory(path@),
{
    let comps = path_components(path);
    let n = comps.len();
    if n == 0 {
        return false;
    }
    let name = comps[n - 1].as_str();
    proof {
        reveal_strlit("/");
        reveal_strlit(".");
        reveal_strlit("..");
        reveal_strlit("index.html");
        assert("/"@ =~= root_component());
        assert("."@ =~= cur_component());
        assert(".."@ =~= parent_component());
        assert(components(path@).last() == name@);
    }
    if str_eq(name, "/") || str_eq(name, ".") || str_eq(name, "..") {
        return false;
    }
    str_eq(name, "index.html")
}


/// Where a step comes in an update: its place in the fixed order, each
/// render after the steps before it and in the order of the changes.
pub open spec fn step_rank(s: Step) -> int {
    match s {
        Step::Deletions => 0,
        Step::Hooks => 1,
        Step::Templates => 2,
        Step::Partials => 3,
        Step::Includes => 4,
        Step::Layouts => 5,
        Step::Collections => 6,
        Step::FilterSynthetics => 7,
        Step::Render(k) => 8 + k,
    }
}

/// The steps come in strictly increasing rank.
pub open spec fn in_step_order(s: Seq<Step>) -> bool {
    forall|a: int, b: int| 0 <= a < b < s.len() ==> step_rank(#[trigger] s[a]) < step_rank(#[trigger] s[b])
}

/// Whether the steps hold `x`.
#[verifier::opaque]
spec fn has_elem<A>(s: Seq<A>, x: A) -> bool {
    s.contains(x)
}

/// The steps come in strictly increasing `rank`.
#[verifier::opaque]
spec fn ordered<A>(s: Seq<A>, rank: spec_fn(A) -> int) -> bool {
    forall|a: int, b: int| 0 <= a < b < s.len() ==> rank(#[trigger] s[a]) < rank(#[trigger] s[b])
}

/// Every step ranks at least `lo` and below `hi`.
#[verifier::opaque]
spec fn ranked_within<A>(s: Seq<A>, rank: spec_fn(A) -> int, lo: int, hi: int) -> bool {
    forall|k: int| 0 <= k < s.len() ==> lo <= #[trigger] rank(s[k]) < hi
}

/// The rank of a step of an update, as a function.
spec fn step_ranks() -> spec_fn(Step) -> int {
    |s: Step| step_rank(s)
}

/// A sequence holds `x` exactly when one of its two parts does.
proof fn lemma_concat_has<A>(s1: Seq<A>, s2: Seq<A>, x: A)
    ensures
        has_elem(s1 + s2, x) <==> has_elem(s1, x) || has_elem(s2, x),
{
    reveal(has_elem);
    let s = s1 + s2;
    if s.contains(x) {
        let k = choose|k: int| 0 <= k < s.len() && s[k] == x;
        if k >= s1.len() {
            assert(s2[k - s1.len()] == x);
        }
    }
    if s1.contains(x) {
        let k = choose|k: int| 0 <= k < s1.len() && s1[k] == x;
        assert(s[k] == x);
    }
    if s2.contains(x) {
        let k = choose|k: int| 0 <= k < s2.len() && s2[k] == x;
        assert(s[k + s1.len()] == x);
    }
}

/// A step that is there on a condition, alone, ranked `r`.
proof fn lemma_step_if_facts<A>(c: bool, st: A, x: A, rank: spec_fn(A) -> int, r: int)
    requires
        rank(st) == r,
    ensures
        has_elem(step_if(c, st), x) <==> c && x == st,
        ordered(step_if(c, st), rank),
        ranked_within(step_if(c, st), rank, r, r + 1),
{
    reveal(has_elem);
    reveal(ordered);
    reveal(ranked_within);
    if c {
        assert(step_if(c, st)[0] == st);
    }
}

/// One render for each change, in order, ranked from 8 up.
proof fn lemma_renders_facts(n: nat, x: Step)
    requires
        n <= usize::MAX,
    ensures
        has_elem(Seq::new(n, |i: int| Step::Render(i as usize)), x) <==> (x matches Step::Render(k)
            && k < n),
        ordered(Seq::new(n, |i: int| Step::Render(i as usize)), step_ranks()),
        ranked_within(Seq::new(n, |i: int| Step::Render(i as usize)), step_ranks(), 8, 8 + n as int),
{
    reveal(has_elem);
    reveal(ordered);
    reveal(ranked_within);
    let p = Seq::new(n, |i: int| Step::Render(i as usize));
    if let Step::Render(k) = x {
        if k < n {
            assert(p[k as int] == x);
        }
    }
    if p.contains(x) {
        let j = choose|j: int| 0 <= j < p.len() && p[j] == x;
        assert(p[j] == Step::Render(j as usize));
    }
    assert forall|a: int, b: int| 0 <= a < b < p.len() implies step_ranks()(#[trigger] p[a]) < step_ranks()(
        #[trigger] p[b],
    ) by {
        assert(p[a] == Step::Render(a as usize));
        assert(p[b] == Step::Render(b as usize));
    }
    assert forall|k: int| 0 <= k < p.len() implies 8 <= #[trigger] step_ranks()(p[k]) < 8 + n by {
        assert(p[k] == Step::Render(k as usize));
    }
}

/// Two parts in order, the first ranked below where the second starts, are
/// in order together.
proof fn lemma_concat_ordered<A>(s1: Seq<A>, s2: Seq<A>, rank: spec_fn(A) -> int, lo: int, mid: int, hi: int)
    requires
        lo <= mid <= hi,
        ordered(s1, rank),
        ordered(s2, rank),
        ranked_within(s1, rank, lo, mid),
        ranked_within(s2, rank, mid, hi),
    ensures
        ordered(s1 + s2, rank),
        ranked_within(s1 + s2, rank, lo, hi),
{
    reveal(ordered);
    reveal(ranked_within);
    let s = s1 + s2;
    assert forall|a: int, b: int| 0 <= a < b < s.len() implies rank(#[trigger] s[a]) < rank(
        #[trigger] s[b],
    ) by {
        if b < s1.len() {
            assert(s[a] == s1[a] && s[b] == s1[b]);
        } else if a >= s1.len() {
            assert(s[a] == s2[a - s1.len()] && s[b] == s2[b - s1.len()]);
        } else {
            assert(s[a] == s1[a] && s[b] == s2[b - s1.len()]);
            assert(lo <= rank(s1[a]) < mid);
            assert(mid <= rank(s2[b - s1.len()]) < hi);
        }
    }
    assert forall|k: int| 0 <= k < s.len() implies lo <= #[trigger] rank(s[k]) < hi by {
        if k < s1.len() {
            assert(s[k] == s1[k]);
            assert(lo <= rank(s1[k]) < mid);
        } else {
            assert(s[k] == s2[k - s1.len()]);
            assert(mid <= rank(s2[k - s1.len()]) < hi);
        }
    }
}

/// What an update's steps hold, and their order: a step is one of them
/// exactly when its own condition holds, and they come in rank order.
#[verifier::rlimit(40)]
proof fn lemma_plan_facts(inv: Invalidation, x: Step)
    ensures
        has_elem(plan_of(inv), x) <==> match x {
            Step::Deletions => inv.deletions@.len() > 0,
            Step::Hooks => inv.hooks@.len() > 0,
            Step::Templates => inv.templates@.len() > 0,
            Step::Partials => inv.partials@.len() > 0,
            Step::Includes => inv.includes@.len() > 0,
            Step::Layouts => inv.layouts@.len() > 0,
            Step::Collections => inv.collections@.len() > 0 || has_page(inv.actions@),
            Step::FilterSynthetics => true,
            Step::Render(k) => k < inv.actions@.len(),
        },
        ordered(plan_of(inv), step_ranks()),
{
    let n = inv.actions@.len();
    assert(n == inv.actions.len());
    let p0 = step_if(inv.deletions@.len() > 0, Step::Deletions);
    let p1 = step_if(inv.hooks@.len() > 0, Step::Hooks);
    let p2 = step_if(inv.templates@.len() > 0, Step::Templates);
    let p3 = step_if(inv.partials@.len() > 0, Step::Partials);
    let p4 = step_if(inv.includes@.len() > 0, Step::Includes);
    let p5 = step_if(inv.layouts@.len() > 0, Step::Layouts);
    let p6 = step_if(inv.collections@.len() > 0 || has_page(inv.actions@), Step::Collections);
    let p7 = step_if(true, Step::FilterSynthetics);
    let p8 = Seq::new(n, |i: int| Step::Render(i as usize));
    assert(p7 == seq![Step::FilterSynthetics]);
    let q1 = p0 + p1;
    let q2 = q1 + p2;
    let q3 = q2 + p3;
    let q4 = q3 + p4;
    let q5 = q4 + p5;
    let q6 = q5 + p6;
    let q7 = q6 + p7;
    assert(q7 + p8 == plan_of(inv));
    lemma_step_if_facts(inv.deletions@.len() > 0, Step::Deletions, x, step_ranks(), 0);
    lemma_step_if_facts(inv.hooks@.len() > 0, Step::Hooks, x, step_ranks(), 1);
    lemma_step_if_facts(inv.templates@.len() > 0, Step::Templates, x, step_ranks(), 2);
    lemma_step_if_facts(inv.partials@.len() > 0, Step::Partials, x, step_ranks(), 3);
    lemma_step_if_facts(inv.includes@.len() > 0, Step::Includes, x, step_ranks(), 4);
    lemma_step_if_facts(inv.layouts@.len() > 0, Step::Layouts, x, step_ranks(), 5);
    lemma_step_if_facts(inv.collections@.len() > 0 || has_page(inv.actions@), Step::Collections, x, step_ranks(), 6);
    lemma_step_if_facts(true, Step::FilterSynthetics, x, step_ranks(), 7);
    lemma_renders_facts(n, x);
    lemma_concat_has(p0, p1, x);
    lemma_concat_has(q1, p2, x);
    lemma_concat_has(q2, p3, x);
    lemma_concat_has(q3, p4, x);
    lemma_concat_has(q4, p5, x);
    lemma_concat_has(q5, p6, x);
    lemma_concat_has(q6, p7, x);
    lemma_concat_has(q7, p8, x);
    lemma_concat_ordered(p0, p1, step_ranks(), 0, 1, 2);
    lemma_concat_ordered(q1, p2, step_ranks(), 0, 2, 3);
    lemma_concat_ordered(q2, p3, step_ranks(), 0, 3, 4);
    lemma_concat_ordered(q3, p4, step_ranks(), 0, 4, 5);
    lemma_concat_ordered(q4, p5, step_ranks(), 0, 5, 6);
    lemma_concat_ordered(q5, p6, step_ranks(), 0, 6, 7);
    lemma_concat_ordered(q6, p7, step_ranks(), 0, 7, 8);
    lemma_concat_ordered(q7, p8, step_ranks(), 0, 8, 8 + n as int);
}

/// The steps of an update: each step for a kind of change is there exactly
/// when there is such a change (the collections also when a page changed),
/// dropping synthetic pages always, one render for each change and no
/// other, all in the fixed order of steps.
pub proof fn lemma_plan_steps(inv: Invalidation)
    ensures
        plan_of(inv).contains(Step::Deletions) <==> inv.deletions@.len() > 0,
        plan_of(inv).contains(Step::Hooks) <==> inv.hooks@.len() > 0,
        plan_of(inv).contains(Step::Templates) <==> inv.templates@.len() > 0,
        plan_of(inv).contains(Step::Partials) <==> inv.partials@.len() > 0,
        plan_of(inv).contains(Step::Includes) <==> inv.includes@.len() > 0,
        plan_of(inv).contains(Step::Layouts) <==> inv.layouts@.len() > 0,
        plan_of(inv).contains(Step::Collections) <==> (inv.collections@.len() > 0 || exists|i: int|
            0 <= i < inv.actions@.len() && (#[trigger] inv.actions@[i]) is Page),
        plan_of(inv).contains(Step::FilterSynthetics),
        forall|k: usize| #[trigger] plan_of(inv).contains(Step::Render(k)) <==> k < inv.actions@.len(),
        in_step_order(plan_of(inv)),
{
    reveal(has_elem);
    reveal(ordered);
    lemma_plan_facts(inv, Step::Deletions);
    lemma_plan_facts(inv, Step::Hooks);
    lemma_plan_facts(inv, Step::Templates);
    lemma_plan_facts(inv, Step::Partials);
    lemma_plan_facts(inv, Step::Includes);
    lemma_plan_facts(inv, Step::Layouts);
    lemma_plan_facts(inv, Step::Collections);
    lemma_plan_facts(inv, Step::FilterSynthetics);
    assert forall|k: usize| #[trigger] plan_of(inv).contains(Step::Render(k)) <==> k < inv.actions@.len() by {
        lemma_plan_facts(inv, Step::Render(k));
    }
}


/// Where a step comes in an update under the whole-site rules: the
/// deletions, the hooks, then the whole site or the templates, partials and
/// layouts, then each render in order, then the stop.
pub open spec fn rule_step_rank(s: RuleStep) -> int {
    match s {
        RuleStep::Deletions => 0,
        RuleStep::Hooks => 1,
        RuleStep::RenderAll => 2,
        RuleStep::Templates => 2,
        RuleStep::Partials => 3,
        RuleStep::Layouts => 4,
        RuleStep::Render(k) => 5 + k,
        RuleStep::Unhandled => 6 + usize::MAX,
    }
}

/// The rank of a step under the whole-site rules, as a function.
spec fn rule_step_ranks() -> spec_fn(RuleStep) -> int {
    |s: RuleStep| rule_step_rank(s)
}

/// Whether only a full build handles the action.
pub open spec fn only_full_build(a: Action) -> bool {
    a is Asset || a is CollectionsDocument
}

/// The renders of the actions: one for each action up to the first that
/// only a full build handles, and the stop when there is such an action.
proof fn lemma_rule_renders_facts(actions: Seq<Action>, x: RuleStep)
    requires
        actions.len() <= usize::MAX,
    ensures
        has_elem(renders_of(actions), x) <==> match x {
            RuleStep::Render(k) => k < actions.len() && forall|j: int|
                0 <= j <= k ==> !only_full_build(#[trigger] actions[j]),
            RuleStep::Unhandled => exists|j: int| 0 <= j < actions.len() && only_full_build(#[trigger] actions[j]),
            _ => false,
        },
        ordered(renders_of(actions), rule_step_ranks()),
        ranked_within(renders_of(actions), rule_step_ranks(), 5, 7 + usize::MAX),
{
    reveal(has_elem);
    reveal(ordered);
    reveal(ranked_within);
    let p = unhandled();
    lemma_first_match(actions, p);
    let n: nat = match first_match(actions, p) {
        Some(u) => u as nat,
        None => actions.len(),
    };
    let rs = Seq::new(n, |i: int| RuleStep::Render(i as usize));
    let r = renders_of(actions);
    assert forall|k: int| 0 <= k < rs.len() implies #[trigger] rs[k] == RuleStep::Render(k as usize) by {}
    if let Some(u) = first_match(actions, p) {
        assert(r == rs.push(RuleStep::Unhandled));
        assert(r[u] == RuleStep::Unhandled);
    } else {
        assert(r == rs);
    }
    assert forall|k: int| 0 <= k < r.len() implies (k < n ==> #[trigger] r[k] == RuleStep::Render(k as usize))
        && (k >= n ==> r[k] == RuleStep::Unhandled) by {
    }
    match x {
        RuleStep::Render(k) => {
            if k < n {
                assert(r[k as int] == x);
                assert forall|j: int| 0 <= j <= k implies !only_full_build(#[trigger] actions[j]) by {
                    assert(!p(actions[j]));
                }
            }
            if r.contains(x) {
                let j = choose|j: int| 0 <= j < r.len() && r[j] == x;
                assert(j < n);
            }
            if k < actions.len() && k >= n && (forall|j: int|
                0 <= j <= k ==> !only_full_build(#[trigger] actions[j])) {
                assert(!only_full_build(actions[n as int]));
            }
        },
        RuleStep::Unhandled => {
            if let Some(u) = first_match(actions, p) {
                assert(only_full_build(actions[u]));
            } else {
                if r.contains(x) {
                    let j = choose|j: int| 0 <= j < r.len() && r[j] == x;
                }
                if exists|j: int| 0 <= j < actions.len() && only_full_build(#[trigger] actions[j]) {
                    let j = choose|j: int| 0 <= j < actions.len() && only_full_build(#[trigger] actions[j]);
                    assert(p(actions[j]));
                }
            }
        },
        _ => {
            if r.contains(x) {
                let j = choose|j: int| 0 <= j < r.len() && r[j] == x;
            }
        },
    }
    assert forall|a: int, b: int| 0 <= a < b < r.len() implies rule_step_ranks()(#[trigger] r[a])
        < rule_step_ranks()(#[trigger] r[b]) by {}
    assert forall|k: int| 0 <= k < r.len() implies 5 <= #[trigger] rule_step_ranks()(r[k]) < 7
        + usize::MAX by {}
}

/// What the steps under the whole-site rules hold, and their order.
#[verifier::rlimit(40)]
proof fn lemma_rule_plan_facts(rule: Rule, x: RuleStep)
    ensures
        has_elem(rule_plan_of(rule), x) <==> match x {
            RuleStep::Deletions => rule.deletions@.len() > 0,
            RuleStep::Hooks => rule.hooks@.len() > 0,
            RuleStep::RenderAll => !(rule.strategy is Mixed),
            RuleStep::Templates => rule.strategy is Mixed && rule.templates@.len() > 0,
            RuleStep::Partials => rule.strategy is Mixed && rule.partials@.len() > 0,
            RuleStep::Layouts => rule.strategy is Mixed && rule.layouts@.len() > 0,
            RuleStep::Render(k) => rule.strategy is Mixed && k < rule.actions@.len() && forall|j: int|
                0 <= j <= k ==> !only_full_build(#[trigger] rule.actions@[j]),
            RuleStep::Unhandled => rule.strategy is Mixed && exists|j: int|
                0 <= j < rule.actions@.len() && only_full_build(#[trigger] rule.actions@[j]),
        },
        ordered(rule_plan_of(rule), rule_step_ranks()),
{
    let rk = rule_step_ranks();
    let p0 = step_if(rule.deletions@.len() > 0, RuleStep::Deletions);
    let p1 = step_if(rule.hooks@.len() > 0, RuleStep::Hooks);
    let q1 = p0 + p1;
    lemma_step_if_facts(rule.deletions@.len() > 0, RuleStep::Deletions, x, rk, 0);
    lemma_step_if_facts(rule.hooks@.len() > 0, RuleStep::Hooks, x, rk, 1);
    lemma_concat_has(p0, p1, x);
    lemma_concat_ordered(p0, p1, rk, 0, 1, 2);
    if rule.strategy is Mixed {
        assert(rule.actions@.len() == rule.actions.len());
        let t = step_if(rule.templates@.len() > 0, RuleStep::Templates);
        let pa = step_if(rule.partials@.len() > 0, RuleStep::Partials);
        let l = step_if(rule.layouts@.len() > 0, RuleStep::Layouts);
        let rs = renders_of(rule.actions@);
        let m1 = t + pa;
        let m2 = m1 + l;
        let m3 = m2 + rs;
        assert(rule_plan_of(rule) == q1 + m3);
        lemma_step_if_facts(rule.templates@.len() > 0, RuleStep::Templates, x, rk, 2);
        lemma_step_if_facts(rule.partials@.len() > 0, RuleStep::Partials, x, rk, 3);
        lemma_step_if_facts(rule.layouts@.len() > 0, RuleStep::Layouts, x, rk, 4);
        lemma_rule_renders_facts(rule.actions@, x);
        lemma_concat_has(t, pa, x);
        lemma_concat_has(m1, l, x);
        lemma_concat_has(m2, rs, x);
        lemma_concat_has(q1, m3, x);
        lemma_concat_ordered(t, pa, rk, 2, 3, 4);
        lemma_concat_ordered(m1, l, rk, 2, 4, 5);
        lemma_concat_ordered(m2, rs, rk, 2, 5, 7 + usize::MAX);
        lemma_concat_ordered(q1, m3, rk, 0, 2, 7 + usize::MAX);
    } else {
        let ra = step_if(true, RuleStep::RenderAll);
        assert(ra == seq![RuleStep::RenderAll]);
        assert(rule_plan_of(rule) == q1 + ra);
        lemma_step_if_facts(true, RuleStep::RenderAll, x, rk, 2);
        lemma_concat_has(q1, ra, x);
        lemma_concat_ordered(q1, ra, rk, 0, 2, 3);
    }
}

/// The steps of an update under the whole-site rules: the deletions and
/// the hooks exactly when there are such changes; the whole site exactly
/// when the strategy is not to handle each action; otherwise the
/// templates, partials and layouts exactly when such files changed, a
/// render for each action before the first that only a full build handles,
/// and the stop exactly when there is such an action; all in the fixed
/// order of steps.
pub proof fn lemma_rule_plan_steps(rule: Rule)
    ensures
        rule_plan_of(rule).contains(RuleStep::Deletions) <==> rule.deletions@.len() > 0,
        rule_plan_of(rule).contains(RuleStep::Hooks) <==> rule.hooks@.len() > 0,
        rule_plan_of(rule).contains(RuleStep::RenderAll) <==> !(rule.strategy is Mixed),
        rule_plan_of(rule).contains(RuleStep::Templates) <==> rule.strategy is Mixed
            && rule.templates@.len() > 0,
        rule_plan_of(rule).contains(RuleStep::Partials) <==> rule.strategy is Mixed
            && rule.partials@.len() > 0,
        rule_plan_of(rule).contains(RuleStep::Layouts) <==> rule.strategy is Mixed
            && rule.layouts@.len() > 0,
        rule_plan_of(rule).contains(RuleStep::Unhandled) <==> rule.strategy is Mixed && exists|j: int|
            0 <= j < rule.actions@.len() && only_full_build(#[trigger] rule.actions@[j]),
        forall|k: usize|
            #[trigger] rule_plan_of(rule).contains(RuleStep::Render(k)) <==> rule.strategy is Mixed && k
                < rule.actions@.len() && forall|j: int|
                0 <= j <= k ==> !only_full_build(#[trigger] rule.actions@[j]),
        forall|a: int, b: int|
            0 <= a < b < rule_plan_of(rule).len() ==> rule_step_rank(#[trigger] rule_plan_of(rule)[a])
                < rule_step_rank(#[trigger] rule_plan_of(rule)[b]),
{
    reveal(has_elem);
    reveal(ordered);
    lemma_rule_plan_facts(rule, RuleStep::Deletions);
    lemma_rule_plan_facts(rule, RuleStep::Hooks);
    lemma_rule_plan_facts(rule, RuleStep::RenderAll);
    lemma_rule_plan_facts(rule, RuleStep::Templates);
    lemma_rule_plan_facts(rule, RuleStep::Partials);
    lemma_rule_plan_facts(rule, RuleStep::Layouts);
    lemma_rule_plan_facts(rule, RuleStep::Unhandled);
    assert forall|k: usize|
        #[trigger] rule_plan_of(rule).contains(RuleStep::Render(k)) <==> rule.strategy is Mixed && k
            < rule.actions@.len() && forall|j: int|
            0 <= j <= k ==> !only_full_build(#[trigger] rule.actions@[j]) by {
        lemma_rule_plan_facts(rule, RuleStep::Render(k));
    }
}

} // verus!
