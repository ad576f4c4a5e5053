//! Render options and the choice of the files a build compiles.
use vstd::prelude::*;
use vstd::string::*;

use crate::manifest::{modified_since, Manifest, Timestamp};
use crate::path::{components, join_path, path_has_prefix, path_joined, path_starts_with};
use crate::invalidation::{file_stem, file_stem_of};
use crate::split::views;
use crate::text::{decimal, decimal_of, ends_with, str_eq, trim_end_matches, trimmed_end};

verus! {

/// What a render covers.
#[derive(Debug, Clone)]
pub enum RenderTarget {
    /// Everything for a locale.
    All,
    /// A single file.
    File(String),
}

/// The locales a render covers.
#[derive(Debug, Clone)]
pub enum RenderFilter {
    /// Every locale.
    All,
    /// A single locale.
    One(String),
}

/// The options of a render.
#[derive(Debug, Clone)]
pub struct RenderOptions {
    pub target: RenderTarget,
    pub filter: RenderFilter,
    pub reload_data: bool,
    pub sitemap: bool,
    pub search_index: bool,
}

impl Default for RenderOptions {
    fn default() -> (r: Self)
        ensures
            r.target is All,
            r.filter is All,
            !r.reload_data,
            r.sitemap,
            r.search_index,
    {
        RenderOptions {
            target: RenderTarget::All,
            filter: RenderFilter::All,
            reload_data: false,
            sitemap: true,
            search_index: true,
        }
    }
}

impl RenderOptions {
    /// Options to render the single `file` for the locale `lang`.
    pub fn new_file_lang(
        file: String,
        lang: String,
        reload_data: bool,
        sitemap: bool,
        search_index: bool,
    ) -> (r: Self)
        ensures
            r.target == RenderTarget::File(file),
            r.filter == RenderFilter::One(lang),
            r.reload_data == reload_data,
            r.sitemap == sitemap,
            r.search_index == search_index,
    {
        RenderOptions {
            target: RenderTarget::File(file),
            filter: RenderFilter::One(lang),
            reload_data,
            sitemap,
            search_index,
        }
    }

    /// The single file these options render, if any.
    pub fn file(&self) -> (r: Option<&String>)
        ensures
            match self.target {
                RenderTarget::File(f) => r == Some(&f),
                RenderTarget::All => r is None,
            },
    {
        match &self.target {
            RenderTarget::File(path) => Some(path),
            RenderTarget::All => None,
        }
    }
}

/// The source paths a build is limited to, if any.
#[derive(Debug, Clone)]
pub struct Sources {
    pub filters: Option<Vec<String>>,
}

/// The result of a render: the location of its sitemap, if it made one.
#[derive(Debug, Clone)]
pub struct RenderResult {
    pub sitemap: Option<String>,
}

/// Whether one of `dirs` is a prefix of `p`.
pub open spec fn under_any(p: Seq<char>, dirs: Seq<String>) -> bool {
    exists|i: int| 0 <= i < dirs.len() && path_starts_with(p, (#[trigger] dirs[i])@)
}

/// Whether a build limited to `filters` compiles `p`: a file under one of
/// the `always` directories (those of plugins) always; with filters, a file
/// under one of them; without filters, every file.
pub open spec fn path_allowed(p: Seq<char>, always: Seq<String>, filters: Option<Vec<String>>) -> bool {
    under_any(p, always) || match filters {
        Some(f) => under_any(p, f@),
        None => true,
    }
}

/// Whether one of `dirs` is a prefix of `p`.
pub fn is_under_any(p: &str, dirs: &Vec<String>) -> (r: bool)
    ensures
        r == under_any(p@, dirs@),
{
    let mut i: usize = 0;
    while i < dirs.len()
        invariant
            i <= dirs@.len(),
            forall|k: int| 0 <= k < i ==> !path_starts_with(p@, (#[trigger] dirs@[k])@),
        decreases dirs@.len() - i,
    {
        if path_has_prefix(p, dirs[i].as_str()) {
            return true;
        }
        i = i + 1;
    }
    false
}

/// Whether a build limited to `filters` compiles `p`.
pub fn path_filter(p: &str, always: &Vec<String>, filters: &Option<Vec<String>>) -> (r: bool)
    ensures
        r == path_allowed(p@, always@, *filters),
{
    if is_under_any(p, always) {
        return true;
    }
    match filters {
        Some(f) => is_under_any(p, f),
        None => true,
    }
}

/// Whether an incremental build skips `p`: it is in the manifest, its
/// build product exists and it has not been modified since it was built.
pub open spec fn up_to_date(
    times: Map<Seq<Seq<char>>, Timestamp>,
    p: Seq<char>,
    dest_exists: bool,
    current: Option<Timestamp>,
) -> bool {
    times.contains_key(components(p)) && dest_exists && !modified_since(times, p, current)
}

/// Whether a build compiles `p`: it must be allowed by the filters, and an
/// incremental build, with the manifest `manifest`, skips a file with a
/// build product (`output`: whether the product exists and the file's
/// modification time) that is up to date.
pub fn compile_filter(
    p: &str,
    always: &Vec<String>,
    filters: &Option<Vec<String>>,
    manifest: Option<&Manifest>,
    output: Option<(bool, Option<Timestamp>)>,
) -> (r: bool)
    requires
        manifest matches Some(m) ==> m.wf(),
    ensures
        r == (path_allowed(p@, always@, *filters) && !(match (manifest, output) {
            (Some(m), Some((dest_exists, current))) => up_to_date(m.times(), p@, dest_exists, current),
            _ => false,
        })),
{
    if !path_filter(p, always, filters) {
        return false;
    }
    match (manifest, output) {
        (Some(m), Some((dest_exists, current))) => !(m.contains(p) && !m.is_dirty(
            p,
            dest_exists,
            current,
            false,
        )),
        _ => true,
    }
}

/// The URL a search index records for a page: without a trailing
/// `index.html` unless the index file is kept.
pub open spec fn search_url_of(href: Seq<char>, include_index: bool) -> Seq<char> {
    if !include_index && "index.html"@.is_suffix_of(href) {
        trimmed_end(href, "index.html"@)
    } else {
        href
    }
}

/// The URL a search index records for the page at `href`.
pub fn search_url(href: &str, include_index: bool) -> (r: String)
    ensures
        r@ == search_url_of(href@, include_index),
{
    if !include_index && ends_with(href, "index.html") {
        trim_end_matches(href, "index.html")
    } else {
        href.to_owned()
    }
}


/// Whether a file is the error page, which no sitemap lists.
pub open spec fn is_error_page(p: Seq<char>) -> bool {
    file_stem(p) == Some("404"@)
}

/// The files a sitemap lists: all but the error page, in order.
pub open spec fn listed(files: Seq<String>) -> Seq<Seq<char>>
    decreases files.len(),
{
    if files.len() == 0 {
        Seq::empty()
    } else {
        let before = listed(files.drop_last());
        if is_error_page(files.last()@) {
            before
        } else {
            before.push(files.last()@)
        }
    }
}

/// The sitemap files for the rendered `files`, `k` to a file: each named
/// by its number, from `count`, with `.xml`, and listing its window of
/// files.
pub open spec fn sitemap_chunks(files: Seq<String>, k: nat, count: nat) -> Seq<(Seq<char>, Seq<Seq<char>>)>
    decreases files.len(),
{
    if files.len() == 0 || k == 0 {
        Seq::empty()
    } else if files.len() <= k {
        seq![(decimal(count) + ".xml"@, listed(files))]
    } else {
        seq![(decimal(count) + ".xml"@, listed(files.take(k as int)))] + sitemap_chunks(
            files.skip(k as int),
            k,
            count + 1,
        )
    }
}

/// A sitemap file: its name and the files it lists.
#[derive(Debug, Clone)]
pub struct SiteMapFile {
    pub href: String,
    pub files: Vec<String>,
}

/// The plain values of a list of sitemap files.
pub open spec fn sitemaps_view(v: Seq<SiteMapFile>) -> Seq<(Seq<char>, Seq<Seq<char>>)> {
    v.map_values(|f: SiteMapFile| (f.href@, views(f.files@)))
}

/// Whether the file is the error page.
pub fn is_error_file(p: &str) -> (r: bool)
    ensures
        r == is_error_page(p@),
{
    proof {
        reveal_strlit("404");
    }
    match file_stem_of(p) {
        Some(stem) => str_eq(stem.as_str(), "404"),
        None => false,
    }
}

/// The files of `files[from..to]` a sitemap lists.
fn listed_range(files: &Vec<String>, from: usize, to: usize) -> (r: Vec<String>)
    requires
        from <= to <= files@.len(),
    ensures
        views(r@) == listed(files@.subrange(from as int, to as int)),
{
    let mut r: Vec<String> = Vec::new();
    let mut i: usize = from;
    proof {
        assert(files@.subrange(from as int, from as int) =~= Seq::<String>::empty());
    }
    while i < to
        invariant
            from <= i <= to <= files@.len(),
            views(r@) == listed(files@.subrange(from as int, i as int)),
        decreases to - i,
    {
        proof {
            assert(files@.subrange(from as int, i + 1).drop_last() =~= files@.subrange(from as int, i as int));
            assert(files@.subrange(from as int, i + 1).last() == files@[i as int]);
        }
        if !is_error_file(files[i].as_str()) {
            let f = files[i].clone();
            proof {
                crate::split::lemma_views_push(r@, f);
            }
            r.push(f);
        }
        i = i + 1;
    }
    r
}

/// The sitemap files for the rendered `files`, `entries` to a file.
#[verifier::rlimit(40)]
pub fn sitemap_files(entries: usize, files: &Vec<String>) -> (r: Vec<SiteMapFile>)
    requires
        entries > 0,
        files@.len() < usize::MAX,
    ensures
        sitemaps_view(r@) == sitemap_chunks(files@, entries as nat, 1),
{
    let n = files.len();
    let mut r: Vec<SiteMapFile> = Vec::new();
    let mut s: usize = 0;
    let mut count: usize = 1;
    proof {
        assert(files@.skip(0) =~= files@);
        assert(sitemaps_view(r@) + sitemap_chunks(files@.skip(0), entries as nat, 1) =~= sitemap_chunks(
            files@,
            entries as nat,
            1,
        ));
    }
    while s < n
        invariant
            n == files@.len(),
            n < usize::MAX,
            entries > 0,
            s <= n,
            1 <= count <= s + 1,
            sitemaps_view(r@) + sitemap_chunks(files@.skip(s as int), entries as nat, count as nat)
                == sitemap_chunks(files@, entries as nat, 1),
        decreases n - s,
    {
        let e = if n - s <= entries {
            n
        } else {
            s + entries
        };
        let listed_files = listed_range(files, s, e);
        let mut href = decimal_of(count as u64);
        href.append(".xml");
        let ghost before = r@;
        let ghost rest = files@.skip(s as int);
        proof {
            if n - s <= entries {
                assert(rest =~= files@.subrange(s as int, e as int));
            } else {
                assert(rest.take(entries as int) =~= files@.subrange(s as int, e as int));
                assert(rest.skip(entries as int) =~= files@.skip(e as int));
            }
        }
        r.push(SiteMapFile { href, files: listed_files });
        proof {
            assert(sitemaps_view(r@) =~= sitemaps_view(before).push(
                (decimal(count as nat) + ".xml"@, listed(files@.subrange(s as int, e as int))),
            ));
            if e == n {
                assert(files@.skip(e as int) =~= Seq::<String>::empty());
            }
            assert(sitemaps_view(r@) + sitemap_chunks(files@.skip(e as int), entries as nat, (count + 1) as nat)
                =~= sitemap_chunks(files@, entries as nat, 1));
        }
        s = e;
        count = count + 1;
    }
    proof {
        assert(files@.skip(n as int) =~= Seq::<String>::empty());
        assert(sitemaps_view(r@) =~= sitemap_chunks(files@, entries as nat, 1));
    }
    r
}


/// Whether a render with `filter` renders the locale `lang`.
pub open spec fn renders_locale(filter: RenderFilter, lang: Seq<char>) -> bool {
    match filter {
        RenderFilter::All => true,
        RenderFilter::One(l) => l@ == lang,
    }
}

/// The locales, by index among `languages`, that a render with `filter`
/// renders, in order.
pub open spec fn locales_of(filter: RenderFilter, languages: Seq<String>) -> Seq<usize>
    decreases languages.len(),
{
    if languages.len() == 0 {
        Seq::empty()
    } else {
        locales_of(filter, languages.drop_last()) + if renders_locale(filter, languages.last()@) {
            seq![(languages.len() - 1) as usize]
        } else {
            Seq::empty()
        }
    }
}

/// The locales, by index among `languages`, that a render with `filter`
/// renders, in order.
pub fn locales_to_render(filter: &RenderFilter, languages: &Vec<String>) -> (r: Vec<usize>)
    ensures
        r@ == locales_of(*filter, languages@),
{
    let mut r: Vec<usize> = Vec::new();
    let mut i: usize = 0;
    while i < languages.len()
        invariant
            i <= languages@.len(),
            r@ == locales_of(*filter, languages@.take(i as int)),
        decreases languages@.len() - i,
    {
        proof {
            assert(languages@.take(i + 1).drop_last() =~= languages@.take(i as int));
            assert(languages@.take(i + 1).last() == languages@[i as int]);
        }
        let yes = match filter {
            RenderFilter::All => true,
            RenderFilter::One(l) => str_eq(l.as_str(), languages[i].as_str()),
        };
        if yes {
            r.push(i);
        }
        proof {
            assert(r@ =~= locales_of(*filter, languages@.take(i + 1)));
        }
        i = i + 1;
    }
    proof {
        assert(languages@.take(languages@.len() as int) =~= languages@);
    }
    r
}

/// The build directory of a locale: its own directory under the base of a
/// site with several locales, else the base.
pub open spec fn locale_target_of(lang: Seq<char>, multi: bool, base: Seq<char>) -> Seq<char> {
    if multi {
        path_joined(base, lang)
    } else {
        base
    }
}

/// The build directory of the locale `lang`.
pub fn locale_target(lang: &str, multi: bool, base: &str) -> (r: String)
    ensures
        r@ == locale_target_of(lang@, multi, base@),
{
    if multi {
        join_path(base, lang)
    } else {
        base.to_owned()
    }
}

} // verus!
