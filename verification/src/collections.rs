//! Which collection databases an update rebuilds, and which changed pages
//! it loads again first.
use vstd::prelude::*;

use crate::path::{path_has_prefix, path_starts_with};
use crate::split::views;
use crate::text::str_eq;

verus! {

/// A collection database as an update sees it.
#[derive(Debug, Clone)]
pub struct Database {
    /// The database's name.
    pub name: String,
    /// Whether its documents are the site's pages.
    pub pages_provider: bool,
    /// The canonical directory it takes pages from.
    pub base: String,
    /// Whether its matcher has no pattern.
    pub matcher_empty: bool,
    /// For each changed page, whether the matcher excludes the page's path
    /// relative to `base`.
    pub excluded: Vec<bool>,
}

/// The databases to rebuild, the changed pages to load again before, and
/// the databases whose matchers filter the pages to render on request.
#[derive(Debug, Clone)]
pub struct CollectionsUpdate {
    pub rebuild: Vec<String>,
    pub reload: Vec<String>,
    pub matchers: Vec<usize>,
}

/// The names of the vector, as a set.
pub open spec fn name_set(v: Seq<String>) -> Set<Seq<char>> {
    Set::new(|s: Seq<char>| exists|i: int| 0 <= i < v.len() && (#[trigger] v[i])@ == s)
}

/// No name is held twice.
pub open spec fn distinct_names(v: Seq<String>) -> bool {
    forall|i: int, j: int|
        0 <= i < v.len() && 0 <= j < v.len() && i != j ==> (#[trigger] v[i])@ != (#[trigger] v[j])@
}

/// A database of pages whose collection did not change itself: the pages
/// that changed may belong to it.
pub open spec fn eligible(db: Database, changed: Seq<String>) -> bool {
    db.pages_provider && !name_set(changed).contains(db.name@)
}

/// Whether the database takes the changed page `j`: the page lies under
/// the database's directory and its matcher does not exclude it.
pub open spec fn takes_page(db: Database, pages: Seq<String>, j: int) -> bool {
    path_starts_with(pages[j]@, db.base@) && (db.matcher_empty || !db.excluded@[j])
}

/// The databases to rebuild: those whose collection changed, and each
/// eligible one that takes a changed page.
pub open spec fn rebuilt(dbs: Seq<Database>, changed: Seq<String>, pages: Seq<String>) -> Set<Seq<char>> {
    name_set(changed).union(
        Set::new(
            |s: Seq<char>|
                exists|i: int, j: int|
                    #![trigger dbs[i], pages[j]]
                    0 <= i < dbs.len() && 0 <= j < pages.len() && eligible(dbs[i], changed)
                        && takes_page(dbs[i], pages, j) && dbs[i].name@ == s,
        ),
    )
}

/// The changed pages to load again: all of them, once for each eligible
/// database, in order.
pub open spec fn reloaded(dbs: Seq<Database>, changed: Seq<String>, pages: Seq<String>) -> Seq<Seq<char>>
    decreases dbs.len(),
{
    if dbs.len() == 0 {
        Seq::empty()
    } else {
        reloaded(dbs.drop_last(), changed, pages) + if eligible(dbs.last(), changed) {
            views(pages)
        } else {
            Seq::empty()
        }
    }
}

/// The indices of the eligible databases, in order.
pub open spec fn eligible_indices(dbs: Seq<Database>, changed: Seq<String>) -> Seq<usize>
    decreases dbs.len(),
{
    if dbs.len() == 0 {
        Seq::empty()
    } else {
        eligible_indices(dbs.drop_last(), changed) + if eligible(dbs.last(), changed) {
            seq![(dbs.len() - 1) as usize]
        } else {
            Seq::empty()
        }
    }
}

/// Add `n` to a set of names.
pub fn add_name(v: &mut Vec<String>, n: &str)
    requires
        distinct_names(old(v)@),
    ensures
        distinct_names(final(v)@),
        name_set(final(v)@) == name_set(old(v)@).insert(n@),
{
    let mut i: usize = 0;
    while i < v.len()
        invariant
            distinct_names(v@),
            i <= v@.len(),
            forall|k: int| 0 <= k < i ==> (#[trigger] v@[k])@ != n@,
        decreases v@.len() - i,
    {
        if str_eq(v[i].as_str(), n) {
            proof {
                assert(name_set(v@) =~= name_set(v@).insert(n@));
            }
            return;
        }
        i = i + 1;
    }
    let ghost before = v@;
    v.push(n.to_owned());
    proof {
        assert forall|a: int, b: int|
            0 <= a < v@.len() && 0 <= b < v@.len() && a != b implies (#[trigger] v@[a])@ != (
            #[trigger] v@[b])@ by {
            if a < before.len() {
                assert(v@[a] == before[a]);
            }
            if b < before.len() {
                assert(v@[b] == before[b]);
            }
        }
        assert forall|s: Seq<char>| name_set(v@).contains(s) == name_set(before).insert(n@).contains(
            s,
        ) by {
            if name_set(before).contains(s) {
                let k = choose|k: int| 0 <= k < before.len() && (#[trigger] before[k])@ == s;
                assert(v@[k] == before[k]);
            }
            if s == n@ {
                assert(v@[before.len() as int]@ == n@);
            }
            if name_set(v@).contains(s) {
                let k = choose|k: int| 0 <= k < v@.len() && (#[trigger] v@[k])@ == s;
                if k < before.len() {
                    assert(v@[k] == before[k]);
                }
            }
        }
        assert(name_set(v@) =~= name_set(before).insert(n@));
    }
}

/// Whether the names hold `n`.
fn has_name(v: &Vec<String>, n: &str) -> (r: bool)
    ensures
        r == name_set(v@).contains(n@),
{
    let mut i: usize = 0;
    while i < v.len()
        invariant
            i <= v@.len(),
            forall|k: int| 0 <= k < i ==> (#[trigger] v@[k])@ != n@,
        decreases v@.len() - i,
    {
        if str_eq(v[i].as_str(), n) {
            return true;
        }
        i = i + 1;
    }
    false
}

/// Whether the database takes one of the changed pages.
fn takes_any(db: &Database, pages: &Vec<String>) -> (r: bool)
    requires
        db.excluded@.len() == pages@.len(),
    ensures
        r == exists|j: int| 0 <= j < pages@.len() && #[trigger] takes_page(*db, pages@, j),
{
    let mut j: usize = 0;
    while j < pages.len()
        invariant
            db.excluded@.len() == pages@.len(),
            j <= pages@.len(),
            forall|k: int| 0 <= k < j ==> !#[trigger] takes_page(*db, pages@, k),
        decreases pages@.len() - j,
    {
        if path_has_prefix(pages[j].as_str(), db.base.as_str()) && (db.matcher_empty
            || !db.excluded[j]) {
            proof {
                assert(takes_page(*db, pages@, j as int));
            }
            return true;
        }
        j = j + 1;
    }
    false
}

/// What an update does for the collections, given the collections that
/// changed, the collection databases with distinct names, and the pages
/// that changed.
#[verifier::rlimit(40)]
pub fn collections_update(changed: &Vec<String>, dbs: &Vec<Database>, pages: &Vec<String>) -> (r:
    CollectionsUpdate)
    requires
        forall|i: int| 0 <= i < dbs@.len() ==> (#[trigger] dbs@[i]).excluded@.len() == pages@.len(),
        forall|i: int, j: int|
            0 <= i < dbs@.len() && 0 <= j < dbs@.len() && i != j ==> (#[trigger] dbs@[i]).name@ != (
            #[trigger] dbs@[j]).name@,
    ensures
        distinct_names(r.rebuild@),
        name_set(r.rebuild@) == rebuilt(dbs@, changed@, pages@),
        views(r.reload@) == if pages@.len() == 0 {
            Seq::empty()
        } else {
            reloaded(dbs@, changed@, pages@)
        },
        r.matchers@ == if pages@.len() == 0 {
            Seq::empty()
        } else {
            eligible_indices(dbs@, changed@)
        },
{
    let mut names: Vec<String> = Vec::new();
    let mut c: usize = 0;
    proof {
        assert(name_set(names@) =~= name_set(changed@.take(0)));
    }
    while c < changed.len()
        invariant
            c <= changed@.len(),
            distinct_names(names@),
            name_set(names@) == name_set(changed@.take(c as int)),
        decreases changed@.len() - c,
    {
        add_name(&mut names, changed[c].as_str());
        proof {
            let a = changed@.take(c + 1);
            let b = changed@.take(c as int);
            assert forall|s: Seq<char>| name_set(a).contains(s) == name_set(b).insert(
                changed@[c as int]@,
            ).contains(s) by {
                if name_set(a).contains(s) {
                    let k = choose|k: int| 0 <= k < a.len() && (#[trigger] a[k])@ == s;
                    if k < c {
                        assert(a[k] == b[k]);
                    }
                }
                if name_set(b).contains(s) {
                    let k = choose|k: int| 0 <= k < b.len() && (#[trigger] b[k])@ == s;
                    assert(a[k] == b[k]);
                }
                if s == changed@[c as int]@ {
                    assert(a[c as int] == changed@[c as int]);
                }
            }
            assert(name_set(a) =~= name_set(b).insert(changed@[c as int]@));
        }
        c = c + 1;
    }
    proof {
        assert(changed@.take(changed@.len() as int) =~= changed@);
    }
    let ghost base = name_set(changed@);
    let mut reload: Vec<String> = Vec::new();
    let mut matchers: Vec<usize> = Vec::new();
    if pages.len() == 0 {
        proof {
            assert(rebuilt(dbs@, changed@, pages@) =~= name_set(changed@));
        }
        return CollectionsUpdate { rebuild: names, reload, matchers };
    }
    let mut i: usize = 0;
    while i < dbs.len()
        invariant
            pages@.len() > 0,
            forall|k: int| 0 <= k < dbs@.len() ==> (#[trigger] dbs@[k]).excluded@.len() == pages@.len(),
            forall|a: int, b: int|
                0 <= a < dbs@.len() && 0 <= b < dbs@.len() && a != b ==> (#[trigger] dbs@[a]).name@ != (
                #[trigger] dbs@[b]).name@,
            base == name_set(changed@),
            i <= dbs@.len(),
            distinct_names(names@),
            name_set(names@) == rebuilt(dbs@.take(i as int), changed@, pages@),
            views(reload@) == reloaded(dbs@.take(i as int), changed@, pages@),
            matchers@ == eligible_indices(dbs@.take(i as int), changed@),
        decreases dbs@.len() - i,
    {
        let db = &dbs[i];
        let ghost a = dbs@.take(i + 1);
        let ghost b = dbs@.take(i as int);
        proof {
            assert(a.drop_last() =~= b);
            assert(a.last() == dbs@[i as int]);
        }
        let known = has_name(&names, db.name.as_str());
        proof {
            // Another database has another name, so the set so far holds
            // this name exactly when the changed collections do.
            if known && !base.contains(db.name@) {
                let s = db.name@;
                let (k, j) = choose|k: int, j: int|
                    #![trigger b[k], pages@[j]]
                    0 <= k < b.len() && 0 <= j < pages@.len() && eligible(b[k], changed@)
                        && takes_page(b[k], pages@, j) && b[k].name@ == s;
                assert(b[k] == dbs@[k]);
            }
        }
        if db.pages_provider && !known {
            let ghost before = views(reload@);
            let mut j: usize = 0;
            while j < pages.len()
                invariant
                    j <= pages@.len(),
                    views(reload@) == before + views(pages@).take(j as int),
                decreases pages@.len() - j,
            {
                let q = pages[j].clone();
                proof {
                    crate::split::lemma_views_push(reload@, q);
                    assert(views(pages@).take(j + 1) =~= views(pages@).take(j as int).push(pages@[j as int]@));
                }
                reload.push(q);
                j = j + 1;
            }
            proof {
                assert(views(pages@).take(pages@.len() as int) =~= views(pages@));
            }
            matchers.push(i);
            if takes_any(db, pages) {
                add_name(&mut names, db.name.as_str());
            }
        }
        proof {
            let ta = Set::new(
                |s: Seq<char>|
                    exists|k: int, j: int|
                        #![trigger a[k], pages@[j]]
                        0 <= k < a.len() && 0 <= j < pages@.len() && eligible(a[k], changed@)
                            && takes_page(a[k], pages@, j) && a[k].name@ == s,
            );
            let tb = Set::new(
                |s: Seq<char>|
                    exists|k: int, j: int|
                        #![trigger b[k], pages@[j]]
                        0 <= k < b.len() && 0 <= j < pages@.len() && eligible(b[k], changed@)
                            && takes_page(b[k], pages@, j) && b[k].name@ == s,
            );
            assert forall|s: Seq<char>| name_set(names@).contains(s) == base.union(ta).contains(s) by {
                if ta.contains(s) {
                    let (k, j) = choose|k: int, j: int|
                        #![trigger a[k], pages@[j]]
                        0 <= k < a.len() && 0 <= j < pages@.len() && eligible(a[k], changed@)
                            && takes_page(a[k], pages@, j) && a[k].name@ == s;
                    if k < i {
                        assert(a[k] == b[k]);
                        assert(tb.contains(s));
                    }
                }
                if tb.contains(s) {
                    let (k, j) = choose|k: int, j: int|
                        #![trigger b[k], pages@[j]]
                        0 <= k < b.len() && 0 <= j < pages@.len() && eligible(b[k], changed@)
                            && takes_page(b[k], pages@, j) && b[k].name@ == s;
                    assert(a[k] == b[k]);
                    assert(ta.contains(s));
                }
                if eligible(dbs@[i as int], changed@) && s == dbs@[i as int].name@ {
                    if exists|j: int| 0 <= j < pages@.len() && #[trigger] takes_page(dbs@[i as int], pages@, j) {
                        let j = choose|j: int| 0 <= j < pages@.len() && #[trigger] takes_page(dbs@[i as int], pages@, j);
                        assert(a[i as int] == dbs@[i as int]);
                        assert(ta.contains(s));
                    }
                }
            }
            assert(name_set(names@) =~= rebuilt(a, changed@, pages@));
            assert(views(reload@) =~= reloaded(a, changed@, pages@));
            assert(matchers@ =~= eligible_indices(a, changed@));
        }
        i = i + 1;
    }
    proof {
        assert(dbs@.take(dbs@.len() as int) =~= dbs@);
    }
    CollectionsUpdate { rebuild: names, reload, matchers }
}


/// Whether no matcher excludes the page at `path`, the `k`-th of the link
/// map: the matcher with base `bases[m]` excludes a page under that base
/// when `excluded[m]` says it matches the page's path relative to it.
pub open spec fn not_excluded(bases: Seq<String>, excluded: Seq<Vec<bool>>, path: Seq<char>, k: int) -> bool {
    forall|m: int|
        0 <= m < bases.len() ==> !(path_starts_with(path, (#[trigger] bases[m])@)
            && excluded[m]@[k])
}

/// The entries of the link map (an href and the page it renders) that no
/// matcher excludes, in order.
pub open spec fn unexcluded_pages(
    bases: Seq<String>,
    excluded: Seq<Vec<bool>>,
    links: Seq<(String, String)>,
) -> Seq<(String, String)>
    decreases links.len(),
{
    if links.len() == 0 {
        Seq::empty()
    } else {
        unexcluded_pages(bases, excluded, links.drop_last()) + if not_excluded(
            bases,
            excluded,
            links.last().1@,
            links.len() - 1,
        ) {
            seq![links.last()]
        } else {
            Seq::empty()
        }
    }
}

/// Whether no matcher excludes the `k`-th page of the link map.
fn page_not_excluded(bases: &Vec<String>, excluded: &Vec<Vec<bool>>, path: &str, k: usize) -> (r: bool)
    requires
        excluded@.len() == bases@.len(),
        forall|m: int| 0 <= m < excluded@.len() ==> k < (#[trigger] excluded@[m])@.len(),
    ensures
        r == not_excluded(bases@, excluded@, path@, k as int),
{
    let mut m: usize = 0;
    while m < bases.len()
        invariant
            excluded@.len() == bases@.len(),
            forall|j: int| 0 <= j < excluded@.len() ==> k < (#[trigger] excluded@[j])@.len(),
            m <= bases@.len(),
            forall|j: int|
                0 <= j < m ==> !(path_starts_with(path@, (#[trigger] bases@[j])@)
                    && excluded@[j]@[k as int]),
        decreases bases@.len() - m,
    {
        if path_has_prefix(path, bases[m].as_str()) && excluded[m][k] {
            return false;
        }
        m = m + 1;
    }
    true
}

/// The pages to render on request after collections were rebuilt: every
/// entry of the link map when no matcher filters them, else those that no
/// matcher excludes.
pub fn pages_to_render(
    bases: &Vec<String>,
    excluded: &Vec<Vec<bool>>,
    links: &Vec<(String, String)>,
) -> (r: Vec<(String, String)>)
    requires
        excluded@.len() == bases@.len(),
        forall|m: int| 0 <= m < excluded@.len() ==> (#[trigger] excluded@[m])@.len() == links@.len(),
    ensures
        r@ == unexcluded_pages(bases@, excluded@, links@),
        bases@.len() == 0 ==> r@ == links@,
{
    let mut r: Vec<(String, String)> = Vec::new();
    let mut k: usize = 0;
    while k < links.len()
        invariant
            excluded@.len() == bases@.len(),
            forall|m: int| 0 <= m < excluded@.len() ==> (#[trigger] excluded@[m])@.len() == links@.len(),
            k <= links@.len(),
            r@ == unexcluded_pages(bases@, excluded@, links@.take(k as int)),
            bases@.len() == 0 ==> r@ == links@.take(k as int),
        decreases links@.len() - k,
    {
        let keep = page_not_excluded(bases, excluded, links[k].1.as_str(), k);
        proof {
            assert(links@.take(k + 1).drop_last() =~= links@.take(k as int));
            assert(links@.take(k + 1).last() == links@[k as int]);
        }
        if keep {
            let entry = (links[k].0.clone(), links[k].1.clone());
            r.push(entry);
            proof {
                assert(links@.take(k + 1) =~= links@.take(k as int).push(links@[k as int]));
            }
        }
        k = k + 1;
    }
    proof {
        assert(links@.take(links@.len() as int) =~= links@);
    }
    r
}

} // verus!
