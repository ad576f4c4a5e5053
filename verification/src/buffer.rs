//! The pages to render on request: page hrefs, such as
//! `/docs/navigation/index.html`, each with the file that renders it. A page
//! leaves the buffer when it is taken, so it is rendered once for each time
//! it was marked as changed.
use vstd::prelude::*;

use crate::invalidation::lists;
use crate::text::str_eq;

verus! {

/// The map of a list of pairs, a later pair replacing an earlier one with
/// the same key.
pub open spec fn pairs_map(m: Map<Seq<char>, Seq<char>>, pairs: Seq<(String, String)>) -> Map<
    Seq<char>,
    Seq<char>,
>
    decreases pairs.len(),
{
    if pairs.len() == 0 {
        m
    } else {
        pairs_map(m, pairs.drop_last()).insert(pairs.last().0@, pairs.last().1@)
    }
}

/// No two pairs have the same key.
pub open spec fn distinct_keys(pairs: Seq<(String, String)>) -> bool {
    forall|i: int, j: int|
        0 <= i < pairs.len() && 0 <= j < pairs.len() && i != j ==> (#[trigger] pairs[i]).0@ != (
        #[trigger] pairs[j]).0@
}

/// Pages waiting to be rendered on request, by href.
#[derive(Debug)]
pub struct PageBuffer {
    pages: Vec<(String, String)>,
}

impl View for PageBuffer {
    type V = Map<Seq<char>, Seq<char>>;

    closed spec fn view(&self) -> Map<Seq<char>, Seq<char>> {
        pairs_map(Map::empty(), self.pages@)
    }
}

/// With distinct keys, the map holds each pair's key with its value, and
/// no other key.
pub proof fn lemma_pairs_map(pairs: Seq<(String, String)>)
    requires
        distinct_keys(pairs),
    ensures
        forall|i: int|
            0 <= i < pairs.len() ==> #[trigger] pairs_map(Map::empty(), pairs).contains_key(
                pairs[i].0@,
            ) && pairs_map(Map::empty(), pairs)[pairs[i].0@] == pairs[i].1@,
        forall|k: Seq<char>|
            #[trigger] pairs_map(Map::empty(), pairs).contains_key(k) ==> exists|i: int|
                0 <= i < pairs.len() && (#[trigger] pairs[i]).0@ == k,
    decreases pairs.len(),
{
    if pairs.len() > 0 {
        let init = pairs.drop_last();
        assert(distinct_keys(init)) by {
            assert forall|i: int, j: int|
                0 <= i < init.len() && 0 <= j < init.len() && i != j implies (#[trigger] init[i]).0@
                != (#[trigger] init[j]).0@ by {
                assert(init[i] == pairs[i] && init[j] == pairs[j]);
            }
        }
        lemma_pairs_map(init);
        let m0 = pairs_map(Map::empty(), init);
        let last = pairs[pairs.len() - 1];
        assert(pairs.last() == last);
        assert(pairs_map(Map::empty(), pairs) == m0.insert(last.0@, last.1@));
        assert forall|i: int| 0 <= i < pairs.len() implies #[trigger] pairs_map(
            Map::empty(),
            pairs,
        ).contains_key(pairs[i].0@) && pairs_map(Map::empty(), pairs)[pairs[i].0@] == pairs[i].1@ by {
            if i < pairs.len() - 1 {
                assert(init[i] == pairs[i]);
                assert(m0.contains_key(init[i].0@));
                assert(pairs[i].0@ != last.0@);
            }
        }
        assert forall|k: Seq<char>| #[trigger] pairs_map(Map::empty(), pairs).contains_key(
            k,
        ) implies exists|i: int| 0 <= i < pairs.len() && (#[trigger] pairs[i]).0@ == k by {
            if k != last.0@ {
                assert(m0.contains_key(k));
                let i = choose|i: int| 0 <= i < init.len() && (#[trigger] init[i]).0@ == k;
                assert(init[i] == pairs[i]);
            }
        }
    }
}

impl PageBuffer {
    /// No href is held twice.
    pub closed spec fn wf(&self) -> bool {
        distinct_keys(self.pages@)
    }

    /// An empty buffer.
    pub fn new() -> (r: Self)
        ensures
            r.wf(),
            r@ == Map::<Seq<char>, Seq<char>>::empty(),
    {
        PageBuffer { pages: Vec::new() }
    }

    /// The index of the entry for `href`, if any.
    fn find(&self, href: &str) -> (r: Option<usize>)
        requires
            self.wf(),
        ensures
            match r {
                Some(i) => i < self.pages@.len() && self.pages@[i as int].0@ == href@,
                None => forall|k: int|
                    0 <= k < self.pages@.len() ==> (#[trigger] self.pages@[k]).0@ != href@,
            },
    {
        let mut i: usize = 0;
        while i < self.pages.len()
            invariant
                i <= self.pages@.len(),
                forall|k: int| 0 <= k < i ==> (#[trigger] self.pages@[k]).0@ != href@,
            decreases self.pages@.len() - i,
        {
            if str_eq(self.pages[i].0.as_str(), href) {
                return Some(i);
            }
            i = i + 1;
        }
        None
    }

    /// Whether the page at `href` waits to be rendered.
    pub fn has_page_path(&self, href: &str) -> (r: bool)
        requires
            self.wf(),
        ensures
            r == self@.contains_key(href@),
    {
        proof {
            lemma_pairs_map(self.pages@);
        }
        match self.find(href) {
            Some(_) => true,
            None => {
                proof {
                    if self@.contains_key(href@) {
                        let i = choose|i: int| 0 <= i < self.pages@.len() && (#[trigger] self.pages@[i]).0@ == href@;
                    }
                }
                false
            },
        }
    }

    /// Take the page at `href` out of the buffer: the file that renders it,
    /// when it was waiting.
    #[verifier::rlimit(40)]
    pub fn take(&mut self, href: &str) -> (r: Option<String>)
        requires
            old(self).wf(),
        ensures
            final(self).wf(),
            final(self)@ == old(self)@.remove(href@),
            r is Some == old(self)@.contains_key(href@),
            r matches Some(p) ==> p@ == old(self)@[href@],
    {
        proof {
            lemma_pairs_map(self.pages@);
        }
        match self.find(href) {
            Some(i) => {
                let ghost before = self.pages@;
                proof {
                    assert(old(self)@.contains_key(before[i as int].0@));
                }
                let (_, path) = self.pages.remove(i);
                proof {
                    assert(distinct_keys(self.pages@)) by {
                        assert forall|a: int, b: int|
                            0 <= a < self.pages@.len() && 0 <= b < self.pages@.len() && a != b implies (
                            #[trigger] self.pages@[a]).0@ != (#[trigger] self.pages@[b]).0@ by {
                            let a0 = if a < i { a } else { a + 1 };
                            let b0 = if b < i { b } else { b + 1 };
                            assert(self.pages@[a] == before[a0]);
                            assert(self.pages@[b] == before[b0]);
                        }
                    }
                    lemma_pairs_map(self.pages@);
                    assert forall|k: Seq<char>| #[trigger] self@.contains_key(k) == old(self)@.remove(
                        href@,
                    ).contains_key(k) by {
                        if self@.contains_key(k) {
                            let j = choose|j: int| 0 <= j < self.pages@.len() && (#[trigger] self.pages@[j]).0@ == k;
                            let j0 = if j < i { j } else { j + 1 };
                            assert(self.pages@[j] == before[j0]);
                        }
                        if old(self)@.remove(href@).contains_key(k) {
                            let j = choose|j: int| 0 <= j < before.len() && (#[trigger] before[j]).0@ == k;
                            assert(j != i);
                            let j1 = if j < i { j } else { j - 1 };
                            assert(self.pages@[j1] == before[j]);
                        }
                    }
                    assert forall|k: Seq<char>| #[trigger] self@.contains_key(k) implies self@[k]
                        == old(self)@[k] by {
                        let j = choose|j: int| 0 <= j < self.pages@.len() && (#[trigger] self.pages@[j]).0@ == k;
                        let j0 = if j < i { j } else { j + 1 };
                        assert(self.pages@[j] == before[j0]);
                    }
                    assert(self@ =~= old(self)@.remove(href@));
                }
                Some(path)
            },
            None => {
                proof {
                    if old(self)@.contains_key(href@) {
                        let i = choose|i: int| 0 <= i < self.pages@.len() && (#[trigger] self.pages@[i]).0@ == href@;
                    }
                    assert(self@ =~= old(self)@.remove(href@));
                }
                None
            },
        }
    }

    /// Mark the page at `href`, rendered from `path`, as changed.
    #[verifier::rlimit(40)]
    pub fn insert(&mut self, href: &str, path: &str)
        requires
            old(self).wf(),
        ensures
            final(self).wf(),
            final(self)@ == old(self)@.insert(href@, path@),
    {
        proof {
            lemma_pairs_map(self.pages@);
        }
        let ghost before = self.pages@;
        match self.find(href) {
            Some(i) => {
                self.pages.set(i, (href.to_owned(), path.to_owned()));
                proof {
                    assert(distinct_keys(self.pages@)) by {
                        assert forall|a: int, b: int|
                            0 <= a < self.pages@.len() && 0 <= b < self.pages@.len() && a != b implies (
                            #[trigger] self.pages@[a]).0@ != (#[trigger] self.pages@[b]).0@ by {
                            if a != i {
                                assert(self.pages@[a] == before[a]);
                            }
                            if b != i {
                                assert(self.pages@[b] == before[b]);
                            }
                        }
                    }
                    lemma_pairs_map(self.pages@);
                    assert forall|k: Seq<char>| #[trigger] self@.contains_key(k) == old(self)@.insert(
                        href@,
                        path@,
                    ).contains_key(k) by {
                        assert(self.pages@[i as int].0@ == href@);
                        assert(self@.contains_key(self.pages@[i as int].0@));
                        if self@.contains_key(k) {
                            let j = choose|j: int| 0 <= j < self.pages@.len() && (#[trigger] self.pages@[j]).0@ == k;
                            if j != i {
                                assert(self.pages@[j] == before[j]);
                                assert(old(self)@.contains_key(before[j].0@));
                            }
                        }
                        if old(self)@.contains_key(k) {
                            let j = choose|j: int| 0 <= j < before.len() && (#[trigger] before[j]).0@ == k;
                            if j != i {
                                assert(self.pages@[j] == before[j]);
                                assert(self@.contains_key(self.pages@[j].0@));
                            }
                        }
                    }
                    assert forall|k: Seq<char>| #[trigger] self@.contains_key(k) implies self@[k]
                        == old(self)@.insert(href@, path@)[k] by {
                        let j = choose|j: int| 0 <= j < self.pages@.len() && (#[trigger] self.pages@[j]).0@ == k;
                        if j != i {
                            assert(self.pages@[j] == before[j]);
                        }
                    }
                    assert(self@ =~= old(self)@.insert(href@, path@));
                }
            },
            None => {
                self.pages.push((href.to_owned(), path.to_owned()));
                proof {
                    assert(self.pages@.drop_last() =~= before);
                    assert(distinct_keys(self.pages@)) by {
                        assert forall|a: int, b: int|
                            0 <= a < self.pages@.len() && 0 <= b < self.pages@.len() && a != b implies (
                            #[trigger] self.pages@[a]).0@ != (#[trigger] self.pages@[b]).0@ by {
                            if a < before.len() {
                                assert(self.pages@[a] == before[a]);
                            }
                            if b < before.len() {
                                assert(self.pages@[b] == before[b]);
                            }
                        }
                    }
                }
            },
        }
    }

    /// Mark each page of `pages`, an href and the file that renders it, as
    /// changed; a later pair replaces an earlier one with the same href.
    pub fn extend(&mut self, pages: &Vec<(String, String)>)
        requires
            old(self).wf(),
        ensures
            final(self).wf(),
            final(self)@ == pairs_map(old(self)@, pages@),
    {
        let mut i: usize = 0;
        while i < pages.len()
            invariant
                self.wf(),
                i <= pages@.len(),
                self@ == pairs_map(old(self)@, pages@.take(i as int)),
            decreases pages@.len() - i,
        {
            self.insert(pages[i].0.as_str(), pages[i].1.as_str());
            proof {
                assert(pages@.take(i + 1).drop_last() =~= pages@.take(i as int));
            }
            i = i + 1;
        }
        proof {
            assert(pages@.take(pages@.len() as int) =~= pages@);
        }
    }

    /// Drop the pages rendered from any of `paths`, taken by their
    /// components: synthetic pages are not rendered on request.
    #[verifier::rlimit(40)]
    pub fn drop_paths(&mut self, paths: &Vec<String>)
        requires
            old(self).wf(),
        ensures
            final(self).wf(),
            final(self)@.dom() == old(self)@.dom().filter(|h: Seq<char>| !lists(paths@, old(self)@[h])),
            forall|h: Seq<char>| #[trigger] final(self)@.contains_key(h) ==> final(self)@[h] == old(self)@[h],
    {
        let ghost start = self@;
        let mut kept: Vec<(String, String)> = Vec::new();
        let mut i: usize = 0;
        proof {
            lemma_pairs_map(self.pages@);
        }
        while i < self.pages.len()
            invariant
                self.wf(),
                self@ == start,
                i <= self.pages@.len(),
                distinct_keys(kept@),
                forall|k: int| 0 <= k < kept@.len() ==> exists|j: int| 0 <= j < i && #[trigger] kept@[k] == self.pages@[j],
                forall|j: int| 0 <= j < i && !lists(paths@, (#[trigger] self.pages@[j]).1@) ==> exists|k: int|
                    0 <= k < kept@.len() && kept@[k] == self.pages@[j],
                forall|k: int| 0 <= k < kept@.len() ==> !lists(paths@, (#[trigger] kept@[k]).1@),
            decreases self.pages@.len() - i,
        {
            if !crate::invalidation::contains_path(paths, self.pages[i].1.as_str()) {
                let ghost before = kept@;
                let e = (self.pages[i].0.clone(), self.pages[i].1.clone());
                kept.push(e);
                proof {
                    assert(kept@[before.len() as int] == self.pages@[i as int]);
                    assert forall|a: int, b: int|
                        0 <= a < kept@.len() && 0 <= b < kept@.len() && a != b implies (#[trigger] kept@[a]).0@
                        != (#[trigger] kept@[b]).0@ by {
                        if a < before.len() && b < before.len() {
                            assert(kept@[a] == before[a] && kept@[b] == before[b]);
                        } else if a < before.len() {
                            assert(kept@[a] == before[a]);
                            let j = choose|j: int| 0 <= j < i && #[trigger] before[a] == self.pages@[j];
                        } else if b < before.len() {
                            assert(kept@[b] == before[b]);
                            let j = choose|j: int| 0 <= j < i && #[trigger] before[b] == self.pages@[j];
                        }
                    }
                    assert forall|k: int| 0 <= k < kept@.len() implies exists|j: int| 0 <= j < i + 1 && #[trigger] kept@[k] == self.pages@[j] by {
                        if k < before.len() {
                            assert(kept@[k] == before[k]);
                        } else {
                            assert(kept@[k] == self.pages@[i as int]);
                        }
                    }
                    assert forall|j: int| 0 <= j < i + 1 && !lists(paths@, (#[trigger] self.pages@[j]).1@) implies exists|k: int|
                        0 <= k < kept@.len() && kept@[k] == self.pages@[j] by {
                        if j < i {
                            let k = choose|k: int| 0 <= k < before.len() && before[k] == self.pages@[j];
                            assert(kept@[k] == before[k]);
                        } else {
                            assert(kept@[before.len() as int] == self.pages@[j]);
                        }
                    }
                    assert forall|k: int| 0 <= k < kept@.len() implies !lists(paths@, (#[trigger] kept@[k]).1@) by {
                        if k < before.len() {
                            assert(kept@[k] == before[k]);
                        }
                    }
                }
            }
            i = i + 1;
        }
        let ghost all = self.pages@;
        proof {
            assert(start == pairs_map(Map::empty(), all));
        }
        self.pages = kept;
        proof {
            lemma_pairs_map(all);
            lemma_pairs_map(self.pages@);
            assert forall|h: Seq<char>| #[trigger] self@.contains_key(h) == start.dom().filter(
                |h: Seq<char>| !lists(paths@, start[h]),
            ).contains(h) by {
                if self@.contains_key(h) {
                    let k = choose|k: int| 0 <= k < self.pages@.len() && (#[trigger] self.pages@[k]).0@ == h;
                    let j = choose|j: int| 0 <= j < all.len() && #[trigger] self.pages@[k] == all[j];
                    assert(start.contains_key(all[j].0@));
                    assert(start[h] == all[j].1@);
                }
                if start.contains_key(h) && !lists(paths@, start[h]) {
                    let j = choose|j: int| 0 <= j < all.len() && (#[trigger] all[j]).0@ == h;
                    assert(start[h] == all[j].1@);
                    let k = choose|k: int| 0 <= k < self.pages@.len() && self.pages@[k] == all[j];
                    assert(self.pages@[k].0@ == h);
                }
            }
            assert(self@.dom() =~= start.dom().filter(|h: Seq<char>| !lists(paths@, start[h])));
            assert forall|h: Seq<char>| #[trigger] self@.contains_key(h) implies self@[h] == start[h] by {
                let k = choose|k: int| 0 <= k < self.pages@.len() && (#[trigger] self.pages@[k]).0@ == h;
                let j = choose|j: int| 0 <= j < all.len() && #[trigger] self.pages@[k] == all[j];
            }
        }
    }
}

/// A page taken from the buffer waits no more, so taking it again gives
/// nothing until it is marked as changed again: each change renders a page
/// once.
pub proof fn lemma_taken_once(before: Map<Seq<char>, Seq<char>>, after: Map<Seq<char>, Seq<char>>, href: Seq<char>)
    requires
        after == before.remove(href),
    ensures
        !after.contains_key(href),
        after.remove(href) == after,
{
    assert(after.remove(href) =~= after);
}

} // verus!
