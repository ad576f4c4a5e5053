//! Splitting text on a separator character and joining pieces with one.
use vstd::prelude::*;
use vstd::string::*;

use crate::text::concat;

verus! {

/// The pieces of `s` between occurrences of `c`, from left to right; an
/// empty text is one empty piece and a text of `k` separators has `k + 1`
/// pieces.
pub open spec fn split_on(s: Seq<char>, c: char) -> Seq<Seq<char>>
    decreases s.len(),
{
    if s.len() == 0 {
        seq![Seq::<char>::empty()]
    } else {
        let r = split_on(s.drop_last(), c);
        if s.last() == c {
            r.push(Seq::<char>::empty())
        } else {
            r.update(r.len() - 1, r.last().push(s.last()))
        }
    }
}

/// The pieces joined with `c` between each two of them.
pub open spec fn joined(pieces: Seq<Seq<char>>, c: char) -> Seq<char>
    decreases pieces.len(),
{
    if pieces.len() == 0 {
        Seq::<char>::empty()
    } else if pieces.len() == 1 {
        pieces[0]
    } else {
        joined(pieces.drop_last(), c).push(c) + pieces.last()
    }
}

/// The views of a vector of strings.
pub open spec fn views(v: Seq<String>) -> Seq<Seq<char>> {
    v.map_values(|x: String| x@)
}

/// The views of a vector of string slices.
pub open spec fn str_views(v: Seq<&str>) -> Seq<Seq<char>> {
    v.map_values(|x: &str| x@)
}

/// Views of a vector with one more string.
pub proof fn lemma_views_push(v: Seq<String>, x: String)
    ensures
        views(v.push(x)) == views(v).push(x@),
{
    assert(views(v.push(x)) =~= views(v).push(x@));
}

pub proof fn lemma_split_on_nonempty(s: Seq<char>, c: char)
    ensures
        split_on(s, c).len() >= 1,
    decreases s.len(),
{
    if s.len() > 0 {
        lemma_split_on_nonempty(s.drop_last(), c);
    }
}

/// Split `s` on every occurrence of `c`.
pub fn split_char(s: &str, c: char) -> (r: Vec<String>)
    ensures
        views(r@) == split_on(s@, c),
{
    let n = s.unicode_len();
    let mut pieces: Vec<String> = Vec::new();
    let mut cur = String::new();
    let mut i: usize = 0;
    proof {
        assert(s@.take(0) =~= Seq::<char>::empty());
        assert(views(pieces@).push(cur@) =~= split_on(s@.take(0), c));
    }
    while i < n
        invariant
            n == s@.len(),
            i <= n,
            views(pieces@).push(cur@) == split_on(s@.take(i as int), c),
        decreases n - i,
    {
        let ch = s.get_char(i);
        let ghost before = s@.take(i as int);
        proof {
            assert(s@.take(i + 1).drop_last() =~= before);
            assert(s@.take(i + 1).last() == ch);
        }
        if ch == c {
            let old = cur;
            pieces.push(old);
            cur = String::new();
            proof {
                assert(views(pieces@).push(cur@) =~= split_on(before, c).push(Seq::<char>::empty()));
            }
        } else {
            let piece = s.substring_char(i, i + 1);
            proof {
                assert(piece@ =~= seq![ch]);
                lemma_split_on_nonempty(before, c);
            }
            let ghost prev = cur@;
            cur.append(piece);
            proof {
                let r = split_on(before, c);
                assert(cur@ =~= prev.push(ch));
                assert(r =~= views(pieces@).push(prev));
                assert(r.last() == prev);
                assert(views(pieces@).push(cur@) =~= r.update(r.len() - 1, r.last().push(ch)));
            }
        }
        i = i + 1;
    }
    pieces.push(cur);
    proof {
        assert(s@.take(n as int) =~= s@);
        assert(views(pieces@) =~= split_on(s@, c));
    }
    pieces
}

/// Join `pieces` with `sep` between each two of them.
pub fn join_with(pieces: &Vec<&str>, sep: &str) -> (r: String)
    requires
        sep@.len() == 1,
    ensures
        r@ == joined(str_views(pieces@), sep@[0]),
{
    let n = pieces.len();
    let mut r = String::new();
    let mut i: usize = 0;
    while i < n
        invariant
            n == pieces@.len(),
            sep@.len() == 1,
            i <= n,
            r@ == joined(str_views(pieces@.take(i as int)), sep@[0]),
        decreases n - i,
    {
        let ghost before = str_views(pieces@.take(i as int));
        let ghost after = str_views(pieces@.take(i + 1));
        proof {
            assert(after.drop_last() =~= before);
            assert(after.last() == pieces@[i as int]@);
        }
        if i == 0 {
            r = concat(r.as_str(), pieces[i]);
            proof {
                assert(r@ =~= after[0]);
            }
        } else {
            let with_sep = concat(r.as_str(), sep);
            r = concat(with_sep.as_str(), pieces[i]);
            proof {
                assert(sep@ =~= seq![sep@[0]]);
                assert(r@ =~= joined(before, sep@[0]).push(sep@[0]) + after.last());
            }
        }
        i = i + 1;
    }
    proof {
        assert(pieces@.take(n as int) =~= pieces@);
    }
    r
}

/// Splitting the pieces joined with `c` gives the pieces back when none of
/// them holds `c`.
pub proof fn lemma_split_joined(pieces: Seq<Seq<char>>, c: char)
    requires
        pieces.len() >= 1,
        forall|i: int| 0 <= i < pieces.len() ==> !(#[trigger] pieces[i]).contains(c),
    ensures
        split_on(joined(pieces, c), c) == pieces,
    decreases pieces.len(),
{
    if pieces.len() == 1 {
        lemma_split_piece(pieces[0], c);
        assert(split_on(pieces[0], c) =~= pieces);
    } else {
        let init = pieces.drop_last();
        assert forall|i: int| 0 <= i < init.len() implies !(#[trigger] init[i]).contains(c) by {
            assert(init[i] == pieces[i]);
        }
        lemma_split_joined(init, c);
        let front = joined(init, c).push(c);
        assert(split_on(front, c) == pieces.drop_last().push(Seq::<char>::empty())) by {
            assert(front.drop_last() =~= joined(init, c));
        }
        lemma_split_append(front, pieces.last(), c);
        assert(split_on(joined(pieces, c), c) =~= pieces);
    }
}

/// A piece without `c` splits into itself.
pub proof fn lemma_split_piece(p: Seq<char>, c: char)
    requires
        !p.contains(c),
    ensures
        split_on(p, c) == seq![p],
    decreases p.len(),
{
    if p.len() > 0 {
        let q = p.drop_last();
        assert(!q.contains(c)) by {
            if q.contains(c) {
                let k = choose|k: int| 0 <= k < q.len() && q[k] == c;
                assert(p[k] == c);
            }
        }
        lemma_split_piece(q, c);
        assert(p.last() != c) by {
            assert(p[p.len() - 1] == p.last());
        }
        assert(q.push(p.last()) =~= p);
        assert(split_on(p, c) =~= seq![p]);
    } else {
        assert(p =~= Seq::<char>::empty());
    }
}

/// Appending a piece without `c` to a text extends the last piece.
pub proof fn lemma_split_append(front: Seq<char>, tail: Seq<char>, c: char)
    requires
        !tail.contains(c),
    ensures
        ({
            let r = split_on(front, c);
            split_on(front + tail, c) == r.update(r.len() - 1, r.last() + tail)
        }),
    decreases tail.len(),
{
    lemma_split_on_nonempty(front, c);
    if tail.len() == 0 {
        let r = split_on(front, c);
        assert(front + tail =~= front);
        assert(r.last() + tail =~= r.last());
        assert(r.update(r.len() - 1, r.last() + tail) =~= r);
    } else {
        let t = tail.drop_last();
        assert(!t.contains(c)) by {
            if t.contains(c) {
                let k = choose|k: int| 0 <= k < t.len() && t[k] == c;
                assert(tail[k] == c);
            }
        }
        lemma_split_append(front, t, c);
        assert(tail.last() != c) by {
            assert(tail[tail.len() - 1] == tail.last());
        }
        let whole = front + tail;
        assert(whole.drop_last() =~= front + t);
        assert(whole.last() == tail.last());
        let r = split_on(front, c);
        lemma_split_on_nonempty(front + t, c);
        assert((r.last() + t).push(tail.last()) =~= r.last() + tail);
        assert(split_on(whole, c) =~= r.update(r.len() - 1, r.last() + tail));
    }
}

} // verus!
