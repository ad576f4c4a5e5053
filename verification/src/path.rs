//! File system paths held as text with `/` separators, compared by their
//! components as `std::path::Path` compares them on Unix.
use vstd::prelude::*;
use vstd::string::*;

use crate::split::{join_with, joined, split_char, split_on, str_views, views};
use crate::text::{concat, ends_with, starts_with};

verus! {

/// The component that stands for the root directory.
pub open spec fn root_component() -> Seq<char> {
    seq!['/']
}

/// The component that stands for a leading current directory.
pub open spec fn cur_component() -> Seq<char> {
    seq!['.']
}

/// A normal component: a non-empty piece other than `.`.
pub open spec fn is_normal(p: Seq<char>) -> bool {
    p.len() > 0 && p != cur_component()
}

/// The normal pieces, in order.
pub open spec fn keep_normal(pieces: Seq<Seq<char>>) -> Seq<Seq<char>>
    decreases pieces.len(),
{
    if pieces.len() == 0 {
        Seq::<Seq<char>>::empty()
    } else {
        let r = keep_normal(pieces.drop_last());
        if is_normal(pieces.last()) {
            r.push(pieces.last())
        } else {
            r
        }
    }
}

/// The leading component: the root for an absolute path, the current
/// directory for a path whose first piece is `.`, else none.
pub open spec fn lead_components(s: Seq<char>) -> Seq<Seq<char>> {
    if s.len() > 0 && s[0] == '/' {
        seq![root_component()]
    } else if split_on(s, '/')[0] == cur_component() {
        seq![cur_component()]
    } else {
        Seq::<Seq<char>>::empty()
    }
}

/// The components of a path: repeated separators and `.` pieces are
/// dropped, except a `.` at the start.
pub open spec fn components(s: Seq<char>) -> Seq<Seq<char>> {
    lead_components(s) + keep_normal(split_on(s, '/'))
}

/// Whether the components of `base` are the first components of `path`.
pub open spec fn path_starts_with(path: Seq<char>, base: Seq<char>) -> bool {
    components(base).is_prefix_of(components(path))
}

/// Whether `s` is an absolute path.
pub open spec fn is_absolute(s: Seq<char>) -> bool {
    s.len() > 0 && s[0] == '/'
}

/// `path` appended to `base` as `PathBuf::push` does: an absolute `path`
/// replaces `base`, else a separator is put between them unless `base` is
/// empty or already ends with one.
pub open spec fn path_joined(base: Seq<char>, path: Seq<char>) -> Seq<char> {
    if is_absolute(path) {
        path
    } else if base.len() == 0 || base.last() == '/' {
        base + path
    } else {
        base.push('/') + path
    }
}

/// Whether a text is the single character `.`.
fn is_cur(p: &str) -> (r: bool)
    ensures
        r == (p@ == cur_component()),
{
    proof {
        reveal_strlit(".");
        assert("."@ =~= cur_component());
    }
    let r = p.unicode_len() == 1 && starts_with(p, ".");
    proof {
        if r {
            assert(p@ =~= cur_component());
        }
    }
    r
}

/// The components of `s`.
pub fn path_components(s: &str) -> (r: Vec<String>)
    ensures
        views(r@) == components(s@),
{
    let pieces = split_char(s, '/');
    let ghost ps = split_on(s@, '/');
    proof {
        crate::split::lemma_split_on_nonempty(s@, '/');
        assert(ps[0] == pieces@[0]@);
    }
    let mut out: Vec<String> = Vec::new();
    let n = s.unicode_len();
    if n > 0 && s.get_char(0) == '/' {
        let root = String::from_str("/");
        proof {
            reveal_strlit("/");
            assert(root@ =~= root_component());
            crate::split::lemma_views_push(out@, root);
        }
        out.push(root);
        proof {
            assert(views(out@) =~= lead_components(s@));
        }
    } else if is_cur(pieces[0].as_str()) {
        let cur = String::from_str(".");
        proof {
            reveal_strlit(".");
            assert(cur@ =~= cur_component());
            crate::split::lemma_views_push(out@, cur);
        }
        out.push(cur);
        proof {
            assert(views(out@) =~= lead_components(s@));
        }
    } else {
        proof {
            assert(views(out@) =~= lead_components(s@));
        }
    }
    let ghost lead = views(out@);
    let m = pieces.len();
    let mut i: usize = 0;
    proof {
        assert(ps.take(0) =~= Seq::<Seq<char>>::empty());
        assert(views(out@) =~= lead + keep_normal(ps.take(0)));
    }
    while i < m
        invariant
            m == pieces@.len(),
            ps == views(pieces@),
            i <= m,
            views(out@) == lead + keep_normal(ps.take(i as int)),
        decreases m - i,
    {
        let piece = &pieces[i];
        proof {
            assert(ps.take(i + 1).drop_last() =~= ps.take(i as int));
            assert(ps.take(i + 1).last() == piece@);
        }
        if piece.unicode_len() > 0 && !is_cur(piece.as_str()) {
            let kept = piece.clone();
            proof {
                crate::split::lemma_views_push(out@, kept);
            }
            out.push(kept);
            proof {
                assert(views(out@) =~= lead + keep_normal(ps.take(i as int)).push(piece@));
            }
        }
        i = i + 1;
    }
    proof {
        assert(ps.take(m as int) =~= ps);
    }
    out
}

/// Whether the components of `base` are the first components of `path`.
pub fn path_has_prefix(path: &str, base: &str) -> (r: bool)
    ensures
        r == path_starts_with(path@, base@),
{
    let p = path_components(path);
    let b = path_components(base);
    if b.len() > p.len() {
        return false;
    }
    let n = b.len();
    let mut i: usize = 0;
    while i < n
        invariant
            n == b@.len(),
            n <= p@.len(),
            views(b@) == components(base@),
            views(p@) == components(path@),
            i <= n,
            forall|j: int| 0 <= j < i ==> b@[j]@ == p@[j]@,
        decreases n - i,
    {
        if !(b[i] == p[i]) {
            proof {
                assert(views(b@)[i as int] == b@[i as int]@);
                assert(views(p@)[i as int] == p@[i as int]@);
                assert(views(b@).len() == n);
                if path_starts_with(path@, base@) {
                    assert(views(b@) == views(p@).subrange(0, n as int));
                    assert(views(p@).subrange(0, n as int)[i as int] == views(p@)[i as int]);
                }
            }
            return false;
        }
        i = i + 1;
    }
    proof {
        assert(views(b@) =~= views(p@).subrange(0, n as int));
    }
    true
}

/// Append `path` to `base` as `PathBuf::push` does.
pub fn join_path(base: &str, path: &str) -> (r: String)
    ensures
        r@ == path_joined(base@, path@),
{
    let n = path.unicode_len();
    if n > 0 && path.get_char(0) == '/' {
        return path.to_owned();
    }
    proof {
        reveal_strlit("/");
    }
    if base.unicode_len() == 0 || ends_with(base, "/") {
        proof {
            if base@.len() > 0 {
                assert(base@.last() == base@[base@.len() - 1]);
                assert("/"@ =~= seq!['/']);
                assert(base@.subrange(base@.len() - 1, base@.len() as int)[0] == base@.last());
            }
        }
        concat(base, path)
    } else {
        proof {
            assert("/"@ =~= seq!['/']);
            if base@.last() == '/' {
                assert(seq!['/'] =~= base@.subrange(base@.len() - 1, base@.len() as int));
            }
        }
        let with_sep = concat(base, "/");
        proof {
            assert(with_sep@ =~= base@.push('/'));
        }
        concat(with_sep.as_str(), path)
    }
}

/// Whether two paths have the same components.
pub fn same_path(a: &str, b: &str) -> (r: bool)
    ensures
        r == (components(a@) == components(b@)),
{
    let ca = path_components(a);
    let cb = path_components(b);
    if ca.len() != cb.len() {
        proof {
            assert(views(ca@).len() != views(cb@).len());
        }
        return false;
    }
    let mut i: usize = 0;
    while i < ca.len()
        invariant
            views(ca@) == components(a@),
            views(cb@) == components(b@),
            ca@.len() == cb@.len(),
            i <= ca@.len(),
            forall|k: int| 0 <= k < i ==> ca@[k]@ == cb@[k]@,
        decreases ca@.len() - i,
    {
        if !(ca[i] == cb[i]) {
            proof {
                assert(views(ca@)[i as int] != views(cb@)[i as int]);
            }
            return false;
        }
        i = i + 1;
    }
    proof {
        assert(views(ca@) =~= views(cb@));
    }
    true
}

/// `path` without the leading components of `base`, as `Path::strip_prefix`
/// gives it: nothing when `base` is not a prefix of `path`; `path` itself
/// when `base` has no component; else the remaining components joined with
/// `/`.
pub open spec fn stripped(path: Seq<char>, base: Seq<char>) -> Option<Seq<char>> {
    if !path_starts_with(path, base) {
        None
    } else if components(base).len() == 0 {
        Some(path)
    } else {
        Some(joined(components(path).skip(components(base).len() as int), '/'))
    }
}

/// `path` without the leading components of `base`.
pub fn strip_prefix(path: &str, base: &str) -> (r: Option<String>)
    ensures
        match r {
            Some(x) => stripped(path@, base@) == Some(x@),
            None => stripped(path@, base@) is None,
        },
{
    if !path_has_prefix(path, base) {
        return None;
    }
    let b = path_components(base);
    if b.len() == 0 {
        return Some(path.to_owned());
    }
    let p = path_components(path);
    let n = b.len();
    proof {
        assert(views(b@).len() == b@.len());
        assert(views(p@).len() == p@.len());
    }
    let mut rest: Vec<&str> = Vec::new();
    let mut i: usize = n;
    while i < p.len()
        invariant
            n <= i <= p@.len(),
            str_views(rest@) == views(p@).subrange(n as int, i as int),
        decreases p@.len() - i,
    {
        let piece = p[i].as_str();
        let ghost before = rest@;
        rest.push(piece);
        proof {
            assert(piece@ == views(p@)[i as int]);
            assert(rest@ == before.push(piece));
            assert(str_views(rest@) =~= str_views(before).push(piece@));
            assert(str_views(rest@) =~= views(p@).subrange(n as int, i + 1));
        }
        i = i + 1;
    }
    proof {
        reveal_strlit("/");
        assert("/"@ =~= seq!['/']);
        assert(views(p@).subrange(n as int, p@.len() as int) =~= components(path@).skip(n as int));
    }
    Some(join_with(&rest, "/"))
}

/// The path of `file` relative to `base`, put under `target`: nothing when
/// `base` is not a prefix of `file`. Both are canonical paths.
pub open spec fn relative(file: Seq<char>, base: Seq<char>, target: Seq<char>) -> Option<Seq<char>> {
    match stripped(file, base) {
        Some(r) => Some(path_joined(target, r)),
        None => None,
    }
}

/// The path of the canonical `file` relative to the canonical `base`, put
/// under `target`.
pub fn relative_to(file: &str, base: &str, target: &str) -> (r: Option<String>)
    ensures
        match r {
            Some(x) => relative(file@, base@, target@) == Some(x@),
            None => relative(file@, base@, target@) is None,
        },
{
    match strip_prefix(file, base) {
        Some(r) => Some(join_path(target, r.as_str())),
        None => None,
    }
}

/// The canonical form of `src`: the path it resolves to when it exists
/// and resolves, else `src` itself.
pub fn canonical(src: &str, resolved: Option<String>) -> (r: String)
    ensures
        r@ == (match resolved {
            Some(c) => c@,
            None => src@,
        }),
{
    match resolved {
        Some(c) => c,
        None => src.to_owned(),
    }
}

} // verus!
