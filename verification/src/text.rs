//! Verified string primitives on character sequences: replacement of
//! every occurrence of a pattern, prefix and suffix tests and trimming.
use vstd::prelude::*;
use vstd::string::*;

verus! {

/// The characters of `s` with every non-overlapping occurrence of `from`,
/// scanned from the left, replaced by `to`.
pub open spec fn replaced(s: Seq<char>, from: Seq<char>, to: Seq<char>) -> Seq<char>
    decreases s.len(),
{
    if s.len() == 0 || from.len() == 0 {
        s
    } else if from.is_prefix_of(s) {
        to + replaced(s.skip(from.len() as int), from, to)
    } else {
        seq![s[0]] + replaced(s.skip(1), from, to)
    }
}

/// `s` with every leading repetition of `pat` removed.
pub open spec fn trimmed_start(s: Seq<char>, pat: Seq<char>) -> Seq<char>
    decreases s.len(),
{
    if pat.len() > 0 && pat.is_prefix_of(s) {
        trimmed_start(s.skip(pat.len() as int), pat)
    } else {
        s
    }
}

/// `s` with every trailing repetition of `pat` removed.
pub open spec fn trimmed_end(s: Seq<char>, pat: Seq<char>) -> Seq<char>
    decreases s.len(),
{
    if pat.len() > 0 && pat.is_suffix_of(s) {
        trimmed_end(s.take(s.len() - pat.len()), pat)
    } else {
        s
    }
}

/// Whether `pat` occurs in `s` starting at index `i`.
pub fn matches_at(s: &str, n: usize, i: usize, pat: &str, m: usize) -> (r: bool)
    requires
        n == s@.len(),
        m == pat@.len(),
        i <= n,
    ensures
        r == pat@.is_prefix_of(s@.skip(i as int)),
{
    if m > n - i {
        return false;
    }
    let mut k: usize = 0;
    while k < m
        invariant
            n == s@.len(),
            m == pat@.len(),
            i + m <= n,
            k <= m,
            forall|j: int| 0 <= j < k ==> s@[i + j] == pat@[j],
        decreases m - k,
    {
        if s.get_char(i + k) != pat.get_char(k) {
            proof {
                assert(s@.skip(i as int).subrange(0, m as int)[k as int] == s@[i + k]);
            }
            return false;
        }
        k = k + 1;
    }
    proof {
        assert(pat@ =~= s@.skip(i as int).subrange(0, m as int));
    }
    true
}

/// Whether `s` starts with `pat`.
pub fn starts_with(s: &str, pat: &str) -> (r: bool)
    ensures
        r == pat@.is_prefix_of(s@),
{
    let n = s.unicode_len();
    let m = pat.unicode_len();
    let r = matches_at(s, n, 0, pat, m);
    proof {
        assert(s@.skip(0) =~= s@);
    }
    r
}

/// Whether `s` ends with `pat`.
pub fn ends_with(s: &str, pat: &str) -> (r: bool)
    ensures
        r == pat@.is_suffix_of(s@),
{
    let n = s.unicode_len();
    let m = pat.unicode_len();
    if m > n {
        return false;
    }
    let r = matches_at(s, n, n - m, pat, m);
    proof {
        assert(s@.skip((n - m) as int) =~= s@.subrange((n - m) as int, n as int));
        if r {
            assert(pat@ =~= s@.subrange((n - m) as int, n as int));
        }
        if pat@.is_suffix_of(s@) {
            assert(pat@ =~= s@.skip((n - m) as int).subrange(0, m as int));
        }
    }
    r
}

/// Replace every non-overlapping occurrence of `from` in `s` by `to`,
/// scanning from the left.
pub fn replace_all(s: &str, from: &str, to: &str) -> (r: String)
    requires
        from@.len() > 0,
    ensures
        r@ == replaced(s@, from@, to@),
{
    let n = s.unicode_len();
    let m = from.unicode_len();
    let mut res = String::new();
    let mut i: usize = 0;
    proof {
        assert(s@.skip(0) =~= s@);
    }
    while i < n
        invariant
            n == s@.len(),
            m == from@.len(),
            m > 0,
            i <= n,
            res@ + replaced(s@.skip(i as int), from@, to@) == replaced(s@, from@, to@),
        decreases n - i,
    {
        let ghost rest = s@.skip(i as int);
        if matches_at(s, n, i, from, m) {
            proof {
                assert(rest.skip(m as int) =~= s@.skip(i + m));
                assert(replaced(rest, from@, to@) == to@ + replaced(s@.skip(i + m), from@, to@));
                assert(res@ + to@ + replaced(s@.skip(i + m), from@, to@) =~= res@ + (to@
                    + replaced(s@.skip(i + m), from@, to@)));
            }
            res.append(to);
            i = i + m;
        } else {
            let c = s.substring_char(i, i + 1);
            proof {
                assert(rest.skip(1) =~= s@.skip(i + 1));
                assert(c@ =~= seq![rest[0]]);
                assert(replaced(rest, from@, to@) == c@ + replaced(s@.skip(i + 1), from@, to@));
                assert(res@ + c@ + replaced(s@.skip(i + 1), from@, to@) =~= res@ + (c@
                    + replaced(s@.skip(i + 1), from@, to@)));
            }
            res.append(c);
            i = i + 1;
        }
    }
    proof {
        assert(s@.skip(n as int).len() == 0);
        assert(res@ + replaced(s@.skip(n as int), from@, to@) =~= res@);
    }
    res
}

/// Remove every leading repetition of `pat` from `s`.
pub fn trim_start_matches(s: &str, pat: &str) -> (r: String)
    ensures
        r@ == trimmed_start(s@, pat@),
{
    let n = s.unicode_len();
    let m = pat.unicode_len();
    let mut i: usize = 0;
    proof {
        assert(s@.skip(0) =~= s@);
    }
    if m == 0 {
        return s.to_owned();
    }
    while i < n && matches_at(s, n, i, pat, m)
        invariant
            n == s@.len(),
            m == pat@.len(),
            m > 0,
            i <= n,
            trimmed_start(s@.skip(i as int), pat@) == trimmed_start(s@, pat@),
        decreases n - i,
    {
        proof {
            assert(s@.skip(i as int).skip(m as int) =~= s@.skip(i + m));
        }
        i = i + m;
    }
    let r = s.substring_char(i, n);
    proof {
        assert(r@ =~= s@.skip(i as int));
        if i == n {
            assert(!pat@.is_prefix_of(s@.skip(i as int)));
        }
    }
    r.to_owned()
}

/// Remove every trailing repetition of `pat` from `s`.
pub fn trim_end_matches(s: &str, pat: &str) -> (r: String)
    ensures
        r@ == trimmed_end(s@, pat@),
{
    let n = s.unicode_len();
    let m = pat.unicode_len();
    if m == 0 {
        return s.to_owned();
    }
    let mut j: usize = n;
    proof {
        assert(s@.take(n as int) =~= s@);
    }
    while j >= m && matches_at(s, n, j - m, pat, m)
        invariant
            n == s@.len(),
            m == pat@.len(),
            m > 0,
            j <= n,
            trimmed_end(s@.take(j as int), pat@) == trimmed_end(s@, pat@),
        decreases j,
    {
        proof {
            let t = s@.take(j as int);
            assert(s@.skip(j - m).subrange(0, m as int) =~= t.subrange(j - m, j as int));
            assert(pat@.is_suffix_of(t));
            assert(t.take(t.len() - m) =~= s@.take(j - m));
        }
        j = j - m;
    }
    let r = s.substring_char(0, j);
    proof {
        let t = s@.take(j as int);
        assert(r@ =~= t);
        if pat@.is_suffix_of(t) {
            assert(j >= m);
            assert(s@.skip(j - m).subrange(0, m as int) =~= t.subrange(j - m, j as int));
        }
    }
    r.to_owned()
}

/// Whether `a` and `b` hold the same characters.
pub fn str_eq(a: &str, b: &str) -> (r: bool)
    ensures
        r == (a@ == b@),
{
    let r = a.unicode_len() == b.unicode_len() && starts_with(a, b);
    proof {
        if r {
            assert(a@ =~= b@);
        }
        if a@ == b@ {
            assert(b@ =~= a@.subrange(0, b@.len() as int));
        }
    }
    r
}

/// The concatenation of `a` and `b`.
pub fn concat(a: &str, b: &str) -> (r: String)
    ensures
        r@ == a@ + b@,
{
    let mut r = a.to_owned();
    r.append(b);
    r
}

/// Whether `pat` occurs somewhere in `s`.
pub open spec fn occurs_in(s: Seq<char>, pat: Seq<char>) -> bool {
    exists|i: int| 0 <= i <= s.len() && pat.is_prefix_of(#[trigger] s.skip(i))
}

/// Whether `pat` occurs somewhere in `s`.
pub fn contains_str(s: &str, pat: &str) -> (r: bool)
    ensures
        r == occurs_in(s@, pat@),
{
    let n = s.unicode_len();
    let m = pat.unicode_len();
    let mut i: usize = 0;
    while i < n
        invariant
            n == s@.len(),
            m == pat@.len(),
            i <= n,
            forall|k: int| 0 <= k < i ==> !pat@.is_prefix_of(#[trigger] s@.skip(k)),
        decreases n - i,
    {
        if matches_at(s, n, i, pat, m) {
            return true;
        }
        i = i + 1;
    }
    if matches_at(s, n, n, pat, m) {
        return true;
    }
    false
}


/// The character of a decimal digit.
pub open spec fn digit(d: nat) -> char {
    (d + 48) as char
}

/// The decimal representation of `n`, without leading zeros.
pub open spec fn decimal(n: nat) -> Seq<char>
    decreases n,
{
    if n < 10 {
        seq![digit(n)]
    } else {
        decimal(n / 10).push(digit(n % 10))
    }
}

/// The text of the decimal digit `d`.
fn digit_str(d: u64) -> (r: &'static str)
    requires
        d < 10,
    ensures
        r@ == seq![digit(d as nat)],
{
    proof {
        reveal_strlit("0");
        reveal_strlit("1");
        reveal_strlit("2");
        reveal_strlit("3");
        reveal_strlit("4");
        reveal_strlit("5");
        reveal_strlit("6");
        reveal_strlit("7");
        reveal_strlit("8");
        reveal_strlit("9");
    }
    let r = if d == 0 {
        "0"
    } else if d == 1 {
        "1"
    } else if d == 2 {
        "2"
    } else if d == 3 {
        "3"
    } else if d == 4 {
        "4"
    } else if d == 5 {
        "5"
    } else if d == 6 {
        "6"
    } else if d == 7 {
        "7"
    } else if d == 8 {
        "8"
    } else {
        "9"
    };
    assert(r@ =~= seq![digit(d as nat)]);
    r
}

/// The decimal representation of `n`.
pub fn decimal_of(n: u64) -> (r: String)
    ensures
        r@ == decimal(n as nat),
    decreases n,
{
    if n < 10 {
        String::from_str(digit_str(n))
    } else {
        let mut r = decimal_of(n / 10);
        r.append(digit_str(n % 10));
        r
    }
}

} // verus!
