//! Looking up values in JSON documents by dot-delimited paths.
use vstd::prelude::*;

use crate::split::{split_char, split_on, views};
use crate::text::str_eq;

verus! {

/// A JSON value; a number is held as its JSON text, an object as its
/// entries in order.
#[derive(Debug)]
pub enum Json {
    Null,
    Bool(bool),
    Number(String),
    Str(String),
    Array(Vec<Json>),
    Object(Vec<(String, Json)>),
}

/// Whether `c` is a decimal digit.
pub open spec fn is_digit(c: char) -> bool {
    '0' <= c && c <= '9'
}

/// The value of a run of decimal digits.
pub open spec fn digits_value(s: Seq<char>) -> nat
    decreases s.len(),
{
    if s.len() == 0 {
        0
    } else {
        digits_value(s.drop_last()) * 10 + (s.last() as nat - 48) as nat
    }
}

/// The index a field names, as `usize::from_str` reads it, without its
/// bound: an optional `+` then one or more decimal digits.
pub open spec fn index_of(s: Seq<char>) -> Option<nat> {
    if index_digits(s).len() > 0 && all_digits(index_digits(s)) {
        Some(digits_value(index_digits(s)))
    } else {
        None
    }
}

/// The digits of an index: the text without a leading `+`.
pub open spec fn index_digits(s: Seq<char>) -> Seq<char> {
    if s.len() > 0 && s[0] == '+' {
        s.skip(1)
    } else {
        s
    }
}

/// Whether every character is a decimal digit.
pub open spec fn all_digits(d: Seq<char>) -> bool {
    forall|i: int| 0 <= i < d.len() ==> is_digit(#[trigger] d[i])
}

/// The index of the entry of an object with key `key`.
pub open spec fn entry_index(entries: Seq<(String, Json)>, key: Seq<char>) -> Option<int>
    decreases entries.len(),
{
    if entries.len() == 0 {
        None
    } else {
        match entry_index(entries.drop_last(), key) {
            Some(i) => Some(i),
            None => if entries.last().0@ == key {
                Some(entries.len() - 1)
            } else {
                None
            },
        }
    }
}

/// The value of field `field` of `parent`: the entry with that key of an
/// object, the element at that index of an array; none (null) else.
pub open spec fn field_of(field: Seq<char>, parent: Json) -> Option<Json> {
    match parent {
        Json::Object(entries) => match entry_index(entries@, field) {
            Some(i) => Some(entries@[i].1),
            None => None,
        },
        Json::Array(items) => match index_of(field) {
            Some(n) => if n < items@.len() {
                Some(items@[n as int])
            } else {
                None
            },
            None => None,
        },
        _ => None,
    }
}

/// The value at the fields `parts` below `current`: none (null) as soon as
/// a field before the last is missing or null.
pub open spec fn path_value(parts: Seq<Seq<char>>, current: Json) -> Option<Json>
    decreases parts.len(),
{
    if parts.len() == 0 {
        None
    } else if parts.len() == 1 {
        field_of(parts[0], current)
    } else {
        match field_of(parts[0], current) {
            Some(p) => if p is Null {
                None
            } else {
                path_value(parts.skip(1), p)
            },
            None => None,
        }
    }
}

/// The value at the dot-delimited path `needle` in the object `doc`; none
/// (null) when `doc` is not an object.
pub open spec fn path_of(needle: Seq<char>, doc: Json) -> Option<Json> {
    if doc is Object {
        path_value(split_on(needle, '.'), doc)
    } else {
        None
    }
}

/// The digits of `s` from `from` on, taken as an index; `None` where one
/// is not a digit or the value does not fit.
fn parse_digits(s: &str, from: usize) -> (r: Option<usize>)
    requires
        from <= s@.len(),
    ensures
        match r {
            Some(n) => (forall|i: int| 0 <= i < s@.skip(from as int).len() ==> is_digit(
                #[trigger] s@.skip(from as int)[i],
            )) && n == digits_value(s@.skip(from as int)),
            None => !(forall|i: int| 0 <= i < s@.skip(from as int).len() ==> is_digit(
                #[trigger] s@.skip(from as int)[i],
            )) || digits_value(s@.skip(from as int)) > usize::MAX,
        },
{
    let n = s.unicode_len();
    let mut value: usize = 0;
    let mut i: usize = from;
    let ghost d = s@.skip(from as int);
    proof {
        assert(d.take(0) =~= Seq::<char>::empty());
    }
    while i < n
        invariant
            n == s@.len(),
            from <= i <= n,
            d == s@.skip(from as int),
            forall|k: int| 0 <= k < i - from ==> is_digit(#[trigger] d[k]),
            value == digits_value(d.take(i - from)),
        decreases n - i,
    {
        let c = s.get_char(i);
        proof {
            assert(d[i - from] == c);
            assert(d.take(i - from + 1).drop_last() =~= d.take(i - from));
            assert(d.take(i - from + 1).last() == c);
        }
        if !('0' <= c && c <= '9') {
            return None;
        }
        let digit = (c as u32 - 48) as usize;
        proof {
            assert(digit == (c as nat - 48) as nat);
            assert(is_digit(d[i - from]));
            assert forall|k: int| 0 <= k < i - from + 1 implies is_digit(#[trigger] d[k]) by {
                if k == i - from {
                    assert(is_digit(d[i - from]));
                }
            }
            assert(digits_value(d.take(i - from + 1)) == value * 10 + digit);
            lemma_digits_value_monotone(d, (i - from + 1) as int);
            assert(d.take(d.len() as int) =~= d);
        }
        if value > (usize::MAX - digit) / 10 {
            proof {
                assert(value * 10 + digit > usize::MAX) by (nonlinear_arith)
                    requires
                        value > (usize::MAX - digit) / 10,
                        digit <= 9,
                ;
            }
            return None;
        }
        proof {
            assert(value * 10 + digit <= usize::MAX) by (nonlinear_arith)
                requires
                    value <= (usize::MAX - digit) / 10,
                    digit <= 9,
            ;
        }
        value = value * 10 + digit;
        i = i + 1;
    }
    proof {
        assert(d.take(n - from) =~= d);
    }
    Some(value)
}

/// A longer run of digits has a value at least as large.
proof fn lemma_digits_value_monotone(d: Seq<char>, k: int)
    requires
        0 <= k <= d.len(),
        forall|i: int| 0 <= i < k ==> is_digit(#[trigger] d[i]),
    ensures
        forall|j: int| k <= j <= d.len() && (forall|i: int| 0 <= i < j ==> is_digit(#[trigger] d[i]))
            ==> digits_value(d.take(k)) <= #[trigger] digits_value(d.take(j)),
    decreases d.len() - k,
{
    if k < d.len() {
        assert forall|j: int|
            k <= j <= d.len() && (forall|i: int| 0 <= i < j ==> is_digit(#[trigger] d[i])) implies digits_value(
            d.take(k),
        ) <= #[trigger] digits_value(d.take(j)) by {
            if j > k {
                lemma_digits_value_monotone(d, k + 1);
                assert(d.take(k + 1).drop_last() =~= d.take(k));
                assert(d.take(k + 1).last() == d[k]);
                assert(is_digit(d[k]));
            }
        }
    }
}

/// The index a field names, as `usize::from_str` reads it.
pub fn parse_index(field: &str) -> (r: Option<usize>)
    ensures
        match r {
            Some(n) => index_of(field@) == Some(n as nat),
            None => index_of(field@) is None || index_of(field@)->0 > usize::MAX,
        },
{
    let n = field.unicode_len();
    if n == 0 {
        return None;
    }
    let from: usize = if field.get_char(0) == '+' {
        1
    } else {
        0
    };
    proof {
        assert(field@.skip(0) =~= field@);
    }
    if from == n {
        return None;
    }
    let ghost digits = index_digits(field@);
    proof {
        assert(field@.skip(from as int).len() > 0);
        if from == 0 {
            assert(field@[0] != '+');
            assert(digits == field@.skip(0));
        } else {
            assert(digits == field@.skip(1));
        }
    }
    let r = parse_digits(field, from);
    proof {
        assert(digits == field@.skip(from as int));
        match r {
            Some(v) => {
                assert(all_digits(digits));
                assert(index_of(field@) == Some(digits_value(digits)));
                assert(v as nat == digits_value(digits));
                assert(index_of(field@) == Some(v as nat));
            },
            None => {
                if all_digits(digits) {
                    assert(index_of(field@) == Some(digits_value(digits)));
                    assert(digits_value(digits) > usize::MAX);
                } else {
                    assert(index_of(field@) is None);
                }
            },
        }
    }
    r
}

/// The index of the entry of an object with key `key`.
fn find_entry(entries: &Vec<(String, Json)>, key: &str) -> (r: Option<usize>)
    ensures
        r matches Some(i) ==> i < entries@.len(),
        match r {
            Some(i) => entry_index(entries@, key@) == Some(i as int),
            None => entry_index(entries@, key@) is None,
        },
{
    let mut i: usize = 0;
    while i < entries.len()
        invariant
            i <= entries@.len(),
            entry_index(entries@.take(i as int), key@) is None,
        decreases entries@.len() - i,
    {
        proof {
            assert(entries@.take(i + 1).drop_last() =~= entries@.take(i as int));
            assert(entries@.take(i + 1).last() == entries@[i as int]);
        }
        if str_eq(entries[i].0.as_str(), key) {
            proof {
                lemma_entry_index_prefix(entries@, i as int + 1, key@);
            }
            return Some(i);
        }
        i = i + 1;
    }
    proof {
        assert(entries@.take(entries@.len() as int) =~= entries@);
    }
    None
}

/// A match in a prefix is the match of the whole list.
proof fn lemma_entry_index_prefix(entries: Seq<(String, Json)>, k: int, key: Seq<char>)
    requires
        0 <= k <= entries.len(),
        entry_index(entries.take(k), key) is Some,
    ensures
        entry_index(entries, key) == entry_index(entries.take(k), key),
    decreases entries.len() - k,
{
    if k < entries.len() {
        let t = entries.take(k + 1);
        assert(t.drop_last() =~= entries.take(k));
        lemma_entry_index_prefix(entries, k + 1, key);
    } else {
        assert(entries.take(k) =~= entries);
    }
}

/// The value of field `field` of `parent`; none stands for null.
pub fn find_field<'a>(field: &str, parent: &'a Json) -> (r: Option<&'a Json>)
    ensures
        match r {
            Some(v) => field_of(field@, *parent) == Some(*v),
            None => field_of(field@, *parent) is None,
        },
{
    match parent {
        Json::Object(entries) => match find_entry(entries, field) {
            Some(i) => {
                proof {
                    assert(entry_index(entries@, field@) == Some(i as int));
                    assert(field_of(field@, *parent) == Some(entries@[i as int].1));
                }
                Some(&entries[i].1)
            },
            None => None,
        },
        Json::Array(items) => {
            let len = items.len();
            match parse_index(field) {
                Some(index) => {
                    if len > 0 && index < len {
                        Some(&items[index])
                    } else {
                        None
                    }
                },
                None => None,
            }
        },
        _ => None,
    }
}

/// The value at the dot-delimited path `needle` in the object `doc`; none
/// stands for null.
pub fn find_path<'a>(needle: &str, doc: &'a Json) -> (r: Option<&'a Json>)
    ensures
        match r {
            Some(v) => path_of(needle@, *doc) == Some(*v),
            None => path_of(needle@, *doc) is None,
        },
{
    match doc {
        Json::Object(_) => {},
        _ => {
            return None;
        },
    }
    let parts = split_char(needle, '.');
    proof {
        crate::split::lemma_split_on_nonempty(needle@, '.');
    }
    let ghost ps = views(parts@);
    let n = parts.len();
    let mut current: &'a Json = doc;
    let mut i: usize = 0;
    proof {
        assert(ps.skip(0) =~= ps);
    }
    while i < n
        invariant
            n == parts@.len(),
            ps == views(parts@),
            ps == split_on(needle@, '.'),
            doc is Object,
            n >= 1,
            i < n,
            path_value(ps.skip(i as int), *current) == path_value(ps, *doc),
        decreases n - i,
    {
        let p = find_field(parts[i].as_str(), current);
        proof {
            assert(ps.skip(i as int)[0] == parts@[i as int]@);
            assert(ps.skip(i as int).skip(1) =~= ps.skip(i + 1));
        }
        if i == n - 1 {
            return p;
        }
        match p {
            Some(v) => {
                if let Json::Null = v {
                    return None;
                }
                current = v;
            },
            None => {
                return None;
            },
        }
        i = i + 1;
    }
    None
}


/// A looked-up value, none standing for null.
pub open spec fn or_null(v: Option<Json>) -> Json {
    match v {
        Some(j) => j,
        None => Json::Null,
    }
}

/// One step of a path lookup: the field `part` of `v`, null where `v` has
/// no such field.
pub open spec fn field_step() -> spec_fn(Json, Seq<char>) -> Json {
    |v: Json, part: Seq<char>| or_null(field_of(part, v))
}

/// Looking up fields below null gives null.
pub proof fn lemma_fields_of_null(parts: Seq<Seq<char>>)
    ensures
        parts.fold_left_alt(Json::Null, field_step()) == Json::Null,
    decreases parts.len(),
{
    if parts.len() > 0 {
        lemma_fields_of_null(parts.subrange(1, parts.len() as int));
    }
}

/// Looking up the fields `parts` below `current` one after another, from
/// the first, gives the value at those fields.
pub proof fn lemma_path_value_steps(parts: Seq<Seq<char>>, current: Json)
    requires
        parts.len() >= 1,
    ensures
        or_null(path_value(parts, current)) == parts.fold_left_alt(current, field_step()),
    decreases parts.len(),
{
    let rest = parts.subrange(1, parts.len() as int);
    let first = or_null(field_of(parts[0], current));
    assert(rest =~= parts.skip(1));
    assert(field_step()(current, parts[0]) == first);
    assert(parts.fold_left_alt(current, field_step()) == rest.fold_left_alt(first, field_step()));
    if parts.len() == 1 {
        assert(rest.len() == 0);
    } else {
        match field_of(parts[0], current) {
            Some(p) => {
                if p is Null {
                    lemma_fields_of_null(rest);
                } else {
                    lemma_path_value_steps(rest, p);
                }
            },
            None => {
                lemma_fields_of_null(rest);
            },
        }
    }
}

/// A path lookup is a left fold of field lookups over the dot-delimited
/// parts of the path, starting at the document, when the document is an
/// object; it is null otherwise.
pub proof fn lemma_path_is_fold_of_fields(needle: Seq<char>, doc: Json)
    ensures
        or_null(path_of(needle, doc)) == if doc is Object {
            split_on(needle, '.').fold_left(doc, field_step())
        } else {
            Json::Null
        },
{
    if doc is Object {
        let parts = split_on(needle, '.');
        crate::split::lemma_split_on_nonempty(needle, '.');
        parts.lemma_fold_left_alt(doc, field_step());
        lemma_path_value_steps(parts, doc);
    }
}


/// Whether the text `a` comes no later than `b` in the order of `String`:
/// character by character, a prefix first.
pub open spec fn text_le(a: Seq<char>, b: Seq<char>) -> bool
    decreases a.len(),
{
    if a.len() == 0 {
        true
    } else if b.len() == 0 {
        false
    } else if a[0] != b[0] {
        (a[0] as u32) < (b[0] as u32)
    } else {
        text_le(a.skip(1), b.skip(1))
    }
}

/// Every text comes no later than itself.
pub proof fn lemma_text_le_reflexive(a: Seq<char>)
    ensures
        text_le(a, a),
    decreases a.len(),
{
    if a.len() > 0 {
        lemma_text_le_reflexive(a.skip(1));
    }
}

/// Of two texts, one comes no later than the other.
pub proof fn lemma_text_le_total(a: Seq<char>, b: Seq<char>)
    ensures
        text_le(a, b) || text_le(b, a),
    decreases a.len(),
{
    if a.len() > 0 && b.len() > 0 {
        if a[0] == b[0] {
            lemma_text_le_total(a.skip(1), b.skip(1));
        } else {
            vstd::utf8::char_u32_cast(a[0], a[0] as u32);
            vstd::utf8::char_u32_cast(b[0], b[0] as u32);
        }
    }
}

/// The order of texts is transitive.
pub proof fn lemma_text_le_transitive(a: Seq<char>, b: Seq<char>, c: Seq<char>)
    requires
        text_le(a, b),
        text_le(b, c),
    ensures
        text_le(a, c),
    decreases a.len(),
{
    if a.len() > 0 && b.len() > 0 && c.len() > 0 && a[0] == b[0] && b[0] == c[0] {
        lemma_text_le_transitive(a.skip(1), b.skip(1), c.skip(1));
    }
}

/// Whether `a` comes no later than `b`.
fn text_le_exec(a: &str, b: &str) -> (r: bool)
    ensures
        r == text_le(a@, b@),
{
    let n = a.unicode_len();
    let m = b.unicode_len();
    let mut i: usize = 0;
    proof {
        assert(a@.skip(0) =~= a@);
        assert(b@.skip(0) =~= b@);
    }
    while i < n && i < m
        invariant
            n == a@.len(),
            m == b@.len(),
            i <= n,
            i <= m,
            text_le(a@, b@) == text_le(a@.skip(i as int), b@.skip(i as int)),
        decreases n - i,
    {
        let c = a.get_char(i);
        let d = b.get_char(i);
        proof {
            assert(a@.skip(i as int)[0] == c);
            assert(b@.skip(i as int)[0] == d);
        }
        if c != d {
            return (c as u32) < (d as u32);
        }
        proof {
            assert(a@.skip(i as int).skip(1) =~= a@.skip(i + 1));
            assert(b@.skip(i as int).skip(1) =~= b@.skip(i + 1));
        }
        i = i + 1;
    }
    i == n
}

/// The keys are in order.
pub open spec fn sorted_keys(keys: Seq<String>) -> bool {
    forall|a: int, b: int| 0 <= a < b < keys.len() ==> text_le((#[trigger] keys[a])@, (#[trigger] keys[b])@)
}

/// `p` orders the indices below `n` anew, each once.
pub open spec fn is_permutation(p: Seq<int>, n: int) -> bool {
    &&& p.len() == n
    &&& forall|k: int| 0 <= k < n ==> 0 <= #[trigger] p[k] < n
    &&& forall|a: int, b: int| 0 <= a < n && 0 <= b < n && a != b ==> #[trigger] p[a] != #[trigger] p[b]
}

/// `keys` and `values` are `old_keys` and `old_values` in the order `p`,
/// and of two equal keys the one that came first still comes first.
pub open spec fn stable_reorder<T>(
    p: Seq<int>,
    old_keys: Seq<String>,
    old_values: Seq<T>,
    keys: Seq<String>,
    values: Seq<T>,
) -> bool {
    &&& is_permutation(p, old_keys.len() as int)
    &&& keys.len() == old_keys.len()
    &&& values.len() == old_values.len()
    &&& forall|k: int|
        0 <= k < keys.len() ==> #[trigger] keys[k] == old_keys[p[k]] && values[k] == old_values[p[k]]
    &&& forall|a: int, b: int|
        0 <= a < b < keys.len() && (#[trigger] keys[a])@ == (#[trigger] keys[b])@ ==> p[a] < p[b]
}

/// Sort `values` by `keys`, the key of each value at its index, keeping
/// the order of values with equal keys; the keys are sorted with them.
pub fn sort<T>(keys: &mut Vec<String>, values: &mut Vec<T>)
    requires
        old(keys)@.len() == old(values)@.len(),
    ensures
        sorted_keys(final(keys)@),
        exists|p: Seq<int>| stable_reorder(p, old(keys)@, old(values)@, final(keys)@, final(values)@),
{
    let n = keys.len();
    let ghost ok = keys@;
    let ghost ov = values@;
    let ghost mut p: Seq<int> = Seq::new(n as nat, |k: int| k);
    let mut i: usize = 0;
    while i < n
        invariant
            n == ok.len(),
            ok.len() == ov.len(),
            keys@.len() == n,
            values@.len() == n,
            i <= n,
            is_permutation(p, n as int),
            forall|k: int| 0 <= k < n ==> #[trigger] keys@[k] == ok[p[k]] && values@[k] == ov[p[k]],
            forall|k: int| i <= k < n ==> #[trigger] p[k] == k,
            forall|k: int| 0 <= k < i ==> #[trigger] p[k] < i,
            forall|a: int, b: int| 0 <= a < b < i ==> text_le((#[trigger] keys@[a])@, (#[trigger] keys@[b])@),
            forall|a: int, b: int|
                0 <= a < b < i && (#[trigger] keys@[a])@ == (#[trigger] keys@[b])@ ==> p[a] < p[b],
        decreases n - i,
    {
        let mut pos: usize = i;
        while pos > 0 && !text_le_exec(keys[pos - 1].as_str(), keys[i].as_str())
            invariant
                keys@.len() == n,
                i < n,
                pos <= i,
                forall|m: int| pos <= m < i ==> !text_le((#[trigger] keys@[m])@, keys@[i as int]@),
            decreases pos,
        {
            pos = pos - 1;
        }
        let ghost kk = keys@;
        let ghost vv = values@;
        let ghost pp = p;
        proof {
            assert(pos == 0 || text_le(kk[pos - 1]@, kk[i as int]@));
        }
        if pos < i {
            let key = keys.remove(i);
            keys.insert(pos, key);
            let value = values.remove(i);
            values.insert(pos, value);
            proof {
                p = pp.remove(i as int).insert(pos as int, i as int);
            }
        }
        proof {
            lemma_insertion_step(kk, vv, pp, keys@, values@, p, ok, ov, i as int, pos as int);
        }
        i = i + 1;
    }
    proof {
        assert(stable_reorder(p, ok, ov, keys@, values@));
    }
}

/// Where the element at `m` of the reordered sequence came from, when the
/// element at `i` moved to `pos`.
pub open spec fn moved_from(m: int, i: int, pos: int) -> int {
    if m < pos {
        m
    } else if m == pos {
        i
    } else if m <= i {
        m - 1
    } else {
        m
    }
}

/// One step of insertion sort keeps its invariants for one more index.
proof fn lemma_insertion_step<T>(
    kk: Seq<String>,
    vv: Seq<T>,
    pp: Seq<int>,
    keys: Seq<String>,
    values: Seq<T>,
    p: Seq<int>,
    ok: Seq<String>,
    ov: Seq<T>,
    i: int,
    pos: int,
)
    requires
        0 <= pos <= i < kk.len(),
        kk.len() == ok.len(),
        vv.len() == kk.len(),
        ov.len() == ok.len(),
        is_permutation(pp, kk.len() as int),
        forall|k: int| 0 <= k < kk.len() ==> #[trigger] kk[k] == ok[pp[k]] && vv[k] == ov[pp[k]],
        forall|k: int| i <= k < kk.len() ==> #[trigger] pp[k] == k,
        forall|k: int| 0 <= k < i ==> #[trigger] pp[k] < i,
        forall|a: int, b: int| 0 <= a < b < i ==> text_le((#[trigger] kk[a])@, (#[trigger] kk[b])@),
        forall|a: int, b: int|
            0 <= a < b < i && (#[trigger] kk[a])@ == (#[trigger] kk[b])@ ==> pp[a] < pp[b],
        forall|m: int| pos <= m < i ==> !text_le((#[trigger] kk[m])@, kk[i]@),
        pos == 0 || text_le(kk[pos - 1]@, kk[i]@),
        pos == i ==> keys == kk && values == vv && p == pp,
        pos < i ==> keys == kk.remove(i).insert(pos, kk[i]) && values == vv.remove(i).insert(
            pos,
            vv[i],
        ) && p == pp.remove(i).insert(pos, i),
    ensures
        keys.len() == kk.len(),
        values.len() == kk.len(),
        is_permutation(p, kk.len() as int),
        forall|k: int| 0 <= k < kk.len() ==> #[trigger] keys[k] == ok[p[k]] && values[k] == ov[p[k]],
        forall|k: int| i + 1 <= k < kk.len() ==> #[trigger] p[k] == k,
        forall|k: int| 0 <= k < i + 1 ==> #[trigger] p[k] < i + 1,
        forall|a: int, b: int| 0 <= a < b < i + 1 ==> text_le((#[trigger] keys[a])@, (#[trigger] keys[b])@),
        forall|a: int, b: int|
            0 <= a < b < i + 1 && (#[trigger] keys[a])@ == (#[trigger] keys[b])@ ==> p[a] < p[b],
{
    let n = kk.len() as int;
    let x = kk[i];
    assert(pp[i] == i);
    assert(keys.len() == n && values.len() == n && p.len() == n);
    assert forall|m: int| 0 <= m < n implies #[trigger] keys[m] == kk[moved_from(m, i, pos)]
        && values[m] == vv[moved_from(m, i, pos)] && p[m] == pp[moved_from(m, i, pos)] by {
    }
    assert forall|a: int, b: int| 0 <= a < n && 0 <= b < n && a != b implies #[trigger] p[a] != #[trigger] p[b] by {
        assert(keys[a] == kk[moved_from(a, i, pos)]);
        assert(keys[b] == kk[moved_from(b, i, pos)]);
    }
    assert forall|k: int| 0 <= k < n implies 0 <= #[trigger] p[k] < n by {
        assert(keys[k] == kk[moved_from(k, i, pos)]);
    }
    assert forall|k: int| 0 <= k < n implies #[trigger] keys[k] == ok[p[k]] && values[k] == ov[p[k]] by {
        let f = moved_from(k, i, pos);
        assert(keys[k] == kk[f] && values[k] == vv[f] && p[k] == pp[f]);
        assert(kk[f] == ok[pp[f]] && vv[f] == ov[pp[f]]);
    }
    assert forall|k: int| i + 1 <= k < n implies #[trigger] p[k] == k by {
        assert(keys[k] == kk[moved_from(k, i, pos)]);
    }
    assert forall|k: int| 0 <= k < i + 1 implies #[trigger] p[k] < i + 1 by {
        assert(keys[k] == kk[moved_from(k, i, pos)]);
    }
    assert forall|a: int, b: int| 0 <= a < b < i + 1 implies text_le(
        (#[trigger] keys[a])@,
        (#[trigger] keys[b])@,
    ) by {
        let fa = moved_from(a, i, pos);
        let fb = moved_from(b, i, pos);
        assert(keys[a] == kk[fa]);
        assert(keys[b] == kk[fb]);
        if a == pos {
            lemma_text_le_total(kk[fb]@, x@);
        } else if b == pos {
            if fa < pos - 1 {
                lemma_text_le_transitive(kk[fa]@, kk[pos - 1]@, x@);
            }
        } else if fb == i {
            if pos > 0 && fa < pos - 1 {
                lemma_text_le_transitive(kk[fa]@, kk[pos - 1]@, x@);
            }
        }
    }
    assert forall|a: int, b: int|
        0 <= a < b < i + 1 && (#[trigger] keys[a])@ == (#[trigger] keys[b])@ implies p[a] < p[b] by {
        let fa = moved_from(a, i, pos);
        let fb = moved_from(b, i, pos);
        assert(keys[a] == kk[fa]);
        assert(keys[b] == kk[fb]);
        if a == pos && pos < i {
            lemma_text_le_reflexive(x@);
        }
    }
}


/// The entries of the object `base` with those of `from` laid over them, as
/// appending one JSON map to another does: each entry of `from`, in order,
/// replaces the value of the entry with its key, or comes last when there
/// is none.
pub open spec fn merged_entries(base: Seq<(String, Json)>, from: Seq<(String, Json)>) -> Seq<(String, Json)>
    decreases from.len(),
{
    if from.len() == 0 {
        base
    } else {
        let acc = merged_entries(base, from.drop_last());
        let e = from.last();
        match entry_index(acc, e.0@) {
            Some(i) => acc.update(i, (acc[i].0, e.1)),
            None => acc.push(e),
        }
    }
}

/// The object `base` with the fields of the object `from` laid over it: a
/// field of `from` replaces the one of `base` with its name.
pub fn merge_objects(base: Json, from: Json) -> (r: Json)
    requires
        base is Object,
        from is Object,
    ensures
        r matches Json::Object(entries) && entries@ == merged_entries(base->Object_0@, from->Object_0@),
{
    let ghost b = base->Object_0@;
    let ghost f = from->Object_0@;
    let mut acc = match base {
        Json::Object(a) => a,
        _ => Vec::new(),
    };
    let mut rest = match from {
        Json::Object(a) => a,
        _ => Vec::new(),
    };
    let ghost n = f.len();
    let mut k: usize = 0;
    proof {
        assert(f.skip(0) =~= f);
        assert(f.take(0) =~= Seq::<(String, Json)>::empty());
        assert(rest@ == f);
    }
    let total = rest.len();
    while rest.len() > 0
        invariant
            n == f.len(),
            n == total,
            k <= n,
            rest@ == f.skip(k as int),
            acc@ == merged_entries(b, f.take(k as int)),
        decreases rest@.len(),
    {
        let (key, value) = rest.remove(0);
        proof {
            assert(f[k as int] == (key, value));
            assert(f.take(k + 1).drop_last() =~= f.take(k as int));
            assert(f.take(k + 1).last() == f[k as int]);
            assert(f.skip(k as int).remove(0) =~= f.skip(k + 1));
        }
        match find_entry(&acc, key.as_str()) {
            Some(i) => {
                let name = acc[i].0.clone();
                acc.set(i, (name, value));
            },
            None => {
                acc.push((key, value));
            },
        }
        k = k + 1;
    }
    proof {
        assert(f.take(k as int) =~= f);
    }
    Json::Object(acc)
}

} // verus!
