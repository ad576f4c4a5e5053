//! Escaping and unescaping of the five predefined XML/HTML entities.
use vstd::prelude::*;
use vstd::string::*;

use crate::text::{replace_all, replaced};

verus! {

pub open spec fn gt() -> Seq<char> { seq!['>'] }
pub open spec fn lt() -> Seq<char> { seq!['<'] }
pub open spec fn amp() -> Seq<char> { seq!['&'] }
pub open spec fn quot() -> Seq<char> { seq!['"'] }
pub open spec fn apos() -> Seq<char> { seq!['\''] }
pub open spec fn gt_entity() -> Seq<char> { seq!['&', 'g', 't', ';'] }
pub open spec fn lt_entity() -> Seq<char> { seq!['&', 'l', 't', ';'] }
pub open spec fn amp_entity() -> Seq<char> { seq!['&', 'a', 'm', 'p', ';'] }
pub open spec fn quot_entity() -> Seq<char> { seq!['&', 'q', 'u', 'o', 't', ';'] }
pub open spec fn apos_entity() -> Seq<char> { seq!['&', 'a', 'p', 'o', 's', ';'] }

/// The entities replaced by their characters, one entity after another in
/// the order `&gt;`, `&lt;`, `&amp;`, `&quot;`, `&apos;`.
pub open spec fn unescaped(t: Seq<char>) -> Seq<char> {
    replaced(
        replaced(
            replaced(replaced(replaced(t, gt_entity(), gt()), lt_entity(), lt()), amp_entity(), amp()),
            quot_entity(),
            quot(),
        ),
        apos_entity(),
        apos(),
    )
}

/// The characters replaced by their entities, one character after another in
/// the order `>`, `<`, `&`, `"`, `'`.  The later replacement of `&` also
/// applies to the entities already written for `>` and `<`.
pub open spec fn escaped(t: Seq<char>) -> Seq<char> {
    replaced(
        replaced(
            replaced(replaced(replaced(t, gt(), gt_entity()), lt(), lt_entity()), amp(), amp_entity()),
            quot(),
            quot_entity(),
        ),
        apos(),
        apos_entity(),
    )
}

/// Replace the entities `&gt;`, `&lt;`, `&amp;`, `&quot;` and `&apos;` by
/// the characters they stand for.
pub fn unescape(txt: &str) -> (r: String)
    ensures
        r@ == unescaped(txt@),
{
    proof {
        reveal_strlit(">");
        reveal_strlit("<");
        reveal_strlit("&");
        reveal_strlit("\"");
        reveal_strlit("'");
        reveal_strlit("&gt;");
        reveal_strlit("&lt;");
        reveal_strlit("&amp;");
        reveal_strlit("&quot;");
        reveal_strlit("&apos;");
        assert(">"@ =~= gt());
        assert("<"@ =~= lt());
        assert("&"@ =~= amp());
        assert("\""@ =~= quot());
        assert("'"@ =~= apos());
        assert("&gt;"@ =~= gt_entity());
        assert("&lt;"@ =~= lt_entity());
        assert("&amp;"@ =~= amp_entity());
        assert("&quot;"@ =~= quot_entity());
        assert("&apos;"@ =~= apos_entity());
    }
    let a = replace_all(txt, "&gt;", ">");
    let b = replace_all(a.as_str(), "&lt;", "<");
    let c = replace_all(b.as_str(), "&amp;", "&");
    let d = replace_all(c.as_str(), "&quot;", "\"");
    replace_all(d.as_str(), "&apos;", "'")
}

/// Replace the characters `>`, `<`, `&`, `"` and `'` by their entities.
pub fn escape(txt: &str) -> (r: String)
    ensures
        r@ == escaped(txt@),
        !r@.contains('>'),
        !r@.contains('<'),
        !r@.contains('"'),
        !r@.contains('\''),
{
    proof {
        reveal_strlit(">");
        reveal_strlit("<");
        reveal_strlit("&");
        reveal_strlit("\"");
        reveal_strlit("'");
        reveal_strlit("&gt;");
        reveal_strlit("&lt;");
        reveal_strlit("&amp;");
        reveal_strlit("&quot;");
        reveal_strlit("&apos;");
        assert(">"@ =~= gt());
        assert("<"@ =~= lt());
        assert("&"@ =~= amp());
        assert("\""@ =~= quot());
        assert("'"@ =~= apos());
        assert("&gt;"@ =~= gt_entity());
        assert("&lt;"@ =~= lt_entity());
        assert("&amp;"@ =~= amp_entity());
        assert("&quot;"@ =~= quot_entity());
        assert("&apos;"@ =~= apos_entity());
    }
    let a = replace_all(txt, ">", "&gt;");
    let b = replace_all(a.as_str(), "<", "&lt;");
    let c = replace_all(b.as_str(), "&", "&amp;");
    let d = replace_all(c.as_str(), "\"", "&quot;");
    let r = replace_all(d.as_str(), "'", "&apos;");
    proof {
        lemma_escaped_has_no_markup(txt@);
    }
    r
}

/// A character that is neither in `s` nor in `to` is not in `s` after the
/// replacement.
pub proof fn lemma_replaced_keeps_absent(s: Seq<char>, from: Seq<char>, to: Seq<char>, c: char)
    requires
        !s.contains(c),
        !to.contains(c),
    ensures
        !replaced(s, from, to).contains(c),
    decreases s.len(),
{
    if s.len() == 0 || from.len() == 0 {
    } else if from.is_prefix_of(s) {
        let rest = s.skip(from.len() as int);
        assert forall|i: int| 0 <= i < rest.len() implies rest[i] != c by {
            assert(rest[i] == s[i + from.len()]);
        }
        lemma_replaced_keeps_absent(rest, from, to, c);
        assert forall|i: int| 0 <= i < (to + replaced(rest, from, to)).len() implies (to + replaced(
            rest,
            from,
            to,
        ))[i] != c by {
            if i < to.len() {
                assert((to + replaced(rest, from, to))[i] == to[i]);
            } else {
                assert((to + replaced(rest, from, to))[i] == replaced(rest, from, to)[i - to.len()]);
            }
        }
    } else {
        let rest = s.skip(1);
        assert forall|i: int| 0 <= i < rest.len() implies rest[i] != c by {
            assert(rest[i] == s[i + 1]);
        }
        lemma_replaced_keeps_absent(rest, from, to, c);
        let out = seq![s[0]] + replaced(rest, from, to);
        assert forall|i: int| 0 <= i < out.len() implies out[i] != c by {
            if i == 0 {
                assert(out[0] == s[0]);
            } else {
                assert(out[i] == replaced(rest, from, to)[i - 1]);
            }
        }
    }
}

/// Replacing the one-character pattern `c` by a text without `c` leaves no
/// `c` behind.
pub proof fn lemma_replaced_removes(s: Seq<char>, c: char, to: Seq<char>)
    requires
        !to.contains(c),
    ensures
        !replaced(s, seq![c], to).contains(c),
    decreases s.len(),
{
    let from = seq![c];
    if s.len() == 0 {
    } else if from.is_prefix_of(s) {
        let rest = s.skip(1);
        lemma_replaced_removes(rest, c, to);
        let out = to + replaced(rest, from, to);
        assert forall|i: int| 0 <= i < out.len() implies out[i] != c by {
            if i < to.len() {
                assert(out[i] == to[i]);
            } else {
                assert(out[i] == replaced(rest, from, to)[i - to.len()]);
            }
        }
    } else {
        let rest = s.skip(1);
        lemma_replaced_removes(rest, c, to);
        assert(s[0] != c) by {
            if s[0] == c {
                assert(from =~= s.subrange(0, 1));
            }
        }
        let out = seq![s[0]] + replaced(rest, from, to);
        assert forall|i: int| 0 <= i < out.len() implies out[i] != c by {
            if i == 0 {
                assert(out[0] == s[0]);
            } else {
                assert(out[i] == replaced(rest, from, to)[i - 1]);
            }
        }
    }
}

/// Escaped text holds none of the characters `>`, `<`, `"` and `'`, whatever
/// the input.
pub proof fn lemma_escaped_has_no_markup(t: Seq<char>)
    ensures
        !escaped(t).contains('>'),
        !escaped(t).contains('<'),
        !escaped(t).contains('"'),
        !escaped(t).contains('\''),
{
    let a = replaced(t, gt(), gt_entity());
    let b = replaced(a, lt(), lt_entity());
    let c = replaced(b, amp(), amp_entity());
    let d = replaced(c, quot(), quot_entity());
    let e = replaced(d, apos(), apos_entity());
    assert(!gt_entity().contains('>') && !gt_entity().contains('<'));
    assert(!gt_entity().contains('"') && !gt_entity().contains('\''));
    assert(!lt_entity().contains('>') && !lt_entity().contains('<'));
    assert(!lt_entity().contains('"') && !lt_entity().contains('\''));
    assert(!amp_entity().contains('>') && !amp_entity().contains('<'));
    assert(!amp_entity().contains('"') && !amp_entity().contains('\''));
    assert(!quot_entity().contains('>') && !quot_entity().contains('<'));
    assert(!quot_entity().contains('"') && !quot_entity().contains('\''));
    assert(!apos_entity().contains('>') && !apos_entity().contains('<'));
    assert(!apos_entity().contains('"') && !apos_entity().contains('\''));
    lemma_replaced_removes(t, '>', gt_entity());
    lemma_replaced_keeps_absent(a, lt(), lt_entity(), '>');
    lemma_replaced_keeps_absent(b, amp(), amp_entity(), '>');
    lemma_replaced_keeps_absent(c, quot(), quot_entity(), '>');
    lemma_replaced_keeps_absent(d, apos(), apos_entity(), '>');
    lemma_replaced_removes(a, '<', lt_entity());
    lemma_replaced_keeps_absent(b, amp(), amp_entity(), '<');
    lemma_replaced_keeps_absent(c, quot(), quot_entity(), '<');
    lemma_replaced_keeps_absent(d, apos(), apos_entity(), '<');
    lemma_replaced_removes(c, '"', quot_entity());
    lemma_replaced_keeps_absent(d, apos(), apos_entity(), '"');
    lemma_replaced_removes(d, '\'', apos_entity());
}


/// Replacing a pattern changes nothing in a leading part that holds no
/// character the pattern starts with.
pub proof fn lemma_replaced_skips_prefix(q: Seq<char>, rest: Seq<char>, from: Seq<char>, to: Seq<char>)
    requires
        from.len() > 0,
        forall|i: int| 0 <= i < q.len() ==> q[i] != from[0],
    ensures
        replaced(q + rest, from, to) == q + replaced(rest, from, to),
    decreases q.len(),
{
    let s = q + rest;
    if q.len() == 0 {
        assert(s =~= rest);
    } else {
        assert(s[0] == q[0]);
        assert(!from.is_prefix_of(s)) by {
            if from.is_prefix_of(s) {
                assert(s[0] == from[0]);
            }
        }
        let q1 = q.skip(1);
        assert(s.skip(1) =~= q1 + rest);
        lemma_replaced_skips_prefix(q1, rest, from, to);
        assert(seq![q[0]] + (q1 + replaced(rest, from, to)) =~= q + replaced(rest, from, to));
    }
}

/// A text that starts with the pattern has it replaced there.
pub proof fn lemma_replaced_at_start(rest: Seq<char>, from: Seq<char>, to: Seq<char>)
    requires
        from.len() > 0,
    ensures
        replaced(from + rest, from, to) == to + replaced(rest, from, to),
{
    let s = from + rest;
    assert(from.is_prefix_of(s)) by {
        assert(s.subrange(0, from.len() as int) =~= from);
    }
    assert(s.skip(from.len() as int) =~= rest);
}

/// A leading entity that parts from the pattern at its `k`-th character,
/// and holds no further `&`, is kept as it is.
pub proof fn lemma_replaced_keeps_entity(
    p: Seq<char>,
    rest: Seq<char>,
    from: Seq<char>,
    to: Seq<char>,
    k: int,
)
    requires
        1 <= k < from.len(),
        k < p.len(),
        p[0] == from[0],
        p[k] != from[k],
        forall|i: int| 1 <= i < p.len() ==> p[i] != from[0],
    ensures
        replaced(p + rest, from, to) == p + replaced(rest, from, to),
{
    let s = p + rest;
    assert(s[k] == p[k]);
    assert(!from.is_prefix_of(s)) by {
        if from.is_prefix_of(s) {
            assert(s.subrange(0, from.len() as int)[k] == from[k]);
        }
    }
    let p1 = p.skip(1);
    assert(s.skip(1) =~= p1 + rest);
    lemma_replaced_skips_prefix(p1, rest, from, to);
    assert(seq![p[0]] + (p1 + replaced(rest, from, to)) =~= p + replaced(rest, from, to));
}

/// What escaping turns a character into, for text without `<`, `>` and
/// `&`: its entity for `"` and `'`, else the character itself.
pub open spec fn escaped_char(c: char) -> Seq<char> {
    if c == '"' {
        quot_entity()
    } else if c == '\'' {
        apos_entity()
    } else {
        seq![c]
    }
}

/// The last two steps of escaping, which are all of it for text without
/// `<`, `>` and `&`.
pub open spec fn escaped_quotes(t: Seq<char>) -> Seq<char> {
    replaced(replaced(t, quot(), quot_entity()), apos(), apos_entity())
}

/// Escaping the quotes of a text escapes its first character and then the
/// rest.
pub proof fn lemma_escaped_quotes_step(t: Seq<char>)
    requires
        t.len() > 0,
    ensures
        escaped_quotes(t) == escaped_char(t[0]) + escaped_quotes(t.skip(1)),
{
    let c = t[0];
    let t1 = t.skip(1);
    let d1 = replaced(t1, quot(), quot_entity());
    assert(t =~= seq![c] + t1);
    if c == '"' {
        lemma_replaced_at_start(t1, quot(), quot_entity());
        lemma_replaced_skips_prefix(quot_entity(), d1, apos(), apos_entity());
    } else {
        lemma_replaced_skips_prefix(seq![c], t1, quot(), quot_entity());
        if c == '\'' {
            lemma_replaced_at_start(d1, apos(), apos_entity());
        } else {
            lemma_replaced_skips_prefix(seq![c], d1, apos(), apos_entity());
        }
    }
}

/// For text without `<`, `>` and `&`, escaping only escapes the quotes.
pub proof fn lemma_escaped_plain(t: Seq<char>)
    requires
        !t.contains('<'),
        !t.contains('>'),
        !t.contains('&'),
    ensures
        escaped(t) == escaped_quotes(t),
{
    assert forall|i: int| 0 <= i < t.len() implies t[i] != '>' && t[i] != '<' && t[i] != '&' by {
        if t[i] == '>' || t[i] == '<' || t[i] == '&' {
            assert(t.contains(t[i]));
        }
    }
    assert(t + seq![] =~= t);
    lemma_replaced_skips_prefix(t, seq![], gt(), gt_entity());
    lemma_replaced_skips_prefix(t, seq![], lt(), lt_entity());
    lemma_replaced_skips_prefix(t, seq![], amp(), amp_entity());
}

/// Unescaping undoes the escape of one character that is not `<`, `>` or
/// `&`, whatever follows it.
pub proof fn lemma_unescaped_char(c: char, rest: Seq<char>)
    requires
        c != '<',
        c != '>',
        c != '&',
    ensures
        unescaped(escaped_char(c) + rest) == seq![c] + unescaped(rest),
{
    let a = replaced(rest, gt_entity(), gt());
    let b = replaced(a, lt_entity(), lt());
    let d = replaced(b, amp_entity(), amp());
    let e = replaced(d, quot_entity(), quot());
    let p = escaped_char(c);
    if c == '"' {
        lemma_replaced_keeps_entity(p, rest, gt_entity(), gt(), 1);
        lemma_replaced_keeps_entity(p, a, lt_entity(), lt(), 1);
        lemma_replaced_keeps_entity(p, b, amp_entity(), amp(), 2);
        lemma_replaced_at_start(d, quot_entity(), quot());
        lemma_replaced_skips_prefix(quot(), e, apos_entity(), apos());
    } else if c == '\'' {
        lemma_replaced_keeps_entity(p, rest, gt_entity(), gt(), 1);
        lemma_replaced_keeps_entity(p, a, lt_entity(), lt(), 1);
        lemma_replaced_keeps_entity(p, b, amp_entity(), amp(), 2);
        lemma_replaced_keeps_entity(p, d, quot_entity(), quot(), 1);
        lemma_replaced_at_start(e, apos_entity(), apos());
    } else {
        lemma_replaced_skips_prefix(p, rest, gt_entity(), gt());
        lemma_replaced_skips_prefix(p, a, lt_entity(), lt());
        lemma_replaced_skips_prefix(p, b, amp_entity(), amp());
        lemma_replaced_skips_prefix(p, d, quot_entity(), quot());
        lemma_replaced_skips_prefix(p, e, apos_entity(), apos());
    }
}

/// Unescaping undoes the escape of the quotes of any text without `<`, `>`
/// and `&`.
pub proof fn lemma_unescaped_escaped_quotes(t: Seq<char>)
    requires
        !t.contains('<'),
        !t.contains('>'),
        !t.contains('&'),
    ensures
        unescaped(escaped_quotes(t)) == t,
    decreases t.len(),
{
    if t.len() == 0 {
        assert(escaped_quotes(t) == t);
    } else {
        let t1 = t.skip(1);
        assert(!t1.contains('<') && !t1.contains('>') && !t1.contains('&')) by {
            if t1.contains('<') || t1.contains('>') || t1.contains('&') {
                let i = choose|i: int| 0 <= i < t1.len() && (t1[i] == '<' || t1[i] == '>' || t1[i] == '&');
                assert(t[i + 1] == t1[i]);
                assert(t.contains(t1[i]));
            }
        }
        assert(t[0] != '<' && t[0] != '>' && t[0] != '&') by {
            assert(t.contains(t[0]));
        }
        lemma_escaped_quotes_step(t);
        lemma_unescaped_char(t[0], escaped_quotes(t1));
        lemma_unescaped_escaped_quotes(t1);
        assert(seq![t[0]] + t1 =~= t);
    }
}

/// Unescaping gives back the text that was escaped, for text without `<`,
/// `>` and `&` (those three are escaped so that the `&` of the entities for
/// `<` and `>` is escaped again).
pub proof fn lemma_unescape_undoes_escape(t: Seq<char>)
    requires
        !t.contains('<'),
        !t.contains('>'),
        !t.contains('&'),
    ensures
        unescaped(escaped(t)) == t,
{
    lemma_escaped_plain(t);
    lemma_unescaped_escaped_quotes(t);
}

} // verus!
