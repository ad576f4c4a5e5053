//! Whether a domain has its NS records set to our name servers.
use vstd::prelude::*;
use vstd::string::*;

use crate::split::str_views;
use crate::text::{concat, ends_with, str_eq};

verus! {

/// Our name servers, fully qualified.
pub open spec fn name_server_names() -> Seq<Seq<char>> {
    seq!["ns1.uwe.app."@, "ns2.uwe.app."@, "ns3.uwe.app."@, "ns4.uwe.app."@]
}

/// The list of our name servers.
pub fn list() -> (r: Vec<&'static str>)
    ensures
        str_views(r@) == name_server_names(),
{
    let r = vec!["ns1.uwe.app.", "ns2.uwe.app.", "ns3.uwe.app.", "ns4.uwe.app."];
    proof {
        assert(str_views(r@) =~= name_server_names());
    }
    r
}

/// None of our name servers holds a line break.
pub proof fn lemma_name_servers_single_line()
    ensures
        forall|i: int|
            0 <= i < name_server_names().len() ==> !(#[trigger] name_server_names()[i]).contains(
                '\n',
            ),
{
    reveal_strlit("ns1.uwe.app.");
    reveal_strlit("ns2.uwe.app.");
    reveal_strlit("ns3.uwe.app.");
    reveal_strlit("ns4.uwe.app.");
    assert forall|i: int|
        0 <= i < name_server_names().len() implies !(#[trigger] name_server_names()[i]).contains(
        '\n',
    ) by {
        let s = name_server_names()[i];
        assert(s.len() == 12);
        assert forall|k: int| 0 <= k < s.len() implies s[k] != '\n' by {
            assert(s[k] == "ns1.uwe.app."@[k] || s[k] == "ns2.uwe.app."@[k] || s[k]
                == "ns3.uwe.app."@[k] || s[k] == "ns4.uwe.app."@[k]);
        }
    }
}

/// A domain name with a trailing period.
pub open spec fn qualified_name(domain: Seq<char>) -> Seq<char> {
    if seq!['.'].is_suffix_of(domain) {
        domain
    } else {
        domain.push('.')
    }
}

/// Ensure a domain name is qualified for a DNS lookup using a trailing
/// period; callers may give it with or without one.
pub fn qualified(domain_name: &str) -> (r: String)
    ensures
        r@ == qualified_name(domain_name@),
        seq!['.'].is_suffix_of(r@),
{
    proof {
        reveal_strlit(".");
        assert("."@ =~= seq!['.']);
    }
    if !ends_with(domain_name, ".") {
        let r = concat(domain_name, ".");
        proof {
            assert(r@ =~= domain_name@.push('.'));
            assert(seq!['.'] =~= r@.subrange(r@.len() - 1, r@.len() as int));
        }
        return r;
    }
    domain_name.to_owned()
}

/// Qualifying a qualified name changes nothing.
pub proof fn lemma_qualified_idempotent(domain: Seq<char>)
    ensures
        qualified_name(qualified_name(domain)) == qualified_name(domain),
        seq!['.'].is_suffix_of(qualified_name(domain)),
{
    let q = qualified_name(domain);
    if !seq!['.'].is_suffix_of(domain) {
        assert(seq!['.'] =~= q.subrange(q.len() - 1, q.len() as int));
    }
}

/// Whether a response names the expected name servers: it has at least as
/// many answers as there are names, and its `j`-th answer is an NS record
/// naming the `j`-th expected name server.
pub open spec fn resolves_to(answers: Seq<Option<String>>, names: Seq<String>) -> bool {
    &&& answers.len() >= names.len()
    &&& forall|j: int|
        0 <= j < names.len() ==> (#[trigger] answers[j]) is Some && answers[j]->0@ == names[j]@
}

/// The result of asking several resolvers for the NS records of a domain:
/// for each resolver the answers in order, each the name server it names,
/// written in lower case as DNS names compare without regard to case, or
/// `None` for another kind of record.
#[derive(Debug, Clone)]
pub struct NameServerResult {
    pub responses: Vec<Vec<Option<String>>>,
    pub names: Vec<String>,
}

impl NameServerResult {
    /// A result with no responses yet that expects our name servers.
    pub fn new() -> (r: Self)
        ensures
            r.responses@.len() == 0,
            crate::split::views(r.names@) == name_server_names(),
    {
        let l = list();
        let mut names: Vec<String> = Vec::new();
        let mut i: usize = 0;
        while i < l.len()
            invariant
                i <= l@.len(),
                str_views(l@) == name_server_names(),
                crate::split::views(names@) == str_views(l@).take(i as int),
            decreases l@.len() - i,
        {
            let s = l[i].to_owned();
            proof {
                crate::split::lemma_views_push(names@, s);
                assert(str_views(l@).take(i + 1) =~= str_views(l@).take(i as int).push(s@));
            }
            names.push(s);
            i = i + 1;
        }
        proof {
            assert(str_views(l@).take(l@.len() as int) =~= str_views(l@));
        }
        NameServerResult { responses: Vec::new(), names }
    }

    /// Record the answers of one more resolver.
    pub fn add_response(&mut self, answers: Vec<Option<String>>)
        ensures
            final(self).responses@ == old(self).responses@.push(answers),
            final(self).names@ == old(self).names@,
    {
        self.responses.push(answers);
    }

    /// Whether all responses resolve to the expected name servers: each one
    /// names them, in order, in its first answers.
    pub fn is_propagated(&self) -> (r: bool)
        ensures
            r == (forall|i: int|
                0 <= i < self.responses@.len() ==> resolves_to(
                    (#[trigger] self.responses@[i])@,
                    self.names@,
                )),
    {
        let k = self.names.len();
        let n = self.responses.len();
        let mut i: usize = 0;
        while i < n
            invariant
                n == self.responses@.len(),
                k == self.names@.len(),
                i <= n,
                forall|ii: int|
                    0 <= ii < i ==> resolves_to((#[trigger] self.responses@[ii])@, self.names@),
            decreases n - i,
        {
            let answers = &self.responses[i];
            if answers.len() < k {
                return false;
            }
            let mut j: usize = 0;
            while j < k
                invariant
                    n == self.responses@.len(),
                    k == self.names@.len(),
                    i < n,
                    *answers == self.responses@[i as int],
                    k <= answers@.len(),
                    j <= k,
                    forall|jj: int|
                        0 <= jj < j ==> (#[trigger] answers@[jj]) is Some && answers@[jj]->0@
                            == self.names@[jj]@,
                decreases k - j,
            {
                let same = match &answers[j] {
                    Some(name) => str_eq(name.as_str(), self.names[j].as_str()),
                    None => false,
                };
                if !same {
                    proof {
                        assert(!resolves_to(self.responses@[i as int]@, self.names@));
                    }
                    return false;
                }
                j = j + 1;
            }
            i = i + 1;
        }
        true
    }
}

} // verus!
