//! DNS records and hosted zones, and the record sets and change sets that
//! are sent to Route 53.
use vstd::prelude::*;
use vstd::string::*;

use crate::error::Error;
use crate::name_servers::{list, name_server_names, lemma_name_servers_single_line};
use crate::split::{joined, join_with, split_char, split_on, str_views, views};
use crate::text::{str_eq, trim_start_matches, trimmed_start};

verus! {

/// The hosted zone id of CloudFront distributions, used for alias records.
pub open spec fn cloudfront_zone_id() -> Seq<char> {
    "Z2FDTNDATAQYW2"@
}

/// The start of authority record of a new hosted zone.
pub open spec fn soa_value() -> Seq<char> {
    "ns1.uwe.app. dev.uwe.app. 1 7200 900 1209600 86400"@
}

/// The prefix of the ids of hosted zones.
pub open spec fn hosted_zone_prefix() -> Seq<char> {
    "/hostedzone/"@
}

/// The kind of a DNS record.
#[derive(Debug, Clone, Copy, PartialEq, Eq, Structural)]
pub enum RecordType {
    A,
    AAAA,
    CAA,
    CNAME,
    MX,
    NAPTR,
    NS,
    PTR,
    SOA,
    SPF,
    SRV,
    TXT,
}

/// The name of a record type.
pub open spec fn record_type_name(t: RecordType) -> Seq<char> {
    match t {
        RecordType::A => "A"@,
        RecordType::AAAA => "AAAA"@,
        RecordType::CAA => "CAA"@,
        RecordType::CNAME => "CNAME"@,
        RecordType::MX => "MX"@,
        RecordType::NAPTR => "NAPTR"@,
        RecordType::NS => "NS"@,
        RecordType::PTR => "PTR"@,
        RecordType::SOA => "SOA"@,
        RecordType::SPF => "SPF"@,
        RecordType::SRV => "SRV"@,
        RecordType::TXT => "TXT"@,
    }
}

/// The record type with the given name, if any.
pub open spec fn parse_record_type(s: Seq<char>) -> Option<RecordType> {
    if s == "A"@ {
        Some(RecordType::A)
    } else if s == "AAAA"@ {
        Some(RecordType::AAAA)
    } else if s == "CAA"@ {
        Some(RecordType::CAA)
    } else if s == "CNAME"@ {
        Some(RecordType::CNAME)
    } else if s == "MX"@ {
        Some(RecordType::MX)
    } else if s == "NAPTR"@ {
        Some(RecordType::NAPTR)
    } else if s == "NS"@ {
        Some(RecordType::NS)
    } else if s == "PTR"@ {
        Some(RecordType::PTR)
    } else if s == "SOA"@ {
        Some(RecordType::SOA)
    } else if s == "SPF"@ {
        Some(RecordType::SPF)
    } else if s == "SRV"@ {
        Some(RecordType::SRV)
    } else if s == "TXT"@ {
        Some(RecordType::TXT)
    } else {
        None
    }
}

impl RecordType {
    /// Parse a record type from its name.
    pub fn from_str(s: &str) -> (r: Result<RecordType, Error>)
        ensures
            parse_record_type(s@) matches Some(t) ==> r == Ok::<RecordType, Error>(t),
            parse_record_type(s@) is None ==> (r matches Err(Error::UnknownDnsRecordType(m))
                && m@ == s@),
    {
        if str_eq(s, "A") {
            Ok(RecordType::A)
        } else if str_eq(s, "AAAA") {
            Ok(RecordType::AAAA)
        } else if str_eq(s, "CAA") {
            Ok(RecordType::CAA)
        } else if str_eq(s, "CNAME") {
            Ok(RecordType::CNAME)
        } else if str_eq(s, "MX") {
            Ok(RecordType::MX)
        } else if str_eq(s, "NAPTR") {
            Ok(RecordType::NAPTR)
        } else if str_eq(s, "NS") {
            Ok(RecordType::NS)
        } else if str_eq(s, "PTR") {
            Ok(RecordType::PTR)
        } else if str_eq(s, "SOA") {
            Ok(RecordType::SOA)
        } else if str_eq(s, "SPF") {
            Ok(RecordType::SPF)
        } else if str_eq(s, "SRV") {
            Ok(RecordType::SRV)
        } else if str_eq(s, "TXT") {
            Ok(RecordType::TXT)
        } else {
            Err(Error::UnknownDnsRecordType(s.to_owned()))
        }
    }

    /// The name of this record type.
    pub fn to_string(&self) -> (r: String)
        ensures
            r@ == record_type_name(*self),
    {
        match self {
            RecordType::A => String::from_str("A"),
            RecordType::AAAA => String::from_str("AAAA"),
            RecordType::CAA => String::from_str("CAA"),
            RecordType::CNAME => String::from_str("CNAME"),
            RecordType::MX => String::from_str("MX"),
            RecordType::NAPTR => String::from_str("NAPTR"),
            RecordType::NS => String::from_str("NS"),
            RecordType::PTR => String::from_str("PTR"),
            RecordType::SOA => String::from_str("SOA"),
            RecordType::SPF => String::from_str("SPF"),
            RecordType::SRV => String::from_str("SRV"),
            RecordType::TXT => String::from_str("TXT"),
        }
    }
}

/// Parsing the name of a record type gives the record type back.
pub proof fn lemma_record_type_round_trip(t: RecordType)
    ensures
        parse_record_type(record_type_name(t)) == Some(t),
{
    reveal_strlit("A");
    reveal_strlit("AAAA");
    reveal_strlit("CAA");
    reveal_strlit("CNAME");
    reveal_strlit("MX");
    reveal_strlit("NAPTR");
    reveal_strlit("NS");
    reveal_strlit("PTR");
    reveal_strlit("SOA");
    reveal_strlit("SPF");
    reveal_strlit("SRV");
    reveal_strlit("TXT");
    let names = seq![
        "A"@,
        "AAAA"@,
        "CAA"@,
        "CNAME"@,
        "MX"@,
        "NAPTR"@,
        "NS"@,
        "PTR"@,
        "SOA"@,
        "SPF"@,
        "SRV"@,
        "TXT"@,
    ];
    assert forall|i: int, j: int| 0 <= i < j < 12 implies names[i] != names[j] by {
        if names[i].len() == names[j].len() {
            if names[i][0] == names[j][0] {
                assert(names[i][1] != names[j][1] || names[i][2] != names[j][2]);
            }
        }
    }
    assert(names[0] == "A"@ && names[1] == "AAAA"@ && names[2] == "CAA"@ && names[3] == "CNAME"@);
    assert(names[4] == "MX"@ && names[5] == "NAPTR"@ && names[6] == "NS"@ && names[7] == "PTR"@);
    assert(names[8] == "SOA"@ && names[9] == "SPF"@ && names[10] == "SRV"@ && names[11] == "TXT"@);
}

/// The text of a TXT record in double quotes: a quote is added at the
/// start and at the end unless one is already there.
pub open spec fn quoted_txt(s: Seq<char>) -> Seq<char> {
    let a = if seq!['"'].is_prefix_of(s) {
        s
    } else {
        seq!['"'] + s
    };
    if seq!['"'].is_suffix_of(a) {
        a
    } else {
        a.push('"')
    }
}

/// The ASCII form of a host name: a domain name in its punycode form, an IP
/// address as written; `None` when the text is not a valid host.
pub uninterp spec fn host_ascii(name: Seq<char>) -> Option<Seq<char>>;

/// Calls `url::Host::parse` on the name and writes the host it gives. The
/// contract names the result; of a refused name it keeps the parser's
/// message as text and says nothing of that text.
#[verifier::external_body]
fn parse_host(name: &str) -> (r: Result<String, String>)
    ensures
        match r {
            Ok(s) => host_ascii(name@) == Some(s@),
            Err(_) => host_ascii(name@) is None,
        },
{
    match url::Host::parse(name) {
        Ok(url::Host::Domain(d)) => Ok(d),
        Ok(other) => Ok(other.to_string()),
        Err(e) => Err(e.to_string()),
    }
}

/// A domain name in its ASCII (punycode) form, as DNS records and
/// CloudFront aliases take it; the error holds the parser's message.
pub fn to_idna_punycode(name: &str) -> (r: Result<String, Error>)
    ensures
        match host_ascii(name@) {
            Some(a) => r matches Ok(s) && s@ == a,
            None => r matches Err(Error::InvalidHost(_)),
        },
{
    match parse_host(name) {
        Ok(s) => Ok(s),
        Err(m) => Err(Error::InvalidHost(m)),
    }
}

/// Calls `rusoto_route53::util::quote_txt_record`, which returns its
/// argument with a `"` put in front unless it starts with one, and then
/// a `"` put at the end unless the text so far ends with one.
#[verifier::external_body]
fn quote_txt_record(record_contents: &str) -> (r: String)
    ensures
        r@ == quoted_txt(record_contents@),
{
    rusoto_route53::util::quote_txt_record(record_contents)
}

/// A DNS record to create, update or delete.
#[derive(Debug, Clone)]
pub struct DnsRecord {
    /// The name of the record.
    pub name: String,
    /// The value of the record.
    pub value: String,
    /// The type of the record.
    pub kind: RecordType,
    /// A hosted zone id when an alias should be used.
    pub alias: Option<String>,
    /// TTL for the record.
    pub ttl: Option<i64>,
}

/// A record's fields as values.
pub struct DnsRecordView {
    pub name: Seq<char>,
    pub value: Seq<char>,
    pub kind: RecordType,
    pub alias: Option<Seq<char>>,
    pub ttl: Option<i64>,
}

pub open spec fn opt_view(o: Option<String>) -> Option<Seq<char>> {
    match o {
        Some(s) => Some(s@),
        None => None,
    }
}

impl View for DnsRecord {
    type V = DnsRecordView;

    open spec fn view(&self) -> DnsRecordView {
        DnsRecordView {
            name: self.name@,
            value: self.value@,
            kind: self.kind,
            alias: opt_view(self.alias),
            ttl: self.ttl,
        }
    }
}

/// The target of an alias record.
#[derive(Debug, Clone)]
pub struct AliasTarget {
    pub hosted_zone_id: String,
    pub dns_name: String,
}

/// A record set as Route 53 takes it.
#[derive(Debug, Clone)]
pub struct ResourceRecordSet {
    pub name: String,
    pub type_: String,
    pub alias_target: Option<AliasTarget>,
    pub resource_records: Option<Vec<String>>,
    pub ttl: Option<i64>,
}

/// A record set's fields as values.
pub struct ResourceRecordSetView {
    pub name: Seq<char>,
    pub type_: Seq<char>,
    /// The hosted zone id and the DNS name of the alias target.
    pub alias_target: Option<(Seq<char>, Seq<char>)>,
    pub resource_records: Option<Seq<Seq<char>>>,
    pub ttl: Option<i64>,
}

impl View for ResourceRecordSet {
    type V = ResourceRecordSetView;

    open spec fn view(&self) -> ResourceRecordSetView {
        ResourceRecordSetView {
            name: self.name@,
            type_: self.type_@,
            alias_target: match self.alias_target {
                Some(a) => Some((a.hosted_zone_id@, a.dns_name@)),
                None => None,
            },
            resource_records: match self.resource_records {
                Some(v) => Some(views(v@)),
                None => None,
            },
            ttl: self.ttl,
        }
    }
}

/// The value a record carries: a TXT value in quotes, any other as given.
pub open spec fn record_value(r: DnsRecordView) -> Seq<char> {
    if r.kind == RecordType::TXT {
        quoted_txt(r.value)
    } else {
        r.value
    }
}

/// The record set for a record: an alias record points at its value in
/// the alias zone; any other record has one resource record for each line
/// of its value.
pub open spec fn record_set_of(r: DnsRecordView) -> ResourceRecordSetView {
    ResourceRecordSetView {
        name: r.name,
        type_: record_type_name(r.kind),
        alias_target: match r.alias {
            Some(z) => Some((z, record_value(r))),
            None => None,
        },
        resource_records: match r.alias {
            Some(_) => None,
            None => Some(split_on(record_value(r), '\n')),
        },
        ttl: r.ttl,
    }
}

/// The record set of a record keeps its name and time to live. A record of
/// any kind but TXT keeps its value as given: one resource record for each
/// line, or the alias target's DNS name. A TXT value is put in quotes: it
/// then starts and ends with `"`, and is the value with at most one `"`
/// added at each end, whether it is a resource record or an alias target.
pub proof fn lemma_record_set_values(r: DnsRecordView)
    ensures
        record_set_of(r).name == r.name,
        record_set_of(r).ttl == r.ttl,
        r.kind != RecordType::TXT ==> match r.alias {
            None => record_set_of(r).resource_records == Some(split_on(r.value, '\n'))
                && record_set_of(r).alias_target is None,
            Some(z) => record_set_of(r).alias_target == Some((z, r.value))
                && record_set_of(r).resource_records is None,
        },
        r.kind == RecordType::TXT ==> exists|v: Seq<char>, a: Seq<char>, b: Seq<char>|
            #![trigger a + r.value + b, split_on(v, '\n')]
            match r.alias {
                None => record_set_of(r).resource_records == Some(split_on(v, '\n')),
                Some(z) => record_set_of(r).alias_target == Some((z, v)),
            } && v.len() >= 1 && v[0] == '"' && v[v.len() - 1] == '"' && v == a + r.value + b && (a
                == Seq::<char>::empty() || a == seq!['"']) && (b == Seq::<char>::empty() || b
                == seq!['"']),
{
    if r.kind == RecordType::TXT {
        let s = r.value;
        let v = quoted_txt(s);
        let a = if seq!['"'].is_prefix_of(s) {
            Seq::<char>::empty()
        } else {
            seq!['"']
        };
        let m = a + s;
        let b = if seq!['"'].is_suffix_of(m) {
            Seq::<char>::empty()
        } else {
            seq!['"']
        };
        if seq!['"'].is_prefix_of(s) {
            assert(m =~= s);
            assert(s.subrange(0, 1)[0] == '"');
        }
        assert(m[0] == '"');
        if seq!['"'].is_suffix_of(m) {
            assert(m.subrange(m.len() - 1, m.len() as int)[0] == '"');
        }
        assert(v =~= a + s + b);
        assert(v[0] == '"');
        assert(v[v.len() - 1] == '"');
        assert(split_on(v, '\n') == split_on(v, '\n'));
    }
}

impl DnsRecord {
    /// An alias record for a CloudFront distribution.
    pub fn new_cloudfront_alias(name: String, value: String, kind: RecordType) -> (r: Self)
        ensures
            r@.name == name@,
            r@.value == value@,
            r@.kind == kind,
            r@.alias == Some(cloudfront_zone_id()),
            r@.ttl == Some(300i64),
    {
        Self { alias: Some(String::from_str("Z2FDTNDATAQYW2")), name, value, kind, ttl: Some(300) }
    }

    /// The record set for this record.
    pub fn into_record_set(self) -> (r: ResourceRecordSet)
        ensures
            r@ == record_set_of(self@),
    {
        let ghost me = self@;
        let value = if let RecordType::TXT = self.kind {
            quote_txt_record(self.value.as_str())
        } else {
            self.value
        };
        let ttl = self.ttl;
        let type_ = self.kind.to_string();
        let (alias_target, resource_records) = if let Some(hosted_zone_id) = self.alias {
            (Some(AliasTarget { hosted_zone_id, dns_name: value }), None)
        } else {
            let records = split_char(value.as_str(), '\n');
            (None, Some(records))
        };
        ResourceRecordSet { name: self.name, type_, alias_target, resource_records, ttl }
    }
}

/// A change to make to a record set.
#[derive(Debug, Clone, Copy, PartialEq, Eq, Structural)]
pub enum ChangeAction {
    Create,
    Delete,
    Upsert,
}

/// The name Route 53 gives a change action.
pub open spec fn change_action_name(a: ChangeAction) -> Seq<char> {
    match a {
        ChangeAction::Create => "CREATE"@,
        ChangeAction::Delete => "DELETE"@,
        ChangeAction::Upsert => "UPSERT"@,
    }
}

impl ChangeAction {
    /// The name Route 53 gives this action.
    pub fn to_string(&self) -> (r: String)
        ensures
            r@ == change_action_name(*self),
    {
        match self {
            ChangeAction::Create => String::from_str("CREATE"),
            ChangeAction::Delete => String::from_str("DELETE"),
            ChangeAction::Upsert => String::from_str("UPSERT"),
        }
    }
}

/// One change of a change batch.
#[derive(Debug, Clone)]
pub struct Change {
    pub action: String,
    pub resource_record_set: ResourceRecordSet,
}

/// A request to change the record sets of a hosted zone.
#[derive(Debug, Clone)]
pub struct ChangeSet {
    pub hosted_zone_id: String,
    pub changes: Vec<Change>,
}

/// DNS records of a hosted zone.
#[derive(Debug, Clone)]
pub struct DnsSettings {
    zone_id: String,
}

impl DnsSettings {
    pub fn new(zone_id: String) -> (r: Self)
        ensures
            r.zone_id() == zone_id@,
    {
        Self { zone_id }
    }

    pub closed spec fn zone_id(&self) -> Seq<char> {
        self.zone_id@
    }

    /// The change set that applies `action` to each of the records, in order.
    pub fn change_set(&self, action: ChangeAction, records: Vec<DnsRecord>) -> (r: ChangeSet)
        ensures
            r.hosted_zone_id@ == self.zone_id(),
            r.changes@.len() == records@.len(),
            forall|i: int|
                0 <= i < records@.len() ==> {
                    &&& (#[trigger] r.changes@[i]).action@ == change_action_name(action)
                    &&& r.changes@[i].resource_record_set@ == record_set_of(records@[i]@)
                },
    {
        let mut changes: Vec<Change> = Vec::new();
        let n = records.len();
        let mut rest = records;
        let ghost all = rest@;
        let mut i: usize = 0;
        let mut taken: Vec<DnsRecord> = Vec::new();
        // Move the records out in order by reversing them first.
        while rest.len() > 0
            invariant
                rest@.len() + taken@.len() == n,
                forall|k: int|
                    0 <= k < taken@.len() ==> #[trigger] taken@[k] == all[n - 1 - k],
                forall|k: int| 0 <= k < rest@.len() ==> #[trigger] rest@[k] == all[k],
                n == all.len(),
            decreases rest@.len(),
        {
            let r = rest.pop().unwrap();
            taken.push(r);
        }
        while i < n
            invariant
                taken@.len() == n - i,
                i <= n,
                n == all.len(),
                forall|k: int| 0 <= k < taken@.len() ==> #[trigger] taken@[k] == all[n - 1 - k],
                changes@.len() == i,
                forall|k: int|
                    0 <= k < i ==> {
                        &&& (#[trigger] changes@[k]).action@ == change_action_name(action)
                        &&& changes@[k].resource_record_set@ == record_set_of(all[k]@)
                    },
            decreases n - i,
        {
            let r = taken.pop().unwrap();
            proof {
                assert(r == all[i as int]);
            }
            let set = r.into_record_set();
            changes.push(Change { action: action.to_string(), resource_record_set: set });
            i = i + 1;
        }
        ChangeSet { hosted_zone_id: self.zone_id.clone(), changes }
    }
}

/// Hosted zones.
#[derive(Debug, Clone)]
pub struct ZoneSettings;

/// A hosted zone as listed by Route 53.
#[derive(Debug, Clone)]
pub struct HostedZone {
    pub id: String,
    pub name: String,
}

impl ZoneSettings {
    pub fn new() -> Self {
        Self {}
    }

    /// The index of the first zone with the given qualified name.
    pub fn find_zone(&self, zones: &Vec<HostedZone>, qualified_name: &str) -> (r: Option<usize>)
        ensures
            match r {
                Some(i) => i < zones@.len() && zones@[i as int].name@ == qualified_name@ && forall|
                    k: int,
                | 0 <= k < i ==> (#[trigger] zones@[k]).name@ != qualified_name@,
                None => forall|k: int|
                    0 <= k < zones@.len() ==> (#[trigger] zones@[k]).name@ != qualified_name@,
            },
    {
        let mut i: usize = 0;
        while i < zones.len()
            invariant
                i <= zones@.len(),
                forall|k: int| 0 <= k < i ==> (#[trigger] zones@[k]).name@ != qualified_name@,
            decreases zones@.len() - i,
        {
            if str_eq(zones[i].name.as_str(), qualified_name) {
                return Some(i);
            }
            i = i + 1;
        }
        None
    }

    /// The start of authority and name server records that make a hosted
    /// zone use our name servers.
    pub fn name_server_records(&self, idna_name: &str) -> (r: Vec<DnsRecord>)
        ensures
            r@.len() == 2,
            r@[0]@.kind == RecordType::SOA,
            r@[0]@.name == idna_name@,
            r@[0]@.value == soa_value(),
            r@[0]@.alias is None,
            r@[0]@.ttl == Some(900i64),
            r@[1]@.kind == RecordType::NS,
            r@[1]@.name == idna_name@,
            r@[1]@.value == joined(name_server_names(), '\n'),
            r@[1]@.alias is None,
            r@[1]@.ttl == Some(172800i64),
    {
        let names = list();
        proof {
            reveal_strlit("\n");
            assert("\n"@ =~= seq!['\n']);
        }
        let ns_value = join_with(&names, "\n");
        let soa = DnsRecord {
            kind: RecordType::SOA,
            name: idna_name.to_owned(),
            value: String::from_str("ns1.uwe.app. dev.uwe.app. 1 7200 900 1209600 86400"),
            alias: None,
            ttl: Some(900),
        };
        let ns = DnsRecord {
            kind: RecordType::NS,
            name: idna_name.to_owned(),
            value: ns_value,
            alias: None,
            ttl: Some(172800),
        };
        vec![soa, ns]
    }
}

/// The record set of the name server record of a zone lists our name
/// servers, one resource record each.
pub proof fn lemma_name_server_record_set(r: DnsRecordView)
    requires
        r.kind == RecordType::NS,
        r.alias is None,
        r.value == joined(name_server_names(), '\n'),
    ensures
        record_set_of(r).resource_records == Some(name_server_names()),
{
    lemma_name_servers_single_line();
    crate::split::lemma_split_joined(name_server_names(), '\n');
}

/// The id of a hosted zone without the `/hostedzone/` prefix.
pub fn trim_hosted_zone_id(id: &str) -> (r: String)
    ensures
        r@ == trimmed_start(id@, hosted_zone_prefix()),
{
    trim_start_matches(id, "/hostedzone/")
}

} // verus!
