//! The state machine that brings up every resource of a web host: name
//! servers, hosted zone, certificate, buckets, CDN and DNS records.
//!
//! The machine yields the current state; the caller performs the
//! transition of that state (service calls), asks `next_state` where to go
//! next and then calls `advance` or `stop`.
use vstd::prelude::*;
use vstd::string::*;

use crate::cloudfront::{new_settings, url_domain, DistributionSettings, ViewerProtocolPolicy};
use crate::error::Error;
use crate::region::Region;
use crate::route53::{opt_view, DnsRecord, RecordType, cloudfront_zone_id};
use crate::s3::BucketSettings;
use crate::search::{first_match, lemma_first_match, lemma_first_match_at};
use crate::text::concat;

verus! {

/// The states of the machine.
#[derive(Debug, Clone, Copy, PartialEq, Eq, Structural)]
pub enum State {
    NameServer,
    HostedZone,
    Certificate,
    Bucket,
    RedirectBucket,
    Cdn,
    CdnDns,
    RedirectCname,
}

/// A state machine over a list of states.  The current state is the one
/// at `index`; an index past the end means that iteration has stopped.
#[derive(Debug)]
pub struct StateMachine<'a> {
    states: &'a [State],
    index: usize,
}

/// The machine as values.
pub struct StateMachineView {
    pub states: Seq<State>,
    pub index: nat,
}

impl<'a> View for StateMachine<'a> {
    type V = StateMachineView;

    closed spec fn view(&self) -> StateMachineView {
        StateMachineView { states: self.states@, index: self.index as nat }
    }
}

/// The current state of a machine, if it has not stopped.
pub open spec fn current(m: StateMachineView) -> Option<State> {
    if m.index < m.states.len() {
        Some(m.states[m.index as int])
    } else {
        None
    }
}

/// Whether a state is `s`.
pub open spec fn is_state(s: State) -> spec_fn(State) -> bool {
    |x: State| x == s
}

/// The position of the first occurrence of a state in a list.
pub open spec fn position(states: Seq<State>, s: State) -> Option<int> {
    first_match(states, is_state(s))
}

impl<'a> StateMachine<'a> {
    /// Whether the index is within or just past the list.
    pub closed spec fn wf(&self) -> bool {
        self.index <= self.states@.len()
    }

    /// A machine at the first of `states`.
    pub fn new(states: &'a [State]) -> (r: Self)
        ensures
            r.wf(),
            r@.states == states@,
            r@.index == 0,
    {
        Self { states, index: 0 }
    }

    /// The current state, or `None` once iteration has stopped.
    pub fn next(&self) -> (r: Option<State>)
        requires
            self.wf(),
        ensures
            r == current(self@),
    {
        if self.index < self.states.len() {
            Some(self.states[self.index])
        } else {
            None
        }
    }

    /// Move to the first occurrence of `state`; when the list does not hold
    /// it there is nowhere to go, so iteration stops.
    pub fn advance(&mut self, state: State)
        requires
            old(self).wf(),
        ensures
            final(self).wf(),
            final(self)@.states == old(self)@.states,
            match position(old(self)@.states, state) {
                Some(i) => final(self)@.index == i,
                None => final(self)@.index == old(self)@.states.len(),
            },
    {
        let ghost pred = is_state(state);
        let mut i: usize = 0;
        while i < self.states.len()
            invariant
                i <= self.states@.len(),
                *self == *old(self),
                old(self).wf(),
                pred == is_state(state),
                forall|k: int| 0 <= k < i ==> !pred(#[trigger] self.states@[k]),
            decreases self.states@.len() - i,
        {
            if self.states[i] == state {
                proof {
                    lemma_first_match_at(self.states@, pred, i as int);
                }
                self.index = i;
                return ;
            }
            i = i + 1;
        }
        proof {
            lemma_first_match(self.states@, pred);
            if let Some(j) = first_match(self.states@, pred) {
                assert(!pred(self.states@[j]));
            }
        }
        self.stop();
    }

    /// Stop iteration by moving the index past the end.
    pub fn stop(&mut self)
        requires
            old(self).wf(),
        ensures
            final(self).wf(),
            final(self)@.states == old(self)@.states,
            final(self)@.index == old(self)@.states.len(),
    {
        self.index = self.states.len();
    }
}

/// After advancing to a state that the list holds, that state is current;
/// to one it does not hold, there is no current state.
pub proof fn lemma_advance_current(m: StateMachineView, s: State, after: StateMachineView)
    requires
        after.states == m.states,
        match position(m.states, s) {
            Some(i) => after.index == i,
            None => after.index == m.states.len(),
        },
    ensures
        m.states.contains(s) ==> current(after) == Some(s),
        !m.states.contains(s) ==> current(after) is None,
{
    lemma_first_match(m.states, is_state(s));
    if m.states.contains(s) {
        let k = choose|k: int| 0 <= k < m.states.len() && m.states[k] == s;
        if position(m.states, s) is None {
            assert(is_state(s)(m.states[k]));
        }
    } else {
        if let Some(i) = position(m.states, s) {
            assert(m.states[i] == s);
        }
    }
}

/// A request for a web host.
#[derive(Debug, Clone)]
pub struct WebHostRequest {
    /// Name of the AWS credentials profile to use.
    pub credentials: String,
    /// Domain name to host.
    pub domain_name: String,
    /// Region for resources; only buckets require a region.
    pub region: Region,
    /// Alternative domain names for the SSL certificate.
    pub subject_alternative_names: Option<Vec<String>>,
    /// Name for the bucket.
    pub bucket_name: String,
    /// The suffix for folder requests to a bucket.
    pub index_suffix: String,
    /// The key for a bucket error document.
    pub error_key: String,
    /// Domain name for the redirect bucket; when none is given `www` is
    /// prefixed to the domain name.
    pub redirect_domain_name: Option<String>,
    /// Bucket that redirects every request to the primary bucket.
    pub redirect_bucket_name: Option<String>,
    /// Protocol used for redirects.
    pub redirect_protocol: Option<String>,
    /// Monitor the certificate status.
    pub monitor_certificate: bool,
    /// Timeout in seconds when monitoring the certificate status.
    pub monitor_certificate_timeout: u64,
}

impl Default for WebHostRequest {
    fn default() -> (r: Self)
        ensures
            r.credentials@.len() == 0,
            r.domain_name@.len() == 0,
            r.region == Region::UsEast1,
            r.subject_alternative_names is None,
            r.bucket_name@.len() == 0,
            r.index_suffix@ == "index.html"@,
            r.error_key@ == "404.html"@,
            r.redirect_domain_name is None,
            r.redirect_bucket_name is None,
            r.redirect_protocol is None,
            r.monitor_certificate,
            r.monitor_certificate_timeout == 300,
    {
        Self {
            credentials: String::new(),
            region: Region::UsEast1,
            bucket_name: String::new(),
            index_suffix: String::from_str("index.html"),
            error_key: String::from_str("404.html"),
            subject_alternative_names: None,
            redirect_domain_name: None,
            redirect_bucket_name: None,
            redirect_protocol: None,
            domain_name: String::new(),
            monitor_certificate: true,
            monitor_certificate_timeout: 300,
        }
    }
}

impl WebHostRequest {
    /// A request that only checks the name servers of a domain.
    pub fn new_domain(domain_name: String) -> (r: Self)
        ensures
            r.domain_name == domain_name,
            r.credentials@.len() == 0,
            r.region == Region::UsEast1,
            r.subject_alternative_names is None,
            r.bucket_name@.len() == 0,
            r.index_suffix@ == "index.html"@,
            r.error_key@ == "404.html"@,
            r.redirect_domain_name is None,
            r.redirect_bucket_name is None,
            r.redirect_protocol is None,
            r.monitor_certificate,
            r.monitor_certificate_timeout == 300,
    {
        let mut r = Self::default();
        r.domain_name = domain_name;
        r
    }

    /// Use the given credentials profile.
    pub fn set_credentials(&mut self, credentials: String)
        ensures
            *final(self) == (WebHostRequest { credentials, ..*old(self) }),
    {
        self.credentials = credentials;
    }
}

/// What bringing up a web host has produced so far.
#[derive(Debug, Clone)]
pub struct WebHostResponse {
    /// Whether the name servers have propagated.
    pub name_servers_propagated: bool,
    /// Hosted zone id.
    pub zone_id: String,
    /// An ARN identifier for the SSL certificate.
    pub certificate_arn: String,
    /// Endpoint for the primary bucket as a host name.
    pub bucket_endpoint: String,
    /// Endpoint for the redirect bucket as a host name.
    pub redirect_bucket_endpoint: Option<String>,
    /// Domain name for the CDN.
    pub cdn_domain_name: String,
    /// Distribution id.
    pub cdn_distribution_id: String,
}

impl Default for WebHostResponse {
    fn default() -> (r: Self)
        ensures
            !r.name_servers_propagated,
            r.zone_id@.len() == 0,
            r.certificate_arn@.len() == 0,
            r.bucket_endpoint@.len() == 0,
            r.redirect_bucket_endpoint is None,
            r.cdn_domain_name@.len() == 0,
            r.cdn_distribution_id@.len() == 0,
    {
        Self {
            name_servers_propagated: false,
            zone_id: String::new(),
            certificate_arn: String::new(),
            bucket_endpoint: String::new(),
            redirect_bucket_endpoint: None,
            cdn_domain_name: String::new(),
            cdn_distribution_id: String::new(),
        }
    }
}

/// Where the machine goes after the transition of `state`, from what the
/// request asks and what the response holds once the transition's service
/// calls are done; `propagated` is whether the name servers have
/// propagated, used by the name server state only.
pub open spec fn transition_target(
    state: State,
    has_redirect_bucket: bool,
    has_redirect_endpoint: bool,
    propagated: bool,
) -> Result<Option<State>, Error> {
    match state {
        State::NameServer => if propagated {
            Ok(Some(State::HostedZone))
        } else {
            Err(Error::NameServerPropagation)
        },
        State::HostedZone => Ok(Some(State::Certificate)),
        State::Certificate => Ok(Some(State::Bucket)),
        State::Bucket => if has_redirect_bucket {
            Ok(Some(State::RedirectBucket))
        } else {
            Ok(Some(State::Cdn))
        },
        State::RedirectBucket => Ok(Some(State::Cdn)),
        State::Cdn => Ok(Some(State::CdnDns)),
        State::CdnDns => if has_redirect_endpoint {
            Ok(Some(State::RedirectCname))
        } else {
            Ok(None)
        },
        State::RedirectCname => Ok(None),
    }
}

/// Decide the state that follows `state` once its transition is done.
pub fn next_state(
    state: State,
    request: &WebHostRequest,
    response: &WebHostResponse,
    propagated: bool,
) -> (r: Result<Option<State>, Error>)
    ensures
        r == transition_target(
            state,
            request.redirect_bucket_name is Some,
            response.redirect_bucket_endpoint is Some,
            propagated,
        ),
{
    match state {
        State::NameServer => {
            if propagated {
                Ok(Some(State::HostedZone))
            } else {
                Err(Error::NameServerPropagation)
            }
        },
        State::HostedZone => Ok(Some(State::Certificate)),
        State::Certificate => Ok(Some(State::Bucket)),
        State::Bucket => {
            if request.redirect_bucket_name.is_some() {
                Ok(Some(State::RedirectBucket))
            } else {
                Ok(Some(State::Cdn))
            }
        },
        State::RedirectBucket => Ok(Some(State::Cdn)),
        State::Cdn => Ok(Some(State::CdnDns)),
        State::CdnDns => {
            if response.redirect_bucket_endpoint.is_some() {
                Ok(Some(State::RedirectCname))
            } else {
                Ok(None)
            }
        },
        State::RedirectCname => Ok(None),
    }
}

/// Apply the outcome of a transition to the machine: advance to the next
/// state, or stop when there is none.
pub fn apply(machine: &mut StateMachine, next: Option<State>)
    requires
        old(machine).wf(),
    ensures
        final(machine).wf(),
        final(machine)@.states == old(machine)@.states,
        match next {
            Some(s) => match position(old(machine)@.states, s) {
                Some(i) => final(machine)@.index == i,
                None => final(machine)@.index == old(machine)@.states.len(),
            },
            None => final(machine)@.index == old(machine)@.states.len(),
        },
{
    match next {
        Some(state) => machine.advance(state),
        None => machine.stop(),
    }
}

/// The states that only check a domain.
pub open spec fn domain_states() -> Seq<State> {
    seq![State::NameServer]
}

/// All the states of a web host, in order.
pub open spec fn website_states() -> Seq<State> {
    seq![
        State::NameServer,
        State::HostedZone,
        State::Certificate,
        State::Bucket,
        State::RedirectBucket,
        State::Cdn,
        State::CdnDns,
        State::RedirectCname,
    ]
}

/// The states that ensure the name servers of a domain.
pub fn domain_states_list() -> (r: Vec<State>)
    ensures
        r@ == domain_states(),
{
    let r = vec![State::NameServer];
    proof {
        assert(r@ =~= domain_states());
    }
    r
}

/// The states that ensure every resource of a web host.
pub fn website_states_list() -> (r: Vec<State>)
    ensures
        r@ == website_states(),
{
    let r = vec![
        State::NameServer,
        State::HostedZone,
        State::Certificate,
        State::Bucket,
        State::RedirectBucket,
        State::Cdn,
        State::CdnDns,
        State::RedirectCname,
    ];
    proof {
        assert(r@ =~= website_states());
    }
    r
}

/// In the list of all web host states, every transition leads to a state
/// further down the list, so a run visits each state at most once and ends
/// after at most eight transitions.
pub proof fn lemma_website_transitions_move_forward(
    i: int,
    has_redirect_bucket: bool,
    has_redirect_endpoint: bool,
    propagated: bool,
)
    requires
        0 <= i < website_states().len(),
    ensures
        transition_target(website_states()[i], has_redirect_bucket, has_redirect_endpoint, propagated)
            matches Ok(Some(t)) ==> (position(website_states(), t) matches Some(j) && j > i),
{
    let ws = website_states();
    let r = transition_target(ws[i], has_redirect_bucket, has_redirect_endpoint, propagated);
    if let Ok(Some(t)) = r {
        let j: int = if t == State::HostedZone {
            1
        } else if t == State::Certificate {
            2
        } else if t == State::Bucket {
            3
        } else if t == State::RedirectBucket {
            4
        } else if t == State::Cdn {
            5
        } else if t == State::CdnDns {
            6
        } else {
            7
        };
        assert(ws[j] == t);
        assert forall|k: int| 0 <= k < j implies !is_state(t)(#[trigger] ws[k]) by {}
        lemma_first_match_at(ws, is_state(t), j);
    }
}

/// Whether a run over the web host states passes over `s`: the redirect
/// bucket when none is asked for, the redirect CNAME when there is no
/// redirect bucket endpoint.
pub open spec fn passed_over(s: State, has_redirect_bucket: bool, has_redirect_endpoint: bool) -> bool {
    (s == State::RedirectBucket && !has_redirect_bucket) || (s == State::RedirectCname
        && !has_redirect_endpoint)
}

/// Each transition of a web host goes to the next state of the list of all
/// web host states, passing over only the redirect states that do not
/// apply, and ends after the last state that applies; only the name server
/// transition fails, exactly when the name servers have not propagated.
pub proof fn lemma_website_transitions_take_the_next_state(
    i: int,
    has_redirect_bucket: bool,
    has_redirect_endpoint: bool,
    propagated: bool,
)
    requires
        0 <= i < website_states().len(),
    ensures
        ({
            let ws = website_states();
            match transition_target(ws[i], has_redirect_bucket, has_redirect_endpoint, propagated) {
                Err(e) => ws[i] == State::NameServer && !propagated && e == Error::NameServerPropagation,
                Ok(Some(t)) => exists|j: int|
                    #![trigger ws[j]]
                    i < j < ws.len() && ws[j] == t && !passed_over(
                        t,
                        has_redirect_bucket,
                        has_redirect_endpoint,
                    ) && forall|k: int|
                        i < k < j ==> passed_over(
                            #[trigger] ws[k],
                            has_redirect_bucket,
                            has_redirect_endpoint,
                        ),
                Ok(None) => forall|k: int|
                    i < k < ws.len() ==> passed_over(
                        #[trigger] ws[k],
                        has_redirect_bucket,
                        has_redirect_endpoint,
                    ),
            }
        }),
        website_states()[i] == State::NameServer && !propagated ==> transition_target(
            website_states()[i],
            has_redirect_bucket,
            has_redirect_endpoint,
            propagated,
        ) is Err,
{
    let ws = website_states();
    let hb = has_redirect_bucket;
    let he = has_redirect_endpoint;
    assert(ws[0] == State::NameServer);
    assert(ws[1] == State::HostedZone);
    assert(ws[2] == State::Certificate);
    assert(ws[3] == State::Bucket);
    assert(ws[4] == State::RedirectBucket);
    assert(ws[5] == State::Cdn);
    assert(ws[6] == State::CdnDns);
    assert(ws[7] == State::RedirectCname);
    let r = transition_target(ws[i], hb, he, propagated);
    if let Ok(Some(t)) = r {
        let j: int = if i == 3 && !hb {
            5
        } else {
            i + 1
        };
        assert(ws[j] == t);
        assert(!passed_over(t, hb, he));
        assert forall|k: int| i < k < j implies passed_over(#[trigger] ws[k], hb, he) by {
            assert(k == 4);
        }
    }
    if let Ok(None) = r {
        assert forall|k: int| i < k < ws.len() implies passed_over(#[trigger] ws[k], hb, he) by {
            assert(k == 7);
        }
    }
}

/// In the list that only checks a domain, the name server transition leaves
/// the list, so a run stops after one transition.
pub proof fn lemma_domain_run_stops(has_redirect_bucket: bool, has_redirect_endpoint: bool)
    ensures
        transition_target(State::NameServer, has_redirect_bucket, has_redirect_endpoint, true)
            matches Ok(Some(t)) ==> position(domain_states(), t) is None,
{
    lemma_first_match(domain_states(), is_state(State::HostedZone));
    assert(domain_states()[0] == State::NameServer);
}

/// The characters a slug is made of.
pub open spec fn is_slug_char(c: char) -> bool {
    ('a' <= c && c <= 'z') || ('0' <= c && c <= '9') || c == '-'
}

/// The slug of a text, as computed by the `slug` crate.
pub uninterp spec fn slug_of(s: Seq<char>) -> Seq<char>;

/// Calls `slug::slugify`.  Its documentation promises that the slug
/// consists of `a`-`z`, `0`-`9` and `-`, never holds two `-` in a row and
/// never starts or ends with `-`; the contract states that and names the
/// result.
#[verifier::external_body]
fn slugify(s: &str) -> (r: String)
    ensures
        r@ == slug_of(s@),
        forall|i: int| 0 <= i < r@.len() ==> is_slug_char(#[trigger] r@[i]),
        r@.len() > 0 ==> r@[0] != '-' && r@[r@.len() - 1] != '-',
        forall|i: int| 0 <= i < r@.len() - 1 ==> !(#[trigger] r@[i] == '-' && r@[i + 1] == '-'),
{
    slug::slugify(s)
}

/// The settings of the primary bucket.
pub fn bucket_settings(request: &WebHostRequest, policy_template: &str) -> (r: BucketSettings)
    ensures
        r@.region == request.region,
        r@.bucket == request.bucket_name@,
        r@.index_page == Some(request.index_suffix@),
        r@.error_page == Some(request.error_key@),
        r@.redirect_host_name is None,
        r@.redirect_protocol is None,
        r@.policy == Some(
            crate::text::replaced(
                policy_template@,
                crate::s3::bucket_placeholder(),
                request.bucket_name@,
            ),
        ),
{
    BucketSettings::new(
        request.region,
        request.bucket_name.clone(),
        request.index_suffix.clone(),
        request.error_key.clone(),
        None,
        None,
        policy_template,
    )
}

/// The settings of the bucket that redirects every request to the domain.
pub fn redirect_bucket_settings(request: &WebHostRequest, policy_template: &str) -> (r:
    BucketSettings)
    requires
        request.redirect_bucket_name is Some,
    ensures
        r@.region == request.region,
        r@.bucket == request.redirect_bucket_name->0@,
        r@.index_page == Some(request.index_suffix@),
        r@.error_page == Some(request.error_key@),
        r@.redirect_host_name == Some(request.domain_name@),
        r@.redirect_protocol == opt_view(request.redirect_protocol),
        r@.policy == Some(
            crate::text::replaced(
                policy_template@,
                crate::s3::bucket_placeholder(),
                request.redirect_bucket_name->0@,
            ),
        ),
{
    let bucket = match &request.redirect_bucket_name {
        Some(b) => b.clone(),
        None => String::new(),
    };
    BucketSettings::new(
        request.region,
        bucket,
        request.index_suffix.clone(),
        request.error_key.clone(),
        Some(request.domain_name.clone()),
        request.redirect_protocol.clone(),
        policy_template,
    )
}

/// The origin URL of the CDN: the primary bucket endpoint over HTTP.
pub open spec fn cdn_origin(response: WebHostResponse) -> Seq<char> {
    "http://"@ + response.bucket_endpoint@
}

/// The settings of the CDN in front of the primary bucket, aliased by
/// `alias` (the domain name in ASCII form), served with the certificate
/// and redirecting viewers to HTTPS; `None` when the origin URL has no
/// domain name.
pub fn cdn_settings(request: &WebHostRequest, response: &WebHostResponse, alias: String) -> (r:
    Option<DistributionSettings>)
    ensures
        url_domain(cdn_origin(*response)) is None ==> r is None,
        url_domain(cdn_origin(*response)) matches Some(d) ==> (r matches Some(s) && s@ == ({
            let base = new_settings(
                cdn_origin(*response),
                d,
                seq![alias@],
                Some(slug_of(request.domain_name@)),
            );
            crate::cloudfront::DistributionSettingsView {
                acm_certificate_arn: Some(response.certificate_arn@),
                viewer_protocol_policy: ViewerProtocolPolicy::RedirectToHttps,
                ..base
            }
        })),
{
    let origin = concat("http://", response.bucket_endpoint.as_str());
    let origin_id = slugify(request.domain_name.as_str());
    let aliases = vec![alias];
    proof {
        assert(crate::split::views(aliases@) =~= seq![alias@]);
    }
    match DistributionSettings::try_new(origin, aliases, Some(origin_id)) {
        Some(mut cdn) => {
            cdn.set_acm_certificate_arn(Some(response.certificate_arn.clone()));
            cdn.set_viewer_protocol_policy(ViewerProtocolPolicy::RedirectToHttps);
            Some(cdn)
        },
        None => None,
    }
}

/// The A and AAAA alias records that point the domain at the CDN.
pub fn cdn_dns_records(request: &WebHostRequest, response: &WebHostResponse) -> (r: Vec<
    DnsRecord,
>)
    ensures
        r@.len() == 2,
        r@[0]@.kind == RecordType::A,
        r@[1]@.kind == RecordType::AAAA,
        forall|i: int|
            0 <= i < 2 ==> {
                &&& (#[trigger] r@[i])@.name == request.domain_name@
                &&& r@[i]@.value == response.cdn_domain_name@
                &&& r@[i]@.alias == Some(cloudfront_zone_id())
                &&& r@[i]@.ttl == Some(300i64)
            },
{
    let a = DnsRecord::new_cloudfront_alias(
        request.domain_name.clone(),
        response.cdn_domain_name.clone(),
        RecordType::A,
    );
    let aaaa = DnsRecord::new_cloudfront_alias(
        request.domain_name.clone(),
        response.cdn_domain_name.clone(),
        RecordType::AAAA,
    );
    vec![a, aaaa]
}

/// The name of the redirect domain: the one the request gives, else `www.`
/// and the domain name.
pub open spec fn redirect_name(request: WebHostRequest) -> Seq<char> {
    match request.redirect_domain_name {
        Some(d) => d@,
        None => "www."@ + request.domain_name@,
    }
}

/// The CNAME record that points the redirect domain at the redirect bucket.
pub fn redirect_cname_records(request: &WebHostRequest, response: &WebHostResponse) -> (r: Vec<
    DnsRecord,
>)
    requires
        response.redirect_bucket_endpoint is Some,
    ensures
        r@.len() == 1,
        r@[0]@.name == redirect_name(*request),
        r@[0]@.value == "http://"@ + response.redirect_bucket_endpoint->0@,
        r@[0]@.kind == RecordType::CNAME,
        r@[0]@.alias is None,
        r@[0]@.ttl == Some(300i64),
{
    let name = if let Some(domain) = &request.redirect_domain_name {
        domain.clone()
    } else {
        concat("www.", request.domain_name.as_str())
    };
    let endpoint = match &response.redirect_bucket_endpoint {
        Some(e) => e.as_str(),
        None => "",
    };
    let value = concat("http://", endpoint);
    vec![DnsRecord { name, value, kind: RecordType::CNAME, alias: None, ttl: Some(300) }]
}

} // verus!
