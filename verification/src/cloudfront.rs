//! CloudFront distributions: the settings of a distribution and the
//! configuration that creates or updates it.
use vstd::prelude::*;
use vstd::string::*;

use crate::error::Error;
use crate::route53::opt_view;
use crate::search::{first_match, lemma_first_match, lemma_first_match_at};
use crate::split::views;
use crate::text::str_eq;

verus! {

/// The name of the managed cache policy that distributions use.
pub open spec fn managed_caching_optimized() -> Seq<char> {
    "Managed-CachingOptimized"@
}

/// How viewers may reach a distribution.
#[derive(Debug, Clone, Copy, PartialEq, Eq, Structural)]
pub enum ViewerProtocolPolicy {
    AllowAll,
    RedirectToHttps,
    HttpsOnly,
}

/// The name of a viewer protocol policy.
pub open spec fn policy_name(p: ViewerProtocolPolicy) -> Seq<char> {
    match p {
        ViewerProtocolPolicy::AllowAll => "allow-all"@,
        ViewerProtocolPolicy::RedirectToHttps => "redirect-to-https"@,
        ViewerProtocolPolicy::HttpsOnly => "https-only"@,
    }
}

/// The viewer protocol policy with the given name, if any.
pub open spec fn parse_policy(s: Seq<char>) -> Option<ViewerProtocolPolicy> {
    if s == "allow-all"@ {
        Some(ViewerProtocolPolicy::AllowAll)
    } else if s == "redirect-to-https"@ {
        Some(ViewerProtocolPolicy::RedirectToHttps)
    } else if s == "https-only"@ {
        Some(ViewerProtocolPolicy::HttpsOnly)
    } else {
        None
    }
}

impl ViewerProtocolPolicy {
    /// Parse a policy from its name.
    pub fn from_str(s: &str) -> (r: Result<ViewerProtocolPolicy, Error>)
        ensures
            parse_policy(s@) matches Some(p) ==> r == Ok::<ViewerProtocolPolicy, Error>(p),
            parse_policy(s@) is None ==> (r matches Err(Error::UnknownViewerProtocolPolicy(m))
                && m@ == s@),
    {
        if str_eq(s, "allow-all") {
            Ok(ViewerProtocolPolicy::AllowAll)
        } else if str_eq(s, "redirect-to-https") {
            Ok(ViewerProtocolPolicy::RedirectToHttps)
        } else if str_eq(s, "https-only") {
            Ok(ViewerProtocolPolicy::HttpsOnly)
        } else {
            Err(Error::UnknownViewerProtocolPolicy(s.to_owned()))
        }
    }

    /// The name of this policy.
    pub fn to_string(&self) -> (r: String)
        ensures
            r@ == policy_name(*self),
    {
        match self {
            ViewerProtocolPolicy::AllowAll => String::from_str("allow-all"),
            ViewerProtocolPolicy::RedirectToHttps => String::from_str("redirect-to-https"),
            ViewerProtocolPolicy::HttpsOnly => String::from_str("https-only"),
        }
    }
}

/// Parsing the name of a policy gives the policy back.
pub proof fn lemma_policy_round_trip(p: ViewerProtocolPolicy)
    ensures
        parse_policy(policy_name(p)) == Some(p),
{
    reveal_strlit("allow-all");
    reveal_strlit("redirect-to-https");
    reveal_strlit("https-only");
    assert("allow-all"@.len() == 9);
    assert("redirect-to-https"@.len() == 17);
    assert("https-only"@.len() == 10);
}

/// The domain name of the URL with the given text: `None` when the text
/// is not a URL or its host is not a domain name.
pub uninterp spec fn url_domain(url: Seq<char>) -> Option<Seq<char>>;

/// Calls `url::Url::parse` on the text and then `url::Url::domain` on the
/// URL; the contract names the result and claims nothing more of it.
#[verifier::external_body]
fn origin_domain(origin: &str) -> (r: Option<String>)
    ensures
        opt_view(r) == url_domain(origin@),
{
    match url::Url::parse(origin) {
        Ok(u) => u.domain().map(|d| d.to_string()),
        Err(_) => None,
    }
}

/// The settings of a distribution as values.
pub struct DistributionSettingsView {
    pub origin: Seq<char>,
    pub domain_name: Seq<char>,
    pub origin_id: Seq<char>,
    pub enabled: bool,
    pub compress: bool,
    pub aliases: Seq<Seq<char>>,
    pub viewer_protocol_policy: ViewerProtocolPolicy,
    pub caller_reference: Seq<char>,
    pub comment: Seq<char>,
    pub acm_certificate_arn: Option<Seq<char>>,
    pub origin_path: Option<Seq<char>>,
}

/// The settings of a CloudFront distribution in front of an origin.
#[derive(Debug, Clone)]
pub struct DistributionSettings {
    /// The origin URL for the distribution.
    origin: String,
    /// Domain name parsed from the origin URL.
    domain_name: String,
    /// Unique identifier for the origin.
    origin_id: String,
    /// Whether the distribution is enabled.
    enabled: bool,
    /// Whether to automatically compress objects.
    compress: bool,
    /// List of CNAME aliases.
    aliases: Vec<String>,
    /// Viewer protocol policy.
    viewer_protocol_policy: ViewerProtocolPolicy,
    /// Caller reference for the request.
    caller_reference: String,
    /// Distribution comment.
    comment: String,
    /// ARN for an ACM certificate.
    acm_certificate_arn: Option<String>,
    /// Origin path.
    origin_path: Option<String>,
}

impl View for DistributionSettings {
    type V = DistributionSettingsView;

    closed spec fn view(&self) -> DistributionSettingsView {
        DistributionSettingsView {
            origin: self.origin@,
            domain_name: self.domain_name@,
            origin_id: self.origin_id@,
            enabled: self.enabled,
            compress: self.compress,
            aliases: views(self.aliases@),
            viewer_protocol_policy: self.viewer_protocol_policy,
            caller_reference: self.caller_reference@,
            comment: self.comment@,
            acm_certificate_arn: opt_view(self.acm_certificate_arn),
            origin_path: opt_view(self.origin_path),
        }
    }
}

/// The settings of a new distribution for an origin with the given
/// domain name.
pub open spec fn new_settings(
    origin: Seq<char>,
    domain: Seq<char>,
    aliases: Seq<Seq<char>>,
    origin_id: Option<Seq<char>>,
) -> DistributionSettingsView {
    let id = match origin_id {
        Some(i) => i,
        None => domain,
    };
    DistributionSettingsView {
        origin,
        domain_name: domain,
        origin_id: id,
        enabled: true,
        compress: true,
        aliases,
        viewer_protocol_policy: ViewerProtocolPolicy::AllowAll,
        caller_reference: id,
        comment: Seq::<char>::empty(),
        acm_certificate_arn: None,
        origin_path: None,
    }
}

/// The aliases of a distribution as CloudFront takes them.
#[derive(Debug, Clone)]
pub struct Aliases {
    pub quantity: i64,
    pub items: Vec<String>,
}

/// The certificate that viewers are served.
#[derive(Debug, Clone)]
pub struct ViewerCertificate {
    pub acm_certificate_arn: Option<String>,
    pub ssl_support_method: Option<String>,
}

/// How CloudFront reaches a custom origin.
#[derive(Debug, Clone)]
pub struct CustomOriginConfig {
    pub http_port: i64,
    pub https_port: i64,
    pub origin_protocol_policy: String,
}

/// An origin of a distribution.
#[derive(Debug, Clone)]
pub struct Origin {
    pub domain_name: String,
    pub id: String,
    pub origin_path: Option<String>,
    pub custom_origin_config: Option<CustomOriginConfig>,
}

/// The origins of a distribution.
#[derive(Debug, Clone)]
pub struct Origins {
    pub items: Vec<Origin>,
    pub quantity: i64,
}

/// The cache behavior used for every request.
#[derive(Debug, Clone)]
pub struct DefaultCacheBehavior {
    pub compress: Option<bool>,
    pub target_origin_id: String,
    pub cache_policy_id: Option<String>,
    pub viewer_protocol_policy: String,
}

/// The configuration that creates or updates a distribution.
#[derive(Debug, Clone)]
pub struct DistributionConfig {
    pub origins: Origins,
    pub aliases: Option<Aliases>,
    pub caller_reference: String,
    pub comment: String,
    pub enabled: bool,
    pub default_cache_behavior: DefaultCacheBehavior,
    pub viewer_certificate: Option<ViewerCertificate>,
    pub is_ipv6_enabled: Option<bool>,
}

/// A cache policy as listed by CloudFront.
#[derive(Debug, Clone)]
pub struct CachePolicySummary {
    pub id: String,
    pub name: String,
}

/// A distribution as listed by CloudFront, with the domain names of its
/// origins.
#[derive(Debug, Clone)]
pub struct DistributionSummary {
    pub id: String,
    pub origin_domains: Vec<String>,
}

/// Whether a listed distribution has an origin with the given domain name.
pub open spec fn has_origin(d: DistributionSummary, domain: Seq<char>) -> bool {
    views(d.origin_domains@).contains(domain)
}

/// Find the id of the first cache policy with the given name.
pub fn find_cache_policy_id(policies: &Vec<CachePolicySummary>, name: &str) -> (r: Option<
    String,
>)
    ensures
        match first_match(policies@, |p: CachePolicySummary| p.name@ == name@) {
            Some(i) => r matches Some(id) && id@ == policies@[i].id@,
            None => r is None,
        },
{
    let ghost pred = |p: CachePolicySummary| p.name@ == name@;
    let mut i: usize = 0;
    while i < policies.len()
        invariant
            i <= policies@.len(),
            pred == (|p: CachePolicySummary| p.name@ == name@),
            forall|k: int| 0 <= k < i ==> !pred(#[trigger] policies@[k]),
        decreases policies@.len() - i,
    {
        if str_eq(policies[i].name.as_str(), name) {
            proof {
                lemma_first_match_at(policies@, pred, i as int);
            }
            return Some(policies[i].id.clone());
        }
        i = i + 1;
    }
    proof {
        lemma_first_match(policies@, pred);
        if let Some(j) = first_match(policies@, pred) {
            assert(!pred(policies@[j]));
        }
    }
    None
}

/// Whether a list of domain names holds the given one.
fn contains_name(names: &Vec<String>, name: &str) -> (r: bool)
    ensures
        r == views(names@).contains(name@),
{
    let mut i: usize = 0;
    while i < names.len()
        invariant
            i <= names@.len(),
            forall|k: int| 0 <= k < i ==> names@[k]@ != name@,
        decreases names@.len() - i,
    {
        if str_eq(names[i].as_str(), name) {
            proof {
                assert(views(names@)[i as int] == name@);
            }
            return true;
        }
        i = i + 1;
    }
    proof {
        if views(names@).contains(name@) {
            let k = choose|k: int| 0 <= k < views(names@).len() && views(names@)[k] == name@;
            assert(names@[k]@ == name@);
        }
    }
    false
}

impl DistributionSettings {
    /// Settings for a distribution of the origin at `origin`, whose URL must
    /// have a domain name.
    pub fn new(origin: String, aliases: Vec<String>, origin_id: Option<String>) -> (r: Self)
        requires
            url_domain(origin@) is Some,
        ensures
            r@ == new_settings(origin@, url_domain(origin@)->0, views(aliases@), opt_view(origin_id)),
    {
        let domain_name = match origin_domain(origin.as_str()) {
            Some(d) => d,
            None => {
                proof {
                    assert(false);
                }
                String::new()
            },
        };
        let id = match &origin_id {
            Some(i) => i.clone(),
            None => domain_name.clone(),
        };
        let reference = match &origin_id {
            Some(i) => i.clone(),
            None => domain_name.clone(),
        };
        Self {
            origin,
            origin_id: id,
            caller_reference: reference,
            domain_name,
            comment: String::new(),
            aliases,
            enabled: true,
            compress: true,
            origin_path: None,
            acm_certificate_arn: None,
            viewer_protocol_policy: ViewerProtocolPolicy::AllowAll,
        }
    }

    /// Settings for a distribution of the origin at `origin`, or `None`
    /// when its URL has no domain name.
    pub fn try_new(origin: String, aliases: Vec<String>, origin_id: Option<String>) -> (r: Option<
        Self,
    >)
        ensures
            url_domain(origin@) is None ==> r is None,
            url_domain(origin@) matches Some(d) ==> (r matches Some(s) && s@ == new_settings(
                origin@,
                d,
                views(aliases@),
                opt_view(origin_id),
            )),
    {
        match origin_domain(origin.as_str()) {
            Some(_) => Some(Self::new(origin, aliases, origin_id)),
            None => None,
        }
    }

    /// Set whether the distribution is enabled.
    pub fn set_enabled(&mut self, enabled: bool)
        ensures
            final(self)@ == (DistributionSettingsView { enabled, ..old(self)@ }),
    {
        self.enabled = enabled;
    }

    /// Set whether to automatically compress objects.
    pub fn set_compress(&mut self, compress: bool)
        ensures
            final(self)@ == (DistributionSettingsView { compress, ..old(self)@ }),
    {
        self.compress = compress;
    }

    /// Set the viewer protocol policy.
    pub fn set_viewer_protocol_policy(&mut self, policy: ViewerProtocolPolicy)
        ensures
            final(self)@ == (DistributionSettingsView {
                viewer_protocol_policy: policy,
                ..old(self)@
            }),
    {
        self.viewer_protocol_policy = policy;
    }

    /// Set a comment for the distribution.
    pub fn set_comment(&mut self, comment: String)
        ensures
            final(self)@ == (DistributionSettingsView { comment: comment@, ..old(self)@ }),
    {
        self.comment = comment;
    }

    /// Set an ACM certificate ARN.
    pub fn set_acm_certificate_arn(&mut self, acm_certificate_arn: Option<String>)
        ensures
            final(self)@ == (DistributionSettingsView {
                acm_certificate_arn: opt_view(acm_certificate_arn),
                ..old(self)@
            }),
    {
        self.acm_certificate_arn = acm_certificate_arn;
    }

    /// Set an origin path for the distribution.
    pub fn set_origin_path(&mut self, origin_path: Option<String>)
        ensures
            final(self)@ == (DistributionSettingsView {
                origin_path: opt_view(origin_path),
                ..old(self)@
            }),
    {
        self.origin_path = origin_path;
    }

    /// The domain name of the origin.
    pub fn domain_name(&self) -> (r: &String)
        ensures
            r@ == self@.domain_name,
    {
        &self.domain_name
    }

    /// The viewer certificate: the ACM certificate served by SNI.
    pub fn into_viewer_certificate(&self) -> (r: Option<ViewerCertificate>)
        ensures
            r matches Some(c) && opt_view(c.acm_certificate_arn) == self@.acm_certificate_arn
                && opt_view(c.ssl_support_method) == Some("sni-only"@),
    {
        Some(ViewerCertificate {
            acm_certificate_arn: self.acm_certificate_arn.clone(),
            ssl_support_method: Some(String::from_str("sni-only")),
        })
    }

    /// The aliases, or `None` when there are none.
    pub fn into_aliases(&self) -> (r: Option<Aliases>)
        ensures
            self@.aliases.len() == 0 ==> r is None,
            self@.aliases.len() > 0 ==> (r matches Some(a) && a.quantity == self@.aliases.len() as i64
                && views(a.items@) == self@.aliases),
    {
        if self.aliases.len() > 0 {
            Some(Aliases { quantity: self.aliases.len() as i64, items: self.aliases.clone() })
        } else {
            None
        }
    }

    /// The configuration that creates or updates the distribution with the
    /// given cache policy.
    pub fn into_distribution_config(&self, cache_policy_id: String) -> (r: DistributionConfig)
        ensures
            r.origins.quantity == 1,
            r.origins.items@.len() == 1,
            r.origins.items@[0].domain_name@ == self@.domain_name,
            r.origins.items@[0].id@ == self@.origin_id,
            opt_view(r.origins.items@[0].origin_path) == self@.origin_path,
            r.origins.items@[0].custom_origin_config matches Some(c) && c.http_port == 80
                && c.https_port == 443 && c.origin_protocol_policy@ == "http-only"@,
            self@.aliases.len() == 0 ==> r.aliases is None,
            self@.aliases.len() > 0 ==> (r.aliases matches Some(a) && a.quantity
                == self@.aliases.len() as i64 && views(a.items@) == self@.aliases),
            r.caller_reference@ == self@.caller_reference,
            r.comment@ == self@.comment,
            r.enabled == self@.enabled,
            r.default_cache_behavior.compress == Some(self@.compress),
            r.default_cache_behavior.target_origin_id@ == self@.origin_id,
            opt_view(r.default_cache_behavior.cache_policy_id) == Some(cache_policy_id@),
            r.default_cache_behavior.viewer_protocol_policy@ == policy_name(
                self@.viewer_protocol_policy,
            ),
            r.viewer_certificate matches Some(c) && opt_view(c.acm_certificate_arn)
                == self@.acm_certificate_arn && opt_view(c.ssl_support_method) == Some(
                "sni-only"@,
            ),
            r.is_ipv6_enabled == Some(true),
    {
        let default_cache_behavior = DefaultCacheBehavior {
            compress: Some(self.compress),
            target_origin_id: self.origin_id.clone(),
            cache_policy_id: Some(cache_policy_id),
            viewer_protocol_policy: self.viewer_protocol_policy.to_string(),
        };
        let aliases = self.into_aliases();
        let origin = Origin {
            domain_name: self.domain_name.clone(),
            id: self.origin_id.clone(),
            origin_path: self.origin_path.clone(),
            custom_origin_config: Some(
                CustomOriginConfig {
                    http_port: 80,
                    https_port: 443,
                    origin_protocol_policy: String::from_str("http-only"),
                },
            ),
        };
        let origins = Origins { items: vec![origin], quantity: 1 };
        DistributionConfig {
            origins,
            aliases,
            caller_reference: self.caller_reference.clone(),
            comment: self.comment.clone(),
            enabled: self.enabled,
            default_cache_behavior,
            viewer_certificate: self.into_viewer_certificate(),
            is_ipv6_enabled: Some(true),
        }
    }

    /// Find the id of the first listed distribution that has an origin
    /// with this origin's domain name; creating then updates it.
    pub fn find_existing(&self, distributions: &Vec<DistributionSummary>) -> (r: Option<String>)
        ensures
            match first_match(
                distributions@,
                |d: DistributionSummary| has_origin(d, self@.domain_name),
            ) {
                Some(i) => r matches Some(id) && id@ == distributions@[i].id@,
                None => r is None,
            },
    {
        let ghost pred = |d: DistributionSummary| has_origin(d, self@.domain_name);
        let mut i: usize = 0;
        while i < distributions.len()
            invariant
                i <= distributions@.len(),
                pred == (|d: DistributionSummary| has_origin(d, self@.domain_name)),
                forall|k: int| 0 <= k < i ==> !pred(#[trigger] distributions@[k]),
            decreases distributions@.len() - i,
        {
            if contains_name(&distributions[i].origin_domains, self.domain_name.as_str()) {
                proof {
                    lemma_first_match_at(distributions@, pred, i as int);
                }
                return Some(distributions[i].id.clone());
            }
            i = i + 1;
        }
        proof {
            lemma_first_match(distributions@, pred);
            if let Some(j) = first_match(distributions@, pred) {
                assert(!pred(distributions@[j]));
            }
        }
        None
    }
}

} // verus!
