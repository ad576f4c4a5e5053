//! S3 buckets that host a static website or redirect every request.
use vstd::prelude::*;
use vstd::string::*;

use crate::region::{region_facts, region_info, Region};
use crate::route53::opt_view;
use crate::text::{concat, replace_all, replaced};

verus! {

/// The placeholder for the bucket name in a bucket policy template.
pub open spec fn bucket_placeholder() -> Seq<char> {
    "__BUCKET__"@
}

/// How a bucket serves requests.
#[derive(Debug, Clone)]
pub struct WebsiteConfiguration {
    /// Host name and protocol that every request is redirected to.
    pub redirect_all_requests_to: Option<(String, Option<String>)>,
    /// Suffix of the index document of folders.
    pub index_document: Option<String>,
    /// Key of the error document.
    pub error_document: Option<String>,
}

/// A bucket that hosts a website.
#[derive(Debug, Clone)]
pub struct BucketSettings {
    /// The region used for creating resources.
    region: Region,
    /// Name of the bucket.
    bucket: String,
    /// Index page for static web hosting.
    index_page: Option<String>,
    /// Error page for static web hosting.
    error_page: Option<String>,
    /// Host name to use when redirecting all requests.
    redirect_host_name: Option<String>,
    /// Protocol to use when redirecting all requests.
    redirect_protocol: Option<String>,
    /// Bucket policy.
    policy: Option<String>,
}

/// A bucket's settings as values.
pub struct BucketSettingsView {
    pub region: Region,
    pub bucket: Seq<char>,
    pub index_page: Option<Seq<char>>,
    pub error_page: Option<Seq<char>>,
    pub redirect_host_name: Option<Seq<char>>,
    pub redirect_protocol: Option<Seq<char>>,
    pub policy: Option<Seq<char>>,
}

impl View for BucketSettings {
    type V = BucketSettingsView;

    closed spec fn view(&self) -> BucketSettingsView {
        BucketSettingsView {
            region: self.region,
            bucket: self.bucket@,
            index_page: opt_view(self.index_page),
            error_page: opt_view(self.error_page),
            redirect_host_name: opt_view(self.redirect_host_name),
            redirect_protocol: opt_view(self.redirect_protocol),
            policy: opt_view(self.policy),
        }
    }
}

/// The website endpoint of a bucket: its name then the region's suffix.
pub open spec fn endpoint_of(bucket: Seq<char>, region: Region) -> Seq<char> {
    bucket.push('.') + region_facts(region).1
}

impl BucketSettings {
    /// Settings for a bucket; the policy is `policy_template` with every
    /// `__BUCKET__` replaced by the bucket name.
    pub fn new(
        region: Region,
        bucket: String,
        index: String,
        error: String,
        redirect_host_name: Option<String>,
        redirect_protocol: Option<String>,
        policy_template: &str,
    ) -> (r: Self)
        ensures
            r@.region == region,
            r@.bucket == bucket@,
            r@.index_page == Some(index@),
            r@.error_page == Some(error@),
            r@.redirect_host_name == opt_view(redirect_host_name),
            r@.redirect_protocol == opt_view(redirect_protocol),
            r@.policy == Some(replaced(policy_template@, bucket_placeholder(), bucket@)),
    {
        proof {
            reveal_strlit("__BUCKET__");
        }
        let policy = replace_all(policy_template, "__BUCKET__", bucket.as_str());
        Self {
            region,
            bucket,
            index_page: Some(index),
            error_page: Some(error),
            policy: Some(policy),
            redirect_host_name,
            redirect_protocol,
        }
    }

    /// The name of the bucket.
    pub fn bucket(&self) -> (r: &String)
        ensures
            r@ == self@.bucket,
    {
        &self.bucket
    }

    /// The policy of the bucket.
    pub fn policy(&self) -> (r: &Option<String>)
        ensures
            opt_view(*r) == self@.policy,
    {
        &self.policy
    }

    /// The endpoint of the website as a host name.
    pub fn endpoint(&self) -> (r: String)
        ensures
            r@ == endpoint_of(self@.bucket, self@.region),
    {
        let info = region_info(self.region);
        proof {
            reveal_strlit(".");
        }
        let with_dot = concat(self.bucket.as_str(), ".");
        proof {
            assert(with_dot@ =~= self@.bucket.push('.'));
        }
        concat(with_dot.as_str(), info.s3_endpoint_suffix.as_str())
    }

    /// The endpoint URL of the website.
    pub fn url(&self) -> (r: String)
        ensures
            r@ == "http://"@ + endpoint_of(self@.bucket, self@.region),
    {
        let endpoint = self.endpoint();
        concat("http://", endpoint.as_str())
    }

    /// How the bucket serves requests: a redirect of every request when a
    /// redirect host name is set, else the index and error documents.
    pub fn website_configuration(&self) -> (r: WebsiteConfiguration)
        ensures
            match self@.redirect_host_name {
                Some(h) => (r.redirect_all_requests_to matches Some((host, protocol)) && host@ == h
                    && opt_view(protocol) == self@.redirect_protocol) && r.index_document is None
                    && r.error_document is None,
                None => r.redirect_all_requests_to is None && opt_view(r.index_document)
                    == self@.index_page && opt_view(r.error_document) == self@.error_page,
            },
    {
        if let Some(host_name) = &self.redirect_host_name {
            WebsiteConfiguration {
                redirect_all_requests_to: Some((host_name.clone(), self.redirect_protocol.clone())),
                index_document: None,
                error_document: None,
            }
        } else {
            WebsiteConfiguration {
                redirect_all_requests_to: None,
                index_document: self.index_page.clone(),
                error_document: self.error_page.clone(),
            }
        }
    }
}

} // verus!
