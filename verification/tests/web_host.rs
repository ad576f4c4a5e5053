use uwe::acm::{
    dns_validation_step, find_dns_validation, monitor_step, CertSettings,
    CertificateValidationStatus, DomainValidation, MonitorStep, ValidationRecord, ValidationStep,
};
use uwe::cloudfront::{
    find_cache_policy_id, CachePolicySummary, DistributionSettings, DistributionSummary,
    ViewerProtocolPolicy,
};
use uwe::error::Error;
use uwe::name_servers::{list, qualified, NameServerResult};
use uwe::region::{region_info, Region};
use uwe::route53::{
    trim_hosted_zone_id, ChangeAction, DnsRecord, DnsSettings, HostedZone, RecordType,
    ZoneSettings,
};
use uwe::s3::BucketSettings;
use uwe::state_machine::{
    apply, bucket_settings, cdn_dns_records, cdn_settings, domain_states_list, next_state,
    redirect_bucket_settings, redirect_cname_records, website_states_list, State, StateMachine,
    WebHostRequest, WebHostResponse,
};

#[test]
fn hosted_zone_prefix_is_trimmed() {
    assert_eq!(trim_hosted_zone_id("/hostedzone/Z123"), "Z123");
    assert_eq!(trim_hosted_zone_id("Z123"), "Z123");
    assert_eq!(trim_hosted_zone_id("/hostedzone//hostedzone/Z9"), "Z9");
}

#[test]
fn name_servers_are_listed_in_order() {
    assert_eq!(list(), vec!["ns1.uwe.app.", "ns2.uwe.app.", "ns3.uwe.app.", "ns4.uwe.app."]);
}

#[test]
fn qualified_names_end_with_a_dot() {
    assert_eq!(qualified("example.com"), "example.com.");
    assert_eq!(qualified("example.com."), "example.com.");
    assert_eq!(qualified(&qualified("a.b")), qualified("a.b"));
}

#[test]
fn propagation_needs_every_name_server_from_every_resolver() {
    let mut result = NameServerResult::new();
    assert!(result.is_propagated());
    let all: Vec<Option<String>> = list().iter().map(|s| Some(s.to_string())).collect();
    result.add_response(all.clone());
    assert!(result.is_propagated());
    let mut partial = all.clone();
    partial[2] = None;
    result.add_response(partial);
    assert!(!result.is_propagated());
}

#[test]
fn propagation_needs_our_name_servers_in_order() {
    let mut result = NameServerResult::new();
    let evil: Vec<Option<String>> = (0..4).map(|_| Some("evil.example.".to_string())).collect();
    result.add_response(evil);
    assert!(!result.is_propagated());

    let mut swapped = NameServerResult::new();
    let mut names: Vec<Option<String>> = list().iter().map(|s| Some(s.to_string())).collect();
    names.swap(0, 1);
    swapped.add_response(names);
    assert!(!swapped.is_propagated());

    let mut longer = NameServerResult::new();
    let mut extra: Vec<Option<String>> = list().iter().map(|s| Some(s.to_string())).collect();
    extra.push(None);
    longer.add_response(extra);
    assert!(longer.is_propagated());

    let mut short = NameServerResult::new();
    let three: Vec<Option<String>> = list().iter().take(3).map(|s| Some(s.to_string())).collect();
    short.add_response(three);
    assert!(!short.is_propagated());
}

#[test]
fn record_types_parse_and_print() {
    assert_eq!(RecordType::from_str("CNAME"), Ok(RecordType::CNAME));
    assert_eq!(RecordType::TXT.to_string(), "TXT");
    assert_eq!(RecordType::from_str(&RecordType::AAAA.to_string()), Ok(RecordType::AAAA));
    assert_eq!(
        RecordType::from_str("cname"),
        Err(Error::UnknownDnsRecordType("cname".to_string()))
    );
}

#[test]
fn change_actions_have_route53_names() {
    assert_eq!(ChangeAction::Create.to_string(), "CREATE");
    assert_eq!(ChangeAction::Delete.to_string(), "DELETE");
    assert_eq!(ChangeAction::Upsert.to_string(), "UPSERT");
}

#[test]
fn cloudfront_alias_records_point_at_the_cloudfront_zone() {
    let r = DnsRecord::new_cloudfront_alias("example.com".to_string(), "d1.cloudfront.net".to_string(), RecordType::A);
    assert_eq!(r.alias, Some("Z2FDTNDATAQYW2".to_string()));
    assert_eq!(r.ttl, Some(300));
    let set = r.into_record_set();
    assert_eq!(set.name, "example.com");
    assert_eq!(set.type_, "A");
    let target = set.alias_target.unwrap();
    assert_eq!(target.hosted_zone_id, "Z2FDTNDATAQYW2");
    assert_eq!(target.dns_name, "d1.cloudfront.net");
    assert!(set.resource_records.is_none());
}

#[test]
fn txt_records_are_quoted_and_split_by_line() {
    let r = DnsRecord { name: "example.com".to_string(), value: "v=spf1".to_string(), kind: RecordType::TXT, alias: None, ttl: Some(60) };
    let set = r.into_record_set();
    assert_eq!(set.resource_records, Some(vec!["\"v=spf1\"".to_string()]));
    let r = DnsRecord { name: "example.com".to_string(), value: "a\nb".to_string(), kind: RecordType::NS, alias: None, ttl: None };
    let set = r.into_record_set();
    assert_eq!(set.resource_records, Some(vec!["a".to_string(), "b".to_string()]));
    assert_eq!(set.ttl, None);
}

#[test]
fn change_sets_keep_the_record_order() {
    let dns = DnsSettings::new("Z1".to_string());
    let records = vec![
        DnsRecord { name: "a.com".to_string(), value: "1.2.3.4".to_string(), kind: RecordType::A, alias: None, ttl: Some(300) },
        DnsRecord { name: "b.com".to_string(), value: "a.com".to_string(), kind: RecordType::CNAME, alias: None, ttl: Some(300) },
    ];
    let set = dns.change_set(ChangeAction::Upsert, records);
    assert_eq!(set.hosted_zone_id, "Z1");
    assert_eq!(set.changes.len(), 2);
    assert_eq!(set.changes[0].action, "UPSERT");
    assert_eq!(set.changes[0].resource_record_set.name, "a.com");
    assert_eq!(set.changes[1].resource_record_set.type_, "CNAME");
}

#[test]
fn zones_are_found_by_qualified_name() {
    let zones = vec![
        HostedZone { id: "/hostedzone/Z1".to_string(), name: "a.com.".to_string() },
        HostedZone { id: "/hostedzone/Z2".to_string(), name: "b.com.".to_string() },
    ];
    let settings = ZoneSettings::new();
    assert_eq!(settings.find_zone(&zones, "b.com."), Some(1));
    assert_eq!(settings.find_zone(&zones, "c.com."), None);
    let records = settings.name_server_records("b.com");
    assert_eq!(records.len(), 2);
    assert_eq!(records[0].kind, RecordType::SOA);
    assert_eq!(records[1].kind, RecordType::NS);
}

#[test]
fn validation_statuses_parse() {
    assert_eq!(CertificateValidationStatus::from_str("SUCCESS"), Ok(CertificateValidationStatus::Success));
    assert_eq!(CertificateValidationStatus::from_str("PENDING_VALIDATION"), Ok(CertificateValidationStatus::PendingValidation));
    assert_eq!(CertificateValidationStatus::Failed.to_string(), "FAILED");
    assert_eq!(
        CertificateValidationStatus::from_str("DONE"),
        Err(Error::UnknownValidationStatus("DONE".to_string()))
    );
}

#[test]
fn certificate_requests_validate_by_dns() {
    let req = CertSettings::new().request("example.com".to_string(), None);
    assert_eq!(req.domain_name, "example.com");
    assert_eq!(req.validation_method, Some("DNS".to_string()));
    assert_eq!(req.idempotency_token, None);
}

fn validation(method: &str, status: Option<&str>, record: Option<(&str, &str, &str)>) -> DomainValidation {
    DomainValidation {
        validation_method: Some(method.to_string()),
        validation_status: status.map(|s| s.to_string()),
        resource_record: record.map(|(t, n, v)| ValidationRecord { type_: t.to_string(), name: n.to_string(), value: v.to_string() }),
    }
}

#[test]
fn the_first_dns_validation_is_found() {
    let vs = vec![validation("EMAIL", None, None), validation("DNS", None, None), validation("DNS", None, None)];
    assert_eq!(find_dns_validation(&vs), Some(1));
    assert_eq!(find_dns_validation(&vec![validation("EMAIL", None, None)]), None);
}

#[test]
fn monitoring_follows_the_validation_status() {
    let ok = Some(vec![validation("DNS", Some("SUCCESS"), None)]);
    assert!(matches!(monitor_step(1, 0, 300, "arn", &ok), Ok(MonitorStep::Done)));
    let pending = Some(vec![validation("DNS", Some("PENDING_VALIDATION"), None)]);
    assert!(matches!(monitor_step(1, 0, 300, "arn", &pending), Ok(MonitorStep::Wait)));
    let failed = Some(vec![validation("DNS", Some("FAILED"), None)]);
    assert_eq!(monitor_step(1, 0, 300, "arn:1", &failed), Err(Error::CertificateValidationFailed("arn:1".to_string())));
    let odd = Some(vec![validation("DNS", Some("REVOKED"), None)]);
    assert_eq!(monitor_step(1, 0, 300, "arn", &odd), Err(Error::UnknownValidationStatus("REVOKED".to_string())));
    assert_eq!(monitor_step(300, 1, 300, "arn", &ok), Err(Error::MonitorTimeout(300)));
    assert!(matches!(monitor_step(300, 0, 300, "arn", &None), Ok(MonitorStep::Wait)));
}

#[test]
fn dns_validation_creates_the_record_once_it_is_known() {
    let waiting = Some(vec![validation("DNS", None, None)]);
    assert!(matches!(dns_validation_step(0, 0, 60, &waiting), Ok(ValidationStep::Wait)));
    let ready = Some(vec![validation("DNS", None, Some(("CNAME", "_x.example.com.", "_y.acm.aws.")))]);
    match dns_validation_step(0, 0, 60, &ready) {
        Ok(ValidationStep::Create(r)) => {
            assert_eq!(r.name, "_x.example.com.");
            assert_eq!(r.value, "_y.acm.aws.");
            assert_eq!(r.kind, RecordType::CNAME);
            assert_eq!(r.alias, None);
        }
        _ => panic!("expected a record to create"),
    }
    let bad = Some(vec![validation("DNS", None, Some(("BOGUS", "n", "v")))]);
    assert_eq!(dns_validation_step(0, 0, 60, &bad).err(), Some(Error::UnknownDnsRecordType("BOGUS".to_string())));
    assert_eq!(dns_validation_step(61, 0, 60, &ready).err(), Some(Error::DnsValidationTimeout(60)));
}

#[test]
fn viewer_protocol_policies_parse_and_print() {
    assert_eq!(ViewerProtocolPolicy::from_str("redirect-to-https"), Ok(ViewerProtocolPolicy::RedirectToHttps));
    assert_eq!(ViewerProtocolPolicy::AllowAll.to_string(), "allow-all");
    assert_eq!(ViewerProtocolPolicy::HttpsOnly.to_string(), "https-only");
    assert_eq!(
        ViewerProtocolPolicy::from_str("http"),
        Err(Error::UnknownViewerProtocolPolicy("http".to_string()))
    );
}

#[test]
fn distributions_take_the_origin_domain() {
    let s = DistributionSettings::try_new("http://bucket.s3-website-us-east-1.amazonaws.com".to_string(), vec!["example.com".to_string()], None).unwrap();
    assert_eq!(s.domain_name(), "bucket.s3-website-us-east-1.amazonaws.com");
    assert!(DistributionSettings::try_new("not a url".to_string(), vec![], None).is_none());
    let aliases = s.into_aliases().unwrap();
    assert_eq!(aliases.quantity, 1);
    assert_eq!(aliases.items, vec!["example.com".to_string()]);
    let config = s.into_distribution_config("policy-1".to_string());
    assert_eq!(config.origins.items[0].domain_name, "bucket.s3-website-us-east-1.amazonaws.com");
    assert_eq!(config.origins.items[0].id, "bucket.s3-website-us-east-1.amazonaws.com");
    assert_eq!(config.caller_reference, "bucket.s3-website-us-east-1.amazonaws.com");
    assert_eq!(config.default_cache_behavior.cache_policy_id, Some("policy-1".to_string()));
    assert_eq!(config.default_cache_behavior.viewer_protocol_policy, "allow-all");
    assert!(config.enabled);
}

#[test]
fn distribution_setters_change_one_setting() {
    let mut s = DistributionSettings::try_new("http://b.example.com/".to_string(), vec![], Some("origin-1".to_string())).unwrap();
    s.set_enabled(false);
    s.set_compress(false);
    s.set_viewer_protocol_policy(ViewerProtocolPolicy::HttpsOnly);
    s.set_comment("site".to_string());
    s.set_acm_certificate_arn(Some("arn:cert".to_string()));
    s.set_origin_path(Some("/www".to_string()));
    assert!(s.into_aliases().is_none());
    let config = s.into_distribution_config("p".to_string());
    assert!(!config.enabled);
    assert_eq!(config.default_cache_behavior.compress, Some(false));
    assert_eq!(config.default_cache_behavior.viewer_protocol_policy, "https-only");
    assert_eq!(config.comment, "site");
    assert_eq!(config.origins.items[0].id, "origin-1");
    assert_eq!(config.origins.items[0].origin_path, Some("/www".to_string()));
    let cert = config.viewer_certificate.unwrap();
    assert_eq!(cert.acm_certificate_arn, Some("arn:cert".to_string()));
    assert_eq!(cert.ssl_support_method, Some("sni-only".to_string()));
}

#[test]
fn existing_distributions_and_policies_are_found() {
    let s = DistributionSettings::try_new("http://b.example.com".to_string(), vec![], None).unwrap();
    let ds = vec![
        DistributionSummary { id: "D1".to_string(), origin_domains: vec!["a.example.com".to_string()] },
        DistributionSummary { id: "D2".to_string(), origin_domains: vec!["b.example.com".to_string()] },
    ];
    assert_eq!(s.find_existing(&ds), Some("D2".to_string()));
    assert_eq!(s.find_existing(&vec![]), None);
    let policies = vec![
        CachePolicySummary { id: "P1".to_string(), name: "Managed-CachingDisabled".to_string() },
        CachePolicySummary { id: "P2".to_string(), name: "Managed-CachingOptimized".to_string() },
    ];
    assert_eq!(find_cache_policy_id(&policies, "Managed-CachingOptimized"), Some("P2".to_string()));
    assert_eq!(find_cache_policy_id(&policies, "Other"), None);
}

#[test]
fn regions_know_their_website_endpoints() {
    let info = region_info(Region::UsEast1);
    assert_eq!(info.title, "US East (N. Virginia)");
    assert_eq!(info.s3_endpoint_suffix, "s3-website-us-east-1.amazonaws.com");
    assert_eq!(info.zone_id, Some("Z3AQBSTGFYJSTF".to_string()));
    assert_eq!(region_info(Region::CnNorth1).zone_id, None);
}

#[test]
fn bucket_settings_fill_the_policy_and_endpoint() {
    let b = BucketSettings::new(
        Region::EuWest2,
        "site".to_string(),
        "index.html".to_string(),
        "404.html".to_string(),
        None,
        None,
        "{\"Resource\": \"arn:aws:s3:::__BUCKET__/*\"}",
    );
    assert_eq!(b.bucket(), "site");
    assert_eq!(b.policy(), &Some("{\"Resource\": \"arn:aws:s3:::site/*\"}".to_string()));
    assert_eq!(b.endpoint(), "site.s3-website.eu-west-2.amazonaws.com");
    assert_eq!(b.url(), "http://site.s3-website.eu-west-2.amazonaws.com");
    let w = b.website_configuration();
    assert_eq!(w.index_document, Some("index.html".to_string()));
    assert_eq!(w.error_document, Some("404.html".to_string()));
    assert!(w.redirect_all_requests_to.is_none());
}

fn request() -> WebHostRequest {
    let mut r = WebHostRequest::new_domain("example.com".to_string());
    r.bucket_name = "example-site".to_string();
    r
}

#[test]
fn web_host_requests_have_defaults() {
    let r = WebHostRequest::default();
    assert_eq!(r.region, Region::UsEast1);
    assert_eq!(r.index_suffix, "index.html");
    assert_eq!(r.error_key, "404.html");
    assert!(r.monitor_certificate);
    assert_eq!(r.monitor_certificate_timeout, 300);
    let mut r = WebHostRequest::new_domain("x.org".to_string());
    assert_eq!(r.domain_name, "x.org");
    r.set_credentials("work".to_string());
    assert_eq!(r.credentials, "work");
}

#[test]
fn the_state_machine_runs_the_website_states_in_order() {
    let states = website_states_list();
    assert_eq!(states.len(), 8);
    let mut machine = StateMachine::new(&states);
    assert_eq!(machine.next(), Some(State::NameServer));
    let req = request();
    let res = WebHostResponse::default();
    let mut visited = Vec::new();
    while let Some(state) = machine.next() {
        visited.push(state);
        let next = next_state(state, &req, &res, true).unwrap();
        apply(&mut machine, next);
    }
    assert_eq!(visited, vec![State::NameServer, State::HostedZone, State::Certificate, State::Bucket, State::Cdn, State::CdnDns]);
}

#[test]
fn unpropagated_name_servers_stop_the_run() {
    let req = request();
    let res = WebHostResponse::default();
    assert_eq!(next_state(State::NameServer, &req, &res, false), Err(Error::NameServerPropagation));
    let domain = domain_states_list();
    assert_eq!(domain, vec![State::NameServer]);
    let mut machine = StateMachine::new(&domain);
    let next = next_state(State::NameServer, &req, &res, true).unwrap();
    apply(&mut machine, next);
    assert_eq!(machine.next(), None);
}

#[test]
fn redirect_buckets_add_states() {
    let mut req = request();
    req.redirect_bucket_name = Some("www-example-site".to_string());
    let mut res = WebHostResponse::default();
    assert_eq!(next_state(State::Bucket, &req, &res, true), Ok(Some(State::RedirectBucket)));
    assert_eq!(next_state(State::CdnDns, &req, &res, true), Ok(None));
    res.redirect_bucket_endpoint = Some("www-example-site.s3-website-us-east-1.amazonaws.com".to_string());
    assert_eq!(next_state(State::CdnDns, &req, &res, true), Ok(Some(State::RedirectCname)));
    assert_eq!(next_state(State::RedirectCname, &req, &res, true), Ok(None));
    let b = redirect_bucket_settings(&req, "__BUCKET__");
    assert_eq!(b.bucket(), "www-example-site");
    let w = b.website_configuration();
    let (host, protocol) = w.redirect_all_requests_to.unwrap();
    assert_eq!(host, "example.com");
    assert_eq!(protocol, None);
    let records = redirect_cname_records(&req, &res);
    assert_eq!(records.len(), 1);
    assert_eq!(records[0].name, "www.example.com");
    assert_eq!(records[0].kind, RecordType::CNAME);
}

#[test]
fn the_cdn_fronts_the_bucket() {
    let req = request();
    let mut res = WebHostResponse::default();
    res.bucket_endpoint = "example-site.s3-website-us-east-1.amazonaws.com".to_string();
    res.certificate_arn = "arn:c".to_string();
    res.cdn_domain_name = "d2.cloudfront.net".to_string();
    let b = bucket_settings(&req, "__BUCKET__");
    assert_eq!(b.policy(), &Some("example-site".to_string()));
    let cdn = cdn_settings(&req, &res, "example.com".to_string()).unwrap();
    assert_eq!(cdn.domain_name(), "example-site.s3-website-us-east-1.amazonaws.com");
    let config = cdn.into_distribution_config("p".to_string());
    assert_eq!(config.origins.items[0].id, "example-com");
    assert_eq!(config.default_cache_behavior.viewer_protocol_policy, "redirect-to-https");
    let records = cdn_dns_records(&req, &res);
    assert_eq!(records[0].kind, RecordType::A);
    assert_eq!(records[1].kind, RecordType::AAAA);
    assert_eq!(records[0].value, "d2.cloudfront.net");
}

#[test]
fn host_names_take_their_ascii_form() {
    assert_eq!(uwe::route53::to_idna_punycode("bücher.example"), Ok("xn--bcher-kva.example".to_string()));
    assert_eq!(uwe::route53::to_idna_punycode("Example.COM"), Ok("example.com".to_string()));
    assert_eq!(uwe::route53::to_idna_punycode("127.0.0.1"), Ok("127.0.0.1".to_string()));
    assert!(matches!(
        uwe::route53::to_idna_punycode("exa mple.com"),
        Err(uwe::error::Error::InvalidHost(m)) if !m.is_empty()
    ));
}
