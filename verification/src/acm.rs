//! SSL certificates: the request settings, the status of a DNS validation
//! and the decisions taken while waiting for a certificate.
use vstd::prelude::*;
use vstd::string::*;

use crate::error::Error;
use crate::route53::{opt_view, parse_record_type, DnsRecord, RecordType};
use crate::split::views;
use crate::text::str_eq;

verus! {

/// The validation method that we use.
pub open spec fn dns_method() -> Seq<char> {
    "DNS"@
}

/// The status of a domain validation.
#[derive(Debug, Clone, Copy, PartialEq, Eq, Structural)]
pub enum CertificateValidationStatus {
    Success,
    Failed,
    PendingValidation,
}

/// The name of a validation status.
pub open spec fn validation_status_name(s: CertificateValidationStatus) -> Seq<char> {
    match s {
        CertificateValidationStatus::Success => "SUCCESS"@,
        CertificateValidationStatus::Failed => "FAILED"@,
        CertificateValidationStatus::PendingValidation => "PENDING_VALIDATION"@,
    }
}

/// The validation status with the given name, if any.
pub open spec fn parse_validation_status(s: Seq<char>) -> Option<CertificateValidationStatus> {
    if s == "SUCCESS"@ {
        Some(CertificateValidationStatus::Success)
    } else if s == "FAILED"@ {
        Some(CertificateValidationStatus::Failed)
    } else if s == "PENDING_VALIDATION"@ {
        Some(CertificateValidationStatus::PendingValidation)
    } else {
        None
    }
}

impl CertificateValidationStatus {
    /// Parse a validation status from its name.
    pub fn from_str(s: &str) -> (r: Result<CertificateValidationStatus, Error>)
        ensures
            parse_validation_status(s@) matches Some(v) ==> r == Ok::<
                CertificateValidationStatus,
                Error,
            >(v),
            parse_validation_status(s@) is None ==> (r matches Err(
                Error::UnknownValidationStatus(m),
            ) && m@ == s@),
    {
        if str_eq(s, "SUCCESS") {
            Ok(CertificateValidationStatus::Success)
        } else if str_eq(s, "FAILED") {
            Ok(CertificateValidationStatus::Failed)
        } else if str_eq(s, "PENDING_VALIDATION") {
            Ok(CertificateValidationStatus::PendingValidation)
        } else {
            Err(Error::UnknownValidationStatus(s.to_owned()))
        }
    }

    /// The name of this status.
    pub fn to_string(&self) -> (r: String)
        ensures
            r@ == validation_status_name(*self),
    {
        match self {
            CertificateValidationStatus::Success => String::from_str("SUCCESS"),
            CertificateValidationStatus::Failed => String::from_str("FAILED"),
            CertificateValidationStatus::PendingValidation => String::from_str(
                "PENDING_VALIDATION",
            ),
        }
    }
}

/// Parsing the name of a status gives the status back.
pub proof fn lemma_validation_status_round_trip(s: CertificateValidationStatus)
    ensures
        parse_validation_status(validation_status_name(s)) == Some(s),
{
    reveal_strlit("SUCCESS");
    reveal_strlit("FAILED");
    reveal_strlit("PENDING_VALIDATION");
    assert("SUCCESS"@.len() == 7);
    assert("FAILED"@.len() == 6);
    assert("PENDING_VALIDATION"@.len() == 18);
}

/// The settings used to request a certificate.
#[derive(Debug, Clone)]
pub struct CertSettings {
    validation_method: Option<String>,
    idempotency_token: Option<String>,
}

/// A certificate request as ACM takes it.
#[derive(Debug, Clone)]
pub struct CertificateRequest {
    pub domain_name: String,
    pub subject_alternative_names: Option<Vec<String>>,
    pub validation_method: Option<String>,
    pub idempotency_token: Option<String>,
}

impl CertSettings {
    /// Settings that validate by DNS and send no idempotency token.
    pub fn new() -> (r: Self)
        ensures
            r.validation_method_view() == Some(dns_method()),
            r.idempotency_token_view() is None,
    {
        Self { validation_method: Some(String::from_str("DNS")), idempotency_token: None }
    }

    pub closed spec fn validation_method_view(&self) -> Option<Seq<char>> {
        opt_view(self.validation_method)
    }

    pub closed spec fn idempotency_token_view(&self) -> Option<Seq<char>> {
        opt_view(self.idempotency_token)
    }

    /// The request for a certificate of `domain_name` with these settings.
    pub fn request(
        &self,
        domain_name: String,
        subject_alternative_names: Option<Vec<String>>,
    ) -> (r: CertificateRequest)
        ensures
            r.domain_name == domain_name,
            r.subject_alternative_names == subject_alternative_names,
            opt_view(r.validation_method) == self.validation_method_view(),
            opt_view(r.idempotency_token) == self.idempotency_token_view(),
    {
        CertificateRequest {
            domain_name,
            subject_alternative_names,
            validation_method: self.validation_method.clone(),
            idempotency_token: self.idempotency_token.clone(),
        }
    }
}

/// A DNS record that proves control of a domain.
#[derive(Debug, Clone)]
pub struct ValidationRecord {
    pub type_: String,
    pub name: String,
    pub value: String,
}

/// The validation of one domain of a certificate, as described by ACM.
#[derive(Debug, Clone)]
pub struct DomainValidation {
    pub validation_method: Option<String>,
    pub validation_status: Option<String>,
    pub resource_record: Option<ValidationRecord>,
}

/// Whether a validation uses the DNS method.
pub open spec fn is_dns_validation(v: DomainValidation) -> bool {
    opt_view(v.validation_method) == Some(dns_method())
}

/// The index of the first validation that uses the DNS method.
pub open spec fn first_dns_validation(vs: Seq<DomainValidation>) -> Option<int>
    decreases vs.len(),
{
    if vs.len() == 0 {
        None
    } else {
        match first_dns_validation(vs.drop_last()) {
            Some(i) => Some(i),
            None => if is_dns_validation(vs.last()) {
                Some(vs.len() - 1)
            } else {
                None
            },
        }
    }
}

/// Find the first validation that uses the DNS method.
pub fn find_dns_validation(vs: &Vec<DomainValidation>) -> (r: Option<usize>)
    ensures
        match first_dns_validation(vs@) {
            Some(i) => r == Some(i as usize),
            None => r is None,
        },
        r matches Some(i) ==> i < vs@.len() && is_dns_validation(vs@[i as int])
            && first_dns_validation(vs@) == Some(i as int),
        first_dns_validation(vs@) matches Some(j) ==> 0 <= j < vs@.len(),
{
    proof {
        lemma_first_dns_bounds(vs@);
    }
    let mut i: usize = 0;
    proof {
        reveal_strlit("DNS");
    }
    while i < vs.len()
        invariant
            i <= vs@.len(),
            first_dns_validation(vs@.take(i as int)) is None,
        decreases vs@.len() - i,
    {
        proof {
            assert(vs@.take(i + 1).drop_last() =~= vs@.take(i as int));
        }
        let is_dns = match &vs[i].validation_method {
            Some(m) => str_eq(m.as_str(), "DNS"),
            None => false,
        };
        if is_dns {
            proof {
                lemma_first_dns_prefix(vs@, i as int);
            }
            return Some(i);
        }
        i = i + 1;
    }
    proof {
        assert(vs@.take(vs@.len() as int) =~= vs@);
    }
    None
}

/// The first DNS validation is a DNS validation within the sequence.
pub proof fn lemma_first_dns_bounds(vs: Seq<DomainValidation>)
    ensures
        first_dns_validation(vs) matches Some(j) ==> 0 <= j < vs.len() && is_dns_validation(
            vs[j],
        ),
    decreases vs.len(),
{
    if vs.len() > 0 {
        lemma_first_dns_bounds(vs.drop_last());
        if let Some(j) = first_dns_validation(vs.drop_last()) {
            assert(vs.drop_last()[j] == vs[j]);
        }
    }
}

/// When no validation before `i` uses DNS and validation `i` does, the
/// first one is `i`.
pub proof fn lemma_first_dns_prefix(vs: Seq<DomainValidation>, i: int)
    requires
        0 <= i < vs.len(),
        first_dns_validation(vs.take(i)) is None,
        is_dns_validation(vs[i]),
    ensures
        first_dns_validation(vs) == Some(i),
    decreases vs.len(),
{
    if vs.len() > i + 1 {
        let init = vs.drop_last();
        assert(init.take(i) =~= vs.take(i));
        assert(init[i] == vs[i]);
        lemma_first_dns_prefix(init, i);
    } else {
        assert(vs.drop_last() =~= vs.take(i));
        assert(vs.last() == vs[i]);
    }
}

/// Whether an elapsed time of `secs` seconds and `nanos` nanoseconds is
/// longer than `timeout` seconds.
pub open spec fn exceeded(secs: u64, nanos: u32, timeout: u64) -> bool {
    secs > timeout || (secs == timeout && nanos > 0)
}

/// What to do next while monitoring the status of a certificate.
#[derive(Debug, Clone, Copy, PartialEq, Eq, Structural)]
pub enum MonitorStep {
    /// The certificate is validated.
    Done,
    /// Ask again after a pause.
    Wait,
}

/// Decide one round of monitoring a certificate: time out when the elapsed
/// time exceeds the timeout, else look at the status of the first DNS
/// validation of the description (`None` when the description has no
/// certificate or no validations).
pub fn monitor_step(
    elapsed_secs: u64,
    elapsed_nanos: u32,
    timeout: u64,
    arn: &str,
    validations: &Option<Vec<DomainValidation>>,
) -> (r: Result<MonitorStep, Error>)
    ensures
        exceeded(elapsed_secs, elapsed_nanos, timeout) ==> r == Err::<MonitorStep, Error>(
            Error::MonitorTimeout(timeout),
        ),
        !exceeded(elapsed_secs, elapsed_nanos, timeout) ==> match validations {
            None => r == Ok::<MonitorStep, Error>(MonitorStep::Wait),
            Some(vs) => match first_dns_validation(vs@) {
                None => r == Ok::<MonitorStep, Error>(MonitorStep::Wait),
                Some(i) => match vs@[i].validation_status {
                    None => r == Ok::<MonitorStep, Error>(MonitorStep::Wait),
                    Some(status) => match parse_validation_status(status@) {
                        Some(CertificateValidationStatus::Success) => r == Ok::<
                            MonitorStep,
                            Error,
                        >(MonitorStep::Done),
                        Some(CertificateValidationStatus::PendingValidation) => r == Ok::<
                            MonitorStep,
                            Error,
                        >(MonitorStep::Wait),
                        Some(CertificateValidationStatus::Failed) => (r matches Err(
                            Error::CertificateValidationFailed(a),
                        ) && a@ == arn@),
                        None => (r matches Err(Error::UnknownValidationStatus(m)) && m@
                            == status@),
                    },
                },
            },
        },
{
    if elapsed_secs > timeout || (elapsed_secs == timeout && elapsed_nanos > 0) {
        return Err(Error::MonitorTimeout(timeout));
    }
    if let Some(vs) = validations {
        if let Some(i) = find_dns_validation(vs) {
            if let Some(status) = &vs[i].validation_status {
                let validation_status = match CertificateValidationStatus::from_str(status.as_str()) {
                    Ok(v) => v,
                    Err(e) => {
                        return Err(e);
                    },
                };
                match validation_status {
                    CertificateValidationStatus::Success => {
                        return Ok(MonitorStep::Done);
                    },
                    CertificateValidationStatus::Failed => {
                        return Err(Error::CertificateValidationFailed(arn.to_owned()));
                    },
                    CertificateValidationStatus::PendingValidation => {},
                }
            }
        }
    }
    Ok(MonitorStep::Wait)
}

/// What to do next while waiting for the DNS validation record.
#[derive(Debug, Clone)]
pub enum ValidationStep {
    /// Create this record, then the wait is over.
    Create(DnsRecord),
    /// Ask again after a pause.
    Wait,
}

/// Decide one round of waiting for the DNS validation record of a new
/// certificate: time out when the elapsed time exceeds the timeout, else
/// create the resource record of the first DNS validation once it has one.
pub fn dns_validation_step(
    elapsed_secs: u64,
    elapsed_nanos: u32,
    timeout: u64,
    validations: &Option<Vec<DomainValidation>>,
) -> (r: Result<ValidationStep, Error>)
    ensures
        exceeded(elapsed_secs, elapsed_nanos, timeout) ==> r == Err::<ValidationStep, Error>(
            Error::DnsValidationTimeout(timeout),
        ),
        !exceeded(elapsed_secs, elapsed_nanos, timeout) ==> match validations {
            None => r matches Ok(ValidationStep::Wait),
            Some(vs) => match first_dns_validation(vs@) {
                None => r matches Ok(ValidationStep::Wait),
                Some(i) => match vs@[i].resource_record {
                    None => r matches Ok(ValidationStep::Wait),
                    Some(rr) => match parse_record_type(rr.type_@) {
                        Some(kind) => (r matches Ok(ValidationStep::Create(record)) && record@.name
                            == rr.name@ && record@.value == rr.value@ && record@.kind == kind
                            && record@.alias is None && record@.ttl is None),
                        None => (r matches Err(Error::UnknownDnsRecordType(m)) && m@
                            == rr.type_@),
                    },
                },
            },
        },
{
    if elapsed_secs > timeout || (elapsed_secs == timeout && elapsed_nanos > 0) {
        return Err(Error::DnsValidationTimeout(timeout));
    }
    if let Some(vs) = validations {
        if let Some(i) = find_dns_validation(vs) {
            if let Some(resource_record) = &vs[i].resource_record {
                let kind = match RecordType::from_str(resource_record.type_.as_str()) {
                    Ok(k) => k,
                    Err(e) => {
                        return Err(e);
                    },
                };
                let record = DnsRecord {
                    name: resource_record.name.clone(),
                    value: resource_record.value.clone(),
                    kind,
                    alias: None,
                    ttl: None,
                };
                return Ok(ValidationStep::Create(record));
            }
        }
    }
    Ok(ValidationStep::Wait)
}

} // verus!
