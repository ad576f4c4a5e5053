//! Errors of the hosting logic.
use vstd::prelude::*;
use vstd::string::*;

use crate::text::{decimal, decimal_of};

verus! {

/// An error raised by the hosting logic itself; failures of the services it
/// talks to are reported by the caller that makes the service calls.
#[derive(Debug, Clone, PartialEq, Eq)]
pub enum Error {
    /// A viewer protocol policy name that is not known.
    UnknownViewerProtocolPolicy(String),
    /// A DNS record type name that is not known.
    UnknownDnsRecordType(String),
    /// A certificate validation status that is not known.
    UnknownValidationStatus(String),
    /// No cache policy has the given name.
    NoCachePolicy(String),
    /// A certificate request answered without a certificate ARN.
    NoCertificateArn,
    /// The DNS validation record did not appear within the timeout (seconds).
    DnsValidationTimeout(u64),
    /// The certificate status monitor exceeded its timeout (seconds).
    MonitorTimeout(u64),
    /// Validation failed for the certificate with this ARN.
    CertificateValidationFailed(String),
    /// The name servers of the domain are not ours yet.
    NameServerPropagation,
    /// A name that is not a valid host: the URL parser's message.
    InvalidHost(String),
}


/// The message that describes an error.
pub open spec fn message_of(e: Error) -> Seq<char> {
    match e {
        Error::UnknownViewerProtocolPolicy(s) => "Unknown viewer protocol policy "@ + s@,
        Error::UnknownDnsRecordType(s) => "Unknown record type "@ + s@,
        Error::UnknownValidationStatus(s) => "Unknown certificate validation status "@ + s@,
        Error::NoCachePolicy(s) => "Unable to find a cache policy matching the name "@ + s@,
        Error::NoCertificateArn => "Unable to get certificate ARN from response"@,
        Error::DnsValidationTimeout(t) => "Unable to get DNS record for certificate validation in timeout period of "@
            + decimal(t as nat) + " seconds"@,
        Error::MonitorTimeout(t) => "Certificate status monitor exceeded timeout period of "@ + decimal(
            t as nat,
        ) + " seconds"@,
        Error::CertificateValidationFailed(s) => "Certificate validation failed for "@ + s@,
        Error::NameServerPropagation => "Name servers have not propagated yet; ensure they have been set and try again later"@,
        Error::InvalidHost(m) => m@,
    }
}

impl Error {
    /// The message that describes this error.
    pub fn message(&self) -> (r: String)
        ensures
            r@ == message_of(*self),
    {
        match self {
            Error::UnknownViewerProtocolPolicy(s) => {
                let mut m = String::from_str("Unknown viewer protocol policy ");
                m.append(s.as_str());
                m
            },
            Error::UnknownDnsRecordType(s) => {
                let mut m = String::from_str("Unknown record type ");
                m.append(s.as_str());
                m
            },
            Error::UnknownValidationStatus(s) => {
                let mut m = String::from_str("Unknown certificate validation status ");
                m.append(s.as_str());
                m
            },
            Error::NoCachePolicy(s) => {
                let mut m = String::from_str("Unable to find a cache policy matching the name ");
                m.append(s.as_str());
                m
            },
            Error::NoCertificateArn => String::from_str("Unable to get certificate ARN from response"),
            Error::DnsValidationTimeout(t) => {
                let mut m = String::from_str(
                    "Unable to get DNS record for certificate validation in timeout period of ",
                );
                let d = decimal_of(*t);
                m.append(d.as_str());
                m.append(" seconds");
                m
            },
            Error::MonitorTimeout(t) => {
                let mut m = String::from_str("Certificate status monitor exceeded timeout period of ");
                let d = decimal_of(*t);
                m.append(d.as_str());
                m.append(" seconds");
                m
            },
            Error::CertificateValidationFailed(s) => {
                let mut m = String::from_str("Certificate validation failed for ");
                m.append(s.as_str());
                m
            },
            Error::NameServerPropagation => String::from_str(
                "Name servers have not propagated yet; ensure they have been set and try again later",
            ),
            Error::InvalidHost(m) => m.clone(),
        }
    }
}

} // verus!
