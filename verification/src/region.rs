//! The AWS regions where buckets are hosted, with their website
//! endpoints and hosted zones.
use vstd::prelude::*;
use vstd::string::*;

use crate::route53::opt_view;

verus! {

/// A region that can host a website bucket.
#[derive(Debug, Clone, Copy, PartialEq, Eq, Structural)]
pub enum Region {
    ApEast1,
    ApNortheast1,
    ApNortheast2,
    ApNortheast3,
    ApSouth1,
    ApSoutheast1,
    ApSoutheast2,
    CaCentral1,
    EuCentral1,
    EuWest1,
    EuWest2,
    EuWest3,
    EuNorth1,
    EuSouth1,
    MeSouth1,
    SaEast1,
    UsEast1,
    UsEast2,
    UsWest1,
    UsWest2,
    UsGovEast1,
    UsGovWest1,
    CnNorth1,
    CnNorthwest1,
    AfSouth1,
}

/// Facts about a region.
#[derive(Debug, Clone)]
pub struct RegionInfo {
    /// Human friendly name for the region.
    pub title: String,
    /// URL suffix for S3 website endpoints.
    pub s3_endpoint_suffix: String,
    /// Route 53 zone id of the website endpoints.
    pub zone_id: Option<String>,
}

/// The title, S3 website endpoint suffix and hosted zone id of a region.
pub open spec fn region_facts(r: Region) -> (Seq<char>, Seq<char>, Option<Seq<char>>) {
    match r {
        Region::ApEast1 => ("Asia Pacific (Hong Kong)"@, "s3-website.ap-east-1.amazonaws.com"@, Some("ZNB98KWMFR0R6"@)),
        Region::ApNortheast1 => ("Asia Pacific (Tokyo)"@, "s3-website-ap-northeast-1.amazonaws.com"@, Some("Z2M4EHUR26P7ZW"@)),
        Region::ApNortheast2 => ("Asia Pacific (Seoul)"@, "s3-website.ap-northeast-2.amazonaws.com"@, Some("Z3W03O7B5YMIYP"@)),
        Region::ApNortheast3 => ("Asia Pacific (Osaka-Local)"@, "s3-website.ap-northeast-3.amazonaws.com"@, Some("Z2YQB5RD63NC85"@)),
        Region::ApSouth1 => ("Asia Pacific (Mumbai)"@, "s3-website.ap-south-1.amazonaws.com"@, Some("Z11RGJOFQNVJUP"@)),
        Region::ApSoutheast1 => ("Asia Pacific (Singapore)"@, "s3-website-ap-southeast-1.amazonaws.com"@, Some("Z3O0J2DXBE1FTB"@)),
        Region::ApSoutheast2 => ("Asia Pacific (Sydney)"@, "s3-website-ap-southeast-2.amazonaws.com"@, Some("Z1WCIGYICN2BYD"@)),
        Region::CaCentral1 => ("Canada (Central)"@, "s3-website.ca-central-1.amazonaws.com"@, Some("Z1QDHH18159H29"@)),
        Region::EuCentral1 => ("Europe (Frankfurt)"@, "s3-website.eu-central-1.amazonaws.com"@, Some("Z21DNDUVLTQW6Q"@)),
        Region::EuWest1 => ("Europe (Ireland)"@, "s3-website-eu-west-1.amazonaws.com"@, Some("Z1BKCTXD74EZPE"@)),
        Region::EuWest2 => ("Europe (London)"@, "s3-website.eu-west-2.amazonaws.com"@, Some("Z3GKZC51ZF0DB4"@)),
        Region::EuWest3 => ("Europe (Paris)"@, "s3-website.eu-west-3.amazonaws.com"@, Some("Z3R1K369G5AVDG"@)),
        Region::EuNorth1 => ("Europe (Stockholm)"@, "s3-website.eu-north-1.amazonaws.com"@, Some("Z3BAZG2TWCNX0D"@)),
        Region::EuSouth1 => ("Europe (Milan)"@, "s3-website.eu-south-1.amazonaws.com"@, None),
        Region::MeSouth1 => ("Middle East(Bahrain)"@, "s3-website.me-south-1.amazonaws.com"@, None),
        Region::SaEast1 => ("South America (São Paulo)"@, "s3-website-sa-east-1.amazonaws.com"@, Some("Z7KQH4QJS55SO"@)),
        Region::UsEast1 => ("US East (N. Virginia)"@, "s3-website-us-east-1.amazonaws.com"@, Some("Z3AQBSTGFYJSTF"@)),
        Region::UsEast2 => ("US East (Ohio)"@, "s3-website.us-east-2.amazonaws.com"@, Some("Z2O1EMRO9K5GLX"@)),
        Region::UsWest1 => ("US West (N. California)"@, "s3-website-us-west-1.amazonaws.com"@, Some("Z2F56UZL2M1ACD"@)),
        Region::UsWest2 => ("US West (Oregon)"@, "s3-website-us-west-2.amazonaws.com"@, Some("Z3BJ6K6RIION7M"@)),
        Region::UsGovEast1 => ("AWS GovCloud (US-East)"@, "s3-website.us-gov-east-1.amazonaws.com"@, Some("Z2NIFVYYW2VKV1"@)),
        Region::UsGovWest1 => ("AWS GovCloud (US)"@, "s3-website-us-gov-west-1.amazonaws.com"@, Some("Z31GFT0UA1I2HV"@)),
        Region::CnNorth1 => ("China (Beijing)"@, "s3-website.cn-north-1.amazonaws.com.cn"@, None),
        Region::CnNorthwest1 => ("China (Ningxia)"@, "s3-website.cn-northwest-1.amazonaws.com.cn"@, None),
        Region::AfSouth1 => ("Africa (Cape Town)"@, "s3-website.af-south-1.amazonaws.com"@, Some("Z11KHD8FBVPUYU"@)),
    }
}

/// The facts about a region.
pub fn region_info(r: Region) -> (info: RegionInfo)
    ensures
        info.title@ == region_facts(r).0,
        info.s3_endpoint_suffix@ == region_facts(r).1,
        opt_view(info.zone_id) == region_facts(r).2,
{
    match r {
        Region::ApEast1 => RegionInfo {
            title: String::from_str("Asia Pacific (Hong Kong)"),
            s3_endpoint_suffix: String::from_str("s3-website.ap-east-1.amazonaws.com"),
            zone_id: Some(String::from_str("ZNB98KWMFR0R6")),
        },
        Region::ApNortheast1 => RegionInfo {
            title: String::from_str("Asia Pacific (Tokyo)"),
            s3_endpoint_suffix: String::from_str("s3-website-ap-northeast-1.amazonaws.com"),
            zone_id: Some(String::from_str("Z2M4EHUR26P7ZW")),
        },
        Region::ApNortheast2 => RegionInfo {
            title: String::from_str("Asia Pacific (Seoul)"),
            s3_endpoint_suffix: String::from_str("s3-website.ap-northeast-2.amazonaws.com"),
            zone_id: Some(String::from_str("Z3W03O7B5YMIYP")),
        },
        Region::ApNortheast3 => RegionInfo {
            title: String::from_str("Asia Pacific (Osaka-Local)"),
            s3_endpoint_suffix: String::from_str("s3-website.ap-northeast-3.amazonaws.com"),
            zone_id: Some(String::from_str("Z2YQB5RD63NC85")),
        },
        Region::ApSouth1 => RegionInfo {
            title: String::from_str("Asia Pacific (Mumbai)"),
            s3_endpoint_suffix: String::from_str("s3-website.ap-south-1.amazonaws.com"),
            zone_id: Some(String::from_str("Z11RGJOFQNVJUP")),
        },
        Region::ApSoutheast1 => RegionInfo {
            title: String::from_str("Asia Pacific (Singapore)"),
            s3_endpoint_suffix: String::from_str("s3-website-ap-southeast-1.amazonaws.com"),
            zone_id: Some(String::from_str("Z3O0J2DXBE1FTB")),
        },
        Region::ApSoutheast2 => RegionInfo {
            title: String::from_str("Asia Pacific (Sydney)"),
            s3_endpoint_suffix: String::from_str("s3-website-ap-southeast-2.amazonaws.com"),
            zone_id: Some(String::from_str("Z1WCIGYICN2BYD")),
        },
        Region::CaCentral1 => RegionInfo {
            title: String::from_str("Canada (Central)"),
            s3_endpoint_suffix: String::from_str("s3-website.ca-central-1.amazonaws.com"),
            zone_id: Some(String::from_str("Z1QDHH18159H29")),
        },
        Region::EuCentral1 => RegionInfo {
            title: String::from_str("Europe (Frankfurt)"),
            s3_endpoint_suffix: String::from_str("s3-website.eu-central-1.amazonaws.com"),
            zone_id: Some(String::from_str("Z21DNDUVLTQW6Q")),
        },
        Region::EuWest1 => RegionInfo {
            title: String::from_str("Europe (Ireland)"),
            s3_endpoint_suffix: String::from_str("s3-website-eu-west-1.amazonaws.com"),
            zone_id: Some(String::from_str("Z1BKCTXD74EZPE")),
        },
        Region::EuWest2 => RegionInfo {
            title: String::from_str("Europe (London)"),
            s3_endpoint_suffix: String::from_str("s3-website.eu-west-2.amazonaws.com"),
            zone_id: Some(String::from_str("Z3GKZC51ZF0DB4")),
        },
        Region::EuWest3 => RegionInfo {
            title: String::from_str("Europe (Paris)"),
            s3_endpoint_suffix: String::from_str("s3-website.eu-west-3.amazonaws.com"),
            zone_id: Some(String::from_str("Z3R1K369G5AVDG")),
        },
        Region::EuNorth1 => RegionInfo {
            title: String::from_str("Europe (Stockholm)"),
            s3_endpoint_suffix: String::from_str("s3-website.eu-north-1.amazonaws.com"),
            zone_id: Some(String::from_str("Z3BAZG2TWCNX0D")),
        },
        Region::EuSouth1 => RegionInfo {
            title: String::from_str("Europe (Milan)"),
            s3_endpoint_suffix: String::from_str("s3-website.eu-south-1.amazonaws.com"),
            zone_id: None,
        },
        Region::MeSouth1 => RegionInfo {
            title: String::from_str("Middle East(Bahrain)"),
            s3_endpoint_suffix: String::from_str("s3-website.me-south-1.amazonaws.com"),
            zone_id: None,
        },
        Region::SaEast1 => RegionInfo {
            title: String::from_str("South America (São Paulo)"),
            s3_endpoint_suffix: String::from_str("s3-website-sa-east-1.amazonaws.com"),
            zone_id: Some(String::from_str("Z7KQH4QJS55SO")),
        },
        Region::UsEast1 => RegionInfo {
            title: String::from_str("US East (N. Virginia)"),
            s3_endpoint_suffix: String::from_str("s3-website-us-east-1.amazonaws.com"),
            zone_id: Some(String::from_str("Z3AQBSTGFYJSTF")),
        },
        Region::UsEast2 => RegionInfo {
            title: String::from_str("US East (Ohio)"),
            s3_endpoint_suffix: String::from_str("s3-website.us-east-2.amazonaws.com"),
            zone_id: Some(String::from_str("Z2O1EMRO9K5GLX")),
        },
        Region::UsWest1 => RegionInfo {
            title: String::from_str("US West (N. California)"),
            s3_endpoint_suffix: String::from_str("s3-website-us-west-1.amazonaws.com"),
            zone_id: Some(String::from_str("Z2F56UZL2M1ACD")),
        },
        Region::UsWest2 => RegionInfo {
            title: String::from_str("US West (Oregon)"),
            s3_endpoint_suffix: String::from_str("s3-website-us-west-2.amazonaws.com"),
            zone_id: Some(String::from_str("Z3BJ6K6RIION7M")),
        },
        Region::UsGovEast1 => RegionInfo {
            title: String::from_str("AWS GovCloud (US-East)"),
            s3_endpoint_suffix: String::from_str("s3-website.us-gov-east-1.amazonaws.com"),
            zone_id: Some(String::from_str("Z2NIFVYYW2VKV1")),
        },
        Region::UsGovWest1 => RegionInfo {
            title: String::from_str("AWS GovCloud (US)"),
            s3_endpoint_suffix: String::from_str("s3-website-us-gov-west-1.amazonaws.com"),
            zone_id: Some(String::from_str("Z31GFT0UA1I2HV")),
        },
        Region::CnNorth1 => RegionInfo {
            title: String::from_str("China (Beijing)"),
            s3_endpoint_suffix: String::from_str("s3-website.cn-north-1.amazonaws.com.cn"),
            zone_id: None,
        },
        Region::CnNorthwest1 => RegionInfo {
            title: String::from_str("China (Ningxia)"),
            s3_endpoint_suffix: String::from_str("s3-website.cn-northwest-1.amazonaws.com.cn"),
            zone_id: None,
        },
        Region::AfSouth1 => RegionInfo {
            title: String::from_str("Africa (Cape Town)"),
            s3_endpoint_suffix: String::from_str("s3-website.af-south-1.amazonaws.com"),
            zone_id: Some(String::from_str("Z11KHD8FBVPUYU")),
        },
    }
}

} // verus!
