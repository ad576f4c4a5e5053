//! Verified core of a static site toolkit: text escaping, DNS and
//! CDN hosting settings, the hosting state machine, the build manifest
//! and the live reload invalidation rules.
use vstd::prelude::*;

pub mod text;
pub mod entity;
pub mod split;
pub mod path;
pub mod error;
pub mod name_servers;
pub mod route53;
pub mod acm;
pub mod search;
pub mod cloudfront;
pub mod region;
pub mod s3;
pub mod state_machine;
pub mod manifest;
pub mod invalidation;
pub mod buffer;
pub mod hook;
pub mod menu;
pub mod updater;
pub mod redirect;
pub mod options;
pub mod render;
pub mod ipc;
pub mod project;
pub mod collections;
pub mod jsonrpc;
pub mod ids;
pub mod json_path;

verus! {
} // verus!
