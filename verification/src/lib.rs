//! A small background daemon's verified core: configuration resolution with
//! strict file parsing, the maintenance worker's insert/evict decision policy
//! together with a model of the maintained table, the derivation of row
//! payloads from random seeds, and the route table of the read-only views.

pub mod config;
pub mod digest;
pub mod endpoints;
pub mod http_metrics;
pub(crate) mod text;
pub mod worker;

use vstd::prelude::*;

verus! {

} // verus!
