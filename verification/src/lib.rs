//! Verified core of a model catalog for a coding agent.

use vstd::prelude::*;

pub mod build_info;
pub mod cache;
pub mod catalog_laws;
pub mod device_auth;
pub mod exchange;
pub mod exchange_laws;
pub mod listing_laws;
pub mod login_laws;
pub mod lookup;
pub mod manager;
pub mod model;
pub mod models_dev;
pub mod order;
pub mod outside;
pub mod picker;
pub mod provider_catalog;
pub mod refresh;
pub mod refresh_laws;
pub mod reload_mcp_servers;
pub mod session;
pub mod test_support;
pub mod text;
pub mod text_laws;
pub mod tool_laws;
pub mod wire;

verus! {

} // verus!
