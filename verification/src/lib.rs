//! The decision logic of a SCIM v2 provisioning server: request parsing,
//! provisioning and group rules, response bodies, credentials and rate limits.
//!
//! Everything here is pure. Where a request alternates database work with
//! decisions, the library offers a state machine: it names the next piece of
//! work, and is handed what came of it.

pub mod account;
pub mod credential_laws;
pub mod crypto;
pub mod discovery;
pub mod discovery_laws;
pub mod error;
pub mod filter;
pub mod fold;
pub mod group;
pub mod group_change;
pub mod group_laws;
pub mod group_members;
pub mod group_outcomes;
pub mod groups;
pub mod guard;
pub mod json;
pub mod listing;
pub mod listing_laws;
pub mod manage;
pub mod membership;
pub mod models;
pub mod patch;
pub mod patch_laws;
pub mod patch_meaning;
pub mod provisioning;
pub mod provisioning_laws;
pub mod provisioning_outcomes;
pub mod ratelimit;
pub mod representation_laws;
pub mod scim;
pub mod scim_api_key;
pub mod selection_laws;
pub mod test_support;
pub mod text;
pub mod text_laws;
pub mod users;
pub mod users_laws;
pub mod users_outcomes;
