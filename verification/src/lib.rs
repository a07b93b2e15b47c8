//! Core logic of a guarded DNS record gateway: DNS name handling, record
//! validation, zone authority resolution, the delegated authorization
//! pipeline, credential caching, and response shaping. The surrounding
//! transport (HTTP, record store, upstream services) lives outside this
//! library and only hands plain values in and out.
pub mod auth;
pub mod authority;
pub mod cache;
pub mod dns_name;
pub mod health;
pub mod ipv4;
pub mod records;
pub mod responses;
pub mod shared_secret;
pub mod validation;
