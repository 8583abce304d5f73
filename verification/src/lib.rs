//! An edge middleware core that classifies requests as human or
//! automated and applies progressive enforcement: interactive proof,
//! a synthetic decoy maze, rate limits and short bans, all bound
//! together by signed single-use operation envelopes.

pub mod admin;
pub mod auth;
pub mod ban;
pub mod botness;
pub mod buckets;
pub mod challenge;
pub mod config;
pub mod crypto;
pub mod envelope;
pub mod fingerprint;
pub mod js;
pub mod json;
pub mod kv;
pub mod maze;
pub mod not_a_bot;
pub mod quiz;
pub mod rate;
pub mod request_validation;
pub mod router;
pub mod text;
pub mod trap;
