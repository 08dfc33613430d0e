//! Decisions behind a contract indexing service: which requests are let in,
//! what is asked of the indexing engine, and what every request is answered.

pub mod address;
pub mod auth;
pub mod body;
pub mod contract;
pub mod control;
pub mod json;
pub mod management;
pub mod readiness;
pub mod request;
pub mod response;
pub mod status;
pub mod text;
