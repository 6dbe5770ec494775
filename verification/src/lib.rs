//! Decision logic for talking to the Kiro API.
pub mod body;
pub mod call;
pub mod chance;
pub mod course;
pub mod error;
pub mod json;
pub mod provider;
pub mod request;
pub mod retry_after;
pub mod text;
pub mod timing;
pub mod trace;
