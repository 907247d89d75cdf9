//! Client library for the LoopEngine Ingest API: request signing, webhook
//! verification, request-body assembly and client configuration, with their
//! behaviour stated as Verus contracts.

pub mod text;
pub mod encoding;
pub mod crypto;
pub mod sign;
pub mod webhook;
pub mod json;
mod outside;
pub mod error;
pub mod client;

pub use client::{Client, ClientBuilder, SignedRequest};
pub use error::Error;
pub use json::{JsonMap, JsonValue};
pub use webhook::verify_webhook;
