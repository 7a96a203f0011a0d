//! A unified client library for large language model services: message and
//! model types, provider catalogues, credential resolution, wire formats and
//! streaming state machines.
pub mod auth;
pub mod base64;
pub mod codex;
pub mod cost;
pub mod dict;
pub mod event_stream;
pub mod faux;
pub mod json;
pub mod json_parse;
pub mod json_text;
pub mod keys;
pub mod models;
pub mod models_store;
pub mod oauth;
pub mod paths;
pub mod providers;
pub mod random;
pub mod retry;
pub mod text;
pub mod types;
pub mod utf8;
pub mod validation;
pub mod validation_laws;
pub mod views;
pub mod wire;
