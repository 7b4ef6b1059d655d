//! A reverse proxy core for an OpenAI-style inference API: routing rules that
//! pick upstream providers from a model name, bearer-credential extraction,
//! request-body rewriting, header policies and the error envelope.
pub mod config;
pub mod error;
pub mod json;
pub mod pattern;
pub mod request;
pub mod service;
