//! Core engine of an API-testing workflow runner.
//!
//! A *chain* is a named sequence of HTTP steps.  Each step carries URL,
//! header, query and body templates with `{{NAME}}` placeholders, a set of
//! response assertions, and rules for extracting variables out of JSON
//! response bodies.  The modules here hold the verified logic of that
//! engine: template substitution, matchers and response validation, the
//! minimal JSON path extractor, and the step-by-step execution state
//! machine.  Transport, scripting and persistence are left to callers.

pub mod assertion;
pub mod auth;
pub mod chain;
pub mod context;
pub mod cookies;
pub mod environment;
pub mod error;
pub mod executor;
pub mod file_upload;
pub mod form;
pub mod history;
pub mod http;
pub mod json;
pub mod matcher;
pub mod multipart;
pub mod script;
pub mod step;
pub mod numbers;
pub mod strmap;
pub mod substitution;
pub mod text;
pub mod validator;
