//! Authentication core of a small lunch/dinner list service: credential
//! validation, signed access/refresh tokens, a refresh-session registry with
//! rotation and breach detection, and the service that ties them together.
pub mod api;
pub mod claims;
pub mod crypto;
pub mod errors;
pub mod list;
pub mod registry;
pub mod service;
pub mod store;
pub mod token_agent;
pub mod validation;
