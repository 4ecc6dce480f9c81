//! Request handling for the community chatbot backend: path and origin
//! checks, replies, AI gateway requests and the documentation index.

pub mod ai;
pub mod common;
pub mod cors;
pub mod error;
pub mod handler;
pub mod json;
pub mod reply;
pub mod request;
pub mod routes;
pub mod text;
