//! The logic of a client for S3-style object storage.
//!
//! A command is a method of [`Handler`]. It says what to ask of the service, as an
//! [`request::ApiCall`]; the call becomes an HTTP request by way of a draft, which is signed; and
//! what came back is handed to the method that takes the command further. Nothing here sends,
//! reads files or prints.

pub mod clock;
pub mod command;
pub mod handler;
pub mod json;
pub mod laws;
pub mod listing;
pub mod location;
pub mod path;
pub mod request;
pub mod text;
pub mod upload;
pub mod url;
pub mod xml;

pub use crate::handler::{AuthType, CredentialConfig, Format, Handler, UrlStyle};
