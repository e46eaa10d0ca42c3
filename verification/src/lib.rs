//! A minimal HTTP static-file server library.
//!
//! The library holds the request-handling pipeline of the server: parsing
//! the request line, resolving a requested path safely against the document
//! root, building a response for a filesystem entry, serializing responses,
//! and the Basic-Auth admin channel. Socket and filesystem I/O live outside
//! the library; the few calls into outside crates (base64, mime_guess,
//! chrono, and the filesystem's canonicalization) stand behind small trusted
//! contracts, and every decision taken on their results is verified.

pub mod admin;
pub mod config;
pub mod date;
pub mod files;
pub mod handler;
pub mod http;
pub mod logfmt;
pub mod paths;
pub mod request;
pub mod strutil;
