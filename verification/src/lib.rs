//! Baidu Netdisk client library.

pub mod api;
pub mod auth;
pub mod batch;
pub mod cli;
pub mod config;
pub mod crypto;
pub mod error;
pub mod files;
pub mod hints;
pub mod http;
pub mod json;
pub mod laws;
pub mod path;
pub mod session;
pub mod text;
pub mod transfer;
