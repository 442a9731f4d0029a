//! A browser-picker support library.
//!
//! The heart of the crate is a verified reader for Windows executable
//! (PE/COFF) images that extracts an embedded icon resource and rebuilds a
//! standalone `.ico` byte stream, without calling any operating-system API.
//! Around it stand small verified helpers that the surrounding launcher
//! uses: configuration types and path layout rules, URL vetting, and
//! release-version bookkeeping.

pub mod cursor;
pub mod config;
pub mod extract;
pub mod headers;
pub mod icon;
pub mod resources;
pub mod sections;
pub mod setup;
pub mod text;
pub mod update;
pub mod webclient;
