//! Registry of web applications installed as pseudo-desktop apps.
//!
//! The library owns the authoritative list of installed apps (a JSON-backed
//! store), keeps it in lockstep with generated desktop-launcher files,
//! resolves which browser executable to use, and plans icon fetches with a
//! fixed fallback strategy.  Every function here is pure: file and network
//! I/O stay with the caller, which hands document contents in and carries
//! the returned documents and file names back out to disk.

pub mod text;
pub mod domain;
pub mod jsonspec;
pub mod jsonwrite;
pub mod jsonread;
pub mod jsonlaws;
pub mod app_data;
pub mod desktop_data;
pub mod icons;
pub mod config;
pub mod install;
pub mod uninstall;
pub mod update;
pub mod run;
pub mod browser;
