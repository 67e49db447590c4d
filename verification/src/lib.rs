//! Persistent environment variables.
//!
//! The library decides, verifiably, what a persistent assignment of an
//! environment variable looks like on each platform: the exact `export` line
//! appended to a Unix shell profile, the fallback chain that picks the profile
//! file, the merge and dedup policy for `;`-joined list variables stored under
//! a per-user registry key, and the sentinel-delimited injection of deferred
//! commands into a PowerShell profile script. The thin layer that actually
//! touches files, the process environment and the registry lives outside and
//! hands the library plain strings.

pub mod error;
pub mod getenv;
pub mod lines;
pub mod locator;
pub mod profile;
pub mod registry;
pub mod script;
pub mod segments;
pub mod split;
pub mod text;
