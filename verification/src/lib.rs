//! Addon lookup for The Elder Scrolls Online: a local cache that maps addon
//! names to their esoui.com pages, and the rules that resolve a name to a page.
//!
//! Everything here computes on plain values; reading and writing files and
//! talking to esoui.com happen in the caller, which hands the results in.

pub mod text;
pub mod percent;
pub mod addon_map;
pub mod json;
pub mod cache;
pub mod search;
pub mod config;
pub mod sync;
pub mod add;
