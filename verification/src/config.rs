//! The settings the website starts with.
use vstd::prelude::*;

verus! {

/// The website's settings, as read from its configuration file.
#[derive(Debug, Clone, PartialEq)]
pub struct Config {
    pub api_server_host: String,
    pub api_server_port: i32,
    pub content_root: String,
    pub css_root: String,
    pub js_root: String,
    pub cookie_cleaner_interval_seconds: u64,
}

} // verus!
