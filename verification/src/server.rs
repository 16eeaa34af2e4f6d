//! Who may call the administrative endpoint.

use crate::config::Config;
use crate::text::same_text;
use vstd::prelude::*;

verus! {

/// What an `authorization` header is worth.
#[derive(Debug, Clone, Copy, PartialEq, Eq)]
pub enum ApiKeyCheck {
    /// The request has no such header.
    Missing,
    /// The header does not hold the configured key.
    Invalid,
    /// The header holds the configured key.
    Valid,
}

/// Checks the `authorization` header of a request against the configured
/// key.
pub fn check_api_key(header: Option<&str>, config: &Config) -> (r: ApiKeyCheck)
    ensures
        r == (match header {
            None => ApiKeyCheck::Missing,
            Some(key) => if key@ == config.admin_api_key@ {
                ApiKeyCheck::Valid
            } else {
                ApiKeyCheck::Invalid
            },
        }),
{
    match header {
        None => ApiKeyCheck::Missing,
        Some(key) => if same_text(key, config.admin_api_key.as_str()) {
            ApiKeyCheck::Valid
        } else {
            ApiKeyCheck::Invalid
        },
    }
}

} // verus!
