//! The configured journal root and the precedence between an explicit path
//! and the configuration.
use vstd::prelude::*;

verus! {

/// The loaded configuration: at most a default journal path.
#[derive(Debug, Clone, PartialEq, Eq)]
pub struct Config {
    pub default_path: Option<String>,
}

/// The journal root that a set of sources resolves to: an explicit path wins
/// over the configured default; with neither, there is none.
pub open spec fn spec_journal_path(
    explicit_path: Option<String>,
    config: Option<Config>,
) -> Option<String> {
    if explicit_path is Some {
        explicit_path
    } else if config is Some {
        config->0.default_path
    } else {
        None
    }
}

/// Picks the journal root: the explicit path if given, else the configured
/// default path, else nothing.
pub fn get_journal_path(explicit_path: Option<String>, config: Option<Config>) -> (r: Option<
    String,
>)
    ensures
        r == spec_journal_path(explicit_path, config),
{
    if let Some(path) = explicit_path {
        return Some(path);
    }
    if let Some(cfg) = config {
        if let Some(path) = cfg.default_path {
            return Some(path);
        }
    }
    None
}

} // verus!
