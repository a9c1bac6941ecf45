//! The configuration schema and the precedence rules that resolve each
//! setting: an environment value overrides the persisted file value, which
//! overrides the default. Reading the environment and the file happens
//! outside the library; the rules here are pure functions of what was read.

use vstd::prelude::*;

use crate::error::{FlomError, FlomErrorView, FlomResult};
use crate::text::{lower_seq, opt_view, trim_ws};

verus! {

/// Credentials for the resolution service.
#[derive(Debug, Clone)]
pub struct ApiConfig {
    pub odesli_key: Option<String>,
}

/// Defaults applied when a conversion does not say otherwise.
#[derive(Debug, Clone)]
pub struct DefaultConfig {
    pub target: Option<String>,
    pub user_country: Option<String>,
}

/// How results are printed.
#[derive(Debug, Clone)]
pub struct OutputConfig {
    pub simple: Option<bool>,
}

/// The whole persisted configuration.
#[derive(Debug, Clone)]
pub struct FlomConfig {
    pub api: ApiConfig,
    pub default: DefaultConfig,
    pub output: OutputConfig,
}

impl FlomConfig {
    /// The configuration with every value unset.
    pub fn empty() -> (r: Self)
        ensures
            r.api.odesli_key is None,
            r.default.target is None,
            r.default.user_country is None,
            r.output.simple is None,
    {
        FlomConfig {
            api: ApiConfig { odesli_key: None },
            default: DefaultConfig { target: None, user_country: None },
            output: OutputConfig { simple: None },
        }
    }
}

/// The API key to use: a non-blank environment value wins, else whatever the
/// configuration holds.
pub fn resolve_odesli_key(env_value: Option<String>, config: &FlomConfig) -> (r: Option<String>)
    ensures
        opt_view(r) == match env_value {
            Some(v) => if trim_ws(v@).len() > 0 {
                Some(v@)
            } else {
                opt_view(config.api.odesli_key)
            },
            None => opt_view(config.api.odesli_key),
        },
{
    match env_value {
        Some(v) => {
            if !crate::text::is_blank(v.as_str()) {
                Some(v)
            } else {
                match &config.api.odesli_key {
                    Some(k) => Some(k.clone()),
                    None => None,
                }
            }
        },
        None => match &config.api.odesli_key {
            Some(k) => Some(k.clone()),
            None => None,
        },
    }
}

/// The default target to use: a non-blank environment value wins, else
/// whatever the configuration holds.
pub fn resolve_default_target(env_value: Option<String>, config: &FlomConfig) -> (r: Option<String>)
    ensures
        opt_view(r) == match env_value {
            Some(v) => if trim_ws(v@).len() > 0 {
                Some(v@)
            } else {
                opt_view(config.default.target)
            },
            None => opt_view(config.default.target),
        },
{
    match env_value {
        Some(v) => {
            if !crate::text::is_blank(v.as_str()) {
                Some(v)
            } else {
                match &config.default.target {
                    Some(t) => Some(t.clone()),
                    None => None,
                }
            }
        },
        None => match &config.default.target {
            Some(t) => Some(t.clone()),
            None => None,
        },
    }
}

/// The country context of requests: a non-blank environment value wins, in
/// its trimmed form; else the configured country; else `US`.
pub fn resolve_user_country(env_value: Option<String>, config: &FlomConfig) -> (r: String)
    ensures
        r@ == match env_value {
            Some(v) => if trim_ws(v@).len() > 0 {
                trim_ws(v@)
            } else {
                match config.default.user_country {
                    Some(c) => c@,
                    None => "US"@,
                }
            },
            None => match config.default.user_country {
                Some(c) => c@,
                None => "US"@,
            },
        },
{
    let from_env = match &env_value {
        Some(v) => {
            let normalized = crate::text::trim(v.as_str());
            if !normalized.is_empty() {
                Some(normalized.to_owned())
            } else {
                None
            }
        },
        None => None,
    };
    match from_env {
        Some(c) => c,
        None => match &config.default.user_country {
            Some(c) => c.clone(),
            None => "US".to_owned(),
        },
    }
}

/// Whether simple output is on: an environment value decides by spelling a
/// truth value (`1`, `true` or `yes`, in any casing); else the configuration
/// decides; else nothing is decided.
pub fn resolve_simple_output(env_value: Option<String>, config: &FlomConfig) -> (r: Option<bool>)
    ensures
        r == match env_value {
            Some(v) => Some(
                lower_seq(v@) == "1"@ || lower_seq(v@) == "true"@ || lower_seq(v@) == "yes"@,
            ),
            None => config.output.simple,
        },
{
    match &env_value {
        Some(v) => {
            let folded = crate::text::lowercased(v.as_str());
            let f = folded.as_str();
            Some(
                crate::text::str_eq(f, "1") || crate::text::str_eq(f, "true")
                    || crate::text::str_eq(f, "yes"),
            )
        },
        None => config.output.simple,
    }
}

/// Splits a dotted key path for a configuration edit. A path of fewer than
/// two parts does not name a table and a key, and is refused with the
/// configuration error that says so.
pub fn split_key_path(key_path: &str) -> (r: FlomResult<Vec<String>>)
    ensures
        r is Ok <==> crate::text::split_char(key_path@, '.').len() >= 2,
        match r {
            Ok(parts) => crate::text::strings_view(parts@) == crate::text::split_char(
                key_path@,
                '.',
            ),
            Err(e) => e@ == FlomErrorView::Config(
                "key path must have at least 2 parts (e.g., 'api.odesli_key')"@,
            ),
        },
{
    let parts = crate::text::split_on_char(key_path, '.');
    if parts.len() < 2 {
        Err(
            FlomError::Config(
                "key path must have at least 2 parts (e.g., 'api.odesli_key')".to_owned(),
            ),
        )
    } else {
        Ok(parts)
    }
}

/// The value a configuration key path names, rendered as text, or nothing
/// for a path outside the schema or a value that is unset.
pub open spec fn spec_nested_config_value(config: FlomConfig, key_path: Seq<char>) -> Option<
    Seq<char>,
> {
    if key_path == "api.odesli_key"@ {
        opt_view(config.api.odesli_key)
    } else if key_path == "default.target"@ {
        opt_view(config.default.target)
    } else if key_path == "output.simple"@ {
        match config.output.simple {
            Some(b) => Some(
                if b {
                    "true"@
                } else {
                    "false"@
                },
            ),
            None => None,
        }
    } else {
        None
    }
}

/// Looks a dotted key path up in the configuration.
pub fn get_nested_config_value(config: &FlomConfig, key_path: &str) -> (r: Option<String>)
    ensures
        opt_view(r) == spec_nested_config_value(*config, key_path@),
{
    if crate::text::str_eq(key_path, "api.odesli_key") {
        match &config.api.odesli_key {
            Some(k) => Some(k.clone()),
            None => None,
        }
    } else if crate::text::str_eq(key_path, "default.target") {
        match &config.default.target {
            Some(t) => Some(t.clone()),
            None => None,
        }
    } else if crate::text::str_eq(key_path, "output.simple") {
        match config.output.simple {
            Some(b) => Some(
                if b {
                    "true".to_owned()
                } else {
                    "false".to_owned()
                },
            ),
            None => None,
        }
    } else {
        None
    }
}

} // verus!
