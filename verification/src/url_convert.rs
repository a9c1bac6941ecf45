//! A placeholder converter for plain URLs: it echoes the requested target
//! with a warning, so callers see the shape of a result before the real
//! conversion exists.

use vstd::prelude::*;

use crate::error::{FlomError, FlomErrorView, FlomResult};
use crate::result::{ConversionResult, ConversionResultView};

verus! {

pub struct UrlConverter;

impl UrlConverter {
    /// Builds the shell of a URL conversion: the target string is required,
    /// the result carries it as the target URL, and the warning says that
    /// the conversion itself is not implemented yet.
    pub fn convert(&self, input: &str, target: Option<&str>) -> (r: FlomResult<ConversionResult>)
        ensures
            match r {
                Ok(c) => target matches Some(t) && c@ == (ConversionResultView {
                    source_url: input@,
                    target_url: Some(t@),
                    source_platform: None,
                    target_platform: None,
                    source_info: None,
                    target_info: None,
                    warning: Some("url conversion is not implemented yet"@),
                }),
                Err(e) => target is None && e@ == FlomErrorView::UnsupportedInput(
                    "target is required for url conversion"@,
                ),
            },
    {
        let target = match target {
            Some(t) => t,
            None => {
                return Err(
                    FlomError::UnsupportedInput("target is required for url conversion".to_owned()),
                );
            },
        };
        Ok(
            ConversionResult {
                source_url: input.to_owned(),
                target_url: Some(target.to_owned()),
                source_platform: None,
                target_platform: None,
                source_info: None,
                target_info: None,
                warning: Some("url conversion is not implemented yet".to_owned()),
            },
        )
    }
}

} // verus!
