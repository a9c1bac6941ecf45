//! The externally visible unit of output: one conversion result per
//! (source URL, concrete target platform) pair, plus the projected media
//! identity it carries.

use vstd::prelude::*;

use crate::text::opt_view;

verus! {

/// Ghost mirror of [`MediaInfo`].
#[verifier::ext_equal]
pub struct MediaInfoView {
    pub title: Option<Seq<char>>,
    pub artist: Option<Seq<char>>,
    pub album: Option<Seq<char>>,
}

/// What is known about a piece of media. Any field may be absent, because
/// the upstream service may omit it; the partiality is data, not type.
#[derive(Debug, Clone, PartialEq, Eq)]
pub struct MediaInfo {
    pub title: Option<String>,
    pub artist: Option<String>,
    pub album: Option<String>,
}

impl View for MediaInfo {
    type V = MediaInfoView;

    open spec fn view(&self) -> MediaInfoView {
        MediaInfoView { title: opt_view(self.title), artist: opt_view(self.artist), album: opt_view(self.album) }
    }
}

/// Ghost mirror of [`ConversionResult`].
#[verifier::ext_equal]
pub struct ConversionResultView {
    pub source_url: Seq<char>,
    pub target_url: Option<Seq<char>>,
    pub source_platform: Option<Seq<char>>,
    pub target_platform: Option<Seq<char>>,
    pub source_info: Option<MediaInfoView>,
    pub target_info: Option<MediaInfoView>,
    pub warning: Option<Seq<char>>,
}

/// One conversion of a source URL to one target platform. Constructed once
/// from a resolved-links snapshot plus a target key; never mutated after
/// construction.
#[derive(Debug, Clone, PartialEq, Eq)]
pub struct ConversionResult {
    pub source_url: String,
    pub target_url: Option<String>,
    pub source_platform: Option<String>,
    pub target_platform: Option<String>,
    pub source_info: Option<MediaInfo>,
    pub target_info: Option<MediaInfo>,
    pub warning: Option<String>,
}

/// The view of an optional media identity.
pub open spec fn opt_info_view(o: Option<MediaInfo>) -> Option<MediaInfoView> {
    match o {
        Some(m) => Some(m@),
        None => None,
    }
}

impl View for ConversionResult {
    type V = ConversionResultView;

    open spec fn view(&self) -> ConversionResultView {
        ConversionResultView {
            source_url: self.source_url@,
            target_url: opt_view(self.target_url),
            source_platform: opt_view(self.source_platform),
            target_platform: opt_view(self.target_platform),
            source_info: opt_info_view(self.source_info),
            target_info: opt_info_view(self.target_info),
            warning: opt_view(self.warning),
        }
    }
}

} // verus!
