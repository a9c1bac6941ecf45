//! The conversion builder: turns a resolved-links snapshot and a target
//! selection into typed conversion results, inferring the source platform
//! when the service does not report it directly.

use vstd::prelude::*;

use crate::error::{FlomError, FlomErrorView, FlomResult};
use crate::normalize::{alias_canonical, display_name, display_of, normalized_target};
use crate::odesli::{OdesliEntity, OdesliLink, OdesliResponse, OdesliClient};
use crate::result::{ConversionResult, ConversionResultView, MediaInfo, MediaInfoView};
use crate::strmap::{entries_get, StrKeyMap};
use crate::text::opt_view;

verus! {

/// Ghost mirror of [`TargetOption`].
#[verifier::ext_equal]
pub struct TargetOptionView {
    pub key: Seq<char>,
    pub label: Seq<char>,
}

/// A platform a response can be converted to, as presented to a user: the
/// canonical key and its display label.
#[derive(Debug, Clone, PartialEq, Eq)]
pub struct TargetOption {
    pub key: String,
    pub label: String,
}

impl View for TargetOption {
    type V = TargetOptionView;

    open spec fn view(&self) -> TargetOptionView {
        TargetOptionView { key: self.key@, label: self.label@ }
    }
}

/// The identity fields of an entity, copied verbatim, absences included.
pub open spec fn spec_entity_info(e: OdesliEntity) -> MediaInfoView {
    MediaInfoView {
        title: opt_view(e.title),
        artist: opt_view(e.artist_name),
        album: opt_view(e.album_name),
    }
}

/// The key of the first link whose URL equals `url` exactly, searching the
/// entries in key order.
pub open spec fn spec_infer_source_platform(
    links: Seq<(Seq<char>, OdesliLink)>,
    url: Seq<char>,
) -> Option<Seq<char>>
    decreases links.len(),
{
    if links.len() == 0 {
        None
    } else if links[0].1.url@ == url {
        Some(links[0].0)
    } else {
        spec_infer_source_platform(links.drop_first(), url)
    }
}

/// The source platform of a conversion: the provider the canonical entity
/// reports, or failing that the key of the link matching the source URL.
pub open spec fn spec_source_platform(
    response: OdesliResponse,
    source_url: Seq<char>,
) -> Option<Seq<char>> {
    match entries_get(response.entities_by_unique_id@, response.entity_unique_id@) {
        Some(e) => match e.api_provider {
            Some(p) => Some(p@),
            None => spec_infer_source_platform(response.links_by_platform@, source_url),
        },
        None => spec_infer_source_platform(response.links_by_platform@, source_url),
    }
}

/// The projected identity of the canonical source entity, if it is present
/// in the entity graph.
pub open spec fn spec_source_info(response: OdesliResponse) -> Option<MediaInfoView> {
    match entries_get(response.entities_by_unique_id@, response.entity_unique_id@) {
        Some(e) => Some(spec_entity_info(e)),
        None => None,
    }
}

/// The conversion built once the target link is found.
pub open spec fn spec_convert_hit(
    response: OdesliResponse,
    source_url: Seq<char>,
    target_key: Seq<char>,
    link: OdesliLink,
) -> ConversionResultView {
    ConversionResultView {
        source_url: source_url,
        target_url: Some(link.url@),
        source_platform: spec_source_platform(response, source_url),
        target_platform: Some(target_key),
        source_info: spec_source_info(response),
        target_info: match entries_get(response.entities_by_unique_id@, link.entity_unique_id@) {
            Some(e) => Some(spec_entity_info(e)),
            None => None,
        },
        warning: None,
    }
}

/// What converting a response to one target key yields: the built result
/// when the service returned a link for that key, and the unsupported-input
/// failure naming the key when it did not.
pub open spec fn spec_convert(
    response: OdesliResponse,
    source_url: Seq<char>,
    target_key: Seq<char>,
) -> Result<ConversionResultView, FlomErrorView> {
    match entries_get(response.links_by_platform@, target_key) {
        Some(link) => Ok(spec_convert_hit(response, source_url, target_key, link)),
        None => Err(
            FlomErrorView::UnsupportedInput("target platform not available: "@ + target_key),
        ),
    }
}

/// Searching past links whose URLs miss `url` does not change the inferred
/// platform.
proof fn lemma_infer_skip(links: Seq<(Seq<char>, OdesliLink)>, url: Seq<char>, i: int)
    requires
        0 <= i <= links.len(),
        forall|j: int| 0 <= j < i ==> (#[trigger] links[j].1).url@ != url,
    ensures
        spec_infer_source_platform(links, url) == spec_infer_source_platform(links.skip(i), url),
    decreases i,
{
    if i > 0 {
        assert(links.drop_first() =~= links.skip(1));
        assert(links.skip(1).skip(i - 1) =~= links.skip(i));
        lemma_infer_skip(links.skip(1), url, i - 1);
    } else {
        assert(links.skip(0) =~= links);
    }
}

/// Projects an entity of the graph to the identity shown to a user; fields
/// are copied verbatim, absences included.
pub fn entity_to_media(entity: &OdesliEntity) -> (r: MediaInfo)
    ensures
        r@ == spec_entity_info(*entity),
{
    MediaInfo {
        title: match &entity.title {
            Some(t) => Some(t.clone()),
            None => None,
        },
        artist: match &entity.artist_name {
            Some(a) => Some(a.clone()),
            None => None,
        },
        album: match &entity.album_name {
            Some(a) => Some(a.clone()),
            None => None,
        },
    }
}

/// The key of the link whose URL equals `url` exactly, if any. An equal URL
/// is the only signal: a differently-normalized URL (trailing slash,
/// tracking parameters) does not infer.
pub fn infer_source_platform(links: &StrKeyMap<OdesliLink>, url: &str) -> (r: Option<String>)
    ensures
        opt_view(r) == spec_infer_source_platform(links@, url@),
{
    let n = links.len();
    let mut i: usize = 0;
    while i < n
        invariant
            n == links@.len(),
            i <= n,
            forall|j: int| 0 <= j < i ==> (#[trigger] links@[j].1).url@ != url@,
        decreases n - i,
    {
        let (key, link) = links.entry_at(i);
        if crate::text::str_eq(link.url.as_str(), url) {
            proof {
                lemma_infer_skip(links@, url@, i as int);
                assert(links@.skip(i as int)[0] == links@[i as int]);
            }
            return Some(key.clone());
        }
        i += 1;
    }
    proof {
        lemma_infer_skip(links@, url@, n as int);
        assert(links@.skip(n as int) =~= Seq::<(Seq<char>, OdesliLink)>::empty());
    }
    None
}

/// The views of a vector of target options.
pub open spec fn targets_view(ts: Seq<TargetOption>) -> Seq<TargetOptionView> {
    ts.map_values(|t: TargetOption| t@)
}

/// The targets a response offers, one per platform key, in key order, each
/// with its display label.
pub open spec fn spec_targets(links: Seq<(Seq<char>, OdesliLink)>) -> Seq<TargetOptionView> {
    links.map_values(|e: (Seq<char>, OdesliLink)| TargetOptionView { key: e.0, label: display_of(e.0) })
}

/// The conversion engine around one resolution client.
#[derive(Debug, Clone)]
pub struct MusicConverter {
    pub client: OdesliClient,
}

impl MusicConverter {
    /// A converter that queries with the given key and country.
    pub fn new(api_key: Option<String>, user_country: String) -> (r: Self)
        ensures
            r.client.api_key == api_key,
            r.client.user_country == user_country,
    {
        MusicConverter { client: OdesliClient::new(api_key, user_country) }
    }

    /// The resolution client this converter queries through.
    pub fn client(&self) -> (r: &OdesliClient)
        ensures
            *r == self.client,
    {
        &self.client
    }

    /// The platforms a response offers as conversion targets, in key order.
    pub fn targets_from_response(response: &OdesliResponse) -> (r: Vec<TargetOption>)
        ensures
            targets_view(r@) == spec_targets(response.links_by_platform@),
    {
        let n = response.links_by_platform.len();
        let mut targets: Vec<TargetOption> = Vec::new();
        let mut i: usize = 0;
        while i < n
            invariant
                n == response.links_by_platform@.len(),
                i <= n,
                targets@.len() == i,
                targets_view(targets@) =~= spec_targets(
                    response.links_by_platform@.take(i as int),
                ),
            decreases n - i,
        {
            let ghost prev = targets@;
            let (key, _) = response.links_by_platform.entry_at(i);
            let label = display_name(key.as_str());
            let option = TargetOption { key: key.clone(), label: label.to_owned() };
            proof {
                assert(option@ == TargetOptionView {
                    key: response.links_by_platform@[i as int].0,
                    label: display_of(response.links_by_platform@[i as int].0),
                });
            }
            targets.push(option);
            proof {
                let ls = response.links_by_platform@;
                assert(targets@ == prev.push(option));
                assert forall|j: int| 0 <= j < i + 1 implies targets_view(targets@)[j]
                    == spec_targets(ls.take(i + 1))[j] by {
                    assert(ls.take(i + 1)[j] == ls[j]);
                    if j < i {
                        assert(targets_view(prev) == spec_targets(ls.take(i as int)));
                        assert(prev.len() == i as int);
                        assert(targets@[j] == prev[j]);
                        assert(targets_view(targets@)[j] == targets@[j]@);
                        assert(targets_view(prev)[j] == prev[j]@);
                        assert(targets_view(prev)[j] == spec_targets(ls.take(i as int))[j]);
                        assert(ls.take(i as int)[j] == ls[j]);
                    } else {
                        assert(targets@[j] == option);
                    }
                }
                assert(targets_view(targets@) =~= spec_targets(ls.take(i + 1)));
            }
            i += 1;
        }
        proof {
            assert(response.links_by_platform@.take(n as int) =~= response.links_by_platform@);
        }
        targets
    }

    /// Maps a free-form target string to the canonical platform key it
    /// names, or to nothing when the alias table does not recognize it —
    /// a resolvable-but-unknown target, distinct from a network failure.
    pub fn normalize_target(input: &str) -> (r: Option<String>)
        ensures
            opt_view(r) == alias_canonical(normalized_target(input@)),
    {
        let folded = crate::text::lowercased(crate::text::trim(input));
        let f = folded.as_str();
        if crate::text::str_eq(f, "spotify") {
            Some("spotify".to_owned())
        } else if crate::text::str_eq(f, "applemusic") || crate::text::str_eq(f, "apple-music")
            || crate::text::str_eq(f, "apple_music") {
            Some("appleMusic".to_owned())
        } else if crate::text::str_eq(f, "itunes") {
            Some("itunes".to_owned())
        } else if crate::text::str_eq(f, "youtube") {
            Some("youtube".to_owned())
        } else if crate::text::str_eq(f, "youtubemusic") || crate::text::str_eq(f, "youtube-music")
            || crate::text::str_eq(f, "youtube_music") {
            Some("youtubeMusic".to_owned())
        } else if crate::text::str_eq(f, "tidal") {
            Some("tidal".to_owned())
        } else if crate::text::str_eq(f, "deezer") {
            Some("deezer".to_owned())
        } else if crate::text::str_eq(f, "amazonmusic") || crate::text::str_eq(f, "amazon-music")
            || crate::text::str_eq(f, "amazon_music") {
            Some("amazonMusic".to_owned())
        } else {
            None
        }
    }

    /// Builds the conversion of `source_url` to `target_key` from one
    /// resolved snapshot, statelessly: the result is exactly
    /// [`spec_convert`] of the arguments.
    pub fn convert_from_response(
        response: &OdesliResponse,
        source_url: &str,
        target_key: &str,
    ) -> (r: FlomResult<ConversionResult>)
        ensures
            match r {
                Ok(c) => spec_convert(*response, source_url@, target_key@) == Ok::<
                    ConversionResultView,
                    FlomErrorView,
                >(c@),
                Err(e) => spec_convert(*response, source_url@, target_key@) == Err::<
                    ConversionResultView,
                    FlomErrorView,
                >(e@),
            },
    {
        let source_entity = response.entities_by_unique_id.get(response.entity_unique_id.as_str());

        let source_info = match source_entity {
            Some(e) => Some(entity_to_media(e)),
            None => None,
        };
        let source_platform = match source_entity {
            Some(e) => match &e.api_provider {
                Some(p) => Some(p.clone()),
                None => infer_source_platform(&response.links_by_platform, source_url),
            },
            None => infer_source_platform(&response.links_by_platform, source_url),
        };

        let target_link = match response.links_by_platform.get(target_key) {
            Some(link) => link,
            None => {
                let mut message = "target platform not available: ".to_owned();
                message.append(target_key);
                return Err(FlomError::UnsupportedInput(message));
            },
        };

        let target_entity = response.entities_by_unique_id.get(target_link.entity_unique_id.as_str());

        Ok(ConversionResult {
            source_url: source_url.to_owned(),
            target_url: Some(target_link.url.clone()),
            source_platform,
            target_platform: Some(target_key.to_owned()),
            source_info,
            target_info: match target_entity {
                Some(e) => Some(entity_to_media(e)),
                None => None,
            },
            warning: None,
        })
    }
}

/// Ghost mirror of [`TargetSelection`].
pub enum TargetSelectionView {
    Specific(Seq<char>),
    All,
    GenericPage,
}

/// What a target string asks for: one canonical platform, every platform the
/// response offers, or the service's own generic landing page.
#[derive(Debug, Clone, PartialEq, Eq)]
pub enum TargetSelection {
    Specific(String),
    All,
    GenericPage,
}

impl View for TargetSelection {
    type V = TargetSelectionView;

    open spec fn view(&self) -> TargetSelectionView {
        match self {
            TargetSelection::Specific(k) => TargetSelectionView::Specific(k@),
            TargetSelection::All => TargetSelectionView::All,
            TargetSelection::GenericPage => TargetSelectionView::GenericPage,
        }
    }
}

/// How a target string is interpreted: the literal values `all` and
/// `songlink` (after trimming and lower-casing) bypass the alias table; any
/// other string must name a platform the table recognizes, else the
/// invalid-input failure names the offending string.
pub open spec fn spec_select_target(raw: Seq<char>) -> Result<TargetSelectionView, FlomErrorView> {
    let folded = normalized_target(raw);
    if folded == "all"@ {
        Ok(TargetSelectionView::All)
    } else if folded == "songlink"@ {
        Ok(TargetSelectionView::GenericPage)
    } else {
        match alias_canonical(folded) {
            Some(key) => Ok(TargetSelectionView::Specific(key)),
            None => Err(FlomErrorView::InvalidInput("unknown target: "@ + raw)),
        }
    }
}

/// The target string a conversion will use: the explicit one when present
/// and non-blank, else the configured default.
pub open spec fn spec_choose_target(
    explicit: Option<&str>,
    default: Option<&str>,
) -> Option<Seq<char>> {
    match explicit {
        Some(e) => if crate::text::trim_ws(e@).len() > 0 {
            Some(e@)
        } else {
            match default {
                Some(d) => Some(d@),
                None => None,
            }
        },
        None => match default {
            Some(d) => Some(d@),
            None => None,
        },
    }
}

/// The conversion built for the generic-page selection: the service's own
/// landing page, with no platform lookup and both identities absent.
pub open spec fn spec_generic_page(
    response: OdesliResponse,
    source_url: Seq<char>,
) -> ConversionResultView {
    ConversionResultView {
        source_url: source_url,
        target_url: Some(response.page_url@),
        source_platform: None,
        target_platform: Some("songlink"@),
        source_info: None,
        target_info: None,
        warning: None,
    }
}

/// One conversion per platform key the response offers, in key order.
pub open spec fn spec_all_conversions(
    response: OdesliResponse,
    source_url: Seq<char>,
) -> Seq<ConversionResultView> {
    response.links_by_platform@.map_values(
        |e: (Seq<char>, OdesliLink)| spec_convert_hit(response, source_url, e.0, e.1),
    )
}

/// The views of a vector of conversion results.
pub open spec fn results_view(rs: Seq<ConversionResult>) -> Seq<ConversionResultView> {
    rs.map_values(|c: ConversionResult| c@)
}

/// What one resolved snapshot yields for a whole target selection.
pub open spec fn spec_plan(
    response: OdesliResponse,
    source_url: Seq<char>,
    selection: TargetSelection,
) -> Result<Seq<ConversionResultView>, FlomErrorView> {
    match selection {
        TargetSelection::All => Ok(spec_all_conversions(response, source_url)),
        TargetSelection::GenericPage => Ok(seq![spec_generic_page(response, source_url)]),
        TargetSelection::Specific(key) => match spec_convert(response, source_url, key@) {
            Ok(c) => Ok(seq![c]),
            Err(e) => Err(e),
        },
    }
}

impl MusicConverter {
    /// Decides what a target string asks for, before any conversion attempt.
    pub fn select_target(raw: &str) -> (r: FlomResult<TargetSelection>)
        ensures
            match r {
                Ok(sel) => spec_select_target(raw@) == Ok::<TargetSelectionView, FlomErrorView>(
                    sel@,
                ),
                Err(e) => spec_select_target(raw@) == Err::<TargetSelectionView, FlomErrorView>(
                    e@,
                ),
            },
    {
        let folded = crate::text::lowercased(crate::text::trim(raw));
        let f = folded.as_str();
        if crate::text::str_eq(f, "all") {
            Ok(TargetSelection::All)
        } else if crate::text::str_eq(f, "songlink") {
            Ok(TargetSelection::GenericPage)
        } else {
            match Self::normalize_target(raw) {
                Some(key) => Ok(TargetSelection::Specific(key)),
                None => {
                    let mut message = "unknown target: ".to_owned();
                    message.append(raw);
                    Err(FlomError::InvalidInput(message))
                },
            }
        }
    }

    /// Picks the target string a conversion will use.
    pub fn choose_target(explicit: Option<&str>, default: Option<&str>) -> (r: Option<String>)
        ensures
            opt_view(r) == spec_choose_target(explicit, default),
    {
        match explicit {
            Some(e) => {
                if !crate::text::is_blank(e) {
                    Some(e.to_owned())
                } else {
                    match default {
                        Some(d) => Some(d.to_owned()),
                        None => None,
                    }
                }
            },
            None => match default {
                Some(d) => Some(d.to_owned()),
                None => None,
            },
        }
    }

    /// The conversion for the generic-page selection, built directly from
    /// the response's landing page.
    pub fn generic_page_result(response: &OdesliResponse, source_url: &str) -> (r: ConversionResult)
        ensures
            r@ == spec_generic_page(*response, source_url@),
    {
        ConversionResult {
            source_url: source_url.to_owned(),
            target_url: Some(response.page_url.clone()),
            source_platform: None,
            target_platform: Some("songlink".to_owned()),
            source_info: None,
            target_info: None,
            warning: None,
        }
    }

    /// Carries out a whole target selection against one resolved snapshot:
    /// one result for a specific platform, one per offered platform in key
    /// order for the all-platforms selection, and the landing page for the
    /// generic-page selection.
    pub fn plan_conversions(
        response: &OdesliResponse,
        source_url: &str,
        selection: &TargetSelection,
    ) -> (r: FlomResult<Vec<ConversionResult>>)
        requires
            response.wf(),
        ensures
            match r {
                Ok(rs) => spec_plan(*response, source_url@, *selection) == Ok::<
                    Seq<ConversionResultView>,
                    FlomErrorView,
                >(results_view(rs@)),
                Err(e) => spec_plan(*response, source_url@, *selection) == Err::<
                    Seq<ConversionResultView>,
                    FlomErrorView,
                >(e@),
            },
    {
        match selection {
            TargetSelection::GenericPage => {
                let mut results: Vec<ConversionResult> = Vec::new();
                results.push(Self::generic_page_result(response, source_url));
                proof {
                    assert(results_view(results@) =~= seq![
                        spec_generic_page(*response, source_url@),
                    ]);
                }
                Ok(results)
            },
            TargetSelection::Specific(key) => {
                match Self::convert_from_response(response, source_url, key.as_str()) {
                    Ok(c) => {
                        let mut results: Vec<ConversionResult> = Vec::new();
                        results.push(c);
                        proof {
                            assert(results_view(results@) =~= seq![c@]);
                        }
                        Ok(results)
                    },
                    Err(e) => Err(e),
                }
            },
            TargetSelection::All => {
                let n = response.links_by_platform.len();
                let mut results: Vec<ConversionResult> = Vec::new();
                let mut i: usize = 0;
                while i < n
                    invariant
                        response.wf(),
                        n == response.links_by_platform@.len(),
                        i <= n,
                        results@.len() == i,
                        forall|j: int|
                            0 <= j < i ==> #[trigger] results_view(results@)[j]
                                == spec_all_conversions(*response, source_url@)[j],
                    decreases n - i,
                {
                    let ghost prev = results@;
                    let (key, _) = response.links_by_platform.entry_at(i);
                    match Self::convert_from_response(response, source_url, key.as_str()) {
                        Ok(c) => {
                            proof {
                                crate::strmap::lemma_entries_get_at(
                                    response.links_by_platform@,
                                    i as int,
                                );
                            }
                            results.push(c);
                            proof {
                                assert(results@ == prev.push(c));
                                assert(results_view(results@)[i as int] == c@);
                                assert(forall|j: int|
                                    0 <= j < i ==> #[trigger] results_view(results@)[j]
                                        == results_view(prev)[j]);
                            }
                        },
                        Err(e) => {
                            proof {
                                crate::strmap::lemma_entries_get_at(
                                    response.links_by_platform@,
                                    i as int,
                                );
                                assert(false);
                            }
                            return Err(e);
                        },
                    }
                    i += 1;
                }
                proof {
                    assert(results_view(results@) =~= spec_all_conversions(*response, source_url@));
                }
                Ok(results)
            },
        }
    }
}

/// Law: building a conversion is deterministic — from one resolved snapshot,
/// one source URL and one target key, any two results are identical.
pub proof fn lemma_convert_deterministic(
    response: OdesliResponse,
    source_url: Seq<char>,
    target_key: Seq<char>,
    r1: ConversionResult,
    r2: ConversionResult,
)
    requires
        spec_convert(response, source_url, target_key) == Ok::<ConversionResultView, FlomErrorView>(
            r1@,
        ),
        spec_convert(response, source_url, target_key) == Ok::<ConversionResultView, FlomErrorView>(
            r2@,
        ),
    ensures
        r1@ == r2@,
{
}

/// The inferred source platform is a link key whose URL equals the source
/// URL exactly, and is absent exactly when no link URL matches.
pub proof fn lemma_infer_characterized(links: Seq<(Seq<char>, OdesliLink)>, url: Seq<char>)
    ensures
        spec_infer_source_platform(links, url) is None <==> (forall|j: int|
            0 <= j < links.len() ==> (#[trigger] links[j].1).url@ != url),
        match spec_infer_source_platform(links, url) {
            Some(k) => exists|j: int|
                0 <= j < links.len() && (#[trigger] links[j].0) == k && links[j].1.url@ == url,
            None => true,
        },
    decreases links.len(),
{
    if links.len() > 0 {
        let tail = links.drop_first();
        assert(tail =~= links.skip(1));
        lemma_infer_characterized(tail, url);
        if links[0].1.url@ == url {
        } else {
            match spec_infer_source_platform(tail, url) {
                Some(k) => {
                    let j = choose|j: int|
                        0 <= j < tail.len() && (#[trigger] tail[j].0) == k && tail[j].1.url@ == url;
                    assert(links[j + 1].0 == k && links[j + 1].1.url@ == url);
                },
                None => {
                    assert forall|j: int| 0 <= j < links.len() implies (#[trigger] links[j].1).url@
                        != url by {
                        if j > 0 {
                            assert(tail[j - 1] == links[j]);
                        }
                    }
                },
            }
        }
    }
}

/// Law: when the canonical source entity reports no provider — or is absent
/// from the entity graph — the source platform falls back to the key of the
/// link whose URL equals the source URL exactly; when no link matches, the
/// source platform is absent, and that is not an error.
pub proof fn lemma_source_platform_fallback(response: OdesliResponse, source_url: Seq<char>)
    requires
        match entries_get(response.entities_by_unique_id@, response.entity_unique_id@) {
            Some(e) => e.api_provider is None,
            None => true,
        },
    ensures
        spec_source_platform(response, source_url) == spec_infer_source_platform(
            response.links_by_platform@,
            source_url,
        ),
        spec_source_platform(response, source_url) is None <==> (forall|j: int|
            0 <= j < response.links_by_platform@.len() ==> (#[trigger] response.links_by_platform@[j].1).url@
                != source_url),
        match spec_source_platform(response, source_url) {
            Some(k) => exists|j: int|
                0 <= j < response.links_by_platform@.len() && (
                #[trigger] response.links_by_platform@[j].0) == k
                    && response.links_by_platform@[j].1.url@ == source_url,
            None => true,
        },
{
    lemma_infer_characterized(response.links_by_platform@, source_url);
}

/// Law: a target key the service returned no link for always yields the
/// unsupported-input failure naming that key, never a result.
pub proof fn lemma_missing_target_unsupported(
    response: OdesliResponse,
    source_url: Seq<char>,
    target_key: Seq<char>,
)
    requires
        entries_get(response.links_by_platform@, target_key) is None,
    ensures
        spec_convert(response, source_url, target_key) == Err::<
            ConversionResultView,
            FlomErrorView,
        >(FlomErrorView::UnsupportedInput("target platform not available: "@ + target_key)),
{
}

} // verus!
