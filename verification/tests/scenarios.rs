use flom::converter::{MusicConverter, TargetSelection};
use flom::error::FlomError;
use flom::odesli::{OdesliClient, OdesliEntity, OdesliLink, OdesliResponse};
use flom::strmap::StrKeyMap;

fn response_with_links(keys_and_urls: &[(&str, &str)]) -> OdesliResponse {
    let mut response = OdesliResponse {
        entity_unique_id: "source-id".to_string(),
        page_url: "https://song.link/t/123".to_string(),
        links_by_platform: StrKeyMap::new(),
        entities_by_unique_id: StrKeyMap::new(),
    };
    for (index, (key, url)) in keys_and_urls.iter().enumerate() {
        response.links_by_platform.insert(
            key.to_string(),
            OdesliLink {
                entity_unique_id: format!("entity-{}", index),
                url: url.to_string(),
            },
        );
    }
    response
}

#[test]
fn specific_target_resolves_through_normalizer() {
    let source = "https://open.spotify.com/track/4Km5HrUvYTaSUfiSGPJeQR";
    let normalized = MusicConverter::normalize_target("apple-music").unwrap();
    assert_eq!(normalized, "appleMusic");

    let response = response_with_links(&[
        ("appleMusic", "https://music.apple.com/track/1"),
        ("spotify", source),
    ]);
    let result = MusicConverter::convert_from_response(&response, source, &normalized).unwrap();
    assert_eq!(result.target_platform, Some("appleMusic".to_string()));
    assert_eq!(
        result.target_url,
        Some("https://music.apple.com/track/1".to_string())
    );
}

#[test]
fn all_selection_converts_every_platform_in_key_order() {
    let response = response_with_links(&[
        ("tidal", "https://tidal.com/t/1"),
        ("spotify", "https://spotify.com/t/1"),
        ("itunes", "https://itunes.apple.com/t/1"),
    ]);
    let results = MusicConverter::plan_conversions(
        &response,
        "https://example.com/t/1",
        &TargetSelection::All,
    )
    .unwrap();
    assert_eq!(results.len(), 3);
    assert_eq!(results[0].target_platform, Some("itunes".to_string()));
    assert_eq!(results[1].target_platform, Some("spotify".to_string()));
    assert_eq!(results[2].target_platform, Some("tidal".to_string()));
}

#[test]
fn generic_page_selection_uses_the_landing_page() {
    let response = response_with_links(&[("spotify", "https://spotify.com/t/1")]);
    let results = MusicConverter::plan_conversions(
        &response,
        "https://example.com/t/1",
        &TargetSelection::GenericPage,
    )
    .unwrap();
    assert_eq!(results.len(), 1);
    assert_eq!(results[0].target_url, Some("https://song.link/t/123".to_string()));
    assert_eq!(results[0].target_platform, Some("songlink".to_string()));
    assert_eq!(results[0].source_info, None);
    assert_eq!(results[0].target_info, None);
}

#[test]
fn invalid_url_is_rejected_before_any_request_exists() {
    let client = OdesliClient::new(None, "US".to_string());
    let result = client.request_params("not-a-url");
    match result {
        Err(FlomError::InvalidInput(msg)) => assert!(msg.contains("invalid url")),
        _ => panic!("Expected InvalidInput error before any request is built"),
    }
}

#[test]
fn request_params_carry_url_country_and_key() {
    let client = OdesliClient::new(Some("secret".to_string()), "DE".to_string());
    let params = client.request_params("https://example.com/t/1").unwrap();
    assert_eq!(
        params,
        vec![
            ("url".to_string(), "https://example.com/t/1".to_string()),
            ("userCountry".to_string(), "DE".to_string()),
            ("key".to_string(), "secret".to_string()),
        ]
    );

    let keyless = OdesliClient::new(Some("   ".to_string()), "US".to_string());
    let params = keyless.request_params("https://example.com/t/1").unwrap();
    assert_eq!(
        params,
        vec![
            ("url".to_string(), "https://example.com/t/1".to_string()),
            ("userCountry".to_string(), "US".to_string()),
        ]
    );
}

#[test]
fn missing_target_yields_unsupported_input_naming_the_key() {
    let response = response_with_links(&[("spotify", "https://spotify.com/t/1")]);
    let result =
        MusicConverter::convert_from_response(&response, "https://example.com/t/1", "tidal");
    match result {
        Err(FlomError::UnsupportedInput(msg)) => {
            assert_eq!(msg, "target platform not available: tidal")
        },
        _ => panic!("Expected UnsupportedInput error"),
    }
}

#[test]
fn conversion_is_deterministic_across_repeated_calls() {
    let mut response = response_with_links(&[
        ("spotify", "https://spotify.com/t/1"),
        ("tidal", "https://tidal.com/t/1"),
    ]);
    response.entities_by_unique_id.insert(
        "source-id".to_string(),
        OdesliEntity {
            id: None,
            title: Some("Song".to_string()),
            artist_name: Some("Artist".to_string()),
            album_name: None,
            api_provider: None,
        },
    );
    let first =
        MusicConverter::convert_from_response(&response, "https://spotify.com/t/1", "tidal")
            .unwrap();
    let second =
        MusicConverter::convert_from_response(&response, "https://spotify.com/t/1", "tidal")
            .unwrap();
    assert_eq!(first, second);
}

#[test]
fn source_platform_falls_back_to_the_matching_link() {
    let mut response = response_with_links(&[
        ("spotify", "https://spotify.com/t/1"),
        ("tidal", "https://tidal.com/t/1"),
    ]);
    response.entities_by_unique_id.insert(
        "source-id".to_string(),
        OdesliEntity {
            id: None,
            title: None,
            artist_name: None,
            album_name: None,
            api_provider: None,
        },
    );
    let result =
        MusicConverter::convert_from_response(&response, "https://spotify.com/t/1", "tidal")
            .unwrap();
    assert_eq!(result.source_platform, Some("spotify".to_string()));

    let unmatched =
        MusicConverter::convert_from_response(&response, "https://spotify.com/t/1?x=1", "tidal")
            .unwrap();
    assert_eq!(unmatched.source_platform, None);
}

#[test]
fn reported_provider_wins_over_inference() {
    let mut response = response_with_links(&[("tidal", "https://tidal.com/t/1")]);
    response.entities_by_unique_id.insert(
        "source-id".to_string(),
        OdesliEntity {
            id: None,
            title: None,
            artist_name: None,
            album_name: None,
            api_provider: Some("deezer".to_string()),
        },
    );
    let result =
        MusicConverter::convert_from_response(&response, "https://tidal.com/t/1", "tidal").unwrap();
    assert_eq!(result.source_platform, Some("deezer".to_string()));
}

#[test]
fn select_target_reads_the_literals_and_the_table() {
    assert_eq!(
        MusicConverter::select_target("ALL").unwrap(),
        TargetSelection::All
    );
    assert_eq!(
        MusicConverter::select_target(" songlink ").unwrap(),
        TargetSelection::GenericPage
    );
    assert_eq!(
        MusicConverter::select_target("Apple-Music").unwrap(),
        TargetSelection::Specific("appleMusic".to_string())
    );
    match MusicConverter::select_target("vinyl") {
        Err(FlomError::InvalidInput(msg)) => assert_eq!(msg, "unknown target: vinyl"),
        _ => panic!("Expected InvalidInput error"),
    }
}

#[test]
fn choose_target_prefers_non_blank_explicit() {
    assert_eq!(
        MusicConverter::choose_target(Some("tidal"), Some("spotify")),
        Some("tidal".to_string())
    );
    assert_eq!(
        MusicConverter::choose_target(Some("  "), Some("spotify")),
        Some("spotify".to_string())
    );
    assert_eq!(
        MusicConverter::choose_target(None, Some("spotify")),
        Some("spotify".to_string())
    );
    assert_eq!(MusicConverter::choose_target(None, None), None);
}
