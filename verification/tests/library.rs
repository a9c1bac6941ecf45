use flom::converter::TargetOption;
use flom::error::FlomError;
use flom::normalize::display_name;
use flom::odesli::{api_error, network_error, parse_error, status_is_success, OdesliLink};
use flom::present::{format_source_line, sort_targets_by_label};
use flom::result::{ConversionResult, MediaInfo};
use flom::shorten::{shorten_outcome, shorten_request_params, ShortenPayload};
use flom::strmap::StrKeyMap;
use flom::text::parse_lines;
use flom::url_convert::UrlConverter;

#[test]
fn display_name_returns_unknown_keys_unchanged() {
    assert_eq!(display_name("pandora"), "pandora");
    assert_eq!(display_name("spotify"), "Spotify");
}

#[test]
fn strmap_insert_get_and_replace() {
    let mut map: StrKeyMap<u32> = StrKeyMap::new();
    assert_eq!(map.len(), 0);
    assert!(map.get("a").is_none());
    map.insert("b".to_string(), 2);
    map.insert("a".to_string(), 1);
    map.insert("b".to_string(), 20);
    assert_eq!(map.len(), 2);
    assert_eq!(map.get("a"), Some(&1));
    assert_eq!(map.get("b"), Some(&20));
    assert_eq!(map.get("c"), None);
    assert_eq!(map.entry_at(0).0, "a");
    assert_eq!(map.entry_at(1).0, "b");
}

#[test]
fn strmap_links_hold_their_values() {
    let mut map: StrKeyMap<OdesliLink> = StrKeyMap::new();
    map.insert(
        "spotify".to_string(),
        OdesliLink {
            entity_unique_id: "e1".to_string(),
            url: "https://spotify.com/t/1".to_string(),
        },
    );
    let link = map.get("spotify").unwrap();
    assert_eq!(link.url, "https://spotify.com/t/1");
}

#[test]
fn parse_lines_trims_and_drops_empty_lines() {
    let content = "  https://a.example \n\n\thttps://b.example\r\n   \nhttps://c.example";
    assert_eq!(
        parse_lines(content),
        vec![
            "https://a.example".to_string(),
            "https://b.example".to_string(),
            "https://c.example".to_string(),
        ]
    );
    assert_eq!(parse_lines(""), Vec::<String>::new());
}

#[test]
fn format_source_line_names_what_is_known() {
    let mut result = ConversionResult {
        source_url: "https://a".to_string(),
        target_url: None,
        source_platform: Some("spotify".to_string()),
        target_platform: None,
        source_info: Some(MediaInfo {
            title: Some("Song".to_string()),
            artist: Some("Artist".to_string()),
            album: None,
        }),
        target_info: None,
        warning: None,
    };
    assert_eq!(format_source_line(&result), "spotify - Song / Artist");

    result.source_platform = None;
    result.source_info = None;
    assert_eq!(format_source_line(&result), "Unknown");

    result.source_info = Some(MediaInfo { title: None, artist: None, album: None });
    assert_eq!(
        format_source_line(&result),
        "Unknown - Unknown title / Unknown artist"
    );
}

#[test]
fn sort_targets_orders_by_label() {
    let targets = vec![
        TargetOption { key: "youtube".to_string(), label: "YouTube".to_string() },
        TargetOption { key: "appleMusic".to_string(), label: "Apple Music".to_string() },
        TargetOption { key: "tidal".to_string(), label: "Tidal".to_string() },
    ];
    let sorted = sort_targets_by_label(targets);
    let labels: Vec<&str> = sorted.iter().map(|t| t.label.as_str()).collect();
    assert_eq!(labels, vec!["Apple Music", "Tidal", "YouTube"]);
}

#[test]
fn status_is_success_covers_the_2xx_range() {
    assert!(status_is_success(200));
    assert!(status_is_success(299));
    assert!(!status_is_success(199));
    assert!(!status_is_success(301));
    assert!(!status_is_success(404));
    assert!(!status_is_success(500));
}

#[test]
fn error_builders_preserve_status_and_body() {
    match api_error("404 Not Found", "missing") {
        FlomError::Api(msg) => assert_eq!(msg, "odesli error: status=404 Not Found body=missing"),
        _ => panic!("Expected Api error"),
    }
    match network_error("timed out") {
        FlomError::Network(msg) => assert_eq!(msg, "odesli request failed: timed out"),
        _ => panic!("Expected Network error"),
    }
    match parse_error("missing field") {
        FlomError::Parse(msg) => assert_eq!(msg, "odesli response parse failed: missing field"),
        _ => panic!("Expected Parse error"),
    }
}

#[test]
fn shorten_outcome_decides_from_the_payload() {
    let ok = ShortenPayload {
        shorturl: Some("https://is.gd/x".to_string()),
        errormessage: None,
    };
    assert_eq!(shorten_outcome(ok).unwrap(), "https://is.gd/x");

    let service_error = ShortenPayload {
        shorturl: None,
        errormessage: Some("blocked".to_string()),
    };
    match shorten_outcome(service_error) {
        Err(FlomError::Api(msg)) => assert_eq!(msg, "blocked"),
        _ => panic!("Expected Api error"),
    }

    let malformed = ShortenPayload { shorturl: None, errormessage: None };
    match shorten_outcome(malformed) {
        Err(FlomError::Api(msg)) => assert_eq!(msg, "shorten response missing shorturl"),
        _ => panic!("Expected Api error"),
    }
}

#[test]
fn shorten_request_validates_first() {
    match shorten_request_params("not-a-url") {
        Err(FlomError::InvalidInput(msg)) => assert!(msg.contains("invalid url")),
        _ => panic!("Expected InvalidInput error"),
    }
    let params = shorten_request_params("https://example.com/x").unwrap();
    assert_eq!(
        params,
        vec![
            ("format".to_string(), "json".to_string()),
            ("url".to_string(), "https://example.com/x".to_string()),
        ]
    );
}

#[test]
fn url_converter_requires_a_target() {
    let converter = UrlConverter;
    let result = converter.convert("https://a.example", Some("https://b.example"));
    let conversion = result.unwrap();
    assert_eq!(conversion.source_url, "https://a.example");
    assert_eq!(conversion.target_url, Some("https://b.example".to_string()));
    assert_eq!(
        conversion.warning,
        Some("url conversion is not implemented yet".to_string())
    );

    match converter.convert("https://a.example", None) {
        Err(FlomError::UnsupportedInput(msg)) => {
            assert_eq!(msg, "target is required for url conversion")
        },
        _ => panic!("Expected UnsupportedInput error"),
    }
}
