use flom::apple_music::parse_apple_music_track_id;
use flom::spotify::parse_spotify_track_id;

#[test]
fn parses_spotify_track_id() {
    let url = "https://open.spotify.com/track/4Km5HrUvYTaSUfiSGPJeQR";
    assert_eq!(
        parse_spotify_track_id(url),
        Some("4Km5HrUvYTaSUfiSGPJeQR".to_string())
    );
}

#[test]
fn parses_spotify_track_id_with_locale() {
    let url = "https://open.spotify.com/intl-ja/track/4Km5HrUvYTaSUfiSGPJeQR";
    assert_eq!(
        parse_spotify_track_id(url),
        Some("4Km5HrUvYTaSUfiSGPJeQR".to_string())
    );
}

#[test]
fn parses_apple_music_track_id_from_query() {
    let url = "https://music.apple.com/us/album/blinding-lights/1496794033?i=1496794038";
    assert_eq!(
        parse_apple_music_track_id(url),
        Some("1496794038".to_string())
    );
}

#[test]
fn spotify_track_id_absent_for_other_urls() {
    assert_eq!(parse_spotify_track_id("https://example.com"), None);
    assert_eq!(parse_spotify_track_id("https://open.spotify.com/album/xyz"), None);
    assert_eq!(parse_spotify_track_id(""), None);
}

#[test]
fn apple_track_id_from_album_path() {
    let url = "https://music.apple.com/us/album/blinding-lights/1496794033";
    assert_eq!(
        parse_apple_music_track_id(url),
        Some("1496794033".to_string())
    );
}

#[test]
fn apple_track_id_absent_off_domain() {
    assert_eq!(parse_apple_music_track_id("https://example.com/album/x/123"), None);
    assert_eq!(parse_apple_music_track_id("not-a-url"), None);
}
