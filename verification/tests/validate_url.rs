use flom::error::FlomError;
use flom::validate::validate_url;

#[test]
fn test_validate_url_valid_https() {
    assert!(validate_url("https://example.com").is_ok());
    assert!(validate_url("https://music.example.com/track/123").is_ok());
}

#[test]
fn test_validate_url_valid_http() {
    assert!(validate_url("http://example.com").is_ok());
    assert!(validate_url("http://music.example.com/album/456").is_ok());
}

#[test]
fn lib_test_validate_url_invalid() {
    let result = validate_url("not-a-url");
    assert!(matches!(result, Err(FlomError::InvalidInput(_))));
}

#[test]
fn test_validate_url_error_message() {
    let result = validate_url("://no-scheme");
    match result {
        Err(FlomError::InvalidInput(msg)) => assert!(msg.contains("invalid url")),
        _ => panic!("Expected InvalidInput error"),
    }
}

#[test]
fn test_validate_url_https() {
    assert!(validate_url("https://example.com").is_ok());
    assert!(validate_url("https://spotify.com/track/123").is_ok());
}

#[test]
fn test_validate_url_http() {
    assert!(validate_url("http://example.com").is_ok());
    assert!(validate_url("http://music.example.com/album/456").is_ok());
}

#[test]
fn converter_test_validate_url_invalid() {
    let result = validate_url("not-a-url");
    assert!(result.is_err());
    match result {
        Err(FlomError::InvalidInput(msg)) => assert!(msg.contains("invalid url")),
        _ => panic!("Expected InvalidInput error"),
    }
}

#[test]
fn test_validate_url_no_scheme() {
    let result = validate_url("://no-scheme");
    assert!(result.is_err());
    match result {
        Err(FlomError::InvalidInput(msg)) => assert!(msg.contains("invalid url")),
        _ => panic!("Expected InvalidInput error"),
    }
}

#[test]
fn lib_test_validate_url_with_valid() {
    assert!(validate_url("https://example.com").is_ok());
    assert!(validate_url("http://music.example.com/track/123").is_ok());
}

#[test]
fn lib_test_validate_url_with_invalid() {
    let result = validate_url("not-a-url");
    assert!(result.is_err());
    match result {
        Err(FlomError::InvalidInput(msg)) => assert!(msg.contains("invalid url")),
        _ => panic!("Expected InvalidInput error"),
    }

    let result = validate_url("://no-scheme");
    assert!(result.is_err());
    match result {
        Err(FlomError::InvalidInput(msg)) => assert!(msg.contains("invalid url")),
        _ => panic!("Expected InvalidInput error"),
    }
}

#[test]
fn odesli_test_validate_url_with_valid() {
    let result = url::Url::parse("https://example.com");
    assert!(result.is_ok(), "Valid https URL should parse successfully");

    let result = url::Url::parse("http://music.example.com/track/123");
    assert!(result.is_ok(), "Valid http URL should parse successfully");
}

#[test]
fn odesli_test_validate_url_with_invalid() {
    let result = url::Url::parse("not-a-url");
    assert!(result.is_err(), "Invalid URL should fail to parse");

    let result = url::Url::parse("://no-scheme");
    assert!(result.is_err(), "URL without scheme should fail to parse");
}
