use shortlink::links::CreateShortenedUrlDto;
use shortlink::validate::{validate_create, ValidationError};

fn dto(short: &str, target: &str) -> CreateShortenedUrlDto {
    CreateShortenedUrlDto {
        short_url: short.to_string(),
        target_url: target.to_string(),
        comment: None,
    }
}

#[test]
fn short_url_without_leading_slash_is_refused() {
    let r = validate_create(&dto("no-leading-slash", "https://example.com"));
    assert_eq!(r, Err(ValidationError::ShortUrlNoLeadingSlash));
}

#[test]
fn target_url_must_be_https() {
    let r = validate_create(&dto("/ok", "http://insecure"));
    assert_eq!(r, Err(ValidationError::TargetUrlNotHttps));
}

#[test]
fn unparseable_target_url_is_refused() {
    let r = validate_create(&dto("/ok", "https://[half-an-address"));
    assert_eq!(r, Err(ValidationError::TargetUrlUnparseable));
}

#[test]
fn well_formed_request_passes() {
    let r = validate_create(&dto("/ok", "https://example.com/path?q=1"));
    assert_eq!(r, Ok(()));
}

#[test]
fn checks_run_in_order_and_first_failure_wins() {
    // Both the short URL and the target are wrong: the short URL's check
    // comes first.
    let r = validate_create(&dto("bad", "ftp://example.com"));
    assert_eq!(r, Err(ValidationError::ShortUrlNoLeadingSlash));
}
