//! Input validation for the create operation of the management API: an
//! ordered chain of predicate checks, stopping at the first that fails.

use vstd::prelude::*;
use vstd::string::*;

use crate::links::CreateShortenedUrlDto;
use crate::text::{has_prefix, starts_with_str};

verus! {

/// Whether the URL parser accepts the string as an absolute URL.
pub uninterp spec fn parses_as_url(s: Seq<char>) -> bool;

/// Relies on `url::Url::parse`: it returns `Ok` exactly when its input
/// parses as an absolute URL, and its verdict depends on the input alone.
#[verifier::external_body]
fn url_parse_ok(s: &str) -> (r: bool)
    ensures
        r == parses_as_url(s@),
{
    url::Url::parse(s).is_ok()
}

/// The reasons a create request is refused.
#[derive(PartialEq, Eq, Structural, Clone, Copy, Debug)]
pub enum ValidationError {
    /// The short URL does not start with `/`.
    ShortUrlNoLeadingSlash,
    /// The target URL does not start with `https://`.
    TargetUrlNotHttps,
    /// The target URL does not parse as an absolute URL.
    TargetUrlUnparseable,
}

/// The validation verdict on a create request: the checks run in order and
/// the first failure wins.
pub open spec fn spec_validate(
    short_url: Seq<char>,
    target_url: Seq<char>,
) -> Result<(), ValidationError> {
    if !has_prefix(short_url, "/"@) {
        Err(ValidationError::ShortUrlNoLeadingSlash)
    } else if !has_prefix(target_url, "https://"@) {
        Err(ValidationError::TargetUrlNotHttps)
    } else if !parses_as_url(target_url) {
        Err(ValidationError::TargetUrlUnparseable)
    } else {
        Ok(())
    }
}

/// Checks a create request: the short URL must start with `/`, the target
/// URL must start with `https://` and must parse as an absolute URL. A
/// target that passed the prefix check and parses necessarily carries the
/// scheme `https`.
pub fn validate_create(dto: &CreateShortenedUrlDto) -> (r: Result<(), ValidationError>)
    ensures
        r == spec_validate(dto.short_url@, dto.target_url@),
{
    if !starts_with_str(dto.short_url.as_str(), "/") {
        Err(ValidationError::ShortUrlNoLeadingSlash)
    } else if !starts_with_str(dto.target_url.as_str(), "https://") {
        Err(ValidationError::TargetUrlNotHttps)
    } else if !url_parse_ok(dto.target_url.as_str()) {
        Err(ValidationError::TargetUrlUnparseable)
    } else {
        Ok(())
    }
}

} // verus!
