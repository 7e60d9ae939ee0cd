use shortlink::api::{
    create_url, default_api_key, delete_url, list_urls, resolve_api_key, CreateResponse,
    DeleteResponse,
};
use shortlink::links::{CreateShortenedUrlDto, DeleteShortenedUrlDto};
use shortlink::store::LinkStore;
use shortlink::validate::ValidationError;

fn dto(short: &str, target: &str, comment: Option<&str>) -> CreateShortenedUrlDto {
    CreateShortenedUrlDto {
        short_url: short.to_string(),
        target_url: target.to_string(),
        comment: comment.map(|c| c.to_string()),
    }
}

#[test]
fn create_then_list_includes_the_link_once() {
    let mut store = LinkStore::new();
    let r = create_url(&mut store, &dto("/news", "https://news.example", Some("front page")));
    assert_eq!(r, CreateResponse::Created);
    let listed = list_urls(&store);
    assert_eq!(listed.len(), 1);
    assert_eq!(listed[0].short_url, "/news");
    assert_eq!(listed[0].target_url, "https://news.example");
    assert_eq!(listed[0].comment.as_deref(), Some("front page"));
    assert!(listed[0].active);
}

#[test]
fn create_refuses_bad_short_url() {
    let mut store = LinkStore::new();
    let r = create_url(&mut store, &dto("oops", "https://example.com", None));
    assert_eq!(
        r,
        CreateResponse::BadRequest(ValidationError::ShortUrlNoLeadingSlash)
    );
    assert_eq!(store.len(), 0);
}

#[test]
fn create_refuses_non_https_target() {
    let mut store = LinkStore::new();
    let r = create_url(&mut store, &dto("/ok", "http://insecure", None));
    assert_eq!(r, CreateResponse::BadRequest(ValidationError::TargetUrlNotHttps));
    assert_eq!(store.len(), 0);
}

#[test]
fn create_surfaces_existing_key_as_conflict() {
    let mut store = LinkStore::new();
    assert_eq!(
        create_url(&mut store, &dto("/dup", "https://first.example", None)),
        CreateResponse::Created
    );
    assert_eq!(
        create_url(&mut store, &dto("/dup", "https://second.example", None)),
        CreateResponse::Conflict
    );
    assert_eq!(store.lookup("/dup").as_deref(), Some("https://first.example"));
}

#[test]
fn delete_of_unknown_key_is_not_found() {
    let mut store = LinkStore::new();
    let r = delete_url(&mut store, &DeleteShortenedUrlDto { short_url: "/ghost".to_string() });
    assert_eq!(r, DeleteResponse::NotFound);
}

#[test]
fn delete_of_known_key_removes_it() {
    let mut store = LinkStore::new();
    create_url(&mut store, &dto("/tmp", "https://tmp.example", None));
    let r = delete_url(&mut store, &DeleteShortenedUrlDto { short_url: "/tmp".to_string() });
    assert_eq!(r, DeleteResponse::NoContent);
    assert_eq!(store.lookup("/tmp"), None);
}

#[test]
fn parallel_style_creations_are_both_kept() {
    let mut store = LinkStore::new();
    assert_eq!(
        create_url(&mut store, &dto("/left", "https://left.example", None)),
        CreateResponse::Created
    );
    assert_eq!(
        create_url(&mut store, &dto("/right", "https://right.example", None)),
        CreateResponse::Created
    );
    let listed = list_urls(&store);
    assert_eq!(listed.iter().filter(|l| l.short_url == "/left").count(), 1);
    assert_eq!(listed.iter().filter(|l| l.short_url == "/right").count(), 1);
}

#[test]
fn configured_api_key_is_used_as_given() {
    let key = resolve_api_key(Some("operator-chosen-token".to_string()));
    assert_eq!(key.token, "operator-chosen-token");
    assert!(!key.is_default);
}

#[test]
fn missing_api_key_falls_back_to_documented_default() {
    let key = resolve_api_key(None);
    assert_eq!(key.token, default_api_key());
    assert!(key.is_default);
}
