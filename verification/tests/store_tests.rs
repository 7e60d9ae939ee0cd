use shortlink::links::{CreateShortenedUrlDto, DeleteShortenedUrlDto};
use shortlink::store::{LinkStore, StoreError};

fn create_dto(short: &str, target: &str, comment: Option<&str>) -> CreateShortenedUrlDto {
    CreateShortenedUrlDto {
        short_url: short.to_string(),
        target_url: target.to_string(),
        comment: comment.map(|c| c.to_string()),
    }
}

#[test]
fn new_store_is_empty() {
    let store = LinkStore::new();
    assert_eq!(store.len(), 0);
    assert!(store.list_all().is_empty());
}

#[test]
fn inserted_link_is_listed_exactly_once() {
    let mut store = LinkStore::new();
    let r = store.insert(
        &"/docs".to_string(),
        &"https://example.com/docs".to_string(),
        &Some("manuals".to_string()),
    );
    assert!(r.is_ok());
    let listed = store.list_all();
    assert_eq!(listed.len(), 1);
    let hits: Vec<_> = listed.iter().filter(|l| l.short_url == "/docs").collect();
    assert_eq!(hits.len(), 1);
    assert_eq!(hits[0].target_url, "https://example.com/docs");
    assert_eq!(hits[0].comment.as_deref(), Some("manuals"));
    assert!(hits[0].active);
}

#[test]
fn duplicate_insert_conflicts_and_keeps_original() {
    let mut store = LinkStore::new();
    store
        .insert(&"/a".to_string(), &"https://first.example".to_string(), &None)
        .unwrap();
    let r = store.insert(&"/a".to_string(), &"https://second.example".to_string(), &None);
    assert_eq!(r, Err(StoreError::Conflict));
    assert_eq!(store.len(), 1);
    assert_eq!(store.lookup("/a").as_deref(), Some("https://first.example"));
}

#[test]
fn duplicate_insert_differing_in_case_conflicts() {
    let mut store = LinkStore::new();
    store
        .insert(&"/Blog".to_string(), &"https://blog.example".to_string(), &None)
        .unwrap();
    let r = store.insert(&"/blog".to_string(), &"https://other.example".to_string(), &None);
    assert_eq!(r, Err(StoreError::Conflict));
    assert_eq!(store.lookup("/BLOG").as_deref(), Some("https://blog.example"));
}

#[test]
fn delete_of_absent_key_affects_no_rows() {
    let mut store = LinkStore::new();
    store
        .insert(&"/kept".to_string(), &"https://kept.example".to_string(), &None)
        .unwrap();
    assert_eq!(store.delete(&"/missing".to_string()), 0);
    assert_eq!(store.len(), 1);
}

#[test]
fn deleted_key_is_no_longer_found() {
    let mut store = LinkStore::new();
    store
        .insert(&"/gone".to_string(), &"https://gone.example".to_string(), &None)
        .unwrap();
    assert_eq!(store.delete(&"/gone".to_string()), 1);
    assert_eq!(store.lookup("/gone"), None);
    assert_eq!(store.len(), 0);
}

#[test]
fn two_distinct_creations_both_appear() {
    let mut store = LinkStore::new();
    assert!(store
        .insert(&"/one".to_string(), &"https://one.example".to_string(), &None)
        .is_ok());
    assert!(store
        .insert(&"/two".to_string(), &"https://two.example".to_string(), &None)
        .is_ok());
    let listed = store.list_all();
    assert_eq!(listed.len(), 2);
    assert_eq!(listed.iter().filter(|l| l.short_url == "/one").count(), 1);
    assert_eq!(listed.iter().filter(|l| l.short_url == "/two").count(), 1);
}

#[test]
fn link_stored_with_upper_case_is_reachable_lower_cased() {
    let mut store = LinkStore::new();
    store
        .insert(&"/Foo".to_string(), &"https://foo.example".to_string(), &None)
        .unwrap();
    assert_eq!(store.lookup("/foo").as_deref(), Some("https://foo.example"));
    assert_eq!(store.lookup("/FOO").as_deref(), Some("https://foo.example"));
}

#[test]
fn lookup_of_unknown_path_is_none() {
    let store = LinkStore::new();
    assert_eq!(store.lookup("/nowhere"), None);
}

#[test]
fn dto_field_shapes_carry_over() {
    let dto = create_dto("/x", "https://x.example", None);
    assert_eq!(dto.short_url, "/x");
    assert_eq!(dto.comment, None);
    let del = DeleteShortenedUrlDto { short_url: "/x".to_string() };
    assert_eq!(del.short_url, "/x");
}
