//! The management API's decisions: create, list and delete mappings, and
//! the choice of the bearer token the route group is guarded with. The
//! HTTP transport around these — routing, JSON bodies, the bearer check
//! itself — stays outside the library.

use vstd::prelude::*;
use vstd::string::*;

use crate::links::{opt_view, CreateShortenedUrlDto, DeleteShortenedUrlDto, ShortenedUrl};
use crate::store::{contains_key, created_link, key_index, LinkStore};
use crate::text::lower_seq;
use crate::validate::{spec_validate, validate_create, ValidationError};

verus! {

/// Answer of the create operation, as the transport reports it: created
/// (no content), refused input (bad request), or an existing key
/// (conflict).
#[derive(PartialEq, Eq, Structural, Clone, Copy, Debug)]
pub enum CreateResponse {
    Created,
    BadRequest(ValidationError),
    Conflict,
}

/// Answer of the delete operation: removed (no content) or no such key
/// (not found).
#[derive(PartialEq, Eq, Structural, Clone, Copy, Debug)]
pub enum DeleteResponse {
    NoContent,
    NotFound,
}

/// Creates a mapping: validates the request in order, then inserts it,
/// surfacing an existing key as a conflict rather than overwriting.
pub fn create_url(store: &mut LinkStore, dto: &CreateShortenedUrlDto) -> (r: CreateResponse)
    requires
        old(store).wf(),
    ensures
        final(store).wf(),
        spec_validate(dto.short_url@, dto.target_url@) is Err ==> r == CreateResponse::BadRequest(
            spec_validate(dto.short_url@, dto.target_url@)->Err_0,
        ) && final(store)@ == old(store)@,
        spec_validate(dto.short_url@, dto.target_url@) is Ok && contains_key(
            old(store)@,
            lower_seq(dto.short_url@),
        ) ==> r == CreateResponse::Conflict && final(store)@ == old(store)@,
        spec_validate(dto.short_url@, dto.target_url@) is Ok && !contains_key(
            old(store)@,
            lower_seq(dto.short_url@),
        ) ==> r == CreateResponse::Created && final(store)@ == old(store)@.push(
            created_link(dto.short_url@, dto.target_url@, opt_view(dto.comment)),
        ),
{
    match validate_create(dto) {
        Err(e) => CreateResponse::BadRequest(e),
        Ok(()) => match store.insert(&dto.short_url, &dto.target_url, &dto.comment) {
            Err(_) => CreateResponse::Conflict,
            Ok(()) => CreateResponse::Created,
        },
    }
}

/// Deletes the mapping under the given short URL, reporting not-found when
/// nothing was stored under it.
pub fn delete_url(store: &mut LinkStore, dto: &DeleteShortenedUrlDto) -> (r: DeleteResponse)
    requires
        old(store).wf(),
    ensures
        final(store).wf(),
        !contains_key(old(store)@, lower_seq(dto.short_url@)) ==> r == DeleteResponse::NotFound
            && final(store)@ == old(store)@,
        contains_key(old(store)@, lower_seq(dto.short_url@)) ==> r == DeleteResponse::NoContent
            && final(store)@ == old(store)@.remove(
            key_index(old(store)@, lower_seq(dto.short_url@)),
        ) && !contains_key(final(store)@, lower_seq(dto.short_url@)),
{
    let rows = store.delete(&dto.short_url);
    if rows == 0 {
        DeleteResponse::NotFound
    } else {
        DeleteResponse::NoContent
    }
}

/// The full listing of stored links, in insertion order.
pub fn list_urls(store: &LinkStore) -> (r: Vec<ShortenedUrl>)
    ensures
        r@.map_values(|l: ShortenedUrl| l@) == store@,
{
    let all = store.list_all();
    let n = all.len();
    let mut r: Vec<ShortenedUrl> = Vec::new();
    let mut i: usize = 0;
    while i < n
        invariant
            i <= n,
            n == all@.len(),
            all@.map_values(|l: ShortenedUrl| l@) == store@,
            r@.len() == i,
            forall|t: int| 0 <= t < i ==> r@[t]@ == all@[t]@,
        decreases n - i,
    {
        r.push(all[i].duplicate());
        i = i + 1;
    }
    proof {
        assert(r@.map_values(|l: ShortenedUrl| l@) =~= all@.map_values(|l: ShortenedUrl| l@));
    }
    r
}

/// The bearer token guarding the management API, chosen at startup.
pub struct ApiKey {
    /// The token every API request must carry.
    pub token: String,
    /// Whether the publicly documented fallback is in effect, so that the
    /// operator can be warned loudly.
    pub is_default: bool,
}

/// The documented fallback bearer token, in effect when none is configured.
pub fn default_api_key() -> (r: &'static str)
    ensures
        r@ == "SUKSES_IWAG_UNTUK_BELI_TANGGA_BARU"@,
{
    "SUKSES_IWAG_UNTUK_BELI_TANGGA_BARU"
}

/// Chooses the bearer token from the configured value, falling back to the
/// documented default — and saying so — when none is set.
pub fn resolve_api_key(configured: Option<String>) -> (r: ApiKey)
    ensures
        configured is Some ==> r.token@ == configured->Some_0@ && !r.is_default,
        configured is None ==> r.token@ == "SUKSES_IWAG_UNTUK_BELI_TANGGA_BARU"@ && r.is_default,
{
    match configured {
        Some(token) => ApiKey { token, is_default: false },
        None => ApiKey { token: String::from_str(default_api_key()), is_default: true },
    }
}

} // verus!
