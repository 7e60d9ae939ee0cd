//! The persisted entity of the service: a mapping from a short path to a
//! target URL, with an optional comment and an active flag.

use vstd::prelude::*;
use vstd::string::*;

verus! {

/// Mathematical model of one stored link.
pub struct LinkModel {
    pub short_url: Seq<char>,
    pub target_url: Seq<char>,
    pub comment: Option<Seq<char>>,
    pub active: bool,
}

/// One stored short-URL mapping, as listed by the management API.
pub struct ShortenedUrl {
    pub short_url: String,
    pub target_url: String,
    pub comment: Option<String>,
    pub active: bool,
}

impl View for ShortenedUrl {
    type V = LinkModel;

    open spec fn view(&self) -> LinkModel {
        LinkModel {
            short_url: self.short_url@,
            target_url: self.target_url@,
            comment: match self.comment {
                Some(c) => Some(c@),
                None => None,
            },
            active: self.active,
        }
    }
}

impl ShortenedUrl {
    /// A deep copy whose model equals this one's.
    pub fn duplicate(&self) -> (r: ShortenedUrl)
        ensures
            r@ == self@,
    {
        ShortenedUrl {
            short_url: self.short_url.clone(),
            target_url: self.target_url.clone(),
            comment: match &self.comment {
                Some(c) => Some(c.clone()),
                None => None,
            },
            active: self.active,
        }
    }
}

/// The model of an optional free-text comment.
pub open spec fn opt_view(c: Option<String>) -> Option<Seq<char>> {
    match c {
        Some(s) => Some(s@),
        None => None,
    }
}

/// Request body of the create operation of the management API.
pub struct CreateShortenedUrlDto {
    pub short_url: String,
    pub target_url: String,
    pub comment: Option<String>,
}

/// Request body of the delete operation of the management API.
pub struct DeleteShortenedUrlDto {
    pub short_url: String,
}

} // verus!
