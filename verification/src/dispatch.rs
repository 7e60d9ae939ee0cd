//! The fallback handler's decisions, for every request no explicit route
//! matched: refuse any method but GET, then try a static file under the
//! served root, and only when none is there fall back to a redirect
//! lookup. Static content always wins over a stored mapping on the same
//! path.

use vstd::prelude::*;
use vstd::string::*;

use crate::assets::{confine_segments, join_segments, normalize_path, split_segments};

verus! {

/// The request methods the dispatcher distinguishes. Only GET may reach
/// the resolvers; HEAD is refused like the rest.
#[derive(PartialEq, Eq, Structural, Clone, Copy, Debug)]
pub enum Method {
    Get,
    Head,
    Post,
    Put,
    Delete,
    Other,
}

/// The dispatcher's first decision, before any file or store is touched.
#[derive(PartialEq, Eq, Debug)]
pub enum RouteDecision {
    /// The method is not GET: answer 405 and stop.
    MethodNotAllowed,
    /// Probe the served root for the confined relative path, if the
    /// request path yielded one, then fall back to the redirect lookup.
    TryServe(Option<String>),
}

/// The dispatcher's answer once the probes are in.
#[derive(PartialEq, Eq, Debug)]
pub enum FallbackResponse {
    /// A static file stands under the request path: serve it.
    ServeStatic,
    /// A stored mapping matched: redirect to its target.
    Redirect(String),
    /// Neither matched: answer 404 with the path named in the body.
    NotFound(String),
}

/// The method check of the fallback route: every method but GET is
/// refused, a GET goes on to the probes with the confined static-file
/// candidate.
pub fn route_fallback(method: Method, path: &str) -> (r: RouteDecision)
    ensures
        method != Method::Get ==> r == RouteDecision::MethodNotAllowed,
        method == Method::Get ==> r is TryServe && (r->TryServe_0 is Some <==> confine_segments(
            split_segments(path@),
        ) is Some) && (r->TryServe_0 is Some ==> r->TryServe_0->Some_0@ == join_segments(
            confine_segments(split_segments(path@))->Some_0,
        )),
{
    match method {
        Method::Get => RouteDecision::TryServe(normalize_path(path)),
        _ => RouteDecision::MethodNotAllowed,
    }
}

/// The precedence of the fallback route: a static file found under the
/// path is served, whatever the store holds; only then does a stored
/// mapping redirect; with neither the path is reported as not found.
pub fn resolve_fallback(static_found: bool, lookup: Option<String>, path: &str) -> (r:
    FallbackResponse)
    ensures
        static_found ==> r == FallbackResponse::ServeStatic,
        !static_found && lookup is Some ==> r == FallbackResponse::Redirect(lookup->Some_0),
        !static_found && lookup is None ==> r is NotFound && r->NotFound_0@ == "Path "@ + path@
            + " not found"@,
{
    if static_found {
        FallbackResponse::ServeStatic
    } else {
        match lookup {
            Some(target) => FallbackResponse::Redirect(target),
            None => {
                let body = String::from_str("Path ").concat(path).concat(" not found");
                FallbackResponse::NotFound(body)
            },
        }
    }
}

} // verus!
