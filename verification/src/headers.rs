use vstd::prelude::*;

use crate::cache::{cache_policy, cache_policy_for, lemma_assets_are_immutable};
use crate::text::{after_last_dot, is_prefix};

verus! {

/// A response header as its name and value.
pub open spec fn header_view(h: (&'static str, &'static str)) -> (Seq<char>, Seq<char>) {
    (h.0@, h.1@)
}

/// The security headers that every response carries, whatever its path.
pub open spec fn security_policy_headers() -> Seq<(Seq<char>, Seq<char>)> {
    seq![
        ("referrer-policy"@, "no-referrer"@),
        ("permissions-policy"@, "camera=(), microphone=(), geolocation=()"@),
        ("cross-origin-opener-policy"@, "same-origin"@),
        ("strict-transport-security"@, "max-age=31536000; includeSubDomains"@),
        ("content-security-policy"@, "default-src 'self'; img-src 'self' data:; style-src 'self' 'unsafe-inline'; script-src 'self'; connect-src 'self' https://api.sociobot.in; base-uri 'self'; frame-ancestors 'none'; form-action 'self' https://api.sociobot.in"@),
    ]
}

/// The headers written over every response to a request for `path`: the
/// security headers and, where the path has a caching policy, its
/// `Cache-Control`.
pub open spec fn response_headers(path: Seq<char>) -> Seq<(Seq<char>, Seq<char>)> {
    match cache_policy(path) {
        Some(policy) => security_policy_headers().push(("cache-control"@, policy.header_text())),
        None => security_policy_headers(),
    }
}

/// The headers to write over the response to a request for `path`, in
/// order; each replaces a header of the same name.
pub fn security_headers(path: &str) -> (r: Vec<(&'static str, &'static str)>)
    ensures
        r@.map_values(|h: (&'static str, &'static str)| header_view(h)) == response_headers(path@),
{
    let mut r: Vec<(&'static str, &'static str)> = Vec::new();
    r.push(("referrer-policy", "no-referrer"));
    r.push(("permissions-policy", "camera=(), microphone=(), geolocation=()"));
    r.push(("cross-origin-opener-policy", "same-origin"));
    r.push(("strict-transport-security", "max-age=31536000; includeSubDomains"));
    r.push(
        (
            "content-security-policy",
            "default-src 'self'; img-src 'self' data:; style-src 'self' 'unsafe-inline'; script-src 'self'; connect-src 'self' https://api.sociobot.in; base-uri 'self'; frame-ancestors 'none'; form-action 'self' https://api.sociobot.in",
        ),
    );
    match cache_policy_for(path) {
        Some(policy) => {
            r.push(("cache-control", policy.header_value()));
        },
        None => {},
    }
    assert(r@.map_values(|h: (&'static str, &'static str)| header_view(h)) =~= response_headers(
        path@,
    ));
    r
}

/// Every response carries the same five security headers, in this order
/// and with these values, whatever its path; where the path has a caching
/// policy, one more header follows: `Cache-Control` with the value of that
/// path's own policy, and nothing else.
pub proof fn lemma_security_headers_on_every_response(path: Seq<char>)
    ensures
        response_headers(path).len() >= 5,
        response_headers(path)[0] == ("referrer-policy"@, "no-referrer"@),
        response_headers(path)[1] == ("permissions-policy"@, "camera=(), microphone=(), geolocation=()"@),
        response_headers(path)[2] == ("cross-origin-opener-policy"@, "same-origin"@),
        response_headers(path)[3] == ("strict-transport-security"@, "max-age=31536000; includeSubDomains"@),
        response_headers(path)[4] == ("content-security-policy"@, "default-src 'self'; img-src 'self' data:; style-src 'self' 'unsafe-inline'; script-src 'self'; connect-src 'self' https://api.sociobot.in; base-uri 'self'; frame-ancestors 'none'; form-action 'self' https://api.sociobot.in"@),
        cache_policy(path) is None ==> response_headers(path).len() == 5,
        cache_policy(path) matches Some(policy) ==> response_headers(path).len() == 6
            && response_headers(path)[5] == ("cache-control"@, policy.header_text()),
{
}

/// The caching header follows the path's policy: API answers carry
/// `Cache-Control: no-store`, and assets (see
/// `lemma_assets_are_immutable`) carry
/// `Cache-Control: public, max-age=31536000, immutable`.
pub proof fn lemma_cache_header_values(path: Seq<char>, ext: Seq<char>)
    ensures
        is_prefix("/api/"@, path) ==> response_headers(path).last() == ("cache-control"@, "no-store"@),
        path == "/health"@ ==> response_headers(path).last() == ("cache-control"@, "no-store"@),
        after_last_dot(path) == Some(ext) && (ext == "js"@ || ext == "css"@ || ext == "svg"@ || ext
            == "webp"@ || ext == "avif"@ || ext == "png"@ || ext == "jpg"@ || ext == "jpeg"@ || ext
            == "gif"@ || ext == "ico"@ || ext == "woff2"@) && !is_prefix("/api/"@, path) && path
            != "/sw.js"@ ==> response_headers(path).last() == (
            "cache-control"@,
            "public, max-age=31536000, immutable"@,
        ),
{
    if after_last_dot(path) == Some(ext) && (ext == "js"@ || ext == "css"@ || ext == "svg"@ || ext
        == "webp"@ || ext == "avif"@ || ext == "png"@ || ext == "jpg"@ || ext == "jpeg"@ || ext
        == "gif"@ || ext == "ico"@ || ext == "woff2"@) && !is_prefix("/api/"@, path) && path
        != "/sw.js"@ {
        lemma_assets_are_immutable(path, ext);
    }
}

/// The one header set only where missing is `X-Content-Type-Options: nosniff`.
pub proof fn lemma_fallback_headers()
    ensures
        fallback_headers() == seq![("x-content-type-options"@, "nosniff"@)],
{
}

/// Headers set on a response only where it does not carry one of the same
/// name already.
pub open spec fn fallback_headers() -> Seq<(Seq<char>, Seq<char>)> {
    seq![("x-content-type-options"@, "nosniff"@)]
}

/// The headers to add to a response only where it lacks them.
pub fn default_headers() -> (r: Vec<(&'static str, &'static str)>)
    ensures
        r@.map_values(|h: (&'static str, &'static str)| header_view(h)) == fallback_headers(),
{
    let mut r: Vec<(&'static str, &'static str)> = Vec::new();
    r.push(("x-content-type-options", "nosniff"));
    assert(r@.map_values(|h: (&'static str, &'static str)| header_view(h)) =~= fallback_headers());
    r
}

} // verus!
