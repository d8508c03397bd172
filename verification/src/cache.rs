use vstd::prelude::*;

use crate::text::{
    after_last_dot, lemma_after_last_dot_at, lemma_last_index_none, lemma_not_suffix_at, chars_of, ends_with, find_last, is_prefix, is_suffix, is_text, starts_with,
    tail_from,
};

verus! {

/// How long a client may keep a response.
#[derive(PartialEq, Eq, Structural, Clone, Copy, Debug)]
pub enum CachePolicy {
    /// Never stored: health reports and API answers.
    NoStore,
    /// Stored, but checked again before every use: the documents and the
    /// service worker through which a new release is discovered.
    Revalidate,
    /// Reused for a year without asking: fingerprinted assets and images.
    Immutable,
}

impl CachePolicy {
    /// The `Cache-Control` value of the policy.
    pub open spec fn header_text(self) -> Seq<char> {
        match self {
            CachePolicy::NoStore => "no-store"@,
            CachePolicy::Revalidate => "no-cache"@,
            CachePolicy::Immutable => "public, max-age=31536000, immutable"@,
        }
    }

    /// The `Cache-Control` value of the policy.
    pub fn header_value(&self) -> (r: &'static str)
        ensures
            r@ == self.header_text(),
    {
        match self {
            CachePolicy::NoStore => "no-store",
            CachePolicy::Revalidate => "no-cache",
            CachePolicy::Immutable => "public, max-age=31536000, immutable",
        }
    }
}

/// The health report and everything under `/api/`.
pub open spec fn is_uncacheable_path(path: Seq<char>) -> bool {
    path == "/health"@ || is_prefix("/api/"@, path)
}

/// The application shell's routes, HTML documents and the entry points
/// through which the browser learns of a new release.
pub open spec fn is_release_document(path: Seq<char>) -> bool {
    ||| path == "/"@
    ||| path == "/demo"@
    ||| path == "/privacy"@
    ||| path == "/terms"@
    ||| is_suffix(".html"@, path)
    ||| path == "/sw.js"@
    ||| path == "/manifest.webmanifest"@
    ||| path == "/robots.txt"@
    ||| path == "/sitemap.xml"@
}

/// File extensions of assets that never change under the same name.
pub open spec fn is_immutable_extension(ext: Seq<char>) -> bool {
    ||| ext == "js"@
    ||| ext == "css"@
    ||| ext == "svg"@
    ||| ext == "webp"@
    ||| ext == "avif"@
    ||| ext == "png"@
    ||| ext == "jpg"@
    ||| ext == "jpeg"@
    ||| ext == "gif"@
    ||| ext == "ico"@
    ||| ext == "woff2"@
}

/// The caching policy of a request path; the first rule that matches wins.
pub open spec fn cache_policy(path: Seq<char>) -> Option<CachePolicy> {
    if is_uncacheable_path(path) {
        Some(CachePolicy::NoStore)
    } else if is_release_document(path) {
        Some(CachePolicy::Revalidate)
    } else if after_last_dot(path) matches Some(ext) && is_immutable_extension(ext) {
        Some(CachePolicy::Immutable)
    } else {
        None
    }
}

/// The health report and every API answer are never stored, whatever else
/// their path looks like.
pub proof fn lemma_api_answers_never_stored(path: Seq<char>)
    requires
        path == "/health"@ || is_prefix("/api/"@, path),
    ensures
        cache_policy(path) == Some(CachePolicy::NoStore),
{
}

/// A path is kept for a year only where it is neither an API path nor a
/// release document, and its extension is one of the fingerprinted asset
/// kinds.
pub proof fn lemma_immutable_only_for_assets(path: Seq<char>)
    requires
        cache_policy(path) == Some(CachePolicy::Immutable),
    ensures
        !is_uncacheable_path(path),
        !is_release_document(path),
        after_last_dot(path) matches Some(ext) && is_immutable_extension(ext),
{
}

/// The `Cache-Control` values of the three policies.
pub proof fn lemma_policy_header_values()
    ensures
        CachePolicy::NoStore.header_text() == "no-store"@,
        CachePolicy::Revalidate.header_text() == "no-cache"@,
        CachePolicy::Immutable.header_text() == "public, max-age=31536000, immutable"@,
{
}

/// A path without a dot has no extension.
proof fn lemma_no_extension(path: Seq<char>)
    requires
        forall|j: int| 0 <= j < path.len() ==> path[j] != '.',
    ensures
        after_last_dot(path) is None,
{
    lemma_last_index_none(path, '.');
}

/// Every asset file is kept for a year: a path whose text after its last
/// dot is `js`, `css`, `svg`, `webp`, `avif`, `png`, `jpg`, `jpeg`, `gif`,
/// `ico` or `woff2` is answered with `public, max-age=31536000, immutable`,
/// unless it is an API path or the service worker `/sw.js`, which a new
/// release must replace.
pub proof fn lemma_assets_are_immutable(path: Seq<char>, ext: Seq<char>)
    requires
        after_last_dot(path) == Some(ext),
        ext == "js"@ || ext == "css"@ || ext == "svg"@ || ext == "webp"@ || ext == "avif"@
            || ext == "png"@ || ext == "jpg"@ || ext == "jpeg"@ || ext == "gif"@ || ext == "ico"@
            || ext == "woff2"@,
        !is_prefix("/api/"@, path),
        path != "/sw.js"@,
    ensures
        cache_policy(path) == Some(CachePolicy::Immutable),
        cache_policy(path)->0.header_text() == "public, max-age=31536000, immutable"@,
{
    reveal_strlit("js");
    reveal_strlit("css");
    reveal_strlit("svg");
    reveal_strlit("webp");
    reveal_strlit("avif");
    reveal_strlit("png");
    reveal_strlit("jpg");
    reveal_strlit("jpeg");
    reveal_strlit("gif");
    reveal_strlit("ico");
    reveal_strlit("woff2");
    reveal_strlit("html");
    reveal_strlit("webmanifest");
    reveal_strlit("txt");
    reveal_strlit("xml");
    reveal_strlit(".html");
    reveal_strlit("/health");
    reveal_strlit("/");
    reveal_strlit("/demo");
    reveal_strlit("/privacy");
    reveal_strlit("/terms");
    reveal_strlit("/manifest.webmanifest");
    reveal_strlit("/robots.txt");
    reveal_strlit("/sitemap.xml");
    assert(ext.len() > 0 && ext[0] != 'h' && ext[0] != 't' && ext[0] != 'x' && ext[0] != 'w' || ext
        == "webp"@ || ext == "woff2"@);
    assert(ext != "html"@) by {
        if ext == "html"@ {
            assert(ext[0] == 'h');
        }
    }
    assert(ext != "txt"@) by {
        if ext == "txt"@ {
            assert(ext[0] == 't');
        }
    }
    assert(ext != "xml"@) by {
        if ext == "xml"@ {
            assert(ext[0] == 'x');
        }
    }
    assert(ext != "webmanifest"@) by {
        if ext == "webmanifest"@ {
            assert(ext[0] == 'w' && ext.len() == 11);
        }
    }
    if path == "/health"@ || path == "/"@ || path == "/demo"@ || path == "/privacy"@ || path
        == "/terms"@ {
        lemma_no_extension(path);
    }
    if path == "/manifest.webmanifest"@ {
        lemma_after_last_dot_at(path, 9);
        assert(path.skip(10) =~= "webmanifest"@);
    }
    if path == "/robots.txt"@ {
        lemma_after_last_dot_at(path, 7);
        assert(path.skip(8) =~= "txt"@);
    }
    if path == "/sitemap.xml"@ {
        lemma_after_last_dot_at(path, 8);
        assert(path.skip(9) =~= "xml"@);
    }
    if is_suffix(".html"@, path) {
        let d = path.len() - 5;
        assert(path[d] == '.') by {
            assert(path.skip(d)[0] == path[d]);
        }
        assert forall|j: int| d < j < path.len() implies path[j] != '.' by {
            assert(path.skip(d)[j - d] == path[j]);
        }
        lemma_after_last_dot_at(path, d);
        assert(path.skip(d + 1) =~= "html"@) by {
            assert forall|k: int| 0 <= k < 4 implies path.skip(d + 1)[k] == "html"@[k] by {
                assert(path.skip(d + 1)[k] == path.skip(d)[k + 1]);
            }
        }
    }
}

/// The documents through which a browser discovers a new release are
/// revalidated before each use: the shell routes `/`, `/demo`, `/privacy`,
/// `/terms`, every `.html` file, the service worker `/sw.js`, the manifest,
/// `/robots.txt` and `/sitemap.xml`, unless under `/api/`.
pub proof fn lemma_release_documents_revalidated(path: Seq<char>)
    requires
        !is_prefix("/api/"@, path),
        path == "/"@ || path == "/demo"@ || path == "/privacy"@ || path == "/terms"@ || path
            == "/sw.js"@ || path == "/manifest.webmanifest"@ || path == "/robots.txt"@ || path
            == "/sitemap.xml"@ || is_suffix(".html"@, path),
    ensures
        cache_policy(path) == Some(CachePolicy::Revalidate),
        cache_policy(path)->0.header_text() == "no-cache"@,
{
    reveal_strlit("/health");
    reveal_strlit(".html");
    reveal_strlit("/");
    reveal_strlit("/demo");
    reveal_strlit("/privacy");
    reveal_strlit("/terms");
    reveal_strlit("/sw.js");
    reveal_strlit("/manifest.webmanifest");
    reveal_strlit("/robots.txt");
    reveal_strlit("/sitemap.xml");
    if path == "/health"@ {
        lemma_not_suffix_at(".html"@, path, 0);
    }
}

/// Paths that are neither API paths nor release documents and have no
/// asset extension get no caching header at all.
pub proof fn lemma_other_paths_uncached(path: Seq<char>)
    requires
        !is_prefix("/api/"@, path),
        path != "/health"@,
        !(path == "/"@ || path == "/demo"@ || path == "/privacy"@ || path == "/terms"@ || path
            == "/sw.js"@ || path == "/manifest.webmanifest"@ || path == "/robots.txt"@ || path
            == "/sitemap.xml"@ || is_suffix(".html"@, path)),
        match after_last_dot(path) {
            Some(ext) => !(ext == "js"@ || ext == "css"@ || ext == "svg"@ || ext == "webp"@ || ext
                == "avif"@ || ext == "png"@ || ext == "jpg"@ || ext == "jpeg"@ || ext == "gif"@
                || ext == "ico"@ || ext == "woff2"@),
            None => true,
        },
    ensures
        cache_policy(path) is None,
{
}

fn is_immutable_ext(ext: &[char]) -> (r: bool)
    ensures
        r == is_immutable_extension(ext@),
{
    is_text(ext, "js") || is_text(ext, "css") || is_text(ext, "svg") || is_text(ext, "webp")
        || is_text(ext, "avif") || is_text(ext, "png") || is_text(ext, "jpg") || is_text(
        ext,
        "jpeg",
    ) || is_text(ext, "gif") || is_text(ext, "ico") || is_text(ext, "woff2")
}

fn is_release_doc(p: &[char]) -> (r: bool)
    ensures
        r == is_release_document(p@),
{
    let html = chars_of(".html");
    is_text(p, "/") || is_text(p, "/demo") || is_text(p, "/privacy") || is_text(p, "/terms")
        || ends_with(p, html.as_slice()) || is_text(p, "/sw.js") || is_text(
        p,
        "/manifest.webmanifest",
    ) || is_text(p, "/robots.txt") || is_text(p, "/sitemap.xml")
}

/// The caching policy of a request path.
pub fn cache_policy_for(path: &str) -> (r: Option<CachePolicy>)
    ensures
        r == cache_policy(path@),
{
    let p = chars_of(path);
    let api = chars_of("/api/");
    if is_text(p.as_slice(), "/health") || starts_with(p.as_slice(), api.as_slice()) {
        return Some(CachePolicy::NoStore);
    }
    if is_release_doc(p.as_slice()) {
        return Some(CachePolicy::Revalidate);
    }
    match find_last(p.as_slice(), '.') {
        Some(i) => {
            let ext = tail_from(p.as_slice(), i + 1);
            if is_immutable_ext(ext.as_slice()) {
                Some(CachePolicy::Immutable)
            } else {
                None
            }
        },
        None => None,
    }
}

/// The `Cache-Control` value to send for a request path, if any: API
/// answers are never stored, release documents are always revalidated and
/// assets are kept for a year.
pub fn cache_control_for(path: &str) -> (r: Option<&'static str>)
    ensures
        match cache_policy(path@) {
            Some(policy) => r is Some && r->0@ == policy.header_text(),
            None => r is None,
        },
{
    match cache_policy_for(path) {
        Some(policy) => Some(policy.header_value()),
        None => None,
    }
}

} // verus!
