use vstd::prelude::*;

use crate::cache::{cache_policy, is_immutable_extension, CachePolicy};
use crate::text::{is_prefix, lemma_after_last_dot_at, lemma_not_prefix_at, lemma_not_suffix_at};

verus! {

/// The largest encrypted backup payload accepted, in bytes.
pub const MAX_BACKUP_BYTES: usize = 5_000_000;

/// The largest request body the API reads: a full payload and its JSON
/// framing.
pub const API_BODY_LIMIT: usize = 5_002_048;

/// One request of a client's allowance is restored every this many
/// milliseconds.
pub const RATE_LIMIT_PERIOD_MS: u64 = 50;

/// The number of requests a client may make in a burst.
pub const RATE_LIMIT_BURST: u32 = 40;

/// The page served for paths the application does not know, where the
/// frontend ships none of its own.
pub open spec fn builtin_not_found_page() -> Seq<char> {
    "<!doctype html><html lang=\"en\"><title>Page not found — Rubric Comment Queue</title><main><h1>Page not found</h1><a href=\"/\">Return to the queue</a></main></html>"@
}

/// The body of the 404 page: the frontend's own `404.html` where it could be
/// read, the built-in page otherwise.
pub fn not_found_page(shipped: Option<String>) -> (r: String)
    ensures
        match shipped {
            Some(page) => r@ == page@,
            None => r@ == builtin_not_found_page(),
        },
{
    match shipped {
        Some(page) => page,
        None => "<!doctype html><html lang=\"en\"><title>Page not found — Rubric Comment Queue</title><main><h1>Page not found</h1><a href=\"/\">Return to the queue</a></main></html>".to_owned(),
    }
}

/// The routes that serve the application shell (`index.html`).
pub open spec fn app_shell_paths() -> Seq<Seq<char>> {
    seq!["/"@, "/demo"@, "/privacy"@, "/terms"@]
}

/// The routes that serve one file of the frontend each, with that file's
/// name.
pub open spec fn static_file_paths() -> Seq<(Seq<char>, Seq<char>)> {
    seq![
        ("/mark.svg"@, "mark.svg"@),
        ("/queue-desk.webp"@, "queue-desk.webp"@),
        ("/queue-desk-640.webp"@, "queue-desk-640.webp"@),
        ("/social-card.webp"@, "social-card.webp"@),
        ("/apple-touch-icon.png"@, "apple-touch-icon.png"@),
        ("/manifest.webmanifest"@, "manifest.webmanifest"@),
        ("/sw.js"@, "sw.js"@),
        ("/robots.txt"@, "robots.txt"@),
        ("/sitemap.xml"@, "sitemap.xml"@),
    ]
}

/// The routes that serve the application shell.
pub fn app_shell_routes() -> (r: Vec<&'static str>)
    ensures
        r@.map_values(|p: &'static str| p@) == app_shell_paths(),
{
    let mut r: Vec<&'static str> = Vec::new();
    r.push("/");
    r.push("/demo");
    r.push("/privacy");
    r.push("/terms");
    assert(r@.map_values(|p: &'static str| p@) =~= app_shell_paths());
    r
}

/// The single-file routes with the frontend file that each serves.
pub fn static_file_routes() -> (r: Vec<(&'static str, &'static str)>)
    ensures
        r@.map_values(|p: (&'static str, &'static str)| (p.0@, p.1@)) == static_file_paths(),
{
    let mut r: Vec<(&'static str, &'static str)> = Vec::new();
    r.push(("/mark.svg", "mark.svg"));
    r.push(("/queue-desk.webp", "queue-desk.webp"));
    r.push(("/queue-desk-640.webp", "queue-desk-640.webp"));
    r.push(("/social-card.webp", "social-card.webp"));
    r.push(("/apple-touch-icon.png", "apple-touch-icon.png"));
    r.push(("/manifest.webmanifest", "manifest.webmanifest"));
    r.push(("/sw.js", "sw.js"));
    r.push(("/robots.txt", "robots.txt"));
    r.push(("/sitemap.xml", "sitemap.xml"));
    assert(r@.map_values(|p: (&'static str, &'static str)| (p.0@, p.1@)) =~= static_file_paths());
    r
}

/// The application shell is served at `/`, `/demo`, `/privacy` and
/// `/terms`, and the 404 page built in says `Page not found` and links back
/// to the queue.
pub proof fn lemma_shell_routes_and_404()
    ensures
        app_shell_paths() == seq!["/"@, "/demo"@, "/privacy"@, "/terms"@],
        builtin_not_found_page() == "<!doctype html><html lang=\"en\"><title>Page not found — Rubric Comment Queue</title><main><h1>Page not found</h1><a href=\"/\">Return to the queue</a></main></html>"@,
{
}

/// Every route that serves the application shell is revalidated before each
/// use, so that a browser learns of a new release at once.
pub proof fn lemma_app_shell_is_revalidated()
    ensures
        forall|i: int|
            0 <= i < app_shell_paths().len() ==> cache_policy(#[trigger] app_shell_paths()[i])
                == Some(CachePolicy::Revalidate),
{
    reveal_strlit("/health");
    reveal_strlit("/api/");
    reveal_strlit("/");
    reveal_strlit("/demo");
    reveal_strlit("/privacy");
    reveal_strlit("/terms");
    lemma_not_prefix_at("/api/"@, "/demo"@, 1);
    lemma_not_prefix_at("/api/"@, "/privacy"@, 1);
    lemma_not_prefix_at("/api/"@, "/terms"@, 1);
    assert(app_shell_paths()[0] == "/"@);
    assert(app_shell_paths()[1] == "/demo"@);
    assert(app_shell_paths()[2] == "/privacy"@);
    assert(app_shell_paths()[3] == "/terms"@);
}

/// Every single-file route has a caching policy: the images are kept for a
/// year, the manifest, service worker, robots file and sitemap are
/// revalidated before each use.
pub proof fn lemma_static_files_have_policies()
    ensures
        cache_policy(static_file_paths()[0].0) == Some(CachePolicy::Immutable),
        cache_policy(static_file_paths()[1].0) == Some(CachePolicy::Immutable),
        cache_policy(static_file_paths()[2].0) == Some(CachePolicy::Immutable),
        cache_policy(static_file_paths()[3].0) == Some(CachePolicy::Immutable),
        cache_policy(static_file_paths()[4].0) == Some(CachePolicy::Immutable),
        cache_policy(static_file_paths()[5].0) == Some(CachePolicy::Revalidate),
        cache_policy(static_file_paths()[6].0) == Some(CachePolicy::Revalidate),
        cache_policy(static_file_paths()[7].0) == Some(CachePolicy::Revalidate),
        cache_policy(static_file_paths()[8].0) == Some(CachePolicy::Revalidate),
        forall|i: int|
            0 <= i < static_file_paths().len() ==> cache_policy(#[trigger] static_file_paths()[i].0)
                is Some,
{
    reveal_strlit("/health");
    reveal_strlit("/api/");
    reveal_strlit("/");
    reveal_strlit("/demo");
    reveal_strlit("/privacy");
    reveal_strlit("/terms");
    reveal_strlit(".html");
    reveal_strlit("/sw.js");
    reveal_strlit("/manifest.webmanifest");
    reveal_strlit("/robots.txt");
    reveal_strlit("/sitemap.xml");
    reveal_strlit("/mark.svg");
    reveal_strlit("/queue-desk.webp");
    reveal_strlit("/queue-desk-640.webp");
    reveal_strlit("/social-card.webp");
    reveal_strlit("/apple-touch-icon.png");
    reveal_strlit("svg");
    reveal_strlit("webp");
    reveal_strlit("png");
    lemma_not_prefix_at("/api/"@, "/mark.svg"@, 1);
    assert("/mark.svg"@.skip(6) =~= "svg"@);
    image_is_immutable("/mark.svg"@, 5, "svg"@);
    lemma_not_prefix_at("/api/"@, "/queue-desk.webp"@, 1);
    assert("/queue-desk.webp"@.skip(12) =~= "webp"@);
    image_is_immutable("/queue-desk.webp"@, 11, "webp"@);
    lemma_not_prefix_at("/api/"@, "/queue-desk-640.webp"@, 1);
    assert("/queue-desk-640.webp"@.skip(16) =~= "webp"@);
    image_is_immutable("/queue-desk-640.webp"@, 15, "webp"@);
    lemma_not_prefix_at("/api/"@, "/social-card.webp"@, 1);
    assert("/social-card.webp"@.skip(13) =~= "webp"@);
    image_is_immutable("/social-card.webp"@, 12, "webp"@);
    lemma_not_prefix_at("/api/"@, "/apple-touch-icon.png"@, 3);
    assert("/apple-touch-icon.png"@.skip(18) =~= "png"@);
    assert("/apple-touch-icon.png"@[1] != "/manifest.webmanifest"@[1]);
    image_is_immutable("/apple-touch-icon.png"@, 17, "png"@);
    lemma_not_prefix_at("/api/"@, "/sw.js"@, 1);
    lemma_not_prefix_at("/api/"@, "/manifest.webmanifest"@, 1);
    lemma_not_prefix_at("/api/"@, "/robots.txt"@, 1);
    lemma_not_prefix_at("/api/"@, "/sitemap.xml"@, 1);
}

/// Each single-file route serves the frontend file of its own name: the
/// route is `/` followed by the file name, and no two routes are the same.
pub proof fn lemma_static_routes_serve_their_own_file()
    ensures
        static_file_paths().len() == 9,
        forall|i: int|
            0 <= i < static_file_paths().len() ==> #[trigger] static_file_paths()[i].0 == "/"@
                + static_file_paths()[i].1,
        forall|i: int, j: int|
            0 <= i < j < static_file_paths().len() ==> #[trigger] static_file_paths()[i].1
                != #[trigger] static_file_paths()[j].1,
{
    reveal_strlit("/");
    reveal_strlit("/mark.svg");
    reveal_strlit("mark.svg");
    reveal_strlit("/queue-desk.webp");
    reveal_strlit("queue-desk.webp");
    reveal_strlit("/queue-desk-640.webp");
    reveal_strlit("queue-desk-640.webp");
    reveal_strlit("/social-card.webp");
    reveal_strlit("social-card.webp");
    reveal_strlit("/apple-touch-icon.png");
    reveal_strlit("apple-touch-icon.png");
    reveal_strlit("/manifest.webmanifest");
    reveal_strlit("manifest.webmanifest");
    reveal_strlit("/sw.js");
    reveal_strlit("sw.js");
    reveal_strlit("/robots.txt");
    reveal_strlit("robots.txt");
    reveal_strlit("/sitemap.xml");
    reveal_strlit("sitemap.xml");
    let p = static_file_paths();
    assert(p[0].0 =~= "/"@ + p[0].1);
    assert(p[1].0 =~= "/"@ + p[1].1);
    assert(p[2].0 =~= "/"@ + p[2].1);
    assert(p[3].0 =~= "/"@ + p[3].1);
    assert(p[4].0 =~= "/"@ + p[4].1);
    assert(p[5].0 =~= "/"@ + p[5].1);
    assert(p[6].0 =~= "/"@ + p[6].1);
    assert(p[7].0 =~= "/"@ + p[7].1);
    assert(p[8].0 =~= "/"@ + p[8].1);
    assert forall|i: int, j: int| 0 <= i < j < p.len() implies #[trigger] p[i].1 != #[trigger] p[j].1 by {
        if p[i].1 == p[j].1 && p[i].1.len() > 1 {
            assert(p[i].1[0] == p[j].1[0]);
            assert(p[i].1[1] == p[j].1[1]);
            assert(p[i].1[p[i].1.len() - 1] == p[j].1[p[j].1.len() - 1]);
            assert(p[i].1[p[i].1.len() - 5] == p[j].1[p[j].1.len() - 5]);
            assert(p[i].1[p[i].1.len() - 7] == p[j].1[p[j].1.len() - 7]);
        }
    }
}

/// A path that is neither an API path nor a release document and whose
/// text after its last dot, at `dot`, is the immutable extension `ext`.
proof fn image_is_immutable(path: Seq<char>, dot: int, ext: Seq<char>)
    requires
        path.len() >= 5,
        path != "/health"@,
        !is_prefix("/api/"@, path),
        path != "/"@,
        path != "/demo"@,
        path != "/privacy"@,
        path != "/terms"@,
        path[path.len() - 4] != 'h',
        path != "/sw.js"@,
        path != "/manifest.webmanifest"@,
        path != "/robots.txt"@,
        path != "/sitemap.xml"@,
        0 <= dot < path.len(),
        path[dot] == '.',
        forall|j: int| dot < j < path.len() ==> path[j] != '.',
        path.skip(dot + 1) == ext,
        is_immutable_extension(ext),
    ensures
        cache_policy(path) == Some(CachePolicy::Immutable),
{
    reveal_strlit("/api/");
    reveal_strlit(".html");
    lemma_not_suffix_at(".html"@, path, 1);
    lemma_after_last_dot_at(path, dot);
}

} // verus!
