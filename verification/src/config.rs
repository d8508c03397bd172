use vstd::prelude::*;
use vstd::string::StrSliceExecFns;

use crate::text::{
    before_first, chars_of, find_first_from, is_prefix, is_suffix, is_text, lemma_first_index_at,
    lemma_not_suffix_at, lemma_suffix_chars,
    starts_with,
};

verus! {

/// The port the server listens on when none is supplied.
pub const DEFAULT_PORT: u16 = 8080;

/// Where a runtime setting came from.
pub open spec fn source_label(supplied: bool) -> Seq<char> {
    if supplied {
        "supplied"@
    } else {
        "default"@
    }
}

/// A runtime setting: the supplied value where there is a non-empty one,
/// the default otherwise, with a label saying which of the two it is.
/// `supplied` is what the environment holds for the setting, if anything
/// readable.
pub fn env_or_default(supplied: Option<String>, default: &str) -> (r: (String, &'static str))
    ensures
        match supplied {
            Some(v) => if v@.len() > 0 {
                r.0@ == v@ && r.1@ == source_label(true)
            } else {
                r.0@ == default@ && r.1@ == source_label(false)
            },
            None => r.0@ == default@ && r.1@ == source_label(false),
        },
{
    match supplied {
        Some(v) => {
            if !v.as_str().is_empty() {
                (v, "supplied")
            } else {
                (default.to_owned(), "default")
            }
        },
        None => (default.to_owned(), "default"),
    }
}

/// The value of a decimal digit.
pub open spec fn digit_value(c: char) -> nat {
    (c as nat - '0' as nat) as nat
}

pub open spec fn is_digit(c: char) -> bool {
    '0' <= c <= '9'
}

/// The number that a string of decimal digits writes.
pub open spec fn decimal_value(s: Seq<char>) -> nat
    decreases s.len(),
{
    if s.len() == 0 {
        0
    } else {
        decimal_value(s.drop_last()) * 10 + digit_value(s.last())
    }
}

/// The digits of an unsigned number: what follows an optional leading `+`.
pub open spec fn unsigned_digits(s: Seq<char>) -> Seq<char> {
    if s.len() > 0 && s[0] == '+' {
        s.drop_first()
    } else {
        s
    }
}

/// `s` read as a port number the way `u16` is parsed from a string: an
/// optional `+`, then one or more decimal digits and nothing else, of a
/// value that fits in 16 bits.
pub open spec fn port_number(s: Seq<char>) -> Option<u16> {
    let d = unsigned_digits(s);
    if d.len() > 0 && (forall|i: int| 0 <= i < d.len() ==> is_digit(#[trigger] d[i]))
        && decimal_value(d) <= u16::MAX {
        Some(decimal_value(d) as u16)
    } else {
        None
    }
}

proof fn lemma_decimal_value_monotone(s: Seq<char>, i: int)
    requires
        0 <= i <= s.len(),
        forall|k: int| 0 <= k < s.len() ==> is_digit(#[trigger] s[k]),
    ensures
        decimal_value(s.take(i)) <= decimal_value(s),
    decreases s.len() - i,
{
    if i < s.len() {
        lemma_decimal_value_monotone(s, i + 1);
        let t = s.take(i + 1);
        assert(t.drop_last() =~= s.take(i));
    } else {
        assert(s.take(i) =~= s);
    }
}

/// `text` read as a port number (see `port_number`).
pub fn parse_port(text: &str) -> (r: Option<u16>)
    ensures
        r == port_number(text@),
{
    let s = chars_of(text);
    let start: usize = if s.len() > 0 && s[0] == '+' {
        1
    } else {
        0
    };
    let ghost d = unsigned_digits(s@);
    assert(d =~= s@.skip(start as int));
    if start == s.len() {
        return None;
    }
    let mut value: u32 = 0;
    let mut i: usize = start;
    while i < s.len()
        invariant
            start <= i <= s@.len(),
            d == s@.skip(start as int),
            d == unsigned_digits(text@),
            value == decimal_value(d.take(i - start)),
            value <= u16::MAX,
            forall|k: int| 0 <= k < i - start ==> is_digit(#[trigger] d[k]),
        decreases s@.len() - i,
    {
        let c = s[i];
        assert(d[i - start] == s@[i as int]);
        if c < '0' || c > '9' {
            assert(!is_digit(d[i - start]));
            return None;
        }
        let digit: u32 = (c as u32) - ('0' as u32);
        let next: u32 = value * 10 + digit;
        let ghost t = d.take(i - start + 1);
        assert(t.drop_last() =~= d.take(i - start));
        assert(t.last() == c);
        assert(digit == digit_value(c));
        if next > 65535 {
            proof {
                if forall|k: int| 0 <= k < d.len() ==> is_digit(#[trigger] d[k]) {
                    lemma_decimal_value_monotone(d, i - start + 1);
                }
            }
            return None;
        }
        value = next;
        i = i + 1;
    }
    assert(d.take(d.len() as int) =~= d);
    Some(value as u16)
}

/// The port to listen on: the supplied one where it reads as a port number,
/// the default otherwise, with where it came from.
pub fn port_or_default(supplied: Option<String>) -> (r: (u16, &'static str))
    ensures
        match supplied {
            Some(v) => match port_number(v@) {
                Some(p) => r.0 == p && r.1@ == source_label(true),
                None => r.0 == DEFAULT_PORT && r.1@ == source_label(false),
            },
            None => r.0 == DEFAULT_PORT && r.1@ == source_label(false),
        },
{
    match supplied {
        Some(v) => match parse_port(v.as_str()) {
            Some(p) => (p, "supplied"),
            None => (DEFAULT_PORT, "default"),
        },
        None => (DEFAULT_PORT, "default"),
    }
}

/// The SQLite URL used when none is supplied: a database under `/data`
/// where that volume is mounted, opened with SQLite's network-filesystem
/// locking (the `unix-dotfile` VFS, which locks with a dot-file instead of
/// POSIX advisory locks that network filesystems often do not honour); a
/// database under `data/` beside the process otherwise.
pub open spec fn default_database(data_mounted: bool) -> Seq<char> {
    if data_mounted {
        "sqlite:///data/rubric-comment-queue.db?mode=rwc&vfs=unix-dotfile"@
    } else {
        "sqlite://data/rubric-comment-queue.db?mode=rwc"@
    }
}

/// The SQLite URL used when none is supplied; `data_mounted` says whether
/// `/data` is a directory.
pub fn default_database_url(data_mounted: bool) -> (r: String)
    ensures
        r@ == default_database(data_mounted),
{
    if data_mounted {
        "sqlite:///data/rubric-comment-queue.db?mode=rwc&vfs=unix-dotfile".to_owned()
    } else {
        "sqlite://data/rubric-comment-queue.db?mode=rwc".to_owned()
    }
}

/// The file path that a SQLite URL names: what follows `sqlite://`, up to
/// its query string. Other URLs name none.
pub open spec fn database_file(url: Seq<char>) -> Option<Seq<char>> {
    if is_prefix("sqlite://"@, url) {
        Some(before_first(url.skip(9), '?'))
    } else {
        None
    }
}

/// The file path that a SQLite URL names.
pub fn database_file_path(url: &str) -> (r: Option<String>)
    ensures
        match database_file(url@) {
            Some(p) => r is Some && r->0@ == p,
            None => r is None,
        },
{
    proof {
        reveal_strlit("sqlite://");
    }
    let s = chars_of(url);
    let scheme = chars_of("sqlite://");
    if !starts_with(s.as_slice(), scheme.as_slice()) {
        return None;
    }
    let end = find_first_from(s.as_slice(), '?', 9);
    proof {
        let rest = url@.skip(9);
        assert forall|j: int| 0 <= j < end - 9 implies rest[j] != '?' by {
            assert(rest[j] == url@[j + 9]);
        }
        if end < s@.len() {
            assert(rest[end - 9] == url@[end as int]);
        }
        lemma_first_index_at(rest, '?', end - 9);
        assert(rest.take(end - 9) =~= url@.subrange(9, end as int));
        assert(rest =~= url@.subrange(9, url@.len() as int));
    }
    Some(url.substring_char(9, end).to_owned())
}

/// What `std::path::Path::parent` gives for a path, under the path rules
/// of the platform the crate is built for (separators and prefixes differ
/// between Unix and Windows): the path without its final component, or
/// nothing where it ends in a root or prefix or is empty.
pub uninterp spec fn path_parent(path: Seq<char>) -> Option<Seq<char>>;

/// Calls `std::path::Path::parent` on `path` (given as UTF-8 text, so the
/// parent, a prefix of it, is text too). Its result is taken to be
/// `path_parent` of the path; nothing more of it is claimed.
#[verifier::external_body]
fn parent_of(path: &str) -> (r: Option<String>)
    ensures
        match r {
            Some(p) => path_parent(path@) == Some(p@),
            None => path_parent(path@) is None,
        },
{
    std::path::Path::new(path).parent().map(|p| p.to_string_lossy().into_owned())
}

/// A parent directory worth creating: a non-empty one.
pub open spec fn nonempty_directory(parent: Option<Seq<char>>) -> Option<Seq<char>> {
    match parent {
        Some(p) => if p.len() > 0 {
            Some(p)
        } else {
            None
        },
        None => None,
    }
}

/// Keeps a parent directory only where it is not empty.
pub fn directory_to_create(parent: Option<String>) -> (r: Option<String>)
    ensures
        match nonempty_directory(match parent {
            Some(p) => Some(p@),
            None => None,
        }) {
            Some(d) => r is Some && r->0@ == d,
            None => r is None,
        },
{
    match parent {
        Some(p) => if p.as_str().is_empty() {
            None
        } else {
            Some(p)
        },
        None => None,
    }
}

/// The directory that must exist before SQLite can create the database a
/// URL names: the non-empty parent of its file path.
pub open spec fn database_directory(url: Seq<char>) -> Option<Seq<char>> {
    match database_file(url) {
        Some(file) => nonempty_directory(path_parent(file)),
        None => None,
    }
}

/// The directory that must exist before SQLite can create the database
/// `url` names, if it names one in a directory.
pub fn sqlite_parent(url: &str) -> (r: Option<String>)
    ensures
        match database_directory(url@) {
            Some(d) => r is Some && r->0@ == d,
            None => r is None,
        },
{
    match database_file_path(url) {
        Some(file) => directory_to_create(parent_of(file.as_str())),
        None => None,
    }
}

/// The database that the default URL names lies in the data volume where it
/// is mounted and in `data/` beside the process otherwise.
pub proof fn lemma_default_database_file(data_mounted: bool)
    ensures
        database_file(default_database(data_mounted)) == Some(
            if data_mounted {
                "/data/rubric-comment-queue.db"@
            } else {
                "data/rubric-comment-queue.db"@
            },
        ),
{
    reveal_strlit("sqlite://");
    reveal_strlit("sqlite:///data/rubric-comment-queue.db?mode=rwc&vfs=unix-dotfile");
    reveal_strlit("sqlite://data/rubric-comment-queue.db?mode=rwc");
    reveal_strlit("/data/rubric-comment-queue.db");
    reveal_strlit("data/rubric-comment-queue.db");
    let url = default_database(data_mounted);
    assert(url.take(9) =~= "sqlite://"@);
    let rest = url.skip(9);
    let q: int = if data_mounted {
        29
    } else {
        28
    };
    assert(rest[q] == '?');
    assert forall|j: int| 0 <= j < q implies rest[j] != '?' by {}
    lemma_first_index_at(rest, '?', q);
    if data_mounted {
        assert(rest.take(q) =~= "/data/rubric-comment-queue.db"@);
    } else {
        assert(rest.take(q) =~= "data/rubric-comment-queue.db"@);
    }
}

/// A setting's label says where its value came from: `supplied` for a
/// non-empty value from the environment, `default` otherwise.
pub proof fn lemma_setting_labels()
    ensures
        source_label(true) == "supplied"@,
        source_label(false) == "default"@,
{
}

/// A string of one to five decimal digits, optionally after `+`, reads as
/// the number it writes where that fits in 16 bits; a leading `+` changes
/// nothing, and a digit appended multiplies by ten and adds.
pub proof fn lemma_port_numbers(d: Seq<char>, c: char)
    requires
        d.len() > 0,
        forall|i: int| 0 <= i < d.len() ==> '0' <= #[trigger] d[i] <= '9',
    ensures
        decimal_value(d) <= 65535 ==> port_number(d) == Some(decimal_value(d) as u16),
        decimal_value(d) > 65535 ==> port_number(d) is None,
        port_number(seq!['+'] + d) == port_number(d),
        '0' <= c <= '9' ==> decimal_value(d.push(c)) == decimal_value(d) * 10 + (c as int - 48),
        !('0' <= c <= '9') ==> port_number(d.push(c)) is None,
        port_number(Seq::<char>::empty()) is None,
        port_number(seq!['+']) is None,
{
    assert((seq!['+'] + d).drop_first() =~= d);
    assert(d.push(c).drop_last() =~= d);
    if !('0' <= c <= '9') {
        assert(d.push(c)[d.len() as int] == c);
        if d[0] == '+' {
        }
    }
    assert(seq!['+'].drop_first() =~= Seq::<char>::empty());
}

/// The file a SQLite URL names is what follows `sqlite://` up to the
/// first `?`; a URL without that scheme names none.
pub proof fn lemma_database_file(path: Seq<char>, query: Seq<char>)
    requires
        forall|i: int| 0 <= i < path.len() ==> #[trigger] path[i] != '?',
    ensures
        database_file("sqlite://"@ + path) == Some(path),
        database_file("sqlite://"@ + path + seq!['?'] + query) == Some(path),
        database_file(path) is Some ==> path.len() >= 9 && path.take(9) == "sqlite://"@,
{
    reveal_strlit("sqlite://");
    let a = "sqlite://"@ + path;
    assert(a.take(9) =~= "sqlite://"@);
    assert(a.skip(9) =~= path);
    lemma_first_index_at(path, '?', path.len() as int);
    let b = "sqlite://"@ + path + seq!['?'] + query;
    assert(b.take(9) =~= "sqlite://"@);
    let rest = b.skip(9);
    assert(rest =~= path + seq!['?'] + query);
    assert forall|j: int| 0 <= j < path.len() implies rest[j] != '?' by {
        assert(rest[j] == path[j]);
    }
    assert(rest[path.len() as int] == '?');
    lemma_first_index_at(rest, '?', path.len() as int);
    assert(rest.take(path.len() as int) =~= path);
}

/// Only a non-empty parent is a directory to create: the database file's
/// parent directory, where it has one that is not empty.
pub proof fn lemma_directory_to_create(p: Seq<char>, url: Seq<char>)
    ensures
        p.len() > 0 ==> nonempty_directory(Some(p)) == Some(p),
        nonempty_directory(Some(Seq::<char>::empty())) is None,
        nonempty_directory(None) is None,
        database_file(url) is None ==> database_directory(url) is None,
        database_file(url) matches Some(f) ==> database_directory(url) == nonempty_directory(
            path_parent(f),
        ),
{
}

/// The database in the data volume is opened with the network-filesystem
/// lock mode; the one beside the process with SQLite's default locking.
pub proof fn lemma_data_volume_uses_network_locking()
    ensures
        is_suffix("&vfs=unix-dotfile"@, default_database(true)),
        !is_suffix("&vfs=unix-dotfile"@, default_database(false)),
{
    reveal_strlit("&vfs=unix-dotfile");
    reveal_strlit("sqlite:///data/rubric-comment-queue.db?mode=rwc&vfs=unix-dotfile");
    reveal_strlit("sqlite://data/rubric-comment-queue.db?mode=rwc");
    lemma_suffix_chars("&vfs=unix-dotfile"@, default_database(true));
    lemma_not_suffix_at("&vfs=unix-dotfile"@, default_database(false), 0);
}

/// The build identity reported by the health check: the revision the
/// release was built from, or `development` where none was given or it was
/// the meaningless `unknown`.
pub open spec fn build_name(supplied: Option<Seq<char>>) -> Seq<char> {
    match supplied {
        Some(sha) => if sha.len() > 0 && sha != "unknown"@ {
            sha
        } else {
            "development"@
        },
        None => "development"@,
    }
}

/// The health check reports the revision it is given, unchanged, whatever
/// its length or content, as long as it is neither empty nor `unknown`;
/// only then, or where none is given, it reports `development`.
pub proof fn lemma_build_identity_keeps_revisions(sha: Seq<char>)
    ensures
        sha.len() > 0 && sha != "unknown"@ ==> build_name(Some(sha)) == sha,
        build_name(Some("unknown"@)) == "development"@,
        build_name(Some(Seq::<char>::empty())) == "development"@,
        build_name(None) == "development"@,
        build_name(Some(sha)).len() > 0,
        build_name(Some(sha)) != "unknown"@,
{
    reveal_strlit("development");
    reveal_strlit("unknown");
}

/// The build identity reported by the health check; `supplied` is the
/// revision given to the build, if any.
pub fn build_identity<'a>(supplied: Option<&'a str>) -> (r: &'a str)
    ensures
        r@ == build_name(
            match supplied {
                Some(s) => Some(s@),
                None => None,
            },
        ),
        r@.len() > 0,
        r@ != "unknown"@,
{
    proof {
        reveal_strlit("development");
        reveal_strlit("unknown");
    }
    match supplied {
        Some(sha) => {
            let cs = chars_of(sha);
            if cs.len() > 0 && !is_text(cs.as_slice(), "unknown") {
                sha
            } else {
                "development"
            }
        },
        None => "development",
    }
}

/// The health report.
pub struct Health {
    pub status: &'static str,
    pub build_sha: &'static str,
}

/// The health report: always `ok`, with the build identity.
pub fn health(build_sha: Option<&'static str>) -> (r: Health)
    ensures
        r.status@ == "ok"@,
        r.build_sha@ == build_name(
            match build_sha {
                Some(s) => Some(s@),
                None => None,
            },
        ),
{
    Health { status: "ok", build_sha: build_identity(build_sha) }
}

} // verus!
