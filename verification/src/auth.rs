use vstd::prelude::*;
use vstd::string::StrSliceExecFns;

use crate::error::ApiError;
use crate::text::chars_of;

verus! {

/// The product whose licenses unlock backups.
pub open spec fn product_slug() -> Seq<char> {
    "rubric-comment-queue"@
}

/// The shortest license accepted, in bytes.
pub const MIN_TOKEN_BYTES: usize = 12;

/// The longest license accepted, in bytes.
pub const MAX_TOKEN_BYTES: usize = 2048;

/// A byte that a header value may hold and still be read as text: visible
/// ASCII or a tab.
pub open spec fn is_visible_ascii(b: u8) -> bool {
    (32 <= b && b < 127) || b == 9
}

/// Whitespace that a readable header value can hold: the space and the tab.
pub open spec fn is_header_space(b: u8) -> bool {
    b == 32 || b == 9
}

/// The scheme that introduces a license in the `Authorization` header.
pub open spec fn bearer_prefix() -> Seq<u8> {
    seq![66u8, 101u8, 97u8, 114u8, 101u8, 114u8, 32u8]
}

/// `s` without its leading spaces and tabs.
pub open spec fn trim_start(s: Seq<u8>) -> Seq<u8>
    decreases s.len(),
{
    if s.len() > 0 && is_header_space(s[0]) {
        trim_start(s.drop_first())
    } else {
        s
    }
}

/// `s` without its trailing spaces and tabs.
pub open spec fn trim_end(s: Seq<u8>) -> Seq<u8>
    decreases s.len(),
{
    if s.len() > 0 && is_header_space(s.last()) {
        trim_end(s.drop_last())
    } else {
        s
    }
}

/// `s` without the spaces and tabs around it.
pub open spec fn trim(s: Seq<u8>) -> Seq<u8> {
    trim_end(trim_start(s))
}

/// The license that an `Authorization` header value presents: it must be
/// readable text, start with `Bearer `, and what follows, without the
/// whitespace around it, must be 12 to 2048 bytes long.
pub open spec fn bearer_license(header: Option<Seq<u8>>) -> Option<Seq<u8>> {
    match header {
        Some(h) => {
            let t = trim(h.skip(7));
            if (forall|i: int| 0 <= i < h.len() ==> is_visible_ascii(#[trigger] h[i]))
                && h.len() >= 7 && h.take(7) == bearer_prefix() && MIN_TOKEN_BYTES <= t.len()
                <= MAX_TOKEN_BYTES {
                Some(t)
            } else {
                None
            }
        },
        None => None,
    }
}

proof fn lemma_trim_start_suffix(s: Seq<u8>)
    ensures
        exists|k: int| 0 <= k <= s.len() && trim_start(s) == s.skip(k),
        trim_start(s).len() > 0 ==> !is_header_space(trim_start(s)[0]),
    decreases s.len(),
{
    if s.len() > 0 && is_header_space(s[0]) {
        lemma_trim_start_suffix(s.drop_first());
        let k = choose|k: int|
            0 <= k <= s.drop_first().len() && trim_start(s.drop_first()) == s.drop_first().skip(k);
        assert(s.drop_first().skip(k) =~= s.skip(k + 1));
    } else {
        assert(s.skip(0) =~= s);
    }
}

proof fn lemma_trim_end_prefix(s: Seq<u8>)
    ensures
        exists|k: int| 0 <= k <= s.len() && trim_end(s) == s.take(k),
        trim_end(s).len() > 0 ==> !is_header_space(trim_end(s).last()),
    decreases s.len(),
{
    if s.len() > 0 && is_header_space(s.last()) {
        lemma_trim_end_prefix(s.drop_last());
        let k = choose|k: int|
            0 <= k <= s.drop_last().len() && trim_end(s.drop_last()) == s.drop_last().take(k);
        assert(s.drop_last().take(k) =~= s.take(k));
    } else {
        assert(s.take(s.len() as int) =~= s);
    }
}

proof fn lemma_trim_start_at(s: Seq<u8>, i: int)
    requires
        0 <= i <= s.len(),
        forall|j: int| 0 <= j < i ==> is_header_space(#[trigger] s[j]),
        i < s.len() ==> !is_header_space(s[i]),
    ensures
        trim_start(s) == s.skip(i),
    decreases i,
{
    if i > 0 {
        let t = s.drop_first();
        assert forall|j: int| 0 <= j < i - 1 implies is_header_space(#[trigger] t[j]) by {
            assert(t[j] == s[j + 1]);
            assert(is_header_space(s[j + 1]));
        }
        if i - 1 < t.len() {
            assert(t[i - 1] == s[i]);
        }
        assert(is_header_space(s[0]));
        lemma_trim_start_at(t, i - 1);
        assert(t.skip(i - 1) =~= s.skip(i));
    } else {
        assert(s.skip(0) =~= s);
        if s.len() > 0 {
            assert(!is_header_space(s[0]));
        }
    }
}

proof fn lemma_trim_end_at(s: Seq<u8>, e: int)
    requires
        0 <= e <= s.len(),
        forall|j: int| e <= j < s.len() ==> is_header_space(#[trigger] s[j]),
        e > 0 ==> !is_header_space(s[e - 1]),
    ensures
        trim_end(s) == s.take(e),
    decreases s.len() - e,
{
    if e < s.len() {
        let t = s.drop_last();
        assert forall|j: int| e <= j < t.len() implies is_header_space(#[trigger] t[j]) by {
            assert(t[j] == s[j]);
            assert(is_header_space(s[j]));
        }
        if e > 0 {
            assert(t[e - 1] == s[e - 1]);
        }
        assert(is_header_space(s[s.len() - 1]));
        lemma_trim_end_at(t, e);
        assert(t.take(e) =~= s.take(e));
    } else {
        assert(s.take(e) =~= s);
        if s.len() > 0 {
            assert(!is_header_space(s.last()));
        }
    }
}

/// The license that an `Authorization` header value presents (see
/// `bearer_license`), or `Unauthorized`.
pub fn bearer_token(header: Option<&[u8]>) -> (r: Result<Vec<u8>, ApiError>)
    ensures
        match bearer_license(
            match header {
                Some(h) => Some(h@),
                None => None,
            },
        ) {
            Some(t) => r is Ok && r->Ok_0@ == t,
            None => r == Err::<Vec<u8>, ApiError>(ApiError::Unauthorized),
        },
{
    let h = match header {
        Some(h) => h,
        None => return Err(ApiError::Unauthorized),
    };
    let n = h.len();
    let mut i: usize = 0;
    while i < n
        invariant
            header == Some(h),
            n == h@.len(),
            i <= n,
            forall|j: int| 0 <= j < i ==> is_visible_ascii(#[trigger] h@[j]),
        decreases n - i,
    {
        let b = h[i];
        if !((32 <= b && b < 127) || b == 9) {
            assert(!is_visible_ascii(h@[i as int]));
            return Err(ApiError::Unauthorized);
        }
        i = i + 1;
    }
    if n < 7 || h[0] != 66 || h[1] != 101 || h[2] != 97 || h[3] != 114 || h[4] != 101 || h[5]
        != 114 || h[6] != 32 {
        proof {
            if n >= 7 {
                assert(h@.take(7)[0] == h@[0]);
                assert(h@.take(7)[1] == h@[1]);
                assert(h@.take(7)[2] == h@[2]);
                assert(h@.take(7)[3] == h@[3]);
                assert(h@.take(7)[4] == h@[4]);
                assert(h@.take(7)[5] == h@[5]);
                assert(h@.take(7)[6] == h@[6]);
            }
        }
        return Err(ApiError::Unauthorized);
    }
    assert(h@.take(7) =~= bearer_prefix());
    let ghost rest = h@.skip(7);
    let mut start: usize = 7;
    while start < n && (h[start] == 32 || h[start] == 9)
        invariant
            n == h@.len(),
            7 <= start <= n,
            rest == h@.skip(7),
            forall|j: int| 0 <= j < start - 7 ==> is_header_space(#[trigger] rest[j]),
        decreases n - start,
    {
        assert(rest[start - 7] == h@[start as int]);
        start = start + 1;
    }
    proof {
        if start < n {
            assert(rest[start - 7] == h@[start as int]);
        }
        lemma_trim_start_at(rest, start - 7);
    }
    let ghost mid = rest.skip(start - 7);
    assert(mid =~= h@.subrange(start as int, n as int));
    let mut end: usize = n;
    while end > start && (h[end - 1] == 32 || h[end - 1] == 9)
        invariant
            n == h@.len(),
            7 <= start <= end <= n,
            mid == h@.subrange(start as int, n as int),
            forall|j: int| end - start <= j < mid.len() ==> is_header_space(#[trigger] mid[j]),
        decreases end - start,
    {
        assert(mid[end - 1 - start] == h@[end - 1]);
        end = end - 1;
    }
    proof {
        if end > start {
            assert(mid[end - 1 - start] == h@[end - 1]);
        }
        lemma_trim_end_at(mid, end - start);
        assert(mid.take(end - start) =~= h@.subrange(start as int, end as int));
    }
    let len: usize = end - start;
    if len < MIN_TOKEN_BYTES || len > MAX_TOKEN_BYTES {
        return Err(ApiError::Unauthorized);
    }
    let mut token: Vec<u8> = Vec::new();
    let mut k: usize = start;
    while k < end
        invariant
            start <= k <= end <= n,
            n == h@.len(),
            token@ == h@.subrange(start as int, k as int),
        decreases end - k,
    {
        token.push(h[k]);
        k = k + 1;
        assert(token@ =~= h@.subrange(start as int, k as int));
    }
    Ok(token)
}

/// `s` without the slashes at its end (`trim_end_matches('/')`).
pub open spec fn without_trailing_slashes(s: Seq<char>) -> Seq<char>
    decreases s.len(),
{
    if s.len() > 0 && s.last() == '/' {
        without_trailing_slashes(s.drop_last())
    } else {
        s
    }
}

/// The billing endpoint that tells whether a license of the product is
/// valid.
pub open spec fn verification_endpoint(billing_base: Seq<char>) -> Seq<char> {
    without_trailing_slashes(billing_base) + "/products/"@ + product_slug() + "/verify"@
}

/// The billing endpoint that tells whether a license is valid; the license
/// itself goes in its `license` query parameter.
pub fn verification_url(billing_base: &str) -> (r: String)
    ensures
        r@ == verification_endpoint(billing_base@),
{
    let cs = chars_of(billing_base);
    let end = slashless_end(cs.as_slice());
    let ghost base = without_trailing_slashes(billing_base@);
    assert(base =~= billing_base@.subrange(0, end as int));
    let mut url = billing_base.substring_char(0, end).to_owned();
    assert(url@ == base);
    url.append("/products/");
    assert(url@ == base + "/products/"@);
    url.append("rubric-comment-queue");
    assert(url@ == base + "/products/"@ + product_slug());
    url.append("/verify");
    url
}

/// Removing one trailing slash does not change what is left once all are
/// removed.
proof fn lemma_drop_trailing_slash(s: Seq<char>, end: int)
    requires
        0 < end <= s.len(),
        s[end - 1] == '/',
    ensures
        without_trailing_slashes(s.take(end)) == without_trailing_slashes(s.take(end - 1)),
{
    let t = s.take(end);
    assert(t.last() == '/');
    assert(t.drop_last() =~= s.take(end - 1));
}

/// The length of `s` without its trailing slashes.
fn slashless_end(s: &[char]) -> (end: usize)
    ensures
        end <= s@.len(),
        without_trailing_slashes(s@) == s@.take(end as int),
{
    let mut end: usize = s.len();
    assert(s@.take(end as int) =~= s@);
    while end > 0 && s[end - 1] == '/'
        invariant
            end <= s@.len(),
            without_trailing_slashes(s@) == without_trailing_slashes(s@.take(end as int)),
        decreases end,
    {
        proof {
            lemma_drop_trailing_slash(s@, end as int);
        }
        end = end - 1;
    }
    proof {
        let t = s@.take(end as int);
        if end > 0 {
            assert(t.last() == s@[end - 1]);
        }
    }
    end
}

/// The first step of authorizing an API request.
pub enum AuthStep {
    /// The request is authorized under this license.
    Accept(Vec<u8>),
    /// The request is refused.
    Reject(ApiError),
    /// Billing must confirm the license: ask `url` about `license`.
    AskBilling { url: String, license: Vec<u8> },
}

/// The first step of authorizing an API request from its `Authorization`
/// header: a request without a usable license is refused at once and never
/// reaches billing; with billing checks off, a usable license is accepted;
/// with them on, billing is asked about it.
pub fn begin_authorization(header: Option<&[u8]>, verify_billing: bool, billing_base: &str) -> (r:
    AuthStep)
    ensures
        match bearer_license(
            match header {
                Some(h) => Some(h@),
                None => None,
            },
        ) {
            None => r == AuthStep::Reject(ApiError::Unauthorized),
            Some(t) => if verify_billing {
                r matches AuthStep::AskBilling { url, license } && license@ == t && url@
                    == verification_endpoint(billing_base@)
            } else {
                r matches AuthStep::Accept(license) && license@ == t
            },
        },
{
    match bearer_token(header) {
        Err(e) => AuthStep::Reject(e),
        Ok(license) => {
            if verify_billing {
                AuthStep::AskBilling { url: verification_url(billing_base), license }
            } else {
                AuthStep::Accept(license)
            }
        },
    }
}

/// What billing's HTTP answer means: `status` is its status code, `None`
/// where no answer came. Only a success status (200–299) lets the verdict
/// be read; anything else makes verification unavailable.
pub open spec fn billing_status_outcome(status: Option<u16>) -> Result<(), ApiError> {
    match status {
        Some(code) => if 200 <= code && code <= 299 {
            Ok(())
        } else {
            Err(ApiError::VerificationUnavailable)
        },
        None => Err(ApiError::VerificationUnavailable),
    }
}

/// What billing's HTTP answer means (see `billing_status_outcome`).
pub fn check_billing_status(status: Option<u16>) -> (r: Result<(), ApiError>)
    ensures
        r == billing_status_outcome(status),
{
    match status {
        Some(code) => if 200 <= code && code <= 299 {
            Ok(())
        } else {
            Err(ApiError::VerificationUnavailable)
        },
        None => Err(ApiError::VerificationUnavailable),
    }
}

/// What billing's verdict means: `valid` is the `valid` field of its JSON
/// answer, `None` where the answer could not be read as one.
pub open spec fn billing_verdict_outcome(valid: Option<bool>) -> Result<(), ApiError> {
    match valid {
        Some(true) => Ok(()),
        Some(false) => Err(ApiError::Unauthorized),
        None => Err(ApiError::VerificationUnavailable),
    }
}

/// Ends authorization with billing's verdict on `license`: a valid license
/// is accepted, an invalid one refused, an unreadable verdict makes
/// verification unavailable.
pub fn finish_authorization(license: Vec<u8>, valid: Option<bool>) -> (r: Result<
    Vec<u8>,
    ApiError,
>)
    ensures
        match billing_verdict_outcome(valid) {
            Ok(()) => r is Ok && r->Ok_0 == license,
            Err(e) => r == Err::<Vec<u8>, ApiError>(e),
        },
{
    match valid {
        Some(true) => Ok(license),
        Some(false) => Err(ApiError::Unauthorized),
        None => Err(ApiError::VerificationUnavailable),
    }
}

/// How authorization ends, step by step: the license the header presents;
/// with billing checks on, billing's status (`None` where no answer came)
/// and verdict (`None` where it could not be read) decide it.
pub open spec fn authorization_outcome(
    header: Option<Seq<u8>>,
    verify_billing: bool,
    status: Option<u16>,
    valid: Option<bool>,
) -> Result<Seq<u8>, ApiError> {
    match bearer_license(header) {
        None => Err(ApiError::Unauthorized),
        Some(t) => if !verify_billing {
            Ok(t)
        } else {
            match billing_status_outcome(status) {
                Err(e) => Err(e),
                Ok(()) => match billing_verdict_outcome(valid) {
                    Err(e) => Err(e),
                    Ok(()) => Ok(t),
                },
            }
        },
    }
}

/// A request is authorized only under the well-formed license its header
/// presents, and, with billing checks on, only where billing answered with
/// a success status and the verdict `valid: true`. A failure to reach
/// billing or to read its answer is never mistaken for a refused license.
pub proof fn lemma_authorization_requires_billing_approval(
    header: Option<Seq<u8>>,
    verify_billing: bool,
    status: Option<u16>,
    valid: Option<bool>,
)
    ensures
        authorization_outcome(header, verify_billing, status, valid) matches Ok(t) ==> {
            &&& bearer_license(header) == Some(t)
            &&& verify_billing ==> (status matches Some(code) && 200 <= code <= 299 && valid
                == Some(true))
        },
        bearer_license(header) is Some && verify_billing && (status is None || valid is None)
            ==> authorization_outcome(header, verify_billing, status, valid) == Err::<
            Seq<u8>,
            ApiError,
        >(ApiError::VerificationUnavailable),
        bearer_license(header) is None ==> authorization_outcome(
            header,
            verify_billing,
            status,
            valid,
        ) == Err::<Seq<u8>, ApiError>(ApiError::Unauthorized),
{
}

/// `Bearer ` as bytes.
pub open spec fn bearer_bytes() -> Seq<u8> {
    seq![66u8, 101u8, 97u8, 114u8, 101u8, 114u8, 32u8]
}

/// A header `Bearer `, then any spaces and tabs, then a license of 12 to
/// 2048 bytes of visible ASCII that neither starts nor ends with a space or
/// tab, then any spaces and tabs, presents exactly that license.
pub proof fn lemma_bearer_header_accepted(pad1: Seq<u8>, t: Seq<u8>, pad2: Seq<u8>)
    requires
        forall|i: int| 0 <= i < pad1.len() ==> #[trigger] pad1[i] == 32 || pad1[i] == 9,
        forall|i: int| 0 <= i < pad2.len() ==> #[trigger] pad2[i] == 32 || pad2[i] == 9,
        forall|i: int| 0 <= i < t.len() ==> 32 <= #[trigger] t[i] < 127 || t[i] == 9,
        12 <= t.len() <= 2048,
        t[0] != 32 && t[0] != 9,
        t.last() != 32 && t.last() != 9,
    ensures
        bearer_license(Some(bearer_bytes() + pad1 + t + pad2)) == Some(t),
{
    let h = bearer_bytes() + pad1 + t + pad2;
    let rest = h.skip(7);
    assert(rest =~= pad1 + t + pad2);
    assert(h.take(7) =~= bearer_prefix());
    assert forall|i: int| 0 <= i < h.len() implies is_visible_ascii(#[trigger] h[i]) by {
        if i < 7 {
        } else if i < 7 + pad1.len() {
            assert(h[i] == pad1[i - 7]);
        } else if i < 7 + pad1.len() + t.len() {
            assert(h[i] == t[i - 7 - pad1.len()]);
        } else {
            assert(h[i] == pad2[i - 7 - pad1.len() - t.len()]);
        }
    }
    assert forall|j: int| 0 <= j < pad1.len() implies is_header_space(#[trigger] rest[j]) by {
        assert(rest[j] == pad1[j]);
    }
    assert(rest[pad1.len() as int] == t[0]);
    lemma_trim_start_at(rest, pad1.len() as int);
    let mid = rest.skip(pad1.len() as int);
    assert(mid =~= t + pad2);
    assert forall|j: int| t.len() <= j < mid.len() implies is_header_space(#[trigger] mid[j]) by {
        assert(mid[j] == pad2[j - t.len()]);
    }
    assert(mid[t.len() - 1] == t.last());
    lemma_trim_end_at(mid, t.len() as int);
    assert(mid.take(t.len() as int) =~= t);
}

/// A header is refused where it does not start with `Bearer `, where it
/// holds a byte that is neither visible ASCII nor a tab, or where the
/// license it presents is shorter than 12 or longer than 2048 bytes.
pub proof fn lemma_bearer_header_refused(h: Seq<u8>)
    ensures
        h.len() < 7 || h.take(7) != bearer_bytes() ==> bearer_license(Some(h)) is None,
        (exists|i: int| 0 <= i < h.len() && (#[trigger] h[i] < 32 && h[i] != 9 || h[i] >= 127))
            ==> bearer_license(Some(h)) is None,
        bearer_license(Some(h)) matches Some(t) ==> 12 <= t.len() <= 2048,
        bearer_license(None) is None,
{
    assert(bearer_bytes() =~= bearer_prefix());
}

/// Billing's answer is read only after a success status, 200 to 299; no
/// answer or any other status makes verification unavailable. A verdict
/// `valid: true` accepts, `valid: false` refuses the license, and an
/// unreadable verdict makes verification unavailable.
pub proof fn lemma_billing_answers(code: u16)
    ensures
        200 <= code <= 299 ==> billing_status_outcome(Some(code)) is Ok,
        !(200 <= code <= 299) ==> billing_status_outcome(Some(code)) == Err::<(), ApiError>(
            ApiError::VerificationUnavailable,
        ),
        billing_status_outcome(None) == Err::<(), ApiError>(ApiError::VerificationUnavailable),
        billing_verdict_outcome(Some(true)) is Ok,
        billing_verdict_outcome(Some(false)) == Err::<(), ApiError>(ApiError::Unauthorized),
        billing_verdict_outcome(None) == Err::<(), ApiError>(ApiError::VerificationUnavailable),
{
}

/// The billing endpoint is the base without its trailing slashes, then
/// `/products/rubric-comment-queue/verify`; slashes added to the base do not
/// change it.
pub proof fn lemma_verification_endpoint(base: Seq<char>)
    ensures
        (base.len() == 0 || base.last() != '/') ==> verification_endpoint(base) == base
            + "/products/rubric-comment-queue/verify"@,
        verification_endpoint(base.push('/')) == verification_endpoint(base),
{
    reveal_strlit("/products/rubric-comment-queue/verify");
    reveal_strlit("/products/");
    reveal_strlit("rubric-comment-queue");
    reveal_strlit("/verify");
    assert("/products/"@ + "rubric-comment-queue"@ + "/verify"@
        =~= "/products/rubric-comment-queue/verify"@);
    assert(base.push('/').drop_last() =~= base);
    let w = without_trailing_slashes(base);
    assert(w + "/products/"@ + "rubric-comment-queue"@ + "/verify"@ =~= w
        + "/products/rubric-comment-queue/verify"@);
}

/// Every license that authorization accepts is 12 to 2048 bytes of visible
/// ASCII with no whitespace at either end, and is what follows `Bearer ` in
/// the header.
pub proof fn lemma_accepted_license_shape(header: Seq<u8>)
    requires
        bearer_license(Some(header)) is Some,
    ensures
        ({
            let t = bearer_license(Some(header))->0;
            &&& MIN_TOKEN_BYTES <= t.len() <= MAX_TOKEN_BYTES
            &&& forall|i: int| 0 <= i < t.len() ==> is_visible_ascii(#[trigger] t[i])
            &&& !is_header_space(t[0])
            &&& !is_header_space(t.last())
            &&& header.take(7) == bearer_prefix()
            &&& exists|a: int, b: int| 7 <= a <= b <= header.len() && t == header.subrange(a, b)
        }),
{
    let rest = header.skip(7);
    lemma_trim_start_suffix(rest);
    let ts = trim_start(rest);
    lemma_trim_end_prefix(ts);
    let a = choose|k: int| 0 <= k <= rest.len() && trim_start(rest) == rest.skip(k);
    let b = choose|k: int| 0 <= k <= ts.len() && trim_end(ts) == ts.take(k);
    let t = trim(rest);
    assert(t =~= header.subrange(7 + a, 7 + a + b));
    assert forall|i: int| 0 <= i < t.len() implies is_visible_ascii(#[trigger] t[i]) by {
        assert(t[i] == header[7 + a + i]);
    }
}

} // verus!
