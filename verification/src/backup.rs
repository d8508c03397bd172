use sha2::Digest;
use vstd::prelude::*;
use vstd::string::StrSliceExecFns;
use vstd::utf8::encode_utf8;

use crate::error::ApiError;
use crate::routes::MAX_BACKUP_BYTES;

verus! {

/// The SHA-256 digest of `data`.
pub uninterp spec fn sha256_digest(data: Seq<u8>) -> Seq<u8>;

/// Calls `sha2::Sha256::digest`. Its result is taken to be `sha256_digest`
/// of the input, and, as the digest type of SHA-256 fixes, 32 bytes long;
/// nothing more of it is claimed.
#[verifier::external_body]
fn sha256(data: &[u8]) -> (r: Vec<u8>)
    ensures
        r@ == sha256_digest(data@),
        r@.len() == 32,
{
    sha2::Sha256::digest(data).to_vec()
}

/// The lowercase hexadecimal digit of a value below 16.
pub open spec fn hex_digit(v: u8) -> char {
    if v < 10 {
        (v + 48) as char
    } else {
        (v + 87) as char
    }
}

/// `bytes` written as lowercase hexadecimal, two digits per byte, the high
/// half first.
pub open spec fn lower_hex(bytes: Seq<u8>) -> Seq<char>
    decreases bytes.len(),
{
    if bytes.len() == 0 {
        Seq::empty()
    } else {
        seq![hex_digit(bytes[0] / 16), hex_digit(bytes[0] % 16)] + lower_hex(bytes.drop_first())
    }
}

/// The hexadecimal digits in order of value.
pub open spec fn hex_table() -> Seq<char> {
    "0123456789abcdef"@
}

proof fn lemma_hex_table(v: u8)
    requires
        v < 16,
    ensures
        hex_table().len() == 16,
        hex_table()[v as int] == hex_digit(v),
{
    reveal_strlit("0123456789abcdef");
    assert(hex_table()[v as int] == hex_digit(v)) by {
        if v == 0 { } else if v == 1 { } else if v == 2 { } else if v == 3 { }
        else if v == 4 { } else if v == 5 { } else if v == 6 { } else if v == 7 { }
        else if v == 8 { } else if v == 9 { } else if v == 10 { } else if v == 11 { }
        else if v == 12 { } else if v == 13 { } else if v == 14 { } else { }
    }
}

/// `data` in lowercase hexadecimal, two digits per byte, high half first.
pub fn hex_encode(data: &[u8]) -> (r: String)
    ensures
        r@ == lower_hex(data@),
{
    let table = "0123456789abcdef";
    let mut r = String::new();
    let n: usize = data.len();
    assert(data@.skip(0) =~= data@);
    for i in 0..n
        invariant
            n == data@.len(),
            table@ == hex_table(),
            r@ + lower_hex(data@.skip(i as int)) == lower_hex(data@),
    {
        let b: u8 = data[i];
        let hi: u8 = b / 16;
        let lo: u8 = b % 16;
        proof {
            lemma_hex_table(hi);
            lemma_hex_table(lo);
        }
        let ghost before = r@;
        r.append(table.substring_char(hi as usize, hi as usize + 1));
        r.append(table.substring_char(lo as usize, lo as usize + 1));
        proof {
            let rest = data@.skip(i as int);
            assert(rest[0] == b);
            assert(rest.drop_first() =~= data@.skip(i + 1));
            assert(r@ =~= before + seq![hex_digit(hi), hex_digit(lo)]);
            assert(lower_hex(rest) == seq![hex_digit(hi), hex_digit(lo)] + lower_hex(
                data@.skip(i + 1),
            ));
            assert(before + lower_hex(rest) =~= r@ + lower_hex(data@.skip(i + 1)));
        }
    }
    assert(data@.skip(n as int) =~= Seq::<u8>::empty());
    assert(r@ + Seq::<char>::empty() =~= r@);
    r
}

/// Lowercase hex encoding: each byte becomes its two digits, the high half
/// first, from `0123456789abcdef`; encoding a concatenation concatenates the
/// encodings.
pub proof fn lemma_lower_hex_laws(a: Seq<u8>, b: Seq<u8>, x: u8)
    ensures
        lower_hex(seq![x]) == seq![
            "0123456789abcdef"@[(x / 16) as int],
            "0123456789abcdef"@[(x % 16) as int],
        ],
        lower_hex(a + b) == lower_hex(a) + lower_hex(b),
        lower_hex(Seq::<u8>::empty()) == Seq::<char>::empty(),
    decreases a.len(),
{
    lemma_hex_table(x / 16);
    lemma_hex_table(x % 16);
    assert(seq![x].drop_first() =~= Seq::<u8>::empty());
    assert(lower_hex(Seq::<u8>::empty()) == Seq::<char>::empty());
    assert(lower_hex(seq![x]) =~= seq![hex_digit(x / 16), hex_digit(x % 16)]);
    if a.len() > 0 {
        lemma_lower_hex_laws(a.drop_first(), b, x);
        assert((a + b).drop_first() =~= a.drop_first() + b);
        assert((a + b)[0] == a[0]);
    } else {
        assert(a + b =~= b);
    }
}

/// The key under which a license's backup is stored: the SHA-256 digest of
/// the license in lowercase hexadecimal. The license itself is never
/// stored.
pub open spec fn license_key(license: Seq<u8>) -> Seq<char> {
    lower_hex(sha256_digest(license))
}

/// A license is stored under its SHA-256 digest in lowercase hex.
pub proof fn lemma_license_key(license: Seq<u8>)
    ensures
        license_key(license) == lower_hex(sha256_digest(license)),
{
}

/// Hex encoding writes two digits per byte, each `0`-`9` or `a`-`f`.
pub proof fn lemma_lower_hex_shape(bytes: Seq<u8>)
    ensures
        lower_hex(bytes).len() == 2 * bytes.len(),
        forall|i: int|
            0 <= i < lower_hex(bytes).len() ==> {
                let c = #[trigger] lower_hex(bytes)[i];
                ('0' <= c <= '9') || ('a' <= c <= 'f')
            },
    decreases bytes.len(),
{
    if bytes.len() > 0 {
        lemma_lower_hex_shape(bytes.drop_first());
        let head = seq![hex_digit(bytes[0] / 16), hex_digit(bytes[0] % 16)];
        let tail = lower_hex(bytes.drop_first());
        assert forall|i: int| 0 <= i < lower_hex(bytes).len() implies {
            let c = #[trigger] lower_hex(bytes)[i];
            ('0' <= c <= '9') || ('a' <= c <= 'f')
        } by {
            if i >= 2 {
                assert(lower_hex(bytes)[i] == tail[i - 2]);
            }
        }
    }
}

/// The storage key of a license (see `license_key`).
pub fn token_hash(license: &[u8]) -> (r: String)
    ensures
        r@ == license_key(license@),
        r@.len() == 64,
        forall|i: int| 0 <= i < 64 ==> {
            let c = #[trigger] r@[i];
            ('0' <= c <= '9') || ('a' <= c <= 'f')
        },
{
    let digest = sha256(license);
    proof {
        lemma_lower_hex_shape(digest@);
    }
    hex_encode(digest.as_slice())
}

/// A member of a JSON document, as far as the payload check tells members
/// apart.
pub enum JsonMember {
    /// The text is not a JSON document.
    NotJson,
    /// The document has no member of that name (or is not an object).
    Absent,
    /// The member is a number that is an unsigned 64-bit integer.
    Unsigned(u64),
    /// The member is a string.
    Text(String),
    /// The member is of another kind.
    Other,
}

/// `JsonMember` as plain values.
pub enum JsonMemberView {
    NotJson,
    Absent,
    Unsigned(u64),
    Text(Seq<char>),
    Other,
}

impl View for JsonMember {
    type V = JsonMemberView;

    open spec fn view(&self) -> JsonMemberView {
        match self {
            JsonMember::NotJson => JsonMemberView::NotJson,
            JsonMember::Absent => JsonMemberView::Absent,
            JsonMember::Unsigned(n) => JsonMemberView::Unsigned(*n),
            JsonMember::Text(s) => JsonMemberView::Text(s@),
            JsonMember::Other => JsonMemberView::Other,
        }
    }
}

/// The member `key` of the JSON document `text`, as `serde_json` reads it.
pub uninterp spec fn json_member_of(text: Seq<char>, key: Seq<char>) -> JsonMemberView;

/// Parses `text` with `serde_json::from_str` into a `serde_json::Value` and
/// looks up the member `key` with `Value::get`; tells the member's variant
/// apart, reading a number with `Number::as_u64`. Claimed: the result is
/// `json_member_of` the text and key; nothing is claimed of which texts
/// parse or what they hold.
#[verifier::external_body]
fn json_member(text: &str, key: &str) -> (r: JsonMember)
    ensures
        r@ == json_member_of(text@, key@),
{
    let value: serde_json::Value = match serde_json::from_str(text) {
        Ok(value) => value,
        Err(_) => return JsonMember::NotJson,
    };
    match value.get(key) {
        None => JsonMember::Absent,
        Some(serde_json::Value::String(s)) => JsonMember::Text(s.clone()),
        Some(serde_json::Value::Number(n)) => match n.as_u64() {
            Some(u) => JsonMember::Unsigned(u),
            None => JsonMember::Other,
        },
        Some(_) => JsonMember::Other,
    }
}

/// The members of a backup envelope: `v`, `salt`, `iv` and `data`.
pub struct PayloadFields {
    pub version: JsonMember,
    pub salt: JsonMember,
    pub iv: JsonMember,
    pub data: JsonMember,
}

/// `PayloadFields` as plain values.
pub type PayloadFieldsView = (JsonMemberView, JsonMemberView, JsonMemberView, JsonMemberView);

impl PayloadFields {
    pub open spec fn view_fields(self) -> PayloadFieldsView {
        (self.version@, self.salt@, self.iv@, self.data@)
    }
}

/// The envelope members of a payload: `v`, `salt`, `iv` and `data`.
pub open spec fn payload_members(text: Seq<char>) -> PayloadFieldsView {
    (
        json_member_of(text, "v"@),
        json_member_of(text, "salt"@),
        json_member_of(text, "iv"@),
        json_member_of(text, "data"@),
    )
}

/// Reads the envelope members of a payload.
pub fn read_payload_fields(text: &str) -> (r: PayloadFields)
    ensures
        r.view_fields() == payload_members(text@),
{
    PayloadFields {
        version: json_member(text, "v"),
        salt: json_member(text, "salt"),
        iv: json_member(text, "iv"),
        data: json_member(text, "data"),
    }
}

/// The UTF-8 length of a text, in bytes.
pub open spec fn byte_len(s: Seq<char>) -> nat {
    encode_utf8(s).len()
}

/// The members of an encrypted backup envelope are as the client writes
/// them: format version 1, a salt of at least 16 bytes, an initialization
/// vector of at least 12 bytes and non-empty ciphertext, each salt, vector
/// and ciphertext a string.
pub open spec fn envelope_fields_valid(f: PayloadFieldsView) -> bool {
    &&& f.0 == JsonMemberView::Unsigned(1)
    &&& f.1 matches JsonMemberView::Text(salt) && byte_len(salt) >= 16
    &&& f.2 matches JsonMemberView::Text(iv) && byte_len(iv) >= 12
    &&& f.3 matches JsonMemberView::Text(data) && data.len() > 0
}

/// Whether the members read from a payload make a valid envelope.
pub fn check_payload_fields(fields: &PayloadFields) -> (r: Result<(), ApiError>)
    ensures
        envelope_fields_valid(fields.view_fields()) ==> r is Ok,
        !envelope_fields_valid(fields.view_fields()) ==> r == Err::<(), ApiError>(
            ApiError::InvalidPayload,
        ),
{
    let version_ok = match &fields.version {
        JsonMember::Unsigned(v) => *v == 1,
        _ => false,
    };
    let salt_ok = match &fields.salt {
        JsonMember::Text(s) => s.as_str().as_bytes().len() >= 16,
        _ => false,
    };
    let iv_ok = match &fields.iv {
        JsonMember::Text(s) => s.as_str().as_bytes().len() >= 12,
        _ => false,
    };
    let data_ok = match &fields.data {
        JsonMember::Text(s) => !s.as_str().is_empty(),
        _ => false,
    };
    if version_ok && salt_ok && iv_ok && data_ok {
        Ok(())
    } else {
        Err(ApiError::InvalidPayload)
    }
}

/// A payload the server will store: at most `MAX_BACKUP_BYTES` bytes of a
/// JSON document whose members make a valid envelope. The server never sees
/// the plaintext; it checks only the envelope's shape.
pub open spec fn payload_acceptable(payload: Seq<char>) -> bool {
    &&& byte_len(payload) <= MAX_BACKUP_BYTES
    &&& envelope_fields_valid(payload_members(payload))
}

/// The envelope rule: a payload of at most 5,000,000 bytes is stored
/// exactly where its member `v` is the unsigned integer 1, `salt` a string
/// of at least 16 bytes, `iv` a string of at least 12 bytes and `data` a
/// non-empty string; a longer payload never is.
pub proof fn lemma_payload_rule(payload: Seq<char>)
    ensures
        byte_len(payload) > 5_000_000 ==> !payload_acceptable(payload),
        byte_len(payload) <= 5_000_000 ==> (payload_acceptable(payload) <==> {
            &&& json_member_of(payload, "v"@) == JsonMemberView::Unsigned(1)
            &&& json_member_of(payload, "salt"@) matches JsonMemberView::Text(salt) && encode_utf8(
                salt,
            ).len() >= 16
            &&& json_member_of(payload, "iv"@) matches JsonMemberView::Text(iv) && encode_utf8(
                iv,
            ).len() >= 12
            &&& json_member_of(payload, "data"@) matches JsonMemberView::Text(data) && data.len()
                > 0
        }),
{
}

/// Accepts a backup payload exactly where it is acceptable (see
/// `payload_acceptable`), and refuses it as `InvalidPayload` otherwise.
pub fn validate_payload(payload: &str) -> (r: Result<(), ApiError>)
    ensures
        byte_len(payload@) > MAX_BACKUP_BYTES ==> r == Err::<(), ApiError>(ApiError::InvalidPayload),
        byte_len(payload@) <= MAX_BACKUP_BYTES ==> if envelope_fields_valid(
            payload_members(payload@),
        ) {
            r is Ok
        } else {
            r == Err::<(), ApiError>(ApiError::InvalidPayload)
        },
        r is Ok <==> payload_acceptable(payload@),
{
    if payload.as_bytes().len() > MAX_BACKUP_BYTES {
        return Err(ApiError::InvalidPayload);
    }
    check_payload_fields(&read_payload_fields(payload))
}

/// A backup ready to be stored: the key of its license and its payload.
pub struct BackupRecord {
    pub license_hash: String,
    pub payload: String,
}

/// The record to store for a `PUT` of `payload` under `license`, or
/// `InvalidPayload` where the payload is not acceptable.
pub fn backup_record(license: &[u8], payload: String) -> (r: Result<BackupRecord, ApiError>)
    ensures
        payload_acceptable(payload@) ==> (r matches Ok(rec) && rec.license_hash@ == license_key(
            license@,
        ) && rec.payload@ == payload@),
        !payload_acceptable(payload@) ==> r is Err && r->Err_0 == ApiError::InvalidPayload,
{
    match validate_payload(payload.as_str()) {
        Ok(()) => Ok(BackupRecord { license_hash: token_hash(license), payload }),
        Err(e) => Err(e),
    }
}

/// A stored backup as the API returns it.
pub struct BackupOutput {
    pub payload: String,
    pub updated_at: String,
}

/// The answer to a `GET` of a backup: the row stored under the license's
/// key, or `NotFound` where there is none.
pub fn found_backup(row: Option<BackupOutput>) -> (r: Result<BackupOutput, ApiError>)
    ensures
        match row {
            Some(b) => r matches Ok(out) && out == b,
            None => r is Err && r->Err_0 == ApiError::NotFound,
        },
{
    match row {
        Some(b) => Ok(b),
        None => Err(ApiError::NotFound),
    }
}

} // verus!
