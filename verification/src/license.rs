//! Licensing: the signed licence token (hex payload, a dot, hex Ed25519
//! signature), the verification key, the machine fingerprint a licence is
//! bound to, and the licence/trial status shown to the user.
use vstd::prelude::*;

use crate::clock::{
    trunc_div, whole_seconds_between, NANOS_PER_SEC, at_nanos, days_between, is_later, moment_valid, parse_rfc3339, rfc3339_moment,
    whole_days_between, Moment,
};
use crate::crypto::{
    check_public_key, ed25519_key_accepted, ed25519_key_refusal, ed25519_public_key, ed25519_signature_valid,
    public_key_of, sha256, sha256_digest, sign_message, verify_signature,
};
use crate::hex::{
    bytes_to_hex, even_offsets_start_chars, hex_decoded, hex_input_ok, hex_readable, hex_text,
    hex_to_bytes, law_hex_roundtrip,
};
use crate::ids::{new_uuid, uuid_shaped};
use crate::models::LicenseStatus;
use crate::text::{
    after_first, before_first, chars_of, concat_chars, count_char, find_char, slice_chars,
    str_equal, string_of, trim_chars, trimmed,
};
use vstd::string::StringSliceAdditionalSpecFns;
use vstd::utf8::encode_utf8;

verus! {

/// Days a fresh installation may be used before a licence is needed.
pub const TRIAL_DAYS: i64 = 15;

/// The verification key built into the application (32 bytes as hex); empty
/// until the vendor fills it in.
pub const DEFAULT_PUBLIC_KEY_HEX: &'static str = "";

/// Why a licence key or token was refused.
#[derive(Clone, Debug, PartialEq, Eq)]
pub enum LicenseError {
    KeyNotConfigured,
    KeyNotHex,
    KeyWrongLength,
    KeyUnreadable(String),
    TokenMalformed,
    PayloadNotHex,
    SignatureNotHex,
    SignatureWrongLength,
    SignatureNotVerified,
    ContentUnreadable,
    UnsupportedVersion,
}

/// The message shown for each refusal.
pub open spec fn error_text(e: LicenseError) -> Seq<char> {
    match e {
        LicenseError::KeyNotConfigured => "Lisans doğrulama anahtarı yapılandırılmamış."@,
        LicenseError::KeyNotHex => "Lisans anahtarı geçersiz hex."@,
        LicenseError::KeyWrongLength => "Lisans anahtarı 32 bayt olmalı."@,
        LicenseError::KeyUnreadable(detail) => "Lisans anahtarı okunamadı: "@ + detail@,
        LicenseError::TokenMalformed => "Lisans token'ı bozuk."@,
        LicenseError::PayloadNotHex => "Lisans token'ı bozuk (payload)."@,
        LicenseError::SignatureNotHex => "Lisans token'ı bozuk (imza)."@,
        LicenseError::SignatureWrongLength => "Lisans imzası geçersiz."@,
        LicenseError::SignatureNotVerified => "Lisans imzası doğrulanamadı."@,
        LicenseError::ContentUnreadable => "Lisans içeriği okunamadı."@,
        LicenseError::UnsupportedVersion => "Desteklenmeyen lisans sürümü."@,
    }
}

impl LicenseError {
    /// The message shown for this refusal.
    pub fn message(&self) -> (r: String)
        ensures
            r@ == error_text(*self),
    {
        match self {
            LicenseError::KeyNotConfigured => "Lisans doğrulama anahtarı yapılandırılmamış.".to_string(),
            LicenseError::KeyNotHex => "Lisans anahtarı geçersiz hex.".to_string(),
            LicenseError::KeyWrongLength => "Lisans anahtarı 32 bayt olmalı.".to_string(),
            LicenseError::KeyUnreadable(detail) => {
                let mut m = "Lisans anahtarı okunamadı: ".to_string();
                m.append(detail.as_str());
                m
            },
            LicenseError::TokenMalformed => "Lisans token'ı bozuk.".to_string(),
            LicenseError::PayloadNotHex => "Lisans token'ı bozuk (payload).".to_string(),
            LicenseError::SignatureNotHex => "Lisans token'ı bozuk (imza).".to_string(),
            LicenseError::SignatureWrongLength => "Lisans imzası geçersiz.".to_string(),
            LicenseError::SignatureNotVerified => "Lisans imzası doğrulanamadı.".to_string(),
            LicenseError::ContentUnreadable => "Lisans içeriği okunamadı.".to_string(),
            LicenseError::UnsupportedVersion => "Desteklenmeyen lisans sürümü.".to_string(),
        }
    }
}

// ─── The payload's JSON ──────────────────────────────────────────────

/// Whether `serde_json::from_slice::<serde_json::Value>` reads `bytes`.
pub uninterp spec fn json_valid(bytes: Seq<u8>) -> bool;

/// The integer member `key` of the JSON object in `bytes` (`None` when the
/// bytes are not JSON, not an object, lack the member, or it is not an
/// integer that fits `i64`).
pub uninterp spec fn json_int_member(bytes: Seq<u8>, key: Seq<char>) -> Option<i64>;

/// The string member `key` of the JSON object in `bytes` (`None` when the
/// bytes are not JSON, not an object, lack the member, or it is not a string).
pub uninterp spec fn json_text_member(bytes: Seq<u8>, key: Seq<char>) -> Option<Seq<char>>;

/// Calls `serde_json::from_slice::<serde_json::Value>`; whether it succeeds
/// is named `json_valid`.
#[verifier::external_body]
fn json_reads(bytes: &[u8]) -> (r: bool)
    ensures
        r == json_valid(bytes@),
{
    serde_json::from_slice::<serde_json::Value>(bytes).is_ok()
}

/// Calls `serde_json::from_slice::<serde_json::Value>` and reads member
/// `key` with `Value::get` and `Value::as_i64`; the result is named
/// `json_int_member`.
#[verifier::external_body]
fn json_int(bytes: &[u8], key: &str) -> (r: Option<i64>)
    ensures
        r == json_int_member(bytes@, key@),
{
    serde_json::from_slice::<serde_json::Value>(bytes).ok().and_then(|v| v.get(key).and_then(|x| x.as_i64()))
}

/// Calls `serde_json::from_slice::<serde_json::Value>` and reads member
/// `key` with `Value::get` and `Value::as_str`; the result is named
/// `json_text_member`.
#[verifier::external_body]
pub(crate) fn json_text(bytes: &[u8], key: &str) -> (r: Option<String>)
    ensures
        opt_text(r) == json_text_member(bytes@, key@),
{
    serde_json::from_slice::<serde_json::Value>(bytes).ok().and_then(
        |v| v.get(key).and_then(|x| x.as_str()).map(|s| s.to_string()),
    )
}

pub open spec fn opt_text(o: Option<String>) -> Option<Seq<char>> {
    match o {
        Some(s) => Some(s@),
        None => None,
    }
}

/// The members of a licence payload that the application reads.
#[derive(Clone, Debug)]
pub struct LicensePayload {
    pub version: Option<i64>,
    pub license_id: Option<String>,
    pub business_name: Option<String>,
    pub machine_hash: Option<String>,
    pub expires_at: Option<String>,
}

/// `p` holds what the JSON `bytes` say.
pub open spec fn payload_of(p: LicensePayload, bytes: Seq<u8>) -> bool {
    &&& p.version == json_int_member(bytes, "v"@)
    &&& opt_text(p.license_id) == json_text_member(bytes, "license_id"@)
    &&& opt_text(p.business_name) == json_text_member(bytes, "business_name"@)
    &&& opt_text(p.machine_hash) == json_text_member(bytes, "machine_hash"@)
    &&& opt_text(p.expires_at) == json_text_member(bytes, "expires_at"@)
}

/// Reads the payload members from JSON bytes.
pub fn read_payload(bytes: &[u8]) -> (r: LicensePayload)
    ensures
        payload_of(r, bytes@),
{
    LicensePayload {
        version: json_int(bytes, "v"),
        license_id: json_text(bytes, "license_id"),
        business_name: json_text(bytes, "business_name"),
        machine_hash: json_text(bytes, "machine_hash"),
        expires_at: json_text(bytes, "expires_at"),
    }
}

// ─── Tokens ──────────────────────────────────────────────────────────

/// The hex texts (as UTF-8 bytes) that `hex_to_bytes` reads without
/// cutting a character in two.
pub open spec fn hex_bytes_ok(b: Seq<u8>) -> bool {
    b.len() % 2 != 0 || even_offsets_start_chars(b)
}

/// The tokens whose hex parts are read without cutting a character: the
/// payload part always, the signature part once the payload part has read.
pub open spec fn token_input_ok(token: Seq<char>) -> bool {
    count_char(token, '.') == 1 ==> {
        let p0 = encode_utf8(before_first(token, '.'));
        let p1 = encode_utf8(after_first(token, '.'));
        hex_bytes_ok(p0) && (hex_decoded(p0) is Some ==> hex_bytes_ok(p1))
    }
}

/// How a token checks against the public key `key`: the payload bytes it
/// carries, or the first refusal. A token is a hex payload, one `.`, and a
/// hex signature of 64 bytes that verifies for the payload; the payload is
/// JSON whose member `v` is 1.
pub open spec fn token_check(token: Seq<char>, key: Seq<u8>) -> Result<Seq<u8>, LicenseError> {
    if count_char(token, '.') != 1 {
        Err(LicenseError::TokenMalformed)
    } else {
        match hex_decoded(encode_utf8(before_first(token, '.'))) {
            None => Err(LicenseError::PayloadNotHex),
            Some(msg) => match hex_decoded(encode_utf8(after_first(token, '.'))) {
                None => Err(LicenseError::SignatureNotHex),
                Some(sig) => if sig.len() != 64 {
                    Err(LicenseError::SignatureWrongLength)
                } else if !ed25519_signature_valid(key, msg, sig) {
                    Err(LicenseError::SignatureNotVerified)
                } else if !json_valid(msg) {
                    Err(LicenseError::ContentUnreadable)
                } else if json_int_member(msg, "v"@) != Some(1i64) {
                    Err(LicenseError::UnsupportedVersion)
                } else {
                    Ok(msg)
                },
            },
        }
    }
}

/// Checks a licence token against the public key `key` (32 bytes) and
/// reads its payload.
pub fn parse_token_with(token: &str, key: &[u8]) -> (r: Result<LicensePayload, LicenseError>)
    requires
        key@.len() == 32,
        token_input_ok(token@),
    ensures
        match token_check(token@, key@) {
            Ok(msg) => r matches Ok(p) && payload_of(p, msg),
            Err(e) => r == Err::<LicensePayload, LicenseError>(e),
        },
{
    let all = chars_of(token);
    let cut = find_char(&all, '.');
    if cut == all.len() {
        return Err(LicenseError::TokenMalformed);
    }
    let rest = slice_chars(&all, cut + 1, all.len());
    assert(rest@ == all@.skip(cut + 1));
    let cut2 = find_char(&rest, '.');
    if cut2 < rest.len() {
        return Err(LicenseError::TokenMalformed);
    }
    let head = slice_chars(&all, 0, cut);
    let head_text = string_of(&head);
    let tail_text = string_of(&rest);
    let msg = match hex_to_bytes(head_text.as_str()) {
        Some(b) => b,
        None => {
            return Err(LicenseError::PayloadNotHex);
        },
    };
    let sig = match hex_to_bytes(tail_text.as_str()) {
        Some(b) => b,
        None => {
            return Err(LicenseError::SignatureNotHex);
        },
    };
    if sig.len() != 64 {
        return Err(LicenseError::SignatureWrongLength);
    }
    if !verify_signature(key, msg.as_slice(), sig.as_slice()) {
        return Err(LicenseError::SignatureNotVerified);
    }
    if !json_reads(msg.as_slice()) {
        return Err(LicenseError::ContentUnreadable);
    }
    let payload = read_payload(msg.as_slice());
    match payload.version {
        Some(v) => {
            if v != 1 {
                return Err(LicenseError::UnsupportedVersion);
            }
        },
        None => {
            return Err(LicenseError::UnsupportedVersion);
        },
    }
    Ok(payload)
}

/// The token text for payload bytes `msg` and signature bytes `sig`.
pub open spec fn token_text(msg: Seq<u8>, sig: Seq<u8>) -> Seq<char> {
    hex_text(msg) + seq!['.'] + hex_text(sig)
}

/// Signs the JSON payload `payload_json` with the secret key `secret` (32
/// bytes) and writes the token: hex payload, `.`, hex signature.
pub fn encode_token(payload_json: &[u8], secret: &[u8]) -> (r: String)
    requires
        secret@.len() == 32,
    ensures
        exists|sig: Seq<u8>|
            sig.len() == 64 && ed25519_signature_valid(
                crate::crypto::ed25519_public_key(secret@),
                payload_json@,
                sig,
            ) && sig == crate::crypto::ed25519_signature(secret@, payload_json@) && r@
                == token_text(payload_json@, sig),
{
    let sig = sign_message(secret, payload_json);
    let a = chars_of(bytes_to_hex(payload_json).as_str());
    let b = chars_of(bytes_to_hex(sig.as_slice()).as_str());
    let mut dot: Vec<char> = Vec::new();
    dot.push('.');
    let ad = concat_chars(&a, &dot);
    let all = concat_chars(&ad, &b);
    let r = string_of(&all);
    assert(r@ == token_text(payload_json@, sig@));
    r
}

proof fn lemma_split_joined(a: Seq<char>, b: Seq<char>, c: char)
    requires
        count_char(a, c) == 0,
    ensures
        before_first(a + seq![c] + b, c) == a,
        after_first(a + seq![c] + b, c) == b,
        count_char(a + seq![c] + b, c) == 1 + count_char(b, c),
    decreases a.len(),
{
    if a.len() == 0 {
        assert(a + seq![c] + b =~= seq![c] + b);
        assert((seq![c] + b).drop_first() =~= b);
    } else {
        assert((a + seq![c] + b).drop_first() =~= a.drop_first() + seq![c] + b);
        lemma_split_joined(a.drop_first(), b, c);
        assert(a =~= seq![a[0]] + a.drop_first());
    }
}

proof fn lemma_no_dot(t: Seq<char>)
    requires
        forall|i: int| 0 <= i < t.len() ==> #[trigger] t[i] != '.',
    ensures
        count_char(t, '.') == 0,
    decreases t.len(),
{
    if t.len() > 0 {
        assert forall|i: int| 0 <= i < t.drop_first().len() implies #[trigger] t.drop_first()[i]
            != '.' by {
            assert(t.drop_first()[i] == t[i + 1]);
        }
        lemma_no_dot(t.drop_first());
    }
}

proof fn lemma_hex_text_no_dot(b: Seq<u8>)
    ensures
        forall|i: int| 0 <= i < hex_text(b).len() ==> #[trigger] hex_text(b)[i] != '.',
{
    assert forall|i: int| 0 <= i < hex_text(b).len() implies #[trigger] hex_text(b)[i] != '.' by {
        let v = if i % 2 == 0 {
            b[i / 2] / 16
        } else {
            b[i / 2] % 16
        };
        assert(0 <= v < 16);
    }
}

/// A token made from a payload and a signature that verifies under `key`
/// checks out with the payload it carries, provided the payload is JSON
/// with `v` equal to 1; and it is one that `parse_token_with` reads
/// without cutting a character.
pub proof fn law_token_roundtrip(msg: Seq<u8>, sig: Seq<u8>, key: Seq<u8>)
    requires
        sig.len() == 64,
        ed25519_signature_valid(key, msg, sig),
        json_valid(msg),
        json_int_member(msg, "v"@) == Some(1i64),
    ensures
        token_input_ok(token_text(msg, sig)),
        token_check(token_text(msg, sig), key) == Ok::<Seq<u8>, LicenseError>(msg),
{
    let a = hex_text(msg);
    let b = hex_text(sig);
    lemma_hex_text_no_dot(msg);
    lemma_hex_text_no_dot(sig);
    lemma_no_dot(a);
    lemma_no_dot(b);
    lemma_split_joined(a, b, '.');
    law_hex_roundtrip(msg);
    law_hex_roundtrip(sig);
}

// ─── The verification key ────────────────────────────────────────────

/// The key text in use: the configured one when it is not blank, the
/// built-in one otherwise.
pub open spec fn key_text(configured: Option<Seq<char>>) -> Seq<char> {
    match configured {
        Some(t) => if trimmed(t).len() > 0 {
            t
        } else {
            DEFAULT_PUBLIC_KEY_HEX@
        },
        None => DEFAULT_PUBLIC_KEY_HEX@,
    }
}

/// How the verification key reads from `text`: 32 bytes of hex that
/// `ed25519-dalek` accepts as a public key, or the first refusal (a key
/// that is not accepted is refused by `check_public_key`, whose message is
/// carried along).
pub open spec fn key_check_ok(text: Seq<char>) -> Option<Seq<u8>> {
    if trimmed(text).len() == 0 {
        None
    } else {
        match hex_decoded(encode_utf8(text)) {
            Some(b) => if b.len() == 32 && ed25519_key_accepted(b) {
                Some(b)
            } else {
                None
            },
            None => None,
        }
    }
}

/// The public key that licence tokens are checked against: `configured` is
/// the key text set in the environment (if any).
pub fn public_key(configured: Option<&str>) -> (r: Result<Vec<u8>, LicenseError>)
    requires
        configured matches Some(t) ==> hex_input_ok(t),
    ensures
        ({
            let text = key_text(crate::billing::opt_view(configured));
            &&& r matches Ok(k) ==> key_check_ok(text) == Some(k@)
            &&& r is Err ==> key_check_ok(text) is None
            &&& trimmed(text).len() == 0 ==> r == Err::<Vec<u8>, LicenseError>(
                LicenseError::KeyNotConfigured,
            )
            &&& trimmed(text).len() > 0 && hex_decoded(encode_utf8(text)) is None ==> r == Err::<
                Vec<u8>,
                LicenseError,
            >(LicenseError::KeyNotHex)
            &&& trimmed(text).len() > 0 && (hex_decoded(encode_utf8(text)) matches Some(b)
                && b.len() != 32) ==> r == Err::<Vec<u8>, LicenseError>(
                LicenseError::KeyWrongLength,
            )
            &&& r matches Err(LicenseError::KeyUnreadable(_)) ==> (hex_decoded(
                encode_utf8(text),
            ) matches Some(b) && b.len() == 32 && !ed25519_key_accepted(b))
            &&& trimmed(text).len() > 0 ==> match hex_decoded(encode_utf8(text)) {
                Some(b) => (b.len() == 32 && ed25519_key_refusal(b) is Some) ==> (r matches Err(
                    LicenseError::KeyUnreadable(d),
                ) && Some(d@) == ed25519_key_refusal(b)),
                None => true,
            }
        }),
{
    let chosen: &str = match configured {
        Some(t) => {
            let tc = chars_of(t);
            let tt = trim_chars(&tc);
            if tt.len() > 0 {
                t
            } else {
                DEFAULT_PUBLIC_KEY_HEX
            }
        },
        None => DEFAULT_PUBLIC_KEY_HEX,
    };
    let cc = chars_of(chosen);
    let ct = trim_chars(&cc);
    if ct.len() == 0 {
        return Err(LicenseError::KeyNotConfigured);
    }
    proof {
        if configured is None || chosen@ == DEFAULT_PUBLIC_KEY_HEX@ {
            reveal_strlit("");
            assert(trimmed(chosen@).len() == 0);
        }
    }
    let bytes = match hex_to_bytes(chosen) {
        Some(b) => b,
        None => {
            return Err(LicenseError::KeyNotHex);
        },
    };
    if bytes.len() != 32 {
        return Err(LicenseError::KeyWrongLength);
    }
    match check_public_key(bytes.as_slice()) {
        Ok(()) => Ok(bytes),
        Err(e) => Err(LicenseError::KeyUnreadable(e)),
    }
}

/// The hex text of the public key that belongs to the 32-byte signing key
/// `secret`: the text to configure so that `public_key` reads back the key
/// under which the tokens of `encode_token(_, secret)` verify.
pub fn public_key_hex(secret: &[u8]) -> (r: String)
    requires
        secret@.len() == 32,
    ensures
        r@ == hex_text(ed25519_public_key(secret@)),
        key_check_ok(r@) == Some(ed25519_public_key(secret@)),
{
    let key = public_key_of(secret);
    let r = bytes_to_hex(key.as_slice());
    proof {
        let t = r@;
        law_hex_roundtrip(key@);
        assert(t.len() == 64);
        assert(!crate::text::is_white_space(t[0]));
        assert(!crate::text::is_white_space(t.last()));
        assert(crate::text::leading_space(t) == 0);
        assert(t.skip(0) =~= t);
        assert(crate::text::trailing_space(t) == 0);
        assert(trimmed(t) =~= t);
    }
    r
}

// ─── Expiry and status ───────────────────────────────────────────────

/// Whether a licence whose `expires_at` member reads `expires_at` has run
/// out at `now`: never without an expiry or with one that is not RFC 3339.
pub open spec fn spec_is_expired(expires_at: Option<Seq<char>>, now: Moment) -> bool {
    match expires_at {
        None => false,
        Some(t) => match rfc3339_moment(t) {
            Some(m) => at_nanos(now) > at_nanos(m),
            None => false,
        },
    }
}

/// Whether the licence has run out at `now`.
pub fn is_expired(expires_at: Option<&str>, now: Moment) -> (r: bool)
    requires
        moment_valid(now),
    ensures
        r == spec_is_expired(crate::billing::opt_view(expires_at), now),
{
    match expires_at {
        None => false,
        Some(t) => match parse_rfc3339(t) {
            Some(m) => is_later(now, m),
            None => false,
        },
    }
}

/// Whether the payload names `machine` as the machine it is bound to.
pub fn bound_to_machine(payload: &LicensePayload, machine: &str) -> (r: bool)
    ensures
        r == (opt_text(payload.machine_hash) == Some(machine@)),
{
    match &payload.machine_hash {
        Some(h) => str_equal(h.as_str(), machine),
        None => false,
    }
}

fn text(s: &str) -> (r: String)
    ensures
        r@ == s@,
{
    s.to_string()
}

/// The status of a valid licence.
pub fn licensed_status(payload: &LicensePayload) -> (r: LicenseStatus)
    ensures
        r.state@ == "licensed"@,
        opt_text(r.license_id) == opt_text(payload.license_id),
        opt_text(r.business_name) == opt_text(payload.business_name),
        r.trial_days_left is None,
        r.message is None,
{
    LicenseStatus {
        state: text("licensed"),
        license_id: payload.license_id.clone(),
        business_name: payload.business_name.clone(),
        trial_days_left: None,
        message: None,
    }
}

/// What `status_for_token` shows (see there) for the checked token, the
/// machine, the revocation flag and the time `now`.
pub open spec fn token_status_ok(
    checked: Result<LicensePayload, LicenseError>,
    machine: Seq<char>,
    revoked: bool,
    now: Moment,
    r: LicenseStatus,
) -> bool {
    &&& r.trial_days_left is None
    &&& match checked {
        Err(e) => r.state@ == "locked"@ && r.license_id is None && r.business_name is None
            && opt_text(r.message) == Some(error_text(e)),
        Ok(p) => if opt_text(p.machine_hash) != Some(machine) {
            r.state@ == "locked"@ && r.license_id is None && r.business_name is None
                && opt_text(r.message) == Some("Bu lisans farklı bir bilgisayara bağlı."@)
        } else if revoked {
            r.state@ == "locked"@ && opt_text(r.license_id) == opt_text(p.license_id)
                && opt_text(r.business_name) == opt_text(p.business_name) && opt_text(
                r.message,
            ) == Some("Bu lisans iptal edilmiştir. Satıcıyla iletişime geçin."@)
        } else if spec_is_expired(opt_text(p.expires_at), now) {
            r.state@ == "expired"@ && opt_text(r.license_id) == opt_text(p.license_id)
                && opt_text(r.business_name) == opt_text(p.business_name) && opt_text(
                r.message,
            ) == Some("Lisans süresi doldu."@)
        } else {
            r.state@ == "licensed"@ && opt_text(r.license_id) == opt_text(p.license_id)
                && opt_text(r.business_name) == opt_text(p.business_name) && r.message is None
        },
    }
}

/// The status shown for a stored licence token, once it has been checked
/// (`checked`), given this machine's fingerprint, whether the licence
/// server has revoked it, and the time now. The first that applies wins:
/// a refused token locks the application with the refusal's message; a
/// token bound to another machine locks it; a revoked licence locks it; an
/// expired one is shown expired; otherwise it is licensed.
pub fn status_for_token(
    checked: &Result<LicensePayload, LicenseError>,
    machine: &str,
    revoked: bool,
    now: Moment,
) -> (r: LicenseStatus)
    requires
        moment_valid(now),
    ensures
        token_status_ok(*checked, machine@, revoked, now, r),
{
    match checked {
        Err(e) => LicenseStatus {
            state: text("locked"),
            license_id: None,
            business_name: None,
            trial_days_left: None,
            message: Some(e.message()),
        },
        Ok(p) => {
            if !bound_to_machine(p, machine) {
                return LicenseStatus {
                    state: text("locked"),
                    license_id: None,
                    business_name: None,
                    trial_days_left: None,
                    message: Some(text("Bu lisans farklı bir bilgisayara bağlı.")),
                };
            }
            if revoked {
                return LicenseStatus {
                    state: text("locked"),
                    license_id: p.license_id.clone(),
                    business_name: p.business_name.clone(),
                    trial_days_left: None,
                    message: Some(text("Bu lisans iptal edilmiştir. Satıcıyla iletişime geçin.")),
                };
            }
            let expired = match &p.expires_at {
                Some(t) => is_expired(Some(t.as_str()), now),
                None => is_expired(None, now),
            };
            if expired {
                return LicenseStatus {
                    state: text("expired"),
                    license_id: p.license_id.clone(),
                    business_name: p.business_name.clone(),
                    trial_days_left: None,
                    message: Some(text("Lisans süresi doldu.")),
                };
            }
            licensed_status(p)
        },
    }
}

/// The trial status, and whether the trial's start must be recorded now.
#[derive(Clone, Debug)]
pub struct TrialOutcome {
    pub status: LicenseStatus,
    pub record_start: bool,
}

/// What `trial_status` gives (see there) for the recorded start
/// `started_at` at `now`.
pub open spec fn trial_outcome_ok(started_at: Option<Seq<char>>, now: Moment, r: TrialOutcome) -> bool {
    let start = match started_at {
        Some(t) => match rfc3339_moment(t) {
            Some(m) => m,
            None => now,
        },
        None => now,
    };
    let days = whole_days_between(now, start);
    &&& r.record_start == (match started_at {
        Some(t) => rfc3339_moment(t) is None,
        None => true,
    })
    &&& r.status.license_id is None
    &&& r.status.business_name is None
    &&& r.status.trial_days_left == Some(trial_days_left(start, now) as i64)
    &&& if days >= TRIAL_DAYS {
        &&& r.status.state@ == "expired"@
        &&& r.status.trial_days_left == Some(0i64)
        &&& opt_text(r.status.message) == Some(
            "Deneme süresi doldu. Lisans anahtarı girin."@,
        )
    } else {
        &&& r.status.state@ == "trial"@
        &&& r.status.trial_days_left == Some((TRIAL_DAYS - days) as i64)
        &&& r.status.message is None
    }
}

/// The trial status at `now` when the trial's start was recorded as
/// `started_at` (none, or text that is not RFC 3339, means it starts now
/// and must be recorded). After `TRIAL_DAYS` whole days the trial has
/// expired; before that the days left are shown.
pub fn trial_status(started_at: Option<&str>, now: Moment) -> (r: TrialOutcome)
    requires
        moment_valid(now),
    ensures
        trial_outcome_ok(crate::billing::opt_view(started_at), now, r),
{
    let (start, record_start) = match started_at {
        Some(t) => match parse_rfc3339(t) {
            Some(m) => (m, false),
            None => (now, true),
        },
        None => (now, true),
    };
    let days = days_between(now, start);
    if days >= TRIAL_DAYS {
        TrialOutcome {
            status: LicenseStatus {
                state: text("expired"),
                license_id: None,
                business_name: None,
                trial_days_left: Some(0),
                message: Some(text("Deneme süresi doldu. Lisans anahtarı girin.")),
            },
            record_start,
        }
    } else {
        TrialOutcome {
            status: LicenseStatus {
                state: text("trial"),
                license_id: None,
                business_name: None,
                trial_days_left: Some(TRIAL_DAYS - days),
                message: None,
            },
            record_start,
        }
    }
}

/// The trial status at the time the clock reads now, with that time.
pub fn trial_status_now(started_at: Option<&str>) -> (r: (Moment, TrialOutcome))
    ensures
        moment_valid(r.0),
        trial_outcome_ok(crate::billing::opt_view(started_at), r.0, r.1),
{
    let now = crate::clock::now();
    (now, trial_status(started_at, now))
}

/// The status shown for a stored licence token at the time the clock reads
/// now, with that time.
pub fn status_for_token_now(
    checked: &Result<LicensePayload, LicenseError>,
    machine: &str,
    revoked: bool,
) -> (r: (Moment, LicenseStatus))
    ensures
        moment_valid(r.0),
        token_status_ok(*checked, machine@, revoked, r.0, r.1),
{
    let now = crate::clock::now();
    (now, status_for_token(checked, machine, revoked, now))
}

/// The days of trial left at `now` for a trial that started at `start`, as
/// `trial_status` shows them: none once `TRIAL_DAYS` whole days have passed.
pub open spec fn trial_days_left(start: Moment, now: Moment) -> int {
    let days = whole_days_between(now, start);
    if days >= TRIAL_DAYS {
        0
    } else {
        TRIAL_DAYS - days
    }
}

proof fn lemma_trunc_div_monotone(a: int, b: int, d: int)
    requires
        a <= b,
        d > 0,
    ensures
        trunc_div(a, d) <= trunc_div(b, d),
{
    if a >= 0 {
        assert(a / d <= b / d) by (nonlinear_arith)
            requires
                0 <= a <= b,
                d > 0,
        ;
    } else if b >= 0 {
        assert(-((-a) / d) <= 0) by (nonlinear_arith)
            requires
                a < 0,
                d > 0,
        ;
        assert(b / d >= 0) by (nonlinear_arith)
            requires
                b >= 0,
                d > 0,
        ;
    } else {
        assert((-b) / d <= (-a) / d) by (nonlinear_arith)
            requires
                0 < -b <= -a,
                d > 0,
        ;
    }
}

/// The trial only runs down: at a later moment no more days are left than
/// at an earlier one, and once it has expired it stays expired. While it
/// runs, the days left and the whole days used add up to `TRIAL_DAYS`.
pub proof fn law_trial_only_runs_down(start: Moment, earlier: Moment, later: Moment)
    requires
        moment_valid(start),
        moment_valid(earlier),
        moment_valid(later),
        at_nanos(earlier) <= at_nanos(later),
    ensures
        trial_days_left(start, later) <= trial_days_left(start, earlier),
        trial_days_left(start, earlier) == 0 ==> trial_days_left(start, later) == 0,
        trial_days_left(start, later) > 0 ==> trial_days_left(start, later) + whole_days_between(
            later,
            start,
        ) == TRIAL_DAYS,
{
    let d = NANOS_PER_SEC as int;
    lemma_trunc_div_monotone(at_nanos(earlier) - at_nanos(start), at_nanos(later) - at_nanos(start), d);
    lemma_trunc_div_monotone(whole_seconds_between(earlier, start), whole_seconds_between(later, start), 86400);
}

// ─── Machine fingerprint ─────────────────────────────────────────────

/// The domain-separation prefix hashed before the machine's GUID.
pub const MACHINE_HASH_PREFIX: &'static str = "oyun-kafe-lic-v1";

/// The fingerprint a licence is bound to for a machine whose GUID is
/// `guid`: the lower-case hex SHA-256 of the prefix followed by the GUID.
pub open spec fn machine_hash_text(guid: Seq<char>) -> Seq<char> {
    hex_text(sha256_digest(encode_utf8(MACHINE_HASH_PREFIX@) + encode_utf8(guid)))
}

/// The fingerprint of the machine whose GUID is `guid` (used when the GUID
/// could be read).
pub fn machine_hash_for_guid(guid: &str) -> (r: String)
    ensures
        r@ == machine_hash_text(guid@),
{
    let mut data: Vec<u8> = Vec::new();
    data.extend_from_slice(MACHINE_HASH_PREFIX.as_bytes());
    data.extend_from_slice(guid.as_bytes());
    assert(data@ =~= encode_utf8(MACHINE_HASH_PREFIX@) + encode_utf8(guid@));
    let digest = sha256(data.as_slice());
    bytes_to_hex(&digest)
}

// ─── Reading tokens safely ───────────────────────────────────────────

/// Whether `parse_token_with` reads `token` without cutting a character
/// (see `token_input_ok`).
pub fn token_readable(token: &str) -> (r: bool)
    ensures
        r == token_input_ok(token@),
{
    let all = chars_of(token);
    let cut = find_char(&all, '.');
    if cut == all.len() {
        return true;
    }
    let rest = slice_chars(&all, cut + 1, all.len());
    assert(rest@ == all@.skip(cut + 1));
    let cut2 = find_char(&rest, '.');
    if cut2 < rest.len() {
        assert(count_char(token@, '.') > 1);
        return true;
    }
    let head = string_of(&slice_chars(&all, 0, cut));
    let tail = string_of(&rest);
    if !hex_readable(head.as_str()) {
        return false;
    }
    match hex_to_bytes(head.as_str()) {
        Some(_) => hex_readable(tail.as_str()),
        None => true,
    }
}

// ─── The licence server ──────────────────────────────────────────────

/// The licence server built into the application; a placeholder until the
/// vendor fills it in.
pub const LICENSE_SERVER_URL: &'static str = "https://YOUR-PROJECT-REF.supabase.co";

/// The licence server's public access key built into the application;
/// empty until the vendor fills it in.
pub const LICENSE_ANON_KEY: &'static str = "";

/// The licence server in use: the configured address when it is not blank
/// (as given), else the built-in one trimmed, unless that is blank or still
/// the placeholder.
pub open spec fn server_url_of(configured: Option<Seq<char>>) -> Option<Seq<char>> {
    match configured {
        Some(c) if trimmed(c).len() > 0 => Some(c),
        _ => {
            let b = trimmed(LICENSE_SERVER_URL@);
            if b.len() == 0 || crate::text::starts_with(b, "https://YOUR-"@) {
                None
            } else {
                Some(b)
            }
        },
    }
}

/// The licence server in use (see `server_url_of`).
pub fn license_server_url(configured: Option<&str>) -> (r: Option<String>)
    ensures
        opt_text(r) == server_url_of(crate::billing::opt_view(configured)),
{
    match configured {
        Some(c) => {
            if trim_chars(&chars_of(c)).len() > 0 {
                return Some(c.to_string());
            }
        },
        None => {},
    }
    let b = trim_chars(&chars_of(LICENSE_SERVER_URL));
    if b.len() == 0 || crate::text::starts_with_chars(&b, &chars_of("https://YOUR-")) {
        None
    } else {
        Some(string_of(&b))
    }
}

/// The licence server's access key in use: the configured one trimmed when
/// it is not blank, else the built-in one trimmed when it is not blank,
/// else the member `anon_key` of the cloud settings file `settings`
/// trimmed, when there is one and it is not blank.
pub open spec fn anon_key_of(configured: Option<Seq<char>>, settings: Option<Seq<u8>>) -> Option<Seq<char>> {
    if configured matches Some(c) && trimmed(c).len() > 0 {
        Some(trimmed(configured->0))
    } else if trimmed(LICENSE_ANON_KEY@).len() > 0 {
        Some(trimmed(LICENSE_ANON_KEY@))
    } else {
        match settings {
            Some(raw) => match json_text_member(raw, "anon_key"@) {
                Some(k) => if trimmed(k).len() > 0 {
                    Some(trimmed(k))
                } else {
                    None
                },
                None => None,
            },
            None => None,
        }
    }
}

/// The licence server's access key in use (see `anon_key_of`); `settings`
/// is the text of the cloud settings file, if it could be read.
pub fn license_anon_key(configured: Option<&str>, settings: Option<&str>) -> (r: Option<String>)
    ensures
        opt_text(r) == anon_key_of(
            crate::billing::opt_view(configured),
            match settings {
                Some(t) => Some(t.spec_bytes()),
                None => None,
            },
        ),
{
    match configured {
        Some(c) => {
            let t = trim_chars(&chars_of(c));
            if t.len() > 0 {
                return Some(string_of(&t));
            }
        },
        None => {},
    }
    let b = trim_chars(&chars_of(LICENSE_ANON_KEY));
    if b.len() > 0 {
        return Some(string_of(&b));
    }
    match settings {
        Some(raw) => match json_text(raw.as_bytes(), "anon_key") {
            Some(k) => {
                let t = trim_chars(&chars_of(k.as_str()));
                if t.len() > 0 {
                    Some(string_of(&t))
                } else {
                    None
                }
            },
            None => None,
        },
        None => None,
    }
}

/// The address of the licence server's `action` endpoint: the server
/// without trailing slashes, then `/functions/v1/license/` and the action.
pub open spec fn endpoint_of(server: Seq<char>, action: Seq<char>) -> Seq<char> {
    without_trailing_slashes(server) + "/functions/v1/license/"@ + action
}

/// `s` without the slashes at its end.
pub open spec fn without_trailing_slashes(s: Seq<char>) -> Seq<char>
    decreases s.len(),
{
    if s.len() > 0 && s.last() == '/' {
        without_trailing_slashes(s.drop_last())
    } else {
        s
    }
}

/// The address of the licence server's `action` endpoint (see
/// `endpoint_of`).
pub fn license_endpoint(server: &str, action: &str) -> (r: String)
    ensures
        r@ == endpoint_of(server@, action@),
{
    let v = chars_of(server);
    let mut j: usize = v.len();
    assert(v@.take(j as int) =~= v@);
    while j > 0 && v[j - 1] == '/'
        invariant
            j <= v.len(),
            without_trailing_slashes(v@) == without_trailing_slashes(v@.take(j as int)),
        decreases j,
    {
        assert(v@.take(j as int).drop_last() =~= v@.take(j - 1));
        j = j - 1;
    }
    let base = string_of(&slice_chars(&v, 0, j));
    assert(v@.subrange(0, j as int) =~= v@.take(j as int));
    let a = crate::text::cat(base.as_str(), "/functions/v1/license/");
    crate::text::cat(a.as_str(), action)
}

// ─── This machine's identity ─────────────────────────────────────────

/// The identity a licence is bound to, and whether it is a fresh one that
/// must be saved.
#[derive(Clone, Debug)]
pub struct MachineId {
    pub id: String,
    pub fresh: bool,
}

/// This machine's identity: the fingerprint of its GUID when the GUID
/// could be read (is not empty); otherwise the identity saved earlier
/// (trimmed) when there is one; otherwise a fresh random UUID, to be saved.
pub fn machine_id(guid: &str, saved: Option<&str>) -> (r: MachineId)
    ensures
        guid@.len() > 0 ==> r.id@ == machine_hash_text(guid@) && !r.fresh,
        guid@.len() == 0 && (saved matches Some(t) && trimmed(t@).len() > 0) ==> r.id@ == trimmed(
            saved->0@,
        ) && !r.fresh,
        guid@.len() == 0 && !(saved matches Some(t) && trimmed(t@).len() > 0) ==> uuid_shaped(r.id@)
            && r.fresh,
{
    if chars_of(guid).len() > 0 {
        return MachineId { id: machine_hash_for_guid(guid), fresh: false };
    }
    match saved {
        Some(t) => {
            let tt = trim_chars(&chars_of(t));
            if tt.len() > 0 {
                return MachineId { id: string_of(&tt), fresh: false };
            }
        },
        None => {},
    }
    MachineId { id: new_uuid(), fresh: true }
}

// ─── Activation ──────────────────────────────────────────────────────

/// The licence key to send, trimmed; refused when blank.
pub fn activation_key(key: &str) -> (r: Result<String, String>)
    ensures
        r matches Ok(k) ==> k@ == trimmed(key@) && k@.len() > 0,
        r matches Err(m) ==> trimmed(key@).len() == 0 && m@ == "Lisans anahtarı boş olamaz."@,
{
    let t = trim_chars(&chars_of(key));
    if t.len() == 0 {
        return Err("Lisans anahtarı boş olamaz.".to_string());
    }
    Ok(string_of(&t))
}

/// Where to activate and with which access key: refused when no licence
/// server or no access key is configured, in that order.
pub fn activation_target(server: Option<&str>, anon: Option<&str>) -> (r: Result<(String, String), String>)
    ensures
        server is None ==> (r matches Err(m) && m@ == "Lisans sunucusu yapılandırılmamış."@),
        server is Some && anon is None ==> (r matches Err(m) && m@
            == "Lisans sunucusu anahtarı bulunamadı."@),
        server is Some && anon is Some ==> (r matches Ok(t) && t.0@ == endpoint_of(
            server->0@,
            "activate"@,
        ) && t.1@ == anon->0@),
{
    let s = match server {
        Some(s) => s,
        None => {
            return Err("Lisans sunucusu yapılandırılmamış.".to_string());
        },
    };
    let a = match anon {
        Some(a) => a,
        None => {
            return Err("Lisans sunucusu anahtarı bulunamadı.".to_string());
        },
    };
    Ok((license_endpoint(s, "activate"), a.to_string()))
}

/// The members `error` and `token` of the licence server's JSON answer.
pub fn reply_members(body: &str) -> (r: (Option<String>, Option<String>))
    ensures
        opt_text(r.0) == json_text_member(body.spec_bytes(), "error"@),
        opt_text(r.1) == json_text_member(body.spec_bytes(), "token"@),
{
    (json_text(body.as_bytes(), "error"), json_text(body.as_bytes(), "token"))
}

/// The outcome of an activation request, from whether the server reported
/// success, the `error` and `token` of its answer, the verification key
/// (or why there is none) and this machine's identity. Refused, in this
/// order: with the server's error (or a general one) when it failed; when
/// it sent no token; with the key's or the token's refusal; when the token
/// is bound to another machine. Otherwise the token to save and the
/// licensed status.
pub fn activation_result(
    success: bool,
    error: Option<&str>,
    token: Option<&str>,
    key: &Result<Vec<u8>, LicenseError>,
    machine: &str,
) -> (r: Result<(String, LicenseStatus), String>)
    requires
        key is Ok ==> (token matches Some(t) ==> token_input_ok(t@)),
        key matches Ok(k) ==> k@.len() == 32,
    ensures
        !success ==> (r matches Err(m) && m@ == match error {
            Some(e) => e@,
            None => "Lisans sunucusu hatası."@,
        }),
        success && token is None ==> (r matches Err(m) && m@ == "Sunucu lisans token'ı döndürmedi."@),
        success && token is Some && (key matches Err(e)) ==> (r matches Err(m) && m@ == error_text(key->Err_0)),
        success && (token matches Some(t)) && (key matches Ok(k)) ==> match token_check(token->0@, key->Ok_0@) {
            Err(e) => r matches Err(m) && m@ == error_text(e),
            Ok(msg) => if json_text_member(msg, "machine_hash"@) != Some(machine@) {
                r matches Err(m) && m@ == "Lisans bu bilgisayara bağlanmadı."@
            } else {
                r matches Ok(out) && out.0@ == token->0@ && out.1.state@ == "licensed"@
                    && opt_text(out.1.license_id) == json_text_member(msg, "license_id"@)
                    && opt_text(out.1.business_name) == json_text_member(msg, "business_name"@)
            },
        },
{
    if !success {
        return match error {
            Some(e) => Err(e.to_string()),
            None => Err("Lisans sunucusu hatası.".to_string()),
        };
    }
    let t = match token {
        Some(t) => t,
        None => {
            return Err("Sunucu lisans token'ı döndürmedi.".to_string());
        },
    };
    let k = match key {
        Ok(k) => k,
        Err(e) => {
            return Err(e.message());
        },
    };
    let payload = match parse_token_with(t, k.as_slice()) {
        Ok(p) => p,
        Err(e) => {
            return Err(e.message());
        },
    };
    if !bound_to_machine(&payload, machine) {
        return Err("Lisans bu bilgisayara bağlanmadı.".to_string());
    }
    Ok((t.to_string(), licensed_status(&payload)))
}

// ─── The periodic online check ───────────────────────────────────────

/// Whether the stored flag says that the licence server revoked the
/// licence.
pub fn is_revoked(flag: Option<&str>) -> (r: bool)
    ensures
        r == (flag matches Some(f) && f@ == "1"@),
{
    match flag {
        Some(f) => str_equal(f, "1"),
        None => false,
    }
}

/// What an online check sends: the licence's id and the check address.
/// Nothing is sent (`None`) when no token is stored, it does not check out
/// against the key (or there is no key), it names no licence id, or no
/// licence server or access key is configured.
pub fn online_check_target(
    token: Option<&str>,
    key: &Result<Vec<u8>, LicenseError>,
    server: Option<&str>,
    anon: Option<&str>,
) -> (r: Option<(String, String)>)
    requires
        key is Ok ==> (token matches Some(t) ==> token_input_ok(t@)),
        key matches Ok(k) ==> k@.len() == 32,
    ensures
        r is Some <==> (token is Some && key is Ok && server is Some && anon is Some && (token_check(
            token->0@,
            key->Ok_0@,
        ) matches Ok(msg) && json_text_member(msg, "license_id"@) is Some)),
        r matches Some(out) ==> (token_check(token->0@, key->Ok_0@) matches Ok(msg) && Some(out.0@)
            == json_text_member(msg, "license_id"@) && out.1@ == endpoint_of(server->0@, "check"@)),
{
    let t = match token {
        Some(t) => t,
        None => {
            return None;
        },
    };
    let k = match key {
        Ok(k) => k,
        Err(_) => {
            return None;
        },
    };
    let payload = match parse_token_with(t, k.as_slice()) {
        Ok(p) => p,
        Err(_) => {
            return None;
        },
    };
    let id = match payload.license_id {
        Some(id) => id,
        None => {
            return None;
        },
    };
    let s = match server {
        Some(s) => s,
        None => {
            return None;
        },
    };
    match anon {
        Some(_) => {},
        None => {
            return None;
        },
    }
    Some((id, license_endpoint(s, "check")))
}

/// The boolean member `key` of the JSON object in `bytes` (`None` when the
/// bytes are not JSON, not an object, lack the member, or it is not a
/// boolean).
pub uninterp spec fn json_bool_member(bytes: Seq<u8>, key: Seq<char>) -> Option<bool>;

/// Calls `serde_json::from_slice::<serde_json::Value>` and reads member
/// `key` with `Value::get` and `Value::as_bool`; the result is named
/// `json_bool_member`.
#[verifier::external_body]
fn json_bool(bytes: &[u8], key: &str) -> (r: Option<bool>)
    ensures
        r == json_bool_member(bytes@, key@),
{
    serde_json::from_slice::<serde_json::Value>(bytes).ok().and_then(|v| v.get(key).and_then(|x| x.as_bool()))
}

/// The outcome of an online check, and the revocation flag to store (if
/// any): a failed request reports the server's status and changes nothing;
/// an answer whose member `valid` is `false` marks the licence revoked;
/// any other answer (also one without `valid`) clears the mark.
pub fn online_check_result(success: bool, status: &str, body: &str) -> (r: (Result<(), String>, Option<bool>))
    ensures
        !success ==> (r.0 matches Err(m) && m@ == "sunucu hatası: "@ + status@) && r.1 is None,
        success && json_bool_member(body.spec_bytes(), "valid"@) == Some(false) ==> (r.0 matches Err(m)
            && m@ == "lisans iptal edilmiş"@) && r.1 == Some(true),
        success && json_bool_member(body.spec_bytes(), "valid"@) != Some(false) ==> r.0 is Ok && r.1
            == Some(false),
{
    if !success {
        return (Err(crate::text::cat("sunucu hatası: ", status)), None);
    }
    let valid = match json_bool(body.as_bytes(), "valid") {
        Some(v) => v,
        None => true,
    };
    if !valid {
        return (Err("lisans iptal edilmiş".to_string()), Some(true));
    }
    (Ok(()), Some(false))
}

} // verus!
