use oyun_kafe_yonetim::clock::{parse_rfc3339, Moment};
use oyun_kafe_yonetim::hex::{bytes_to_hex, hex_to_bytes};
use oyun_kafe_yonetim::license::{
    activation_key, activation_result, activation_target, encode_token, is_expired, is_revoked,
    license_anon_key, license_endpoint, license_server_url, machine_hash_for_guid, machine_id,
    online_check_result, online_check_target, parse_token_with, public_key, public_key_hex,
    read_payload,
    reply_members, status_for_token, token_readable, trial_status, LicenseError,
};

fn secret(b: u8) -> Vec<u8> {
    vec![b; 32]
}

fn verifying_key(b: u8) -> Vec<u8> {
    ed25519_dalek::SigningKey::from_bytes(&[b; 32]).verifying_key().to_bytes().to_vec()
}

const FULL: &str = r#"{"v":1,"license_id":"L-1","business_name":"Test Kafe","machine_hash":"abc123","issued_at":"2026-01-01T00:00:00Z","expires_at":null}"#;
const SHORT: &str = r#"{"v":1,"license_id":"L-1","machine_hash":"abc","expires_at":null}"#;

fn noon() -> Moment {
    Moment { secs: 1_767_268_800, nanos: 0 }
}

#[test]
fn token_roundtrip_verifies() {
    let token = encode_token(FULL.as_bytes(), &secret(7));
    let parsed = parse_token_with(&token, &verifying_key(7)).unwrap();
    assert_eq!(parsed.license_id.as_deref(), Some("L-1"));
    assert_eq!(parsed.business_name.as_deref(), Some("Test Kafe"));
}

#[test]
fn tampered_token_fails() {
    let token = encode_token(SHORT.as_bytes(), &secret(7));
    let mut bytes = token.into_bytes();
    if let Some(pos) = bytes.iter().position(|b| *b == b'1') {
        bytes[pos] = b'2';
    }
    let tampered = String::from_utf8(bytes).unwrap();
    assert!(parse_token_with(&tampered, &verifying_key(7)).is_err());
}

#[test]
fn wrong_key_fails() {
    let token = encode_token(SHORT.as_bytes(), &secret(7));
    assert!(parse_token_with(&token, &verifying_key(9)).is_err());
}

#[test]
fn perpetual_token_not_expired() {
    let payload = read_payload(r#"{"v":1,"expires_at":null}"#.as_bytes());
    assert!(!is_expired(payload.expires_at.as_deref(), noon()));
}

#[test]
fn token_is_hex_payload_dot_hex_signature() {
    let token = encode_token(SHORT.as_bytes(), &secret(7));
    let (head, tail) = token.split_once('.').unwrap();
    assert_eq!(head, bytes_to_hex(SHORT.as_bytes()));
    assert_eq!(hex_to_bytes(tail).unwrap().len(), 64);
}

#[test]
fn token_refusals_name_the_fault() {
    let key = verifying_key(7);
    assert_eq!(parse_token_with("abc", &key).unwrap_err(), LicenseError::TokenMalformed);
    assert_eq!(parse_token_with("a.b.c", &key).unwrap_err(), LicenseError::TokenMalformed);
    assert_eq!(parse_token_with("zz.00", &key).unwrap_err(), LicenseError::PayloadNotHex);
    assert_eq!(parse_token_with("00.zz", &key).unwrap_err(), LicenseError::SignatureNotHex);
    assert_eq!(parse_token_with("00.0011", &key).unwrap_err(), LicenseError::SignatureWrongLength);
    let bad_sig = format!("00.{}", "00".repeat(64));
    assert_eq!(parse_token_with(&bad_sig, &key).unwrap_err(), LicenseError::SignatureNotVerified);
    let not_json = encode_token(b"not json", &secret(7));
    assert_eq!(parse_token_with(&not_json, &key).unwrap_err(), LicenseError::ContentUnreadable);
    let v2 = encode_token(br#"{"v":2}"#, &secret(7));
    assert_eq!(parse_token_with(&v2, &key).unwrap_err(), LicenseError::UnsupportedVersion);
    assert_eq!(LicenseError::UnsupportedVersion.message(), "Desteklenmeyen lisans sürümü.");
}

#[test]
fn expiry_compares_with_now() {
    assert!(is_expired(Some("2025-12-31T23:59:59Z"), noon()));
    assert!(!is_expired(Some("2026-01-02T00:00:00Z"), noon()));
    assert!(!is_expired(Some("yarın"), noon()));
    assert!(!is_expired(None, noon()));
}

#[test]
fn built_in_key_is_not_configured() {
    assert_eq!(public_key(None).unwrap_err(), LicenseError::KeyNotConfigured);
    assert_eq!(public_key(Some("   ")).unwrap_err(), LicenseError::KeyNotConfigured);
    assert_eq!(public_key(Some("xyz1")).unwrap_err(), LicenseError::KeyNotHex);
    assert_eq!(public_key(Some("0011")).unwrap_err(), LicenseError::KeyWrongLength);
    let hex = bytes_to_hex(&verifying_key(7));
    assert_eq!(public_key(Some(&hex)).unwrap(), verifying_key(7));
}

#[test]
fn status_follows_token_machine_revocation_and_expiry() {
    let token = encode_token(FULL.as_bytes(), &secret(7));
    let checked = parse_token_with(&token, &verifying_key(7));
    let s = status_for_token(&checked, "abc123", false, noon());
    assert_eq!(s.state, "licensed");
    assert_eq!(s.license_id.as_deref(), Some("L-1"));
    let s = status_for_token(&checked, "other", false, noon());
    assert_eq!(s.state, "locked");
    assert_eq!(s.message.as_deref(), Some("Bu lisans farklı bir bilgisayara bağlı."));
    let s = status_for_token(&checked, "abc123", true, noon());
    assert_eq!(s.state, "locked");
    assert_eq!(s.license_id.as_deref(), Some("L-1"));
    let refused: Result<_, LicenseError> = Err(LicenseError::SignatureNotVerified);
    let s = status_for_token(&refused, "abc123", false, noon());
    assert_eq!(s.state, "locked");
    assert_eq!(s.message.as_deref(), Some("Lisans imzası doğrulanamadı."));
    let old = encode_token(br#"{"v":1,"machine_hash":"abc123","expires_at":"2025-01-01T00:00:00Z"}"#, &secret(7));
    let checked = parse_token_with(&old, &verifying_key(7));
    let s = status_for_token(&checked, "abc123", false, noon());
    assert_eq!(s.state, "expired");
    assert_eq!(s.message.as_deref(), Some("Lisans süresi doldu."));
}

#[test]
fn trial_counts_whole_days() {
    let t = trial_status(Some("2025-12-25T12:00:00Z"), noon());
    assert_eq!(t.status.state, "trial");
    assert_eq!(t.status.trial_days_left, Some(8));
    assert!(!t.record_start);
    let t = trial_status(Some("2025-12-17T12:00:00Z"), noon());
    assert_eq!(t.status.state, "expired");
    assert_eq!(t.status.trial_days_left, Some(0));
    let t = trial_status(None, noon());
    assert_eq!(t.status.trial_days_left, Some(15));
    assert!(t.record_start);
    let t = trial_status(Some("bozuk"), noon());
    assert!(t.record_start);
    assert_eq!(t.status.trial_days_left, Some(15));
}

#[test]
fn machine_fingerprint_is_hashed_guid() {
    let h = machine_hash_for_guid("GUID-1");
    assert_eq!(h.len(), 64);
    assert_ne!(h, "GUID-1");
    assert_eq!(machine_id("GUID-1", None).id, h);
    let saved = machine_id("", Some("  kayitli  "));
    assert_eq!(saved.id, "kayitli");
    assert!(!saved.fresh);
    let fresh = machine_id("", None);
    assert!(fresh.fresh);
    assert_eq!(fresh.id.len(), 36);
}

#[test]
fn server_and_access_key_choice() {
    assert_eq!(license_server_url(None), None);
    assert_eq!(license_server_url(Some("  ")), None);
    assert_eq!(license_server_url(Some("https://lic.example")).as_deref(), Some("https://lic.example"));
    assert_eq!(license_anon_key(Some("  k1 "), None).as_deref(), Some("k1"));
    assert_eq!(license_anon_key(None, Some(r#"{"anon_key":" k2 "}"#)).as_deref(), Some("k2"));
    assert_eq!(license_anon_key(None, Some(r#"{"anon_key":"  "}"#)), None);
    assert_eq!(license_anon_key(None, Some("bozuk")), None);
    assert_eq!(license_endpoint("https://lic.example//", "check"), "https://lic.example/functions/v1/license/check");
}

#[test]
fn activation_checks_in_order() {
    assert_eq!(activation_key("  ").unwrap_err(), "Lisans anahtarı boş olamaz.");
    assert_eq!(activation_key(" K-1 ").unwrap(), "K-1");
    assert_eq!(activation_target(None, Some("a")).unwrap_err(), "Lisans sunucusu yapılandırılmamış.");
    assert_eq!(activation_target(Some("s"), None).unwrap_err(), "Lisans sunucusu anahtarı bulunamadı.");
    let (url, anon) = activation_target(Some("https://s/"), Some("a")).unwrap();
    assert_eq!(url, "https://s/functions/v1/license/activate");
    assert_eq!(anon, "a");
    let key = Ok(verifying_key(7));
    assert_eq!(activation_result(false, Some("red"), None, &key, "m").unwrap_err(), "red");
    assert_eq!(activation_result(false, None, None, &key, "m").unwrap_err(), "Lisans sunucusu hatası.");
    assert_eq!(activation_result(true, None, None, &key, "m").unwrap_err(), "Sunucu lisans token'ı döndürmedi.");
    let token = encode_token(FULL.as_bytes(), &secret(7));
    assert!(token_readable(&token));
    assert_eq!(activation_result(true, None, Some(&token), &key, "m").unwrap_err(), "Lisans bu bilgisayara bağlanmadı.");
    let (saved, status) = activation_result(true, None, Some(&token), &key, "abc123").unwrap();
    assert_eq!(saved, token);
    assert_eq!(status.state, "licensed");
    let no_key: Result<Vec<u8>, LicenseError> = Err(LicenseError::KeyNotConfigured);
    assert_eq!(activation_result(true, None, Some(&token), &no_key, "abc123").unwrap_err(), "Lisans doğrulama anahtarı yapılandırılmamış.");
    let (err, tok) = reply_members(r#"{"error":"E","token":"T"}"#);
    assert_eq!((err.as_deref(), tok.as_deref()), (Some("E"), Some("T")));
}

#[test]
fn online_check_outcomes() {
    assert!(!is_revoked(None));
    assert!(is_revoked(Some("1")));
    assert!(!is_revoked(Some("0")));
    let (r, flag) = online_check_result(false, "500 Internal Server Error", "");
    assert_eq!(r.unwrap_err(), "sunucu hatası: 500 Internal Server Error");
    assert_eq!(flag, None);
    let (r, flag) = online_check_result(true, "200 OK", r#"{"valid":false}"#);
    assert_eq!(r.unwrap_err(), "lisans iptal edilmiş");
    assert_eq!(flag, Some(true));
    let (r, flag) = online_check_result(true, "200 OK", "{}");
    assert!(r.is_ok());
    assert_eq!(flag, Some(false));
    let token = encode_token(FULL.as_bytes(), &secret(7));
    let key = Ok(verifying_key(7));
    let (id, url) = online_check_target(Some(&token), &key, Some("https://s"), Some("a")).unwrap();
    assert_eq!(id, "L-1");
    assert_eq!(url, "https://s/functions/v1/license/check");
    assert!(online_check_target(None, &key, Some("https://s"), Some("a")).is_none());
    assert!(online_check_target(Some(&token), &key, None, Some("a")).is_none());
    assert!(online_check_target(Some(&token), &Err(LicenseError::KeyNotConfigured), Some("https://s"), Some("a")).is_none());
    let _ = parse_rfc3339("2026-01-01T00:00:00Z");
}

#[test]
fn trial_and_status_read_the_clock() {
    let (now, t) = oyun_kafe_yonetim::license::trial_status_now(None);
    assert!(now.secs > 1_700_000_000);
    assert!(t.record_start);
    assert_eq!(t.status.trial_days_left, Some(15));
    let token = encode_token(FULL.as_bytes(), &secret(7));
    let checked = parse_token_with(&token, &verifying_key(7));
    let (_, s) = oyun_kafe_yonetim::license::status_for_token_now(&checked, "abc123", false);
    assert_eq!(s.state, "licensed");
}

#[test]
fn trial_only_runs_down() {
    let start = Some("2025-12-25T12:00:00Z");
    let a = trial_status(start, noon()).status.trial_days_left.unwrap();
    let later = Moment { secs: noon().secs + 3 * 86400, nanos: 0 };
    let b = trial_status(start, later).status.trial_days_left.unwrap();
    assert_eq!((a, b), (8, 5));
    let much_later = Moment { secs: noon().secs + 30 * 86400, nanos: 0 };
    assert_eq!(trial_status(start, much_later).status.trial_days_left, Some(0));
}

#[test]
fn configured_key_text_reads_back_the_signing_key() {
    let text = public_key_hex(&secret(7));
    assert_eq!(text, bytes_to_hex(&verifying_key(7)));
    assert_ne!(text, bytes_to_hex(&secret(7)));
    let key = public_key(Some(&text)).unwrap();
    assert_eq!(key, verifying_key(7));
    let token = encode_token(FULL.as_bytes(), &secret(7));
    assert!(parse_token_with(&token, &key).is_ok());
}

#[test]
fn a_key_that_is_no_curve_point_is_refused_with_the_crates_explanation() {
    let bad = (0u8..=255)
        .map(|b| [b; 32])
        .find(|k| ed25519_dalek::VerifyingKey::from_bytes(k).is_err())
        .expect("some repeated byte is no curve point");
    let why = ed25519_dalek::VerifyingKey::from_bytes(&bad).unwrap_err().to_string();
    match public_key(Some(&bytes_to_hex(&bad))) {
        Err(LicenseError::KeyUnreadable(d)) => assert_eq!(d, why),
        _ => panic!("the key should be refused"),
    }
}
