use oyun_kafe_yonetim::auth::{
    audit_actor, check_forced_change, check_user_removal, check_user_update, legacy_hash, login,
    make_hash, normalize_role, require_admin, require_login, validate_new_password,
    validate_new_user, verify_password, LoginFailures, UserRow,
};
use oyun_kafe_yonetim::models::CurrentUser;

const NOW: i64 = 1_767_268_800;

fn row(hash: &str, active: i64) -> UserRow {
    UserRow {
        id: "u1".to_string(),
        username: "ali".to_string(),
        password_hash: hash.to_string(),
        full_name: "Ali Veli".to_string(),
        role: "calisan".to_string(),
        active,
        permissions: "{}".to_string(),
        must_change_password: 0,
    }
}

fn user(role: &str) -> CurrentUser {
    CurrentUser {
        id: "u1".to_string(),
        username: "ali".to_string(),
        full_name: String::new(),
        role: role.to_string(),
        permissions: "{}".to_string(),
        must_change_password: false,
    }
}

#[test]
fn make_and_verify_roundtrip() {
    let h = make_hash("sifre123");
    assert!(h.starts_with("$argon2"), "argon2 format olmali");
    assert!(verify_password("sifre123", &h));
    assert!(!verify_password("yanlis", &h));
}

#[test]
fn legacy_hash_compat() {
    let old = legacy_hash("admin123");
    assert_eq!(old.len(), 64);
    assert!(verify_password("admin123", &old));
    assert!(!verify_password("yanlis", &old));
}

#[test]
fn legacy_hash_is_lower_hex() {
    let h = legacy_hash("admin123");
    assert!(h.chars().all(|c| c.is_ascii_hexdigit() && !c.is_ascii_uppercase()));
    assert_ne!(legacy_hash("a"), legacy_hash("b"));
}

#[test]
fn five_failures_lock_out_and_success_clears() {
    let hash = legacy_hash("dogru1");
    let mut f = LoginFailures::new();
    for _ in 0..5 {
        let e = login(&mut f, "ali", "yanlis", Some(row(&hash, 1)), NOW).unwrap_err();
        assert_eq!(e, "Yanlış şifre!");
    }
    let e = login(&mut f, "ali", "dogru1", Some(row(&hash, 1)), NOW + 10).unwrap_err();
    assert_eq!(e, "Çok fazla hatalı deneme. 290 sn sonra tekrar deneyin.");
    // after the lockout window the right password works and clears the count
    let u = login(&mut f, "ali", "dogru1", Some(row(&hash, 1)), NOW + 301).unwrap();
    assert_eq!(u.username, "ali");
    assert!(f.check_lockout("ali", NOW + 302).is_ok());
}

#[test]
fn login_refusals() {
    let hash = legacy_hash("dogru1");
    let mut f = LoginFailures::new();
    assert_eq!(login(&mut f, "yok", "x", None, NOW).unwrap_err(), "Kullanıcı bulunamadı!");
    assert_eq!(login(&mut f, "ali", "dogru1", Some(row(&hash, 0)), NOW).unwrap_err(), "Kullanıcı pasif!");
    let u = login(&mut f, "ali", "dogru1", Some(row(&hash, 1)), NOW).unwrap();
    assert_eq!(u.full_name, "Ali Veli");
    assert!(!u.must_change_password);
}

#[test]
fn clearing_failures_unlocks() {
    let mut f = LoginFailures::new();
    for k in 0..5 {
        f.record_failure("ali", NOW + k);
    }
    assert_eq!(f.check_lockout("ali", NOW + 5), Err(295));
    assert!(f.check_lockout("veli", NOW + 5).is_ok());
    f.clear_failures("ali");
    assert!(f.check_lockout("ali", NOW + 5).is_ok());
}

#[test]
fn lockout_waits_for_the_oldest_recent_failure() {
    let hash = legacy_hash("dogru1");
    let mut f = LoginFailures::new();
    f.record_failure("ali", NOW - 400);
    for k in [0, 20, 40, 60, 80] {
        f.record_failure("ali", NOW + k);
    }
    // the failure 400 s ago no longer counts; the oldest recent one is at NOW
    let e = login(&mut f, "ali", "dogru1", Some(row(&hash, 1)), NOW + 100).unwrap_err();
    assert_eq!(e, "Çok fazla hatalı deneme. 200 sn sonra tekrar deneyin.");
    let e = login(&mut f, "ali", "yanlis", Some(row(&hash, 1)), NOW + 100).unwrap_err();
    assert_eq!(e, "Çok fazla hatalı deneme. 200 sn sonra tekrar deneyin.");
    // a refused attempt records nothing new: once the oldest expires, four remain
    let e = login(&mut f, "ali", "yanlis", Some(row(&hash, 1)), NOW + 300).unwrap_err();
    assert_eq!(e, "Yanlış şifre!");
}

#[test]
fn old_failures_expire() {
    let mut f = LoginFailures::new();
    for k in 0..5 {
        f.record_failure("ali", NOW + k);
    }
    assert!(f.check_lockout("ali", NOW + 300).is_ok());
}

#[test]
fn roles_and_permissions() {
    assert_eq!(require_admin(None).unwrap_err(), "Giriş yapılmamış!");
    assert_eq!(require_admin(Some(user("calisan"))).unwrap_err(), "Bu işlem için yönetici yetkisi gerekli!");
    assert_eq!(require_admin(Some(user("admin"))).unwrap().role, "admin");
    assert_eq!(require_login(None).unwrap_err(), "Giriş yapılmamış!");
    assert!(require_login(Some(user("calisan"))).is_ok());
    assert_eq!(normalize_role("admin"), "admin");
    assert_eq!(normalize_role("patron"), "calisan");
}

#[test]
fn new_user_checks() {
    assert_eq!(validate_new_user(" ab ", "123456").unwrap_err(), "Kullanıcı adı en az 3 karakter olmalı!");
    assert_eq!(validate_new_user("ali", "12345").unwrap_err(), "Şifre en az 6 karakter olmalı!");
    assert!(validate_new_user("ali", "123456").is_ok());
    assert_eq!(validate_new_password("kisa").unwrap_err(), "Yeni şifre en az 6 karakter olmalı!");
    assert!(validate_new_password("uzunsifre").is_ok());
    assert_eq!(check_user_update("a1", "a1", false).unwrap_err(), "Kendi hesabınızı kapatamazsınız!");
    assert!(check_user_update("a1", "a1", true).is_ok());
    assert_eq!(check_user_removal("a1", "a1").unwrap_err(), "Kendi hesabınızı silemezsiniz!");
    assert!(check_user_removal("a1", "b2").is_ok());
    assert_eq!(check_forced_change(0).unwrap_err(), "Şifre değişikliği zorunlu değil");
    assert!(check_forced_change(1).is_ok());
}

#[test]
fn audit_names_the_actor() {
    assert_eq!(audit_actor(&None), (String::new(), "Sistem".to_string()));
    assert_eq!(audit_actor(&Some(user("admin"))), ("u1".to_string(), "ali".to_string()));
}
