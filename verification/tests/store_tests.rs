use oyun_kafe_yonetim::campaigns::{
    campaign_applies, check_campaign_name, check_package, check_promo, nonblank, norm_days,
    parse_hhmm, promo_code, use_limit,
};
use oyun_kafe_yonetim::inventory::{
    active_flag, adjusted_stock, adjustment_reason, check_change, check_quantity, edit_movement,
    order_stock, returned_stock,
};
use oyun_kafe_yonetim::settings::{
    business_name, check_business_name, low_stock_threshold, threshold_setting, ui_config,
    DEFAULT_BUSINESS_NAME,
};
use oyun_kafe_yonetim::stations::{
    check_station_removal, new_station_id, rename_cascades, station_id_for, station_type,
};

#[test]
fn weekday_lists_are_normalised() {
    assert_eq!(norm_days(""), "all");
    assert_eq!(norm_days("  all "), "all");
    assert_eq!(norm_days("1, 3,x,9,+5,-1,0"), "1,3,5,0");
    assert_eq!(norm_days("x,y"), "");
}

#[test]
fn hours_read_as_hh_mm() {
    assert_eq!(parse_hhmm("09:30"), Some((9, 30)));
    assert_eq!(parse_hhmm(" 9 : 05 :00"), Some((9, 5)));
    assert_eq!(parse_hhmm("0930"), None);
    assert_eq!(parse_hhmm("aa:10"), None);
}

#[test]
fn campaigns_apply_on_their_days_and_hours() {
    assert!(campaign_applies("all", "10:00", "12:00", 3, 11, 0));
    assert!(campaign_applies("1,3", "10:00", "12:00", 3, 12, 0));
    assert!(!campaign_applies("1,3", "10:00", "12:00", 2, 11, 0));
    assert!(!campaign_applies("1, 3", "10:00", "12:00", 3, 11, 0));
    assert!(!campaign_applies("all", "10:00", "12:00", 3, 12, 1));
    assert!(campaign_applies("all", "bozuk", "12:00", 3, 23, 0));
}

#[test]
fn promotion_code_checks() {
    assert_eq!(check_promo(0, 0, 0, None, None, "2026").unwrap_err(), "Bu promosyon kodu pasif!");
    assert_eq!(check_promo(1, 3, 3, None, None, "2026").unwrap_err(), "Bu promosyon kodu kullanım limitine ulaştı!");
    assert!(check_promo(1, 0, 99, None, None, "2026").is_ok());
    assert_eq!(
        check_promo(1, 0, 0, Some("2026-02-01"), None, "2026-01-15T10:00:00").unwrap_err(),
        "Bu kod henüz geçerli değil!"
    );
    assert_eq!(
        check_promo(1, 0, 0, None, Some("2026-01-01"), "2026-01-15T10:00:00").unwrap_err(),
        "Bu kodun süresi dolmuş!"
    );
    assert!(check_promo(1, 0, 0, Some("2026-01-01"), Some("2026-02-01"), "2026-01-15T10:00:00").is_ok());
    assert_eq!(promo_code("  yaz25 ").unwrap(), "YAZ25");
    assert_eq!(promo_code(" a ").unwrap_err(), "Kod en az 2 karakter olmalı!");
    assert_eq!(nonblank(Some("  ".to_string())), None);
    assert_eq!(nonblank(Some("x".to_string())).as_deref(), Some("x"));
    assert_eq!(use_limit(-4), 0);
    assert_eq!(check_campaign_name("  ").unwrap_err(), "Kampanya adı gerekli!");
    assert_eq!(check_package("", 2).unwrap_err(), "Paket adı gerekli!");
    assert_eq!(check_package("Gece", 0).unwrap_err(), "Saat 0'dan büyük olmalı!");
    assert!(check_package("Gece", 3).is_ok());
}

#[test]
fn stock_orders_and_returns() {
    assert_eq!(check_quantity(0).unwrap_err(), "Geçerli bir adet girin");
    assert!(check_quantity(1).is_ok());
    assert_eq!(order_stock("Su", 5, 0, 1).unwrap_err(), "'Su' şu anda menüde değil");
    assert_eq!(order_stock("Su", 2, 1, 3).unwrap_err(), "Stok yetersiz! Kalan: 2");
    assert_eq!(order_stock("Su", 5, 1, 3).unwrap(), Some(2));
    assert_eq!(order_stock("Su", -1, 1, 3).unwrap(), None);
    assert_eq!(returned_stock(2, 3), Some(5));
    assert_eq!(returned_stock(-1, 3), None);
}

#[test]
fn stock_adjustments() {
    assert_eq!(check_change(0).unwrap_err(), "Değişim 0 olamaz!");
    assert_eq!(adjusted_stock(-1, 5).unwrap_err(), "Sınırsız (stok takipsiz) ürünlerde stok işlemi yapılamaz!");
    assert_eq!(adjusted_stock(3, -4).unwrap_err(), "Stok negatif olamaz! Mevcut: 3");
    assert_eq!(adjusted_stock(3, -3).unwrap(), 0);
    assert_eq!(adjustment_reason("   "), "Stok işlemi");
    assert_eq!(adjustment_reason(" sayım "), "sayım");
    assert_eq!(edit_movement(5, 5), None);
    assert_eq!(edit_movement(-1, 10), Some((11, "Başlangıç stoğu".to_string())));
    assert_eq!(edit_movement(5, 8), Some((3, "Stok düzeltme (+3)".to_string())));
    assert_eq!(edit_movement(5, 2), Some((-3, "Stok düzeltme (-3)".to_string())));
    assert_eq!(edit_movement(5, -1), None);
    assert_eq!(active_flag(Some(7), 1), 0);
    assert_eq!(active_flag(None, 1), 1);
}

#[test]
fn order_then_return_restores_stock() {
    let after = order_stock("Soda", 10, 1, 4).unwrap().unwrap();
    assert_eq!(returned_stock(after, 4), Some(10));
}

#[test]
fn settings_defaults_and_checks() {
    assert_eq!(business_name(None), DEFAULT_BUSINESS_NAME);
    assert_eq!(business_name(Some("   ")), DEFAULT_BUSINESS_NAME);
    assert_eq!(business_name(Some(" Kafe X ")), "Kafe X");
    let ui = ui_config(Some("kafe"));
    assert_eq!(ui.business_name, "kafe");
    assert_eq!(ui.business_name_upper, "KAFE");
    assert_eq!(check_business_name("  ").unwrap_err(), "İşletme adı boş olamaz!");
    assert_eq!(check_business_name(&"a".repeat(81)).unwrap_err(), "İşletme adı en fazla 80 karakter olabilir.");
    assert_eq!(check_business_name(" Kafe ").unwrap(), "Kafe");
    assert_eq!(low_stock_threshold(None), 5);
    assert_eq!(low_stock_threshold(Some("12")), 12);
    assert_eq!(low_stock_threshold(Some("on iki")), 5);
}

#[test]
fn threshold_setting_reads_back() {
    let (v, text) = threshold_setting(-3);
    assert_eq!((v, text.as_str()), (0, "0"));
    let (v, text) = threshold_setting(42);
    assert_eq!(low_stock_threshold(Some(&text)), v);
}

#[test]
fn station_rules() {
    assert_eq!(station_type(Some("vr")), "vr");
    assert_eq!(station_type(Some("vip")), "standard");
    assert_eq!(station_type(None), "standard");
    assert_eq!(station_id_for("1234abcd-0000-4000-8000-000000000000"), "pc-1234abcd");
    let id = new_station_id();
    assert_eq!(id.len(), 11);
    assert!(id.starts_with("pc-"));
    assert!(rename_cascades(Some("PC-01"), "PC-09"));
    assert!(!rename_cascades(Some("PC-01"), "PC-01"));
    assert!(!rename_cascades(None, "PC-01"));
    assert_eq!(check_station_removal(true).unwrap_err(), "Aktif oturumu olan istasyon silinemez");
    assert!(check_station_removal(false).is_ok());
}

#[test]
fn normalised_lists_read_back_as_themselves() {
    for list in ["1, 3, 9", "all", " ", "6,0,+2"] {
        let once = norm_days(list);
        assert_eq!(norm_days(&once), once);
    }
    // a list naming no weekday is stored empty, which reads as `all`
    assert_eq!(norm_days(&norm_days("x")), "all");
}
