use oyun_kafe_yonetim::db::{
    add_column_sql, backups_to_remove, column_name, config_path, get_data_dir, get_db_path,
    is_backup_file, migration_plan, table_info_sql,
};
use oyun_kafe_yonetim::finance::{history_query, SqlArg};
use oyun_kafe_yonetim::models::{HistoryFilter, SyncStatus};
use oyun_kafe_yonetim::sync::{
    advance_round, current_status, days_to_mirror, round_result, round_status, start_round, stale_removal_result, stale_sessions_url,
    table_url, upload_result, SyncStep,
};

#[test]
fn data_files_live_in_the_app_directory() {
    let dir = get_data_dir(Some("/home/u/.local/share"));
    assert_eq!(dir, "/home/u/.local/share/oyun-kafe-yonetim");
    let db = get_db_path(&dir);
    assert_eq!(db, "/home/u/.local/share/oyun-kafe-yonetim/database.sqlite");
    assert!(config_path(&dir).ends_with("supabase.json"));
    assert_eq!(get_data_dir(None), "./oyun-kafe-yonetim");
}

#[test]
fn database_path_puts_one_separator_before_the_file() {
    let db = get_db_path("C:\\x");
    assert!(db == "C:\\x/database.sqlite" || db == "C:\\x\\database.sqlite");
    assert_eq!(get_db_path("/var/data/"), "/var/data/database.sqlite");
    assert_eq!(get_db_path(""), "database.sqlite");
    assert_eq!(config_path("/var/data"), "/var/data/supabase.json");
    let verbatim = get_db_path("\\\\?\\C:\\data");
    assert!(verbatim.ends_with("/database.sqlite") || verbatim.ends_with("\\database.sqlite"));
}

#[test]
fn schema_upgrade_pieces() {
    assert_eq!(column_name("total_paused_seconds INTEGER NOT NULL DEFAULT 0"), "total_paused_seconds");
    assert_eq!(column_name("  notes TEXT"), "notes");
    assert_eq!(add_column_sql("drinks", "cost REAL"), "ALTER TABLE drinks ADD COLUMN cost REAL;");
    assert_eq!(table_info_sql("drinks"), "PRAGMA table_info(drinks)");
    let p = migration_plan(0);
    assert!(p.mark_argon2 && p.drop_discount_tables && p.drop_vip_and_shifts);
    let p = migration_plan(2);
    assert!(!p.mark_argon2 && !p.drop_discount_tables && p.drop_vip_and_shifts);
    let p = migration_plan(3);
    assert!(!p.drop_vip_and_shifts);
}

#[test]
fn only_the_newest_thirty_backups_stay() {
    assert!(is_backup_file("backup_20260101_120000.sqlite"));
    assert!(!is_backup_file(".sqlite"));
    assert!(!is_backup_file("backup.sqlite-wal"));
    assert!(!is_backup_file("notes.txt"));
    let names: Vec<String> = (0..35).map(|k| format!("backup_{:02}.sqlite", k)).collect();
    let gone = backups_to_remove(&names);
    let expected: Vec<String> = (0..5).map(|k| format!("backup_{:02}.sqlite", k)).collect();
    assert_eq!(gone, expected);
    assert!(backups_to_remove(&names[..30].to_vec()).is_empty());
}

#[test]
fn history_filter_query() {
    let f = HistoryFilter {
        station_name: Some("PC-01".to_string()),
        customer: Some("ali".to_string()),
        min_duration: Some(10),
        ..Default::default()
    };
    let (sql, args) = history_query(&f);
    assert!(sql.ends_with(" AND station_name = ?1 AND customer LIKE ?2 AND duration_minutes >= ?3 ORDER BY end_time DESC LIMIT 1000"));
    assert!(sql.starts_with("SELECT id,station_name"));
    assert_eq!(args.len(), 3);
    assert!(matches!(&args[0], SqlArg::Text(s) if s == "PC-01"));
    assert!(matches!(&args[1], SqlArg::Text(s) if s == "%ali%"));
    assert!(matches!(&args[2], SqlArg::Int(10)));
    let (sql, args) = history_query(&HistoryFilter::default());
    assert!(sql.ends_with("WHERE 1=1 ORDER BY end_time DESC LIMIT 1000"));
    assert!(args.is_empty());
}

#[test]
fn sync_status_and_outcomes() {
    let s = current_status(None);
    assert!(!s.ok);
    assert_eq!(s.last_error.as_deref(), Some("durum kilitlenemedi"));
    let rec = SyncStatus { ok: true, last_at: Some("t".to_string()), last_error: None };
    assert!(current_status(Some(rec)).ok);
    let s = round_status(Err("e".to_string()), "t2".to_string());
    assert_eq!((s.ok, s.last_at.as_deref(), s.last_error.as_deref()), (false, Some("t2"), Some("e")));
    let s = round_status(Ok(()), "t3".to_string());
    assert_eq!((s.ok, s.last_at.as_deref(), s.last_error.as_deref()), (true, Some("t3"), None));
    let shown = current_status(Some(s));
    assert!(shown.ok && shown.last_error.is_none());
    assert!(round_result(&vec![]).is_ok());
    assert_eq!(round_result(&vec!["a".to_string(), "b".to_string()]).unwrap_err(), "a; b");
    assert_eq!(table_url("https://x.supabase.co", "kafe_drinks"), "https://x.supabase.co/rest/v1/kafe_drinks");
    assert_eq!(upload_result("kafe_drinks", false, "404 Not Found", "yok").unwrap_err(), "kafe_drinks: 404 Not Found yok");
    assert!(upload_result("kafe_drinks", true, "", "").is_ok());
    assert_eq!(stale_removal_result(false, "500", "x").unwrap_err(), "stale: 500 x");
    // 2026-01-01T12:00:30Z, thirty seconds earlier is noon
    assert_eq!(
        stale_sessions_url("https://x", 1_767_268_830),
        "https://x/rest/v1/kafe_sessions?updated_at=lt.2026-01-01T12:00:00Z"
    );
}

#[test]
fn today_is_mirrored_first_and_once() {
    let recent = vec!["2026-01-01".to_string(), "2026-01-03".to_string(), "2026-01-02".to_string()];
    assert_eq!(days_to_mirror("2026-01-03", &recent), vec!["2026-01-03", "2026-01-01", "2026-01-02"]);
    assert_eq!(days_to_mirror("2026-01-05", &vec![]), vec!["2026-01-05"]);
}

fn run_round(days: usize, fail: &[SyncStep]) -> (Vec<SyncStep>, Vec<String>) {
    let mut round = start_round(days);
    let mut seen = Vec::new();
    while round.next != SyncStep::Finished {
        let step = round.next;
        seen.push(step);
        let outcome = if fail.contains(&step) { Err(format!("{:?}", step)) } else { Ok(()) };
        advance_round(&mut round, outcome);
    }
    (seen, round.errors)
}

#[test]
fn a_round_tries_every_upload_and_removes_stale_sessions_after_a_good_upload() {
    let (seen, errors) = run_round(2, &[]);
    assert_eq!(
        seen,
        vec![
            SyncStep::Overview,
            SyncStep::Stations,
            SyncStep::Sessions,
            SyncStep::StaleSessions,
            SyncStep::Drinks,
            SyncStep::History,
            SyncStep::DayEnd(0),
            SyncStep::DayEnd(1),
        ]
    );
    assert!(errors.is_empty());
    let (seen, errors) = run_round(0, &[SyncStep::Overview, SyncStep::Sessions, SyncStep::Drinks]);
    assert_eq!(
        seen,
        vec![SyncStep::Overview, SyncStep::Stations, SyncStep::Sessions, SyncStep::Drinks, SyncStep::History]
    );
    assert_eq!(errors, vec!["Overview".to_string(), "Sessions".to_string(), "Drinks".to_string()]);
    assert_eq!(round_result(&errors).unwrap_err(), "Overview; Sessions; Drinks");
}
