use oyun_kafe_yonetim::billing::{
    billed_minutes, limit_state, rate_type_for, resumed_pause_total, session_duration_minutes,
    session_time, Pause,
};
use oyun_kafe_yonetim::clock::{parse_rfc3339, read_rfc3339, Moment};
use oyun_kafe_yonetim::sessions::{check_start_time, closing_time, resume_total, shown_minutes, shown_status};

// 2026-01-01T12:00:00Z
const NOON: i64 = 1_767_268_800;

fn noon() -> Moment {
    Moment { secs: NOON, nanos: 0 }
}

#[test]
fn rate_type_reflects_payment_method() {
    assert_eq!(rate_type_for("kart", "nakit"), "kart");
    assert_eq!(rate_type_for("nakit", "kart"), "nakit");
    assert_eq!(rate_type_for("iban", "nakit"), "kart");
    assert_eq!(rate_type_for("kart+kısmi:nakit:50.00", "nakit"), "kart");
    assert_eq!(rate_type_for("nakit+kısmi:kart:50.00", "kart"), "nakit");
    assert_eq!(rate_type_for("", "kart"), "kart");
}

#[test]
fn rate_type_ignores_case_and_spaces() {
    assert_eq!(rate_type_for("  KART ", "nakit"), "kart");
    assert_eq!(rate_type_for("Nakit", "kart"), "nakit");
    assert_eq!(rate_type_for("havale", "nakit"), "nakit");
}

#[test]
fn paused_session_freezes_minutes() {
    // started 50 minutes ago, paused 20 minutes ago
    let t = session_time("2026-01-01T11:10:00Z", noon(), Some("2026-01-01T11:40:00Z"), 0);
    assert!(t.is_paused);
    assert!(t.minutes >= 28 && t.minutes <= 32, "beklenen ~30 dk, gelen {}", t.minutes);
    assert_eq!(t.minutes, 30);
    assert_eq!(t.seconds, 0);
}

#[test]
fn resumed_session_subtracts_total_paused() {
    let t = session_time("2026-01-01T11:10:00Z", noon(), None, 1200);
    assert!(!t.is_paused);
    assert!(t.minutes >= 28 && t.minutes <= 32, "beklenen ~30 dk, gelen {}", t.minutes);
    assert_eq!(t.minutes, 30);
}

#[test]
fn extra_controllers_add_hourly_fee_per_minute() {
    let t = session_time("2026-01-01T11:30:00Z", noon(), None, 0);
    let mins = t.minutes;
    assert!(mins >= 29 && mins <= 31, "beklenen ~30 dk, gelen {}", mins);
    let rounded = billed_minutes(mins, 1);
    let extra_fee = 1.0 * (75.0 / 60.0) * (rounded as f64);
    let expected = 75.0 / 60.0 * mins as f64;
    assert!((extra_fee - expected).abs() < 0.01, "beklenen ~{:.2}, gelen {:.2}", expected, extra_fee);
}

#[test]
fn paused_station_is_reported_paused_in_overview() {
    assert_eq!(shown_status("active", true), "paused");
    assert_eq!(shown_status("active", false), "active");
    assert_eq!(shown_status("idle", false), "idle");
}

#[test]
fn overview_minutes_only_for_active_stations() {
    assert_eq!(shown_minutes("idle", Some("2026-01-01T11:10:00Z"), noon(), None, 0), 0);
    assert_eq!(shown_minutes("active", Some("2026-01-01T11:10:00Z"), noon(), None, 0), 50);
    // an unreadable start counts as now
    assert_eq!(shown_minutes("active", None, noon(), None, 0), 0);
}

#[test]
fn session_time_counts_seconds_past_the_minute() {
    let t = session_time("2026-01-01T11:58:15Z", noon(), None, 0);
    assert_eq!((t.minutes, t.seconds), (1, 45));
}

#[test]
fn session_time_never_negative() {
    // start in the future, or more paused time than played
    let t = session_time("2026-01-01T13:00:00Z", noon(), None, 0);
    assert_eq!((t.minutes, t.seconds), (0, 0));
    let t = session_time("2026-01-01T11:50:00Z", noon(), None, 5000);
    assert_eq!((t.minutes, t.seconds), (0, 0));
}

#[test]
fn unreadable_pause_time_marks_paused_without_deduction() {
    let t = session_time("2026-01-01T11:50:00Z", noon(), Some("dün"), 0);
    assert!(t.is_paused);
    assert_eq!(t.minutes, 10);
}

#[test]
fn billed_minutes_round_up_to_blocks() {
    assert_eq!(billed_minutes(0, 15), 0);
    assert_eq!(billed_minutes(1, 15), 15);
    assert_eq!(billed_minutes(15, 15), 15);
    assert_eq!(billed_minutes(16, 15), 30);
    assert_eq!(billed_minutes(7, 1), 7);
    // a block below one minute counts as one minute
    assert_eq!(billed_minutes(7, 0), 7);
    assert_eq!(billed_minutes(7, -3), 7);
}

#[test]
fn resume_adds_time_since_pause() {
    let paused = Moment { secs: NOON - 600, nanos: 0 };
    assert_eq!(resumed_pause_total(120, paused, noon()), 720);
    // a pause stamped in the future adds nothing
    let later = Moment { secs: NOON + 600, nanos: 0 };
    assert_eq!(resumed_pause_total(120, later, noon()), 120);
}

#[test]
fn paused_clock_stands_still() {
    let start = parse_rfc3339("2026-01-01T11:00:00Z").unwrap();
    let paused = parse_rfc3339("2026-01-01T11:30:00Z").unwrap();
    let a = session_duration_minutes(start, noon(), Pause::PausedAt(paused), 0);
    let b = session_duration_minutes(start, Moment { secs: NOON + 3600, nanos: 0 }, Pause::PausedAt(paused), 0);
    assert_eq!(a, 30);
    assert_eq!(a, b);
}

#[test]
fn resume_keeps_the_clock() {
    let start = parse_rfc3339("2026-01-01T11:00:00Z").unwrap();
    let paused = parse_rfc3339("2026-01-01T11:30:00Z").unwrap();
    let before = session_duration_minutes(start, noon(), Pause::PausedAt(paused), 0);
    let total = resumed_pause_total(0, paused, noon());
    let after = session_duration_minutes(start, noon(), Pause::Running, total);
    assert_eq!(before, after);
}

#[test]
fn limit_state_warns_then_ends() {
    let s = limit_state(60, 5, 54 * 60);
    assert!(!s.show_warning && !s.auto_end);
    assert_eq!(s.remaining_seconds, 360);
    let s = limit_state(60, 5, 55 * 60);
    assert!(s.show_warning && !s.auto_end);
    let s = limit_state(60, 5, 60 * 60);
    assert!(!s.show_warning && s.auto_end);
    assert_eq!(s.remaining_seconds, 0);
    let s = limit_state(0, 5, 999_999);
    assert!(!s.show_warning && !s.auto_end);
    assert_eq!(s.remaining_seconds, 0);
}

#[test]
fn live_counter_reads_the_clock() {
    let (now, t) = oyun_kafe_yonetim::billing::live_session_time("2020-01-01T00:00:00Z", None, 0);
    assert!(now.secs > 1_700_000_000);
    assert!(t.minutes > 60 * 24 * 365);
    assert!(!t.is_paused);
}

#[test]
fn unreadable_times_are_refused_with_chronos_explanation() {
    let why = chrono::DateTime::parse_from_rfc3339("dun aksam").unwrap_err().to_string();
    assert_eq!(read_rfc3339("dun aksam").unwrap_err(), why);
    assert_eq!(check_start_time("dun aksam").unwrap_err(), format!("Geçersiz tarih: {}", why));
    assert!(check_start_time("2026-01-01T10:00:00Z").is_ok());
    let now = parse_rfc3339("2026-01-01T12:00:00Z").unwrap();
    assert_eq!(resume_total(Some("dun aksam"), 0, now).unwrap_err(), why);
    assert_eq!(closing_time("dun aksam", None, now, None, 0).unwrap_err(), why);
    assert_eq!(
        closing_time("2026-01-01T10:00:00Z", Some("dun aksam"), now, None, 0).unwrap_err(),
        format!("Geçersiz tarih: {}", why)
    );
}
