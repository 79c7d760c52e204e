//! The checks and time arithmetic of a station session's life: starting,
//! pausing, resuming, changing the start time, and closing it.
use vstd::prelude::*;

use crate::billing::{max0, opt_view, pause_of, session_duration_minutes, spec_session_time, Pause};
use crate::clock::{moment_valid, read_rfc3339, rfc3339_moment, rfc3339_refusal, seconds_between, whole_seconds_between, Moment};
use crate::text::str_equal;

verus! {

/// A station can take a new session unless it is already active.
pub fn check_station_free(status: &str) -> (r: Result<(), String>)
    ensures
        status@ == "active"@ ==> (r matches Err(m) && m@ == "İstasyon zaten aktif"@),
        status@ != "active"@ ==> r is Ok,
{
    if str_equal(status, "active") {
        Err("İstasyon zaten aktif".to_string())
    } else {
        Ok(())
    }
}

/// Extra controllers for a session: none when not given, never negative.
pub fn extra_controllers(requested: Option<i64>) -> (r: i64)
    ensures
        r == max0(
            match requested {
                Some(v) => v as int,
                None => 0,
            },
        ),
{
    let v = match requested {
        Some(v) => v,
        None => 0,
    };
    if v < 0 {
        0
    } else {
        v
    }
}

/// A session can be paused unless it already is.
pub fn check_can_pause(paused_at: Option<&str>) -> (r: Result<(), String>)
    ensures
        paused_at is Some ==> (r matches Err(m) && m@ == "Zaten duraklatılmış"@),
        paused_at is None ==> r is Ok,
{
    match paused_at {
        Some(_) => Err("Zaten duraklatılmış".to_string()),
        None => Ok(()),
    }
}

/// The seconds of pause a session has in total once it is resumed at `now`:
/// its earlier total plus the time since the current pause began (none
/// when the clock reads earlier). Refused when the session is not paused,
/// or (with `chrono`'s explanation) when the pause time cannot be read.
pub fn resume_total(paused_at: Option<&str>, current_total: i64, now: Moment) -> (r: Result<i64, String>)
    requires
        moment_valid(now),
        paused_at matches Some(t) ==> (rfc3339_moment(t@) matches Some(p) ==> i64::MIN
            <= current_total + max0(whole_seconds_between(now, p)) <= i64::MAX),
    ensures
        paused_at is None ==> (r matches Err(m) && m@ == "Oturum zaten aktif"@),
        paused_at matches Some(t) ==> match rfc3339_moment(t@) {
            Some(p) => r == Ok::<i64, String>(
                (current_total + max0(whole_seconds_between(now, p))) as i64,
            ),
            None => r matches Err(m) && m@ == rfc3339_refusal(t@),
        },
{
    match paused_at {
        None => Err("Oturum zaten aktif".to_string()),
        Some(t) => {
            let p = match read_rfc3339(t) {
                Ok(p) => p,
                Err(e) => {
                    return Err(e);
                },
            };
            let s = seconds_between(now, p);
            let add = if s < 0 {
                0
            } else {
                s
            };
            Ok(current_total + add)
        },
    }
}

/// `prefix` followed by `detail`.
fn prefixed(prefix: &str, detail: String) -> (r: String)
    ensures
        r@ == prefix@ + detail@,
{
    let mut m = prefix.to_string();
    m.append(detail.as_str());
    m
}

/// A new start time must be RFC 3339; otherwise the refusal reads
/// `Geçersiz tarih: ` followed by `chrono`'s explanation.
pub fn check_start_time(new_start_time: &str) -> (r: Result<(), String>)
    ensures
        rfc3339_moment(new_start_time@) is Some ==> r is Ok,
        rfc3339_moment(new_start_time@) is None ==> (r matches Err(m) && m@ == "Geçersiz tarih: "@
            + rfc3339_refusal(new_start_time@)),
{
    match read_rfc3339(new_start_time) {
        Ok(_) => Ok(()),
        Err(e) => {
            let m = prefixed("Geçersiz tarih: ", e);
            Err(m)
        },
    }
}

/// When a session closes: its start, its end, and the whole minutes it
/// lasted with pauses taken out.
#[derive(Clone, Copy, Debug)]
pub struct Closing {
    pub start: Moment,
    pub end: Moment,
    pub minutes: i64,
}

/// The time side of closing a session: the stored start time (refused with
/// `chrono`'s explanation when unreadable), the end (the given end time,
/// refused with `Geçersiz tarih: ` and the explanation when unreadable, or
/// `now`), and the minutes played in between.
pub fn closing_time(
    start_text: &str,
    custom_end: Option<&str>,
    now: Moment,
    paused_at: Option<&str>,
    total_paused: i64,
) -> (r: Result<Closing, String>)
    requires
        moment_valid(now),
    ensures
        rfc3339_moment(start_text@) is None ==> (r matches Err(m) && m@ == rfc3339_refusal(
            start_text@,
        )),
        (rfc3339_moment(start_text@) is Some && (custom_end matches Some(e) && rfc3339_moment(e@) is None))
            ==> (r matches Err(m) && m@ == "Geçersiz tarih: "@ + rfc3339_refusal(
            custom_end.unwrap()@,
        )),
        rfc3339_moment(start_text@) matches Some(s) ==> match custom_end {
            Some(e) => match rfc3339_moment(e@) {
                Some(end) => r matches Ok(c) && c.start == s && c.end == end && c.minutes
                    == spec_session_time(s, end, pause_of(opt_view(paused_at)), total_paused as int).minutes,
                None => r is Err,
            },
            None => r matches Ok(c) && c.start == s && c.end == now && c.minutes == spec_session_time(
                s,
                now,
                pause_of(opt_view(paused_at)),
                total_paused as int,
            ).minutes,
        },
{
    let start = match read_rfc3339(start_text) {
        Ok(m) => m,
        Err(e) => {
            return Err(e);
        },
    };
    let end = match custom_end {
        Some(c) => match read_rfc3339(c) {
            Ok(m) => m,
            Err(e) => {
                let m = prefixed("Geçersiz tarih: ", e);
                return Err(m);
            },
        },
        None => now,
    };
    let pause = match paused_at {
        None => Pause::Running,
        Some(t) => match crate::clock::parse_rfc3339(t) {
            Some(m) => Pause::PausedAt(m),
            None => Pause::PausedUnreadable,
        },
    };
    let minutes = session_duration_minutes(start, end, pause, total_paused);
    Ok(Closing { start, end, minutes })
}

// ─── Station overview ────────────────────────────────────────────────

/// The status shown for a station: `paused` for an active station whose
/// session is paused, its stored status otherwise.
pub open spec fn shown_status_of(status: Seq<char>, paused: bool) -> Seq<char> {
    if status == "active"@ && paused {
        "paused"@
    } else {
        status
    }
}

/// The status shown for a station (see `shown_status_of`).
pub fn shown_status(status: &str, paused: bool) -> (r: String)
    ensures
        r@ == shown_status_of(status@, paused),
{
    if paused && str_equal(status, "active") {
        "paused".to_string()
    } else {
        status.to_string()
    }
}

/// The minutes shown for a station at `now`: those of its session's fee
/// counter while it is active, none otherwise.
pub fn shown_minutes(status: &str, start_text: Option<&str>, now: Moment, paused_at: Option<&str>, total_paused: i64) -> (r: i64)
    requires
        moment_valid(now),
    ensures
        status@ != "active"@ ==> r == 0,
        status@ == "active"@ ==> r == spec_session_time(
            match rfc3339_moment(
                match start_text {
                    Some(t) => t@,
                    None => Seq::empty(),
                },
            ) {
                Some(m) => m,
                None => now,
            },
            now,
            pause_of(opt_view(paused_at)),
            total_paused as int,
        ).minutes,
{
    if !str_equal(status, "active") {
        return 0;
    }
    proof {
        reveal_strlit("");
    }
    let start = match start_text {
        Some(t) => t,
        None => "",
    };
    assert(start_text is None ==> start@ =~= Seq::<char>::empty());
    crate::billing::session_time(start, now, paused_at, total_paused).minutes
}

} // verus!
