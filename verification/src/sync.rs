//! The cloud mirror's bookkeeping: the status of the latest round, how a
//! round's failures are reported, and the addresses it writes to.
use vstd::prelude::*;

use crate::license::opt_text;
use crate::models::SyncStatus;
use crate::text::{cat, joined, join_texts, str_equal, texts_of};

verus! {

/// Seconds between two rounds.
pub const SYNC_SECONDS: u64 = 5;

/// Mirrored sessions not refreshed for this many seconds are removed.
pub const STALE_AFTER_SECONDS: i64 = 30;

/// How many days of history each round mirrors.
pub const HISTORY_SYNC_DAYS: i64 = 30;

/// Whether a status is one that a round records: it is a success exactly
/// when no error is recorded, and a success carries its time.
pub open spec fn status_consistent(s: SyncStatus) -> bool {
    &&& s.ok <==> s.last_error is None
    &&& s.ok ==> s.last_at is Some
}

/// The status to report: the recorded one, or, when none can be read, a
/// failure saying that the status could not be locked.
pub fn current_status(recorded: Option<SyncStatus>) -> (r: SyncStatus)
    ensures
        recorded matches Some(s) ==> r == s,
        recorded is None ==> !r.ok && r.last_at is None && opt_text(r.last_error) == Some(
            "durum kilitlenemedi"@,
        ),
        recorded is None ==> status_consistent(r),
        (recorded matches Some(s) && status_consistent(s)) ==> status_consistent(r),
{
    match recorded {
        Some(s) => s,
        None => SyncStatus { ok: false, last_at: None, last_error: Some("durum kilitlenemedi".to_string()) },
    }
}

/// The status recorded after a round that ended at `at` with `result`:
/// a success without error, or a failure carrying the round's error text.
pub fn round_status(result: Result<(), String>, at: String) -> (r: SyncStatus)
    ensures
        r.ok == (result is Ok),
        r.last_error == (match result {
            Ok(()) => None,
            Err(e) => Some(e),
        }),
        r.last_at == Some(at),
        status_consistent(r),
{
    match result {
        Ok(()) => SyncStatus { ok: true, last_at: Some(at), last_error: None },
        Err(e) => SyncStatus { ok: false, last_at: Some(at), last_error: Some(e) },
    }
}

// ─── The steps of a round ────────────────────────────────────────────

/// A step of a mirror round: the uploads in the order a round makes them,
/// the removal of stale mirrored sessions, the day-end figures of each
/// mirrored day (by its position in `days_to_mirror`), and the end.
#[derive(Clone, Copy, Debug, PartialEq, Eq, Structural)]
pub enum SyncStep {
    Overview,
    Stations,
    Sessions,
    StaleSessions,
    Drinks,
    History,
    DayEnd(usize),
    Finished,
}

/// The step that follows `step` when it ended well (`ok`) or not, in a
/// round that mirrors `days` days. Every upload is tried whatever came
/// before; stale sessions are removed only after the sessions were
/// uploaded.
pub open spec fn step_after(step: SyncStep, ok: bool, days: nat) -> SyncStep {
    match step {
        SyncStep::Overview => SyncStep::Stations,
        SyncStep::Stations => SyncStep::Sessions,
        SyncStep::Sessions => if ok {
            SyncStep::StaleSessions
        } else {
            SyncStep::Drinks
        },
        SyncStep::StaleSessions => SyncStep::Drinks,
        SyncStep::Drinks => SyncStep::History,
        SyncStep::History => if days > 0 {
            SyncStep::DayEnd(0)
        } else {
            SyncStep::Finished
        },
        SyncStep::DayEnd(i) => if i + 1 < days {
            SyncStep::DayEnd((i + 1) as usize)
        } else {
            SyncStep::Finished
        },
        SyncStep::Finished => SyncStep::Finished,
    }
}

/// Whether `step` can come up in a round of `days` days.
pub open spec fn step_valid(step: SyncStep, days: nat) -> bool {
    step matches SyncStep::DayEnd(i) ==> i < days
}

/// How many steps at most are left from `step` in a round of `days` days.
pub open spec fn steps_left(step: SyncStep, days: nat) -> nat {
    match step {
        SyncStep::Overview => days + 6,
        SyncStep::Stations => days + 5,
        SyncStep::Sessions => days + 4,
        SyncStep::StaleSessions => days + 3,
        SyncStep::Drinks => days + 2,
        SyncStep::History => days + 1,
        SyncStep::DayEnd(i) => (days - i) as nat,
        SyncStep::Finished => 0,
    }
}

/// A round under way: the next step, how many days it mirrors, and the
/// failures of its steps so far, in order.
pub struct SyncRound {
    pub next: SyncStep,
    pub days: usize,
    pub errors: Vec<String>,
}

/// A round that mirrors `days` days, before its first step.
pub fn start_round(days: usize) -> (r: SyncRound)
    ensures
        r.next == SyncStep::Overview,
        r.days == days,
        r.errors@.len() == 0,
{
    SyncRound { next: SyncStep::Overview, days, errors: Vec::new() }
}

/// Records the outcome of the round's next step: a failure is kept, and
/// the round moves to the step that follows (see `step_after`).
pub fn advance_round(round: &mut SyncRound, outcome: Result<(), String>)
    requires
        old(round).next != SyncStep::Finished,
        step_valid(old(round).next, old(round).days as nat),
    ensures
        final(round).days == old(round).days,
        final(round).next == step_after(old(round).next, outcome is Ok, old(round).days as nat),
        step_valid(final(round).next, final(round).days as nat),
        steps_left(final(round).next, final(round).days as nat) < steps_left(
            old(round).next,
            old(round).days as nat,
        ),
        final(round).errors@ == match outcome {
            Ok(()) => old(round).errors@,
            Err(e) => old(round).errors@.push(e),
        },
{
    let ok = outcome.is_ok();
    match outcome {
        Ok(()) => {},
        Err(e) => round.errors.push(e),
    }
    let next = match round.next {
        SyncStep::Overview => SyncStep::Stations,
        SyncStep::Stations => SyncStep::Sessions,
        SyncStep::Sessions => if ok {
            SyncStep::StaleSessions
        } else {
            SyncStep::Drinks
        },
        SyncStep::StaleSessions => SyncStep::Drinks,
        SyncStep::Drinks => SyncStep::History,
        SyncStep::History => if round.days > 0 {
            SyncStep::DayEnd(0)
        } else {
            SyncStep::Finished
        },
        SyncStep::DayEnd(i) => if i + 1 < round.days {
            SyncStep::DayEnd(i + 1)
        } else {
            SyncStep::Finished
        },
        SyncStep::Finished => SyncStep::Finished,
    };
    round.next = next;
}

/// A failed step keeps no later upload from being tried: the step after a
/// failure is the one after a success, except that a failed sessions
/// upload skips the removal of stale sessions, which comes only right
/// after a successful sessions upload.
pub proof fn law_failures_skip_only_stale_removal(step: SyncStep, ok: bool, days: nat)
    ensures
        step != SyncStep::Sessions ==> step_after(step, false, days) == step_after(step, true, days),
        step_after(SyncStep::Sessions, false, days) == step_after(SyncStep::StaleSessions, true, days),
        step_after(step, ok, days) == SyncStep::StaleSessions <==> (step == SyncStep::Sessions && ok),
{
}

/// The outcome of a round from the failures of its steps: success when
/// there were none, else their texts joined by `; `.
pub fn round_result(errors: &Vec<String>) -> (r: Result<(), String>)
    ensures
        r is Ok <==> errors@.len() == 0,
        r matches Err(m) ==> m@ == joined(texts_of(errors@), "; "@),
{
    if errors.len() == 0 {
        Ok(())
    } else {
        Err(join_texts(errors, "; "))
    }
}

/// The days whose day-end figures a round mirrors: today first, then the
/// other days with closed sessions, in their order.
pub open spec fn mirrored_days(today: Seq<char>, recent: Seq<Seq<char>>) -> Seq<Seq<char>> {
    seq![today] + recent.filter(|d: Seq<char>| d != today)
}

/// The days whose day-end figures a round mirrors (see `mirrored_days`).
pub fn days_to_mirror(today: &str, recent: &Vec<String>) -> (r: Vec<String>)
    ensures
        texts_of(r@) == mirrored_days(today@, texts_of(recent@)),
{
    let mut out: Vec<String> = Vec::new();
    out.push(today.to_string());
    let ghost all = texts_of(recent@);
    let mut k: usize = 0;
    while k < recent.len()
        invariant
            k <= recent.len(),
            all == texts_of(recent@),
            texts_of(out@) == seq![today@] + all.take(k as int).filter(|d: Seq<char>| d != today@),
        decreases recent.len() - k,
    {
        let ghost before = out@;
        proof {
            assert(all.take(k + 1) =~= all.take(k as int).push(all[k as int]));
            all.take(k as int).lemma_filter_push(all[k as int], |d: Seq<char>| d != today@);
        }
        if !str_equal(recent[k].as_str(), today) {
            out.push(recent[k].clone());
            assert(texts_of(out@) =~= texts_of(before).push(recent@[k as int]@));
        }
        k = k + 1;
    }
    assert(all.take(k as int) =~= all);
    out
}

/// The address rows of `table` are written to.
pub fn table_url(base: &str, table: &str) -> (r: String)
    ensures
        r@ == base@ + "/rest/v1/"@ + table@,
{
    let a = cat(base, "/rest/v1/");
    cat(a.as_str(), table)
}

/// The outcome of writing rows of `table`: success when the server said
/// so, else the table, the status and the server's answer.
pub fn upload_result(table: &str, success: bool, status: &str, body: &str) -> (r: Result<(), String>)
    ensures
        r is Ok <==> success,
        r matches Err(m) ==> m@ == table@ + ": "@ + status@ + " "@ + body@,
{
    if success {
        return Ok(());
    }
    let a = cat(table, ": ");
    let b = cat(a.as_str(), status);
    let c = cat(b.as_str(), " ");
    Err(cat(c.as_str(), body))
}

/// The outcome of removing stale mirrored sessions.
pub fn stale_removal_result(success: bool, status: &str, body: &str) -> (r: Result<(), String>)
    ensures
        r is Ok <==> success,
        r matches Err(m) ==> m@ == "stale: "@ + status@ + " "@ + body@,
{
    if success {
        return Ok(());
    }
    let a = cat("stale: ", status);
    let b = cat(a.as_str(), " ");
    Err(cat(b.as_str(), body))
}

/// The text `chrono` gives for the UTC second `secs` in the form
/// `%Y-%m-%dT%H:%M:%SZ`.
pub uninterp spec fn utc_second_text(secs: i64) -> Seq<char>;

/// Seconds within which `chrono::DateTime::from_timestamp` gives a value
/// (its years reach past ±250,000).
pub const UTC_SECONDS_BOUND: i64 = 7_000_000_000_000;

/// Calls `chrono::DateTime::from_timestamp` for the second `secs` and
/// formats it with `format("%Y-%m-%dT%H:%M:%SZ")`; the text is named
/// `utc_second_text`.
#[verifier::external_body]
fn utc_second(secs: i64) -> (r: String)
    requires
        -UTC_SECONDS_BOUND <= secs <= UTC_SECONDS_BOUND,
    ensures
        r@ == utc_second_text(secs),
{
    chrono::DateTime::from_timestamp(secs, 0).unwrap_or_default().format("%Y-%m-%dT%H:%M:%SZ").to_string()
}

/// The address that removes the mirrored sessions not refreshed in the
/// `STALE_AFTER_SECONDS` before the second `now`.
pub fn stale_sessions_url(base: &str, now: i64) -> (r: String)
    requires
        -UTC_SECONDS_BOUND + STALE_AFTER_SECONDS <= now <= UTC_SECONDS_BOUND,
    ensures
        r@ == base@ + "/rest/v1/kafe_sessions?updated_at=lt."@ + utc_second_text(
            (now - STALE_AFTER_SECONDS) as i64,
        ),
{
    let cutoff = utc_second(now - STALE_AFTER_SECONDS);
    let a = cat(base, "/rest/v1/kafe_sessions?updated_at=lt.");
    cat(a.as_str(), cutoff.as_str())
}

} // verus!
