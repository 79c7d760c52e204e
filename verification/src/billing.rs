//! Session timing: how long a session has run once its pauses are taken
//! out, how many minutes are billed, which tariff a payment method bills
//! at, and when the session-length warning and automatic end apply.
//!
//! Money amounts are floating-point in this application and are worked out
//! by the caller from the whole minutes computed here.
use vstd::prelude::*;

use crate::clock::{
    at_nanos, moment_valid, parse_rfc3339, rfc3339_moment, seconds_between,
    whole_seconds_between, Moment, NANOS_PER_SEC,
};
use crate::text::{
    all_ascii, ascii_lowered, before_first, chars_of, contains_chars, lemma_before_first_keeps_ascii,
    lemma_trimmed_keeps_ascii, lemma_before_first_after_prefix, lemma_trimmed_keeps_run, leading_space,
    ascii_lower, find_char, has_infix, lowercased, slice_chars,
    string_of, to_lowercase, trim_chars, trimmed,
};

verus! {

/// `x` clamped to the range of `i64`, as `i64::saturating_sub` clamps.
pub open spec fn clamp_i64(x: int) -> int {
    if x > i64::MAX {
        i64::MAX as int
    } else if x < i64::MIN {
        i64::MIN as int
    } else {
        x
    }
}

pub open spec fn max0(x: int) -> int {
    if x < 0 {
        0
    } else {
        x
    }
}

fn sub_saturating(a: i64, b: i64) -> (r: i64)
    ensures
        r == clamp_i64(a - b),
{
    let d: i128 = a as i128 - b as i128;
    if d > i64::MAX as i128 {
        i64::MAX
    } else if d < i64::MIN as i128 {
        i64::MIN
    } else {
        d as i64
    }
}

/// Seconds a session has run, pauses taken out: `elapsed` is the time since
/// the start, `paused_for` the time since the current pause began (when the
/// session is paused at a readable moment), `total_paused` the seconds of
/// earlier pauses. Never negative.
pub open spec fn spec_effective_seconds(elapsed: int, paused_for: Option<int>, total_paused: int) -> int {
    let e0 = max0(elapsed);
    let e1 = match paused_for {
        Some(p) => e0 - max0(p),
        None => e0,
    };
    max0(clamp_i64(e1 - total_paused))
}

/// Pause state of an active session.
#[derive(Clone, Copy, Debug)]
pub enum Pause {
    /// Not paused.
    Running,
    /// Paused since the given moment.
    PausedAt(Moment),
    /// Marked paused, but the pause time cannot be read.
    PausedUnreadable,
}

/// What the fee counter of a session shows: whole minutes and the seconds
/// past them, and whether the session is paused.
#[derive(Clone, Copy, Debug)]
pub struct SessionTime {
    pub minutes: i64,
    pub seconds: i64,
    pub is_paused: bool,
}

pub open spec fn pause_valid(p: Pause) -> bool {
    match p {
        Pause::PausedAt(m) => moment_valid(m),
        _ => true,
    }
}

/// The time a session started at `start` shows at `now`.
pub open spec fn spec_session_time(start: Moment, now: Moment, pause: Pause, total_paused: int) -> SessionTime {
    let paused_for = match pause {
        Pause::PausedAt(p) => Some(whole_seconds_between(now, p)),
        _ => None,
    };
    let eff = spec_effective_seconds(whole_seconds_between(now, start), paused_for, total_paused);
    SessionTime {
        minutes: (eff / 60) as i64,
        seconds: (eff % 60) as i64,
        is_paused: !(pause is Running),
    }
}

/// The time a session started at `start` shows at `now`.
pub fn session_time_at(start: Moment, now: Moment, pause: Pause, total_paused: i64) -> (r: SessionTime)
    requires
        moment_valid(start),
        moment_valid(now),
        pause_valid(pause),
    ensures
        r == spec_session_time(start, now, pause, total_paused as int),
        0 <= r.minutes,
        0 <= r.seconds < 60,
{
    let total_secs = seconds_between(now, start);
    let mut eff: i64 = if total_secs < 0 {
        0
    } else {
        total_secs
    };
    let is_paused = match pause {
        Pause::Running => false,
        _ => true,
    };
    match pause {
        Pause::PausedAt(p) => {
            let ps0 = seconds_between(now, p);
            let ps = if ps0 < 0 {
                0
            } else {
                ps0
            };
            eff = sub_saturating(eff, ps);
        },
        _ => {},
    }
    eff = sub_saturating(eff, total_paused);
    if eff < 0 {
        eff = 0;
    }
    SessionTime { minutes: eff / 60, seconds: eff % 60, is_paused }
}

/// How a stored pause time reads: no pause, a readable moment, or text
/// that is not RFC 3339.
pub open spec fn pause_of(paused_at: Option<Seq<char>>) -> Pause {
    match paused_at {
        None => Pause::Running,
        Some(t) => match rfc3339_moment(t) {
            Some(m) => Pause::PausedAt(m),
            None => Pause::PausedUnreadable,
        },
    }
}

pub open spec fn opt_view(s: Option<&str>) -> Option<Seq<char>> {
    match s {
        Some(t) => Some(t@),
        None => None,
    }
}

fn read_pause(paused_at: Option<&str>) -> (r: Pause)
    ensures
        r == pause_of(opt_view(paused_at)),
        pause_valid(r),
{
    match paused_at {
        None => Pause::Running,
        Some(t) => match parse_rfc3339(t) {
            Some(m) => Pause::PausedAt(m),
            None => Pause::PausedUnreadable,
        },
    }
}

/// The time a running session shows at `now`, from its stored start time,
/// pause time and seconds of earlier pauses. A start time that cannot be
/// read counts as `now`; a pause time that cannot be read marks the session
/// paused without taking anything off.
pub fn session_time(start_text: &str, now: Moment, paused_at: Option<&str>, total_paused: i64) -> (r: SessionTime)
    requires
        moment_valid(now),
    ensures
        r == spec_session_time(
            match rfc3339_moment(start_text@) {
                Some(m) => m,
                None => now,
            },
            now,
            pause_of(opt_view(paused_at)),
            total_paused as int,
        ),
{
    let start = match parse_rfc3339(start_text) {
        Some(m) => m,
        None => now,
    };
    let pause = read_pause(paused_at);
    session_time_at(start, now, pause, total_paused)
}

/// What a running session's fee counter shows at the time the clock reads
/// now, with that time (see `session_time`).
pub fn live_session_time(start_text: &str, paused_at: Option<&str>, total_paused: i64) -> (r: (Moment, SessionTime))
    ensures
        moment_valid(r.0),
        r.1 == spec_session_time(
            match rfc3339_moment(start_text@) {
                Some(m) => m,
                None => r.0,
            },
            r.0,
            pause_of(opt_view(paused_at)),
            total_paused as int,
        ),
{
    let now = crate::clock::now();
    (now, session_time(start_text, now, paused_at, total_paused))
}

/// Whole minutes a session that ends at `end` lasted, as they are billed
/// and recorded when it is closed: the same count the fee counter shows at
/// that moment.
pub fn session_duration_minutes(start: Moment, end: Moment, pause: Pause, total_paused: i64) -> (r: i64)
    requires
        moment_valid(start),
        moment_valid(end),
        pause_valid(pause),
    ensures
        r == spec_session_time(start, end, pause, total_paused as int).minutes,
{
    let d = seconds_between(end, start);
    let mut eff: i64 = if d < 0 {
        0
    } else {
        d
    };
    match pause {
        Pause::PausedAt(p) => {
            let ps0 = seconds_between(end, p);
            let ps = if ps0 < 0 {
                0
            } else {
                ps0
            };
            eff = sub_saturating(eff, ps);
        },
        _ => {},
    }
    eff = sub_saturating(eff, total_paused);
    // Whole minutes, rounded toward zero, and never below zero.
    let q = if eff >= 0 {
        eff / 60
    } else {
        0 - ((0 - (eff as i128)) / 60) as i64
    };
    let mins = if q < 0 {
        0
    } else {
        q
    };
    proof {
        let t = spec_session_time(start, end, pause, total_paused as int);
        if eff < 0 {
            assert(q <= 0) by (nonlinear_arith)
                requires
                    q == -((-(eff as int)) / 60),
                    eff < 0,
            ;
        }
    }
    mins
}

/// Minutes billed for `minutes` of play when time is billed in blocks of
/// `round` minutes (a block length below 1 counts as 1): rounded up to the
/// next whole block.
pub open spec fn spec_billed_minutes(minutes: int, round: int) -> int {
    let r = if round < 1 {
        1
    } else {
        round
    };
    ((minutes + r - 1) / r) * r
}

/// Minutes billed for `minutes` of play in blocks of `round_minutes`.
/// (For every count below 2^53 this equals the ceiling of the
/// floating-point quotient of the two.)
pub fn billed_minutes(minutes: i64, round_minutes: i64) -> (r: i64)
    requires
        0 <= minutes,
        minutes + (if round_minutes < 1 {
            1
        } else {
            round_minutes
        }) <= i64::MAX,
    ensures
        r == spec_billed_minutes(minutes as int, round_minutes as int),
        minutes <= r,
        r < minutes + (if round_minutes < 1 {
            1
        } else {
            round_minutes
        }),
        r % (if round_minutes < 1 {
            1
        } else {
            round_minutes
        }) == 0,
{
    let round: i64 = if round_minutes < 1 {
        1
    } else {
        round_minutes
    };
    let chunks = (minutes + round - 1) / round;
    proof {
        lemma_block_bounds(minutes as int, round as int);
    }
    chunks * round
}

proof fn lemma_block_bounds(m: int, r: int)
    requires
        0 <= m,
        1 <= r,
    ensures
        m <= ((m + r - 1) / r) * r < m + r,
        (((m + r - 1) / r) * r) % r == 0,
        ((m + r - 1) / r) * r <= m + r - 1,
{
    let q = (m + r - 1) / r;
    let s = (m + r - 1) % r;
    assert(m + r - 1 == q * r + s && 0 <= s < r) by (nonlinear_arith)
        requires
            q == (m + r - 1) / r,
            s == (m + r - 1) % r,
            r >= 1,
    ;
    assert((q * r) % r == 0) by (nonlinear_arith)
        requires
            r >= 1,
    ;
}

/// Seconds of pause to add to a session's total when it is resumed at
/// `now` after being paused at `paused_at` (none when the clock reads
/// earlier than the pause).
pub fn resumed_pause_total(current_total: i64, paused_at: Moment, now: Moment) -> (r: i64)
    requires
        moment_valid(paused_at),
        moment_valid(now),
        current_total + max0(whole_seconds_between(now, paused_at)) <= i64::MAX,
        current_total + max0(whole_seconds_between(now, paused_at)) >= i64::MIN,
    ensures
        r == current_total + max0(whole_seconds_between(now, paused_at)),
{
    let s = seconds_between(now, paused_at);
    let add = if s < 0 {
        0
    } else {
        s
    };
    current_total + add
}

// ─── Tariff by payment method ───────────────────────────────────────

/// The tariff that a lower-cased primary payment method bills at:
/// `kart` or `iban` in it means the card tariff, otherwise `nakit` in it
/// means the cash tariff, otherwise `fallback` stands.
pub open spec fn spec_rate_type_for(primary_lower: Seq<char>, fallback: Seq<char>) -> Seq<char> {
    if has_infix(primary_lower, "kart"@) || has_infix(primary_lower, "iban"@) {
        "kart"@
    } else if has_infix(primary_lower, "nakit"@) {
        "nakit"@
    } else {
        fallback
    }
}

proof fn lemma_infix_in_middle(a: Seq<char>, w: Seq<char>, b: Seq<char>)
    ensures
        has_infix(a + w + b, w),
{
    let hay = a + w + b;
    assert(hay.subrange(a.len() as int, a.len() + w.len() as int) =~= w);
}

/// The tariff goes by what the method contains, wherever it stands: a
/// method with `kart` or `iban` anywhere in it bills at the card tariff,
/// one with `nakit` anywhere (and neither of those) at the cash tariff, and
/// one with none of the three at the fallback.
pub proof fn law_tariff_goes_by_containment(a: Seq<char>, b: Seq<char>, method: Seq<char>, fallback: Seq<char>)
    ensures
        spec_rate_type_for(a + "kart"@ + b, fallback) == "kart"@,
        spec_rate_type_for(a + "iban"@ + b, fallback) == "kart"@,
        !has_infix(a + "nakit"@ + b, "kart"@) && !has_infix(a + "nakit"@ + b, "iban"@) ==> spec_rate_type_for(
            a + "nakit"@ + b,
            fallback,
        ) == "nakit"@,
        !has_infix(method, "kart"@) && !has_infix(method, "iban"@) && !has_infix(method, "nakit"@)
            ==> spec_rate_type_for(method, fallback) == fallback,
{
    lemma_infix_in_middle(a, "kart"@, b);
    lemma_infix_in_middle(a, "iban"@, b);
    lemma_infix_in_middle(a, "nakit"@, b);
}

proof fn lemma_word_in_primary(a: Seq<char>, w: Seq<char>, b: Seq<char>)
    requires
        forall|k: int| 0 <= k < a.len() ==> #[trigger] a[k] != '+',
        w.len() == 4,
        forall|k: int| 0 <= k < w.len() ==> 'a' <= #[trigger] w[k] <= 'z',
    ensures
        has_infix(ascii_lowered(trimmed(before_first(a + w + b, '+'))), w),
{
    let aw = a + w;
    assert forall|k: int| 0 <= k < aw.len() implies #[trigger] aw[k] != '+' by {
        if k >= a.len() {
            assert(aw[k] == w[k - a.len()]);
        }
    }
    assert(a + w + b == aw + b);
    lemma_before_first_after_prefix(aw, b, '+');
    let x = aw + before_first(b, '+');
    let p = a.len() as int;
    assert(x.subrange(p, p + w.len() as int) =~= w);
    lemma_trimmed_keeps_run(x, p, w);
    let q = p - leading_space(x);
    let t = trimmed(x);
    let low = ascii_lowered(t);
    assert forall|k: int| 0 <= k < w.len() implies #[trigger] low.subrange(q, q + w.len() as int)[k] == w[k] by {
        assert(t.subrange(q, q + w.len() as int)[k] == w[k]);
        assert(t[q + k] == w[k]);
        assert(low[q + k] == ascii_lower(t[q + k]));
    }
    assert(low.subrange(q, q + w.len() as int) =~= w);
}

/// A card payment is recognized wherever its word stands in the primary
/// method: for a method whose part before the first `+` holds `kart` or
/// `iban` anywhere, the tariff of that part, trimmed and with ASCII capitals
/// lowered (what `rate_type_for` bills for ASCII text), is the card tariff.
pub proof fn law_card_word_anywhere_bills_card(a: Seq<char>, b: Seq<char>, fallback: Seq<char>)
    requires
        forall|k: int| 0 <= k < a.len() ==> #[trigger] a[k] != '+',
    ensures
        spec_rate_type_for(ascii_lowered(trimmed(before_first(a + "kart"@ + b, '+'))), fallback) == "kart"@,
        spec_rate_type_for(ascii_lowered(trimmed(before_first(a + "iban"@ + b, '+'))), fallback) == "kart"@,
{
    reveal_strlit("kart");
    reveal_strlit("iban");
    lemma_word_in_primary(a, "kart"@, b);
    lemma_word_in_primary(a, "iban"@, b);
}

/// The primary method of a (possibly split) payment description: the text
/// before the first `+`, trimmed and lower-cased.
pub open spec fn primary_method(payment_method: Seq<char>) -> Seq<char> {
    lowercased(trimmed(before_first(payment_method, '+')))
}

/// The tariff for an already lower-cased primary payment method.
pub fn rate_type_for_primary<'a>(primary_lower: &str, fallback: &'a str) -> (r: &'a str)
    ensures
        r@ == spec_rate_type_for(primary_lower@, fallback@),
{
    let p = chars_of(primary_lower);
    let kart = chars_of("kart");
    let iban = chars_of("iban");
    let nakit = chars_of("nakit");
    if contains_chars(&p, &kart) || contains_chars(&p, &iban) {
        "kart"
    } else if contains_chars(&p, &nakit) {
        "nakit"
    } else {
        fallback
    }
}

/// The tariff that a payment method bills at. A split payment
/// (`kart+kısmi:nakit:50.00`) is billed by the method named before the
/// first `+`.
pub fn rate_type_for<'a>(payment_method: &str, fallback: &'a str) -> (r: &'a str)
    ensures
        r@ == spec_rate_type_for(primary_method(payment_method@), fallback@),
        all_ascii(payment_method@) ==> r@ == spec_rate_type_for(
            ascii_lowered(trimmed(before_first(payment_method@, '+'))),
            fallback@,
        ),
{
    let all = chars_of(payment_method);
    let cut = find_char(&all, '+');
    let head = slice_chars(&all, 0, cut);
    assert(head@ == before_first(payment_method@, '+'));
    let trimmed_head = trim_chars(&head);
    let text = string_of(&trimmed_head);
    proof {
        if all_ascii(payment_method@) {
            lemma_before_first_keeps_ascii(payment_method@, '+');
            lemma_trimmed_keeps_ascii(head@);
        }
    }
    let lower = to_lowercase(text.as_str());
    rate_type_for_primary(lower.as_str(), fallback)
}

/// A split payment is billed at the tariff of its primary method: adding
/// `+` and any description of the other parts to a method that has no `+`
/// of its own changes nothing.
pub proof fn law_split_payment_bills_primary_method(method: Seq<char>, rest: Seq<char>, fallback: Seq<char>)
    requires
        forall|i: int| 0 <= i < method.len() ==> #[trigger] method[i] != '+',
    ensures
        spec_rate_type_for(primary_method(method + seq!['+'] + rest), fallback) == spec_rate_type_for(
            primary_method(method),
            fallback,
        ),
{
    let whole = method + seq!['+'] + rest;
    assert forall|k: int| 0 <= k < method.len() implies #[trigger] whole[k] != '+' by {
        assert(whole[k] == method[k]);
    }
    assert(whole[method.len() as int] == '+');
    crate::text::lemma_split_at_first(whole, '+', method.len() as int);
    crate::text::lemma_split_at_first(method, '+', method.len() as int);
    assert(whole.take(method.len() as int) =~= method);
    assert(method.take(method.len() as int) =~= method);
}

// ─── Session length limit ────────────────────────────────────────────

/// Whether the session-length warning shows, whether the session is due to
/// end on its own, and the seconds left before that.
#[derive(Clone, Copy, Debug)]
pub struct LimitState {
    pub show_warning: bool,
    pub auto_end: bool,
    pub remaining_seconds: i64,
}

/// The limit state of a session that has run `total_secs` seconds (pauses
/// included) when sessions last at most `max_minutes` minutes (none when it
/// is not positive) and the warning starts `warn_minutes` before the end.
pub open spec fn spec_limit_state(max_minutes: int, warn_minutes: int, total_secs: int) -> LimitState {
    let max_secs = max_minutes * 60;
    let warn_secs = warn_minutes * 60;
    LimitState {
        show_warning: max_minutes > 0 && total_secs >= max_secs - warn_secs && total_secs < max_secs,
        auto_end: max_minutes > 0 && total_secs >= max_secs,
        remaining_seconds: (if max_secs > 0 {
            max0(max_secs - total_secs)
        } else {
            0
        }) as i64,
    }
}

/// The limit state of a session that has run `total_secs` seconds.
pub fn limit_state(max_minutes: i64, warn_minutes: i64, total_secs: i64) -> (r: LimitState)
    requires
        i64::MIN <= max_minutes * 60 <= i64::MAX,
        i64::MIN <= warn_minutes * 60 <= i64::MAX,
        i64::MIN <= max_minutes * 60 - warn_minutes * 60 <= i64::MAX,
        i64::MIN <= max_minutes * 60 - total_secs <= i64::MAX,
    ensures
        r == spec_limit_state(max_minutes as int, warn_minutes as int, total_secs as int),
{
    let max_secs = max_minutes * 60;
    let warn_secs = warn_minutes * 60;
    LimitState {
        show_warning: max_minutes > 0 && total_secs >= max_secs - warn_secs && total_secs < max_secs,
        auto_end: max_minutes > 0 && total_secs >= max_secs,
        remaining_seconds: if max_secs > 0 {
            let left = max_secs - total_secs;
            if left < 0 {
                0
            } else {
                left
            }
        } else {
            0
        },
    }
}

// ─── Laws ────────────────────────────────────────────────────────────

proof fn lemma_floor_split(a: int, b: int, d: int)
    requires
        0 <= a,
        0 <= b,
        0 < d,
    ensures
        a / d + b / d <= (a + b) / d <= a / d + b / d + 1,
        b % d == 0 ==> (a + b) / d == a / d + b / d,
{
    let qa = a / d;
    let ra = a % d;
    let qb = b / d;
    let rb = b % d;
    assert(a == qa * d + ra && 0 <= ra < d) by (nonlinear_arith)
        requires
            qa == a / d,
            ra == a % d,
            d > 0,
    ;
    assert(b == qb * d + rb && 0 <= rb < d) by (nonlinear_arith)
        requires
            qb == b / d,
            rb == b % d,
            d > 0,
    ;
    assert((a + b) / d == qa + qb + (ra + rb) / d) by (nonlinear_arith)
        requires
            a == qa * d + ra,
            b == qb * d + rb,
            d > 0,
    ;
    assert(0 <= (ra + rb) / d <= 1) by (nonlinear_arith)
        requires
            0 <= ra < d,
            0 <= rb < d,
    ;
    if rb == 0 {
        assert((ra + rb) / d == 0) by (nonlinear_arith)
            requires
                0 <= ra < d,
                rb == 0,
        ;
    }
}

/// While a session stays paused its clock stands still: between any two
/// moments after the pause began, the effective seconds change by at most
/// one (the rounding of the two whole-second counts), and not at all when
/// the pause began a whole number of seconds after the start.
pub proof fn law_paused_clock_stands_still(start: Moment, paused: Moment, now1: Moment, now2: Moment, total_paused: int)
    requires
        moment_valid(start),
        moment_valid(paused),
        moment_valid(now1),
        moment_valid(now2),
        at_nanos(start) <= at_nanos(paused),
        at_nanos(paused) <= at_nanos(now1),
        at_nanos(paused) <= at_nanos(now2),
    ensures
        ({
            let e1 = spec_effective_seconds(
                whole_seconds_between(now1, start),
                Some(whole_seconds_between(now1, paused)),
                total_paused,
            );
            let e2 = spec_effective_seconds(
                whole_seconds_between(now2, start),
                Some(whole_seconds_between(now2, paused)),
                total_paused,
            );
            &&& -1 <= e1 - e2 <= 1
            &&& (at_nanos(paused) - at_nanos(start)) % (NANOS_PER_SEC as int) == 0 ==> e1 == e2
        }),
{
    let d = NANOS_PER_SEC as int;
    let b = at_nanos(paused) - at_nanos(start);
    let a1 = at_nanos(now1) - at_nanos(paused);
    let a2 = at_nanos(now2) - at_nanos(paused);
    lemma_floor_split(a1, b, d);
    lemma_floor_split(a2, b, d);
    assert(at_nanos(now1) - at_nanos(start) == a1 + b);
    assert(at_nanos(now2) - at_nanos(start) == a2 + b);
}

/// Resuming a paused session does not move its clock: right at the moment
/// of resuming, the session shows the same time whether it is read as still
/// paused or as running with the pause added to its total.
pub proof fn law_resume_keeps_clock(start: Moment, paused: Moment, resumed: Moment, total_paused: int)
    requires
        moment_valid(start),
        moment_valid(paused),
        moment_valid(resumed),
        i64::MIN <= total_paused,
        total_paused + max0(whole_seconds_between(resumed, paused)) <= i64::MAX,
    ensures
        spec_session_time(start, resumed, Pause::PausedAt(paused), total_paused).minutes
            == spec_session_time(
            start,
            resumed,
            Pause::Running,
            total_paused + max0(whole_seconds_between(resumed, paused)),
        ).minutes,
        spec_session_time(start, resumed, Pause::PausedAt(paused), total_paused).seconds
            == spec_session_time(
            start,
            resumed,
            Pause::Running,
            total_paused + max0(whole_seconds_between(resumed, paused)),
        ).seconds,
{
}

} // verus!
