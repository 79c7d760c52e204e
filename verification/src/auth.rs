//! Desk-application users: password hashes (Argon2, and the salted
//! SHA-256 hashes of older installations), the lockout after repeated
//! failed logins, sign-in, and the checks on user-management requests.
use vstd::prelude::*;

use crate::clock::TIMESTAMP_BOUND;
use crate::crypto::{argon2_accepts, argon2_hash_with_fresh_salt, argon2_verify, sha256, sha256_digest};
use crate::hex::{bytes_to_hex, hex_text};
use crate::models::CurrentUser;
use crate::text::{
    chars_of, decimal_chars, decimal_text, starts_with, starts_with_chars, str_equal, string_of,
    trim_chars, trimmed,
};
use vstd::string::StringSliceAdditionalSpecFns;
use vstd::utf8::encode_utf8;

verus! {

/// The salt of the older, SHA-256 password hashes.
pub const LEGACY_SALT: &'static str = "oyun-kafe-2026";

/// Failed logins within the lockout window after which a user is locked out.
pub const MAX_FAILED_ATTEMPTS: usize = 5;

/// Seconds a failed login counts against the user.
pub const LOCKOUT_SECONDS: i64 = 300;

// ─── Password hashes ─────────────────────────────────────────────────

/// The older hash of `password`: lower-case hex SHA-256 of the salt
/// followed by the password.
pub open spec fn legacy_hash_text(password: Seq<char>) -> Seq<char> {
    hex_text(sha256_digest(encode_utf8(LEGACY_SALT@) + encode_utf8(password)))
}

/// Whether `password` matches the stored hash: an Argon2 PHC string
/// (`$argon2...`) is checked by Argon2, anything else is compared with the
/// older salted SHA-256 hash.
pub open spec fn password_matches(password: Seq<char>, stored: Seq<char>) -> bool {
    if starts_with(stored, "$argon2"@) {
        argon2_accepts(password, stored)
    } else {
        legacy_hash_text(password) == stored
    }
}

/// The older salted SHA-256 hash of `password`: 64 hex digits.
pub fn legacy_hash(password: &str) -> (r: String)
    ensures
        r@ == legacy_hash_text(password@),
        r@.len() == 64,
{
    let mut data: Vec<u8> = Vec::new();
    data.extend_from_slice(LEGACY_SALT.as_bytes());
    data.extend_from_slice(password.as_bytes());
    assert(data@ =~= encode_utf8(LEGACY_SALT@) + encode_utf8(password@));
    let digest = sha256(data.as_slice());
    bytes_to_hex(&digest)
}

/// Whether `password` matches the stored hash.
pub fn verify_password(password: &str, stored: &str) -> (r: bool)
    ensures
        r == password_matches(password@, stored@),
{
    let s = chars_of(stored);
    let prefix = chars_of("$argon2");
    if starts_with_chars(&s, &prefix) {
        argon2_verify(password, stored)
    } else {
        let h = legacy_hash(password);
        str_equal(h.as_str(), stored)
    }
}

pub(crate) proof fn lemma_hex_is_not_argon2(b: Seq<u8>)
    ensures
        !starts_with(hex_text(b), "$argon2"@),
{
    reveal_strlit("$argon2");
    let t = hex_text(b);
    if t.len() >= 7 {
        let v = b[0] / 16;
        assert(0 <= v < 16);
        assert(t.take(7)[0] == t[0]);
        assert(t[0] != '$');
    }
}

/// A new hash of `password`: an Argon2 PHC string (`$argon2...`) with a
/// fresh random salt, which Argon2 gives for every password shorter than
/// 2^32 bytes; should Argon2 fail, the older salted SHA-256 hash. Either
/// way the password matches it.
pub fn make_hash(password: &str) -> (r: String)
    ensures
        password_matches(password@, r@),
        encode_utf8(password@).len() < 0x1_0000_0000 ==> starts_with(r@, "$argon2"@),
        !starts_with(r@, "$argon2"@) ==> r@ == legacy_hash_text(password@),
{
    match argon2_hash_with_fresh_salt(password) {
        Some(h) => h,
        None => {
            let h = legacy_hash(password);
            proof {
                lemma_hex_is_not_argon2(sha256_digest(encode_utf8(LEGACY_SALT@) + encode_utf8(password@)));
            }
            h
        },
    }
}

// ─── Failed-login lockout ────────────────────────────────────────────

/// The failure times (Unix seconds) recorded under `user`, or none.
pub open spec fn lookup(entries: Seq<(Seq<char>, Seq<i64>)>, user: Seq<char>) -> Option<Seq<i64>>
    decreases entries.len(),
{
    if entries.len() == 0 {
        None
    } else if entries[0].0 == user {
        Some(entries[0].1)
    } else {
        lookup(entries.drop_first(), user)
    }
}

/// The failures that still count at `now`: those less than
/// `LOCKOUT_SECONDS` old.
pub open spec fn recent(times: Seq<i64>, now: int) -> Seq<i64> {
    times.filter(|t: i64| now - t < LOCKOUT_SECONDS)
}

/// Recent failed logins per user name.
pub struct LoginFailures {
    entries: Vec<(String, Vec<i64>)>,
}

impl LoginFailures {
    /// The recorded failures as (user, times) pairs.
    pub closed spec fn entries_view(&self) -> Seq<(Seq<char>, Seq<i64>)> {
        self.entries@.map_values(|e: (String, Vec<i64>)| (e.0@, e.1@))
    }

    /// The failure times recorded under `user`.
    pub open spec fn failures_of(&self, user: Seq<char>) -> Option<Seq<i64>> {
        lookup(self.entries_view(), user)
    }

    /// No user appears twice, and every time is one the clock can give.
    pub closed spec fn wf(&self) -> bool {
        &&& forall|i: int, j: int|
            0 <= i < j < self.entries@.len() ==> #[trigger] self.entries@[i].0@
                != #[trigger] self.entries@[j].0@
        &&& forall|i: int, k: int|
            0 <= i < self.entries@.len() && 0 <= k < self.entries@[i].1@.len() ==> -TIMESTAMP_BOUND
                <= #[trigger] self.entries@[i].1@[k] <= TIMESTAMP_BOUND
    }

    /// No failures recorded yet.
    pub fn new() -> (r: Self)
        ensures
            r.wf(),
            forall|u: Seq<char>| #[trigger] r.failures_of(u) is None,
    {
        let r = LoginFailures { entries: Vec::new() };
        assert(r.entries_view() =~= Seq::empty());
        r
    }

    proof fn lemma_lookup_index(&self, u: Seq<char>, i: int)
        requires
            self.wf(),
            0 <= i < self.entries@.len(),
            self.entries@[i].0@ == u,
        ensures
            lookup(self.entries_view(), u) == Some(self.entries@[i].1@),
    {
        lemma_lookup_first(self.entries_view(), u, i);
    }

    proof fn lemma_lookup_absent(&self, u: Seq<char>)
        requires
            forall|k: int| 0 <= k < self.entries@.len() ==> #[trigger] self.entries@[k].0@ != u,
        ensures
            lookup(self.entries_view(), u) is None,
    {
        lemma_lookup_none(self.entries_view(), u);
    }

    /// Position of `user`'s entry, or the number of entries.
    fn position(&self, user: &str) -> (r: usize)
        requires
            self.wf(),
        ensures
            r <= self.entries@.len(),
            r < self.entries@.len() ==> self.entries@[r as int].0@ == user@,
            r == self.entries@.len() ==> forall|k: int|
                0 <= k < self.entries@.len() ==> #[trigger] self.entries@[k].0@ != user@,
    {
        let mut i: usize = 0;
        while i < self.entries.len()
            invariant
                i <= self.entries@.len(),
                forall|k: int| 0 <= k < i ==> #[trigger] self.entries@[k].0@ != user@,
            decreases self.entries.len() - i,
        {
            if str_equal(self.entries[i].0.as_str(), user) {
                return i;
            }
            i = i + 1;
        }
        i
    }

    /// Sets `user`'s failure times to `times`, leaving every other user's.
    fn put(&mut self, user: &str, times: Vec<i64>)
        requires
            old(self).wf(),
            forall|k: int| 0 <= k < times@.len() ==> -TIMESTAMP_BOUND <= #[trigger] times@[k] <= TIMESTAMP_BOUND,
        ensures
            final(self).wf(),
            final(self).failures_of(user@) == Some(times@),
            forall|v: Seq<char>| v != user@ ==> #[trigger] final(self).failures_of(v) == old(self).failures_of(v),
    {
        let p = self.position(user);
        let ghost old_entries = self.entries@;
        if p < self.entries.len() {
            let key = self.entries[p].0.clone();
            self.entries.set(p, (key, times));
            assert(self.entries_view() =~= old(self).entries_view().update(p as int, (user@, times@)));
        } else {
            self.entries.push((user.to_string(), times));
            assert(self.entries_view() =~= old(self).entries_view().push((user@, times@)));
        }
        proof {
            let p2 = if p < old_entries.len() { p as int } else { old_entries.len() as int };
            assert(self.entries@[p2].0@ == user@);
            assert(self.wf()) by {
                assert forall|i: int, j: int|
                    0 <= i < j < self.entries@.len() implies #[trigger] self.entries@[i].0@
                    != #[trigger] self.entries@[j].0@ by {
                    if i != p2 && j != p2 {
                        assert(self.entries@[i] == old_entries[i]);
                        assert(self.entries@[j] == old_entries[j]);
                    } else if i == p2 {
                        if p < old_entries.len() {
                            assert(old_entries[i].0@ == user@);
                            assert(self.entries@[j] == old_entries[j]);
                        }
                    } else {
                        assert(self.entries@[i] == old_entries[i]);
                    }
                }
                assert forall|i: int, k: int|
                    0 <= i < self.entries@.len() && 0 <= k < self.entries@[i].1@.len() implies -TIMESTAMP_BOUND
                    <= #[trigger] self.entries@[i].1@[k] <= TIMESTAMP_BOUND by {
                    if i != p2 {
                        assert(self.entries@[i] == old_entries[i]);
                    }
                }
            }
            self.lemma_lookup_index(user@, p2);
            assert forall|v: Seq<char>| v != user@ implies #[trigger] self.failures_of(v)
                == old(self).failures_of(v) by {
                lemma_lookup_other(old(self).entries_view(), self.entries_view(), v, p2);
            }
        }
    }

    /// Checks whether `user` may try to log in at `now` (Unix seconds). Old
    /// failures are dropped; with `MAX_FAILED_ATTEMPTS` or more recent ones
    /// left the attempt is refused with the seconds to wait until the oldest
    /// of them expires.
    pub fn check_lockout(&mut self, user: &str, now: i64) -> (r: Result<(), i64>)
        requires
            old(self).wf(),
            -TIMESTAMP_BOUND <= now <= TIMESTAMP_BOUND,
        ensures
            final(self).wf(),
            ({
                let kept = recent(
                    match old(self).failures_of(user@) {
                        Some(t) => t,
                        None => Seq::empty(),
                    },
                    now as int,
                );
                &&& final(self).failures_of(user@) == Some(kept)
                &&& (r is Err <==> kept.len() >= MAX_FAILED_ATTEMPTS)
                &&& r matches Err(wait) ==> wait == max0_i(kept[0] + LOCKOUT_SECONDS - now)
            }),
            forall|v: Seq<char>| v != user@ ==> #[trigger] final(self).failures_of(v) == old(self).failures_of(v),
    {
        let p = self.position(user);
        let mut kept: Vec<i64> = Vec::new();
        let ghost times: Seq<i64> = if p < self.entries@.len() {
            self.entries@[p as int].1@
        } else {
            Seq::empty()
        };
        proof {
            if p < self.entries@.len() {
                self.lemma_lookup_index(user@, p as int);
            } else {
                self.lemma_lookup_absent(user@);
            }
        }
        if p < self.entries.len() {
            let n = self.entries[p].1.len();
            let mut k: usize = 0;
            while k < n
                invariant
                    p < self.entries@.len(),
                    times == self.entries@[p as int].1@,
                    n == times.len(),
                    k <= n,
                    self.wf(),
                    -TIMESTAMP_BOUND <= now <= TIMESTAMP_BOUND,
                    kept@ == recent(times.take(k as int), now as int),
                    forall|q: int| 0 <= q < kept@.len() ==> -TIMESTAMP_BOUND <= #[trigger] kept@[q] <= TIMESTAMP_BOUND,
                decreases n - k,
            {
                let t = self.entries[p].1[k];
                assert(-TIMESTAMP_BOUND <= t <= TIMESTAMP_BOUND);
                proof {
                    assert(times.take(k + 1) =~= times.take(k as int).push(t));
                    times.take(k as int).lemma_filter_push(t, |t: i64| now - t < LOCKOUT_SECONDS);
                }
                if now - t < LOCKOUT_SECONDS {
                    kept.push(t);
                }
                k = k + 1;
            }
            assert(times.take(n as int) =~= times);
        } else {
            proof {
                reveal(Seq::filter);
                assert(recent(times, now as int) =~= Seq::empty());
            }
        }
        let ghost kept_view = kept@;
        let count = kept.len();
        let first: i64 = if count > 0 {
            kept[0]
        } else {
            0
        };
        self.put(user, kept);
        if count >= MAX_FAILED_ATTEMPTS {
            let wait = first + LOCKOUT_SECONDS - now;
            Err(if wait < 0 {
                0
            } else {
                wait
            })
        } else {
            Ok(())
        }
    }

    /// Records a failed login of `user` at `now`.
    pub fn record_failure(&mut self, user: &str, now: i64)
        requires
            old(self).wf(),
            -TIMESTAMP_BOUND <= now <= TIMESTAMP_BOUND,
        ensures
            final(self).wf(),
            final(self).failures_of(user@) == Some(
                match old(self).failures_of(user@) {
                    Some(t) => t,
                    None => Seq::empty(),
                }.push(now),
            ),
            forall|v: Seq<char>| v != user@ ==> #[trigger] final(self).failures_of(v) == old(self).failures_of(v),
    {
        let p = self.position(user);
        let mut times: Vec<i64> = Vec::new();
        proof {
            if p < self.entries@.len() {
                self.lemma_lookup_index(user@, p as int);
            } else {
                self.lemma_lookup_absent(user@);
            }
        }
        if p < self.entries.len() {
            times = self.entries[p].1.clone();
            assert(times@ == self.entries@[p as int].1@);
        }
        times.push(now);
        self.put(user, times);
    }

    /// Forgets `user`'s failed logins.
    pub fn clear_failures(&mut self, user: &str)
        requires
            old(self).wf(),
        ensures
            final(self).wf(),
            final(self).failures_of(user@) is None,
            forall|v: Seq<char>| v != user@ ==> #[trigger] final(self).failures_of(v) == old(self).failures_of(v),
    {
        let p = self.position(user);
        if p < self.entries.len() {
            let ghost old_entries = self.entries@;
            self.entries.remove(p);
            proof {
                assert(self.entries@ =~= old_entries.remove(p as int));
                assert(self.entries_view() =~= old(self).entries_view().remove(p as int));
                assert(self.wf()) by {
                    assert forall|i: int, j: int|
                        0 <= i < j < self.entries@.len() implies #[trigger] self.entries@[i].0@
                        != #[trigger] self.entries@[j].0@ by {
                        let oi = if i < p { i } else { i + 1 };
                        let oj = if j < p { j } else { j + 1 };
                        assert(self.entries@[i] == old_entries[oi]);
                        assert(self.entries@[j] == old_entries[oj]);
                    }
                    assert forall|i: int, k: int|
                        0 <= i < self.entries@.len() && 0 <= k < self.entries@[i].1@.len() implies -TIMESTAMP_BOUND
                        <= #[trigger] self.entries@[i].1@[k] <= TIMESTAMP_BOUND by {
                        let oi = if i < p { i } else { i + 1 };
                        assert(self.entries@[i] == old_entries[oi]);
                    }
                }
                assert forall|k: int| 0 <= k < self.entries@.len() implies #[trigger] self.entries@[k].0@
                    != user@ by {
                    let ok = if k < p { k } else { k + 1 };
                    assert(self.entries@[k] == old_entries[ok]);
                    assert(old_entries[p as int].0@ == user@);
                }
                self.lemma_lookup_absent(user@);
                assert forall|v: Seq<char>| v != user@ implies #[trigger] self.failures_of(v)
                    == old(self).failures_of(v) by {
                    lemma_lookup_remove(old(self).entries_view(), v, p as int);
                }
            }
        } else {
            proof {
                self.lemma_lookup_absent(user@);
            }
        }
    }
}

pub open spec fn max0_i(x: int) -> int {
    if x < 0 {
        0
    } else {
        x
    }
}

proof fn lemma_lookup_first(s: Seq<(Seq<char>, Seq<i64>)>, u: Seq<char>, i: int)
    requires
        0 <= i < s.len(),
        s[i].0 == u,
        forall|k: int| 0 <= k < i ==> #[trigger] s[k].0 != u,
    ensures
        lookup(s, u) == Some(s[i].1),
    decreases i,
{
    if i > 0 {
        lemma_lookup_first(s.drop_first(), u, i - 1);
    }
}

proof fn lemma_lookup_none(s: Seq<(Seq<char>, Seq<i64>)>, u: Seq<char>)
    requires
        forall|k: int| 0 <= k < s.len() ==> #[trigger] s[k].0 != u,
    ensures
        lookup(s, u) is None,
    decreases s.len(),
{
    if s.len() > 0 {
        lemma_lookup_none(s.drop_first(), u);
    }
}

proof fn lemma_lookup_other(a: Seq<(Seq<char>, Seq<i64>)>, b: Seq<(Seq<char>, Seq<i64>)>, v: Seq<char>, p: int)
    requires
        0 <= p <= a.len(),
        b.len() == if p < a.len() { a.len() } else { a.len() + 1 },
        forall|k: int| 0 <= k < a.len() && k != p ==> #[trigger] b[k] == a[k],
        b[p].0 != v,
        p < a.len() ==> a[p].0 == b[p].0,
    ensures
        lookup(b, v) == lookup(a, v),
    decreases a.len(),
{
    if a.len() == 0 {
        assert(b.len() == 1);
        assert(lookup(b.drop_first(), v) is None);
    } else if p == 0 {
        assert(b.drop_first() =~= a.drop_first());
    } else {
        assert(b[0] == a[0]);
        lemma_lookup_other(a.drop_first(), b.drop_first(), v, p - 1);
    }
}

proof fn lemma_lookup_remove(a: Seq<(Seq<char>, Seq<i64>)>, v: Seq<char>, p: int)
    requires
        0 <= p < a.len(),
        a[p].0 != v,
    ensures
        lookup(a.remove(p), v) == lookup(a, v),
    decreases a.len(),
{
    if p == 0 {
        assert(a.remove(0) =~= a.drop_first());
    } else {
        assert(a.remove(p).drop_first() =~= a.drop_first().remove(p - 1));
        assert(a.remove(p)[0] == a[0]);
        lemma_lookup_remove(a.drop_first(), v, p - 1);
    }
}

/// The message shown when a user is locked out for `wait` more seconds.
pub open spec fn lockout_message(wait: int) -> Seq<char> {
    "Çok fazla hatalı deneme. "@ + decimal_text(wait) + " sn sonra tekrar deneyin."@
}

/// `MAX_FAILED_ATTEMPTS` failed logins in a row lock the user out, and
/// clearing the failures lets the user in again: whatever failures came
/// before, once `MAX_FAILED_ATTEMPTS` more are recorded at `now` a check at
/// that moment keeps at least that many and is refused; once they are
/// cleared, none are kept and the check is let through.
pub proof fn law_failures_lock_then_clear_unlocks(before: Seq<i64>, extra: Seq<i64>, now: int)
    requires
        extra.len() == MAX_FAILED_ATTEMPTS,
        forall|k: int| 0 <= k < extra.len() ==> #[trigger] extra[k] == now,
    ensures
        recent(before + extra, now).len() >= MAX_FAILED_ATTEMPTS,
        recent(Seq::empty(), now).len() == 0,
{
    lemma_recent_keeps_fresh(before, extra, now);
    reveal(Seq::filter);
    assert(recent(Seq::empty(), now) =~= Seq::<i64>::empty());
}

proof fn lemma_recent_keeps_fresh(before: Seq<i64>, extra: Seq<i64>, now: int)
    requires
        forall|k: int| 0 <= k < extra.len() ==> #[trigger] extra[k] == now,
    ensures
        recent(before + extra, now).len() >= extra.len(),
    decreases extra.len(),
{
    if extra.len() > 0 {
        let shorter = extra.drop_last();
        lemma_recent_keeps_fresh(before, shorter, now);
        assert(before + extra =~= (before + shorter).push(extra.last()));
        (before + shorter).lemma_filter_push(extra.last(), |t: i64| now - t < LOCKOUT_SECONDS);
    }
}

/// Whether failure times were recorded in clock order: no later entry is
/// older than an earlier one.
pub open spec fn in_clock_order(times: Seq<i64>) -> bool {
    forall|i: int, j: int| 0 <= i <= j < times.len() ==> times[i] <= times[j]
}

proof fn lemma_recent_in_order(times: Seq<i64>, now: int)
    requires
        in_clock_order(times),
    ensures
        in_clock_order(recent(times, now)),
    decreases times.len(),
{
    let pred = |x: i64| now - x < LOCKOUT_SECONDS;
    if times.len() == 0 {
        reveal(Seq::filter);
        assert(recent(times, now) =~= Seq::<i64>::empty());
    } else {
        let s = times.drop_last();
        let t = times.last();
        assert(times =~= s.push(t));
        lemma_recent_in_order(s, now);
        s.lemma_filter_push(t, pred);
        if now - t < LOCKOUT_SECONDS {
            let rs = recent(s, now);
            assert forall|i: int| 0 <= i < rs.len() implies rs[i] <= t by {
                s.lemma_filter_contains_rev(pred, rs[i]);
                let k = choose|k: int| 0 <= k < s.len() && s[k] == rs[i];
                assert(times[k] == s[k]);
            }
            assert(recent(times, now) =~= rs.push(t));
        } else {
            assert(recent(times, now) =~= recent(s, now));
        }
    }
}

/// A locked-out user waits for the oldest recent failure to expire: when
/// the failures were recorded in clock order and `MAX_FAILED_ATTEMPTS` or
/// more of them are recent at `now`, the first recent failure, the one
/// `check_lockout` and `login` count the wait from, is a recorded failure
/// within the window, and no failure recorded within the window is older.
pub proof fn law_lockout_counts_from_oldest_failure(times: Seq<i64>, now: int)
    requires
        in_clock_order(times),
        recent(times, now).len() >= MAX_FAILED_ATTEMPTS,
    ensures
        times.contains(recent(times, now)[0]),
        now - recent(times, now)[0] < LOCKOUT_SECONDS,
        forall|k: int|
            0 <= k < times.len() && now - times[k] < LOCKOUT_SECONDS ==> recent(times, now)[0]
                <= #[trigger] times[k],
{
    let pred = |x: i64| now - x < LOCKOUT_SECONDS;
    let kept = recent(times, now);
    lemma_recent_in_order(times, now);
    times.lemma_filter_contains_rev(pred, kept[0]);
    times.lemma_filter_pred(pred, 0);
    assert forall|k: int| 0 <= k < times.len() && now - times[k] < LOCKOUT_SECONDS implies kept[0]
        <= #[trigger] times[k] by {
        times.lemma_filter_contains(pred, k);
        let j = choose|j: int| 0 <= j < kept.len() && kept[j] == times[k];
        assert(kept[0] <= kept[j]);
    }
}

/// Failures stay in clock order while the clock does not run back: the
/// recent failures that a refused login keeps, with the new failure at
/// `now` after them, are again in clock order when no recorded time is
/// later than `now`.
pub proof fn law_failures_stay_in_clock_order(times: Seq<i64>, now: i64)
    requires
        in_clock_order(times),
        forall|k: int| 0 <= k < times.len() ==> #[trigger] times[k] <= now,
    ensures
        in_clock_order(recent(times, now as int)),
        in_clock_order(recent(times, now as int).push(now)),
{
    let pred = |x: i64| now - x < LOCKOUT_SECONDS;
    let kept = recent(times, now as int);
    lemma_recent_in_order(times, now as int);
    assert forall|i: int| 0 <= i < kept.len() implies kept[i] <= now by {
        times.lemma_filter_contains_rev(pred, kept[i]);
        let k = choose|k: int| 0 <= k < times.len() && times[k] == kept[i];
        assert(times[k] <= now);
    }
}

// ─── Sign-in ─────────────────────────────────────────────────────────

/// A user's row as stored: id, name, password hash, full name, role,
/// active flag, permissions JSON and whether the password must change.
#[derive(Clone, Debug)]
pub struct UserRow {
    pub id: String,
    pub username: String,
    pub password_hash: String,
    pub full_name: String,
    pub role: String,
    pub active: i64,
    pub permissions: String,
    pub must_change_password: i64,
}

/// Signs `username` in with `password` at `now` (Unix seconds), given the
/// stored row for that name (if any). A locked-out user is refused before
/// anything else; an unknown user, an inactive one, or a wrong password is
/// refused and recorded as a failure; success clears the user's failures.
pub fn login(
    failures: &mut LoginFailures,
    username: &str,
    password: &str,
    row: Option<UserRow>,
    now: i64,
) -> (r: Result<CurrentUser, String>)
    requires
        old(failures).wf(),
        -TIMESTAMP_BOUND <= now <= TIMESTAMP_BOUND,
    ensures
        final(failures).wf(),
        ({
            let kept = recent(
                match old(failures).failures_of(username@) {
                    Some(t) => t,
                    None => Seq::empty(),
                },
                now as int,
            );
            if kept.len() >= MAX_FAILED_ATTEMPTS {
                &&& r matches Err(m) && m@ == lockout_message(max0_i(kept[0] + LOCKOUT_SECONDS - now))
                &&& final(failures).failures_of(username@) == Some(kept)
            } else {
                match row {
                    None => r matches Err(m) && m@ == "Kullanıcı bulunamadı!"@
                        && final(failures).failures_of(username@) == Some(kept.push(now)),
                    Some(u) => if u.active != 1 {
                        r matches Err(m) && m@ == "Kullanıcı pasif!"@
                            && final(failures).failures_of(username@) == Some(kept.push(now))
                    } else if !password_matches(password@, u.password_hash@) {
                        r matches Err(m) && m@ == "Yanlış şifre!"@
                            && final(failures).failures_of(username@) == Some(kept.push(now))
                    } else {
                        &&& r matches Ok(cu) && cu.id@ == u.id@ && cu.username@ == u.username@
                            && cu.full_name@ == u.full_name@ && cu.role@ == u.role@
                            && cu.permissions@ == u.permissions@ && cu.must_change_password == (
                        u.must_change_password == 1)
                        &&& final(failures).failures_of(username@) is None
                    },
                }
            }
        }),
        forall|v: Seq<char>| v != username@ ==> #[trigger] final(failures).failures_of(v) == old(
            failures,
        ).failures_of(v),
{
    match failures.check_lockout(username, now) {
        Err(wait) => {
            let mut m = "Çok fazla hatalı deneme. ".to_string();
            let w = decimal_chars(wait);
            m.append(string_of(&w).as_str());
            m.append(" sn sonra tekrar deneyin.");
            return Err(m);
        },
        Ok(()) => {},
    }
    let u = match row {
        None => {
            failures.record_failure(username, now);
            return Err("Kullanıcı bulunamadı!".to_string());
        },
        Some(u) => u,
    };
    if u.active != 1 {
        failures.record_failure(username, now);
        return Err("Kullanıcı pasif!".to_string());
    }
    if !verify_password(password, u.password_hash.as_str()) {
        failures.record_failure(username, now);
        return Err("Yanlış şifre!".to_string());
    }
    failures.clear_failures(username);
    Ok(
        CurrentUser {
            id: u.id,
            username: u.username,
            full_name: u.full_name,
            role: u.role,
            permissions: u.permissions,
            must_change_password: u.must_change_password == 1,
        },
    )
}

// ─── Authorisation and user management ───────────────────────────────

/// The signed-in user, who must be an administrator.
pub fn require_admin(current: Option<CurrentUser>) -> (r: Result<CurrentUser, String>)
    ensures
        match current {
            None => r matches Err(m) && m@ == "Giriş yapılmamış!"@,
            Some(u) => if u.role@ == "admin"@ {
                r matches Ok(v) && v == u
            } else {
                r matches Err(m) && m@ == "Bu işlem için yönetici yetkisi gerekli!"@
            },
        },
{
    match current {
        None => Err("Giriş yapılmamış!".to_string()),
        Some(u) => {
            if str_equal(u.role.as_str(), "admin") {
                Ok(u)
            } else {
                Err("Bu işlem için yönetici yetkisi gerekli!".to_string())
            }
        },
    }
}

/// The signed-in user, whoever it is.
pub fn require_login(current: Option<CurrentUser>) -> (r: Result<CurrentUser, String>)
    ensures
        match current {
            None => r matches Err(m) && m@ == "Giriş yapılmamış!"@,
            Some(u) => r matches Ok(v) && v == u,
        },
{
    match current {
        None => Err("Giriş yapılmamış!".to_string()),
        Some(u) => Ok(u),
    }
}

/// The role a new or edited user gets: `admin` when asked for, otherwise
/// `calisan` (staff).
pub fn normalize_role(role: &str) -> (r: &'static str)
    ensures
        r@ == (if role@ == "admin"@ {
            "admin"@
        } else {
            "calisan"@
        }),
{
    if str_equal(role, "admin") {
        "admin"
    } else {
        "calisan"
    }
}

/// Checks a new user's name and password: the name, trimmed, must be at
/// least 3 bytes of UTF-8, and the password at least 6.
pub fn validate_new_user(username: &str, password: &str) -> (r: Result<(), String>)
    ensures
        encode_utf8(trimmed(username@)).len() < 3 ==> (r matches Err(m) && m@
            == "Kullanıcı adı en az 3 karakter olmalı!"@),
        encode_utf8(trimmed(username@)).len() >= 3 && password.spec_bytes().len() < 6 ==> (r matches Err(
            m,
        ) && m@ == "Şifre en az 6 karakter olmalı!"@),
        encode_utf8(trimmed(username@)).len() >= 3 && password.spec_bytes().len() >= 6 ==> r is Ok,
{
    let t = string_of(&trim_chars(&chars_of(username)));
    if t.as_str().as_bytes().len() < 3 {
        return Err("Kullanıcı adı en az 3 karakter olmalı!".to_string());
    }
    if password.as_bytes().len() < 6 {
        return Err("Şifre en az 6 karakter olmalı!".to_string());
    }
    Ok(())
}

/// Checks a new password: at least 6 bytes of UTF-8.
pub fn validate_new_password(new_password: &str) -> (r: Result<(), String>)
    ensures
        new_password.spec_bytes().len() < 6 ==> (r matches Err(m) && m@
            == "Yeni şifre en az 6 karakter olmalı!"@),
        new_password.spec_bytes().len() >= 6 ==> r is Ok,
{
    if new_password.as_bytes().len() < 6 {
        Err("Yeni şifre en az 6 karakter olmalı!".to_string())
    } else {
        Ok(())
    }
}

/// An administrator may not deactivate their own account.
pub fn check_user_update(admin_id: &str, user_id: &str, active: bool) -> (r: Result<(), String>)
    ensures
        (user_id@ == admin_id@ && !active) ==> (r matches Err(m) && m@
            == "Kendi hesabınızı kapatamazsınız!"@),
        !(user_id@ == admin_id@ && !active) ==> r is Ok,
{
    if str_equal(user_id, admin_id) && !active {
        Err("Kendi hesabınızı kapatamazsınız!".to_string())
    } else {
        Ok(())
    }
}

/// An administrator may not delete their own account.
pub fn check_user_removal(admin_id: &str, user_id: &str) -> (r: Result<(), String>)
    ensures
        user_id@ == admin_id@ ==> (r matches Err(m) && m@ == "Kendi hesabınızı silemezsiniz!"@),
        user_id@ != admin_id@ ==> r is Ok,
{
    if str_equal(user_id, admin_id) {
        Err("Kendi hesabınızı silemezsiniz!".to_string())
    } else {
        Ok(())
    }
}

/// The forced first-login password change applies only to users flagged
/// for it.
pub fn check_forced_change(must_change_password: i64) -> (r: Result<(), String>)
    ensures
        must_change_password != 1 ==> (r matches Err(m) && m@ == "Şifre değişikliği zorunlu değil"@),
        must_change_password == 1 ==> r is Ok,
{
    if must_change_password != 1 {
        Err("Şifre değişikliği zorunlu değil".to_string())
    } else {
        Ok(())
    }
}

/// The name written in the audit log for the signed-in user: the full
/// name, or the user name when that is empty, or `Sistem` when nobody is
/// signed in; with the user's id (empty for the system).
pub fn audit_actor(current: &Option<CurrentUser>) -> (r: (String, String))
    ensures
        match current {
            None => r.0@ == Seq::<char>::empty() && r.1@ == "Sistem"@,
            Some(u) => r.0@ == u.id@ && r.1@ == (if u.full_name@.len() == 0 {
                u.username@
            } else {
                u.full_name@
            }),
        },
{
    match current {
        None => (String::new(), "Sistem".to_string()),
        Some(u) => {
            let name = if u.full_name.as_str().is_empty() {
                u.username.clone()
            } else {
                u.full_name.clone()
            };
            (u.id.clone(), name)
        },
    }
}

} // verus!
