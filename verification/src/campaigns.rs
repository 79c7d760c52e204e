//! Time-limited discounts: the weekdays and hours at which a campaign
//! applies, and the checks on promotion codes and packages.
use vstd::prelude::*;
use vstd::string::StringSliceAdditionalSpecFns;

use crate::text::{
    after_first, all_digits, before_first, digit_value, digits_value, is_white_space, leading_space,
    trailing_space, chars_of, count_char, digit_char, find_char, natural_text,
    parse_i32, parse_u32, parsed_integer, slice_chars, split_pieces, split_progress, str_equal,
    string_of, text_less, text_lt, trim_chars, trimmed,
};

verus! {

// ─── Weekday lists ───────────────────────────────────────────────────

/// The weekday (0 for Sunday up to 6 for Saturday) that one piece of a
/// comma-separated list names once trimmed, if it names one.
pub open spec fn day_of_piece(piece: Seq<char>) -> Option<int> {
    match parsed_integer(trimmed(piece), true, i32::MIN as int, i32::MAX as int) {
        Some(v) => if 0 <= v <= 6 {
            Some(v)
        } else {
            None
        },
        None => None,
    }
}

/// The weekdays that the pieces name, in order, skipping the others.
pub open spec fn days_in(pieces: Seq<Seq<char>>) -> Seq<int>
    decreases pieces.len(),
{
    if pieces.len() == 0 {
        Seq::empty()
    } else {
        let rest = days_in(pieces.drop_last());
        match day_of_piece(pieces.last()) {
            Some(d) => rest.push(d),
            None => rest,
        }
    }
}

/// Weekday numbers written out and joined by commas.
pub open spec fn day_list_text(days: Seq<int>) -> Seq<char>
    decreases days.len(),
{
    if days.len() == 0 {
        Seq::empty()
    } else if days.len() == 1 {
        seq![digit_char(days[0])]
    } else {
        day_list_text(days.drop_last()) + seq![',', digit_char(days.last())]
    }
}

/// The stored form of a campaign's weekday list: `all` for a blank list or
/// `all`, else the weekdays 0 to 6 that it names, joined by commas.
pub open spec fn normalized_days(days: Seq<char>) -> Seq<char> {
    let d = trimmed(days);
    if d.len() == 0 || d == "all"@ {
        "all"@
    } else {
        day_list_text(days_in(split_pieces(d, ',')))
    }
}

/// The character of a decimal digit.
fn digit_to_char(d: i32) -> (r: char)
    requires
        0 <= d <= 6,
    ensures
        r == digit_char(d as int),
{
    if d == 0 {
        '0'
    } else if d == 1 {
        '1'
    } else if d == 2 {
        '2'
    } else if d == 3 {
        '3'
    } else if d == 4 {
        '4'
    } else if d == 5 {
        '5'
    } else {
        '6'
    }
}

/// The weekday that one piece names, if any.
fn piece_day(piece: &Vec<char>) -> (r: Option<i32>)
    ensures
        r matches Some(d) ==> day_of_piece(piece@) == Some(d as int),
        r is None ==> day_of_piece(piece@) is None,
{
    match parse_i32(&trim_chars(piece)) {
        Some(v) => if 0 <= v && v <= 6 {
            Some(v)
        } else {
            None
        },
        None => None,
    }
}

/// Appends the weekday `d` to the written list `out` of the weekdays `vals`.
fn push_day(out: &mut Vec<char>, vals: Ghost<Seq<int>>, d: i32)
    requires
        0 <= d <= 6,
        old(out)@ == day_list_text(vals@),
        old(out)@.len() == 0 <==> vals@.len() == 0,
    ensures
        final(out)@ == day_list_text(vals@.push(d as int)),
        final(out)@.len() > 0,
{
    let c = digit_to_char(d);
    assert(vals@.push(d as int).drop_last() =~= vals@);
    if out.len() > 0 {
        out.push(',');
    }
    out.push(c);
}

/// The stored form of a campaign's weekday list (see `normalized_days`).
pub fn norm_days(days: &str) -> (r: String)
    ensures
        r@ == normalized_days(days@),
{
    proof {
        reveal_strlit("all");
    }
    let d = trim_chars(&chars_of(days));
    let ds = string_of(&d);
    if d.len() == 0 || str_equal(ds.as_str(), "all") {
        return "all".to_string();
    }
    let mut out: Vec<char> = Vec::new();
    let ghost mut done: Seq<Seq<char>> = Seq::empty();
    let ghost mut vals: Seq<int> = Seq::empty();
    let mut cur: Vec<char> = Vec::new();
    let mut i: usize = 0;
    while i < d.len()
        invariant
            i <= d.len(),
            split_progress(d@.take(i as int), ',') == (done, cur@),
            days_in(done) == vals,
            out@ == day_list_text(vals),
            out@.len() == 0 <==> vals.len() == 0,
        decreases d.len() - i,
    {
        assert(d@.take(i + 1).drop_last() =~= d@.take(i as int));
        if d[i] == ',' {
            let day = piece_day(&cur);
            proof {
                assert(done.push(cur@).drop_last() =~= done);
            }
            match day {
                Some(v) => {
                    push_day(&mut out, Ghost(vals), v);
                    proof {
                        vals = vals.push(v as int);
                    }
                },
                None => {},
            }
            proof {
                done = done.push(cur@);
            }
            cur = Vec::new();
        } else {
            cur.push(d[i]);
        }
        i = i + 1;
    }
    assert(d@.take(i as int) =~= d@);
    let day = piece_day(&cur);
    proof {
        assert(done.push(cur@).drop_last() =~= done);
    }
    match day {
        Some(v) => {
            push_day(&mut out, Ghost(vals), v);
        },
        None => {},
    }
    string_of(&out)
}

/// The weekdays written one to a piece.
pub open spec fn day_pieces(vals: Seq<int>) -> Seq<Seq<char>> {
    vals.map_values(|v: int| seq![digit_char(v)])
}

/// Every weekday in `vals` is one of 0 to 6.
pub open spec fn weekdays(vals: Seq<int>) -> bool {
    forall|i: int| 0 <= i < vals.len() ==> 0 <= #[trigger] vals[i] <= 6
}

proof fn lemma_digit_piece(v: int)
    requires
        0 <= v <= 6,
    ensures
        day_of_piece(seq![digit_char(v)]) == Some(v),
        digit_char(v) != ',',
        !is_white_space(digit_char(v)),
        digit_char(v) != 'a',
{
    let c = digit_char(v);
    assert(c as u32 == v + 48);
    let s = seq![c];
    assert(leading_space(s) == 0);
    assert(s.skip(0) =~= s);
    assert(s.drop_last() =~= Seq::<char>::empty());
    assert(trailing_space(s) == 0);
    assert(trimmed(s) =~= s);
    assert(all_digits(s));
    assert(digits_value(Seq::<char>::empty()) == 0);
    assert(digits_value(s) == digits_value(s.drop_last()) * 10 + digit_value(c));
}

proof fn lemma_days_in_range(pieces: Seq<Seq<char>>)
    ensures
        weekdays(days_in(pieces)),
    decreases pieces.len(),
{
    if pieces.len() > 0 {
        lemma_days_in_range(pieces.drop_last());
    }
}

proof fn lemma_days_of_pieces(vals: Seq<int>)
    requires
        weekdays(vals),
    ensures
        days_in(day_pieces(vals)) == vals,
    decreases vals.len(),
{
    if vals.len() > 0 {
        let rest = vals.drop_last();
        assert(day_pieces(vals).drop_last() =~= day_pieces(rest));
        lemma_days_of_pieces(rest);
        lemma_digit_piece(vals.last());
        assert(day_pieces(vals).last() == seq![digit_char(vals.last())]);
        assert(rest.push(vals.last()) =~= vals);
    } else {
        assert(day_pieces(vals) =~= Seq::<Seq<char>>::empty());
    }
}

proof fn lemma_split_day_list(vals: Seq<int>)
    requires
        vals.len() > 0,
        weekdays(vals),
    ensures
        split_progress(day_list_text(vals), ',') == (day_pieces(vals.drop_last()), seq![digit_char(vals.last())]),
        day_list_text(vals)[0] == digit_char(vals[0]),
        day_list_text(vals).last() == digit_char(vals.last()),
    decreases vals.len(),
{
    let t = day_list_text(vals);
    lemma_digit_piece(vals.last());
    let d = digit_char(vals.last());
    assert(Seq::<char>::empty().push(d) =~= seq![d]);
    if vals.len() == 1 {
        assert(vals[0] == vals.last());
        assert(t == seq![d]);
        assert(t.drop_last() =~= Seq::<char>::empty());
        assert(t.last() == d);
        assert(split_progress(Seq::<char>::empty(), ',') == (Seq::<Seq<char>>::empty(), Seq::<char>::empty()));
        assert(day_pieces(vals.drop_last()) =~= Seq::<Seq<char>>::empty());
        assert(split_progress(t, ',') == (Seq::<Seq<char>>::empty(), seq![d]));
    } else {
        let rest = vals.drop_last();
        lemma_split_day_list(rest);
        let head = day_list_text(rest);
        let with_comma = head + seq![','];
        assert(t == head + seq![',', d]);
        assert(t.drop_last() =~= with_comma);
        assert(t.last() == d);
        assert(with_comma.drop_last() =~= head);
        assert(with_comma.last() == ',');
        let (dh, oh) = split_progress(head, ',');
        assert(split_progress(with_comma, ',') == (dh.push(oh), Seq::<char>::empty()));
        assert(dh.push(oh) =~= day_pieces(rest));
        assert(split_progress(t, ',') == (day_pieces(rest), seq![d]));
        assert(rest[0] == vals[0]);
    }
}

/// Normalising a weekday list again changes nothing: the stored form reads
/// back as itself. (A list that names no weekday at all is stored empty,
/// and an empty list reads as `all`; the law holds for every other list.)
pub proof fn law_normalized_days_are_stable(days: Seq<char>)
    requires
        normalized_days(days).len() > 0,
    ensures
        normalized_days(normalized_days(days)) == normalized_days(days),
{
    reveal_strlit("all");
    let n = normalized_days(days);
    if n == "all"@ {
        assert(leading_space(n) == 0);
        assert(n.skip(0) =~= n);
        assert(trailing_space(n) == 0);
        assert(trimmed(n) =~= n);
    } else {
        let vals = days_in(split_pieces(trimmed(days), ','));
        assert(n == day_list_text(vals));
        lemma_days_in_range(split_pieces(trimmed(days), ','));
        assert(vals.len() > 0);
        lemma_split_day_list(vals);
        lemma_digit_piece(vals[0]);
        lemma_digit_piece(vals.last());
        assert(leading_space(n) == 0);
        assert(n.skip(0) =~= n);
        assert(trailing_space(n) == 0);
        assert(trimmed(n) =~= n);
        assert(n[0] != 'a');
        assert(n != "all"@);
        assert(split_pieces(n, ',') =~= day_pieces(vals)) by {
            assert(day_pieces(vals.drop_last()).push(seq![digit_char(vals.last())]) =~= day_pieces(vals));
        }
        lemma_days_of_pieces(vals);
    }
}

// ─── Hours ───────────────────────────────────────────────────────────

/// The hour and minute that `HH:MM` text gives: the first two pieces of
/// `split(':')`, each trimmed and read as a `u32`; none when either is
/// missing or does not read.
pub open spec fn hhmm_of(t: Seq<char>) -> Option<(u32, u32)> {
    if count_char(t, ':') == 0 {
        None
    } else {
        let h = parsed_integer(trimmed(before_first(t, ':')), false, 0, u32::MAX as int);
        let m = parsed_integer(
            trimmed(before_first(after_first(t, ':'), ':')),
            false,
            0,
            u32::MAX as int,
        );
        match (h, m) {
            (Some(hv), Some(mv)) => Some((hv as u32, mv as u32)),
            _ => None,
        }
    }
}

/// Reads `HH:MM` text as an hour and a minute (see `hhmm_of`).
pub fn parse_hhmm(t: &str) -> (r: Option<(u32, u32)>)
    ensures
        r == hhmm_of(t@),
{
    let v = chars_of(t);
    let i = find_char(&v, ':');
    if i == v.len() {
        return None;
    }
    let h = parse_u32(&trim_chars(&slice_chars(&v, 0, i)));
    let rest = slice_chars(&v, i + 1, v.len());
    assert(v@.subrange(0, i as int) =~= v@.take(i as int));
    assert(rest@ =~= v@.skip(i + 1));
    let j = find_char(&rest, ':');
    let m = parse_u32(&trim_chars(&slice_chars(&rest, 0, j)));
    assert(rest@.subrange(0, j as int) =~= rest@.take(j as int));
    match (h, m) {
        (Some(hv), Some(mv)) => Some((hv, mv)),
        _ => None,
    }
}

/// Whether the time `a` (hour, minute) is not later than `b`.
pub open spec fn hm_le(a: (u32, u32), b: (u32, u32)) -> bool {
    a.0 < b.0 || (a.0 == b.0 && a.1 <= b.1)
}

/// Whether a campaign with weekday list `days` and hours `start` to `end`
/// applies on `weekday` (0 for Sunday) at `hour:minute`: the list is `all`
/// or one of its comma-separated pieces is the weekday's number exactly,
/// and the time lies in the hours, both ends included. Hours that do not
/// read leave the time unrestricted.
pub open spec fn campaign_applies_at(
    days: Seq<char>,
    start: Seq<char>,
    end: Seq<char>,
    weekday: u32,
    hour: u32,
    minute: u32,
) -> bool {
    let day_ok = days == "all"@ || split_pieces(days, ',').contains(natural_text(weekday as nat));
    let in_window = match (hhmm_of(start), hhmm_of(end)) {
        (Some(s), Some(e)) => hm_le(s, (hour, minute)) && hm_le((hour, minute), e),
        _ => true,
    };
    day_ok && in_window
}

/// A campaign's hours are a span of the day counted in minutes: when its
/// start and end read as `s` and `e` (with minutes below 60) and the time
/// is `hour:minute` (`minute` below 60), the campaign applies only if the
/// time's minute of the day lies between the start's and the end's, both
/// included, and on a campaign for every day it applies exactly then. In
/// particular it does not apply a single minute before it starts, nor a
/// minute after it ends.
pub proof fn law_campaign_hours_count_minutes(
    days: Seq<char>,
    start: Seq<char>,
    end: Seq<char>,
    weekday: u32,
    hour: u32,
    minute: u32,
    s: (u32, u32),
    e: (u32, u32),
)
    requires
        hhmm_of(start) == Some(s),
        hhmm_of(end) == Some(e),
        s.1 < 60,
        e.1 < 60,
        minute < 60,
    ensures
        campaign_applies_at(days, start, end, weekday, hour, minute) ==> s.0 * 60 + s.1 <= hour * 60
            + minute <= e.0 * 60 + e.1,
        days == "all"@ ==> (campaign_applies_at(days, start, end, weekday, hour, minute) <==> s.0
            * 60 + s.1 <= hour * 60 + minute <= e.0 * 60 + e.1),
        s.1 > 0 ==> !campaign_applies_at(days, start, end, weekday, s.0, (s.1 - 1) as u32),
        e.1 < 59 ==> !campaign_applies_at(days, start, end, weekday, e.0, (e.1 + 1) as u32),
{
}

/// A campaign's weekday list picks its days: one that lists the single
/// weekday `d` applies on no other weekday, and on `d` itself (as every
/// campaign for `all` days on any weekday) it applies whenever its hours
/// do not restrict the time.
pub proof fn law_campaign_days_pick_weekdays(
    d: u32,
    start: Seq<char>,
    end: Seq<char>,
    weekday: u32,
    hour: u32,
    minute: u32,
)
    requires
        d <= 6,
        weekday <= 6,
    ensures
        campaign_applies_at(seq![digit_char(d as int)], start, end, weekday, hour, minute) ==> weekday
            == d,
        hhmm_of(start) is None ==> campaign_applies_at(seq![digit_char(d as int)], start, end, d, hour, minute),
        hhmm_of(start) is None ==> campaign_applies_at("all"@, start, end, weekday, hour, minute),
{
    let one = seq![digit_char(d as int)];
    assert(one.drop_last() =~= Seq::<char>::empty());
    assert(one.last() != ',');
    assert(split_progress(one.drop_last(), ',') == (Seq::<Seq<char>>::empty(), Seq::<char>::empty()));
    assert(Seq::<char>::empty().push(one.last()) =~= one);
    assert(split_progress(one, ',') == (Seq::<Seq<char>>::empty(), one));
    assert(split_pieces(one, ',') =~= seq![one]);
    assert(natural_text(weekday as nat) == seq![digit_char(weekday as int)]);
    assert(natural_text(d as nat) == seq![digit_char(d as int)]);
    if split_pieces(one, ',').contains(natural_text(weekday as nat)) {
        assert(seq![digit_char(weekday as int)][0] == one[0]);
    }
    assert(split_pieces(one, ',')[0] == natural_text(d as nat));
    reveal_strlit("all");
    assert(one.len() == 1);
}

/// Whether one of the comma-separated pieces of `days` is exactly the one
/// character `c`.
fn lists_day(days: &Vec<char>, c: char) -> (r: bool)
    requires
        c != ',',
    ensures
        r == split_pieces(days@, ',').contains(seq![c]),
{
    let ghost mut done: Seq<Seq<char>> = Seq::empty();
    let mut cur: Vec<char> = Vec::new();
    let mut found = false;
    let mut i: usize = 0;
    while i < days.len()
        invariant
            i <= days.len(),
            c != ',',
            split_progress(days@.take(i as int), ',') == (done, cur@),
            found == done.contains(seq![c]),
        decreases days.len() - i,
    {
        assert(days@.take(i + 1).drop_last() =~= days@.take(i as int));
        if days[i] == ',' {
            let hit = cur.len() == 1 && cur[0] == c;
            proof {
                assert(hit ==> cur@ =~= seq![c]);
                assert(cur@ == seq![c] ==> hit);
                assert forall|p: Seq<char>| done.push(cur@).contains(p) <==> (done.contains(p)
                    || p == cur@) by {
                    if done.push(cur@).contains(p) {
                        let k = choose|k: int| 0 <= k < done.push(cur@).len() && done.push(cur@)[k] == p;
                        if k < done.len() {
                            assert(done[k] == p);
                        }
                    }
                    if done.contains(p) {
                        let k = choose|k: int| 0 <= k < done.len() && done[k] == p;
                        assert(done.push(cur@)[k] == p);
                    }
                    if p == cur@ {
                        assert(done.push(cur@)[done.len() as int] == p);
                    }
                }
                done = done.push(cur@);
            }
            found = found || hit;
            cur = Vec::new();
        } else {
            cur.push(days[i]);
        }
        i = i + 1;
    }
    assert(days@.take(i as int) =~= days@);
    let hit = cur.len() == 1 && cur[0] == c;
    proof {
        assert(hit ==> cur@ =~= seq![c]);
        let all = done.push(cur@);
        if all.contains(seq![c]) {
            let k = choose|k: int| 0 <= k < all.len() && all[k] == seq![c];
            if k < done.len() {
                assert(done[k] == seq![c]);
            }
        }
        if done.contains(seq![c]) {
            let k = choose|k: int| 0 <= k < done.len() && done[k] == seq![c];
            assert(all[k] == seq![c]);
        }
        if hit {
            assert(all[done.len() as int] == seq![c]);
        }
    }
    found || hit
}

/// Whether a campaign applies on `weekday` at `hour:minute` (see
/// `campaign_applies_at`).
pub fn campaign_applies(
    days: &str,
    start: &str,
    end: &str,
    weekday: u32,
    hour: u32,
    minute: u32,
) -> (r: bool)
    requires
        weekday <= 6,
    ensures
        r == campaign_applies_at(days@, start@, end@, weekday, hour, minute),
{
    proof {
        reveal_strlit("all");
        assert(natural_text(weekday as nat) == seq![digit_char(weekday as int)]);
    }
    let day_ok = str_equal(days, "all") || lists_day(&chars_of(days), digit_to_char(weekday as i32));
    if !day_ok {
        return false;
    }
    match (parse_hhmm(start), parse_hhmm(end)) {
        (Some(s), Some(e)) => {
            let after_start = s.0 < hour || (s.0 == hour && s.1 <= minute);
            let before_end = hour < e.0 || (hour == e.0 && minute <= e.1);
            after_start && before_end
        },
        _ => true,
    }
}

// ─── Checks on new campaigns, packages and promotion codes ──────────

/// Checks a campaign's name: it must not be blank.
pub fn check_campaign_name(name: &str) -> (r: Result<(), String>)
    ensures
        r is Ok <==> trimmed(name@).len() > 0,
        r matches Err(m) ==> m@ == "Kampanya adı gerekli!"@,
{
    if trim_chars(&chars_of(name)).len() == 0 {
        return Err("Kampanya adı gerekli!".to_string());
    }
    Ok(())
}

/// Checks a package's name and hours: the name must not be blank and the
/// hours must be positive, checked in that order.
pub fn check_package(name: &str, hours: i64) -> (r: Result<(), String>)
    ensures
        trimmed(name@).len() == 0 ==> (r matches Err(m) && m@ == "Paket adı gerekli!"@),
        trimmed(name@).len() > 0 && hours <= 0 ==> (r matches Err(m) && m@
            == "Saat 0'dan büyük olmalı!"@),
        trimmed(name@).len() > 0 && hours > 0 ==> r is Ok,
{
    if trim_chars(&chars_of(name)).len() == 0 {
        return Err("Paket adı gerekli!".to_string());
    }
    if hours <= 0 {
        return Err("Saat 0'dan büyük olmalı!".to_string());
    }
    Ok(())
}

/// Whether a promotion code can be used at `now`, and the reason when it
/// cannot, checked in this order: it must be active (`active == 1`), under
/// its use limit when it has one (`max_uses > 0`), and `now` must not be
/// before `valid_from` nor after `valid_until`, comparing the texts.
pub open spec fn promo_refusal(
    active: i64,
    max_uses: i64,
    used_count: i64,
    valid_from: Option<Seq<char>>,
    valid_until: Option<Seq<char>>,
    now: Seq<char>,
) -> Option<Seq<char>> {
    if active != 1 {
        Some("Bu promosyon kodu pasif!"@)
    } else if max_uses > 0 && used_count >= max_uses {
        Some("Bu promosyon kodu kullanım limitine ulaştı!"@)
    } else if valid_from matches Some(vf) && text_lt(now, vf) {
        Some("Bu kod henüz geçerli değil!"@)
    } else if valid_until matches Some(vu) && text_lt(vu, now) {
        Some("Bu kodun süresi dolmuş!"@)
    } else {
        None
    }
}

/// Checks that a promotion code can be used at `now` (see `promo_refusal`).
pub fn check_promo(
    active: i64,
    max_uses: i64,
    used_count: i64,
    valid_from: Option<&str>,
    valid_until: Option<&str>,
    now: &str,
) -> (r: Result<(), String>)
    ensures
        r is Ok <==> promo_refusal(
            active,
            max_uses,
            used_count,
            crate::billing::opt_view(valid_from),
            crate::billing::opt_view(valid_until),
            now@,
        ) is None,
        r matches Err(m) ==> promo_refusal(
            active,
            max_uses,
            used_count,
            crate::billing::opt_view(valid_from),
            crate::billing::opt_view(valid_until),
            now@,
        ) == Some(m@),
{
    if active != 1 {
        return Err("Bu promosyon kodu pasif!".to_string());
    }
    if max_uses > 0 && used_count >= max_uses {
        return Err("Bu promosyon kodu kullanım limitine ulaştı!".to_string());
    }
    let n = chars_of(now);
    if let Some(vf) = valid_from {
        if text_less(&n, &chars_of(vf)) {
            return Err("Bu kod henüz geçerli değil!".to_string());
        }
    }
    if let Some(vu) = valid_until {
        if text_less(&chars_of(vu), &n) {
            return Err("Bu kodun süresi dolmuş!".to_string());
        }
    }
    Ok(())
}

/// A new promotion code's stored form: trimmed and upper-cased; refused
/// when that takes fewer than two bytes of UTF-8.
pub fn promo_code(code: &str) -> (r: Result<String, String>)
    ensures
        r matches Ok(c) ==> c@ == crate::text::uppercased(trimmed(code@))
            && vstd::utf8::encode_utf8(c@).len() >= 2,
        r matches Err(m) ==> m@ == "Kod en az 2 karakter olmalı!"@
            && vstd::utf8::encode_utf8(crate::text::uppercased(trimmed(code@))).len() < 2,
{
    let t = string_of(&trim_chars(&chars_of(code)));
    let c = crate::text::to_uppercase(t.as_str());
    if c.as_str().as_bytes().len() < 2 {
        return Err("Kod en az 2 karakter olmalı!".to_string());
    }
    Ok(c)
}

/// An optional text with a blank one taken as absent.
pub fn nonblank(v: Option<String>) -> (r: Option<String>)
    ensures
        r matches Some(t) ==> v matches Some(s) && t@ == s@ && trimmed(s@).len() > 0,
        r is None ==> (v is None || (v matches Some(s) && trimmed(s@).len() == 0)),
{
    match v {
        Some(s) => if trim_chars(&chars_of(s.as_str())).len() == 0 {
            None
        } else {
            Some(s)
        },
        None => None,
    }
}

/// A promotion code's use limit as stored: never below zero.
pub fn use_limit(max_uses: i64) -> (r: i64)
    ensures
        r == if max_uses < 0 {
            0
        } else {
            max_uses
        },
{
    if max_uses < 0 {
        0
    } else {
        max_uses
    }
}

} // verus!
