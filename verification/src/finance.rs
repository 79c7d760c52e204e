//! The filtered history query: which conditions a filter sets, the SQL text
//! that states them with numbered placeholders, and the values bound to
//! those placeholders.
use vstd::prelude::*;

use crate::models::HistoryFilter;
use crate::text::{cat, chars_of, decimal_chars, natural_text, string_of, text_lt};

verus! {

/// The query's columns, before any condition.
pub const HISTORY_SELECT: &'static str = "SELECT id,station_name,customer,start_time,end_time,duration_minutes,total,payment_method,rate_type,COALESCE(drink_total,0),COALESCE(discount,0),COALESCE(notes,''),COALESCE(tags,''),COALESCE(extra_controllers,0),COALESCE(extra_fee,0) FROM session_history WHERE 1=1";

/// The query's ordering and limit, after the conditions.
pub const HISTORY_ORDER: &'static str = " ORDER BY end_time DESC LIMIT 1000";

/// A value bound to a placeholder.
#[derive(Clone, Debug)]
pub enum SqlArg {
    Text(String),
    Int(i64),
}

/// A text value as the contracts see it: (is text, text, integer).
pub open spec fn text_value(t: Seq<char>) -> (bool, Seq<char>, i64) {
    (true, t, 0)
}

/// An integer value as the contracts see it.
pub open spec fn int_value(v: i64) -> (bool, Seq<char>, i64) {
    (false, Seq::empty(), v)
}

/// The value of a bound argument.
pub open spec fn arg_value(a: SqlArg) -> (bool, Seq<char>, i64) {
    match a {
        SqlArg::Text(s) => text_value(s@),
        SqlArg::Int(v) => int_value(v),
    }
}

/// `text` as a pattern that matches it anywhere (`%text%`).
pub open spec fn anywhere(text: Seq<char>) -> Seq<char> {
    seq!['%'] + text + seq!['%']
}

/// One condition of a filter: what precedes its placeholder, and the value
/// bound to it.
pub open spec fn one_condition(set: bool, test: Seq<char>, value: (bool, Seq<char>, i64)) -> Seq<(Seq<char>, (bool, Seq<char>, i64))> {
    if set {
        seq![(test, value)]
    } else {
        Seq::empty()
    }
}

/// The text of an optional filter field, empty when unset.
pub open spec fn field_text(f: Option<String>) -> Seq<char> {
    match f {
        Some(s) => s@,
        None => Seq::empty(),
    }
}

/// The integer of an optional filter field, zero when unset.
pub open spec fn field_int(f: Option<i64>) -> i64 {
    match f {
        Some(v) => v,
        None => 0,
    }
}

/// The conditions that a filter sets, in the order the query states them:
/// station name (exact), payment method and customer (anywhere in the
/// text), end date from and to, and duration from and to.
pub open spec fn history_conditions(f: HistoryFilter) -> Seq<(Seq<char>, (bool, Seq<char>, i64))> {
    one_condition(f.station_name is Some, "station_name = "@, text_value(field_text(f.station_name)))
        + one_condition(
        f.payment_method is Some,
        "payment_method LIKE "@,
        text_value(anywhere(field_text(f.payment_method))),
    ) + one_condition(f.customer is Some, "customer LIKE "@, text_value(anywhere(field_text(f.customer))))
        + one_condition(f.start_date is Some, "date(end_time) >= "@, text_value(field_text(f.start_date)))
        + one_condition(f.end_date is Some, "date(end_time) <= "@, text_value(field_text(f.end_date)))
        + one_condition(f.min_duration is Some, "duration_minutes >= "@, int_value(field_int(f.min_duration)))
        + one_condition(f.max_duration is Some, "duration_minutes <= "@, int_value(field_int(f.max_duration)))
}

/// The conditions written out: each as ` AND `, its test, `?` and its
/// position counted from one.
pub open spec fn conditions_sql(conds: Seq<(Seq<char>, (bool, Seq<char>, i64))>) -> Seq<char>
    decreases conds.len(),
{
    if conds.len() == 0 {
        Seq::empty()
    } else {
        conditions_sql(conds.drop_last()) + " AND "@ + conds.last().0 + "?"@ + natural_text(conds.len())
    }
}

/// The values bound to the placeholders, in order.
pub open spec fn condition_args(conds: Seq<(Seq<char>, (bool, Seq<char>, i64))>) -> Seq<(bool, Seq<char>, i64)> {
    conds.map_values(|c: (Seq<char>, (bool, Seq<char>, i64))| c.1)
}

/// The query text for a filter.
pub open spec fn history_sql(f: HistoryFilter) -> Seq<char> {
    HISTORY_SELECT@ + conditions_sql(history_conditions(f)) + HISTORY_ORDER@
}

/// The values of a list of bound arguments.
pub open spec fn arg_values(args: Seq<SqlArg>) -> Seq<(bool, Seq<char>, i64)> {
    args.map_values(|a: SqlArg| arg_value(a))
}

/// A copy of a bound value.
fn copy_arg(a: &SqlArg) -> (r: SqlArg)
    ensures
        arg_value(r) == arg_value(*a),
{
    match a {
        SqlArg::Text(s) => SqlArg::Text(s.clone()),
        SqlArg::Int(v) => SqlArg::Int(*v),
    }
}

/// Appends one condition with the next placeholder.
fn add_condition(
    sql: &mut Vec<char>,
    args: &mut Vec<SqlArg>,
    conds: Ghost<Seq<(Seq<char>, (bool, Seq<char>, i64))>>,
    test: &str,
    arg: SqlArg,
)
    requires
        old(args)@.len() == conds@.len(),
        old(args)@.len() < 100,
        arg_values(old(args)@) == condition_args(conds@),
        old(sql)@ == HISTORY_SELECT@ + conditions_sql(conds@),
    ensures
        final(args)@.len() == conds@.len() + 1,
        arg_values(final(args)@) == condition_args(conds@.push((test@, arg_value(arg)))),
        final(sql)@ == HISTORY_SELECT@ + conditions_sql(conds@.push((test@, arg_value(arg)))),
{
    let ghost c2 = conds@.push((test@, arg_value(arg)));
    let number = decimal_chars((args.len() + 1) as i64);
    let piece = cat(cat(" AND ", test).as_str(), "?");
    let pv = chars_of(piece.as_str());
    let mut k: usize = 0;
    let ghost s0 = sql@;
    while k < pv.len()
        invariant
            k <= pv.len(),
            sql@ == s0 + pv@.take(k as int),
        decreases pv.len() - k,
    {
        sql.push(pv[k]);
        k = k + 1;
        assert(sql@ =~= s0 + pv@.take(k as int));
    }
    assert(pv@.take(k as int) =~= pv@);
    let ghost s1 = sql@;
    let mut m: usize = 0;
    while m < number.len()
        invariant
            m <= number.len(),
            sql@ == s1 + number@.take(m as int),
        decreases number.len() - m,
    {
        sql.push(number[m]);
        m = m + 1;
        assert(sql@ =~= s1 + number@.take(m as int));
    }
    assert(number@.take(m as int) =~= number@);
    let ghost av = arg_value(arg);
    args.push(arg);
    proof {
        assert(args@.last() == arg);
        assert(arg_values(args@).len() == args@.len());
        assert(c2.drop_last() =~= conds@);
        assert(c2.len() == old(args)@.len() + 1);
        assert(sql@ =~= HISTORY_SELECT@ + conditions_sql(c2));
        assert forall|i: int| 0 <= i < args@.len() implies #[trigger] arg_values(args@)[i]
            == condition_args(c2)[i] by {
            if i < old(args)@.len() {
                assert(args@[i] == old(args)@[i]);
                assert(arg_values(old(args)@)[i] == condition_args(conds@)[i]);
            } else {
                assert(args@[i] == arg);
                assert(c2[i] == (test@, arg_value(arg)));
            }
        }
        assert(arg_values(args@) =~= condition_args(c2));
    }
}

/// The (test, value) pairs as the contracts see them.
pub open spec fn conds_view(c: Seq<(&'static str, SqlArg)>) -> Seq<(Seq<char>, (bool, Seq<char>, i64))> {
    c.map_values(|c: (&'static str, SqlArg)| (c.0@, arg_value(c.1)))
}

/// Adds one (test, value) pair.
fn push_cond(c: &mut Vec<(&'static str, SqlArg)>, test: &'static str, arg: SqlArg)
    ensures
        conds_view(final(c)@) == conds_view(old(c)@).push((test@, arg_value(arg))),
{
    let ghost av = arg_value(arg);
    c.push((test, arg));
    assert(conds_view(c@) =~= conds_view(old(c)@).push((test@, av)));
}

/// The conditions that a filter sets, as (test, value) pairs.
fn build_conditions(f: &HistoryFilter) -> (r: Vec<(&'static str, SqlArg)>)
    ensures
        conds_view(r@) == history_conditions(*f),
{
    proof {
        reveal_strlit("%");
    }
    let mut c: Vec<(&'static str, SqlArg)> = Vec::new();
    let ghost c1 = one_condition(f.station_name is Some, "station_name = "@, text_value(field_text(f.station_name)));
    match &f.station_name {
        Some(v) => push_cond(&mut c, "station_name = ", SqlArg::Text(v.clone())),
        None => {},
    }
    assert(conds_view(c@) =~= c1);
    let ghost c2 = c1 + one_condition(f.payment_method is Some, "payment_method LIKE "@, text_value(anywhere(field_text(f.payment_method))));
    match &f.payment_method {
        Some(v) => {
            let pat = cat(cat("%", v.as_str()).as_str(), "%");
            assert(pat@ =~= anywhere(v@));
            push_cond(&mut c, "payment_method LIKE ", SqlArg::Text(pat));
        },
        None => {},
    }
    assert(conds_view(c@) =~= c2);
    let ghost c3 = c2 + one_condition(f.customer is Some, "customer LIKE "@, text_value(anywhere(field_text(f.customer))));
    match &f.customer {
        Some(v) => {
            let pat = cat(cat("%", v.as_str()).as_str(), "%");
            assert(pat@ =~= anywhere(v@));
            push_cond(&mut c, "customer LIKE ", SqlArg::Text(pat));
        },
        None => {},
    }
    assert(conds_view(c@) =~= c3);
    let ghost c4 = c3 + one_condition(f.start_date is Some, "date(end_time) >= "@, text_value(field_text(f.start_date)));
    match &f.start_date {
        Some(v) => push_cond(&mut c, "date(end_time) >= ", SqlArg::Text(v.clone())),
        None => {},
    }
    assert(conds_view(c@) =~= c4);
    let ghost c5 = c4 + one_condition(f.end_date is Some, "date(end_time) <= "@, text_value(field_text(f.end_date)));
    match &f.end_date {
        Some(v) => push_cond(&mut c, "date(end_time) <= ", SqlArg::Text(v.clone())),
        None => {},
    }
    assert(conds_view(c@) =~= c5);
    let ghost c6 = c5 + one_condition(f.min_duration is Some, "duration_minutes >= "@, int_value(field_int(f.min_duration)));
    match f.min_duration {
        Some(v) => push_cond(&mut c, "duration_minutes >= ", SqlArg::Int(v)),
        None => {},
    }
    assert(conds_view(c@) =~= c6);
    let ghost c7 = c6 + one_condition(f.max_duration is Some, "duration_minutes <= "@, int_value(field_int(f.max_duration)));
    match f.max_duration {
        Some(v) => push_cond(&mut c, "duration_minutes <= ", SqlArg::Int(v)),
        None => {},
    }
    assert(conds_view(c@) =~= c7);
    c
}

/// The query for a filtered history listing and the values of its
/// placeholders: one condition for each field the filter sets, numbered
/// from one in the order of `history_conditions`.
pub fn history_query(f: &HistoryFilter) -> (r: (String, Vec<SqlArg>))
    ensures
        r.0@ == history_sql(*f),
        arg_values(r.1@) == condition_args(history_conditions(*f)),
{
    let conds = build_conditions(f);
    let ghost all = history_conditions(*f);
    assert(conds@.len() == all.len());
    assert(all.len() <= 7);
    let mut sql = chars_of(HISTORY_SELECT);
    let mut args: Vec<SqlArg> = Vec::new();
    proof {
        assert(sql@ =~= HISTORY_SELECT@ + conditions_sql(all.take(0)));
        assert(arg_values(args@) =~= condition_args(all.take(0)));
    }
    let mut k: usize = 0;
    while k < conds.len()
        invariant
            k <= conds@.len(),
            conds@.len() == all.len(),
            all.len() <= 7,
            conds_view(conds@) == all,
            args@.len() == k,
            arg_values(args@) == condition_args(all.take(k as int)),
            sql@ == HISTORY_SELECT@ + conditions_sql(all.take(k as int)),
        decreases conds.len() - k,
    {
        let test = conds[k].0;
        let arg = copy_arg(&conds[k].1);
        proof {
            assert(all[k as int] == (conds@[k as int].0@, arg_value(conds@[k as int].1)));
            assert(arg_value(arg) == arg_value(conds@[k as int].1));
            assert(all.take(k + 1) =~= all.take(k as int).push((test@, arg_value(arg))));
        }
        add_condition(&mut sql, &mut args, Ghost(all.take(k as int)), test, arg);
        k = k + 1;
    }
    assert(all.take(k as int) =~= all);
    let tail = chars_of(HISTORY_ORDER);
    let ghost s0 = sql@;
    let mut m: usize = 0;
    while m < tail.len()
        invariant
            m <= tail.len(),
            sql@ == s0 + tail@.take(m as int),
        decreases tail.len() - m,
    {
        sql.push(tail[m]);
        m = m + 1;
        assert(sql@ =~= s0 + tail@.take(m as int));
    }
    assert(tail@.take(m as int) =~= tail@);
    (string_of(&sql), args)
}

/// Each condition a filter sets binds exactly one value: there are as many
/// values as set fields, and the `k`-th placeholder (`?k`) takes the `k`-th
/// value.
pub proof fn law_one_value_per_set_field(f: HistoryFilter)
    ensures
        condition_args(history_conditions(f)).len() == history_conditions(f).len(),
        history_conditions(f).len() == (if f.station_name is Some { 1int } else { 0 }) + (if f.payment_method is Some { 1int } else { 0 })
            + (if f.customer is Some { 1int } else { 0 }) + (if f.start_date is Some { 1int } else { 0 }) + (if f.end_date is Some { 1int } else { 0 })
            + (if f.min_duration is Some { 1int } else { 0 }) + (if f.max_duration is Some { 1int } else { 0 }),
{
}

/// Whether text `a` sorts no later than `b`, as SQLite compares text.
pub open spec fn text_le(a: Seq<char>, b: Seq<char>) -> bool {
    a == b || text_lt(a, b)
}

/// Whether a history row passes one stated condition as SQL reads it. The
/// row is seen as its station name, the date its session ended and how
/// many minutes it lasted: `station_name = ?k` compares the name with the
/// bound text, `date(end_time) >= ?k` and `<= ?k` compare the date with
/// it as text, and `duration_minutes >= ?k` and `<= ?k` compare the
/// minutes with the bound integer. The `LIKE` conditions on the payment
/// method and the customer are not modelled here and pass.
pub open spec fn row_passes(cond: (Seq<char>, (bool, Seq<char>, i64)), row: (Seq<char>, Seq<char>, int)) -> bool {
    let (test, v) = cond;
    if test == "station_name = "@ {
        row.0 == v.1
    } else if test == "date(end_time) >= "@ {
        text_le(v.1, row.1)
    } else if test == "date(end_time) <= "@ {
        text_le(row.1, v.1)
    } else if test == "duration_minutes >= "@ {
        row.2 >= v.2
    } else if test == "duration_minutes <= "@ {
        row.2 <= v.2
    } else {
        true
    }
}

/// Whether a row passes every condition in `conds`.
pub open spec fn passes_all(conds: Seq<(Seq<char>, (bool, Seq<char>, i64))>, row: (Seq<char>, Seq<char>, int)) -> bool {
    forall|k: int| 0 <= k < conds.len() ==> #[trigger] row_passes(conds[k], row)
}

proof fn lemma_passes_one_more(
    conds: Seq<(Seq<char>, (bool, Seq<char>, i64))>,
    set: bool,
    test: Seq<char>,
    v: (bool, Seq<char>, i64),
    row: (Seq<char>, Seq<char>, int),
)
    ensures
        passes_all(conds + one_condition(set, test, v), row) == (passes_all(conds, row) && (set
            ==> row_passes((test, v), row))),
{
    let all = conds + one_condition(set, test, v);
    if passes_all(all, row) {
        assert forall|k: int| 0 <= k < conds.len() implies #[trigger] row_passes(conds[k], row) by {
            assert(all[k] == conds[k]);
            assert(row_passes(all[k], row));
        }
        if set {
            assert(all[conds.len() as int] == (test, v));
            assert(row_passes(all[conds.len() as int], row));
        }
    }
    if passes_all(conds, row) && (set ==> row_passes((test, v), row)) {
        assert forall|k: int| 0 <= k < all.len() implies #[trigger] row_passes(all[k], row) by {
            if k < conds.len() {
                assert(all[k] == conds[k]);
            } else {
                assert(all[k] == (test, v));
            }
        }
    }
}

proof fn lemma_tests_read(v: (bool, Seq<char>, i64), row: (Seq<char>, Seq<char>, int))
    ensures
        row_passes(("station_name = "@, v), row) == (row.0 == v.1),
        row_passes(("payment_method LIKE "@, v), row),
        row_passes(("customer LIKE "@, v), row),
        row_passes(("date(end_time) >= "@, v), row) == text_le(v.1, row.1),
        row_passes(("date(end_time) <= "@, v), row) == text_le(row.1, v.1),
        row_passes(("duration_minutes >= "@, v), row) == (row.2 >= v.2),
        row_passes(("duration_minutes <= "@, v), row) == (row.2 <= v.2),
{
    reveal_strlit("duration_minutes <= ");
    reveal_strlit("duration_minutes >= ");
    reveal_strlit("station_name = ");
    reveal_strlit("payment_method LIKE ");
    reveal_strlit("customer LIKE ");
    reveal_strlit("date(end_time) >= ");
    reveal_strlit("date(end_time) <= ");
    assert("payment_method LIKE "@[0] != "duration_minutes <= "@[0]);
    assert("payment_method LIKE "@.len() != "station_name = "@.len());
    assert("payment_method LIKE "@.len() != "date(end_time) >= "@.len());
    assert("customer LIKE "@.len() != "date(end_time) >= "@.len());
    assert("customer LIKE "@.len() != "station_name = "@.len());
    assert("customer LIKE "@.len() != "duration_minutes <= "@.len());
    assert("date(end_time) >= "@.len() != "station_name = "@.len());
    assert("date(end_time) <= "@.len() != "station_name = "@.len());
    assert("date(end_time) >= "@[15] != "date(end_time) <= "@[15]);
    assert("duration_minutes >= "@.len() != "station_name = "@.len());
    assert("duration_minutes >= "@.len() != "date(end_time) >= "@.len());
    assert("duration_minutes <= "@.len() != "station_name = "@.len());
    assert("duration_minutes <= "@.len() != "date(end_time) >= "@.len());
    assert("duration_minutes >= "@[17] != "duration_minutes <= "@[17]);
}

/// The filter selects the rows it names: a row (station name, end date,
/// minutes) meets every condition the query states exactly when it is at
/// the filter's station, ended on or after its start date and on or before
/// its end date, and lasted at least its minimum and at most its maximum
/// number of minutes (each only where the filter sets it).
pub proof fn law_history_filter_selects(f: HistoryFilter, row: (Seq<char>, Seq<char>, int))
    ensures
        passes_all(history_conditions(f), row) <==> ((f.station_name matches Some(s) ==> row.0 == s@)
            && (f.start_date matches Some(d) ==> text_le(d@, row.1)) && (f.end_date matches Some(d)
            ==> text_le(row.1, d@)) && (f.min_duration matches Some(lo) ==> lo <= row.2) && (
        f.max_duration matches Some(hi) ==> row.2 <= hi)),
{
    let p0: Seq<(Seq<char>, (bool, Seq<char>, i64))> = Seq::empty();
    let v1 = text_value(field_text(f.station_name));
    let v2 = text_value(anywhere(field_text(f.payment_method)));
    let v3 = text_value(anywhere(field_text(f.customer)));
    let v4 = text_value(field_text(f.start_date));
    let v5 = text_value(field_text(f.end_date));
    let v6 = int_value(field_int(f.min_duration));
    let v7 = int_value(field_int(f.max_duration));
    lemma_tests_read(v1, row);
    lemma_tests_read(v2, row);
    lemma_tests_read(v3, row);
    lemma_tests_read(v4, row);
    lemma_tests_read(v5, row);
    lemma_tests_read(v6, row);
    lemma_tests_read(v7, row);
    let p1 = p0 + one_condition(f.station_name is Some, "station_name = "@, v1);
    let p2 = p1 + one_condition(f.payment_method is Some, "payment_method LIKE "@, v2);
    let p3 = p2 + one_condition(f.customer is Some, "customer LIKE "@, v3);
    let p4 = p3 + one_condition(f.start_date is Some, "date(end_time) >= "@, v4);
    let p5 = p4 + one_condition(f.end_date is Some, "date(end_time) <= "@, v5);
    let p6 = p5 + one_condition(f.min_duration is Some, "duration_minutes >= "@, v6);
    let p7 = p6 + one_condition(f.max_duration is Some, "duration_minutes <= "@, v7);
    assert(p1 =~= one_condition(f.station_name is Some, "station_name = "@, v1));
    assert(history_conditions(f) =~= p7);
    assert(passes_all(p0, row));
    lemma_passes_one_more(p0, f.station_name is Some, "station_name = "@, v1, row);
    lemma_passes_one_more(p1, f.payment_method is Some, "payment_method LIKE "@, v2, row);
    lemma_passes_one_more(p2, f.customer is Some, "customer LIKE "@, v3, row);
    lemma_passes_one_more(p3, f.start_date is Some, "date(end_time) >= "@, v4, row);
    lemma_passes_one_more(p4, f.end_date is Some, "date(end_time) <= "@, v5, row);
    lemma_passes_one_more(p5, f.min_duration is Some, "duration_minutes >= "@, v6, row);
    lemma_passes_one_more(p6, f.max_duration is Some, "duration_minutes <= "@, v7, row);
}

} // verus!
