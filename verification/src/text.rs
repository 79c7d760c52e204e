//! Character-level text helpers shared by the rest of the library: reading
//! the characters of a string, trimming, searching, splitting, and turning
//! integers into decimal text and back.
use vstd::prelude::*;

verus! {

broadcast use vstd::string::axiom_spec_iter, vstd::string::next_postcondition;

/// The characters of `s`, in order.
pub fn chars_of(s: &str) -> (r: Vec<char>)
    ensures
        r@ == s@,
{
    let mut out: Vec<char> = Vec::new();
    for c in it: s.chars()
        invariant
            it.seq() == s@,
            out@ == it.seq().take(it.index() as int),
    {
        out.push(c);
    }
    out
}

/// The string made of `chars`. Calls `String`'s `FromIterator<char>` impl,
/// which collects the characters in order.
#[verifier::external_body]
pub(crate) fn string_of(chars: &Vec<char>) -> (r: String)
    ensures
        r@ == chars@,
{
    chars.iter().collect()
}

/// Whether two character sequences are the same.
pub fn same_chars(a: &Vec<char>, b: &Vec<char>) -> (r: bool)
    ensures
        r == (a@ == b@),
{
    if a.len() != b.len() {
        return false;
    }
    let mut i: usize = 0;
    while i < a.len()
        invariant
            a.len() == b.len(),
            i <= a.len(),
            forall|k: int| 0 <= k < i ==> a@[k] == b@[k],
        decreases a.len() - i,
    {
        if a[i] != b[i] {
            return false;
        }
        i = i + 1;
    }
    assert(a@ =~= b@);
    true
}

/// Whether the two strings hold the same characters.
pub fn str_equal(a: &str, b: &str) -> (r: bool)
    ensures
        r == (a@ == b@),
{
    let ac = chars_of(a);
    let bc = chars_of(b);
    same_chars(&ac, &bc)
}

// ─── White space and trimming ────────────────────────────────────────

/// The characters with the Unicode `White_Space` property: the ones that
/// `char::is_whitespace` accepts and `str::trim` removes.
pub open spec fn is_white_space(c: char) -> bool {
    let u = c as u32;
    ||| 0x09 <= u <= 0x0D
    ||| u == 0x20
    ||| u == 0x85
    ||| u == 0xA0
    ||| u == 0x1680
    ||| 0x2000 <= u <= 0x200A
    ||| u == 0x2028
    ||| u == 0x2029
    ||| u == 0x202F
    ||| u == 0x205F
    ||| u == 0x3000
}

pub fn white_space(c: char) -> (r: bool)
    ensures
        r == is_white_space(c),
{
    let u = c as u32;
    (0x09 <= u && u <= 0x0D) || u == 0x20 || u == 0x85 || u == 0xA0 || u == 0x1680 || (0x2000
        <= u && u <= 0x200A) || u == 0x2028 || u == 0x2029 || u == 0x202F || u == 0x205F || u
        == 0x3000
}

/// Number of white-space characters at the start of `s`.
pub open spec fn leading_space(s: Seq<char>) -> nat
    decreases s.len(),
{
    if s.len() > 0 && is_white_space(s[0]) {
        1 + leading_space(s.drop_first())
    } else {
        0
    }
}

/// Number of white-space characters at the end of `s`.
pub open spec fn trailing_space(s: Seq<char>) -> nat
    decreases s.len(),
{
    if s.len() > 0 && is_white_space(s.last()) {
        1 + trailing_space(s.drop_last())
    } else {
        0
    }
}

/// `s` without white space at either end, as `str::trim` gives it.
pub open spec fn trimmed(s: Seq<char>) -> Seq<char> {
    let t = s.skip(leading_space(s) as int);
    t.take(t.len() - trailing_space(t))
}

proof fn lemma_leading_space(s: Seq<char>, i: int)
    requires
        0 <= i <= s.len(),
        forall|k: int| 0 <= k < i ==> is_white_space(#[trigger] s[k]),
        i == s.len() || !is_white_space(s[i]),
    ensures
        leading_space(s) == i,
    decreases i,
{
    if i > 0 {
        lemma_leading_space(s.drop_first(), i - 1);
    }
}

proof fn lemma_trailing_space(s: Seq<char>, j: int)
    requires
        0 <= j <= s.len(),
        forall|k: int| j <= k < s.len() ==> is_white_space(#[trigger] s[k]),
        j == 0 || !is_white_space(s[j - 1]),
    ensures
        trailing_space(s) == s.len() - j,
    decreases s.len() - j,
{
    if j < s.len() {
        lemma_trailing_space(s.drop_last(), j);
    }
}

/// The characters of `v` without white space at either end.
pub fn trim_chars(v: &Vec<char>) -> (r: Vec<char>)
    ensures
        r@ == trimmed(v@),
{
    let n = v.len();
    let mut i: usize = 0;
    while i < n && white_space(v[i])
        invariant
            n == v.len(),
            0 <= i <= n,
            forall|k: int| 0 <= k < i ==> is_white_space(#[trigger] v@[k]),
        decreases n - i,
    {
        i = i + 1;
    }
    proof {
        lemma_leading_space(v@, i as int);
    }
    let mut j: usize = n;
    while j > i && white_space(v[j - 1])
        invariant
            n == v.len(),
            0 <= i <= j <= n,
            forall|k: int| j <= k < n ==> is_white_space(#[trigger] v@[k]),
        decreases j,
    {
        j = j - 1;
    }
    let ghost t = v@.skip(i as int);
    proof {
        assert forall|k: int| j - i <= k < t.len() implies is_white_space(#[trigger] t[k]) by {
            assert(t[k] == v@[k + i]);
        }
        if j > i {
            assert(t[j - i - 1] == v@[j - 1]);
        }
        lemma_trailing_space(t, j - i);
    }
    let mut out: Vec<char> = Vec::new();
    let mut k: usize = i;
    while k < j
        invariant
            n == v.len(),
            0 <= i <= k <= j <= n,
            out@ == v@.subrange(i as int, k as int),
        decreases j - k,
    {
        out.push(v[k]);
        k = k + 1;
    }
    assert(out@ =~= t.take(t.len() - trailing_space(t)));
    out
}

// ─── Case mapping ─────────────────────────────────────────────────────

/// What `str::to_lowercase` gives for `s` (full Unicode case mapping,
/// independent of locale).
pub uninterp spec fn lowercased(s: Seq<char>) -> Seq<char>;

/// What `str::to_uppercase` gives for `s` (full Unicode case mapping,
/// independent of locale).
pub uninterp spec fn uppercased(s: Seq<char>) -> Seq<char>;

/// Whether every character of `s` is ASCII.
pub open spec fn all_ascii(s: Seq<char>) -> bool {
    forall|i: int| 0 <= i < s.len() ==> #[trigger] s[i] <= '\u{7f}'
}

/// The ASCII lower-case form of a character (other characters unchanged).
pub open spec fn ascii_lower(c: char) -> char {
    if 'A' <= c && c <= 'Z' {
        ((c as u32) + 32) as char
    } else {
        c
    }
}

/// The ASCII upper-case form of a character (other characters unchanged).
pub open spec fn ascii_upper(c: char) -> char {
    if 'a' <= c && c <= 'z' {
        ((c as u32) - 32) as char
    } else {
        c
    }
}

/// `s` with `A`-`Z` lowered and every other character kept.
pub open spec fn ascii_lowered(s: Seq<char>) -> Seq<char> {
    Seq::new(s.len(), |i: int| ascii_lower(s[i]))
}

/// `s` with `a`-`z` raised and every other character kept.
pub open spec fn ascii_uppered(s: Seq<char>) -> Seq<char> {
    Seq::new(s.len(), |i: int| ascii_upper(s[i]))
}

/// White space is never counted past the end of the text.
pub proof fn lemma_space_within(s: Seq<char>)
    ensures
        leading_space(s) <= s.len(),
        trailing_space(s) <= s.len(),
    decreases s.len(),
{
    if s.len() > 0 {
        lemma_space_within(s.drop_first());
        lemma_space_within(s.drop_last());
    }
}

/// Trimming ASCII text leaves ASCII text.
pub proof fn lemma_trimmed_keeps_ascii(s: Seq<char>)
    requires
        all_ascii(s),
    ensures
        all_ascii(trimmed(s)),
{
    lemma_space_within(s);
    let a = leading_space(s) as int;
    let t = s.skip(a);
    lemma_space_within(t);
    assert forall|i: int| 0 <= i < trimmed(s).len() implies #[trigger] trimmed(s)[i] <= '\u{7f}' by {
        assert(trimmed(s)[i] == s[i + a]);
    }
}

/// The text before the first `c` of ASCII text is ASCII.
pub proof fn lemma_before_first_keeps_ascii(s: Seq<char>, c: char)
    requires
        all_ascii(s),
    ensures
        all_ascii(before_first(s, c)),
    decreases s.len(),
{
    if s.len() > 0 && s[0] != c {
        let rest = s.drop_first();
        assert(all_ascii(rest)) by {
            assert forall|i: int| 0 <= i < rest.len() implies #[trigger] rest[i] <= '\u{7f}' by {
                assert(rest[i] == s[i + 1]);
            }
        }
        lemma_before_first_keeps_ascii(rest, c);
        let b = before_first(s, c);
        assert forall|i: int| 0 <= i < b.len() implies #[trigger] b[i] <= '\u{7f}' by {
            if i > 0 {
                assert(b[i] == before_first(rest, c)[i - 1]);
            }
        }
    }
}

/// Cutting at the first `c` passes over a front part without `c`.
pub proof fn lemma_before_first_after_prefix(a: Seq<char>, rest: Seq<char>, c: char)
    requires
        forall|k: int| 0 <= k < a.len() ==> #[trigger] a[k] != c,
    ensures
        before_first(a + rest, c) == a + before_first(rest, c),
    decreases a.len(),
{
    if a.len() == 0 {
        assert(a + rest =~= rest);
        assert(a + before_first(rest, c) =~= before_first(rest, c));
    } else {
        let tail = a.drop_first();
        assert forall|k: int| 0 <= k < tail.len() implies #[trigger] tail[k] != c by {
            assert(tail[k] == a[k + 1]);
        }
        lemma_before_first_after_prefix(tail, rest, c);
        assert((a + rest).drop_first() =~= tail + rest);
        assert(a + before_first(rest, c) =~= seq![a[0]] + (tail + before_first(rest, c)));
    }
}

/// White space at the start stops at the first other character.
pub proof fn lemma_leading_space_before(s: Seq<char>, p: int)
    requires
        0 <= p < s.len(),
        !is_white_space(s[p]),
    ensures
        leading_space(s) <= p,
    decreases p,
{
    if p > 0 && is_white_space(s[0]) {
        lemma_leading_space_before(s.drop_first(), p - 1);
    }
}

/// White space at the end stops at the last other character.
pub proof fn lemma_trailing_space_after(s: Seq<char>, p: int)
    requires
        0 <= p < s.len(),
        !is_white_space(s[p]),
    ensures
        trailing_space(s) <= s.len() - 1 - p,
    decreases s.len(),
{
    if p < s.len() - 1 && is_white_space(s.last()) {
        lemma_trailing_space_after(s.drop_last(), p);
    }
}

/// Trimming keeps a run of characters that begins and ends with other
/// characters than white space: a run `w` at position `p` of `s` stands at
/// position `p - leading_space(s)` of `trimmed(s)`.
pub proof fn lemma_trimmed_keeps_run(s: Seq<char>, p: int, w: Seq<char>)
    requires
        0 <= p,
        p + w.len() <= s.len(),
        w.len() > 0,
        s.subrange(p, p + w.len() as int) == w,
        !is_white_space(w[0]),
        !is_white_space(w.last()),
    ensures
        leading_space(s) <= p,
        p - leading_space(s) + w.len() <= trimmed(s).len(),
        trimmed(s).subrange(p - leading_space(s), p - leading_space(s) + w.len() as int) == w,
{
    assert(s[p] == w[0]);
    assert(s[p + w.len() - 1] == w.last());
    lemma_leading_space_before(s, p);
    let a = leading_space(s) as int;
    let t = s.skip(a);
    assert(t[p + w.len() - 1 - a] == s[p + w.len() - 1]);
    lemma_trailing_space_after(t, p + w.len() - 1 - a);
    let r = trimmed(s);
    assert forall|k: int| 0 <= k < w.len() implies #[trigger] r.subrange(p - a, p - a + w.len() as int)[k] == w[k] by {
        assert(r[p - a + k] == s[p + k]);
        assert(s.subrange(p, p + w.len() as int)[k] == s[p + k]);
    }
    assert(r.subrange(p - a, p - a + w.len() as int) =~= w);
}

/// Calls `str::to_lowercase`; the result is named `lowercased`. An ASCII
/// character's Unicode lower case is its ASCII lower case, so ASCII text
/// comes back with `A`-`Z` lowered and nothing else changed.
#[verifier::external_body]
pub(crate) fn to_lowercase(s: &str) -> (r: String)
    ensures
        r@ == lowercased(s@),
        all_ascii(s@) ==> r@ == ascii_lowered(s@),
{
    s.to_lowercase()
}

/// Calls `str::to_uppercase`; the result is named `uppercased`. An ASCII
/// character's Unicode upper case is its ASCII upper case, so ASCII text
/// comes back with `a`-`z` raised and nothing else changed.
#[verifier::external_body]
pub(crate) fn to_uppercase(s: &str) -> (r: String)
    ensures
        r@ == uppercased(s@),
        all_ascii(s@) ==> r@ == ascii_uppered(s@),
{
    s.to_uppercase()
}

// ─── Searching and splitting ─────────────────────────────────────────

/// Whether `needle` occurs in `hay` as a contiguous run of characters.
pub open spec fn has_infix(hay: Seq<char>, needle: Seq<char>) -> bool {
    exists|i: int|
        0 <= i && i + needle.len() <= hay.len() && #[trigger] hay.subrange(i, i + needle.len())
            == needle
}

/// Whether `needle` occurs in `hay`, as `str::contains` answers it.
pub fn contains_chars(hay: &Vec<char>, needle: &Vec<char>) -> (r: bool)
    ensures
        r == has_infix(hay@, needle@),
{
    let n = hay.len();
    let m = needle.len();
    if m > n {
        proof {
            assert forall|i: int|
                0 <= i && i + needle@.len() <= hay@.len() implies #[trigger] hay@.subrange(
                i,
                i + needle@.len(),
            ) != needle@ by {}
        }
        return false;
    }
    let mut i: usize = 0;
    while i <= n - m
        invariant
            n == hay.len(),
            m == needle.len(),
            m <= n,
            i <= n - m + 1,
            forall|p: int|
                0 <= p < i ==> #[trigger] hay@.subrange(p, p + m as int) != needle@,
        decreases n - i,
    {
        let mut j: usize = 0;
        let mut same = true;
        while j < m
            invariant
                n == hay.len(),
                m == needle.len(),
                i + m <= n,
                j <= m,
                same == (forall|q: int| 0 <= q < j ==> hay@[i + q] == needle@[q]),
            decreases m - j,
        {
            if hay[i + j] != needle[j] {
                same = false;
            }
            j = j + 1;
        }
        if same {
            assert(hay@.subrange(i as int, i + m as int) =~= needle@);
            return true;
        } else {
            assert(hay@.subrange(i as int, i + m as int) != needle@) by {
                let q = choose|q: int| 0 <= q < m && hay@[i + q] != needle@[q];
                assert(hay@.subrange(i as int, i + m as int)[q] == hay@[i + q]);
            }
        }
        i = i + 1;
    }
    proof {
        assert forall|p: int|
            0 <= p && p + needle@.len() <= hay@.len() implies #[trigger] hay@.subrange(
            p,
            p + needle@.len(),
        ) != needle@ by {
            assert(p < i);
        }
    }
    false
}

/// `s` up to (not including) the first `c`; all of `s` when there is none.
/// This is the first piece that `str::split(c)` yields.
pub open spec fn before_first(s: Seq<char>, c: char) -> Seq<char>
    decreases s.len(),
{
    if s.len() == 0 {
        s
    } else if s[0] == c {
        Seq::empty()
    } else {
        seq![s[0]] + before_first(s.drop_first(), c)
    }
}

/// `s` after the first `c`; empty when there is none.
pub open spec fn after_first(s: Seq<char>, c: char) -> Seq<char>
    decreases s.len(),
{
    if s.len() == 0 {
        s
    } else if s[0] == c {
        s.drop_first()
    } else {
        after_first(s.drop_first(), c)
    }
}

/// How many times `c` occurs in `s`.
pub open spec fn count_char(s: Seq<char>, c: char) -> nat
    decreases s.len(),
{
    if s.len() == 0 {
        0
    } else {
        (if s[0] == c {
            1nat
        } else {
            0nat
        }) + count_char(s.drop_first(), c)
    }
}

pub proof fn lemma_split_at_first(s: Seq<char>, c: char, i: int)
    requires
        0 <= i <= s.len(),
        forall|k: int| 0 <= k < i ==> #[trigger] s[k] != c,
        i == s.len() || s[i] == c,
    ensures
        before_first(s, c) == s.take(i),
        i < s.len() ==> after_first(s, c) == s.skip(i + 1),
        i == s.len() ==> count_char(s, c) == 0,
        i < s.len() ==> count_char(s, c) == 1 + count_char(s.skip(i + 1), c),
    decreases i,
{
    if i == 0 {
        if s.len() > 0 {
            assert(s.drop_first() =~= s.skip(1));
        }
        assert(s.take(0) =~= Seq::<char>::empty());
    } else {
        lemma_split_at_first(s.drop_first(), c, i - 1);
        assert(s.take(i) =~= seq![s[0]] + s.drop_first().take(i - 1));
        if i < s.len() {
            assert(s.drop_first().skip(i) =~= s.skip(i + 1));
        }
    }
}

/// The position of the first `c` in `v`, or `v.len()` when there is none.
pub fn find_char(v: &Vec<char>, c: char) -> (r: usize)
    ensures
        r <= v.len(),
        forall|k: int| 0 <= k < r ==> #[trigger] v@[k] != c,
        r == v.len() || v@[r as int] == c,
        before_first(v@, c) == v@.take(r as int),
        r < v.len() ==> after_first(v@, c) == v@.skip(r + 1),
        r == v.len() <==> count_char(v@, c) == 0,
        r < v.len() ==> count_char(v@, c) == 1 + count_char(v@.skip(r + 1), c),
{
    let mut i: usize = 0;
    while i < v.len() && v[i] != c
        invariant
            i <= v.len(),
            forall|k: int| 0 <= k < i ==> #[trigger] v@[k] != c,
        decreases v.len() - i,
    {
        i = i + 1;
    }
    proof {
        lemma_split_at_first(v@, c, i as int);
    }
    i
}

/// The characters of `v` from `start` up to `end`.
pub fn slice_chars(v: &Vec<char>, start: usize, end: usize) -> (r: Vec<char>)
    requires
        start <= end <= v.len(),
    ensures
        r@ == v@.subrange(start as int, end as int),
{
    let mut out: Vec<char> = Vec::new();
    let mut k = start;
    while k < end
        invariant
            start <= k <= end <= v.len(),
            out@ == v@.subrange(start as int, k as int),
        decreases end - k,
    {
        out.push(v[k]);
        k = k + 1;
    }
    out
}

/// Whether `s` begins with `prefix`.
pub open spec fn starts_with(s: Seq<char>, prefix: Seq<char>) -> bool {
    prefix.len() <= s.len() && s.take(prefix.len() as int) == prefix
}

/// Whether `v` begins with `prefix`, as `str::starts_with` answers it.
pub fn starts_with_chars(v: &Vec<char>, prefix: &Vec<char>) -> (r: bool)
    ensures
        r == starts_with(v@, prefix@),
{
    if prefix.len() > v.len() {
        return false;
    }
    let mut i: usize = 0;
    while i < prefix.len()
        invariant
            prefix.len() <= v.len(),
            i <= prefix.len(),
            forall|k: int| 0 <= k < i ==> v@[k] == prefix@[k],
        decreases prefix.len() - i,
    {
        if v[i] != prefix[i] {
            assert(v@.take(prefix@.len() as int)[i as int] != prefix@[i as int]);
            return false;
        }
        i = i + 1;
    }
    assert(v@.take(prefix@.len() as int) =~= prefix@);
    true
}

// ─── Decimal numbers ─────────────────────────────────────────────────

pub open spec fn is_digit(c: char) -> bool {
    '0' <= c && c <= '9'
}

pub open spec fn digit_value(c: char) -> int {
    (c as u32) - ('0' as u32)
}

pub open spec fn all_digits(s: Seq<char>) -> bool {
    forall|k: int| 0 <= k < s.len() ==> is_digit(#[trigger] s[k])
}

/// The number that the decimal digits `s` spell.
pub open spec fn digits_value(s: Seq<char>) -> int
    decreases s.len(),
{
    if s.len() == 0 {
        0
    } else {
        digits_value(s.drop_last()) * 10 + digit_value(s.last())
    }
}

/// What `str::parse` gives for an integer type whose values run from `lo`
/// to `hi`: an optional `+` (or, when `signed`, `-`) followed by at least
/// one decimal digit, naming a value in range. `None` is a parse error.
pub open spec fn parsed_integer(s: Seq<char>, signed: bool, lo: int, hi: int) -> Option<int> {
    if s.len() == 0 {
        None
    } else {
        let neg = signed && s[0] == '-';
        let digits = if s[0] == '+' || neg {
            s.drop_first()
        } else {
            s
        };
        if digits.len() == 0 || !all_digits(digits) {
            None
        } else {
            let v = if neg {
                -digits_value(digits)
            } else {
                digits_value(digits)
            };
            if lo <= v <= hi {
                Some(v)
            } else {
                None
            }
        }
    }
}

proof fn lemma_digits_value_nonneg(s: Seq<char>)
    requires
        all_digits(s),
    ensures
        digits_value(s) >= 0,
    decreases s.len(),
{
    if s.len() > 0 {
        lemma_digits_value_nonneg(s.drop_last());
    }
}

/// Reads the decimal integer `s` the way `str::parse` does for an integer
/// type running from `lo` to `hi` (signed when `signed`).
fn parse_integer(s: &Vec<char>, signed: bool, lo: i64, hi: i64) -> (r: Option<i64>)
    requires
        lo <= 0 <= hi,
    ensures
        r matches Some(v) ==> parsed_integer(s@, signed, lo as int, hi as int) == Some(v as int),
        r is None ==> parsed_integer(s@, signed, lo as int, hi as int) is None,
{
    if s.len() == 0 {
        return None;
    }
    let neg = signed && s[0] == '-';
    let start: usize = if s[0] == '+' || neg {
        1
    } else {
        0
    };
    let ghost digits = if s@[0] == '+' || neg {
        s@.drop_first()
    } else {
        s@
    };
    assert(digits =~= s@.skip(start as int));
    if start == s.len() {
        return None;
    }
    // Accumulate the magnitude; once it is past every value in range it stays there.
    let limit: i128 = if neg {
        0i128 - (lo as i128)
    } else {
        hi as i128
    };
    let mut acc: i128 = 0;
    let mut over = false;
    let mut k: usize = start;
    while k < s.len()
        invariant
            1 <= start <= k <= s.len() || (start == 0 && k <= s.len()),
            start < s.len(),
            lo <= 0 <= hi,
            s@.len() > 0,
            neg == (signed && s@[0] == '-'),
            digits == (if s@[0] == '+' || neg {
                s@.drop_first()
            } else {
                s@
            }),
            limit == (if neg {
                -(lo as int)
            } else {
                hi as int
            }),
            digits =~= s@.skip(start as int),
            0 <= limit <= 0x8000_0000_0000_0000,
            all_digits(digits.take(k - start)),
            0 <= acc <= limit,
            !over ==> acc == digits_value(digits.take(k - start)) && acc <= limit,
            over ==> digits_value(digits.take(k - start)) > limit,
        decreases s.len() - k,
    {
        let c = s[k];
        if !('0' <= c && c <= '9') {
            assert(k - start < digits.len());
            assert(digits[k - start] == c);
            assert(!is_digit(digits[k - start]));
            assert(!all_digits(digits));
            return None;
        }
        let d = (c as u32 - '0' as u32) as i128;
        proof {
            let t = digits.take(k + 1 - start);
            assert(t.drop_last() =~= digits.take(k - start));
            assert(t.last() == c);
            assert(all_digits(t)) by {
                assert forall|q: int| 0 <= q < t.len() implies is_digit(#[trigger] t[q]) by {
                    if q < t.len() - 1 {
                        assert(t[q] == digits.take(k - start)[q]);
                    }
                }
            }
            lemma_digits_value_nonneg(digits.take(k - start));
        }
        if !over {
            let next = acc * 10 + d;
            if next > limit {
                over = true;
            } else {
                acc = next;
            }
        }
        k = k + 1;
    }
    assert(digits.take(k - start) =~= digits);
    let v: i128 = if neg {
        0 - acc
    } else {
        acc
    };
    if over || v < lo as i128 || v > hi as i128 {
        None
    } else {
        Some(v as i64)
    }
}

/// `str::parse::<i64>`.
pub fn parse_i64(s: &Vec<char>) -> (r: Option<i64>)
    ensures
        r matches Some(v) ==> parsed_integer(s@, true, i64::MIN as int, i64::MAX as int) == Some(
            v as int,
        ),
        r is None ==> parsed_integer(s@, true, i64::MIN as int, i64::MAX as int) is None,
{
    parse_integer(s, true, i64::MIN, i64::MAX)
}

/// `str::parse::<i32>`.
pub fn parse_i32(s: &Vec<char>) -> (r: Option<i32>)
    ensures
        r matches Some(v) ==> parsed_integer(s@, true, i32::MIN as int, i32::MAX as int) == Some(
            v as int,
        ),
        r is None ==> parsed_integer(s@, true, i32::MIN as int, i32::MAX as int) is None,
{
    match parse_integer(s, true, i32::MIN as i64, i32::MAX as i64) {
        Some(v) => Some(v as i32),
        None => None,
    }
}

/// `str::parse::<u32>`.
pub fn parse_u32(s: &Vec<char>) -> (r: Option<u32>)
    ensures
        r matches Some(v) ==> parsed_integer(s@, false, 0, u32::MAX as int) == Some(v as int),
        r is None ==> parsed_integer(s@, false, 0, u32::MAX as int) is None,
{
    match parse_integer(s, false, 0, u32::MAX as i64) {
        Some(v) => Some(v as u32),
        None => None,
    }
}

/// `str::parse::<u16>`.
pub fn parse_u16(s: &Vec<char>) -> (r: Option<u16>)
    ensures
        r matches Some(v) ==> parsed_integer(s@, false, 0, u16::MAX as int) == Some(v as int),
        r is None ==> parsed_integer(s@, false, 0, u16::MAX as int) is None,
{
    match parse_integer(s, false, 0, u16::MAX as i64) {
        Some(v) => Some(v as u16),
        None => None,
    }
}

pub open spec fn digit_char(d: int) -> char {
    ((d + '0' as u32) as u32) as char
}

/// The decimal digits of `n`, most significant first, with no leading zero.
pub open spec fn natural_text(n: nat) -> Seq<char>
    decreases n,
{
    if n < 10 {
        seq![digit_char(n as int)]
    } else {
        natural_text(n / 10) + seq![digit_char((n % 10) as int)]
    }
}

/// The decimal text of `x`, as `{}` formats an integer.
pub open spec fn decimal_text(x: int) -> Seq<char> {
    if x < 0 {
        seq!['-'] + natural_text((-x) as nat)
    } else {
        natural_text(x as nat)
    }
}

/// The decimal text of `x` with its sign always shown, as `{:+}` formats it.
pub open spec fn signed_decimal_text(x: int) -> Seq<char> {
    if x < 0 {
        decimal_text(x)
    } else {
        seq!['+'] + natural_text(x as nat)
    }
}

fn natural_chars(n: u64) -> (r: Vec<char>)
    ensures
        r@ == natural_text(n as nat),
    decreases n,
{
    if n < 10 {
        let c = char_from_digit(n as u32);
        let mut v: Vec<char> = Vec::new();
        v.push(c);
        v
    } else {
        let mut v = natural_chars(n / 10);
        let c = char_from_digit((n % 10) as u32);
        v.push(c);
        v
    }
}

fn char_from_digit(d: u32) -> (c: char)
    requires
        d < 10,
    ensures
        c == digit_char(d as int),
{
    if d == 0 {
        '0'
    } else if d == 1 {
        '1'
    } else if d == 2 {
        '2'
    } else if d == 3 {
        '3'
    } else if d == 4 {
        '4'
    } else if d == 5 {
        '5'
    } else if d == 6 {
        '6'
    } else if d == 7 {
        '7'
    } else if d == 8 {
        '8'
    } else {
        '9'
    }
}

/// The decimal text of `x`.
pub fn decimal_chars(x: i64) -> (r: Vec<char>)
    ensures
        r@ == decimal_text(x as int),
{
    if x < 0 {
        let mag: u64 = if x == i64::MIN {
            0x8000_0000_0000_0000u64
        } else {
            (0 - x) as u64
        };
        let digits = natural_chars(mag);
        let mut v: Vec<char> = Vec::new();
        v.push('-');
        let mut k: usize = 0;
        while k < digits.len()
            invariant
                v@ == seq!['-'] + digits@.take(k as int),
                k <= digits.len(),
            decreases digits.len() - k,
        {
            v.push(digits[k]);
            k = k + 1;
            assert(v@ =~= seq!['-'] + digits@.take(k as int));
        }
        assert(digits@.take(k as int) =~= digits@);
        v
    } else {
        natural_chars(x as u64)
    }
}

/// The decimal text of `x` with its sign always shown.
pub fn signed_decimal_chars(x: i64) -> (r: Vec<char>)
    ensures
        r@ == signed_decimal_text(x as int),
{
    if x < 0 {
        decimal_chars(x)
    } else {
        let digits = natural_chars(x as u64);
        let mut v: Vec<char> = Vec::new();
        v.push('+');
        let mut k: usize = 0;
        while k < digits.len()
            invariant
                v@ == seq!['+'] + digits@.take(k as int),
                k <= digits.len(),
            decreases digits.len() - k,
        {
            v.push(digits[k]);
            k = k + 1;
            assert(v@ =~= seq!['+'] + digits@.take(k as int));
        }
        assert(digits@.take(k as int) =~= digits@);
        v
    }
}

proof fn lemma_natural_text(n: nat)
    ensures
        natural_text(n).len() > 0,
        all_digits(natural_text(n)),
        digits_value(natural_text(n)) == n,
    decreases n,
{
    let t = natural_text(n);
    if n < 10 {
        assert(digit_char(n as int) as u32 == n + 48);
        assert(t.drop_last() =~= Seq::<char>::empty());
        assert(digits_value(t.drop_last()) == 0);
        assert(t.last() == digit_char(n as int));
        assert(digit_value(t.last()) == n);
        assert(digits_value(t) == digits_value(t.drop_last()) * 10 + digit_value(t.last()));
        assert(all_digits(t));
    } else {
        lemma_natural_text(n / 10);
        let d = (n % 10) as int;
        assert(digit_char(d) as u32 == d + 48);
        assert(t.drop_last() =~= natural_text(n / 10));
        assert(t.last() == digit_char(d));
        assert(digit_value(t.last()) == d);
        assert(n == (n / 10) * 10 + n % 10) by (nonlinear_arith);
        assert(digits_value(t) == digits_value(t.drop_last()) * 10 + digit_value(t.last()));
        assert(all_digits(t)) by {
            assert forall|k: int| 0 <= k < t.len() implies is_digit(#[trigger] t[k]) by {
                if k < t.len() - 1 {
                    assert(t[k] == natural_text(n / 10)[k]);
                }
            }
        }
    }
}

/// The decimal text of any `i64` reads back as the same number.
pub proof fn lemma_decimal_reads_back(x: int)
    requires
        i64::MIN <= x <= i64::MAX,
    ensures
        parsed_integer(decimal_text(x), true, i64::MIN as int, i64::MAX as int) == Some(x),
{
    if x < 0 {
        let m = (-x) as nat;
        lemma_natural_text(m);
        let t = decimal_text(x);
        assert(t.drop_first() =~= natural_text(m));
    } else {
        lemma_natural_text(x as nat);
        let t = natural_text(x as nat);
        assert(is_digit(t[0]));
    }
}

// ─── Splitting and ordering ──────────────────────────────────────────

/// How `str::split(sep)` cuts `s`, read from the left: the pieces that a
/// separator has already closed, and the piece still open at the end.
pub open spec fn split_progress(s: Seq<char>, sep: char) -> (Seq<Seq<char>>, Seq<char>)
    decreases s.len(),
{
    if s.len() == 0 {
        (Seq::empty(), Seq::empty())
    } else {
        let (done, open) = split_progress(s.drop_last(), sep);
        if s.last() == sep {
            (done.push(open), Seq::empty())
        } else {
            (done, open.push(s.last()))
        }
    }
}

/// The pieces that `str::split(sep)` yields for `s`, in order.
pub open spec fn split_pieces(s: Seq<char>, sep: char) -> Seq<Seq<char>> {
    let (done, open) = split_progress(s, sep);
    done.push(open)
}

/// Whether `a` comes strictly before `b` in the order of `str`'s `Ord`:
/// character by character (by code point, which is the order of their
/// UTF-8 bytes), a proper prefix first.
pub open spec fn text_lt(a: Seq<char>, b: Seq<char>) -> bool
    decreases a.len(),
{
    if b.len() == 0 {
        false
    } else if a.len() == 0 {
        true
    } else if a[0] != b[0] {
        a[0] < b[0]
    } else {
        text_lt(a.drop_first(), b.drop_first())
    }
}

/// No text comes before itself.
pub proof fn lemma_text_lt_irreflexive(a: Seq<char>)
    ensures
        !text_lt(a, a),
    decreases a.len(),
{
    if a.len() > 0 {
        lemma_text_lt_irreflexive(a.drop_first());
    }
}

/// Of two different texts, one comes before the other, and never both.
pub proof fn lemma_text_lt_total(a: Seq<char>, b: Seq<char>)
    ensures
        a != b ==> (text_lt(a, b) || text_lt(b, a)),
        !(text_lt(a, b) && text_lt(b, a)),
    decreases a.len(),
{
    if a.len() > 0 && b.len() > 0 {
        if a[0] == b[0] {
            lemma_text_lt_total(a.drop_first(), b.drop_first());
            if a.drop_first() == b.drop_first() {
                assert(a =~= seq![a[0]] + a.drop_first());
                assert(b =~= seq![b[0]] + b.drop_first());
            }
        }
    } else if a.len() == 0 && b.len() == 0 {
        assert(a =~= b);
    }
}

/// The order of texts is transitive.
pub proof fn lemma_text_lt_transitive(a: Seq<char>, b: Seq<char>, c: Seq<char>)
    requires
        text_lt(a, b),
        text_lt(b, c),
    ensures
        text_lt(a, c),
    decreases a.len(),
{
    if a.len() > 0 && b.len() > 0 && c.len() > 0 {
        if a[0] == b[0] && b[0] == c[0] {
            lemma_text_lt_transitive(a.drop_first(), b.drop_first(), c.drop_first());
        }
    }
}

/// Whether `a` comes strictly before `b`, as `<` on strings answers it.
pub fn text_less(a: &Vec<char>, b: &Vec<char>) -> (r: bool)
    ensures
        r == text_lt(a@, b@),
{
    let mut i: usize = 0;
    assert(a@.skip(0) =~= a@);
    assert(b@.skip(0) =~= b@);
    while i < a.len() && i < b.len() && a[i] == b[i]
        invariant
            i <= a.len(),
            i <= b.len(),
            text_lt(a@, b@) == text_lt(a@.skip(i as int), b@.skip(i as int)),
        decreases a.len() - i,
    {
        assert(a@.skip(i as int).drop_first() =~= a@.skip(i + 1));
        assert(b@.skip(i as int).drop_first() =~= b@.skip(i + 1));
        i = i + 1;
    }
    let ghost sa = a@.skip(i as int);
    let ghost sb = b@.skip(i as int);
    if i == b.len() {
        assert(sb.len() == 0);
        false
    } else if i == a.len() {
        assert(sa.len() == 0);
        true
    } else {
        assert(sa[0] == a@[i as int] && sb[0] == b@[i as int]);
        a[i] < b[i]
    }
}

/// The first white-space-separated word of `s`: the first item that
/// `str::split_whitespace` yields, or nothing when `s` is blank.
pub open spec fn first_word(s: Seq<char>) -> Seq<char> {
    word_prefix(s.skip(leading_space(s) as int))
}

/// The characters of `t` before its first white space.
pub open spec fn word_prefix(t: Seq<char>) -> Seq<char>
    decreases t.len(),
{
    if t.len() == 0 || is_white_space(t[0]) {
        Seq::empty()
    } else {
        seq![t[0]] + word_prefix(t.drop_first())
    }
}

proof fn lemma_word_prefix(t: Seq<char>, j: int)
    requires
        0 <= j <= t.len(),
        forall|k: int| 0 <= k < j ==> !is_white_space(#[trigger] t[k]),
        j == t.len() || is_white_space(t[j]),
    ensures
        word_prefix(t) == t.take(j),
    decreases j,
{
    if j == 0 {
        assert(t.take(0) =~= Seq::<char>::empty());
    } else {
        lemma_word_prefix(t.drop_first(), j - 1);
        assert(t.take(j) =~= seq![t[0]] + t.drop_first().take(j - 1));
    }
}

/// The first white-space-separated word of `v` (see `first_word`).
pub fn first_word_chars(v: &Vec<char>) -> (r: Vec<char>)
    ensures
        r@ == first_word(v@),
{
    let mut i: usize = 0;
    while i < v.len() && white_space(v[i])
        invariant
            i <= v.len(),
            forall|k: int| 0 <= k < i ==> is_white_space(#[trigger] v@[k]),
        decreases v.len() - i,
    {
        i = i + 1;
    }
    proof {
        lemma_leading_space(v@, i as int);
    }
    let mut j: usize = i;
    while j < v.len() && !white_space(v[j])
        invariant
            i <= j <= v.len(),
            forall|k: int| i <= k < j ==> !is_white_space(#[trigger] v@[k]),
        decreases v.len() - j,
    {
        j = j + 1;
    }
    let r = slice_chars(v, i, j);
    proof {
        let t = v@.skip(i as int);
        assert forall|k: int| 0 <= k < j - i implies !is_white_space(#[trigger] t[k]) by {
            assert(t[k] == v@[i + k]);
        }
        if j < v.len() {
            assert(t[j - i] == v@[j as int]);
        }
        lemma_word_prefix(t, j - i);
        assert(r@ =~= t.take(j - i));
    }
    r
}

/// The parts with `sep` between each two, as `[String]::join` gives them.
pub open spec fn joined(parts: Seq<Seq<char>>, sep: Seq<char>) -> Seq<char>
    decreases parts.len(),
{
    if parts.len() == 0 {
        Seq::empty()
    } else if parts.len() == 1 {
        parts[0]
    } else {
        joined(parts.drop_last(), sep) + sep + parts.last()
    }
}

/// The texts of `parts`.
pub open spec fn texts_of(parts: Seq<String>) -> Seq<Seq<char>> {
    parts.map_values(|p: String| p@)
}

/// The parts with `sep` between each two.
pub fn join_texts(parts: &Vec<String>, sep: &str) -> (r: String)
    ensures
        r@ == joined(texts_of(parts@), sep@),
{
    let sv = chars_of(sep);
    let mut out: Vec<char> = Vec::new();
    let mut k: usize = 0;
    while k < parts.len()
        invariant
            k <= parts.len(),
            sv@ == sep@,
            out@ == joined(texts_of(parts@).take(k as int), sep@),
        decreases parts.len() - k,
    {
        let piece = chars_of(parts[k].as_str());
        let ghost before = texts_of(parts@).take(k as int);
        proof {
            assert(texts_of(parts@).take(k + 1).drop_last() =~= before);
            assert(texts_of(parts@).take(k + 1).last() == parts@[k as int]@);
        }
        if k == 0 {
            out = piece;
            assert(texts_of(parts@).take(1)[0] == parts@[0]@);
        } else {
            out = concat_chars(&concat_chars(&out, &sv), &piece);
        }
        k = k + 1;
    }
    assert(texts_of(parts@).take(k as int) =~= texts_of(parts@));
    string_of(&out)
}

/// `a` followed by `b`.
pub fn cat(a: &str, b: &str) -> (r: String)
    ensures
        r@ == a@ + b@,
{
    string_of(&concat_chars(&chars_of(a), &chars_of(b)))
}

/// `a` followed by `b`.
pub fn concat_chars(a: &Vec<char>, b: &Vec<char>) -> (r: Vec<char>)
    ensures
        r@ == a@ + b@,
{
    let mut out: Vec<char> = Vec::new();
    let mut k: usize = 0;
    while k < a.len()
        invariant
            k <= a.len(),
            out@ == a@.take(k as int),
        decreases a.len() - k,
    {
        out.push(a[k]);
        k = k + 1;
    }
    let mut j: usize = 0;
    while j < b.len()
        invariant
            k == a.len(),
            j <= b.len(),
            out@ == a@ + b@.take(j as int),
        decreases b.len() - j,
    {
        out.push(b[j]);
        j = j + 1;
        assert(out@ =~= a@ + b@.take(j as int));
    }
    assert(a@.take(k as int) =~= a@);
    assert(b@.take(j as int) =~= b@);
    out
}

} // verus!
