//! The read-only web viewer: its sign-in tokens, how a request is routed,
//! and the checks on a sign-in request.
use vstd::prelude::*;

use crate::auth::{legacy_hash, legacy_hash_text};
use crate::ids::{new_uuid, uuid_shaped};
use crate::license::{json_text, json_text_member, opt_text};
use crate::text::{
    after_first, ascii_lower, before_first, chars_of, count_char, decimal_chars, decimal_text, find_char,
    parse_i64, parse_u16, parsed_integer, slice_chars, split_pieces, split_progress, starts_with,
    starts_with_chars, str_equal, string_of, trim_chars, trimmed,
};
use vstd::string::StringSliceAdditionalSpecFns;

verus! {

/// The port the viewer listens on unless another is configured.
pub const WEB_PORT: u16 = 8747;

/// How long a sign-in token stays valid, in seconds (twelve hours).
pub const TOKEN_TTL_SECONDS: i64 = 43200;

/// How many history rows the viewer sends when the request names no limit.
pub const DEFAULT_HISTORY_LIMIT: i64 = 30;

// ─── Sign-in tokens ──────────────────────────────────────────────────

/// The tokens of `held` that are still valid at `now` (expiry later than
/// `now`).
pub open spec fn live_tokens(held: Map<Seq<char>, (Seq<char>, int)>, now: int) -> Map<
    Seq<char>,
    (Seq<char>, int),
> {
    Map::new(|t: Seq<char>| held.contains_key(t) && held[t].1 > now, |t: Seq<char>| held[t])
}

/// The user that `token` signs in at `now`: the one it was issued to, while
/// its expiry is later than `now`.
pub open spec fn token_holder(held: Map<Seq<char>, (Seq<char>, int)>, token: Seq<char>, now: int) -> Option<
    Seq<char>,
> {
    if held.contains_key(token) && held[token].1 > now {
        Some(held[token].0)
    } else {
        None
    }
}

/// The viewer's sign-in tokens: for each token, the user it was issued to
/// and the moment (in seconds) at which it expires.
pub struct TokenStore {
    entries: Vec<(String, String, i64)>,
    held: Ghost<Map<Seq<char>, (Seq<char>, int)>>,
}

impl View for TokenStore {
    type V = Map<Seq<char>, (Seq<char>, int)>;

    closed spec fn view(&self) -> Map<Seq<char>, (Seq<char>, int)> {
        self.held@
    }
}

impl TokenStore {
    /// No token appears twice and the entries are exactly the view.
    pub closed spec fn wf(&self) -> bool {
        &&& forall|i: int, j: int|
            0 <= i < j < self.entries@.len() ==> #[trigger] self.entries@[i].0@
                != #[trigger] self.entries@[j].0@
        &&& forall|i: int|
            0 <= i < self.entries@.len() ==> self.held@.contains_key(#[trigger] self.entries@[i].0@)
                && self.held@[self.entries@[i].0@] == (self.entries@[i].1@, self.entries@[i].2 as int)
        &&& forall|t: Seq<char>|
            #[trigger] self.held@.contains_key(t) ==> exists|i: int|
                0 <= i < self.entries@.len() && #[trigger] self.entries@[i].0@ == t
    }

    /// No tokens.
    pub fn new() -> (r: Self)
        ensures
            r.wf(),
            r@ == Map::<Seq<char>, (Seq<char>, int)>::empty(),
    {
        TokenStore { entries: Vec::new(), held: Ghost(Map::empty()) }
    }

    /// Position of `token`'s entry, or the number of entries.
    fn position(&self, token: &str) -> (r: usize)
        ensures
            r <= self.entries@.len(),
            r < self.entries@.len() ==> self.entries@[r as int].0@ == token@,
            r == self.entries@.len() ==> forall|k: int|
                0 <= k < self.entries@.len() ==> #[trigger] self.entries@[k].0@ != token@,
    {
        let mut i: usize = 0;
        while i < self.entries.len()
            invariant
                i <= self.entries@.len(),
                forall|k: int| 0 <= k < i ==> #[trigger] self.entries@[k].0@ != token@,
            decreases self.entries.len() - i,
        {
            if str_equal(self.entries[i].0.as_str(), token) {
                return i;
            }
            i = i + 1;
        }
        i
    }

    /// Records that `token` signs in `user` until `expires`, replacing what
    /// it held before.
    fn put(&mut self, token: String, user: String, expires: i64)
        requires
            old(self).wf(),
        ensures
            final(self).wf(),
            final(self)@ == old(self)@.insert(token@, (user@, expires as int)),
    {
        let p = self.position(token.as_str());
        let ghost old_entries = self.entries@;
        let ghost key = token@;
        let ghost val = (user@, expires as int);
        if p < self.entries.len() {
            self.entries.set(p, (token, user, expires));
        } else {
            self.entries.push((token, user, expires));
        }
        proof {
            self.held = Ghost(self.held@.insert(key, val));
            let p2 = p as int;
            assert(self.entries@[p2].0@ == key);
            assert forall|i: int, j: int|
                0 <= i < j < self.entries@.len() implies #[trigger] self.entries@[i].0@
                != #[trigger] self.entries@[j].0@ by {
                if i != p2 && j != p2 {
                    assert(self.entries@[i] == old_entries[i]);
                    assert(self.entries@[j] == old_entries[j]);
                } else if i == p2 {
                    assert(self.entries@[j] == old_entries[j]);
                } else {
                    assert(self.entries@[i] == old_entries[i]);
                }
            }
            assert forall|i: int| 0 <= i < self.entries@.len() implies self.held@.contains_key(
                #[trigger] self.entries@[i].0@,
            ) && self.held@[self.entries@[i].0@] == (self.entries@[i].1@, self.entries@[i].2 as int) by {
                if i != p2 {
                    assert(self.entries@[i] == old_entries[i]);
                }
            }
            assert forall|t: Seq<char>| #[trigger] self.held@.contains_key(t) implies exists|i: int|
                0 <= i < self.entries@.len() && #[trigger] self.entries@[i].0@ == t by {
                if t == key {
                    assert(self.entries@[p2].0@ == t);
                } else {
                    assert(old(self).held@.contains_key(t));
                    let i = choose|i: int| 0 <= i < old_entries.len() && #[trigger] old_entries[i].0@ == t;
                    assert(i != p2);
                    assert(self.entries@[i] == old_entries[i]);
                }
            }
        }
    }

    /// Issues a fresh token to `user` at `now` (in seconds), valid for
    /// `TOKEN_TTL_SECONDS`.
    pub fn issue_token(&mut self, user: &str, now: i64) -> (r: String)
        requires
            old(self).wf(),
            now <= i64::MAX - TOKEN_TTL_SECONDS,
        ensures
            final(self).wf(),
            uuid_shaped(r@),
            final(self)@ == old(self)@.insert(r@, (user@, now + TOKEN_TTL_SECONDS)),
    {
        let t = new_uuid();
        let copy = t.clone();
        self.put(copy, user.to_string(), now + TOKEN_TTL_SECONDS);
        t
    }

    /// The user that `token` signs in at `now`, after forgetting every token
    /// that has expired by then.
    pub fn check_token(&mut self, token: &str, now: i64) -> (r: Option<String>)
        requires
            old(self).wf(),
        ensures
            final(self).wf(),
            final(self)@ == live_tokens(old(self)@, now as int),
            opt_text(r) == token_holder(old(self)@, token@, now as int),
    {
        let ghost old_entries = self.entries@;
        let ghost old_held = self.held@;
        let mut kept: Vec<(String, String, i64)> = Vec::new();
        let ghost mut origin: Seq<int> = Seq::empty();
        let ghost mut slot: Seq<int> = Seq::empty();
        let n = self.entries.len();
        let mut k: usize = 0;
        while k < n
            invariant
                n == old_entries.len(),
                self.entries@ == old_entries,
                self.held@ == old_held,
                self.wf(),
                k <= n,
                origin.len() == kept@.len(),
                slot.len() == k,
                forall|j: int|
                    0 <= j < kept@.len() ==> 0 <= #[trigger] origin[j] < k && kept@[j]
                        == old_entries[origin[j]] && old_entries[origin[j]].2 > now,
                forall|j1: int, j2: int|
                    0 <= j1 < j2 < kept@.len() ==> #[trigger] origin[j1] < #[trigger] origin[j2],
                forall|i: int|
                    0 <= i < k && old_entries[i].2 > now ==> 0 <= #[trigger] slot[i] < kept@.len()
                        && origin[slot[i]] == i,
            decreases n - k,
        {
            let e = (self.entries[k].0.clone(), self.entries[k].1.clone(), self.entries[k].2);
            proof {
                assert(e == old_entries[k as int]);
            }
            if e.2 > now {
                kept.push(e);
                proof {
                    slot = slot.push(origin.len() as int);
                    origin = origin.push(k as int);
                }
            } else {
                proof {
                    slot = slot.push(-1);
                }
            }
            k = k + 1;
        }
        proof {
            assert forall|j1: int, j2: int|
                0 <= j1 < j2 < kept@.len() implies #[trigger] kept@[j1].0@ != #[trigger] kept@[j2].0@ by {
                assert(origin[j1] < origin[j2]);
            }
        }
        let ghost new_held = live_tokens(old_held, now as int);
        self.entries = kept;
        proof {
            self.held = Ghost(new_held);
            assert forall|i: int| 0 <= i < self.entries@.len() implies self.held@.contains_key(
                #[trigger] self.entries@[i].0@,
            ) && self.held@[self.entries@[i].0@] == (self.entries@[i].1@, self.entries@[i].2 as int) by {
                let oi = origin[i];
                assert(self.entries@[i] == old_entries[oi]);
                assert(old_held.contains_key(old_entries[oi].0@));
            }
            assert forall|t: Seq<char>| #[trigger] self.held@.contains_key(t) implies exists|i: int|
                0 <= i < self.entries@.len() && #[trigger] self.entries@[i].0@ == t by {
                assert(old_held.contains_key(t));
                let oi = choose|oi: int| 0 <= oi < old_entries.len() && #[trigger] old_entries[oi].0@ == t;
                assert(old_held[old_entries[oi].0@] == (old_entries[oi].1@, old_entries[oi].2 as int));
                let j = slot[oi];
                assert(self.entries@[j] == old_entries[oi]);
                assert(self.entries@[j].0@ == t);
            }
            assert(self@ =~= new_held);
        }
        let p = self.position(token);
        if p < self.entries.len() {
            proof {
                assert(self.held@.contains_key(self.entries@[p as int].0@));
            }
            Some(self.entries[p].1.clone())
        } else {
            proof {
                if self.held@.contains_key(token@) {
                    let i = choose|i: int| 0 <= i < self.entries@.len() && #[trigger] self.entries@[i].0@ == token@;
                    assert(self.entries@[i].0@ != token@);
                }
            }
            None
        }
    }

    /// Forgets `token`.
    pub fn drop_token(&mut self, token: &str)
        requires
            old(self).wf(),
        ensures
            final(self).wf(),
            final(self)@ == old(self)@.remove(token@),
    {
        let p = self.position(token);
        let ghost old_entries = self.entries@;
        if p < self.entries.len() {
            self.entries.remove(p);
            proof {
                self.held = Ghost(self.held@.remove(token@));
                assert(self.entries@ =~= old_entries.remove(p as int));
                assert forall|i: int, j: int|
                    0 <= i < j < self.entries@.len() implies #[trigger] self.entries@[i].0@
                    != #[trigger] self.entries@[j].0@ by {
                    let oi = if i < p { i } else { i + 1 };
                    let oj = if j < p { j } else { j + 1 };
                    assert(self.entries@[i] == old_entries[oi]);
                    assert(self.entries@[j] == old_entries[oj]);
                }
                assert forall|i: int| 0 <= i < self.entries@.len() implies self.held@.contains_key(
                    #[trigger] self.entries@[i].0@,
                ) && self.held@[self.entries@[i].0@] == (self.entries@[i].1@, self.entries@[i].2 as int) by {
                    let oi = if i < p { i } else { i + 1 };
                    assert(self.entries@[i] == old_entries[oi]);
                    assert(old_entries[oi].0@ != old_entries[p as int].0@);
                }
                assert forall|t: Seq<char>| #[trigger] self.held@.contains_key(t) implies exists|i: int|
                    0 <= i < self.entries@.len() && #[trigger] self.entries@[i].0@ == t by {
                    let oi = choose|oi: int| 0 <= oi < old_entries.len() && #[trigger] old_entries[oi].0@ == t;
                    assert(oi != p);
                    let i = if oi < p { oi } else { oi - 1 };
                    assert(self.entries@[i] == old_entries[oi]);
                }
            }
        } else {
            proof {
                assert(!self.held@.contains_key(token@)) by {
                    if self.held@.contains_key(token@) {
                        let i = choose|i: int| 0 <= i < self.entries@.len() && #[trigger] self.entries@[i].0@ == token@;
                        assert(self.entries@[i].0@ != token@);
                    }
                }
                assert(self.held@.remove(token@) =~= self.held@);
            }
        }
    }
}

/// A token issued at `issued` signs its user in at any `now` before it
/// expires, `TOKEN_TTL_SECONDS` later.
pub proof fn law_issued_token_signs_in(
    held: Map<Seq<char>, (Seq<char>, int)>,
    token: Seq<char>,
    user: Seq<char>,
    issued: int,
    now: int,
)
    requires
        issued <= now < issued + TOKEN_TTL_SECONDS,
    ensures
        token_holder(held.insert(token, (user, issued + TOKEN_TTL_SECONDS)), token, now) == Some(user),
{
}

/// From `TOKEN_TTL_SECONDS` after it was issued on, a token signs no one in.
pub proof fn law_token_expires(
    held: Map<Seq<char>, (Seq<char>, int)>,
    token: Seq<char>,
    user: Seq<char>,
    issued: int,
    now: int,
)
    requires
        now >= issued + TOKEN_TTL_SECONDS,
    ensures
        token_holder(held.insert(token, (user, issued + TOKEN_TTL_SECONDS)), token, now) is None,
{
}

/// A token that was dropped (signed out) signs no one in.
pub proof fn law_dropped_token_signs_in_no_one(held: Map<Seq<char>, (Seq<char>, int)>, token: Seq<char>, now: int)
    ensures
        token_holder(held.remove(token), token, now) is None,
{
}

/// Forgetting the tokens that expired by `now` changes no answer given at
/// `now` or later.
pub proof fn law_forgetting_expired_tokens_changes_nothing(
    held: Map<Seq<char>, (Seq<char>, int)>,
    token: Seq<char>,
    now: int,
    later: int,
)
    requires
        now <= later,
    ensures
        token_holder(live_tokens(held, now), token, later) == token_holder(held, token, later),
{
}

// ─── Requests ────────────────────────────────────────────────────────

/// What a request's URL asks for: the viewer page, the API, or nothing
/// known.
#[derive(Clone, Copy, Debug, PartialEq, Eq)]
pub enum Page {
    Index,
    Api,
    NotFound,
}

/// The page for `url`: the viewer for `/`, `/index.html` and anything
/// under `/web`, the API for anything under `/api/`.
pub open spec fn page_of(url: Seq<char>) -> Page {
    if url == "/"@ || url == "/index.html"@ || starts_with(url, "/web"@) {
        Page::Index
    } else if starts_with(url, "/api/"@) {
        Page::Api
    } else {
        Page::NotFound
    }
}

/// The page that `url` asks for (see `page_of`).
pub fn page_for(url: &str) -> (r: Page)
    ensures
        r == page_of(url@),
{
    let v = chars_of(url);
    if str_equal(url, "/") || str_equal(url, "/index.html") || starts_with_chars(&v, &chars_of("/web")) {
        Page::Index
    } else if starts_with_chars(&v, &chars_of("/api/")) {
        Page::Api
    } else {
        Page::NotFound
    }
}

/// A request's HTTP method, as far as the viewer tells them apart.
#[derive(Clone, Copy, Debug, PartialEq, Eq, Structural)]
pub enum Method {
    Get,
    Post,
    Options,
    Other,
}

/// What an API request asks for.
#[derive(Clone, Copy, Debug, PartialEq, Eq)]
pub enum ApiRoute {
    /// A CORS preflight, answered with no content.
    Preflight,
    Ping,
    Login,
    Logout,
    Overview,
    Drinks,
    /// The history, with the number of rows to send.
    History(i64),
    NotFound,
}

/// The query of `url`: the second piece of `split('?')`, or nothing.
pub open spec fn query_of(url: Seq<char>) -> Seq<char> {
    if count_char(url, '?') == 0 {
        Seq::empty()
    } else {
        before_first(after_first(url, '?'), '?')
    }
}

/// The value of the first `&`-separated piece that starts with `limit=`.
pub open spec fn first_limit(pieces: Seq<Seq<char>>) -> Option<Seq<char>>
    decreases pieces.len(),
{
    if pieces.len() == 0 {
        None
    } else if starts_with(pieces[0], "limit="@) {
        Some(pieces[0].skip(6))
    } else {
        first_limit(pieces.drop_first())
    }
}

/// The number of history rows a query asks for: the first `limit=` value
/// read as an `i64`, or `DEFAULT_HISTORY_LIMIT` when there is none or it
/// does not read.
pub open spec fn history_limit_of(query: Seq<char>) -> int {
    match first_limit(split_pieces(query, '&')) {
        Some(v) => match parsed_integer(v, true, i64::MIN as int, i64::MAX as int) {
            Some(n) => n,
            None => DEFAULT_HISTORY_LIMIT as int,
        },
        None => DEFAULT_HISTORY_LIMIT as int,
    }
}

/// The route of an API request with `method` and `url`: preflight for any
/// `OPTIONS`; otherwise by method and the path before `?`.
pub open spec fn api_route_of(method: Method, url: Seq<char>) -> ApiRoute {
    let path = before_first(url, '?');
    if method == Method::Options {
        ApiRoute::Preflight
    } else if method == Method::Get && path == "/api/ping"@ {
        ApiRoute::Ping
    } else if method == Method::Post && path == "/api/login"@ {
        ApiRoute::Login
    } else if method == Method::Post && path == "/api/logout"@ {
        ApiRoute::Logout
    } else if method == Method::Get && path == "/api/overview"@ {
        ApiRoute::Overview
    } else if method == Method::Get && path == "/api/drinks"@ {
        ApiRoute::Drinks
    } else if method == Method::Get && path == "/api/history"@ {
        ApiRoute::History(history_limit_of(query_of(url)) as i64)
    } else {
        ApiRoute::NotFound
    }
}

proof fn lemma_first_limit_push(pieces: Seq<Seq<char>>, p: Seq<char>)
    ensures
        first_limit(pieces.push(p)) == match first_limit(pieces) {
            Some(v) => Some(v),
            None => if starts_with(p, "limit="@) {
                Some(p.skip(6))
            } else {
                None
            },
        },
    decreases pieces.len(),
{
    if pieces.len() > 0 {
        assert(pieces.push(p).drop_first() =~= pieces.drop_first().push(p));
        assert(pieces.push(p)[0] == pieces[0]);
        lemma_first_limit_push(pieces.drop_first(), p);
    } else {
        assert(pieces.push(p).drop_first() =~= Seq::<Seq<char>>::empty());
        assert(pieces.push(p)[0] == p);
        assert(first_limit(Seq::<Seq<char>>::empty()) is None);
        assert(first_limit(pieces) is None);
    }
}

/// The number of history rows that `query` asks for (see
/// `history_limit_of`).
pub fn history_limit(query: &Vec<char>) -> (r: i64)
    ensures
        r == history_limit_of(query@),
{
    proof {
        reveal_strlit("limit=");
    }
    let prefix = chars_of("limit=");
    let ghost mut done: Seq<Seq<char>> = Seq::empty();
    let mut cur: Vec<char> = Vec::new();
    let mut found: Option<Vec<char>> = None;
    let mut i: usize = 0;
    while i < query.len()
        invariant
            i <= query.len(),
            prefix@ == "limit="@,
            prefix@.len() == 6,
            split_progress(query@.take(i as int), '&') == (done, cur@),
            match found {
                Some(v) => first_limit(done) == Some(v@),
                None => first_limit(done) is None,
            },
        decreases query.len() - i,
    {
        assert(query@.take(i + 1).drop_last() =~= query@.take(i as int));
        if query[i] == '&' {
            proof {
                lemma_first_limit_push(done, cur@);
            }
            if found.is_none() && starts_with_chars(&cur, &prefix) {
                let rest = slice_chars(&cur, 6, cur.len());
                assert(rest@ =~= cur@.skip(6));
                found = Some(rest);
            }
            proof {
                done = done.push(cur@);
            }
            cur = Vec::new();
        } else {
            cur.push(query[i]);
        }
        i = i + 1;
    }
    assert(query@.take(i as int) =~= query@);
    proof {
        lemma_first_limit_push(done, cur@);
    }
    if found.is_none() && starts_with_chars(&cur, &prefix) {
        let rest = slice_chars(&cur, 6, cur.len());
        assert(rest@ =~= cur@.skip(6));
        found = Some(rest);
    }
    match found {
        Some(v) => match parse_i64(&v) {
            Some(n) => n,
            None => DEFAULT_HISTORY_LIMIT,
        },
        None => DEFAULT_HISTORY_LIMIT,
    }
}

/// The route of an API request (see `api_route_of`).
pub fn api_route(method: Method, url: &str) -> (r: ApiRoute)
    ensures
        r == api_route_of(method, url@),
{
    if method == Method::Options {
        return ApiRoute::Preflight;
    }
    let v = chars_of(url);
    let q = find_char(&v, '?');
    let path_chars = slice_chars(&v, 0, q);
    assert(path_chars@ =~= v@.take(q as int));
    let path = string_of(&path_chars);
    let p = path.as_str();
    if method == Method::Get && str_equal(p, "/api/ping") {
        ApiRoute::Ping
    } else if method == Method::Post && str_equal(p, "/api/login") {
        ApiRoute::Login
    } else if method == Method::Post && str_equal(p, "/api/logout") {
        ApiRoute::Logout
    } else if method == Method::Get && str_equal(p, "/api/overview") {
        ApiRoute::Overview
    } else if method == Method::Get && str_equal(p, "/api/drinks") {
        ApiRoute::Drinks
    } else if method == Method::Get && str_equal(p, "/api/history") {
        let query = if q < v.len() {
            let rest = slice_chars(&v, q + 1, v.len());
            assert(rest@ =~= v@.skip(q + 1));
            let e = find_char(&rest, '?');
            let qc = slice_chars(&rest, 0, e);
            assert(qc@ =~= rest@.take(e as int));
            qc
        } else {
            Vec::new()
        };
        assert(query@ =~= query_of(url@));
        ApiRoute::History(history_limit(&query))
    } else {
        ApiRoute::NotFound
    }
}

/// The token that an `Authorization` header's value carries: what follows
/// `Bearer `, trimmed.
pub open spec fn bearer_of(value: Seq<char>) -> Option<Seq<char>> {
    if starts_with(value, "Bearer "@) {
        Some(trimmed(value.skip(7)))
    } else {
        None
    }
}

/// The token that an `Authorization` header's value carries, if any.
pub fn bearer_token(value: &str) -> (r: Option<String>)
    ensures
        opt_text(r) == bearer_of(value@),
{
    proof {
        reveal_strlit("Bearer ");
    }
    let v = chars_of(value);
    if starts_with_chars(&v, &chars_of("Bearer ")) {
        let rest = slice_chars(&v, 7, v.len());
        assert(rest@ =~= value@.skip(7));
        Some(string_of(&trim_chars(&rest)))
    } else {
        None
    }
}

/// Whether a header's name is `Authorization`, in any ASCII case.
pub open spec fn is_authorization_name(name: Seq<char>) -> bool {
    name.len() == 13 && forall|i: int| 0 <= i < 13 ==> ascii_lower(#[trigger] name[i]) == "authorization"@[i]
}

/// Whether a header's name is `Authorization`, in any ASCII case.
pub fn is_authorization_header(name: &str) -> (r: bool)
    ensures
        r == is_authorization_name(name@),
{
    proof {
        reveal_strlit("authorization");
    }
    let v = chars_of(name);
    let want = chars_of("authorization");
    if v.len() != 13 {
        return false;
    }
    let mut i: usize = 0;
    while i < 13
        invariant
            v@ == name@,
            v@.len() == 13,
            want@ == "authorization"@,
            want@.len() == 13,
            i <= 13,
            forall|k: int| 0 <= k < i ==> ascii_lower(#[trigger] v@[k]) == want@[k],
        decreases 13 - i,
    {
        let c = v[i];
        let lc = if 'A' <= c && c <= 'Z' {
            ((c as u8) + 32) as char
        } else {
            c
        };
        assert(lc == ascii_lower(c));
        if lc != want[i] {
            return false;
        }
        i = i + 1;
    }
    true
}

// ─── Sign-in ─────────────────────────────────────────────────────────

/// An answer other than success: its HTTP status and error text.
#[derive(Clone, Debug)]
pub struct WebRefusal {
    pub status: u16,
    pub error: String,
}

/// The user name and password that a sign-in body carries: its JSON
/// members `username` (trimmed) and `password`, each empty when absent or
/// not a string.
pub open spec fn login_fields_of(body: Seq<u8>) -> (Seq<char>, Seq<char>) {
    let u = match json_text_member(body, "username"@) {
        Some(t) => trimmed(t),
        None => Seq::empty(),
    };
    let p = match json_text_member(body, "password"@) {
        Some(t) => t,
        None => Seq::empty(),
    };
    (u, p)
}

/// Reads a sign-in body; refused with status 400 when the user name or the
/// password is empty.
pub fn login_request(body: &str) -> (r: Result<(String, String), WebRefusal>)
    ensures
        ({
            let (u, p) = login_fields_of(body.spec_bytes());
            &&& (r is Ok <==> (u.len() > 0 && p.len() > 0))
            &&& r matches Ok(f) ==> f.0@ == u && f.1@ == p
            &&& r matches Err(e) ==> e.status == 400 && e.error@ == "Kullanıcı adı ve şifre gerekli"@
        }),
{
    let bytes = body.as_bytes();
    let user = match json_text(bytes, "username") {
        Some(t) => string_of(&trim_chars(&chars_of(t.as_str()))),
        None => String::new(),
    };
    let password = match json_text(bytes, "password") {
        Some(t) => t,
        None => String::new(),
    };
    if user.as_str().is_empty() || password.as_str().is_empty() {
        return Err(WebRefusal { status: 400, error: "Kullanıcı adı ve şifre gerekli".to_string() });
    }
    Ok((user, password))
}

/// Checks a found user's sign-in to the viewer: refused with 403 when the
/// user is not active, with 401 when the stored hash is not the salted
/// SHA-256 hash of the password. The viewer knows only these older hashes:
/// an active user whose stored hash is an Argon2 PHC string (as every hash
/// that `make_hash` gives, the seeded administrator's among them) is
/// refused with 401 whatever the password.
pub fn login_check(active: i64, stored_hash: &str, password: &str) -> (r: Result<(), WebRefusal>)
    ensures
        active == 1 && starts_with(stored_hash@, "$argon2"@) ==> (r matches Err(e) && e.status
            == 401),
        active != 1 ==> (r matches Err(e) && e.status == 403 && e.error@ == "Kullanıcı pasif"@),
        active == 1 && stored_hash@ != legacy_hash_text(password@) ==> (r matches Err(e) && e.status
            == 401 && e.error@ == "Yanlış şifre"@),
        active == 1 && stored_hash@ == legacy_hash_text(password@) ==> r is Ok,
{
    if active != 1 {
        return Err(WebRefusal { status: 403, error: "Kullanıcı pasif".to_string() });
    }
    let h = legacy_hash(password);
    proof {
        crate::auth::lemma_hex_is_not_argon2(
            crate::crypto::sha256_digest(
                vstd::utf8::encode_utf8(crate::auth::LEGACY_SALT@) + vstd::utf8::encode_utf8(password@),
            ),
        );
    }
    if !str_equal(stored_hash, h.as_str()) {
        return Err(WebRefusal { status: 401, error: "Yanlış şifre".to_string() });
    }
    Ok(())
}

// ─── Where the viewer listens ────────────────────────────────────────

/// The port for a configured value: the value read as a `u16`, or
/// `WEB_PORT` when there is none or it does not read.
pub open spec fn port_of(configured: Option<Seq<char>>) -> int {
    match configured {
        Some(v) => match parsed_integer(v, false, 0, u16::MAX as int) {
            Some(p) => p,
            None => WEB_PORT as int,
        },
        None => WEB_PORT as int,
    }
}

/// The port for a configured value (see `port_of`).
pub fn port_setting(configured: Option<&str>) -> (r: u16)
    ensures
        r == port_of(crate::billing::opt_view(configured)),
{
    match configured {
        Some(v) => match parse_u16(&chars_of(v)) {
            Some(p) => p,
            None => WEB_PORT,
        },
        None => WEB_PORT,
    }
}

/// The viewer's addresses on this machine and on the local network: the
/// second is empty when the machine's network address is not known.
pub fn web_urls(ip: &str, port: u16) -> (r: (String, String))
    ensures
        r.0@ == "http://127.0.0.1:"@ + decimal_text(port as int),
        ip@.len() == 0 ==> r.1@.len() == 0,
        ip@.len() > 0 ==> r.1@ == "http://"@ + ip@ + seq![':'] + decimal_text(port as int),
{
    let digits = decimal_chars(port as i64);
    let mut local = chars_of("http://127.0.0.1:");
    let ghost l0 = local@;
    let mut k: usize = 0;
    while k < digits.len()
        invariant
            k <= digits.len(),
            local@ == l0 + digits@.take(k as int),
        decreases digits.len() - k,
    {
        local.push(digits[k]);
        k = k + 1;
        assert(local@ =~= l0 + digits@.take(k as int));
    }
    assert(digits@.take(k as int) =~= digits@);
    let ipc = chars_of(ip);
    if ipc.len() == 0 {
        return (string_of(&local), String::new());
    }
    let mut lan = chars_of("http://");
    let ghost a0 = lan@;
    let mut j: usize = 0;
    while j < ipc.len()
        invariant
            j <= ipc.len(),
            lan@ == a0 + ipc@.take(j as int),
        decreases ipc.len() - j,
    {
        lan.push(ipc[j]);
        j = j + 1;
        assert(lan@ =~= a0 + ipc@.take(j as int));
    }
    assert(ipc@.take(j as int) =~= ipc@);
    lan.push(':');
    let ghost a1 = lan@;
    let mut m: usize = 0;
    while m < digits.len()
        invariant
            m <= digits.len(),
            lan@ == a1 + digits@.take(m as int),
        decreases digits.len() - m,
    {
        lan.push(digits[m]);
        m = m + 1;
        assert(lan@ =~= a1 + digits@.take(m as int));
    }
    assert(digits@.take(m as int) =~= digits@);
    (string_of(&local), string_of(&lan))
}

} // verus!
