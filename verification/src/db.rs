//! Where the application keeps its files, how the database schema is
//! brought up to date, and which old backups are cleared away.
use vstd::prelude::*;
use vstd::set_lib::{lemma_int_range, set_int_range};

use crate::text::{
    lemma_text_lt_irreflexive, lemma_text_lt_total, lemma_text_lt_transitive, cat, chars_of, find_char, first_word, first_word_chars, same_chars, slice_chars, str_equal, string_of,
    text_less, text_lt,
};

verus! {

/// The directory under the user's local data directory that holds the
/// application's files.
pub const APP_DIR_NAME: &'static str = "oyun-kafe-yonetim";

/// The database file's name.
pub const DB_FILE_NAME: &'static str = "database.sqlite";

/// The cloud mirror's settings file's name.
pub const SYNC_CONFIG_FILE_NAME: &'static str = "supabase.json";

/// The version the schema is brought to.
pub const SCHEMA_VERSION: i64 = 3;

/// How many of the newest backups are kept.
pub const BACKUPS_KEPT: usize = 30;

// ─── Paths ───────────────────────────────────────────────────────────

/// Whether `name` is a plain file or directory name: not empty and with no
/// path separator, drive colon or leading dot.
pub open spec fn plain_name(name: Seq<char>) -> bool {
    &&& name.len() > 0
    &&& name[0] != '.'
    &&& forall|i: int| 0 <= i < name.len() ==> #[trigger] name[i] != '/' && name[i] != '\\' && name[i] != ':'
}

/// Whether `dir` begins with a verbatim prefix (`\\?\`), under which
/// Windows paths are taken literally.
pub open spec fn verbatim(dir: Seq<char>) -> bool {
    dir.len() >= 4 && dir[0] == '\\' && dir[1] == '\\' && dir[2] == '?' && dir[3] == '\\'
}

/// Whether `dir` ends in a path separator.
pub open spec fn ends_in_separator(dir: Seq<char>) -> bool {
    dir.len() > 0 && (dir.last() == '/' || dir.last() == '\\')
}

/// Whether `dir` is a bare drive such as `C:`, which names the current
/// directory of that drive on Windows.
pub open spec fn bare_drive(dir: Seq<char>) -> bool {
    &&& dir.len() == 2
    &&& dir[1] == ':'
    &&& ('a' <= dir[0] <= 'z' || 'A' <= dir[0] <= 'Z')
}

/// What joining the plain name `name` to the directory `dir` gives: one
/// separator between the two (`/`, or `\` on Windows), except where `dir`
/// is empty, already ends in a separator, or is a bare drive; there the
/// two are put together as they are.
pub open spec fn joined_path(dir: Seq<char>, name: Seq<char>, r: Seq<char>) -> bool {
    ||| dir.len() > 0 && dir.last() != '/' && r == dir + seq!['/'] + name
    ||| dir.len() > 0 && !ends_in_separator(dir) && !bare_drive(dir) && r == dir + seq!['\\']
        + name
    ||| (dir.len() == 0 || ends_in_separator(dir) || bare_drive(dir)) && r == dir + name
}

/// Whether `r` ends in `name` with a path separator just before it: the
/// last part of the path `r` is `name`.
pub open spec fn ends_in_part(r: Seq<char>, name: Seq<char>) -> bool {
    let k = r.len() - name.len();
    &&& k >= 1
    &&& (r[k - 1] == '/' || r[k - 1] == '\\')
    &&& r.skip(k) == name
}

proof fn lemma_joined_ends_in_part(dir: Seq<char>, name: Seq<char>, r: Seq<char>)
    requires
        joined_path(dir, name, r),
        dir.len() > 0,
        !bare_drive(dir),
    ensures
        ends_in_part(r, name),
{
    let k = r.len() - name.len();
    if r == dir + seq!['/'] + name || r == dir + seq!['\\'] + name {
        assert(k == dir.len() + 1);
        assert(r.skip(k) =~= name);
    } else {
        assert(k == dir.len());
        assert(r[k - 1] == dir.last());
        assert(r.skip(k) =~= name);
    }
}

/// Calls `std::path::Path::join` and `to_string_lossy` (lossless here, as
/// both parts are UTF-8). `PathBuf::push` adds the platform's separator
/// after a directory that is not empty and does not end in one (on Windows
/// neither after a bare drive such as `C:`), then the relative name. Under
/// a Windows verbatim prefix (`\\?\`) the standard library rebuilds the
/// directory part in normalized form (removing `.` and `..` parts, as it
/// documents) before it adds the name after a separator; there only that
/// the name comes last, after a separator, is stated.
#[verifier::external_body]
fn path_join(dir: &str, name: &str) -> (r: String)
    requires
        plain_name(name@),
    ensures
        !verbatim(dir@) ==> joined_path(dir@, name@, r@),
        verbatim(dir@) ==> ends_in_part(r@, name@),
{
    std::path::Path::new(dir).join(name).to_string_lossy().into_owned()
}

/// The application's data directory under the user's local data
/// directory `base`, or under the working directory when there is none.
pub fn get_data_dir(base: Option<&str>) -> (r: String)
    ensures
        ({
            let dir = match base {
                Some(b) => b@,
                None => "."@,
            };
            &&& !verbatim(dir) ==> joined_path(dir, APP_DIR_NAME@, r@)
            &&& dir.len() > 0 && !bare_drive(dir) ==> ends_in_part(r@, APP_DIR_NAME@)
        }),
{
    proof {
        reveal_strlit("oyun-kafe-yonetim");
    }
    let b = match base {
        Some(b) => b,
        None => ".",
    };
    let r = path_join(b, APP_DIR_NAME);
    proof {
        if !verbatim(b@) && b@.len() > 0 && !bare_drive(b@) {
            lemma_joined_ends_in_part(b@, APP_DIR_NAME@, r@);
        }
    }
    r
}

/// The database file in the data directory.
pub fn get_db_path(data_dir: &str) -> (r: String)
    ensures
        !verbatim(data_dir@) ==> joined_path(data_dir@, DB_FILE_NAME@, r@),
        data_dir@.len() > 0 && !bare_drive(data_dir@) ==> ends_in_part(r@, DB_FILE_NAME@),
{
    proof {
        reveal_strlit("database.sqlite");
    }
    let r = path_join(data_dir, DB_FILE_NAME);
    proof {
        if !verbatim(data_dir@) && data_dir@.len() > 0 && !bare_drive(data_dir@) {
            lemma_joined_ends_in_part(data_dir@, DB_FILE_NAME@, r@);
        }
    }
    r
}

/// The cloud mirror's settings file in the data directory.
pub fn config_path(data_dir: &str) -> (r: String)
    ensures
        !verbatim(data_dir@) ==> joined_path(data_dir@, SYNC_CONFIG_FILE_NAME@, r@),
        data_dir@.len() > 0 && !bare_drive(data_dir@) ==> ends_in_part(r@, SYNC_CONFIG_FILE_NAME@),
{
    proof {
        reveal_strlit("supabase.json");
    }
    let r = path_join(data_dir, SYNC_CONFIG_FILE_NAME);
    proof {
        if !verbatim(data_dir@) && data_dir@.len() > 0 && !bare_drive(data_dir@) {
            lemma_joined_ends_in_part(data_dir@, SYNC_CONFIG_FILE_NAME@, r@);
        }
    }
    r
}

// ─── Schema upgrades ─────────────────────────────────────────────────

/// The name of the column that a column definition adds: its first word.
pub fn column_name(definition: &str) -> (r: String)
    ensures
        r@ == first_word(definition@),
{
    string_of(&first_word_chars(&chars_of(definition)))
}

/// The statement that lists the columns of `table`.
pub fn table_info_sql(table: &str) -> (r: String)
    ensures
        r@ == "PRAGMA table_info("@ + table@ + ")"@,
{
    let a = cat("PRAGMA table_info(", table);
    cat(a.as_str(), ")")
}

/// The statement that adds the column `definition` to `table`.
pub fn add_column_sql(table: &str, definition: &str) -> (r: String)
    ensures
        r@ == "ALTER TABLE "@ + table@ + " ADD COLUMN "@ + definition@ + ";"@,
{
    let a = cat("ALTER TABLE ", table);
    let b = cat(a.as_str(), " ADD COLUMN ");
    let c = cat(b.as_str(), definition);
    cat(c.as_str(), ";")
}

/// The versioned upgrades that a database at `current` still needs.
#[derive(Clone, Copy, Debug, PartialEq, Eq)]
pub struct MigrationPlan {
    /// Version 1: passwords move to Argon2 (only the version is recorded).
    pub mark_argon2: bool,
    /// Version 2: the campaign, package and promotion tables are dropped.
    pub drop_discount_tables: bool,
    /// Version 3: VIP stations become standard, the VIP rate and the shift
    /// table go.
    pub drop_vip_and_shifts: bool,
}

/// The upgrades from version `current`: each one whose version is above it.
pub fn migration_plan(current: i64) -> (r: MigrationPlan)
    ensures
        r.mark_argon2 == (current < 1),
        r.drop_discount_tables == (current < 2),
        r.drop_vip_and_shifts == (current < SCHEMA_VERSION),
{
    MigrationPlan {
        mark_argon2: current < 1,
        drop_discount_tables: current < 2,
        drop_vip_and_shifts: current < SCHEMA_VERSION,
    }
}

// ─── Backups ─────────────────────────────────────────────────────────

/// Whether a file name has the extension `sqlite`, as `Path::extension`
/// reads it: the text after the last dot, where that dot is not the first
/// character.
pub open spec fn has_sqlite_extension(name: Seq<char>) -> bool {
    exists|i: int|
        0 < i < name.len() && name[i] == '.' && name.skip(i + 1) == "sqlite"@ && forall|k: int|
            i < k < name.len() ==> #[trigger] name[k] != '.'
}

/// Whether a file name has the extension `sqlite` (see
/// `has_sqlite_extension`).
pub fn is_backup_file(name: &str) -> (r: bool)
    ensures
        r == has_sqlite_extension(name@),
{
    proof {
        reveal_strlit("sqlite");
    }
    let v = chars_of(name);
    let mut i: usize = v.len();
    while i > 0 && v[i - 1] != '.'
        invariant
            i <= v.len(),
            forall|k: int| i <= k < v.len() ==> #[trigger] v@[k] != '.',
        decreases i,
    {
        i = i - 1;
    }
    if i <= 1 {
        proof {
            if has_sqlite_extension(name@) {
                let j = choose|j: int|
                    0 < j < name@.len() && name@[j] == '.' && name@.skip(j + 1) == "sqlite"@ && forall|k: int|
                        j < k < name@.len() ==> #[trigger] name@[k] != '.';
                if i == 1 {
                    assert(v@[0] == '.');
                }
                assert(j >= i);
                assert(v@[j] != '.');
            }
        }
        return false;
    }
    let dot = i - 1;
    let ext = slice_chars(&v, dot + 1, v.len());
    let r = str_equal(string_of(&ext).as_str(), "sqlite");
    proof {
        assert(ext@ =~= name@.skip(dot + 1));
        if has_sqlite_extension(name@) {
            let j = choose|j: int|
                0 < j < name@.len() && name@[j] == '.' && name@.skip(j + 1) == "sqlite"@ && forall|k: int|
                    j < k < name@.len() ==> #[trigger] name@[k] != '.';
            if j < dot {
                assert(name@[dot as int] == '.');
            }
            if j > dot {
                assert(v@[j] != '.');
            }
            assert(j == dot);
        }
    }
    r
}

/// Whether `names[j]` comes before `names[i]` when the names are sorted
/// newest (greatest name) first, equal names keeping their order.
pub open spec fn is_ahead(names: Seq<Seq<char>>, j: int, i: int) -> bool {
    text_lt(names[i], names[j]) || (names[j] == names[i] && j < i)
}

/// How many of `names` come before `names[i]` in that order.
pub open spec fn rank_of(names: Seq<Seq<char>>, i: int) -> nat {
    names_ahead(names, i, names.len() as int)
}

/// The part of `rank_of(names, i)` that the first `upto` names make up.
pub open spec fn names_ahead(names: Seq<Seq<char>>, i: int, upto: int) -> nat
    decreases upto,
{
    if upto <= 0 {
        0
    } else {
        names_ahead(names, i, upto - 1) + if is_ahead(names, upto - 1, i) {
            1nat
        } else {
            0nat
        }
    }
}

/// The backups among the first `upto` names that are cleared: those with at
/// least `BACKUPS_KEPT` names ahead of them, in their order.
pub open spec fn cleared_upto(names: Seq<Seq<char>>, upto: int) -> Seq<Seq<char>>
    decreases upto,
{
    if upto <= 0 {
        Seq::empty()
    } else {
        let rest = cleared_upto(names, upto - 1);
        if rank_of(names, upto - 1) >= BACKUPS_KEPT {
            rest.push(names[upto - 1])
        } else {
            rest
        }
    }
}

/// The backup files to remove so that only the `BACKUPS_KEPT` newest remain,
/// newest meaning greatest name: every name with at least `BACKUPS_KEPT`
/// names ahead of it in that order (see `rank_of`), in the given order.
pub fn backups_to_remove(names: &Vec<String>) -> (r: Vec<String>)
    ensures
        crate::text::texts_of(r@) == cleared_upto(crate::text::texts_of(names@), names@.len() as int),
{
    let ghost ns = crate::text::texts_of(names@);
    let mut chars: Vec<Vec<char>> = Vec::new();
    let mut q: usize = 0;
    while q < names.len()
        invariant
            q <= names.len(),
            ns == crate::text::texts_of(names@),
            chars@.len() == q,
            forall|k: int| 0 <= k < q ==> #[trigger] chars@[k]@ == ns[k],
        decreases names.len() - q,
    {
        chars.push(chars_of(names[q].as_str()));
        q = q + 1;
    }
    let n = names.len();
    let mut out: Vec<String> = Vec::new();
    let mut i: usize = 0;
    while i < n
        invariant
            n == names.len(),
            ns == crate::text::texts_of(names@),
            chars@.len() == n,
            forall|k: int| 0 <= k < n ==> #[trigger] chars@[k]@ == ns[k],
            i <= n,
            crate::text::texts_of(out@) == cleared_upto(ns, i as int),
        decreases n - i,
    {
        let mut ahead: usize = 0;
        let mut j: usize = 0;
        while j < n
            invariant
                n == names.len(),
                chars@.len() == n,
                forall|k: int| 0 <= k < n ==> #[trigger] chars@[k]@ == ns[k],
                i < n,
                j <= n,
                ahead == names_ahead(ns, i as int, j as int),
                ahead <= j,
            decreases n - j,
        {
            let counts = text_less(&chars[i], &chars[j]) || (j < i && same_chars(&chars[j], &chars[i]));
            assert(counts == is_ahead(ns, j as int, i as int));
            if counts {
                ahead = ahead + 1;
            }
            j = j + 1;
        }
        let ghost before = out@;
        if ahead >= BACKUPS_KEPT {
            out.push(names[i].clone());
            proof {
                assert(crate::text::texts_of(out@) =~= crate::text::texts_of(before).push(ns[i as int]));
            }
        }
        i = i + 1;
    }
    out
}

proof fn lemma_ahead_order(names: Seq<Seq<char>>, i: int, j: int, k: int)
    requires
        0 <= i < names.len(),
        0 <= j < names.len(),
        0 <= k < names.len(),
    ensures
        !is_ahead(names, i, i),
        i != j ==> (is_ahead(names, i, j) || is_ahead(names, j, i)),
        !(is_ahead(names, i, j) && is_ahead(names, j, i)),
        is_ahead(names, k, j) && is_ahead(names, j, i) ==> is_ahead(names, k, i),
{
    lemma_text_lt_irreflexive(names[i]);
    lemma_text_lt_total(names[i], names[j]);
    if text_lt(names[i], names[j]) && text_lt(names[j], names[k]) {
        lemma_text_lt_transitive(names[i], names[j], names[k]);
    }
}

proof fn lemma_fewer_ahead(names: Seq<Seq<char>>, i: int, j: int, u: int)
    requires
        0 <= i < names.len(),
        0 <= j < names.len(),
        u <= names.len(),
        is_ahead(names, j, i),
    ensures
        names_ahead(names, j, u) <= names_ahead(names, i, u),
        j < u ==> names_ahead(names, j, u) < names_ahead(names, i, u),
    decreases u,
{
    if u > 0 {
        lemma_fewer_ahead(names, i, j, u - 1);
        lemma_ahead_order(names, i, j, u - 1);
        lemma_ahead_order(names, j, j, u - 1);
    }
}

proof fn lemma_rank_below(names: Seq<Seq<char>>, i: int, u: int)
    requires
        0 <= i < names.len(),
        0 <= u <= names.len(),
    ensures
        names_ahead(names, i, u) <= u,
        i < u ==> names_ahead(names, i, u) < u,
    decreases u,
{
    if u > 0 {
        lemma_rank_below(names, i, u - 1);
        lemma_ahead_order(names, i, i, i);
    }
}

proof fn lemma_cleared_count(names: Seq<Seq<char>>, u: int)
    requires
        0 <= u <= names.len(),
    ensures
        set_int_range(0, u).filter(|i: int| rank_of(names, i) < BACKUPS_KEPT).finite(),
        cleared_upto(names, u).len() + set_int_range(0, u).filter(|i: int| rank_of(names, i) < BACKUPS_KEPT).len() == u,
    decreases u,
{
    let keep = |i: int| rank_of(names, i) < BACKUPS_KEPT;
    lemma_int_range(0, u);
    if u == 0 {
        assert(set_int_range(0, 0).filter(keep) =~= Set::<int>::empty());
    } else {
        lemma_cleared_count(names, u - 1);
        let before = set_int_range(0, u - 1).filter(keep);
        if keep(u - 1) {
            assert(set_int_range(0, u).filter(keep) =~= before.insert(u - 1));
            assert(!before.contains(u - 1));
        } else {
            assert(set_int_range(0, u).filter(keep) =~= before);
        }
    }
}

proof fn lemma_none_ahead(names: Seq<Seq<char>>, i: int, u: int)
    requires
        0 <= i < names.len(),
        0 <= u <= names.len(),
        forall|k: int| 0 <= k < names.len() && k != i ==> text_lt(#[trigger] names[k], names[i]),
    ensures
        names_ahead(names, i, u) == 0,
    decreases u,
{
    if u > 0 {
        lemma_none_ahead(names, i, u - 1);
        let k = u - 1;
        lemma_text_lt_irreflexive(names[i]);
        if k != i {
            lemma_text_lt_irreflexive(names[k]);
            if text_lt(names[i], names[k]) {
                lemma_text_lt_transitive(names[i], names[k], names[i]);
            }
        }
    }
}

proof fn lemma_cleared_from(names: Seq<Seq<char>>, u: int, x: Seq<char>)
    requires
        0 <= u <= names.len(),
        cleared_upto(names, u).contains(x),
    ensures
        exists|k: int| 0 <= k < u && names[k] == x && rank_of(names, k) >= BACKUPS_KEPT,
    decreases u,
{
    if u > 0 {
        let rest = cleared_upto(names, u - 1);
        if rest.contains(x) {
            lemma_cleared_from(names, u - 1, x);
        } else {
            assert(rank_of(names, u - 1) >= BACKUPS_KEPT);
            let all = rest.push(names[u - 1]);
            assert(cleared_upto(names, u) == all);
            let j = choose|j: int| 0 <= j < all.len() && #[trigger] all[j] == x;
            if j < rest.len() {
                assert(rest[j] == x);
            }
            assert(j == rest.len());
            assert(names[u - 1] == x);
        }
    } else {
        assert(cleared_upto(names, u) =~= Seq::<Seq<char>>::empty());
    }
}

/// Which backups are cleared goes by their names, not by where they stand
/// in the list: a greater name always has fewer names ahead of it, so no
/// cleared name is greater than one that stays, and a name greater than
/// every other one is never cleared.
pub proof fn law_backups_cleared_by_name(names: Seq<Seq<char>>, i: int, j: int)
    requires
        0 <= i < names.len(),
        0 <= j < names.len(),
    ensures
        text_lt(names[i], names[j]) ==> rank_of(names, j) < rank_of(names, i),
        rank_of(names, i) >= BACKUPS_KEPT && rank_of(names, j) < BACKUPS_KEPT ==> !text_lt(names[j], names[i]),
        (forall|k: int| 0 <= k < names.len() && k != i ==> text_lt(#[trigger] names[k], names[i])) ==> (
        rank_of(names, i) == 0 && !cleared_upto(names, names.len() as int).contains(names[i])),
{
    let n = names.len() as int;
    if text_lt(names[i], names[j]) {
        lemma_fewer_ahead(names, i, j, n);
    }
    if text_lt(names[j], names[i]) {
        lemma_fewer_ahead(names, j, i, n);
    }
    if forall|k: int| 0 <= k < names.len() && k != i ==> text_lt(#[trigger] names[k], names[i]) {
        lemma_none_ahead(names, i, n);
        if cleared_upto(names, n).contains(names[i]) {
            lemma_cleared_from(names, n, names[i]);
            let k = choose|k: int| 0 <= k < n && names[k] == names[i] && rank_of(names, k) >= BACKUPS_KEPT;
            if k != i {
                lemma_text_lt_irreflexive(names[i]);
            }
        }
    }
}

proof fn lemma_ahead_counts_greater(names: Seq<Seq<char>>, i: int, u: int)
    requires
        0 <= i < names.len(),
        0 <= u <= names.len(),
        forall|a: int, b: int| 0 <= a < b < names.len() ==> names[a] != names[b],
    ensures
        names_ahead(names, i, u) == names.take(u).filter(|x: Seq<char>| text_lt(names[i], x)).len(),
    decreases u,
{
    let greater = |x: Seq<char>| text_lt(names[i], x);
    if u == 0 {
        reveal(Seq::filter);
        assert(names.take(0) =~= Seq::<Seq<char>>::empty());
        assert(names.take(0).filter(greater) =~= Seq::<Seq<char>>::empty());
    } else {
        lemma_ahead_counts_greater(names, i, u - 1);
        assert(names.take(u) =~= names.take(u - 1).push(names[u - 1]));
        names.take(u - 1).lemma_filter_push(names[u - 1], greater);
        lemma_text_lt_irreflexive(names[i]);
    }
}

/// With no name listed twice, the names ahead of a backup are exactly the
/// greater names: how many there are, and so whether the backup is
/// cleared, depends on the names alone and not on the order they are
/// listed in.
pub proof fn law_rank_counts_greater_names(names: Seq<Seq<char>>, i: int)
    requires
        0 <= i < names.len(),
        forall|a: int, b: int| 0 <= a < b < names.len() ==> names[a] != names[b],
    ensures
        rank_of(names, i) == names.filter(|x: Seq<char>| text_lt(names[i], x)).len(),
{
    lemma_ahead_counts_greater(names, i, names.len() as int);
    assert(names.take(names.len() as int) =~= names);
}

/// Clearing old backups leaves the `BACKUPS_KEPT` newest: of `n` backup
/// names, `n - BACKUPS_KEPT` are cleared when there are more than
/// `BACKUPS_KEPT` (none otherwise), and every name that stays comes before
/// every cleared one in newest-first order.
pub proof fn law_newest_backups_stay(names: Seq<Seq<char>>)
    ensures
        cleared_upto(names, names.len() as int).len() == (if names.len() > BACKUPS_KEPT {
            names.len() - BACKUPS_KEPT
        } else {
            0
        }),
        forall|i: int, j: int|
            0 <= i < names.len() && 0 <= j < names.len() && rank_of(names, i) >= BACKUPS_KEPT
                && rank_of(names, j) < BACKUPS_KEPT ==> is_ahead(names, j, i),
{
    let n = names.len() as int;
    let m: int = if n > BACKUPS_KEPT { BACKUPS_KEPT as int } else { n };
    let rank = |i: int| rank_of(names, i) as int;
    let keep = |i: int| rank_of(names, i) < BACKUPS_KEPT;
    let all = set_int_range(0, n);
    lemma_int_range(0, n);
    lemma_int_range(0, m);
    assert forall|i: int, j: int| all.contains(i) && all.contains(j) && i != j implies rank(i) != rank(j) by {
        lemma_ahead_order(names, i, j, i);
        if is_ahead(names, j, i) {
            lemma_fewer_ahead(names, i, j, n);
        } else {
            lemma_fewer_ahead(names, j, i, n);
        }
    }
    assert(vstd::relations::injective_on(rank, all));
    let ranks = all.map(rank);
    vstd::set_lib::lemma_map_size(all, ranks, rank);
    assert forall|r: int| ranks.contains(r) implies set_int_range(0, n).contains(r) by {
        let i = choose|i: int| all.contains(i) && rank(i) == r;
        lemma_rank_below(names, i, n);
    }
    vstd::set_lib::lemma_subset_equality(ranks, set_int_range(0, n));
    let kept = all.filter(keep);
    assert(kept.subset_of(all));
    vstd::set_lib::lemma_set_subset_finite(all, kept);
    assert forall|r: int| #[trigger] kept.map(rank).contains(r) <==> set_int_range(0, m).contains(r) by {
        if set_int_range(0, m).contains(r) {
            assert(ranks.contains(r));
            let i = choose|i: int| all.contains(i) && rank(i) == r;
            assert(kept.contains(i));
        }
        if kept.map(rank).contains(r) {
            let i = choose|i: int| kept.contains(i) && rank(i) == r;
            lemma_rank_below(names, i, n);
        }
    }
    assert(kept.map(rank) =~= set_int_range(0, m));
    vstd::set_lib::lemma_map_size(kept, set_int_range(0, m), rank);
    lemma_cleared_count(names, n);
    assert forall|i: int, j: int|
        0 <= i < n && 0 <= j < n && rank_of(names, i) >= BACKUPS_KEPT && rank_of(names, j)
            < BACKUPS_KEPT implies is_ahead(names, j, i) by {
        lemma_ahead_order(names, i, j, i);
        if i != j && is_ahead(names, i, j) {
            lemma_fewer_ahead(names, j, i, n);
        }
    }
}

} // verus!
