//! The terminal history kept in SQLite: the entry type and the values that
//! the history queries are run with.
use vstd::prelude::*;
use crate::text::{chars_of, push_char, push_str};

verus! {

/// One command of the history, as stored.
#[derive(Debug, Clone)]
pub struct FullEntry {
    pub id: i64,
    pub command: String,
    pub timestamp: i64,
    pub exit_code: Option<i32>,
    pub session_id: String,
}

/// The extension given to a history database that could not be opened,
/// when it is moved aside.
pub const BACKUP_EXTENSION: &'static str = "db.bak";

/// The suffixes of SQLite's write-ahead log and shared-memory files, which
/// are removed with a database that is moved aside.
pub const SIDECAR_SUFFIXES: [&'static str; 2] = ["-wal", "-shm"];

/// Which attempt to open the history database failed.
#[derive(Debug, Clone, Copy, PartialEq, Eq, Structural)]
pub enum OpenAttempt {
    /// The first attempt, on the database as found.
    First,
    /// The attempt after the database was moved aside.
    AfterMovingAside,
}

/// What to do when opening the history database failed.
#[derive(Debug, Clone, Copy, PartialEq, Eq, Structural)]
pub enum OpenRecovery {
    /// Move the database aside, remove its sidecar files and try once more
    /// on a fresh file.
    MoveAsideAndRetry,
    /// Report the error.
    GiveUp,
}

/// What to do after `attempt` to open the history database failed: a
/// damaged database is moved aside once, and a second failure is reported.
pub fn after_open_failure(attempt: OpenAttempt) -> (r: OpenRecovery)
    ensures
        r == (match attempt {
            OpenAttempt::First => OpenRecovery::MoveAsideAndRetry,
            OpenAttempt::AfterMovingAside => OpenRecovery::GiveUp,
        }),
{
    match attempt {
        OpenAttempt::First => OpenRecovery::MoveAsideAndRetry,
        OpenAttempt::AfterMovingAside => OpenRecovery::GiveUp,
    }
}

/// The lowercase form of a text, as `str::to_lowercase` computes it.
pub uninterp spec fn lowercase(s: Seq<char>) -> Seq<char>;

/// The lowercase form of `s`.
///
/// Trusted: calls `str::to_lowercase`, whose result depends on the text
/// alone (Unicode's lowercase mapping, with no locale); the mapping itself is
/// named by `lowercase`.
#[verifier::external_body]
pub fn to_lowercase(s: &str) -> (r: String)
    ensures
        r@ == lowercase(s@),
{
    s.to_lowercase()
}

/// Whether `c` has a meaning of its own in a `LIKE` pattern whose escape
/// character is `\`.
pub open spec fn is_like_special(c: char) -> bool {
    c == '\\' || c == '%' || c == '_'
}

/// `s` with `\`, `%` and `_` each preceded by `\`, so that a `LIKE` pattern
/// with escape character `\` takes them literally.
pub open spec fn escape_like(s: Seq<char>) -> Seq<char>
    decreases s.len(),
{
    if s.len() == 0 {
        Seq::empty()
    } else if is_like_special(s[0]) {
        seq!['\\', s[0]] + escape_like(s.drop_first())
    } else {
        seq![s[0]] + escape_like(s.drop_first())
    }
}

/// The text that a `LIKE` pattern with escape character `\` stands for,
/// each `\` taken as making the next character literal.
pub open spec fn unescape_like(p: Seq<char>) -> Seq<char>
    decreases p.len(),
{
    if p.len() >= 2 && p[0] == '\\' {
        seq![p[1]] + unescape_like(p.skip(2))
    } else if p.len() == 0 {
        Seq::empty()
    } else {
        seq![p[0]] + unescape_like(p.drop_first())
    }
}

/// Whether every `%`, `_` and `\` of `p` is escaped by a `\`, so that the
/// pattern holds no wildcard.
pub open spec fn is_literal_like(p: Seq<char>) -> bool
    decreases p.len(),
{
    if p.len() == 0 {
        true
    } else if p[0] == '\\' {
        p.len() >= 2 && is_literal_like(p.skip(2))
    } else {
        !is_like_special(p[0]) && is_literal_like(p.drop_first())
    }
}

/// The pattern that matches the commands holding `q` anywhere.
pub open spec fn contains_pattern(q: Seq<char>) -> Seq<char> {
    seq!['%'] + escape_like(q) + seq!['%']
}

/// Proof that escaping can be undone: the escaped text stands for the text.
pub proof fn lemma_escape_like_round_trip(s: Seq<char>)
    ensures
        unescape_like(escape_like(s)) == s,
    decreases s.len(),
{
    if s.len() > 0 {
        lemma_escape_like_round_trip(s.drop_first());
        let e = escape_like(s);
        if is_like_special(s[0]) {
            assert(e.skip(2) =~= escape_like(s.drop_first()));
        } else {
            assert(e.drop_first() =~= escape_like(s.drop_first()));
        }
        assert(unescape_like(e) =~= s);
    }
}

/// Proof that an escaped text holds no wildcard.
pub proof fn lemma_escape_like_is_literal(s: Seq<char>)
    ensures
        is_literal_like(escape_like(s)),
    decreases s.len(),
{
    if s.len() > 0 {
        lemma_escape_like_is_literal(s.drop_first());
        let e = escape_like(s);
        if is_like_special(s[0]) {
            assert(e.skip(2) =~= escape_like(s.drop_first()));
        } else {
            assert(e.drop_first() =~= escape_like(s.drop_first()));
        }
    }
}

/// `s` escaped for a `LIKE` pattern with escape character `\`.
pub fn escape_like_text(s: &str) -> (r: String)
    ensures
        r@ == escape_like(s@),
{
    let v = chars_of(s);
    let mut r = String::new();
    let mut i: usize = 0;
    assert(v@.skip(0) =~= v@);
    while i < v.len()
        invariant
            i <= v.len(),
            escape_like(v@) == r@ + escape_like(v@.skip(i as int)),
        decreases v.len() - i,
    {
        let c = v[i];
        let ghost before = r@;
        assert(v@.skip(i as int).drop_first() =~= v@.skip(i + 1));
        if c == '\\' || c == '%' || c == '_' {
            push_char(&mut r, '\\');
            push_char(&mut r, c);
            assert(before + escape_like(v@.skip(i as int)) =~= r@ + escape_like(v@.skip(i + 1)));
        } else {
            push_char(&mut r, c);
            assert(before + escape_like(v@.skip(i as int)) =~= r@ + escape_like(v@.skip(i + 1)));
        }
        i = i + 1;
    }
    assert(escape_like(v@.skip(v.len() as int)) =~= Seq::<char>::empty());
    assert(r@ =~= escape_like(v@));
    r
}

/// The pattern that matches the commands holding the already lowercased
/// query `lowered` anywhere: `%`, the escaped query, `%`.
pub fn contains_pattern_of(lowered: &str) -> (r: String)
    ensures
        r@ == contains_pattern(lowered@),
{
    let mut r = String::new();
    push_char(&mut r, '%');
    let e = escape_like_text(lowered);
    push_str(&mut r, e.as_str());
    push_char(&mut r, '%');
    assert(r@ =~= contains_pattern(lowered@));
    r
}

/// The values a history search is run with.
#[derive(Debug)]
pub struct ListQuery {
    /// The `LIKE` pattern (escape character `\`) that lowercased commands
    /// must match.
    pub pattern: String,
    /// The most entries to return, as SQLite reads it.
    pub limit: i64,
    /// How many of the newest matching entries to skip, as SQLite reads it.
    pub offset: i64,
}

/// The values of a search of the history for `query`, one page of `limit`
/// entries after the first `offset`: the query is lowercased and matched
/// anywhere in the lowercased command, its `%`, `_` and `\` taken literally.
/// The sizes are handed to SQLite as signed 64-bit numbers.
pub fn list_query(query: &str, limit: usize, offset: usize) -> (r: ListQuery)
    ensures
        r.pattern@ == contains_pattern(lowercase(query@)),
        r.limit == limit as i64,
        r.offset == offset as i64,
{
    let lowered = to_lowercase(query);
    let pattern = contains_pattern_of(lowered.as_str());
    ListQuery { pattern, limit: limit as i64, offset: offset as i64 }
}

/// The number of newest entries that a trim to `max` keeps, as handed to
/// SQLite; `None` when `max` is zero, which leaves the history as it is.
pub fn trim_keep(max: usize) -> (r: Option<i64>)
    ensures
        r matches Some(k) ==> max != 0 && k == max as i64,
        r is None <==> max == 0,
{
    if max == 0 {
        None
    } else {
        Some(max as i64)
    }
}

/// Whether a history with `count` entries is empty.
pub fn is_empty_count(count: i64) -> (b: bool)
    ensures
        b == (count == 0),
{
    count == 0
}

/// Whether `t` matches the `LIKE` pattern `p` whose escape character is
/// `\`: `%` stands for any run of characters, `_` for any one character, `\`
/// makes the next character literal, and every other character stands for
/// itself. SQLite's `LIKE` also folds ASCII letters to one case; this model
/// leaves that out, since the searches compare a lowercased pattern with
/// lowercased commands, where folding changes nothing.
pub open spec fn like_matches(p: Seq<char>, t: Seq<char>) -> bool
    decreases p.len(), t.len(),
{
    if p.len() == 0 {
        t.len() == 0
    } else if p[0] == '%' {
        like_matches(p.drop_first(), t) || (t.len() > 0 && like_matches(p, t.drop_first()))
    } else if p[0] == '_' {
        t.len() > 0 && like_matches(p.drop_first(), t.drop_first())
    } else if p[0] == '\\' && p.len() >= 2 {
        t.len() > 0 && t[0] == p[1] && like_matches(p.skip(2), t.drop_first())
    } else {
        t.len() > 0 && t[0] == p[0] && like_matches(p.drop_first(), t.drop_first())
    }
}

/// Whether `q` occurs in `t` starting at `i`.
pub open spec fn occurs_at(q: Seq<char>, t: Seq<char>, i: int) -> bool {
    0 <= i && i + q.len() <= t.len() && t.subrange(i, i + q.len()) == q
}

/// Whether `q` occurs anywhere in `t`.
pub open spec fn occurs_in(q: Seq<char>, t: Seq<char>) -> bool {
    exists|i: int| #[trigger] occurs_at(q, t, i)
}

/// A pattern that starts with `%` matches `t` exactly when the rest of the
/// pattern matches some suffix of `t`.
proof fn lemma_percent_suffix(p: Seq<char>, t: Seq<char>)
    requires
        p.len() > 0,
        p[0] == '%',
    ensures
        like_matches(p, t) <==> exists|k: int| 0 <= k <= t.len() && #[trigger] like_matches(p.drop_first(), t.skip(k)),
    decreases t.len(),
{
    assert(t.skip(0) =~= t);
    assert(like_matches(p, t) == (like_matches(p.drop_first(), t) || (t.len() > 0 && like_matches(
        p,
        t.drop_first(),
    ))));
    assert(like_matches(p.drop_first(), t) == like_matches(p.drop_first(), t.skip(0)));
    if t.len() > 0 {
        let t1 = t.drop_first();
        lemma_percent_suffix(p, t1);
        if like_matches(p, t1) {
            let k = choose|k: int| 0 <= k <= t1.len() && #[trigger] like_matches(p.drop_first(), t1.skip(k));
            assert(t1.skip(k) =~= t.skip(k + 1));
            assert(like_matches(p.drop_first(), t.skip(k + 1)));
        }
        if exists|k: int| 0 <= k <= t.len() && #[trigger] like_matches(p.drop_first(), t.skip(k)) {
            let k = choose|k: int| 0 <= k <= t.len() && #[trigger] like_matches(p.drop_first(), t.skip(k));
            if k > 0 {
                assert(t1.skip(k - 1) =~= t.skip(k));
                assert(like_matches(p.drop_first(), t1.skip(k - 1)));
            }
        }
    } else {
        if exists|k: int| 0 <= k <= t.len() && #[trigger] like_matches(p.drop_first(), t.skip(k)) {
            let k = choose|k: int| 0 <= k <= t.len() && #[trigger] like_matches(p.drop_first(), t.skip(k));
            assert(k == 0);
        }
    }
}

proof fn lemma_percent_matches_all(t: Seq<char>)
    ensures
        like_matches(seq!['%'], t),
{
    let p = seq!['%'];
    assert(p[0] == '%' && p.len() == 1);
    assert(p.drop_first() =~= Seq::<char>::empty());
    assert(t.skip(t.len() as int) =~= Seq::<char>::empty());
    assert(like_matches(p.drop_first(), t.skip(t.len() as int)));
    lemma_percent_suffix(p, t);
}

proof fn lemma_prefix_step(q: Seq<char>, t: Seq<char>)
    requires
        q.len() > 0,
        t.len() > 0,
    ensures
        q.is_prefix_of(t) <==> (t[0] == q[0] && q.drop_first().is_prefix_of(t.drop_first())),
{
    let q1 = q.drop_first();
    let t1 = t.drop_first();
    if q.is_prefix_of(t) {
        assert(q[0] == t.subrange(0, q.len() as int)[0]);
        assert forall|j: int| 0 <= j < q1.len() implies q1[j] == t1.subrange(0, q1.len() as int)[j] by {
            assert(q[j + 1] == t.subrange(0, q.len() as int)[j + 1]);
        }
        assert(q1 =~= t1.subrange(0, q1.len() as int));
    }
    if t[0] == q[0] && q1.is_prefix_of(t1) {
        assert forall|j: int| 0 <= j < q.len() implies q[j] == t.subrange(0, q.len() as int)[j] by {
            if j > 0 {
                assert(q1[j - 1] == t1.subrange(0, q1.len() as int)[j - 1]);
            }
        }
        assert(q =~= t.subrange(0, q.len() as int));
    }
}

proof fn lemma_escaped_prefix_matches(q: Seq<char>, r: Seq<char>, t: Seq<char>)
    ensures
        like_matches(escape_like(q) + r, t) <==> (q.is_prefix_of(t) && like_matches(r, t.skip(q.len() as int))),
    decreases q.len(),
{
    let p = escape_like(q) + r;
    if q.len() == 0 {
        assert(p =~= r);
        assert(t.skip(0) =~= t);
    } else {
        let c = q[0];
        let q1 = q.drop_first();
        let e1 = escape_like(q1);
        if t.len() > 0 {
            let t1 = t.drop_first();
            lemma_escaped_prefix_matches(q1, r, t1);
            lemma_prefix_step(q, t);
            if q.len() <= t.len() {
                assert(t1.skip(q1.len() as int) =~= t.skip(q.len() as int));
            }
        }
        if is_like_special(c) {
            assert(escape_like(q) == seq!['\\', c] + e1);
            assert(p =~= seq!['\\', c] + (e1 + r));
            assert(p[0] == '\\' && p[1] == c && p.len() >= 2);
            assert(p.skip(2) =~= e1 + r);
        } else {
            assert(escape_like(q) == seq![c] + e1);
            assert(p =~= seq![c] + (e1 + r));
            assert(p[0] == c);
            assert(p.drop_first() =~= e1 + r);
        }
    }
}

/// Proof that a history search matches exactly the texts that hold the
/// query: under `LIKE` with escape character `\`, the pattern built from a
/// text `q` matches `t` if and only if `q` occurs in `t`, whatever `%`, `_`
/// or `\` the query holds.
pub proof fn lemma_contains_pattern_matches(q: Seq<char>, t: Seq<char>)
    ensures
        like_matches(contains_pattern(q), t) <==> occurs_in(q, t),
{
    let p = contains_pattern(q);
    let rest = escape_like(q) + seq!['%'];
    assert(p[0] == '%');
    assert(p.drop_first() =~= rest);
    lemma_percent_suffix(p, t);
    if like_matches(p, t) {
        let k = choose|k: int| 0 <= k <= t.len() && #[trigger] like_matches(p.drop_first(), t.skip(k));
        lemma_escaped_prefix_matches(q, seq!['%'], t.skip(k));
        assert(t.skip(k).subrange(0, q.len() as int) =~= t.subrange(k, k + q.len()));
        assert(occurs_at(q, t, k));
    }
    if occurs_in(q, t) {
        let i = choose|i: int| #[trigger] occurs_at(q, t, i);
        lemma_escaped_prefix_matches(q, seq!['%'], t.skip(i));
        lemma_percent_matches_all(t.skip(i).skip(q.len() as int));
        assert(t.skip(i).subrange(0, q.len() as int) =~= t.subrange(i, i + q.len()));
        assert(like_matches(p.drop_first(), t.skip(i)));
    }
}

/// Proof that a search for `query` with `list_query` matches a command text
/// `t` (as the database lowercases it) exactly when the lowercased query
/// occurs in `t`.
pub proof fn lemma_search_matches_substrings(query: Seq<char>, t: Seq<char>)
    ensures
        like_matches(contains_pattern(lowercase(query)), t) <==> occurs_in(lowercase(query), t),
{
    lemma_contains_pattern_matches(lowercase(query), t);
}

/// `s` with every `c` replaced by `r`, as `str::replace` does with a
/// one-character pattern.
pub open spec fn replace_char(s: Seq<char>, c: char, r: Seq<char>) -> Seq<char>
    decreases s.len(),
{
    if s.len() == 0 {
        Seq::empty()
    } else if s[0] == c {
        r + replace_char(s.drop_first(), c, r)
    } else {
        seq![s[0]] + replace_char(s.drop_first(), c, r)
    }
}

proof fn lemma_replace_char_append(a: Seq<char>, b: Seq<char>, c: char, r: Seq<char>)
    ensures
        replace_char(a + b, c, r) == replace_char(a, c, r) + replace_char(b, c, r),
    decreases a.len(),
{
    if a.len() == 0 {
        assert(a + b =~= b);
        assert(replace_char(a, c, r) =~= Seq::<char>::empty());
        assert(replace_char(a + b, c, r) =~= replace_char(a, c, r) + replace_char(b, c, r));
    } else {
        lemma_replace_char_append(a.drop_first(), b, c, r);
        assert((a + b).drop_first() =~= a.drop_first() + b);
        assert((a + b)[0] == a[0]);
        if a[0] == c {
            assert(replace_char(a + b, c, r) =~= r + (replace_char(a.drop_first(), c, r) + replace_char(b, c, r)));
        } else {
            assert(replace_char(a + b, c, r) =~= seq![a[0]] + (replace_char(a.drop_first(), c, r) + replace_char(b, c, r)));
        }
        assert(replace_char(a + b, c, r) =~= replace_char(a, c, r) + replace_char(b, c, r));
    }
}

proof fn lemma_replace_char_one(x: char, c: char, r: Seq<char>)
    ensures
        replace_char(seq![x], c, r) == (if x == c { r } else { seq![x] }),
{
    let s = seq![x];
    assert(s.drop_first() =~= Seq::<char>::empty());
    assert(replace_char(s.drop_first(), c, r) =~= Seq::<char>::empty());
    if x == c {
        assert(replace_char(s, c, r) =~= r);
    } else {
        assert(replace_char(s, c, r) =~= seq![x]);
    }
}

proof fn lemma_replace_char_two(x: char, y: char, c: char, r: Seq<char>)
    requires
        x != c,
        y != c,
    ensures
        replace_char(seq![x, y], c, r) == seq![x, y],
{
    lemma_replace_char_one(x, c, r);
    lemma_replace_char_one(y, c, r);
    assert(seq![x, y] =~= seq![x] + seq![y]);
    lemma_replace_char_append(seq![x], seq![y], c, r);
}

/// The escaping as three successive replacements: `\` by `\\`, then `%` by
/// `\%`, then `_` by `\_`.
pub open spec fn escape_by_replacements(s: Seq<char>) -> Seq<char> {
    replace_char(replace_char(replace_char(s, '\\', seq!['\\', '\\']), '%', seq!['\\', '%']), '_', seq!['\\', '_'])
}

/// Proof that escaping character by character is the same as the three
/// successive replacements of `\`, `%` and `_`.
pub proof fn lemma_escape_like_is_replacements(s: Seq<char>)
    ensures
        escape_by_replacements(s) == escape_like(s),
    decreases s.len(),
{
    let b = seq!['\\', '\\'];
    let p = seq!['\\', '%'];
    let u = seq!['\\', '_'];
    if s.len() == 0 {
        assert(replace_char(s, '\\', b) =~= Seq::<char>::empty());
        assert(escape_by_replacements(s) =~= Seq::<char>::empty());
    } else {
        let x = s[0];
        let rest = s.drop_first();
        lemma_escape_like_is_replacements(rest);
        assert(s =~= seq![x] + rest);
        lemma_replace_char_append(seq![x], rest, '\\', b);
        let r1x = replace_char(seq![x], '\\', b);
        let r1r = replace_char(rest, '\\', b);
        lemma_replace_char_append(r1x, r1r, '%', p);
        let r2x = replace_char(r1x, '%', p);
        let r2r = replace_char(r1r, '%', p);
        lemma_replace_char_append(r2x, r2r, '_', u);
        let r3x = replace_char(r2x, '_', u);
        lemma_replace_char_one(x, '\\', b);
        if x == '\\' {
            lemma_replace_char_two('\\', '\\', '%', p);
            lemma_replace_char_two('\\', '\\', '_', u);
            assert(r3x == seq!['\\', x]);
        } else if x == '%' {
            lemma_replace_char_one(x, '%', p);
            lemma_replace_char_two('\\', '%', '_', u);
            assert(r3x == seq!['\\', x]);
        } else if x == '_' {
            lemma_replace_char_one(x, '%', p);
            lemma_replace_char_one(x, '_', u);
            assert(r3x == seq!['\\', x]);
        } else {
            lemma_replace_char_one(x, '%', p);
            lemma_replace_char_one(x, '_', u);
            assert(r3x == seq![x]);
        }
        assert(escape_by_replacements(s) == r3x + escape_by_replacements(rest));
    }
}

} // verus!
