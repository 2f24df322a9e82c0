//! Answering one HTTP request of the UI server: reading the request target
//! from the request line, turning it into a path below the served directory,
//! and choosing the status, content type and body of the answer.
use vstd::prelude::*;
use crate::text::{
    chars_of, decimal, decimal_string, is_ascii_digit, lemma_decimal_reads_back, numeral_value, push_str,
    string_of, sub_chars,
};
use vstd::string::StringSliceAdditionalSpecFns;
use crate::paths::{within_root, within_root_of, PathStyle};

verus! {

/// Whether `c` has the Unicode `White_Space` property, the test by which
/// `str::split_whitespace` separates words.
pub open spec fn is_space(c: char) -> bool {
    ||| c == '\t' || c == '\n' || c == '\u{0B}' || c == '\u{0C}' || c == '\r' || c == ' '
    ||| c == '\u{85}' || c == '\u{A0}' || c == '\u{1680}'
    ||| ('\u{2000}' <= c && c <= '\u{200A}')
    ||| c == '\u{2028}' || c == '\u{2029}' || c == '\u{202F}' || c == '\u{205F}' || c == '\u{3000}'
}

fn space(c: char) -> (b: bool)
    ensures
        b == is_space(c),
{
    c == '\t' || c == '\n' || c == '\u{0B}' || c == '\u{0C}' || c == '\r' || c == ' ' || c == '\u{85}'
        || c == '\u{A0}' || c == '\u{1680}' || ('\u{2000}' <= c && c <= '\u{200A}') || c == '\u{2028}'
        || c == '\u{2029}' || c == '\u{202F}' || c == '\u{205F}' || c == '\u{3000}'
}

/// The words of `s`: its maximal runs of characters that are not white space.
pub open spec fn words(s: Seq<char>) -> Seq<Seq<char>>
    decreases s.len(),
{
    if s.len() == 0 {
        Seq::empty()
    } else {
        let w = words(s.drop_last());
        let c = s.last();
        if is_space(c) {
            w
        } else if s.len() > 1 && !is_space(s[s.len() - 2]) {
            w.update(w.len() - 1, w.last().push(c))
        } else {
            w.push(seq![c])
        }
    }
}

/// The request target of a request line: its second word, if it has one.
pub open spec fn request_target(line: Seq<char>) -> Option<Seq<char>> {
    if words(line).len() >= 2 {
        Some(words(line)[1])
    } else {
        None
    }
}

/// The second word of a request line, if it has one.
pub fn target_of_line(line: &str) -> (r: Option<String>)
    ensures
        match r {
            Some(t) => request_target(line@) == Some(t@),
            None => request_target(line@) is None,
        },
{
    let v = chars_of(line);
    let mut count: usize = 0;
    let mut second: Vec<char> = Vec::new();
    let mut in_word = false;
    let mut i: usize = 0;
    while i < v.len()
        invariant
            i <= v.len(),
            count == words(v@.take(i as int)).len(),
            count <= i,
            count >= 2 ==> second@ == words(v@.take(i as int))[1],
            in_word == (i > 0 && !is_space(v@[i - 1])),
            in_word ==> count >= 1,
        decreases v.len() - i,
    {
        let c = v[i];
        let ghost before = v@.take(i as int);
        let ghost after = v@.take(i + 1);
        assert(after.drop_last() =~= before);
        assert(after.last() == c);
        if space(c) {
            in_word = false;
        } else if in_word {
            assert(after[after.len() - 2] == v@[i - 1]);
            if count == 2 {
                second.push(c);
            }
            in_word = true;
        } else {
            assert(i > 0 ==> after[after.len() - 2] == v@[i - 1]);
            count = count + 1;
            if count == 2 {
                second = Vec::new();
                second.push(c);
                assert(second@ =~= seq![c]);
            }
            in_word = true;
        }
        i = i + 1;
    }
    assert(v@.take(v.len() as int) =~= v@);
    if count >= 2 {
        Some(string_of(&second))
    } else {
        None
    }
}

/// The target with `/` taken as `/index.html`.
pub open spec fn root_as_index(t: Seq<char>) -> Seq<char> {
    if t == "/"@ {
        "/index.html"@
    } else {
        t
    }
}

/// The part of `t` before its first `?`.
pub open spec fn before_query(t: Seq<char>) -> Seq<char>
    decreases t.len(),
{
    if t.len() == 0 || t[0] == '?' {
        Seq::empty()
    } else {
        seq![t[0]] + before_query(t.drop_first())
    }
}

/// `t` without the slashes at its start.
pub open spec fn trim_leading_slashes(t: Seq<char>) -> Seq<char>
    decreases t.len(),
{
    if t.len() > 0 && t[0] == '/' {
        trim_leading_slashes(t.drop_first())
    } else {
        t
    }
}

/// `t` with every `..` removed, the occurrences taken from left to right
/// without overlap.
pub open spec fn remove_dot_pairs(t: Seq<char>) -> Seq<char>
    decreases t.len(),
{
    if t.len() >= 2 && t[0] == '.' && t[1] == '.' {
        remove_dot_pairs(t.skip(2))
    } else if t.len() == 0 {
        Seq::empty()
    } else {
        seq![t[0]] + remove_dot_pairs(t.drop_first())
    }
}

/// The path below the served directory that a request target names.
pub open spec fn served_path(target: Seq<char>) -> Seq<char> {
    remove_dot_pairs(trim_leading_slashes(before_query(root_as_index(target))))
}

/// Whether `s` holds two dots in a row at `i`.
pub open spec fn dot_pair_at(s: Seq<char>, i: int) -> bool {
    0 <= i && i + 1 < s.len() && s[i] == '.' && s[i + 1] == '.'
}

/// Whether `s` holds two dots in a row.
pub open spec fn has_dot_pair(s: Seq<char>) -> bool {
    exists|i: int| #[trigger] dot_pair_at(s, i)
}

proof fn lemma_remove_dot_pairs_first(t: Seq<char>)
    requires
        t.len() > 0,
        t[0] != '.',
    ensures
        remove_dot_pairs(t).len() > 0,
        remove_dot_pairs(t)[0] == t[0],
{
}

/// Proof that removing `..` pairs leaves no two dots in a row: the path that
/// a request target names never refers to a parent directory.
pub proof fn lemma_no_dot_pair_left(t: Seq<char>)
    ensures
        !has_dot_pair(remove_dot_pairs(t)),
    decreases t.len(),
{
    if t.len() >= 2 && t[0] == '.' && t[1] == '.' {
        lemma_no_dot_pair_left(t.skip(2));
    } else if t.len() == 0 {
    } else {
        let rest = t.drop_first();
        lemma_no_dot_pair_left(rest);
        let r = remove_dot_pairs(t);
        let rr = remove_dot_pairs(rest);
        assert(r =~= seq![t[0]] + rr);
        if has_dot_pair(r) {
            let i = choose|i: int| #[trigger] dot_pair_at(r, i);
            if i == 0 {
                assert(rest.len() > 0);
                lemma_remove_dot_pairs_first(rest);
            } else {
                assert(dot_pair_at(rr, i - 1));
            }
        }
    }
}

/// Proof that every path a request target names is free of `..`.
pub proof fn lemma_served_path_has_no_parent(target: Seq<char>)
    ensures
        !has_dot_pair(served_path(target)),
{
    lemma_no_dot_pair_left(trim_leading_slashes(before_query(root_as_index(target))));
}

proof fn lemma_before_query_without_query(t: Seq<char>)
    requires
        !t.contains('?'),
    ensures
        before_query(t) == t,
    decreases t.len(),
{
    if t.len() > 0 {
        assert(t[0] != '?');
        assert(!t.drop_first().contains('?')) by {
            if t.drop_first().contains('?') {
                let i = choose|i: int| 0 <= i < t.drop_first().len() && t.drop_first()[i] == '?';
                assert(t[i + 1] == '?');
            }
        }
        lemma_before_query_without_query(t.drop_first());
        assert(before_query(t) =~= t);
    }
}

proof fn lemma_remove_dot_pairs_without_pairs(t: Seq<char>)
    requires
        !has_dot_pair(t),
    ensures
        remove_dot_pairs(t) == t,
    decreases t.len(),
{
    if t.len() > 0 {
        assert(!(t.len() >= 2 && t[0] == '.' && t[1] == '.')) by {
            if t.len() >= 2 && t[0] == '.' && t[1] == '.' {
                assert(dot_pair_at(t, 0));
            }
        }
        let rest = t.drop_first();
        assert(!has_dot_pair(rest)) by {
            if has_dot_pair(rest) {
                let i = choose|i: int| #[trigger] dot_pair_at(rest, i);
                assert(dot_pair_at(t, i + 1));
            }
        }
        lemma_remove_dot_pairs_without_pairs(rest);
        assert(remove_dot_pairs(t) =~= t);
    }
}

proof fn lemma_trim_leading_slashes_suffix(t: Seq<char>)
    ensures
        exists|k: int| 0 <= k <= t.len() && trim_leading_slashes(t) == #[trigger] t.skip(k),
    decreases t.len(),
{
    if t.len() > 0 && t[0] == '/' {
        lemma_trim_leading_slashes_suffix(t.drop_first());
        let k = choose|k: int| 0 <= k <= t.drop_first().len() && trim_leading_slashes(t.drop_first()) == #[trigger] t.drop_first().skip(k);
        assert(t.drop_first().skip(k) =~= t.skip(k + 1));
    } else {
        assert(t.skip(0) =~= t);
    }
}

/// Proof that an ordinary request target, one other than `/` without `?` or
/// `..`, is served as the path it names, less its leading slashes.
pub proof fn lemma_plain_target_kept(target: Seq<char>)
    requires
        target != "/"@,
        !target.contains('?'),
        !has_dot_pair(target),
    ensures
        served_path(target) == trim_leading_slashes(target),
{
    lemma_before_query_without_query(target);
    let trimmed = trim_leading_slashes(target);
    lemma_trim_leading_slashes_suffix(target);
    let k = choose|k: int| 0 <= k <= target.len() && trimmed == #[trigger] target.skip(k);
    assert(!has_dot_pair(trimmed)) by {
        if has_dot_pair(trimmed) {
            let i = choose|i: int| #[trigger] dot_pair_at(trimmed, i);
            assert(dot_pair_at(target, i + k));
        }
    }
    lemma_remove_dot_pairs_without_pairs(trimmed);
}

/// The path below the served directory that `target` names: `/` stands for
/// `/index.html`, the query is cut off at the first `?`, the leading slashes
/// are dropped and every `..` is removed.
pub fn served_path_of(target: &str) -> (r: String)
    ensures
        r@ == served_path(target@),
{
    let t0 = chars_of(target);
    let t: Vec<char> = if t0.len() == 1 && t0[0] == '/' {
        assert(t0@ =~= "/"@) by {
            reveal_strlit("/");
        }
        chars_of("/index.html")
    } else {
        assert(t0@ != "/"@) by {
            reveal_strlit("/");
            if t0@ == "/"@ {
                assert(t0@.len() == 1 && t0@[0] == '/');
            }
        }
        t0
    };
    assert(t@ == root_as_index(target@));
    // Cut at the first '?'.
    let mut q: Vec<char> = Vec::new();
    let mut i: usize = 0;
    assert(t@.skip(0) =~= t@);
    while i < t.len() && t[i] != '?'
        invariant
            i <= t.len(),
            before_query(t@) == q@ + before_query(t@.skip(i as int)),
        decreases t.len() - i,
    {
        assert(t@.skip(i as int).drop_first() =~= t@.skip(i + 1));
        q.push(t[i]);
        assert(q@ + before_query(t@.skip(i + 1)) =~= q@.drop_last() + (seq![t@[i as int]] + before_query(t@.skip(i + 1))));
        i = i + 1;
    }
    assert(before_query(t@.skip(i as int)) =~= Seq::<char>::empty());
    assert(q@ =~= before_query(t@));
    // Drop the leading slashes.
    let mut j: usize = 0;
    assert(q@.skip(0) =~= q@);
    while j < q.len() && q[j] == '/'
        invariant
            j <= q.len(),
            trim_leading_slashes(q@) == trim_leading_slashes(q@.skip(j as int)),
        decreases q.len() - j,
    {
        assert(q@.skip(j as int).drop_first() =~= q@.skip(j + 1));
        j = j + 1;
    }
    let s = sub_chars(&q, j, q.len());
    assert(s@ == trim_leading_slashes(q@));
    // Remove the dot pairs.
    let mut out: Vec<char> = Vec::new();
    let mut k: usize = 0;
    assert(s@.skip(0) =~= s@);
    while k < s.len()
        invariant
            k <= s.len(),
            remove_dot_pairs(s@) == out@ + remove_dot_pairs(s@.skip(k as int)),
        decreases s.len() - k,
    {
        if k + 1 < s.len() && s[k] == '.' && s[k + 1] == '.' {
            assert(s@.skip(k as int).skip(2) =~= s@.skip(k + 2));
            k = k + 2;
        } else {
            assert(s@.skip(k as int).drop_first() =~= s@.skip(k + 1));
            out.push(s[k]);
            assert(out@ + remove_dot_pairs(s@.skip(k + 1)) =~= out@.drop_last() + (seq![s@[k as int]]
                + remove_dot_pairs(s@.skip(k + 1))));
            k = k + 1;
        }
    }
    assert(remove_dot_pairs(s@.skip(k as int)) =~= Seq::<char>::empty());
    assert(out@ =~= remove_dot_pairs(s@));
    string_of(&out)
}

/// The content type of a served file with extension `ext`.
pub open spec fn content_type(ext: Option<Seq<char>>) -> Seq<char> {
    match ext {
        Some(e) => if e == "html"@ {
            "text/html; charset=utf-8"@
        } else if e == "js"@ {
            "application/javascript"@
        } else if e == "css"@ {
            "text/css"@
        } else if e == "json"@ {
            "application/json"@
        } else if e == "png"@ {
            "image/png"@
        } else if e == "svg"@ {
            "image/svg+xml"@
        } else if e == "ico"@ {
            "image/x-icon"@
        } else if e == "woff2"@ {
            "font/woff2"@
        } else {
            "application/octet-stream"@
        },
        None => "application/octet-stream"@,
    }
}

/// Whether `e` is one of the extensions that the server knows a type for.
pub open spec fn known_extension(e: Seq<char>) -> bool {
    e == "html"@ || e == "js"@ || e == "css"@ || e == "json"@ || e == "png"@ || e == "svg"@
        || e == "ico"@ || e == "woff2"@
}

/// Proof of the content-type table: a file without an extension, or with one
/// outside the eight known ones, is served as `application/octet-stream`, and
/// each known type is given to exactly one extension.
pub proof fn lemma_content_type_table(e: Seq<char>)
    ensures
        content_type(None) == "application/octet-stream"@,
        !known_extension(e) ==> content_type(Some(e)) == "application/octet-stream"@,
        (content_type(Some(e)) == "text/html; charset=utf-8"@) == (e == "html"@),
        (content_type(Some(e)) == "application/javascript"@) == (e == "js"@),
        (content_type(Some(e)) == "text/css"@) == (e == "css"@),
        (content_type(Some(e)) == "application/json"@) == (e == "json"@),
        (content_type(Some(e)) == "image/png"@) == (e == "png"@),
        (content_type(Some(e)) == "image/svg+xml"@) == (e == "svg"@),
        (content_type(Some(e)) == "image/x-icon"@) == (e == "ico"@),
        (content_type(Some(e)) == "font/woff2"@) == (e == "woff2"@),
        (content_type(Some(e)) == "application/octet-stream"@) == !known_extension(e),
{
    reveal_strlit("text/html; charset=utf-8");
    reveal_strlit("application/javascript");
    reveal_strlit("text/css");
    reveal_strlit("application/json");
    reveal_strlit("image/png");
    reveal_strlit("image/svg+xml");
    reveal_strlit("image/x-icon");
    reveal_strlit("font/woff2");
    reveal_strlit("application/octet-stream");
    assert("text/html; charset=utf-8"@.len() == 24);
    assert("application/javascript"@.len() == 22);
    assert("text/css"@.len() == 8);
    assert("application/json"@.len() == 16);
    assert("image/png"@.len() == 9);
    assert("image/svg+xml"@.len() == 13);
    assert("image/x-icon"@.len() == 12);
    assert("font/woff2"@.len() == 10);
    assert("application/octet-stream"@.len() == 24);
    assert("text/html; charset=utf-8"@[0] != "application/octet-stream"@[0]);
    reveal_strlit("html");
    reveal_strlit("js");
    reveal_strlit("css");
    reveal_strlit("json");
    reveal_strlit("png");
    reveal_strlit("svg");
    reveal_strlit("ico");
    reveal_strlit("woff2");
    assert("html"@.len() == 4 && "json"@.len() == 4 && "html"@[0] != "json"@[0]);
    assert("js"@.len() == 2 && "woff2"@.len() == 5);
    assert("css"@.len() == 3 && "png"@.len() == 3 && "svg"@.len() == 3 && "ico"@.len() == 3);
    assert("css"@[0] != "png"@[0] && "css"@[0] != "svg"@[0] && "css"@[0] != "ico"@[0]);
    assert("png"@[0] != "svg"@[0] && "png"@[0] != "ico"@[0] && "svg"@[0] != "ico"@[0]);
}

/// The content type of a served file with extension `ext`.
pub fn content_type_of(ext: &Option<String>) -> (r: String)
    ensures
        r@ == content_type(match ext {
            Some(e) => Some(e@),
            None => None,
        }),
        match ext {
            Some(e) => !known_extension(e@),
            None => true,
        } ==> r@ == "application/octet-stream"@,
        (r@ == "image/png"@) == match ext {
            Some(e) => e@ == "png"@,
            None => false,
        },
{
    proof {
        match ext {
            Some(e) => lemma_content_type_table(e@),
            None => {
                lemma_content_type_table(Seq::<char>::empty());
                reveal_strlit("image/png");
                reveal_strlit("application/octet-stream");
                assert("image/png"@.len() != "application/octet-stream"@.len());
            },
        }
    }
    match ext {
        Some(e) => {
            if *e == String::from_str("html") {
                String::from_str("text/html; charset=utf-8")
            } else if *e == String::from_str("js") {
                String::from_str("application/javascript")
            } else if *e == String::from_str("css") {
                String::from_str("text/css")
            } else if *e == String::from_str("json") {
                String::from_str("application/json")
            } else if *e == String::from_str("png") {
                String::from_str("image/png")
            } else if *e == String::from_str("svg") {
                String::from_str("image/svg+xml")
            } else if *e == String::from_str("ico") {
                String::from_str("image/x-icon")
            } else if *e == String::from_str("woff2") {
                String::from_str("font/woff2")
            } else {
                String::from_str("application/octet-stream")
            }
        },
        None => String::from_str("application/octet-stream"),
    }
}

/// The head of an answer with this status line, content type and body length.
pub open spec fn response_head(status: Seq<char>, content_type: Seq<char>, length: nat) -> Seq<char> {
    status + "\r\nContent-Type: "@ + content_type + "\r\nContent-Length: "@ + decimal(length)
        + "\r\nConnection: close\r\n\r\n"@
}

/// The head of an answer with this status line, content type and body length.
pub fn response_head_of(status: &str, content_type: &str, length: usize) -> (r: String)
    ensures
        r@ == response_head(status@, content_type@, length as nat),
        status@.len() + content_type@.len() + 34 < r@.len() - 23,
        forall|i: int|
            status@.len() + content_type@.len() + 34 <= i < r@.len() - 23 ==> is_ascii_digit(
                #[trigger] r@[i],
            ),
        numeral_value(r@.subrange(status@.len() + content_type@.len() + 34int, r@.len() - 23))
            == length,
{
    let mut r = String::from_str(status);
    push_str(&mut r, "\r\nContent-Type: ");
    push_str(&mut r, content_type);
    push_str(&mut r, "\r\nContent-Length: ");
    let ghost before = r@;
    let d = decimal_string(length as u64);
    push_str(&mut r, d.as_str());
    push_str(&mut r, "\r\nConnection: close\r\n\r\n");
    proof {
        reveal_strlit("\r\nContent-Type: ");
        reveal_strlit("\r\nContent-Length: ");
        reveal_strlit("\r\nConnection: close\r\n\r\n");
        lemma_decimal_reads_back(length as nat);
        assert(before.len() == status@.len() + content_type@.len() + 34);
        assert(r@.subrange(before.len() as int, r@.len() - 23) =~= d@);
        assert forall|i: int| before.len() <= i < r@.len() - 23 implies is_ascii_digit(
            #[trigger] r@[i],
        ) by {
            assert(r@[i] == d@[i - before.len()]);
        }
    }
    r
}

/// Where the answer to a request stands.
#[derive(Debug, Clone, Copy, PartialEq, Eq, Structural)]
pub enum ServePhase {
    /// Waiting for the request line.
    ReadLine,
    /// Waiting to learn what the requested path is.
    Locate,
    /// Waiting for the requested file's contents.
    ReadFile,
    /// Waiting to learn whether the served directory holds `index.html`.
    CheckIndex,
    /// Waiting for the contents of `index.html`.
    ReadIndex,
    /// Finished.
    Done,
}

/// The state of the answer to a request: its phase, the served directory
/// and the path conventions of its platform, the requested path below it
/// once it is known, and the content type of the requested file once that
/// is known.
#[derive(Debug)]
pub struct ServeState {
    pub phase: ServePhase,
    pub root: String,
    pub style: PathStyle,
    pub path: String,
    pub content_type: String,
}

/// What the connection and the file system reported.
#[derive(Debug)]
pub enum ServeEvent {
    /// The request line, or `None` when it could not be read.
    Line(Option<String>),
    /// What the requested path is: whether it is an existing regular file,
    /// and its extension.
    Located { is_file: bool, extension: Option<String> },
    /// The requested file's contents, or `None` when it could not be read.
    FileRead(Option<Vec<u8>>),
    /// Whether the served directory holds `index.html`.
    IndexExists(bool),
    /// The contents of `index.html`, or `None` when it could not be read.
    IndexRead(Option<Vec<u8>>),
}

/// What the server does next for this request.
#[derive(Debug)]
pub enum ServeAction {
    /// Close the connection without answering.
    Close,
    /// Look up this path below the served directory.
    Locate(String),
    /// Send this text and close: the path leaves the served directory.
    Reject(String),
    /// Read the file at this path below the served directory.
    ReadFile(String),
    /// Look whether the served directory holds `index.html`.
    CheckIndex,
    /// Read `index.html` of the served directory.
    ReadIndex,
    /// Send this head, then this body, and close.
    Respond { head: String, body: Vec<u8> },
}

/// Whether `e` is the report that phase `p` waits for.
pub open spec fn serve_event_fits(p: ServePhase, e: ServeEvent) -> bool {
    match p {
        ServePhase::ReadLine => e is Line,
        ServePhase::Locate => e is Located,
        ServePhase::ReadFile => e is FileRead,
        ServePhase::CheckIndex => e is IndexExists,
        ServePhase::ReadIndex => e is IndexRead,
        ServePhase::Done => false,
    }
}

/// Whether an answer's state is one that the steps can reach: while a
/// requested path is looked up or read, it lies within the served directory
/// and holds no `..`.
pub open spec fn serve_state_valid(s: ServeState) -> bool {
    (s.phase == ServePhase::Locate || s.phase == ServePhase::ReadFile) ==> (within_root(s.root@, s.path@, s.style)
        && !has_dot_pair(s.path@))
}

/// How many reports the answer may still wait for.
pub open spec fn serve_steps_left(p: ServePhase) -> nat {
    match p {
        ServePhase::ReadLine => 4,
        ServePhase::Locate => 3,
        ServePhase::CheckIndex => 2,
        ServePhase::ReadFile | ServePhase::ReadIndex => 1,
        ServePhase::Done => 0,
    }
}

/// Whether `a` answers with this status line, content type and body.
pub open spec fn responds_with(a: ServeAction, status: Seq<char>, content_type: Seq<char>, body: Seq<u8>) -> bool {
    &&& a matches ServeAction::Respond { head, body: b }
    &&& b@ == body
    &&& head@ == response_head(status, content_type, body.len())
}

/// The text sent for a path that leaves the served directory.
pub open spec fn forbidden_answer() -> Seq<char> {
    "HTTP/1.1 403 Forbidden\r\n\r\n"@
}

/// Whether `a` answers that nothing was found.
pub open spec fn responds_not_found(a: ServeAction) -> bool {
    responds_with(a, "HTTP/1.1 404 Not Found"@, "text/plain"@, "Not found".spec_bytes())
}

/// Whether `a`, when it answers, is one of the four answers of the server:
/// the requested file (with the content type `file_type`) or `index.html`
/// with `200 OK`, `500` with `Read error`, or `404` with `Not found`; each
/// with a head whose `Content-Length` is the length of its body.
pub open spec fn is_server_answer(a: ServeAction, file_type: Seq<char>) -> bool {
    a matches ServeAction::Respond { body, .. } ==> {
        ||| responds_with(a, "HTTP/1.1 200 OK"@, file_type, body@)
        ||| responds_with(a, "HTTP/1.1 200 OK"@, "text/html; charset=utf-8"@, body@)
        ||| responds_with(a, "HTTP/1.1 500 Internal Server Error"@, "text/plain"@, "Read error".spec_bytes())
        ||| responds_not_found(a)
    }
}

/// The first state of the answer to a request for files below `root`, on a
/// platform of style `style`: waiting for the request line.
pub fn serve_begin(root: &str, style: PathStyle) -> (r: ServeState)
    ensures
        r.phase == ServePhase::ReadLine,
        r.root@ == root@,
        r.style == style,
        serve_state_valid(r),
{
    ServeState {
        phase: ServePhase::ReadLine,
        root: String::from_str(root),
        style,
        path: String::new(),
        content_type: String::new(),
    }
}

/// Whether `event` is the report that `state` waits for.
pub fn serve_expects(state: &ServeState, event: &ServeEvent) -> (b: bool)
    ensures
        b == serve_event_fits(state.phase, *event),
{
    match state.phase {
        ServePhase::ReadLine => matches!(event, ServeEvent::Line(_)),
        ServePhase::Locate => matches!(event, ServeEvent::Located { .. }),
        ServePhase::ReadFile => matches!(event, ServeEvent::FileRead(_)),
        ServePhase::CheckIndex => matches!(event, ServeEvent::IndexExists(_)),
        ServePhase::ReadIndex => matches!(event, ServeEvent::IndexRead(_)),
        ServePhase::Done => false,
    }
}

fn text_body(text: &str) -> (b: Vec<u8>)
    ensures
        b@ == text.spec_bytes(),
{
    vstd::slice::slice_to_vec(text.as_bytes())
}

fn respond(status: &str, content_type: &str, body: Vec<u8>) -> (a: ServeAction)
    ensures
        responds_with(a, status@, content_type@, body@),
{
    let head = response_head_of(status, content_type, body.len());
    ServeAction::Respond { head, body }
}

fn finished(root: &String, style: PathStyle) -> (s: ServeState)
    ensures
        s.phase == ServePhase::Done,
        s.root@ == root@,
        s.style == style,
        serve_state_valid(s),
{
    ServeState {
        phase: ServePhase::Done,
        root: root.clone(),
        style,
        path: String::new(),
        content_type: String::new(),
    }
}

/// The next state of the answer to a request, and what to do, after `event`.
///
/// A request line without a target is dropped. The target names a path below
/// the served directory (see `served_path`); a path that leaves the
/// directory (see `within_root`) is refused with `403 Forbidden`. An existing
/// file is sent with the content type of its extension, or `500` when it
/// cannot be read. Any other path gets the directory's `index.html`, or
/// `404 Not Found` when there is none or it cannot be read. Every file that
/// is read lies within the served directory and its path holds no `..`.
pub fn serve_step(state: ServeState, event: ServeEvent) -> (r: (ServeState, ServeAction))
    requires
        serve_state_valid(state),
        serve_event_fits(state.phase, event),
    ensures
        serve_state_valid(r.0),
        r.0.root@ == state.root@,
        r.0.style == state.style,
        serve_steps_left(r.0.phase) < serve_steps_left(state.phase),
        (r.0.phase == ServePhase::Done) <==> (r.1 is Close || r.1 is Reject || r.1 is Respond),
        r.1 matches ServeAction::ReadFile(p) ==> within_root(state.root@, p@, state.style) && !has_dot_pair(p@),
        event is FileRead ==> within_root(state.root@, state.path@, state.style) && !has_dot_pair(state.path@),
        is_server_answer(r.1, state.content_type@),
        match event {
            ServeEvent::Line(line) => match line {
                Some(l) => match request_target(l@) {
                    Some(t) => if within_root(state.root@, served_path(t), state.style) {
                        &&& r.0.phase == ServePhase::Locate
                        &&& r.0.path@ == served_path(t)
                        &&& r.1 matches ServeAction::Locate(p) && p@ == served_path(t)
                    } else {
                        r.1 matches ServeAction::Reject(m) && m@ == forbidden_answer()
                    },
                    None => r.1 is Close,
                },
                None => r.1 is Close,
            },
            ServeEvent::Located { is_file, extension } => if is_file {
                &&& r.0.phase == ServePhase::ReadFile
                &&& r.1 matches ServeAction::ReadFile(p) && p@ == state.path@
                &&& r.0.path@ == state.path@
                &&& r.0.content_type@ == content_type(match extension {
                    Some(e) => Some(e@),
                    None => None,
                })
            } else {
                r.0.phase == ServePhase::CheckIndex && r.1 is CheckIndex
            },
            ServeEvent::FileRead(data) => match data {
                Some(d) => responds_with(r.1, "HTTP/1.1 200 OK"@, state.content_type@, d@),
                None => responds_with(r.1, "HTTP/1.1 500 Internal Server Error"@, "text/plain"@,
                    "Read error".spec_bytes()),
            },
            ServeEvent::IndexExists(found) => if found {
                r.0.phase == ServePhase::ReadIndex && r.1 is ReadIndex
            } else {
                responds_not_found(r.1)
            },
            ServeEvent::IndexRead(data) => match data {
                Some(d) => responds_with(r.1, "HTTP/1.1 200 OK"@, "text/html; charset=utf-8"@, d@),
                None => responds_not_found(r.1),
            },
        },
{
    let done = finished(&state.root, state.style);
    match event {
        ServeEvent::Line(line) => match line {
            Some(l) => match target_of_line(l.as_str()) {
                Some(t) => {
                    let p = served_path_of(t.as_str());
                    proof {
                        lemma_served_path_has_no_parent(t@);
                    }
                    if within_root_of(state.root.as_str(), p.as_str(), state.style) {
                        let q = p.clone();
                        (
                            ServeState {
                                phase: ServePhase::Locate,
                                root: state.root,
                                style: state.style,
                                path: p,
                                content_type: String::new(),
                            },
                            ServeAction::Locate(q),
                        )
                    } else {
                        (done, ServeAction::Reject(String::from_str("HTTP/1.1 403 Forbidden\r\n\r\n")))
                    }
                },
                None => (done, ServeAction::Close),
            },
            None => (done, ServeAction::Close),
        },
        ServeEvent::Located { is_file, extension } => {
            if is_file {
                let ct = content_type_of(&extension);
                let q = state.path.clone();
                (
                    ServeState { phase: ServePhase::ReadFile, root: state.root,
                                style: state.style, path: state.path, content_type: ct },
                    ServeAction::ReadFile(q),
                )
            } else {
                (
                    ServeState {
                        phase: ServePhase::CheckIndex,
                        root: state.root,
                                style: state.style,
                        path: String::new(),
                        content_type: String::new(),
                    },
                    ServeAction::CheckIndex,
                )
            }
        },
        ServeEvent::FileRead(data) => match data {
            Some(d) => (done, respond("HTTP/1.1 200 OK", state.content_type.as_str(), d)),
            None => (
                done,
                respond("HTTP/1.1 500 Internal Server Error", "text/plain", text_body("Read error")),
            ),
        },
        ServeEvent::IndexExists(found) => {
            if found {
                (
                    ServeState {
                        phase: ServePhase::ReadIndex,
                        root: state.root,
                                style: state.style,
                        path: String::new(),
                        content_type: String::new(),
                    },
                    ServeAction::ReadIndex,
                )
            } else {
                (done, respond("HTTP/1.1 404 Not Found", "text/plain", text_body("Not found")))
            }
        },
        ServeEvent::IndexRead(data) => match data {
            Some(d) => (done, respond("HTTP/1.1 200 OK", "text/html; charset=utf-8", d)),
            None => (done, respond("HTTP/1.1 404 Not Found", "text/plain", text_body("Not found"))),
        },
    }
}

} // verus!
