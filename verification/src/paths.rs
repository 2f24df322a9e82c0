//! Whether a path joined onto a directory still lies within it, as
//! `std::path::Path::join` followed by `Path::starts_with` decide it on Unix
//! and on Windows.
use vstd::prelude::*;
use crate::text::{chars_of, sub_chars};

verus! {

/// The path conventions of the platform being served.
#[derive(Debug, Clone, Copy, PartialEq, Eq, Structural)]
pub enum PathStyle {
    /// `/` separates components.
    Unix,
    /// `/` and `\` separate components, and a path may begin with a drive
    /// (`C:`) or with two separators (a UNC or device path).
    Windows,
}

/// Whether `c` separates path components.
pub open spec fn is_sep(c: char, style: PathStyle) -> bool {
    c == '/' || (style == PathStyle::Windows && c == '\\')
}

/// Whether `p` begins with a drive, such as `C:`.
pub open spec fn has_drive(p: Seq<char>, style: PathStyle) -> bool {
    &&& style == PathStyle::Windows
    &&& p.len() >= 2
    &&& p[1] == ':'
    &&& (('a' <= p[0] && p[0] <= 'z') || ('A' <= p[0] && p[0] <= 'Z'))
}

/// Whether `p` begins with two separators: a UNC, verbatim or device prefix.
pub open spec fn has_unc(p: Seq<char>, style: PathStyle) -> bool {
    &&& style == PathStyle::Windows
    &&& p.len() >= 2
    &&& is_sep(p[0], style)
    &&& is_sep(p[1], style)
}

/// Whether `p` begins with a prefix, which makes a join replace the
/// directory altogether.
pub open spec fn has_prefix(p: Seq<char>, style: PathStyle) -> bool {
    has_drive(p, style) || has_unc(p, style)
}

/// Whether `p` begins with a separator.
pub open spec fn starts_with_sep(p: Seq<char>, style: PathStyle) -> bool {
    p.len() > 0 && is_sep(p[0], style)
}

/// Whether `p` is anchored: it has a prefix or begins with a separator.
pub open spec fn is_anchored(p: Seq<char>, style: PathStyle) -> bool {
    has_prefix(p, style) || starts_with_sep(p, style)
}

/// The runs of `s`: its maximal stretches of characters that are not
/// separators.
pub open spec fn path_runs(s: Seq<char>, style: PathStyle) -> Seq<Seq<char>>
    decreases s.len(),
{
    if s.len() == 0 {
        Seq::empty()
    } else {
        let w = path_runs(s.drop_last(), style);
        let c = s.last();
        if is_sep(c, style) {
            w
        } else if s.len() > 1 && !is_sep(s[s.len() - 2], style) {
            w.update(w.len() - 1, w.last().push(c))
        } else {
            w.push(seq![c])
        }
    }
}

/// Whether a run names a component (it is not `.`).
pub open spec fn is_named(seg: Seq<char>) -> bool {
    seg != "."@
}

/// The runs of `runs` from `from` on that name components.
pub open spec fn named_from(runs: Seq<Seq<char>>, from: int) -> Seq<Seq<char>> {
    runs.skip(from).filter(|seg: Seq<char>| is_named(seg))
}

/// How many runs complete a prefix of two separators: the server and share
/// of a UNC path (or what stands in their place), as far as there are any.
pub open spec fn prefix_runs(runs: Seq<Seq<char>>) -> int {
    if runs.len() < 2 {
        runs.len() as int
    } else {
        2
    }
}

/// The component that stands for the root directory.
pub open spec fn root_token() -> Seq<char> {
    seq!['/']
}

/// The component that stands for a prefix of two separators.
pub open spec fn unc_token() -> Seq<char> {
    seq!['/', '/']
}

/// The component that stands for the drive with letter `d`.
pub open spec fn drive_token(d: char) -> Seq<char> {
    seq!['/', d, ':']
}

/// The components of an anchored path, as `Path::components` yields them:
/// the prefix (a drive, or two separators followed by the two runs that
/// complete the prefix), the root directory when a separator follows, then
/// the runs other than `.`. Special components hold a `/`, which no run
/// holds.
pub open spec fn components(p: Seq<char>, style: PathStyle) -> Seq<Seq<char>> {
    if has_drive(p, style) {
        let rest = p.skip(2);
        seq![drive_token(p[0])] + (if starts_with_sep(rest, style) { seq![root_token()] } else { Seq::empty() })
            + named_from(path_runs(rest, style), 0)
    } else if has_unc(p, style) {
        let runs = path_runs(p, style);
        seq![unc_token()] + runs.take(prefix_runs(runs)) + named_from(runs, prefix_runs(runs))
    } else if starts_with_sep(p, style) {
        seq![root_token()] + named_from(path_runs(p, style), 0)
    } else {
        named_from(path_runs(p, style), 0)
    }
}

/// The prefix components of `root` that a join keeps when the joined path
/// begins with one separator.
pub open spec fn prefix_components(root: Seq<char>, style: PathStyle) -> Seq<Seq<char>> {
    if has_drive(root, style) {
        seq![drive_token(root[0])]
    } else if has_unc(root, style) {
        let runs = path_runs(root, style);
        seq![unc_token()] + runs.take(prefix_runs(runs))
    } else {
        Seq::empty()
    }
}

/// The components of `root` joined with the anchored path `served`: a
/// prefixed path replaces the root; a path that begins with one separator
/// keeps only the root's prefix.
pub open spec fn joined_components(root: Seq<char>, served: Seq<char>, style: PathStyle) -> Seq<Seq<char>> {
    if has_prefix(served, style) {
        components(served, style)
    } else {
        prefix_components(root, style) + seq![root_token()] + named_from(path_runs(served, style), 0)
    }
}

/// Whether the directory `root` joined with the path `served` still lies
/// within `root`, component by component: a path that is not anchored stays
/// within; an anchored one stays within only when the root is empty, or is
/// anchored and its components begin those of the joined path. Drive
/// letters are compared as written.
pub open spec fn within_root(root: Seq<char>, served: Seq<char>, style: PathStyle) -> bool {
    ||| !is_anchored(served, style)
    ||| root.len() == 0
    ||| (is_anchored(root, style) && components(root, style).is_prefix_of(joined_components(root, served, style)))
}

/// Proof that on Windows a path on another drive than the served directory
/// never lies within it.
pub proof fn lemma_other_drive_leaves_root(root: Seq<char>, served: Seq<char>)
    requires
        has_drive(root, PathStyle::Windows),
        has_drive(served, PathStyle::Windows),
        root[0] != served[0],
    ensures
        !within_root(root, served, PathStyle::Windows),
{
    let rc = components(root, PathStyle::Windows);
    let jc = joined_components(root, served, PathStyle::Windows);
    assert(rc[0] == drive_token(root[0]));
    assert(jc[0] == drive_token(served[0]));
    assert(drive_token(root[0])[1] != drive_token(served[0])[1]);
    if rc.is_prefix_of(jc) {
        assert(rc[0] == jc.subrange(0, rc.len() as int)[0]);
    }
}

/// Proof that on Windows a UNC or device path never lies within a served
/// directory on a drive.
pub proof fn lemma_unc_leaves_drive_root(root: Seq<char>, served: Seq<char>)
    requires
        has_drive(root, PathStyle::Windows),
        has_unc(served, PathStyle::Windows),
    ensures
        !within_root(root, served, PathStyle::Windows),
{
    let rc = components(root, PathStyle::Windows);
    let jc = joined_components(root, served, PathStyle::Windows);
    assert(rc[0] == drive_token(root[0]));
    assert(jc[0] == unc_token());
    assert(drive_token(root[0]).len() != unc_token().len());
    if rc.is_prefix_of(jc) {
        assert(rc[0] == jc.subrange(0, rc.len() as int)[0]);
    }
}

/// The character sequences of a list of character vectors.
pub open spec fn char_views(v: Seq<Vec<char>>) -> Seq<Seq<char>> {
    v.map_values(|x: Vec<char>| x@)
}

fn sep(c: char, style: PathStyle) -> (b: bool)
    ensures
        b == is_sep(c, style),
{
    c == '/' || (style == PathStyle::Windows && c == '\\')
}

fn path_runs_of(v: &Vec<char>, style: PathStyle) -> (r: Vec<Vec<char>>)
    ensures
        char_views(r@) == path_runs(v@, style),
{
    let mut runs: Vec<Vec<char>> = Vec::new();
    let mut in_run = false;
    let mut i: usize = 0;
    while i < v.len()
        invariant
            i <= v.len(),
            char_views(runs@) == path_runs(v@.take(i as int), style),
            in_run == (i > 0 && !is_sep(v@[i - 1], style)),
            in_run ==> runs@.len() >= 1,
        decreases v.len() - i,
    {
        let c = v[i];
        let ghost before = v@.take(i as int);
        let ghost after = v@.take(i + 1);
        let ghost old_views = char_views(runs@);
        assert(after.drop_last() =~= before);
        assert(after.last() == c);
        if sep(c, style) {
            in_run = false;
        } else if in_run {
            assert(after[after.len() - 2] == v@[i - 1]);
            let mut last = runs.pop().unwrap();
            last.push(c);
            runs.push(last);
            assert(char_views(runs@) =~= old_views.update(old_views.len() - 1, old_views.last().push(c)));
        } else {
            assert(i > 0 ==> after[after.len() - 2] == v@[i - 1]);
            let mut run: Vec<char> = Vec::new();
            run.push(c);
            assert(run@ =~= seq![c]);
            runs.push(run);
            assert(char_views(runs@) =~= old_views.push(seq![c]));
            in_run = true;
        }
        i = i + 1;
    }
    assert(v@.take(v.len() as int) =~= v@);
    runs
}

fn is_dot(seg: &Vec<char>) -> (b: bool)
    ensures
        b == !is_named(seg@),
{
    proof {
        reveal_strlit(".");
    }
    if seg.len() == 1 && seg[0] == '.' {
        assert(seg@ =~= "."@);
        true
    } else {
        assert(seg@ != "."@) by {
            if seg@ == "."@ {
                assert(seg@.len() == 1 && seg@[0] == '.');
            }
        }
        false
    }
}

/// Appends to `out` the runs of `runs` from `from` on that name components.
fn push_named(out: &mut Vec<Vec<char>>, runs: &Vec<Vec<char>>, from: usize)
    requires
        from <= runs.len(),
    ensures
        char_views(final(out)@) == char_views(old(out)@) + named_from(char_views(runs@), from as int),
{
    let ghost rv = char_views(runs@).skip(from as int);
    let ghost keep = |seg: Seq<char>| is_named(seg);
    let ghost start = char_views(out@);
    let mut i: usize = from;
    assert(rv.take(0).filter(keep) =~= Seq::<Seq<char>>::empty()) by {
        reveal(Seq::filter);
    }
    assert(start + rv.take(0).filter(keep) =~= start);
    while i < runs.len()
        invariant
            from <= i <= runs.len(),
            rv == char_views(runs@).skip(from as int),
            keep == (|seg: Seq<char>| is_named(seg)),
            char_views(out@) == start + rv.take(i - from).filter(keep),
        decreases runs.len() - i,
    {
        assert(rv.take(i - from + 1) =~= rv.take(i - from).push(runs@[i as int]@));
        proof {
            rv.take(i - from).lemma_filter_push(runs@[i as int]@, keep);
        }
        let ghost old_views = char_views(out@);
        if !is_dot(&runs[i]) {
            out.push(runs[i].clone());
            assert(char_views(out@) =~= old_views.push(runs@[i as int]@));
        } else {
            assert(char_views(out@) =~= old_views);
        }
        i = i + 1;
    }
    assert(rv.take(runs.len() - from) =~= rv);
}

/// Appends to `out` the runs that complete a prefix of two separators, and
/// returns how many they are.
fn push_first_two(out: &mut Vec<Vec<char>>, runs: &Vec<Vec<char>>) -> (n: usize)
    ensures
        n == prefix_runs(char_views(runs@)),
        char_views(final(out)@) == char_views(old(out)@) + char_views(runs@).take(n as int),
{
    let n: usize = if runs.len() < 2 { runs.len() } else { 2 };
    let ghost start = char_views(out@);
    let mut i: usize = 0;
    while i < n
        invariant
            n <= runs.len(),
            n == (if runs@.len() < 2 { runs@.len() as int } else { 2 }),
            i <= n,
            char_views(out@) == start + char_views(runs@).take(i as int),
        decreases n - i,
    {
        out.push(runs[i].clone());
        assert(start + char_views(runs@).take(i + 1) =~= (start + char_views(runs@).take(i as int)).push(
            runs@[i as int]@,
        ));
        i = i + 1;
    }
    n
}

fn has_drive_of(v: &Vec<char>, style: PathStyle) -> (b: bool)
    ensures
        b == has_drive(v@, style),
{
    style == PathStyle::Windows && v.len() >= 2 && v[1] == ':' && (('a' <= v[0] && v[0] <= 'z') || ('A' <= v[0]
        && v[0] <= 'Z'))
}

fn has_unc_of(v: &Vec<char>, style: PathStyle) -> (b: bool)
    ensures
        b == has_unc(v@, style),
{
    style == PathStyle::Windows && v.len() >= 2 && sep(v[0], style) && sep(v[1], style)
}

fn drive_token_of(d: char) -> (v: Vec<char>)
    ensures
        v@ == drive_token(d),
{
    let mut v: Vec<char> = Vec::new();
    v.push('/');
    v.push(d);
    v.push(':');
    assert(v@ =~= drive_token(d));
    v
}

fn root_token_of() -> (v: Vec<char>)
    ensures
        v@ == root_token(),
{
    let mut v: Vec<char> = Vec::new();
    v.push('/');
    assert(v@ =~= root_token());
    v
}

fn unc_token_of() -> (v: Vec<char>)
    ensures
        v@ == unc_token(),
{
    let mut v: Vec<char> = Vec::new();
    v.push('/');
    v.push('/');
    assert(v@ =~= unc_token());
    v
}

fn components_of(v: &Vec<char>, style: PathStyle) -> (r: Vec<Vec<char>>)
    ensures
        char_views(r@) == components(v@, style),
{
    let mut out: Vec<Vec<char>> = Vec::new();
    if has_drive_of(v, style) {
        out.push(drive_token_of(v[0]));
        let rest = sub_chars(v, 2, v.len());
        if rest.len() > 0 && sep(rest[0], style) {
            out.push(root_token_of());
        }
        let runs = path_runs_of(&rest, style);
        push_named(&mut out, &runs, 0);
        assert(char_views(out@) =~= components(v@, style));
    } else if has_unc_of(v, style) {
        out.push(unc_token_of());
        let runs = path_runs_of(v, style);
        let n = push_first_two(&mut out, &runs);
        push_named(&mut out, &runs, n);
        assert(char_views(out@) =~= components(v@, style));
    } else if v.len() > 0 && sep(v[0], style) {
        out.push(root_token_of());
        let runs = path_runs_of(v, style);
        push_named(&mut out, &runs, 0);
        assert(char_views(out@) =~= components(v@, style));
    } else {
        let runs = path_runs_of(v, style);
        push_named(&mut out, &runs, 0);
        assert(char_views(out@) =~= components(v@, style));
    }
    out
}

fn joined_components_of(root: &Vec<char>, served: &Vec<char>, style: PathStyle) -> (r: Vec<Vec<char>>)
    ensures
        char_views(r@) == joined_components(root@, served@, style),
{
    if has_drive_of(served, style) || has_unc_of(served, style) {
        return components_of(served, style);
    }
    let mut out: Vec<Vec<char>> = Vec::new();
    if has_drive_of(root, style) {
        out.push(drive_token_of(root[0]));
    } else if has_unc_of(root, style) {
        out.push(unc_token_of());
        let runs = path_runs_of(root, style);
        let _ = push_first_two(&mut out, &runs);
    }
    assert(char_views(out@) =~= prefix_components(root@, style));
    out.push(root_token_of());
    let runs = path_runs_of(served, style);
    push_named(&mut out, &runs, 0);
    assert(char_views(out@) =~= joined_components(root@, served@, style));
    out
}

fn same_chars(a: &Vec<char>, b: &Vec<char>) -> (r: bool)
    ensures
        r == (a@ == b@),
{
    if a.len() != b.len() {
        return false;
    }
    let mut i: usize = 0;
    while i < a.len()
        invariant
            a.len() == b.len(),
            i <= a.len(),
            forall|k: int| 0 <= k < i ==> a@[k] == b@[k],
        decreases a.len() - i,
    {
        if a[i] != b[i] {
            return false;
        }
        i = i + 1;
    }
    assert(a@ =~= b@);
    true
}

fn begins_with(whole: &Vec<Vec<char>>, part: &Vec<Vec<char>>) -> (b: bool)
    ensures
        b == char_views(part@).is_prefix_of(char_views(whole@)),
{
    let ghost a = char_views(part@);
    let ghost w = char_views(whole@);
    if part.len() > whole.len() {
        return false;
    }
    let mut i: usize = 0;
    while i < part.len()
        invariant
            part.len() <= whole.len(),
            i <= part.len(),
            a == char_views(part@),
            w == char_views(whole@),
            forall|k: int| 0 <= k < i ==> a[k] == w[k],
        decreases part.len() - i,
    {
        if !same_chars(&part[i], &whole[i]) {
            assert(a[i as int] != w[i as int]);
            assert(!a.is_prefix_of(w)) by {
                if a.is_prefix_of(w) {
                    assert(a[i as int] == w.subrange(0, a.len() as int)[i as int]);
                }
            }
            return false;
        }
        i = i + 1;
    }
    assert(a =~= w.subrange(0, a.len() as int));
    true
}

/// Whether the directory `root` joined with the path `served` still lies
/// within `root` on a platform of style `style` (see `within_root`).
pub fn within_root_of(root: &str, served: &str, style: PathStyle) -> (b: bool)
    ensures
        b == within_root(root@, served@, style),
{
    let s = chars_of(served);
    let served_anchored = has_drive_of(&s, style) || has_unc_of(&s, style) || (s.len() > 0 && sep(s[0], style));
    if !served_anchored {
        return true;
    }
    let r = chars_of(root);
    if r.len() == 0 {
        return true;
    }
    let root_anchored = has_drive_of(&r, style) || has_unc_of(&r, style) || sep(r[0], style);
    if !root_anchored {
        return false;
    }
    let rc = components_of(&r, style);
    let jc = joined_components_of(&r, &s, style);
    begins_with(&jc, &rc)
}

} // verus!
