//! The mathematical model of a path: its bytes split into components.
//!
//! A path is read as a byte sequence.  It may start with a root (`C:`, `//server/share/`,
//! `/` or `mount:/`), then with a `.` that stands for the current directory, and then holds
//! a body whose separator-delimited segments become components; empty segments and `.`
//! segments produce no component.
use vstd::prelude::*;
use crate::text::cut_ok;

verus! {

/// `<`, which opens a macro.
pub open spec fn b_lt() -> u8 { 0x3c }
/// `>`, which closes a macro.
pub open spec fn b_gt() -> u8 { 0x3e }

/// `/` or `\`.
pub open spec fn is_sep_spec(b: u8) -> bool {
    b == 0x2f || b == 0x5c
}

/// The index of the first separator at or after `i`, or the length when there is none.
pub open spec fn find_sep_from(b: Seq<u8>, i: int) -> int
    decreases b.len() - i,
{
    if i >= b.len() {
        b.len() as int
    } else if is_sep_spec(b[i]) {
        i
    } else {
        find_sep_from(b, i + 1)
    }
}

/// The index of the last separator in `[lo, j)`, or -1 when there is none.
pub open spec fn rfind_sep_in(b: Seq<u8>, lo: int, j: int) -> int
    decreases j - lo,
{
    if j <= lo {
        -1
    } else if is_sep_spec(b[j - 1]) {
        j - 1
    } else {
        rfind_sep_in(b, lo, j - 1)
    }
}

pub proof fn lemma_find_sep_from(b: Seq<u8>, i: int)
    requires
        0 <= i <= b.len(),
    ensures
        i <= find_sep_from(b, i) <= b.len(),
        forall|k: int| i <= k < find_sep_from(b, i) ==> !is_sep_spec(#[trigger] b[k]),
        find_sep_from(b, i) < b.len() ==> is_sep_spec(b[find_sep_from(b, i)]),
    decreases b.len() - i,
{
    if i < b.len() && !is_sep_spec(b[i]) {
        lemma_find_sep_from(b, i + 1);
    }
}

/// A separator-free stretch determines the first separator.
pub proof fn lemma_find_sep_unique(b: Seq<u8>, i: int, f: int)
    requires
        0 <= i <= f <= b.len(),
        forall|k: int| i <= k < f ==> !is_sep_spec(#[trigger] b[k]),
        f == b.len() || is_sep_spec(b[f]),
    ensures
        find_sep_from(b, i) == f,
    decreases f - i,
{
    if i < f {
        lemma_find_sep_unique(b, i + 1, f);
    }
}

pub proof fn lemma_rfind_sep_in(b: Seq<u8>, lo: int, j: int)
    requires
        0 <= lo <= j <= b.len(),
    ensures
        rfind_sep_in(b, lo, j) == -1 || lo <= rfind_sep_in(b, lo, j) < j,
        forall|k: int| lo <= k < j && k > rfind_sep_in(b, lo, j) ==> !is_sep_spec(#[trigger] b[k]),
        rfind_sep_in(b, lo, j) >= 0 ==> is_sep_spec(b[rfind_sep_in(b, lo, j)]),
    decreases j - lo,
{
    if j > lo && !is_sep_spec(b[j - 1]) {
        lemma_rfind_sep_in(b, lo, j - 1);
    }
}

/// The parsed part of a root.
pub enum RootView {
    Drive(u8),
    WinShare(Seq<u8>, Seq<u8>),
    Common,
    Vfs(Seq<u8>),
}

/// One component of a path, as values.
pub enum CompView {
    /// A root: its raw bytes and what was parsed from them.
    Root(Seq<u8>, RootView),
    CurDir,
    ParentDir,
    Normal(Seq<u8>),
    Vfs(Seq<u8>),
    Wildcard(Seq<u8>),
}

/// Equality of components as the library compares them: roots by their parsed part only.
pub open spec fn comp_same(a: CompView, b: CompView) -> bool {
    match (a, b) {
        (CompView::Root(_, ra), CompView::Root(_, rb)) => ra == rb,
        _ => a == b,
    }
}

/// Component-wise equality of two component sequences.
pub open spec fn comps_same(a: Seq<CompView>, b: Seq<CompView>) -> bool {
    &&& a.len() == b.len()
    &&& forall|i: int| 0 <= i < a.len() ==> comp_same(#[trigger] a[i], b[i])
}

/// What a single separator-free segment stands for: `""` and `"."` stand for nothing.
pub open spec fn classify(seg: Seq<u8>) -> Option<CompView> {
    if seg.len() == 0 {
        None
    } else if seg =~= seq![0x2eu8] {
        None
    } else if seg =~= seq![0x2eu8, 0x2eu8] {
        Some(CompView::ParentDir)
    } else if seg.contains(0x3cu8) {
        Some(CompView::Vfs(seg))
    } else if seg.contains(0x2au8) || seg.contains(0x3fu8) {
        Some(CompView::Wildcard(seg))
    } else {
        Some(CompView::Normal(seg))
    }
}

pub open spec fn opt_seq(o: Option<CompView>) -> Seq<CompView> {
    match o {
        Some(c) => seq![c],
        None => seq![],
    }
}

/// The components of a body: its segments between separators, read from the front.
pub open spec fn body_comps(b: Seq<u8>) -> Seq<CompView>
    decreases b.len(),
{
    let f = find_sep_from(b, 0);
    if f >= b.len() || f < 0 {
        opt_seq(classify(b))
    } else {
        opt_seq(classify(b.subrange(0, f))) + body_comps(b.subrange(f + 1, b.len() as int))
    }
}

pub proof fn lemma_body_comps_no_sep(b: Seq<u8>)
    requires
        forall|k: int| 0 <= k < b.len() ==> !is_sep_spec(#[trigger] b[k]),
    ensures
        body_comps(b) == opt_seq(classify(b)),
{
    lemma_find_sep_unique(b, 0, b.len() as int);
}

pub proof fn lemma_body_comps_empty()
    ensures
        body_comps(Seq::<u8>::empty()) == Seq::<CompView>::empty(),
{
    lemma_body_comps_no_sep(Seq::<u8>::empty());
}

/// Cutting a body at any separator splits its components.
pub proof fn lemma_body_comps_split(b: Seq<u8>, j: int)
    requires
        0 <= j < b.len(),
        is_sep_spec(b[j]),
    ensures
        body_comps(b) == body_comps(b.subrange(0, j)) + body_comps(b.subrange(j + 1, b.len() as int)),
    decreases b.len(),
{
    lemma_find_sep_from(b, 0);
    let f = find_sep_from(b, 0);
    let pre = b.subrange(0, j);
    let post = b.subrange(j + 1, b.len() as int);
    if f == j {
        lemma_body_comps_no_sep(pre);
    } else {
        assert(f < j);
        let mid = b.subrange(f + 1, b.len() as int);
        assert(body_comps(b) == opt_seq(classify(b.subrange(0, f))) + body_comps(mid));
        // the prefix starts with the same segment
        lemma_find_sep_unique(pre, 0, f);
        assert(pre.subrange(0, f) =~= b.subrange(0, f));
        assert(pre.subrange(f + 1, pre.len() as int) =~= b.subrange(f + 1, j));
        assert(body_comps(pre) == opt_seq(classify(b.subrange(0, f))) + body_comps(
            b.subrange(f + 1, j),
        ));
        // induction on the rest
        let j2 = j - f - 1;
        assert(mid[j2] == b[j]);
        lemma_body_comps_split(mid, j2);
        assert(mid.subrange(0, j2) =~= b.subrange(f + 1, j));
        assert(mid.subrange(j2 + 1, mid.len() as int) =~= post);
        assert(body_comps(b) =~= body_comps(pre) + body_comps(post));
    }
}

/// Reading a body from the back: its last segment comes last.
pub proof fn lemma_body_comps_last(b: Seq<u8>, lo: int)
    requires
        0 <= lo < b.len(),
    ensures
        ({
            let i = rfind_sep_in(b, lo, b.len() as int);
            if i < 0 {
                body_comps(b.subrange(lo, b.len() as int)) == opt_seq(
                    classify(b.subrange(lo, b.len() as int)),
                )
            } else {
                body_comps(b.subrange(lo, b.len() as int)) == body_comps(b.subrange(lo, i))
                    + opt_seq(classify(b.subrange(i + 1, b.len() as int)))
            }
        }),
{
    lemma_rfind_sep_in(b, lo, b.len() as int);
    let i = rfind_sep_in(b, lo, b.len() as int);
    let t = b.subrange(lo, b.len() as int);
    if i < 0 {
        assert forall|k: int| 0 <= k < t.len() implies !is_sep_spec(#[trigger] t[k]) by {
            assert(t[k] == b[lo + k]);
        }
        lemma_body_comps_no_sep(t);
    } else {
        assert(t[i - lo] == b[i]);
        lemma_body_comps_split(t, i - lo);
        assert(t.subrange(0, i - lo) =~= b.subrange(lo, i));
        let post = b.subrange(i + 1, b.len() as int);
        assert(t.subrange(i - lo + 1, t.len() as int) =~= post);
        assert forall|k: int| 0 <= k < post.len() implies !is_sep_spec(#[trigger] post[k]) by {
            assert(post[k] == b[i + 1 + k]);
        }
        lemma_body_comps_no_sep(post);
    }
}

} // verus!

verus! {

pub open spec fn is_ascii_alpha(c: u8) -> bool {
    (0x41 <= c <= 0x5a) || (0x61 <= c <= 0x7a)
}

pub open spec fn ascii_upper(c: u8) -> u8 {
    if 0x61 <= c <= 0x7a {
        (c - 32) as u8
    } else {
        c
    }
}

/// A drive prefix such as `C:`, given by its upper-cased letter.
pub open spec fn spec_parse_drive(b: Seq<u8>) -> Option<u8> {
    if b.len() >= 2 && b[1] == 0x3a && is_ascii_alpha(b[0]) {
        Some(ascii_upper(b[0]))
    } else {
        None
    }
}

/// The index of the first `:` or separator at or after `i`, or the length when there is none.
pub open spec fn find_colon_or_sep_from(b: Seq<u8>, i: int) -> int
    decreases b.len() - i,
{
    if i >= b.len() {
        b.len() as int
    } else if b[i] == 0x3a || is_sep_spec(b[i]) {
        i
    } else {
        find_colon_or_sep_from(b, i + 1)
    }
}

pub proof fn lemma_find_colon_or_sep_from(b: Seq<u8>, i: int)
    requires
        0 <= i <= b.len(),
    ensures
        i <= find_colon_or_sep_from(b, i) <= b.len(),
        forall|k: int|
            i <= k < find_colon_or_sep_from(b, i) ==> !is_sep_spec(#[trigger] b[k]) && b[k] != 0x3a,
        find_colon_or_sep_from(b, i) < b.len() ==> (b[find_colon_or_sep_from(b, i)] == 0x3a
            || is_sep_spec(b[find_colon_or_sep_from(b, i)])),
    decreases b.len() - i,
{
    if i < b.len() && !(b[i] == 0x3a || is_sep_spec(b[i])) {
        lemma_find_colon_or_sep_from(b, i + 1);
    }
}

pub proof fn lemma_find_colon_or_sep_unique(b: Seq<u8>, i: int, f: int)
    requires
        0 <= i <= f <= b.len(),
        forall|k: int| i <= k < f ==> !is_sep_spec(#[trigger] b[k]) && b[k] != 0x3a,
        f == b.len() || is_sep_spec(b[f]) || b[f] == 0x3a,
    ensures
        find_colon_or_sep_from(b, i) == f,
    decreases f - i,
{
    if i < f {
        lemma_find_colon_or_sep_unique(b, i + 1, f);
    }
}

/// The first segment of `b` and what follows its separator.
pub open spec fn next_seg(b: Seq<u8>) -> (Seq<u8>, Seq<u8>) {
    let f = find_sep_from(b, 0);
    if 0 <= f < b.len() {
        (b.subrange(0, f), b.subrange(f + 1, b.len() as int))
    } else {
        (b, Seq::<u8>::empty())
    }
}

/// `\\` or `//` at the start.
pub open spec fn starts_unc(b: Seq<u8>) -> bool {
    b.len() >= 2 && ((b[0] == 0x5c && b[1] == 0x5c) || (b[0] == 0x2f && b[1] == 0x2f))
}

/// The root a path starts with, if any.
pub open spec fn spec_parse_root(b: Seq<u8>) -> Option<RootView> {
    if starts_unc(b) {
        let p = b.subrange(2, b.len() as int);
        let server = next_seg(p).0;
        let share = next_seg(next_seg(p).1).0;
        Some(RootView::WinShare(server, share))
    } else if b.len() >= 1 && is_sep_spec(b[0]) {
        Some(RootView::Common)
    } else if spec_parse_drive(b) is Some {
        Some(RootView::Drive(spec_parse_drive(b)->0))
    } else {
        let c = find_colon_or_sep_from(b, 0);
        if 0 <= c < b.len() && b[c] == 0x3a {
            Some(RootView::Vfs(b.subrange(0, c)))
        } else {
            None
        }
    }
}

/// The length of a root as it is written (`Root::len`).
pub open spec fn root_view_len(r: RootView) -> int {
    match r {
        RootView::Drive(_) => 2,
        RootView::WinShare(server, share) => 4 + server.len() + share.len() as int,
        RootView::Common => 1,
        RootView::Vfs(name) => 2 + name.len() as int,
    }
}

/// How many leading bytes of the path its root takes: the written root length, but never past
/// the end of the path, and never through the middle of a character.
pub open spec fn root_cut_len(b: Seq<u8>) -> int {
    match spec_parse_root(b) {
        None => 0,
        Some(r) => match r {
            RootView::Vfs(name) => if name.len() + 2 <= b.len() && cut_ok(b, name.len() + 2int) {
                name.len() + 2int
            } else {
                name.len() + 1int
            },
            _ => if root_view_len(r) > b.len() {
                b.len() as int
            } else {
                root_view_len(r)
            },
        },
    }
}

/// A `.` that stands for the current directory at the start: `.` alone or `.` and a separator.
pub open spec fn starts_cur_dir(b: Seq<u8>) -> bool {
    b.len() >= 1 && b[0] == 0x2e && (b.len() == 1 || is_sep_spec(b[1]))
}

pub open spec fn root_part(b: Seq<u8>) -> Seq<CompView> {
    match spec_parse_root(b) {
        Some(r) => seq![CompView::Root(b.subrange(0, root_cut_len(b)), r)],
        None => seq![],
    }
}

pub open spec fn has_cur_dir(b: Seq<u8>) -> bool {
    spec_parse_root(b) is None && starts_cur_dir(b)
}

/// Where the body starts: after the root and a leading current-directory `.`.
pub open spec fn body_start(b: Seq<u8>) -> int {
    root_cut_len(b) + if has_cur_dir(b) { 1int } else { 0int }
}

/// The components of a whole path.
pub open spec fn path_components(b: Seq<u8>) -> Seq<CompView> {
    root_part(b) + (if has_cur_dir(b) { seq![CompView::CurDir] } else { seq![] }) + body_comps(
        b.subrange(body_start(b), b.len() as int),
    )
}

/// The root of a path takes a positive number of its bytes, and ends where the text may be cut.
pub proof fn lemma_root_cut_len(b: Seq<u8>)
    ensures
        spec_parse_root(b) is None ==> root_cut_len(b) == 0,
        spec_parse_root(b) is Some ==> 0 < root_cut_len(b) <= b.len(),
        spec_parse_root(b) is Some ==> cut_ok(b, root_cut_len(b)),
{
    if starts_unc(b) {
        let p = b.subrange(2, b.len() as int);
        lemma_find_sep_from(p, 0);
        let f1 = find_sep_from(p, 0);
        let server = next_seg(p).0;
        let rest = next_seg(p).1;
        lemma_find_sep_from(rest, 0);
        let f2 = find_sep_from(rest, 0);
        let share = next_seg(rest).0;
        let l = 4 + server.len() + share.len();
        if l <= b.len() {
            assert(f1 < p.len());
            assert(f2 < rest.len());
            assert(rest[f2] == b[3 + f1 + f2]);
        }
    } else if b.len() >= 1 && is_sep_spec(b[0]) {
    } else if spec_parse_drive(b) is Some {
    } else {
        lemma_find_colon_or_sep_from(b, 0);
    }
}

} // verus!

verus! {

/// Why a path is refused.
pub enum RefusalView {
    Empty,
    MacroStart,
    Colon,
    InvalidChars,
    MacroNotClosed,
}

/// Scan a path from position `i` for the first thing that makes it invalid: an empty path,
/// a `<` inside a macro or a `>` outside one, a `:` after the first separator, a `"` or `|`
/// anywhere, a `?` or `*` before the first separator, or a macro left open at the end.
pub open spec fn refusal_from(b: Seq<u8>, i: int, in_macro: bool, pre_slash: bool) -> Option<
    (int, RefusalView),
>
    decreases b.len() - i,
{
    if i >= b.len() {
        if in_macro {
            Some((b.len() as int, RefusalView::MacroNotClosed))
        } else {
            None
        }
    } else {
        let c = b[i];
        if c == 0x3c {
            if in_macro {
                Some((i, RefusalView::MacroStart))
            } else {
                refusal_from(b, i + 1, true, pre_slash)
            }
        } else if c == 0x3e {
            if in_macro {
                refusal_from(b, i + 1, false, pre_slash)
            } else {
                Some((i, RefusalView::MacroStart))
            }
        } else if c == 0x3a {
            if !pre_slash {
                Some((i, RefusalView::Colon))
            } else {
                refusal_from(b, i + 1, in_macro, pre_slash)
            }
        } else if is_sep_spec(c) {
            refusal_from(b, i + 1, in_macro, false)
        } else if c == 0x22 || c == 0x7c {
            Some((i, RefusalView::InvalidChars))
        } else if (c == 0x3f || c == 0x2a) && pre_slash {
            Some((i, RefusalView::InvalidChars))
        } else {
            refusal_from(b, i + 1, in_macro, pre_slash)
        }
    }
}

/// The first reason a path is refused, with the byte index it was found at.
pub open spec fn path_refusal(b: Seq<u8>) -> Option<(int, RefusalView)> {
    if b.len() == 0 {
        Some((0, RefusalView::Empty))
    } else {
        refusal_from(b, 0, false, true)
    }
}

/// A path cut short, but not into its root and not through a character, keeps its root.
pub proof fn lemma_root_prefix(p: Seq<u8>, m: int)
    requires
        root_cut_len(p) <= m <= p.len(),
        cut_ok(p, m),
    ensures
        spec_parse_root(p.subrange(0, m)) == spec_parse_root(p),
        root_cut_len(p.subrange(0, m)) == root_cut_len(p),
{
    let q = p.subrange(0, m);
    lemma_root_cut_len(p);
    if m == p.len() {
        assert(q =~= p);
        return;
    }
    if m >= 1 {
        assert(q[0] == p[0]);
    }
    if m >= 2 {
        assert(q[1] == p[1]);
    }
    if starts_unc(p) {
        let pp = p.subrange(2, p.len() as int);
        let qq = q.subrange(2, q.len() as int);
        lemma_find_sep_from(pp, 0);
        let f1 = find_sep_from(pp, 0);
        let rp = pp.subrange(f1 + 1, pp.len() as int);
        lemma_find_sep_from(rp, 0);
        let f2 = find_sep_from(rp, 0);
        // the root ends before the cut, so both of its separators are kept
        assert(f1 < pp.len());
        assert(f2 < rp.len());
        assert(qq =~= pp.subrange(0, m - 2));
        assert forall|k: int| 0 <= k < f1 implies !is_sep_spec(#[trigger] qq[k]) by {
            assert(qq[k] == pp[k]);
        }
        assert(qq[f1] == pp[f1]);
        lemma_find_sep_unique(qq, 0, f1);
        let rq = qq.subrange(f1 + 1, qq.len() as int);
        assert(rq =~= rp.subrange(0, m - 3 - f1));
        assert forall|k: int| 0 <= k < f2 implies !is_sep_spec(#[trigger] rq[k]) by {
            assert(rq[k] == rp[k]);
        }
        assert(rq[f2] == rp[f2]);
        lemma_find_sep_unique(rq, 0, f2);
        assert(qq.subrange(0, f1) =~= pp.subrange(0, f1));
        assert(rq.subrange(0, f2) =~= rp.subrange(0, f2));
    } else if p.len() >= 1 && is_sep_spec(p[0]) {
    } else if spec_parse_drive(p) is Some {
    } else {
        lemma_find_colon_or_sep_from(p, 0);
        let c = find_colon_or_sep_from(p, 0);
        if 0 <= c < p.len() && p[c] == 0x3a {
            // a mount-point root
            assert(c < m);
            assert forall|k: int| 0 <= k < c implies !is_sep_spec(#[trigger] q[k]) && q[k] != 0x3a by {
                assert(q[k] == p[k]);
            }
            assert(q[c] == p[c]);
            lemma_find_colon_or_sep_unique(q, 0, c);
            assert(q.subrange(0, c) =~= p.subrange(0, c));
            if c + 2 <= m {
                assert(q[c + 1] == p[c + 1]);
                if c + 2 < m {
                    assert(q[c + 2] == p[c + 2]);
                }
                if c + 2 == m {
                    // the cut at `m` may be made, so `m` is a cut place of `p` as well
                    assert(cut_ok(p, c + 2));
                }
            }
        } else {
            if c < m {
                assert forall|k: int| 0 <= k < c implies !is_sep_spec(#[trigger] q[k]) && q[k] != 0x3a by {
                    assert(q[k] == p[k]);
                }
                assert(q[c] == p[c]);
                lemma_find_colon_or_sep_unique(q, 0, c);
            } else {
                assert forall|k: int| 0 <= k < m implies !is_sep_spec(#[trigger] q[k]) && q[k] != 0x3a by {
                    assert(q[k] == p[k]);
                }
                lemma_find_colon_or_sep_unique(q, 0, m);
            }
        }
    }
}

/// The components of a path cut short after its body start, at a separator or at the end.
pub proof fn lemma_prefix_components(p: Seq<u8>, m: int)
    requires
        body_start(p) <= m <= p.len(),
        cut_ok(p, m),
        m == p.len() || m == body_start(p) || is_sep_spec(p[m]),
    ensures
        path_components(p.subrange(0, m)) == root_part(p) + (if has_cur_dir(p) {
            seq![CompView::CurDir]
        } else {
            seq![]
        }) + body_comps(p.subrange(body_start(p), m)),
{
    let q = p.subrange(0, m);
    lemma_root_cut_len(p);
    lemma_root_prefix(p, m);
    if spec_parse_root(p) is None {
        if m >= 1 {
            assert(q[0] == p[0]);
        }
        if m >= 2 {
            assert(q[1] == p[1]);
        }
        assert(has_cur_dir(q) == has_cur_dir(p));
    }
    assert(body_start(q) == body_start(p));
    assert(q.subrange(body_start(q), q.len() as int) =~= p.subrange(body_start(p), m));
    assert(q.subrange(0, root_cut_len(p)) =~= p.subrange(0, root_cut_len(p)));
    assert(root_part(q) == root_part(p));
}

/// A path has a parent when it has something before its last component, and that last
/// component is not a root: a name, `..`, a macro or a wildcard.
pub open spec fn parent_exists(c: Seq<CompView>) -> bool {
    c.len() >= 2 && (c.last() is Normal || c.last() is ParentDir || c.last() is Vfs || c.last() is Wildcard)
}

pub proof fn lemma_path_components_empty()
    ensures
        path_components(Seq::<u8>::empty()) == Seq::<CompView>::empty(),
{
    let e = Seq::<u8>::empty();
    lemma_find_colon_or_sep_from(e, 0);
    assert(spec_parse_root(e) is None);
    assert(e.subrange(0, 0) =~= e);
    lemma_body_comps_empty();
    assert(path_components(e) =~= Seq::<CompView>::empty());
}

/// Only the empty text has no components.
pub proof fn lemma_no_components_empty(b: Seq<u8>)
    ensures
        path_components(b).len() == 0 ==> b.len() == 0,
{
    if b.len() > 0 && path_components(b).len() == 0 {
        assert(spec_parse_root(b) is None) by {
            if spec_parse_root(b) is Some {
                assert(root_part(b).len() == 1);
            }
        }
        assert(!has_cur_dir(b)) by {
            if has_cur_dir(b) {
                assert(path_components(b).len() >= 1);
            }
        }
        assert(b.subrange(0, b.len() as int) =~= b);
        assert(path_components(b) =~= body_comps(b));
        assert(!is_sep_spec(b[0]));
        lemma_find_sep_from(b, 0);
        let f = find_sep_from(b, 0);
        let seg = if f < b.len() { b.subrange(0, f) } else { b };
        assert(body_comps(b) == opt_seq(classify(seg)) + (if f < b.len() {
            body_comps(b.subrange(f + 1, b.len() as int))
        } else {
            Seq::<CompView>::empty()
        }));
        assert(f > 0);
        assert(!(seg =~= seq![0x2eu8])) by {
            if seg =~= seq![0x2eu8] {
                assert(seg[0] == b[0]);
                assert(f == 1);
                assert(b.len() == 1 || is_sep_spec(b[1]));
                assert(starts_cur_dir(b));
            }
        }
        assert(classify(seg) is Some);
        assert(body_comps(b).len() >= 1);
    }
}

/// The first of the components holds a `:` in its name.
pub open spec fn leads_with_colon(c: Seq<CompView>) -> bool {
    c.len() > 0 && match c[0] {
        CompView::Normal(s) => s.contains(0x3au8),
        CompView::Vfs(s) => s.contains(0x3au8),
        CompView::Wildcard(s) => s.contains(0x3au8),
        _ => false,
    }
}

/// A text that starts neither with a separator nor with `.` for the current directory reads
/// as rooted exactly when the first of its components holds a `:`.
pub proof fn lemma_rooted_iff_colon(t: Seq<u8>)
    requires
        t.len() > 0 ==> !is_sep_spec(t[0]),
        !has_cur_dir(t),
    ensures
        (spec_parse_root(t) is Some) == leads_with_colon(body_comps(t)),
{
    if t.len() == 0 {
        lemma_find_colon_or_sep_from(t, 0);
        lemma_body_comps_empty();
        assert(spec_parse_root(t) is None);
    } else {
        lemma_find_sep_from(t, 0);
        lemma_find_colon_or_sep_from(t, 0);
        let f = find_sep_from(t, 0);
        let fc = find_colon_or_sep_from(t, 0);
        assert(fc <= f) by {
            if f < fc {
                assert(!is_sep_spec(t[f]));
            }
        }
        let seg = if f < t.len() { t.subrange(0, f) } else { t };
        assert(body_comps(t) == opt_seq(classify(seg)) + (if f < t.len() {
            body_comps(t.subrange(f + 1, t.len() as int))
        } else {
            Seq::<CompView>::empty()
        }));
        assert(f > 0);
        assert(seg.len() == f);
        if spec_parse_root(t) is Some {
            assert(!starts_unc(t));
            let j: int = if spec_parse_drive(t) is Some { 1 } else { fc };
            assert(j < f && t[j] == 0x3a) by {
                if spec_parse_drive(t) is Some {
                    assert(!is_sep_spec(t[1]));
                    if f <= 1 {
                        assert(f == 1);
                        assert(t.len() >= 2);
                        assert(is_sep_spec(t[1]));
                    }
                } else {
                    assert(fc < t.len() && t[fc] == 0x3a);
                    assert(!is_sep_spec(t[fc]));
                    if f == fc {
                        assert(f < t.len());
                        assert(is_sep_spec(t[f]));
                    }
                }
            }
            assert(seg[j] == 0x3a);
            assert(seg.contains(0x3au8));
            assert(!(seg =~= seq![0x2eu8]));
            assert(!(seg =~= seq![0x2eu8, 0x2eu8]));
            assert(classify(seg) is Some);
            assert(body_comps(t)[0] == classify(seg)->0);
        } else {
            assert(fc == t.len() || is_sep_spec(t[fc]));
            lemma_find_sep_unique(t, 0, fc);
            assert(f == fc);
            assert(!seg.contains(0x3au8)) by {
                if seg.contains(0x3au8) {
                    let k = choose|k: int| 0 <= k < seg.len() && seg[k] == 0x3au8;
                    assert(t[k] == 0x3a);
                }
            }
            assert(!(seg =~= seq![0x2eu8])) by {
                if seg =~= seq![0x2eu8] {
                    assert(seg[0] == t[0]);
                    assert(f == 1);
                    assert(t.len() == 1 || is_sep_spec(t[1]));
                    assert(starts_cur_dir(t));
                }
            }
            assert(classify(seg) is Some);
            assert(body_comps(t)[0] == classify(seg)->0);
        }
    }
}

/// A body never yields a root or a current-directory component.
pub proof fn lemma_body_comps_kinds(b: Seq<u8>)
    ensures
        forall|i: int|
            0 <= i < body_comps(b).len() ==> !(#[trigger] body_comps(b)[i] is Root) && !(
            body_comps(b)[i] is CurDir),
    decreases b.len(),
{
    lemma_find_sep_from(b, 0);
    let f = find_sep_from(b, 0);
    if f >= b.len() || f < 0 {
    } else {
        lemma_body_comps_kinds(b.subrange(f + 1, b.len() as int));
        let head = opt_seq(classify(b.subrange(0, f)));
        let tail = body_comps(b.subrange(f + 1, b.len() as int));
        assert forall|i: int| 0 <= i < body_comps(b).len() implies !(
        #[trigger] body_comps(b)[i] is Root) && !(body_comps(b)[i] is CurDir) by {
            if i >= head.len() {
                assert(body_comps(b)[i] == tail[i - head.len()]);
            }
        }
    }
}

/// A body whose components are all names holds no `<`: a segment with a `<` is a macro.
pub proof fn lemma_names_body_no_macro(b: Seq<u8>)
    requires
        forall|i: int| 0 <= i < body_comps(b).len() ==> #[trigger] body_comps(b)[i] is Normal,
    ensures
        !b.contains(0x3cu8),
    decreases b.len(),
{
    lemma_find_sep_from(b, 0);
    let f = find_sep_from(b, 0);
    if f >= b.len() {
        assert(body_comps(b) == opt_seq(classify(b)));
        if b.contains(0x3cu8) {
            assert(!(b =~= seq![0x2eu8]));
            assert(!(b =~= seq![0x2eu8, 0x2eu8]));
            assert(body_comps(b)[0] is Vfs);
        }
    } else {
        let seg = b.subrange(0, f);
        let rest = b.subrange(f + 1, b.len() as int);
        let head = opt_seq(classify(seg));
        assert(body_comps(b) == head + body_comps(rest));
        assert forall|i: int| 0 <= i < body_comps(rest).len() implies #[trigger] body_comps(rest)[i] is Normal by {
            assert(body_comps(b)[i + head.len()] == body_comps(rest)[i]);
        }
        lemma_names_body_no_macro(rest);
        if seg.contains(0x3cu8) {
            let k = choose|k: int| 0 <= k < seg.len() && seg[k] == 0x3cu8;
            if seg =~= seq![0x2eu8] {
                assert(seg[k] == 0x2eu8);
            }
            if seg =~= seq![0x2eu8, 0x2eu8] {
                assert(seg[k] == 0x2eu8);
            }
            assert(body_comps(b)[0] is Vfs);
        }
        if b.contains(0x3cu8) {
            let k = choose|k: int| 0 <= k < b.len() && b[k] == 0x3cu8;
            if k < f {
                assert(seg[k] == b[k]);
            } else if k > f {
                assert(rest[k - f - 1] == b[k]);
            }
        }
    }
}

/// The first component of a path is its root exactly when it has one.
pub proof fn lemma_first_component(b: Seq<u8>)
    ensures
        spec_parse_root(b) matches Some(r) ==> path_components(b).len() > 0 && path_components(
            b,
        )[0] == CompView::Root(b.subrange(0, root_cut_len(b)), r),
        spec_parse_root(b) is None ==> forall|i: int|
            0 <= i < path_components(b).len() ==> !(#[trigger] path_components(b)[i] is Root),
{
    let body = b.subrange(body_start(b), b.len() as int);
    lemma_body_comps_kinds(body);
    let pre = root_part(b) + (if has_cur_dir(b) {
        seq![CompView::CurDir]
    } else {
        seq![]
    });
    assert(path_components(b) == pre + body_comps(body));
    if spec_parse_root(b) is None {
        assert forall|i: int| 0 <= i < path_components(b).len() implies !(
        #[trigger] path_components(b)[i] is Root) by {
            if i >= pre.len() {
                assert(path_components(b)[i] == body_comps(body)[i - pre.len()]);
            }
        }
    }
}

/// From position `i` on, a `"` or `|` at or after `i` is refused, at its index or earlier.
pub proof fn lemma_quote_bar_refused_from(b: Seq<u8>, i: int, k: int, in_macro: bool, pre_slash: bool)
    requires
        0 <= i <= k < b.len(),
        b[k] == 0x22 || b[k] == 0x7c,
    ensures
        refusal_from(b, i, in_macro, pre_slash) matches Some((j, _)) && j <= k,
    decreases k - i,
{
    let c = b[i];
    if i < k {
        if c == 0x3c {
            if !in_macro {
                lemma_quote_bar_refused_from(b, i + 1, k, true, pre_slash);
            }
        } else if c == 0x3e {
            if in_macro {
                lemma_quote_bar_refused_from(b, i + 1, k, false, pre_slash);
            }
        } else if c == 0x3a {
            if pre_slash {
                lemma_quote_bar_refused_from(b, i + 1, k, in_macro, pre_slash);
            }
        } else if is_sep_spec(c) {
            lemma_quote_bar_refused_from(b, i + 1, k, in_macro, false);
        } else if c == 0x22 || c == 0x7c {
        } else if (c == 0x3f || c == 0x2a) && pre_slash {
        } else {
            lemma_quote_bar_refused_from(b, i + 1, k, in_macro, pre_slash);
        }
    } else {
        assert(!is_sep_spec(c));
    }
}

/// A path holding a `"` or a `|` anywhere is refused, at the first such byte or at an earlier
/// fault.
pub proof fn law_quote_bar_refused(b: Seq<u8>, k: int)
    requires
        0 <= k < b.len(),
        b[k] == 0x22 || b[k] == 0x7c,
    ensures
        path_refusal(b) matches Some((j, _)) && j <= k,
{
    lemma_quote_bar_refused_from(b, 0, k, false, true);
}

/// Where the first fault of a path is a `"` or a `|`, it is refused for invalid characters at
/// that byte.
pub proof fn law_quote_bar_refusal_kind(b: Seq<u8>, k: int)
    requires
        0 <= k < b.len(),
        b[k] == 0x22 || b[k] == 0x7c,
        path_refusal(b) matches Some((j, _)) && j == k,
    ensures
        path_refusal(b) == Some((k, RefusalView::InvalidChars)),
{
    lemma_quote_bar_kind_from(b, 0, k, false, true);
}

proof fn lemma_quote_bar_kind_from(b: Seq<u8>, i: int, k: int, in_macro: bool, pre_slash: bool)
    requires
        0 <= i <= k < b.len(),
        b[k] == 0x22 || b[k] == 0x7c,
        refusal_from(b, i, in_macro, pre_slash) matches Some((j, _)) && j == k,
    ensures
        refusal_from(b, i, in_macro, pre_slash) == Some((k, RefusalView::InvalidChars)),
    decreases k - i,
{
    let c = b[i];
    if i < k {
        if c == 0x3c {
            if !in_macro {
                lemma_quote_bar_kind_from(b, i + 1, k, true, pre_slash);
            }
        } else if c == 0x3e {
            if in_macro {
                lemma_quote_bar_kind_from(b, i + 1, k, false, pre_slash);
            }
        } else if c == 0x3a {
            if pre_slash {
                lemma_quote_bar_kind_from(b, i + 1, k, in_macro, pre_slash);
            }
        } else if is_sep_spec(c) {
            lemma_quote_bar_kind_from(b, i + 1, k, in_macro, false);
        } else if c == 0x22 || c == 0x7c {
        } else if (c == 0x3f || c == 0x2a) && pre_slash {
        } else {
            lemma_quote_bar_kind_from(b, i + 1, k, in_macro, pre_slash);
        }
    } else {
        assert(!is_sep_spec(c));
    }
}

} // verus!
