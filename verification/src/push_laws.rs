//! What pushing onto a path does to its components.
use vstd::prelude::*;
use vstd::utf8::valid_utf8;
use crate::text::{is_ascii_byte, lemma_boundary_after_ascii};
use crate::path_model::{
    CompView, RootView, classify, body_comps, path_components, spec_parse_root, root_view_len,
    root_cut_len, lemma_root_cut_len, root_part, has_cur_dir, body_start, is_sep_spec,
    starts_unc, next_seg, find_sep_from, lemma_find_sep_from, lemma_find_sep_unique,
    find_colon_or_sep_from, lemma_find_colon_or_sep_from, lemma_find_colon_or_sep_unique,
    spec_parse_drive, lemma_body_comps_split, lemma_body_comps_no_sep, lemma_body_comps_empty,
    lemma_path_components_empty, parent_exists, starts_cur_dir,
};
use crate::path_buf::{push_spec, need_sep};
use crate::path::comps_prefix;
use crate::path_model::{comp_same, comps_same, lemma_no_components_empty};

verus! {

/// The root of the path, if it has one, is written out in full.
pub open spec fn root_written(b: Seq<u8>) -> bool {
    match spec_parse_root(b) {
        None => true,
        Some(r) => root_view_len(r) <= b.len(),
    }
}

/// A single plain name: not empty, without separators or `:`, and a normal component.
pub open spec fn plain_name(q: Seq<u8>) -> bool {
    &&& q.len() > 0
    &&& forall|k: int| 0 <= k < q.len() ==> !is_sep_spec(#[trigger] q[k]) && q[k] != 0x3a
    &&& classify(q) == Some(CompView::Normal(q))
}

/// In valid UTF-8, a last byte right after an ASCII byte is ASCII itself.
proof fn lemma_last_byte_ascii(b: Seq<u8>, i: int)
    requires
        valid_utf8(b),
        0 < i,
        i + 1 == b.len(),
        is_ascii_byte(b[i - 1]),
    ensures
        is_ascii_byte(b[i]),
{
    lemma_boundary_after_ascii(b, i - 1);
    vstd::utf8::valid_utf8_split(b, i);
    let t = b.subrange(i, b.len() as int);
    assert(valid_utf8(t));
    assert(t.len() == 1);
    assert(t[0] == b[i]);
    assert(vstd::utf8::valid_first_scalar(t));
}

/// A plain name is a path with no root, whose only component is the name.
pub proof fn lemma_plain_name_components(q: Seq<u8>)
    requires
        plain_name(q),
    ensures
        spec_parse_root(q) is None,
        !has_cur_dir(q),
        path_components(q) == seq![CompView::Normal(q)],
{
    lemma_find_colon_or_sep_from(q, 0);
    lemma_find_colon_or_sep_unique(q, 0, q.len() as int);
    assert(!is_sep_spec(q[0]));
    if q.len() >= 2 {
        assert(q[1] != 0x3a);
    }
    assert(spec_parse_root(q) is None);
    if starts_cur_dir(q) {
        if q.len() == 1 {
            assert(q =~= seq![0x2eu8]);
        } else {
            assert(!is_sep_spec(q[1]));
        }
    }
    assert(body_start(q) == 0);
    assert(q.subrange(0, q.len() as int) =~= q);
    lemma_body_comps_no_sep(q);
    assert(root_part(q) =~= Seq::<CompView>::empty());
    assert(path_components(q) =~= seq![CompView::Normal(q)]);
}

/// A root written out in full stays the root whatever follows it (unless a lone `/` is
/// followed by another separator).
pub proof fn lemma_root_extend(b: Seq<u8>, t: Seq<u8>)
    requires
        valid_utf8(b),
        spec_parse_root(b) is Some,
        root_written(b),
        b.len() >= 2 || t.len() == 0 || !is_sep_spec(t[0]),
    ensures
        spec_parse_root(b + t) == spec_parse_root(b),
        root_cut_len(b + t) == root_cut_len(b),
{
    let p = b + t;
    lemma_root_cut_len(b);
    if b.len() >= 1 {
        assert(p[0] == b[0]);
    }
    if b.len() >= 2 {
        assert(p[1] == b[1]);
    }
    if starts_unc(b) {
        let bb = b.subrange(2, b.len() as int);
        let pp = p.subrange(2, p.len() as int);
        assert(pp =~= bb + t);
        lemma_find_sep_from(bb, 0);
        let f1 = find_sep_from(bb, 0);
        let server = next_seg(bb).0;
        let rb = next_seg(bb).1;
        lemma_find_sep_from(rb, 0);
        let f2 = find_sep_from(rb, 0);
        assert(f1 < bb.len());
        assert(f2 < rb.len());
        assert forall|k: int| 0 <= k < f1 implies !is_sep_spec(#[trigger] pp[k]) by {
            assert(pp[k] == bb[k]);
        }
        assert(pp[f1] == bb[f1]);
        lemma_find_sep_unique(pp, 0, f1);
        let rp = pp.subrange(f1 + 1, pp.len() as int);
        assert(rp =~= rb + t);
        assert forall|k: int| 0 <= k < f2 implies !is_sep_spec(#[trigger] rp[k]) by {
            assert(rp[k] == rb[k]);
        }
        assert(rp[f2] == rb[f2]);
        lemma_find_sep_unique(rp, 0, f2);
        assert(pp.subrange(0, f1) =~= bb.subrange(0, f1));
        assert(rp.subrange(0, f2) =~= rb.subrange(0, f2));
    } else if b.len() >= 1 && is_sep_spec(b[0]) {
        if b.len() == 1 && t.len() > 0 {
            assert(p[1] == t[0]);
        }
    } else if spec_parse_drive(b) is Some {
    } else {
        lemma_find_colon_or_sep_from(b, 0);
        let c = find_colon_or_sep_from(b, 0);
        assert(0 <= c < b.len() && b[c] == 0x3a);
        assert forall|k: int| 0 <= k < c implies !is_sep_spec(#[trigger] p[k]) && p[k] != 0x3a by {
            assert(p[k] == b[k]);
        }
        assert(p[c] == b[c]);
        lemma_find_colon_or_sep_unique(p, 0, c);
        assert(p.subrange(0, c) =~= b.subrange(0, c));
        assert(c + 2 <= b.len());
        assert(p[c + 1] == b[c + 1]);
        if c + 2 < b.len() {
            assert(p[c + 2] == b[c + 2]);
        } else {
            lemma_last_byte_ascii(b, c + 1);
        }
    }
}

/// A path without a root stays without one when a separator follows it, or when it ends in
/// one; a leading `.` keeps its meaning.
pub proof fn lemma_unrooted_extend(b: Seq<u8>, t: Seq<u8>)
    requires
        spec_parse_root(b) is None,
        b.len() > 0,
        t.len() > 0,
        is_sep_spec(t[0]) || is_sep_spec(b[b.len() - 1]),
    ensures
        spec_parse_root(b + t) is None,
        has_cur_dir(b + t) == has_cur_dir(b),
{
    let p = b + t;
    assert(p[0] == b[0]);
    if b.len() >= 2 {
        assert(p[1] == b[1]);
    } else {
        assert(p[1] == t[0]);
        assert(!is_sep_spec(b[0]));
    }
    lemma_find_colon_or_sep_from(b, 0);
    let c = find_colon_or_sep_from(b, 0);
    if c < b.len() {
        assert(is_sep_spec(b[c]));
        assert forall|k: int| 0 <= k < c implies !is_sep_spec(#[trigger] p[k]) && p[k] != 0x3a by {
            assert(p[k] == b[k]);
        }
        assert(p[c] == b[c]);
        lemma_find_colon_or_sep_unique(p, 0, c);
    } else {
        assert(is_sep_spec(t[0]));
        assert forall|k: int| 0 <= k < c implies !is_sep_spec(#[trigger] p[k]) && p[k] != 0x3a by {
            assert(p[k] == b[k]);
        }
        assert(p[c] == t[0]);
        lemma_find_colon_or_sep_unique(p, 0, c);
    }
}

/// Pushing a plain name onto a path with a fully written root adds exactly that name as a
/// last component.
pub proof fn lemma_push_name_components(b: Seq<u8>, q: Seq<u8>)
    requires
        valid_utf8(b),
        root_written(b),
        plain_name(q),
    ensures
        path_components(push_spec(b, q)) == path_components(b).push(CompView::Normal(q)),
{
    lemma_plain_name_components(q);
    if b.len() == 0 {
        lemma_path_components_empty();
        assert(!need_sep(b));
        assert(push_spec(b, q) =~= q);
        assert(path_components(b).push(CompView::Normal(q)) =~= seq![CompView::Normal(q)]);
        return;
    }
    let ns = need_sep(b);
    let t = if ns {
        seq![0x2fu8] + q
    } else {
        q
    };
    let p = b + t;
    assert(push_spec(b, q) =~= p);
    lemma_root_cut_len(b);
    if spec_parse_root(b) is Some {
        if b.len() == 1 {
            assert(is_sep_spec(b[0]));
            assert(!ns);
        }
        lemma_root_extend(b, t);
    } else {
        if !ns {
            assert(is_sep_spec(b[b.len() - 1]));
        }
        lemma_unrooted_extend(b, t);
    }
    let bs = body_start(b);
    assert(body_start(p) == bs);
    assert(p.subrange(0, root_cut_len(b)) =~= b.subrange(0, root_cut_len(b)));
    assert(root_part(p) == root_part(b));
    let x = b.subrange(bs, b.len() as int);
    let y = p.subrange(bs, p.len() as int);
    assert(y =~= x + t);
    if ns {
        assert(y[x.len() as int] == 0x2f);
        lemma_body_comps_split(y, x.len() as int);
        assert(y.subrange(0, x.len() as int) =~= x);
        assert(y.subrange(x.len() + 1int, y.len() as int) =~= q);
    } else if bs == b.len() {
        assert(x =~= Seq::<u8>::empty());
        lemma_body_comps_empty();
        assert(y =~= q);
    } else {
        assert(is_sep_spec(b[b.len() - 1])) by {
            if !is_sep_spec(b[b.len() - 1]) {
                let r = spec_parse_root(b)->0;
                assert(root_view_len(r) == b.len());
                if r is Vfs {
                    assert(root_cut_len(b) == b.len());
                }
            }
        }
        let j = x.len() - 1;
        assert(x[j] == b[b.len() - 1]);
        lemma_body_comps_split(x, j);
        lemma_body_comps_empty();
        assert(x.subrange(j + 1, x.len() as int) =~= Seq::<u8>::empty());
        assert(y[j] == x[j]);
        lemma_body_comps_split(y, j);
        assert(y.subrange(0, j) =~= x.subrange(0, j));
        assert(y.subrange(j + 1, y.len() as int) =~= q);
    }
    lemma_body_comps_no_sep(q);
    assert(path_components(p) =~= path_components(b).push(CompView::Normal(q)));
}

/// A path without a root or a leading `.` has the components of its body.
pub proof fn lemma_unrooted_components(q: Seq<u8>)
    requires
        spec_parse_root(q) is None,
        !has_cur_dir(q),
    ensures
        path_components(q) == body_comps(q),
        q.len() > 0 ==> !is_sep_spec(q[0]),
{
    lemma_root_cut_len(q);
    assert(q.subrange(0, q.len() as int) =~= q);
    assert(path_components(q) =~= body_comps(q));
}

/// The components a path without a root leaves once its leading `.` is dropped.
pub open spec fn comps_without_cur_dir(q: Seq<u8>) -> Seq<CompView> {
    if has_cur_dir(q) {
        path_components(q).drop_first()
    } else {
        path_components(q)
    }
}

/// The body of a path without a root, read as a whole, has its components without the
/// leading `.`; and it does not start with a separator.
pub proof fn lemma_unrooted_body(q: Seq<u8>)
    requires
        spec_parse_root(q) is None,
    ensures
        body_comps(q) == comps_without_cur_dir(q),
        q.len() > 0 ==> !is_sep_spec(q[0]),
{
    lemma_root_cut_len(q);
    if !has_cur_dir(q) {
        lemma_unrooted_components(q);
    } else {
        assert(q[0] == 0x2eu8);
        let r = q.subrange(1, q.len() as int);
        assert(path_components(q) == seq![CompView::CurDir] + body_comps(r));
        assert(path_components(q).drop_first() =~= body_comps(r));
        if q.len() == 1 {
            assert(q =~= seq![0x2eu8]);
            lemma_body_comps_no_sep(q);
            assert(r =~= Seq::<u8>::empty());
            lemma_body_comps_empty();
        } else {
            assert(is_sep_spec(q[1]));
            lemma_body_comps_split(q, 1);
            assert(q.subrange(0, 1) =~= seq![0x2eu8]);
            lemma_body_comps_no_sep(q.subrange(0, 1));
            assert(r[0] == q[1]);
            lemma_body_comps_split(r, 0);
            assert(r.subrange(0, 0) =~= Seq::<u8>::empty());
            lemma_body_comps_empty();
            assert(r.subrange(1, r.len() as int) =~= q.subrange(2, q.len() as int));
        }
    }
}

/// Pushing a path without a root onto a path with a fully written root, with something in
/// it, appends the pushed path's components, less its leading `.`.
#[verifier::spinoff_prover]
#[verifier::rlimit(40)]
pub proof fn lemma_push_body_components(b: Seq<u8>, q: Seq<u8>)
    requires
        valid_utf8(b),
        root_written(b),
        spec_parse_root(q) is None,
        b.len() > 0,
    ensures
        path_components(push_spec(b, q)) == path_components(b) + comps_without_cur_dir(q),
{
    lemma_unrooted_body(q);
    let ns = need_sep(b);
    if !ns && q.len() == 0 {
        assert(push_spec(b, q) =~= b);
        lemma_body_comps_empty();
        assert(path_components(b) + body_comps(q) =~= path_components(b));
        return;
    }
    let t = if ns {
        seq![0x2fu8] + q
    } else {
        q
    };
    let p = b + t;
    assert(push_spec(b, q) =~= p);
    lemma_root_cut_len(b);
    if spec_parse_root(b) is Some {
        if b.len() == 1 {
            assert(is_sep_spec(b[0]));
            assert(!ns);
        }
        lemma_root_extend(b, t);
    } else {
        if !ns {
            assert(is_sep_spec(b[b.len() - 1]));
        }
        lemma_unrooted_extend(b, t);
    }
    let bs = body_start(b);
    assert(body_start(p) == bs);
    assert(p.subrange(0, root_cut_len(b)) =~= b.subrange(0, root_cut_len(b)));
    assert(root_part(p) == root_part(b));
    let x = b.subrange(bs, b.len() as int);
    let y = p.subrange(bs, p.len() as int);
    assert(y =~= x + t);
    if ns {
        assert(y[x.len() as int] == 0x2f);
        lemma_body_comps_split(y, x.len() as int);
        assert(y.subrange(0, x.len() as int) =~= x);
        assert(y.subrange(x.len() + 1int, y.len() as int) =~= q);
    } else if bs == b.len() {
        assert(x =~= Seq::<u8>::empty());
        lemma_body_comps_empty();
        assert(y =~= q);
    } else {
        assert(is_sep_spec(b[b.len() - 1])) by {
            if !is_sep_spec(b[b.len() - 1]) {
                let r = spec_parse_root(b)->0;
                assert(root_view_len(r) == b.len());
                if r is Vfs {
                    assert(root_cut_len(b) == b.len());
                }
            }
        }
        let j = x.len() - 1;
        assert(x[j] == b[b.len() - 1]);
        lemma_body_comps_split(x, j);
        lemma_body_comps_empty();
        assert(x.subrange(j + 1, x.len() as int) =~= Seq::<u8>::empty());
        assert(y[j] == x[j]);
        lemma_body_comps_split(y, j);
        assert(y.subrange(0, j) =~= x.subrange(0, j));
        assert(y.subrange(j + 1, y.len() as int) =~= q);
    }
    assert(path_components(p) =~= path_components(b) + body_comps(q));
}

/// What pushing does to the components: a rooted path replaces the path it is pushed onto;
/// a path without a root, pushed onto a path with something in it (and its root written out
/// in full), adds its components after the path's own, less a leading `.`.
pub proof fn law_push_components(b: Seq<u8>, q: Seq<u8>)
    requires
        valid_utf8(b),
        root_written(b),
        b.len() > 0,
    ensures
        spec_parse_root(q) is Some ==> push_spec(b, q) == q,
        spec_parse_root(q) is None ==> path_components(push_spec(b, q)) == path_components(b)
            + comps_without_cur_dir(q),
{
    if spec_parse_root(q) is None {
        lemma_push_body_components(b, q);
    }
}

/// Pushing a path without a root onto a path with a fully written root appends its
/// components, provided the pushed path does not start with `.` (or nothing comes before it).
pub proof fn lemma_push_unrooted_components(b: Seq<u8>, q: Seq<u8>)
    requires
        valid_utf8(b),
        root_written(b),
        spec_parse_root(q) is None,
        b.len() == 0 || !has_cur_dir(q),
    ensures
        path_components(push_spec(b, q)) == path_components(b) + path_components(q),
{
    if b.len() == 0 {
        lemma_path_components_empty();
        assert(!need_sep(b));
        assert(push_spec(b, q) =~= q);
        assert(path_components(b) + path_components(q) =~= path_components(q));
        return;
    }
    lemma_unrooted_components(q);
    let ns = need_sep(b);
    if !ns && q.len() == 0 {
        assert(push_spec(b, q) =~= b);
        assert(path_components(b) + path_components(q) =~= path_components(b)) by {
            lemma_body_comps_empty();
        }
        return;
    }
    let t = if ns {
        seq![0x2fu8] + q
    } else {
        q
    };
    let p = b + t;
    assert(push_spec(b, q) =~= p);
    lemma_root_cut_len(b);
    if spec_parse_root(b) is Some {
        if b.len() == 1 {
            assert(is_sep_spec(b[0]));
            assert(!ns);
        }
        lemma_root_extend(b, t);
    } else {
        if !ns {
            assert(is_sep_spec(b[b.len() - 1]));
        }
        lemma_unrooted_extend(b, t);
    }
    let bs = body_start(b);
    assert(body_start(p) == bs);
    assert(p.subrange(0, root_cut_len(b)) =~= b.subrange(0, root_cut_len(b)));
    assert(root_part(p) == root_part(b));
    let x = b.subrange(bs, b.len() as int);
    let y = p.subrange(bs, p.len() as int);
    assert(y =~= x + t);
    if ns {
        assert(y[x.len() as int] == 0x2f);
        lemma_body_comps_split(y, x.len() as int);
        assert(y.subrange(0, x.len() as int) =~= x);
        assert(y.subrange(x.len() + 1int, y.len() as int) =~= q);
    } else if bs == b.len() {
        assert(x =~= Seq::<u8>::empty());
        lemma_body_comps_empty();
        assert(y =~= q);
    } else {
        assert(is_sep_spec(b[b.len() - 1])) by {
            if !is_sep_spec(b[b.len() - 1]) {
                let r = spec_parse_root(b)->0;
                assert(root_view_len(r) == b.len());
                if r is Vfs {
                    assert(root_cut_len(b) == b.len());
                }
            }
        }
        let j = x.len() - 1;
        assert(x[j] == b[b.len() - 1]);
        lemma_body_comps_split(x, j);
        lemma_body_comps_empty();
        assert(x.subrange(j + 1, x.len() as int) =~= Seq::<u8>::empty());
        assert(y[j] == x[j]);
        lemma_body_comps_split(y, j);
        assert(y.subrange(0, j) =~= x.subrange(0, j));
        assert(y.subrange(j + 1, y.len() as int) =~= q);
    }
    assert(path_components(p) =~= path_components(b) + path_components(q));
}

/// `Path::strip_prefix` gives a path that, joined onto the base, yields the path again,
/// component by component: when the path starts with the base's components and what is left
/// has the components after them (neither reading as rooted nor starting with `.` when the
/// base has components, as `strip_prefix` promises), joining it onto the base gives the
/// path's components back.  (The base's root must be written out in full.)
pub proof fn law_strip_prefix_join(s: Seq<u8>, base: Seq<u8>, rest: Seq<u8>)
    requires
        valid_utf8(base),
        root_written(base),
        comps_prefix(path_components(s), path_components(base)),
        path_components(rest) == path_components(s).skip(path_components(base).len() as int),
        path_components(base).len() > 0 ==> spec_parse_root(rest) is None && !has_cur_dir(rest),
    ensures
        comps_same(path_components(push_spec(base, rest)), path_components(s)),
{
    let a = path_components(s);
    let c = path_components(base);
    let n = c.len() as int;
    if n == 0 {
        lemma_no_components_empty(base);
        assert(a.skip(0) =~= a);
        if spec_parse_root(rest) is None {
            lemma_push_unrooted_components(base, rest);
            assert(c + a.skip(0) =~= a);
        }
        assert(path_components(push_spec(base, rest)) == a);
    } else {
        lemma_push_unrooted_components(base, rest);
        let joined = path_components(push_spec(base, rest));
        assert(joined == c + a.skip(n));
        assert(joined.len() == a.len());
        assert forall|i: int| 0 <= i < joined.len() implies comp_same(
            #[trigger] joined[i],
            a[i],
        ) by {
            if i < n {
                assert(comp_same(a.take(n)[i], c[i]));
                assert(a.take(n)[i] == a[i]);
                assert(joined[i] == c[i]);
            } else {
                assert(joined[i] == a.skip(n)[i - n]);
            }
        }
    }
}

/// Pushing a plain name onto a path with at least one component and popping it again gives
/// back the path's components.
pub proof fn law_push_then_pop(b: Seq<u8>, q: Seq<u8>)
    requires
        valid_utf8(b),
        root_written(b),
        plain_name(q),
        path_components(b).len() >= 1,
    ensures
        parent_exists(path_components(push_spec(b, q))),
        path_components(push_spec(b, q)).drop_last() == path_components(b),
{
    lemma_push_name_components(b, q);
    assert(path_components(b).push(CompView::Normal(q)).drop_last() =~= path_components(b));
}

} // verus!
