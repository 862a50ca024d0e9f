//! Paths in fully qualified shape: what normalization builds, and why such a path is in the
//! fully qualified form.
use vstd::prelude::*;
use vstd::utf8::valid_utf8;
use crate::path_model::{
    CompView, RootView, path_components, spec_parse_root, root_view_len, root_cut_len,
    lemma_root_cut_len, body_comps, body_start, is_sep_spec, next_seg, find_sep_from,
    lemma_find_sep_from, lemma_find_sep_unique, lemma_body_comps_split, lemma_body_comps_empty,
    lemma_first_component, ascii_upper, starts_unc, root_part, lemma_names_body_no_macro,
};
use crate::path::{PathForm, form_spec, form_fold, form_step};
use crate::push_laws::{root_written, plain_name, lemma_root_extend};

verus! {

/// A path in fully qualified shape on a platform: rooted at a drive or a share on Windows, or
/// at `/` elsewhere, its root written in full, and only names after the root.
pub open spec fn fq_shaped(b: Seq<u8>, windows: bool) -> bool {
    &&& root_written(b)
    &&& spec_parse_root(b) matches Some(r) && (if windows {
        r is Drive || r is WinShare
    } else {
        r is Common
    })
    &&& forall|i: int| 1 <= i < path_components(b).len() ==> #[trigger] path_components(b)[i] is Normal
    &&& !b.subrange(0, root_cut_len(b)).contains(0x3cu8)
}

/// The names in a path's root (those of a share) hold no `<`.
pub open spec fn root_names_plain(b: Seq<u8>) -> bool {
    match spec_parse_root(b) {
        Some(RootView::WinShare(server, share)) => !server.contains(0x3cu8) && !share.contains(0x3cu8),
        _ => true,
    }
}

/// Every name among the components is a plain name: without `:`.
pub open spec fn names_plain(b: Seq<u8>) -> bool {
    forall|i: int|
        0 <= i < path_components(b).len() ==> (#[trigger] path_components(b)[i] matches CompView::Normal(
            s,
        ) ==> plain_name(s))
}

/// Names leave the form as it is.
pub proof fn lemma_form_fold_names(c: Seq<CompView>, f: PathForm, windows: bool)
    requires
        forall|i: int| 0 <= i < c.len() ==> #[trigger] c[i] is Normal,
    ensures
        form_fold(c, f, windows) == f,
    decreases c.len(),
{
    if c.len() > 0 {
        assert(c[0] is Normal);
        lemma_form_fold_names(c.drop_first(), f, windows);
    }
}

/// A path in fully qualified shape is in the fully qualified form.
pub proof fn lemma_fq_form(b: Seq<u8>, windows: bool)
    requires
        fq_shaped(b, windows),
    ensures
        form_spec(b, windows) == PathForm::FullyQualified,
{
    lemma_first_component(b);
    let c = path_components(b);
    let r = spec_parse_root(b)->0;
    assert(form_step(c[0], PathForm::FullyQualified, windows) == PathForm::FullyQualified);
    let rest = c.drop_first();
    assert forall|i: int| 0 <= i < rest.len() implies #[trigger] rest[i] is Normal by {
        assert(rest[i] == c[i + 1]);
    }
    lemma_form_fold_names(rest, PathForm::FullyQualified, windows);
    lemma_root_cut_len(b);
    let rcl = root_cut_len(b);
    let body = b.subrange(body_start(b), b.len() as int);
    assert(path_components(b) == root_part(b) + body_comps(body));
    assert forall|i: int| 0 <= i < body_comps(body).len() implies #[trigger] body_comps(body)[i] is Normal by {
        assert(c[i + 1] == body_comps(body)[i]);
    }
    lemma_names_body_no_macro(body);
    assert(b =~= b.subrange(0, rcl) + body);
    if b.contains(0x3cu8) {
        let k = choose|k: int| 0 <= k < b.len() && b[k] == 0x3cu8;
        if k < rcl {
            assert(b.subrange(0, rcl)[k] == b[k]);
        } else {
            assert(body[k - rcl] == b[k]);
        }
    }
}

/// A path whose first component is that of a path with a fully written root, not a mount
/// point, has the same root, written in full.
pub proof fn lemma_root_kept(old: Seq<u8>, new: Seq<u8>)
    requires
        root_written(old),
        spec_parse_root(old) is Some,
        !(spec_parse_root(old)->0 is Vfs),
        path_components(new).len() > 0,
        path_components(new)[0] == path_components(old)[0],
    ensures
        spec_parse_root(new) == spec_parse_root(old),
        root_written(new),
        new.subrange(0, root_cut_len(new)) == old.subrange(0, root_cut_len(old)),
{
    lemma_first_component(old);
    lemma_first_component(new);
    lemma_root_cut_len(old);
    lemma_root_cut_len(new);
    if spec_parse_root(new) is None {
        assert(!(path_components(new)[0] is Root));
    }
    let r = spec_parse_root(old)->0;
    assert(old.subrange(0, root_cut_len(old)).len() == root_cut_len(old));
    assert(new.subrange(0, root_cut_len(new)).len() == root_cut_len(new));
    assert(root_cut_len(new) == root_cut_len(old));
}

/// The working directory and a separator: in fully qualified shape when the working
/// directory is, unless it is a lone `/`.
pub proof fn lemma_wd_slash(wd: Seq<u8>, windows: bool)
    requires
        valid_utf8(wd),
        fq_shaped(wd, windows),
        wd.len() >= 2,
    ensures
        fq_shaped(wd + seq![0x2fu8], windows),
{
    let t = seq![0x2fu8];
    let p = wd + t;
    lemma_root_extend(wd, t);
    lemma_root_cut_len(wd);
    let rcl = root_cut_len(wd);
    assert(body_start(p) == body_start(wd));
    assert(p.subrange(0, rcl) =~= wd.subrange(0, rcl));
    let x = wd.subrange(rcl, wd.len() as int);
    let y = p.subrange(rcl, p.len() as int);
    assert(y =~= x + t);
    assert(y[x.len() as int] == 0x2f);
    lemma_body_comps_split(y, x.len() as int);
    assert(y.subrange(0, x.len() as int) =~= x);
    assert(y.subrange(x.len() + 1int, y.len() as int) =~= Seq::<u8>::empty());
    lemma_body_comps_empty();
    assert(path_components(p) =~= path_components(wd));
}

/// A drive root written out: `X:/`.
pub proof fn lemma_drive_start(d: u8)
    requires
        0x41 <= d <= 0x5a,
    ensures
        fq_shaped(seq![d, 0x3au8, 0x2fu8], true),
        spec_parse_root(seq![d, 0x3au8, 0x2fu8]) == Some(RootView::Drive(d)),
{
    let v = seq![d, 0x3au8, 0x2fu8];
    assert(v.subrange(0, 2) =~= seq![d, 0x3au8]);
    assert(ascii_upper(d) == d);
    assert(spec_parse_root(v) == Some(RootView::Drive(d)));
    lemma_root_cut_len(v);
    assert(root_cut_len(v) == 2);
    let body = v.subrange(2, 3);
    assert(body =~= seq![0x2fu8]);
    lemma_body_comps_split(body, 0);
    assert(body.subrange(0, 0) =~= Seq::<u8>::empty());
    assert(body.subrange(1, 1) =~= Seq::<u8>::empty());
    lemma_body_comps_empty();
    assert(path_components(v).len() == 1);
}

/// A share root written out: `//server/share/`.
pub proof fn lemma_share_start(server: Seq<u8>, share: Seq<u8>)
    requires
        forall|k: int| 0 <= k < server.len() ==> !is_sep_spec(#[trigger] server[k]),
        forall|k: int| 0 <= k < share.len() ==> !is_sep_spec(#[trigger] share[k]),
        !server.contains(0x3cu8),
        !share.contains(0x3cu8),
    ensures
        fq_shaped(seq![0x2fu8, 0x2fu8] + server + seq![0x2fu8] + share + seq![0x2fu8], true),
        spec_parse_root(seq![0x2fu8, 0x2fu8] + server + seq![0x2fu8] + share + seq![0x2fu8])
            == Some(RootView::WinShare(server, share)),
{
    let v = seq![0x2fu8, 0x2fu8] + server + seq![0x2fu8] + share + seq![0x2fu8];
    assert(starts_unc(v));
    let p = v.subrange(2, v.len() as int);
    assert(p =~= server + seq![0x2fu8] + share + seq![0x2fu8]);
    assert forall|k: int| 0 <= k < server.len() implies !is_sep_spec(#[trigger] p[k]) by {
        assert(p[k] == server[k]);
    }
    assert(p[server.len() as int] == 0x2f);
    lemma_find_sep_unique(p, 0, server.len() as int);
    assert(p.subrange(0, server.len() as int) =~= server);
    let q = p.subrange(server.len() + 1int, p.len() as int);
    assert(q =~= share + seq![0x2fu8]);
    assert(next_seg(p).1 == q);
    assert forall|k: int| 0 <= k < share.len() implies !is_sep_spec(#[trigger] q[k]) by {
        assert(q[k] == share[k]);
    }
    assert(q[share.len() as int] == 0x2f);
    lemma_find_sep_unique(q, 0, share.len() as int);
    assert(q.subrange(0, share.len() as int) =~= share);
    assert(spec_parse_root(v) == Some(RootView::WinShare(server, share)));
    lemma_root_cut_len(v);
    assert(root_view_len(RootView::WinShare(server, share)) == v.len());
    assert(root_cut_len(v) == v.len());
    assert(v.subrange(v.len() as int, v.len() as int) =~= Seq::<u8>::empty());
    lemma_body_comps_empty();
    assert(path_components(v).len() == 1);
    assert(v.subrange(0, v.len() as int) =~= v);
    if v.contains(0x3cu8) {
        let k = choose|k: int| 0 <= k < v.len() && v[k] == 0x3cu8;
        let a = 2 + server.len();
        if 2 <= k < a {
            assert(server[k - 2] == v[k]);
        } else if a + 1 <= k < a + 1 + share.len() {
            assert(share[k - a - 1] == v[k]);
        }
    }
}

/// The root `/` written out.
pub proof fn lemma_common_start()
    ensures
        fq_shaped(seq![0x2fu8], false),
        spec_parse_root(seq![0x2fu8]) == Some(RootView::Common),
{
    let v = seq![0x2fu8];
    assert(v.subrange(0, 1) =~= v);
    assert(spec_parse_root(v) == Some(RootView::Common));
    lemma_root_cut_len(v);
    assert(v.subrange(1, 1) =~= Seq::<u8>::empty());
    lemma_body_comps_empty();
    assert(path_components(v).len() == 1);
}

/// The server and the share of a share root hold no separators.
pub proof fn lemma_share_parts(b: Seq<u8>)
    requires
        spec_parse_root(b) matches Some(RootView::WinShare(_, _)),
    ensures
        spec_parse_root(b) matches Some(RootView::WinShare(server, share)) && (forall|k: int|
            0 <= k < server.len() ==> !is_sep_spec(#[trigger] server[k])) && (forall|k: int|
            0 <= k < share.len() ==> !is_sep_spec(#[trigger] share[k])),
{
    let p = b.subrange(2, b.len() as int);
    lemma_find_sep_from(p, 0);
    let r = next_seg(p).1;
    lemma_find_sep_from(r, 0);
}

} // verus!
