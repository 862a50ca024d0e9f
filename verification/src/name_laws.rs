//! What changing the extension of a path does: the file name's place in the text, and the
//! law that an extension that was set reads back.
use vstd::prelude::*;
use vstd::utf8::valid_utf8;
use crate::text::{is_ascii_byte, cut_ok};
use crate::path_model::{
    CompView, classify, opt_seq, body_comps, path_components, spec_parse_root, root_view_len,
    root_cut_len, lemma_root_cut_len, root_part, has_cur_dir, body_start, is_sep_spec,
    rfind_sep_in, lemma_rfind_sep_in, lemma_body_comps_last, lemma_body_comps_split,
    lemma_body_comps_no_sep, find_colon_or_sep_from, lemma_find_colon_or_sep_from,
    lemma_find_colon_or_sep_unique, lemma_root_prefix, starts_cur_dir,
};
use crate::components::{trim_back, lemma_trim_back_comps, lemma_rfind_sep_in_prefix};
use crate::path::{
    file_name_spec, name_end, stem_spec, extension_spec, rsplit_at_dot_spec, last_dot,
    is_dot_dot, lemma_file_name_range, lemma_stem_prefix, lemma_last_dot,
};
use crate::push_laws::{root_written, lemma_root_extend, lemma_unrooted_extend};

verus! {

broadcast use vstd::utf8::valid_utf8_split;

/// The components before the body: the root, then a leading `.`.
pub open spec fn head_comps(b: Seq<u8>) -> Seq<CompView> {
    root_part(b) + (if has_cur_dir(b) {
        seq![CompView::CurDir]
    } else {
        seq![]
    })
}

/// Where the file name starts in the text.
pub open spec fn name_start(b: Seq<u8>) -> int {
    name_end(b) - file_name_spec(path_components(b))->0.len()
}

/// The file name sits right after a separator, or at the start of the body; the components
/// are those before it, then the name.
pub proof fn lemma_name_segment(b: Seq<u8>)
    requires
        file_name_spec(path_components(b)) is Some,
    ensures
        ({
            let n = file_name_spec(path_components(b))->0;
            let bs = body_start(b);
            let e = name_end(b);
            let i = rfind_sep_in(b, bs, e);
            let s = name_start(b);
            &&& bs <= s && s < e && e <= b.len() && b.subrange(s, e) == n
            &&& i >= 0 ==> bs <= i && i + 1 == s && is_sep_spec(b[i])
            &&& i < 0 ==> s == bs
            &&& forall|k: int| s <= k < e ==> !is_sep_spec(#[trigger] b[k])
            &&& classify(n) is Some
            &&& path_components(b) == head_comps(b) + (if i >= 0 {
                body_comps(b.subrange(bs, i))
            } else {
                Seq::<CompView>::empty()
            }) + seq![classify(n)->0]
        }),
{
    lemma_file_name_range(b);
    let n = file_name_spec(path_components(b))->0;
    let bs = body_start(b);
    let e = name_end(b);
    lemma_root_cut_len(b);
    lemma_trim_back_comps(b, bs);
    let q = b.subrange(0, e);
    lemma_body_comps_last(q, bs);
    lemma_rfind_sep_in_prefix(b, e, bs, e);
    lemma_rfind_sep_in(b, bs, e);
    let i = rfind_sep_in(b, bs, e);
    assert(q.subrange(bs, q.len() as int) =~= b.subrange(bs, e));
    let c = path_components(b);
    let body = body_comps(b.subrange(bs, b.len() as int));
    assert(c == head_comps(b) + body);
    let seg = if i >= 0 {
        b.subrange(i + 1, e)
    } else {
        b.subrange(bs, e)
    };
    if i >= 0 {
        assert(q.subrange(i + 1, q.len() as int) =~= seg);
        assert(q.subrange(bs, i) =~= b.subrange(bs, i));
    } else {
        assert(q.subrange(bs, q.len() as int) =~= seg);
    }
    let pre = if i >= 0 {
        body_comps(b.subrange(bs, i))
    } else {
        Seq::<CompView>::empty()
    };
    assert(body == pre + opt_seq(classify(seg)));
    assert(e > bs);
    assert(classify(seg) is Some);
    assert(c.last() == classify(seg)->0);
    assert(seg == n);
    assert(c =~= head_comps(b) + pre + seq![classify(n)->0]);
}

/// A name with a new extension: its stem, a `.` and the extension.
pub open spec fn with_ext(n: Seq<u8>, ext: Seq<u8>) -> Seq<u8> {
    stem_spec(n) + seq![0x2eu8] + ext
}

/// An extension that reads back once it is set: not empty, without separators, `.`, `:`, `*`
/// or `?`.
pub open spec fn plain_extension(ext: Seq<u8>) -> bool {
    &&& ext.len() > 0
    &&& forall|k: int|
        0 <= k < ext.len() ==> !is_sep_spec(#[trigger] ext[k]) && ext[k] != 0x2e && ext[k] != 0x3a
            && ext[k] != 0x2a && ext[k] != 0x3f
}

/// `last_dot` passes over a stretch without `.`.
proof fn lemma_last_dot_skip(s: Seq<u8>, j: int, k: int)
    requires
        0 <= k <= j <= s.len(),
        forall|m: int| k <= m < j ==> s[m] != 0x2e,
    ensures
        last_dot(s, j) == last_dot(s, k),
    decreases j - k,
{
    if j > k {
        lemma_last_dot_skip(s, j - 1, k);
    }
}

/// The stem of a name that is a normal or macro component is not empty.
proof fn lemma_stem_not_empty(n: Seq<u8>)
    requires
        n.len() > 0,
        !is_dot_dot(n),
    ensures
        stem_spec(n).len() > 0,
{
    lemma_last_dot(n, n.len() as int);
}

/// The new name is one segment that names a file, its extension is the one set and its
/// stem the old one.
proof fn lemma_new_name(n: Seq<u8>, ext: Seq<u8>)
    requires
        n.len() > 0,
        !is_dot_dot(n),
        forall|k: int| 0 <= k < n.len() ==> !is_sep_spec(#[trigger] n[k]),
        !n.contains(0x2au8),
        !n.contains(0x3fu8),
        plain_extension(ext),
    ensures
        ({
            let seg = with_ext(n, ext);
            &&& seg.len() >= 3
            &&& seg[0] == n[0]
            &&& forall|k: int| 0 <= k < seg.len() ==> !is_sep_spec(#[trigger] seg[k])
            &&& (forall|k: int| 0 <= k < n.len() ==> n[k] != 0x3a) ==> forall|k: int|
                0 <= k < seg.len() ==> #[trigger] seg[k] != 0x3a
            &&& classify(seg) == Some(CompView::Normal(seg)) || classify(seg) == Some(
                CompView::Vfs(seg),
            )
            &&& extension_spec(seg) == Some(ext)
            &&& stem_spec(seg) == stem_spec(n)
        }),
{
    lemma_stem_prefix(n);
    lemma_stem_not_empty(n);
    let stem = stem_spec(n);
    let seg = with_ext(n, ext);
    assert forall|k: int| 0 <= k < seg.len() implies !is_sep_spec(#[trigger] seg[k]) && (seg[k]
        == n[k] || seg[k] == 0x2e || seg[k] == ext[k - stem.len() - 1]) by {
        if k < stem.len() {
            assert(seg[k] == n[k]);
        } else if k > stem.len() {
            assert(seg[k] == ext[k - stem.len() - 1]);
        }
    }
    if (forall|k: int| 0 <= k < n.len() ==> n[k] != 0x3a) {
        assert forall|k: int| 0 <= k < seg.len() implies #[trigger] seg[k] != 0x3a by {
            if k < stem.len() {
                assert(seg[k] == n[k]);
            } else if k > stem.len() {
                assert(seg[k] == ext[k - stem.len() - 1]);
            }
        }
    }
    assert(!seg.contains(0x2au8) && !seg.contains(0x3fu8)) by {
        if seg.contains(0x2au8) {
            let k = choose|k: int| 0 <= k < seg.len() && seg[k] == 0x2au8;
            if k < stem.len() {
                assert(seg[k] == n[k]);
            } else if k > stem.len() {
                assert(seg[k] == ext[k - stem.len() - 1]);
            }
        }
        if seg.contains(0x3fu8) {
            let k = choose|k: int| 0 <= k < seg.len() && seg[k] == 0x3fu8;
            if k < stem.len() {
                assert(seg[k] == n[k]);
            } else if k > stem.len() {
                assert(seg[k] == ext[k - stem.len() - 1]);
            }
        }
    }
    assert(!(seg =~= seq![0x2eu8]));
    assert(!(seg =~= seq![0x2eu8, 0x2eu8]));
    assert(seg[stem.len() as int] == 0x2e);
    assert forall|m: int| stem.len() + 1 <= m < seg.len() implies seg[m] != 0x2e by {
        assert(seg[m] == ext[m - stem.len() - 1]);
    }
    lemma_last_dot_skip(seg, seg.len() as int, stem.len() + 1int);
    assert(last_dot(seg, seg.len() as int) == stem.len());
    assert(!is_dot_dot(seg));
    assert(seg.subrange(0, stem.len() as int) =~= stem);
    assert(seg.subrange(stem.len() + 1int, seg.len() as int) =~= ext);
}

/// Text put after the place where a name starts keeps the root and a leading `.`.
proof fn lemma_head_kept(b: Seq<u8>, s: int, seg: Seq<u8>)
    requires
        valid_utf8(b),
        body_start(b) <= s <= b.len(),
        cut_ok(b, s),
        seg.len() > 0,
        !is_sep_spec(seg[0]),
        spec_parse_root(b) matches Some(r) ==> root_cut_len(b) == root_view_len(r),
        spec_parse_root(b) is None && s > 0 ==> is_sep_spec(b[s - 1]),
        s == 0 ==> spec_parse_root(seg) is None && !has_cur_dir(seg),
    ensures
        head_comps(b.subrange(0, s) + seg) == head_comps(b),
        body_start(b.subrange(0, s) + seg) == body_start(b),
{
    let a = b.subrange(0, s);
    let new = a + seg;
    lemma_root_cut_len(b);
    crate::text::lemma_cut_ok_boundary(b, s);
    assert(valid_utf8(a));
    if spec_parse_root(b) is Some {
        lemma_root_prefix(b, s);
        lemma_root_extend(a, seg);
        assert(new.subrange(0, root_cut_len(b)) =~= b.subrange(0, root_cut_len(b)));
    } else if s > 0 {
        lemma_root_prefix(b, s);
        lemma_unrooted_extend(a, seg);
        assert(a[0] == b[0]);
        if s >= 2 {
            assert(a[1] == b[1]);
        }
        assert(has_cur_dir(a) == has_cur_dir(b));
    } else {
        assert(new =~= seg);
        assert(body_start(b) == 0);
    }
}

/// Setting the extension of a path with a file name, as `PathBuf::set_extension` does, gives
/// a path whose extension reads back as the one that was set, whose stem is the old one, and
/// whose components before the file name are as they were.  (Names with `*` or `?` and roots
/// not written in full are left out, and the extension must be plain.)
#[verifier::rlimit(50)]
pub proof fn law_set_extension_reads_back(b: Seq<u8>, ext: Seq<u8>)
    requires
        valid_utf8(b),
        file_name_spec(path_components(b)) matches Some(n) && !n.contains(0x2au8) && !n.contains(
            0x3fu8,
        ),
        spec_parse_root(b) matches Some(r) ==> root_cut_len(b) == root_view_len(r),
        plain_extension(ext),
    ensures
        ({
            let n = file_name_spec(path_components(b))->0;
            let new = b.subrange(0, name_start(b) + stem_spec(n).len()) + (seq![0x2eu8] + ext);
            &&& file_name_spec(path_components(new)) == Some(with_ext(n, ext))
            &&& extension_spec(with_ext(n, ext)) == Some(ext)
            &&& stem_spec(with_ext(n, ext)) == stem_spec(n)
            &&& path_components(new).drop_last() == path_components(b).drop_last()
        }),
{
    lemma_name_segment(b);
    let n = file_name_spec(path_components(b))->0;
    let bs = body_start(b);
    let e = name_end(b);
    let i = rfind_sep_in(b, bs, e);
    let s = name_start(b);
    let c = path_components(b);
    let x = classify(n)->0;
    assert(c.last() == x);
    assert(!is_dot_dot(n));
    assert forall|k: int| 0 <= k < n.len() implies !is_sep_spec(#[trigger] n[k]) by {
        assert(n[k] == b[s + k]);
    }
    lemma_new_name(n, ext);
    lemma_stem_prefix(n);
    let stem = stem_spec(n);
    let seg = with_ext(n, ext);
    let a = b.subrange(0, s);
    let new = b.subrange(0, s + stem.len()) + (seq![0x2eu8] + ext);
    assert(b.subrange(s, s + stem.len()) =~= n.subrange(0, stem.len() as int));
    assert(new =~= a + seg);
    lemma_root_cut_len(b);
    assert(cut_ok(b, s)) by {
        if i >= 0 {
            assert(is_ascii_byte(b[s - 1]));
        } else if has_cur_dir(b) && s > 0 {
            assert(b[0] == 0x2e);
        }
    }
    if spec_parse_root(b) is None {
        if has_cur_dir(b) {
            assert(is_sep_spec(b[1]));
            lemma_rfind_sep_in(b, bs, e);
        }
        if s == 0 {
            // the name is the whole first segment: no `:` in it, or the path would be rooted
            lemma_find_colon_or_sep_from(b, 0);
            let f = find_colon_or_sep_from(b, 0);
            assert(f >= e) by {
                if f < e {
                    assert(!is_sep_spec(b[f]));
                }
            }
            assert forall|k: int| 0 <= k < n.len() implies n[k] != 0x3a by {
                assert(n[k] == b[k]);
            }
            lemma_find_colon_or_sep_unique(seg, 0, seg.len() as int);
        }
    }
    lemma_head_kept(b, s, seg);
    // the body: what came before the name, then the new name
    let y = new.subrange(bs, new.len() as int);
    lemma_body_comps_no_sep(seg);
    if i >= 0 {
        assert(y =~= b.subrange(bs, i) + seq![b[i]] + seg);
        assert(y[i - bs] == b[i]);
        lemma_body_comps_split(y, i - bs);
        assert(y.subrange(0, i - bs) =~= b.subrange(bs, i));
        assert(y.subrange(i - bs + 1, y.len() as int) =~= seg);
    } else {
        assert(y =~= seg);
    }
    let pre = if i >= 0 {
        body_comps(b.subrange(bs, i))
    } else {
        Seq::<CompView>::empty()
    };
    assert(path_components(new) =~= head_comps(b) + pre + seq![classify(seg)->0]);
    assert(c =~= head_comps(b) + pre + seq![x]);
    assert(path_components(new).drop_last() =~= c.drop_last());
}

} // verus!
