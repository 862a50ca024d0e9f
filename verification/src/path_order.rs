//! The order of paths: component by component, each compared by kind and then by text.
use vstd::prelude::*;
use std::cmp::Ordering;
use crate::text::{bytes_of, byte_at, byte_len};
use crate::path_model::{CompView, RootView, comp_same, comps_same, path_components};
use crate::path_root::Root;
use crate::path_component::Component;
use crate::components::Components;
use crate::path::Path;

verus! {

/// Byte-wise lexicographic comparison: -1, 0 or 1.
pub open spec fn bytes_order(a: Seq<u8>, b: Seq<u8>) -> int
    decreases a.len(),
{
    if a.len() == 0 && b.len() == 0 {
        0
    } else if a.len() == 0 {
        -1
    } else if b.len() == 0 {
        1
    } else if a[0] < b[0] {
        -1
    } else if a[0] > b[0] {
        1
    } else {
        bytes_order(a.drop_first(), b.drop_first())
    }
}

/// -1, 0 or 1 as `a` is below, equal to or above `b`.
pub open spec fn int_order(a: int, b: int) -> int {
    if a < b {
        -1
    } else if a > b {
        1
    } else {
        0
    }
}

pub open spec fn root_rank(r: RootView) -> int {
    match r {
        RootView::Drive(_) => 0,
        RootView::WinShare(_, _) => 1,
        RootView::Common => 2,
        RootView::Vfs(_) => 3,
    }
}

/// Roots in order of their kind (drive, share, `/`, mount point), then of their parts.
pub open spec fn root_order(a: RootView, b: RootView) -> int {
    match (a, b) {
        (RootView::Drive(x), RootView::Drive(y)) => int_order(x as int, y as int),
        (RootView::WinShare(s1, h1), RootView::WinShare(s2, h2)) => if bytes_order(s1, s2) != 0 {
            bytes_order(s1, s2)
        } else {
            bytes_order(h1, h2)
        },
        (RootView::Vfs(x), RootView::Vfs(y)) => bytes_order(x, y),
        _ => int_order(root_rank(a), root_rank(b)),
    }
}

pub open spec fn comp_rank(c: CompView) -> int {
    match c {
        CompView::Root(_, _) => 0,
        CompView::CurDir => 1,
        CompView::ParentDir => 2,
        CompView::Normal(_) => 3,
        CompView::Vfs(_) => 4,
        CompView::Wildcard(_) => 5,
    }
}

/// Components in order of their kind, then roots by what was parsed and the others by their
/// text.
pub open spec fn comp_order(a: CompView, b: CompView) -> int {
    match (a, b) {
        (CompView::Root(_, x), CompView::Root(_, y)) => root_order(x, y),
        (CompView::Normal(x), CompView::Normal(y)) => bytes_order(x, y),
        (CompView::Vfs(x), CompView::Vfs(y)) => bytes_order(x, y),
        (CompView::Wildcard(x), CompView::Wildcard(y)) => bytes_order(x, y),
        _ => int_order(comp_rank(a), comp_rank(b)),
    }
}

/// Component sequences in lexicographic order.
pub open spec fn comps_order(a: Seq<CompView>, b: Seq<CompView>) -> int
    decreases a.len(),
{
    if a.len() == 0 && b.len() == 0 {
        0
    } else if a.len() == 0 {
        -1
    } else if b.len() == 0 {
        1
    } else if comp_order(a[0], b[0]) != 0 {
        comp_order(a[0], b[0])
    } else {
        comps_order(a.drop_first(), b.drop_first())
    }
}

/// The `Ordering` for -1, 0 or 1.
pub open spec fn ordering_of(c: int) -> Ordering {
    if c < 0 {
        Ordering::Less
    } else if c > 0 {
        Ordering::Greater
    } else {
        Ordering::Equal
    }
}

/// Compare two strings byte by byte.
fn str_order(a: &str, b: &str) -> (r: i8)
    ensures
        r == bytes_order(bytes_of(a), bytes_of(b)),
{
    let na = byte_len(a);
    let nb = byte_len(b);
    let mut i: usize = 0;
    assert(bytes_of(a).skip(0) =~= bytes_of(a));
    assert(bytes_of(b).skip(0) =~= bytes_of(b));
    loop
        invariant
            na == bytes_of(a).len(),
            nb == bytes_of(b).len(),
            i <= na,
            i <= nb,
            bytes_order(bytes_of(a), bytes_of(b)) == bytes_order(
                bytes_of(a).skip(i as int),
                bytes_of(b).skip(i as int),
            ),
        decreases na - i,
    {
        let ghost sa = bytes_of(a).skip(i as int);
        let ghost sb = bytes_of(b).skip(i as int);
        if i == na && i == nb {
            return 0;
        } else if i == na {
            return -1;
        } else if i == nb {
            return 1;
        }
        let x = byte_at(a, i);
        let y = byte_at(b, i);
        assert(sa[0] == x && sb[0] == y);
        if x < y {
            return -1;
        } else if x > y {
            return 1;
        }
        assert(sa.drop_first() =~= bytes_of(a).skip(i + 1));
        assert(sb.drop_first() =~= bytes_of(b).skip(i + 1));
        i = i + 1;
    }
}

fn int_order_exec(a: u8, b: u8) -> (r: i8)
    ensures
        r == int_order(a as int, b as int),
{
    if a < b {
        -1
    } else if a > b {
        1
    } else {
        0
    }
}

fn root_rank_exec(r: &Root) -> (k: u8)
    ensures
        k == root_rank(r@),
{
    match *r {
        Root::Drive(_) => 0,
        Root::WinShare { .. } => 1,
        Root::Common => 2,
        Root::VFS(_) => 3,
    }
}

/// Compare two roots by what was parsed.
pub fn root_order_exec(a: &Root, b: &Root) -> (r: i8)
    ensures
        r == root_order(a@, b@),
{
    match (*a, *b) {
        (Root::Drive(x), Root::Drive(y)) => int_order_exec(x, y),
        (Root::WinShare { server: s1, share: h1 }, Root::WinShare { server: s2, share: h2 }) => {
            let c = str_order(s1, s2);
            if c != 0 {
                c
            } else {
                str_order(h1, h2)
            }
        },
        (Root::VFS(x), Root::VFS(y)) => str_order(x, y),
        _ => int_order_exec(root_rank_exec(a), root_rank_exec(b)),
    }
}

fn comp_rank_exec(c: &Component) -> (k: u8)
    ensures
        k == comp_rank(c@),
{
    match *c {
        Component::Root(_) => 0,
        Component::CurDir => 1,
        Component::ParentDir => 2,
        Component::Normal(_) => 3,
        Component::VFS(_) => 4,
        Component::Wildcard(_) => 5,
    }
}

/// Compare two components.
pub fn comp_order_exec(a: &Component, b: &Component) -> (r: i8)
    ensures
        r == comp_order(a@, b@),
{
    match (*a, *b) {
        (Component::Root(x), Component::Root(y)) => root_order_exec(&x.parsed, &y.parsed),
        (Component::Normal(x), Component::Normal(y)) => str_order(x, y),
        (Component::VFS(x), Component::VFS(y)) => str_order(x.0, y.0),
        (Component::Wildcard(x), Component::Wildcard(y)) => str_order(x, y),
        _ => int_order_exec(comp_rank_exec(a), comp_rank_exec(b)),
    }
}

/// Compare what two component iterators have left, component by component.
pub fn compare_components<'a, 'b>(left: Components<'a>, right: Components<'b>) -> (r: Ordering)
    requires
        left.wf(),
        right.wf(),
    ensures
        r == ordering_of(comps_order(left.rem(), right.rem())),
{
    let mut l = left;
    let mut q = right;
    let ghost a = left.rem();
    let ghost b = right.rem();
    let ghost mut k: int = 0;
    assert(a.skip(0) =~= a);
    assert(b.skip(0) =~= b);
    loop
        invariant
            l.wf(),
            q.wf(),
            a == left.rem(),
            b == right.rem(),
            0 <= k <= a.len(),
            k <= b.len(),
            l.rem() == a.skip(k),
            q.rem() == b.skip(k),
            comps_order(a, b) == comps_order(a.skip(k), b.skip(k)),
        decreases a.len() - k,
    {
        let ghost sa = a.skip(k);
        let ghost sb = b.skip(k);
        let x = l.next();
        let y = q.next();
        match (x, y) {
            (None, None) => {
                return Ordering::Equal;
            },
            (None, Some(_)) => {
                return Ordering::Less;
            },
            (Some(_), None) => {
                return Ordering::Greater;
            },
            (Some(x), Some(y)) => {
                let c = comp_order_exec(&x, &y);
                if c < 0 {
                    return Ordering::Less;
                } else if c > 0 {
                    return Ordering::Greater;
                }
                proof {
                    assert(sa.drop_first() =~= a.skip(k + 1));
                    assert(sb.drop_first() =~= b.skip(k + 1));
                    k = k + 1;
                }
            },
        }
    }
}

impl<'a> PartialOrd for Path<'a> {
    fn partial_cmp(&self, other: &Self) -> (r: Option<Ordering>) {
        Some(compare_components(self.components(), other.components()))
    }
}

impl<'a> vstd::std_specs::cmp::PartialOrdSpecImpl for Path<'a> {
    open spec fn obeys_partial_cmp_spec() -> bool {
        true
    }

    open spec fn partial_cmp_spec(&self, other: &Self) -> Option<Ordering> {
        Some(ordering_of(comps_order(path_components(self@), path_components(other@))))
    }
}

pub proof fn lemma_bytes_order(a: Seq<u8>, b: Seq<u8>)
    ensures
        bytes_order(a, b) == -bytes_order(b, a),
        bytes_order(a, b) == 0 <==> a == b,
        -1 <= bytes_order(a, b) <= 1,
    decreases a.len(),
{
    if a.len() > 0 && b.len() > 0 && a[0] == b[0] {
        lemma_bytes_order(a.drop_first(), b.drop_first());
        if a.drop_first() == b.drop_first() {
            assert(a =~= seq![a[0]] + a.drop_first());
            assert(b =~= seq![b[0]] + b.drop_first());
        }
    }
    if a.len() == 0 && b.len() > 0 {
        assert(a != b);
    }
    if a.len() > 0 && b.len() == 0 {
        assert(a != b);
    }
    if a.len() > 0 && b.len() > 0 && a[0] != b[0] {
        assert(a != b);
    }
    if a.len() == 0 && b.len() == 0 {
        assert(a =~= b);
    }
}

pub proof fn lemma_comp_order(a: CompView, b: CompView)
    ensures
        comp_order(a, b) == -comp_order(b, a),
        comp_order(a, b) == 0 <==> comp_same(a, b),
        -1 <= comp_order(a, b) <= 1,
{
    match (a, b) {
        (CompView::Root(_, x), CompView::Root(_, y)) => {
            match (x, y) {
                (RootView::WinShare(s1, h1), RootView::WinShare(s2, h2)) => {
                    lemma_bytes_order(s1, s2);
                    lemma_bytes_order(h1, h2);
                },
                (RootView::Vfs(p), RootView::Vfs(q)) => {
                    lemma_bytes_order(p, q);
                },
                _ => {},
            }
        },
        (CompView::Normal(x), CompView::Normal(y)) => {
            lemma_bytes_order(x, y);
        },
        (CompView::Vfs(x), CompView::Vfs(y)) => {
            lemma_bytes_order(x, y);
        },
        (CompView::Wildcard(x), CompView::Wildcard(y)) => {
            lemma_bytes_order(x, y);
        },
        _ => {},
    }
}

/// The order of paths agrees with their equality and is antisymmetric: two paths compare
/// equal exactly when they are equal component by component, and swapping them reverses the
/// outcome.
pub proof fn law_path_order(a: Seq<CompView>, b: Seq<CompView>)
    ensures
        comps_order(a, b) == -comps_order(b, a),
        comps_order(a, b) == 0 <==> comps_same(a, b),
    decreases a.len(),
{
    if a.len() > 0 && b.len() > 0 {
        lemma_comp_order(a[0], b[0]);
        law_path_order(a.drop_first(), b.drop_first());
        if comp_order(a[0], b[0]) == 0 {
            if comps_same(a.drop_first(), b.drop_first()) {
                assert forall|i: int| 0 <= i < a.len() implies comp_same(#[trigger] a[i], b[i]) by {
                    if i > 0 {
                        assert(a[i] == a.drop_first()[i - 1]);
                        assert(b[i] == b.drop_first()[i - 1]);
                    }
                }
            }
            if comps_same(a, b) {
                assert forall|i: int| 0 <= i < a.drop_first().len() implies comp_same(
                    #[trigger] a.drop_first()[i],
                    b.drop_first()[i],
                ) by {
                    assert(comp_same(a[i + 1], b[i + 1]));
                }
            }
        } else {
            assert(!comp_same(a[0], b[0]));
        }
    }
}

} // verus!
