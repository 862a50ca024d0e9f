//! Properties that span several operations of the library.
use vstd::prelude::*;
use crate::path_model::{comp_same, comps_same, path_components};
use crate::path::{Path, comps_prefix, comps_suffix, stem_spec, extension_spec, rsplit_at_dot_spec, last_dot, is_dot_dot, lemma_last_dot};
use crate::vfs::{entry_matches, first_match};
use crate::name_filter::{filter_spec, name_filter_spec, split_star, split_star_from, walk_parts, find_sub_from, occurs_at, partial_filter, NameFilterView};
use crate::vfs_parts::{find_byte, lemma_find_byte};
use crate::text::{bytes_of, lemma_str_valid};

verus! {

/// Path equality (component by component) is an equivalence: every path equals itself,
/// equality goes both ways, and two paths equal to a third are equal.
pub proof fn law_path_eq_equivalence(a: Path, b: Path, c: Path)
    ensures
        comps_same(path_components(a@), path_components(a@)),
        comps_same(path_components(a@), path_components(b@)) ==> comps_same(
            path_components(b@),
            path_components(a@),
        ),
        comps_same(path_components(a@), path_components(b@)) && comps_same(
            path_components(b@),
            path_components(c@),
        ) ==> comps_same(path_components(a@), path_components(c@)),
{
    let x = path_components(a@);
    let y = path_components(b@);
    let z = path_components(c@);
    assert forall|i: int| 0 <= i < x.len() implies comp_same(#[trigger] x[i], x[i]) by {}
    if comps_same(x, y) {
        assert forall|i: int| 0 <= i < y.len() implies comp_same(#[trigger] y[i], x[i]) by {
            assert(comp_same(x[i], y[i]));
        }
        if comps_same(y, z) {
            assert forall|i: int| 0 <= i < x.len() implies comp_same(#[trigger] x[i], z[i]) by {
                assert(comp_same(x[i], y[i]));
                assert(comp_same(y[i], z[i]));
            }
        }
    }
}

/// Every path starts with itself and ends with itself.
pub proof fn law_starts_and_ends_with_itself(p: Path)
    ensures
        comps_prefix(path_components(p@), path_components(p@)),
        comps_suffix(path_components(p@), path_components(p@)),
{
    let x = path_components(p@);
    assert(x.take(x.len() as int) =~= x);
    assert(x.skip(0) =~= x);
    law_path_eq_equivalence(p, p, p);
}

/// A file name with an extension is its stem, a `.` and the extension; a file name without
/// one is its own stem.
pub proof fn law_stem_dot_extension(name: Seq<u8>)
    ensures
        extension_spec(name) matches Some(ext) ==> stem_spec(name) + seq![0x2eu8] + ext == name,
        extension_spec(name) is None ==> stem_spec(name) == name,
{
    let d = last_dot(name, name.len() as int);
    lemma_last_dot(name, name.len() as int);
    if !is_dot_dot(name) && d > 0 {
        assert(name.subrange(0, d) + seq![0x2eu8] + name.subrange(d + 1, name.len() as int)
            =~= name);
    }
}

/// Mounting a path under a free priority and then unmounting that path, when no other
/// entry names it, gives back the entries as they were.
pub proof fn law_mount_then_unmount(m: Map<u16, Seq<u8>>, priority: u16, path: Seq<u8>)
    requires
        !m.contains_key(priority),
        forall|k: u16| !entry_matches(m, path, k),
    ensures
        exists|k: u16| entry_matches(m.insert(priority, path), path, k),
        m.insert(priority, path).remove(first_match(m.insert(priority, path), path)) == m,
{
    let m2 = m.insert(priority, path);
    assert(comps_same(path_components(path), path_components(path))) by {
        let x = path_components(path);
        assert forall|i: int| 0 <= i < x.len() implies comp_same(#[trigger] x[i], x[i]) by {}
    }
    assert(entry_matches(m2, path, priority));
    assert forall|j: u16| entry_matches(m2, path, j) implies priority <= j by {
        if j != priority {
            assert(entry_matches(m, path, j));
        }
    }
    let f = first_match(m2, path);
    assert(entry_matches(m2, path, f) && forall|j: u16| entry_matches(m2, path, j) ==> f <= j);
    assert(f == priority) by {
        assert(f <= priority);
        if f != priority {
            assert(entry_matches(m, path, f));
        }
    }
    assert(m2.remove(priority) =~= m);
}

/// What a read gives back of a write: after a macro is added, looking it up gives the path
/// just added, and every other macro is as it was.
pub proof fn law_macro_add_then_get(before: Map<Seq<u8>, Seq<u8>>, name: Seq<u8>, path: Seq<u8>)
    ensures
        before.insert(name, path).contains_key(name),
        before.insert(name, path)[name] == path,
        forall|other: Seq<u8>|
            other != name ==> (before.insert(name, path).contains_key(other) == before.contains_key(
                other,
            ) && (before.contains_key(other) ==> before.insert(name, path)[other] == before[other])),
{
}

/// Mounting a path under a free priority at an existing mount point and then unmounting that
/// path there, when no other entry of that mount point names it, gives back the mount points
/// as they were.
pub proof fn law_vfs_mount_then_unmount(
    m: Map<Seq<u8>, Map<u16, Seq<u8>>>,
    mount_point: Seq<u8>,
    priority: u16,
    path: Seq<u8>,
)
    requires
        m.contains_key(mount_point),
        !m[mount_point].contains_key(priority),
        forall|k: u16| !entry_matches(m[mount_point], path, k),
    ensures
        ({
            let m2 = m.insert(mount_point, m[mount_point].insert(priority, path));
            &&& exists|k: u16| entry_matches(m2[mount_point], path, k)
            &&& m2.insert(
                mount_point,
                m2[mount_point].remove(first_match(m2[mount_point], path)),
            ) == m
        }),
{
    let e = m[mount_point];
    law_mount_then_unmount(e, priority, path);
    let m2 = m.insert(mount_point, e.insert(priority, path));
    assert(m2[mount_point] == e.insert(priority, path));
    assert(m2.insert(mount_point, e) =~= m);
}

/// The pattern `*` lets every name pass.
pub proof fn law_star_passes_everything(s: &str)
    ensures
        filter_spec(name_filter_spec(Some(seq![0x2au8])), bytes_of(s)) == Some(true),
{
    let name = bytes_of(s);
    lemma_str_valid(s);
    let b = seq![0x2au8];
    assert(b[0] == 0x2a);
    assert(b.contains(0x2au8));
    lemma_find_byte(b, 0x2a, 0);
    assert(find_byte(b, 0x2a, 0) == 0);
    assert(find_byte(b, 0x2a, 1) == 1);
    let empty = Seq::<u8>::empty();
    assert(b.subrange(0, 0) =~= empty);
    assert(b.subrange(1, 1) =~= empty);
    assert(split_star_from(b, 1) == seq![empty]);
    assert(split_star_from(b, 0) == seq![empty] + seq![empty]);
    let ps = split_star(b);
    assert(ps =~= seq![empty, empty]);
    assert(ps.subrange(0, 2) =~= ps);
    assert(name_filter_spec(Some(b)) == NameFilterView::Partial(None, None, ps));
    assert(occurs_at(name, empty, 0)) by {
        assert(name.subrange(0, 0) =~= empty);
    }
    assert(find_sub_from(name, empty, 0) == 0);
    assert(vstd::utf8::is_char_boundary(name, 0));
    assert(ps.drop_first() =~= seq![empty]);
    assert(seq![empty].drop_first() =~= Seq::<Seq<u8>>::empty());
    assert(walk_parts(name, 0, name.len() as int, Seq::<Seq<u8>>::empty()) == Some(true));
    assert(walk_parts(name, 0, name.len() as int, seq![empty]) == Some(true));
    assert(walk_parts(name, 0, name.len() as int, ps) == Some(true));
    assert(partial_filter(name, None, None, ps) == Some(true));
}

} // verus!
