//! Virtual-file-system bookkeeping: the entries mounted at one mount point, and what a
//! sub-system supports.
use vstd::prelude::*;
use std::collections::BTreeMap;
use vstd::std_specs::iter::IteratorSpec;
use vstd::std_specs::cmp::OrdSpec;
use crate::path_model::{comps_same, path_components};
use crate::path::{Path, components_eq};
use crate::path_buf::PathBuf;
use crate::text::bytes_of;
use crate::path_component::str_eq;
use vstd::utf8::{encode_utf8, valid_utf8};
use crate::text::lemma_str_valid;
use crate::path_component::{PartView, VFSComponent, VFSPart};
use crate::vfs_parts::{parts_fwd, front_step, vfs_closed};
use crate::macro_subst::{
    opt_path_view, local_answer, part_macros, parts_subst, comps_macros, comp_macros, comps_subst,
    macros_closed, replaced_by, nones,
};
use crate::path_model::CompView;
use crate::normalize::{NormalizeError, normalize_spec};
use crate::path_component::Component;

verus! {

broadcast use vstd::utf8::valid_utf8_concat;

/// Two path texts name the same path: their components are the same.
pub open spec fn same_path(a: Seq<u8>, b: Seq<u8>) -> bool {
    comps_same(path_components(a), path_components(b))
}

/// Why a query through a mount point is refused.
#[derive(Clone, Copy, PartialEq, Eq, Debug, Structural)]
pub enum MountQueryError {
    /// No mount point has the name.
    Missing,
    /// The mount point has several entries, and the query would change the file system.
    MultiEntryModification,
}

/// The entries of a mount point, each under its own priority.
pub struct MountPoint {
    entries: BTreeMap<u16, PathBuf>,
}

/// `k` is a priority whose entry names the path `p`.
pub open spec fn entry_matches(m: Map<u16, Seq<u8>>, p: Seq<u8>, k: u16) -> bool {
    m.contains_key(k) && same_path(m[k], p)
}

/// The lowest priority whose entry names the path `p` (meaningful when there is one).
pub open spec fn first_match(m: Map<u16, Seq<u8>>, p: Seq<u8>) -> u16 {
    choose|k: u16| entry_matches(m, p, k) && forall|j: u16| entry_matches(m, p, j) ==> k <= j
}

/// `v` holds the entries of `m`, each once, the highest priority first.
#[verifier::opaque]
pub open spec fn by_priority(m: Map<u16, Seq<u8>>, v: Seq<(u16, PathBuf)>) -> bool {
    &&& forall|i: int| 0 <= i < v.len() ==> m.contains_key((#[trigger] v[i]).0) && m[v[i].0] == v[i].1@
    &&& forall|k: u16| #[trigger] m.contains_key(k) ==> exists|i: int| 0 <= i < v.len() && v[i].0 == k
    &&& forall|i: int, j: int| 0 <= i < j < v.len() ==> v[j].0 < v[i].0
}

impl MountPoint {
    /// The entries, as priorities mapped to path texts.
    pub closed spec fn view(&self) -> Map<u16, Seq<u8>> {
        self.entries@.map_values(|p: PathBuf| p@)
    }

    /// A mount point without entries.
    pub fn new() -> (r: Self)
        ensures
            r.view() == Map::<u16, Seq<u8>>::empty(),
    {
        let r = MountPoint { entries: BTreeMap::new() };
        assert(r.view() =~= Map::<u16, Seq<u8>>::empty());
        r
    }

    /// Mount `path` under `priority`; refused when that priority is taken.
    pub fn mount_point(&mut self, priority: u16, path: Path) -> (r: Result<(), ()>)
        ensures
            old(self).view().contains_key(priority) ==> r is Err && final(self).view() == old(
                self,
            ).view(),
            !old(self).view().contains_key(priority) ==> r is Ok && final(self).view() == old(
                self,
            ).view().insert(priority, path@),
    {
        if self.entries.contains_key(&priority) {
            Err(())
        } else {
            let ghost before = self.entries@;
            self.entries.insert(priority, path.to_path_buf());
            assert(self.view() =~= old(self).view().insert(priority, path@));
            Ok(())
        }
    }

    /// Unmount the entry that names `path` (the one with the lowest priority, if several do).
    pub fn unmount_point(&mut self, path: Path) -> (r: bool)
        ensures
            r == exists|k: u16| entry_matches(old(self).view(), path@, k),
            r ==> final(self).view() == old(self).view().remove(first_match(old(self).view(), path@)),
            !r ==> final(self).view() == old(self).view(),
    {
        let ghost m = self.view();
        let ghost e = self.entries@;
        let iter = self.entries.iter();
        let ghost s = iter.remaining();
        proof {
            assert(s == vstd::std_specs::btree::spec_btree_map_iter(&self.entries).remaining());
            assert(s.len() == e.dom().len());
            assert(vstd::laws_cmp::obeys_cmp::<u16>());
            assert(vstd::std_specs::btree::key_obeys_cmp_spec::<u16>());
            let ks = s.map_values(|kv: (&u16, &PathBuf)| *kv.0);
            assert(vstd::std_specs::btree::increasing_seq(ks));
            assert forall|i: int, j: int| 0 <= i < j < s.len() implies *s[i].0 < *s[j].0 by {
                assert(ks[i] == *s[i].0);
                assert(ks[j] == *s[j].0);
                assert(ks[i].cmp_spec(&ks[j]) is Less);
            }
        }
        let mut found: Option<u16> = None;
        for kv in it: iter
            invariant
                m == self.view(),
                e == self.entries@,
                it.seq() == s,
                forall|i: int| 0 <= i < s.len() ==> e.contains_key(*s[i].0) && e[*s[i].0] == *s[i].1,
                forall|i: int, j: int| 0 <= i < j < s.len() ==> *s[i].0 < *s[j].0,
                found is None ==> forall|j: int|
                    0 <= j < it.index() ==> !same_path((*#[trigger] s[j].1)@, path@),
                found matches Some(k) ==> exists|j: int|
                    0 <= j < it.index() && *s[j].0 == k && same_path((*s[j].1)@, path@) && forall|i: int|
                        0 <= i < j ==> !same_path((*#[trigger] s[i].1)@, path@),
        {
            let (k, v) = kv;
            if found.is_none() && components_eq(v.as_path().components(), path.components()) {
                found = Some(*k);
            }
        }
        proof {
            assert forall|k: u16| #[trigger] e.contains_key(k) implies exists|i: int|
                0 <= i < s.len() && *s[i].0 == k by {
                assert(s.contains((&k, &e[k])));
                let i = choose|i: int| 0 <= i < s.len() && s[i] == (&k, &e[k]);
                assert(*s[i].0 == k);
            }
        }
        match found {
            None => {
                proof {
                    assert forall|k: u16| !entry_matches(m, path@, k) by {
                        if e.contains_key(k) {
                            let i = choose|i: int| 0 <= i < s.len() && *s[i].0 == k;
                            assert(!same_path((*s[i].1)@, path@));
                        }
                    }
                }
                false
            },
            Some(k) => {
                proof {
                    let j = choose|j: int|
                        0 <= j < s.len() && *s[j].0 == k && same_path((*s[j].1)@, path@) && forall|
                            i: int,
                        | 0 <= i < j ==> !same_path((*#[trigger] s[i].1)@, path@);
                    assert(entry_matches(m, path@, k));
                    assert forall|q: u16| entry_matches(m, path@, q) implies k <= q by {
                        let i = choose|i: int| 0 <= i < s.len() && *s[i].0 == q;
                        if i < j {
                            assert(!same_path((*s[i].1)@, path@));
                        } else if i > j {
                            assert(*s[j].0 < *s[i].0);
                        }
                    }
                    let f = first_match(m, path@);
                    assert(entry_matches(m, path@, f) && forall|q: u16|
                        entry_matches(m, path@, q) ==> f <= q);
                    assert(f == k);
                }
                self.entries.remove(&k);
                proof {
                    assert(self.view() =~= m.remove(k));
                }
                true
            },
        }
    }

    /// The entries in the order a query tries them: the highest priority first.
    pub fn entries_by_priority(&self) -> (r: Vec<(u16, PathBuf)>)
        ensures
            by_priority(self.view(), r@),
    {
        let ghost m = self.view();
        let ghost e = self.entries@;
        let iter = self.entries.iter();
        let ghost s = iter.remaining();
        proof {
            assert(s == vstd::std_specs::btree::spec_btree_map_iter(&self.entries).remaining());
            assert(s.len() == e.dom().len());
            assert(vstd::laws_cmp::obeys_cmp::<u16>());
            assert(vstd::std_specs::btree::key_obeys_cmp_spec::<u16>());
            let ks = s.map_values(|kv: (&u16, &PathBuf)| *kv.0);
            assert(vstd::std_specs::btree::increasing_seq(ks));
            assert forall|i: int, j: int| 0 <= i < j < s.len() implies *s[i].0 < *s[j].0 by {
                assert(ks[i] == *s[i].0);
                assert(ks[j] == *s[j].0);
                assert(ks[i].cmp_spec(&ks[j]) is Less);
            }
            assert forall|k: u16| #[trigger] e.contains_key(k) implies exists|i: int|
                0 <= i < s.len() && *s[i].0 == k by {
                assert(s.contains((&k, &e[k])));
                let i = choose|i: int| 0 <= i < s.len() && s[i] == (&k, &e[k]);
                assert(*s[i].0 == k);
            }
        }
        let mut out: Vec<(u16, PathBuf)> = Vec::new();
        for kv in it: iter
            invariant
                m == self.view(),
                e == self.entries@,
                it.seq() == s,
                forall|i: int| 0 <= i < s.len() ==> e.contains_key(*s[i].0) && e[*s[i].0] == *s[i].1,
                forall|i: int, j: int| 0 <= i < j < s.len() ==> *s[i].0 < *s[j].0,
                out@.len() == it.index(),
                forall|i: int|
                    0 <= i < out@.len() ==> (#[trigger] out@[i]).0 == *s[out@.len() - 1 - i].0
                        && out@[i].1@ == (*s[out@.len() - 1 - i].1)@,
        {
            let (k, v) = kv;
            let ghost before = out@;
            out.insert(0, (*k, v.as_path().to_path_buf()));
            proof {
                assert forall|i: int| 0 <= i < out@.len() implies (#[trigger] out@[i]).0 == *s[out@.len() - 1 - i].0
                    && out@[i].1@ == (*s[out@.len() - 1 - i].1)@ by {
                    if i > 0 {
                        assert(out@[i] == before[i - 1]);
                    }
                }
            }
        }
        proof {
            reveal(by_priority);
            assert forall|i: int| 0 <= i < out@.len() implies m.contains_key((#[trigger] out@[i]).0)
                && m[out@[i].0] == out@[i].1@ by {
                let q = out@.len() - 1 - i;
                assert(e.contains_key(*s[q].0));
            }
            assert forall|k: u16| #[trigger] m.contains_key(k) implies exists|i: int|
                0 <= i < out@.len() && out@[i].0 == k by {
                assert(e.contains_key(k));
                let q = choose|q: int| 0 <= q < s.len() && *s[q].0 == k;
                let i = out@.len() - 1 - q;
                assert(out@[i].0 == k);
            }
            assert forall|i: int, j: int| 0 <= i < j < out@.len() implies out@[j].0 < out@[i].0 by {
                let qi = out@.len() - 1 - i;
                let qj = out@.len() - 1 - j;
                assert(*s[qj].0 < *s[qi].0);
            }
        }
        out
    }

    /// The number of entries.
    pub fn num_entries(&self) -> (r: usize)
        ensures
            r == self.view().len(),
    {
        proof {
            assert(self.view().dom() =~= self.entries@.dom());
        }
        self.entries.len()
    }
}

/// The map that named entries make, later entries winning.
pub open spec fn entries_map<V>(s: Seq<(Seq<u8>, V)>) -> Map<Seq<u8>, V>
    decreases s.len(),
{
    if s.len() == 0 {
        Map::empty()
    } else {
        entries_map(s.drop_last()).insert(s.last().0, s.last().1)
    }
}

/// No name occurs twice among the entries.
pub open spec fn keys_unique<V>(s: Seq<(Seq<u8>, V)>) -> bool {
    forall|i: int, j: int| 0 <= i < j < s.len() ==> s[i].0 != s[j].0
}

/// Each entry is found in the map under its name.
pub proof fn lemma_entries_map_has<V>(s: Seq<(Seq<u8>, V)>, i: int)
    requires
        keys_unique(s),
        0 <= i < s.len(),
    ensures
        entries_map(s).contains_key(s[i].0),
        entries_map(s)[s[i].0] == s[i].1,
    decreases s.len(),
{
    if i < s.len() - 1 {
        lemma_entries_map_has(s.drop_last(), i);
        assert(s.drop_last()[i] == s[i]);
    }
}

/// A name that no entry has is not in the map.
pub proof fn lemma_entries_map_missing<V>(s: Seq<(Seq<u8>, V)>, k: Seq<u8>)
    requires
        forall|i: int| 0 <= i < s.len() ==> s[i].0 != k,
    ensures
        !entries_map(s).contains_key(k),
    decreases s.len(),
{
    if s.len() > 0 {
        assert forall|i: int| 0 <= i < s.drop_last().len() implies s.drop_last()[i].0 != k by {
            assert(s.drop_last()[i] == s[i]);
        }
        lemma_entries_map_missing(s.drop_last(), k);
    }
}

/// Giving one entry a new value gives its name that value in the map.
pub proof fn lemma_entries_map_update<V>(s: Seq<(Seq<u8>, V)>, i: int, v: V)
    requires
        keys_unique(s),
        0 <= i < s.len(),
    ensures
        entries_map(s.update(i, (s[i].0, v))) == entries_map(s).insert(s[i].0, v),
    decreases s.len(),
{
    let t = s.update(i, (s[i].0, v));
    let k = s[i].0;
    if i == s.len() - 1 {
        assert(t.drop_last() =~= s.drop_last());
        assert(entries_map(t) =~= entries_map(s).insert(k, v));
    } else {
        let d = s.drop_last();
        assert(d[i] == s[i]);
        assert(t.drop_last() =~= d.update(i, (d[i].0, v)));
        lemma_entries_map_update(d, i, v);
        assert(s.last().0 != k);
        assert(t.last() == s.last());
        assert(entries_map(t) =~= entries_map(s).insert(k, v));
    }
}

/// Adding an entry under a new name adds it to the map.
pub proof fn lemma_entries_map_push<V>(s: Seq<(Seq<u8>, V)>, k: Seq<u8>, v: V)
    ensures
        entries_map(s.push((k, v))) == entries_map(s).insert(k, v),
{
    assert(s.push((k, v)).drop_last() =~= s);
}

/// The bytes of a name.
pub open spec fn name_bytes(s: String) -> Seq<u8> {
    encode_utf8(s@)
}

/// A virtual file system: named mount points, each with its entries, and named macros that
/// stand for paths.
pub struct VirtualFileSystem {
    mount_points: Vec<(String, MountPoint)>,
    macros: Vec<(String, PathBuf)>,
}

/// The mount points of a list, by name.
pub open spec fn mount_entries(v: Seq<(String, MountPoint)>) -> Seq<(Seq<u8>, Map<u16, Seq<u8>>)> {
    v.map_values(|e: (String, MountPoint)| (name_bytes(e.0), e.1.view()))
}

/// The macros of a list, by name.
pub open spec fn macro_entries(v: Seq<(String, PathBuf)>) -> Seq<(Seq<u8>, Seq<u8>)> {
    v.map_values(|e: (String, PathBuf)| (name_bytes(e.0), e.1@))
}

/// Append the bytes of `s`.
fn append_str(v: &mut Vec<u8>, s: &str)
    ensures
        final(v)@ == old(v)@ + bytes_of(s),
{
    let mut tail = vstd::slice::slice_to_vec(s.as_bytes());
    v.append(&mut tail);
}

impl VirtualFileSystem {
    #[verifier::type_invariant]
    spec fn inv(self) -> bool {
        &&& keys_unique(mount_entries(self.mount_points@))
        &&& keys_unique(macro_entries(self.macros@))
    }

    /// The mount points: each name mapped to its entries.
    pub closed spec fn mounts(&self) -> Map<Seq<u8>, Map<u16, Seq<u8>>> {
        entries_map(mount_entries(self.mount_points@))
    }

    /// The macros: each name mapped to the text of its path.
    pub closed spec fn macro_map(&self) -> Map<Seq<u8>, Seq<u8>> {
        entries_map(macro_entries(self.macros@))
    }

    /// A virtual file system without mount points or macros.
    pub fn new() -> (r: Self)
        ensures
            r.mounts() == Map::<Seq<u8>, Map<u16, Seq<u8>>>::empty(),
            r.macro_map() == Map::<Seq<u8>, Seq<u8>>::empty(),
    {
        let r = VirtualFileSystem { mount_points: Vec::new(), macros: Vec::new() };
        assert(mount_entries(r.mount_points@) =~= Seq::empty());
        assert(macro_entries(r.macros@) =~= Seq::empty());
        r
    }

    /// Mount `path` under `priority` at the mount point called `mount_point`, creating the
    /// mount point if there is none; refused when that priority is taken there.
    pub fn mount(&mut self, mount_point: &str, priority: u16, path: Path) -> (r: Result<(), ()>)
        ensures
            final(self).macro_map() == old(self).macro_map(),
            ({
                let m = old(self).mounts();
                let k = bytes_of(mount_point);
                if m.contains_key(k) && m[k].contains_key(priority) {
                    r is Err && final(self).mounts() == m
                } else if m.contains_key(k) {
                    r is Ok && final(self).mounts() == m.insert(k, m[k].insert(priority, path@))
                } else {
                    r is Ok && final(self).mounts() == m.insert(
                        k,
                        Map::<u16, Seq<u8>>::empty().insert(priority, path@),
                    )
                }
            }),
    {
        proof {
            use_type_invariant(&*self);
        }
        let ghost old_entries = mount_entries(self.mount_points@);
        let ghost k = bytes_of(mount_point);
        let found = self.find_mount(mount_point);
        let mut points: Vec<(String, MountPoint)> = Vec::new();
        std::mem::swap(&mut points, &mut self.mount_points);
        let r = match found {
            Some(i) => {
                let (name, mut mount) = points.remove(i);
                let ghost before = mount.view();
                let r = mount.mount_point(priority, path);
                let ghost after = mount.view();
                points.insert(i, (name, mount));
                proof {
                    lemma_entries_map_has(old_entries, i as int);
                    assert(mount_entries(points@) =~= old_entries.update(
                        i as int,
                        (old_entries[i as int].0, after),
                    ));
                    lemma_entries_map_update(old_entries, i as int, after);
                    assert forall|a: int, b: int|
                        0 <= a < b < mount_entries(points@).len() implies mount_entries(
                        points@,
                    )[a].0 != mount_entries(points@)[b].0 by {
                        assert(mount_entries(points@)[a].0 == old_entries[a].0);
                        assert(mount_entries(points@)[b].0 == old_entries[b].0);
                    }
                    if r is Err {
                        assert(entries_map(old_entries).insert(k, before) =~= entries_map(
                            old_entries,
                        ));
                    }
                }
                r
            },
            None => {
                let mut mount = MountPoint::new();
                let _ = mount.mount_point(priority, path);
                let name = mount_point.to_string();
                proof {
                    assert(name@ == mount_point@);
                    lemma_entries_map_missing(old_entries, k);
                }
                points.push((name, mount));
                proof {
                    assert(mount_entries(points@) =~= old_entries.push((k, mount.view())));
                    lemma_entries_map_push(old_entries, k, mount.view());
                }
                Ok(())
            },
        };
        self.mount_points = points;
        r
    }

    /// Unmount the entry naming `path` from the mount point called `mount_point`; `false`
    /// when there is no such mount point or entry.  A mount point left without entries stays.
    pub fn unmount(&mut self, mount_point: &str, path: Path) -> (r: bool)
        ensures
            final(self).macro_map() == old(self).macro_map(),
            ({
                let m = old(self).mounts();
                let k = bytes_of(mount_point);
                &&& r == (m.contains_key(k) && exists|p: u16| entry_matches(m[k], path@, p))
                &&& r ==> final(self).mounts() == m.insert(
                    k,
                    m[k].remove(first_match(m[k], path@)),
                )
                &&& !r ==> final(self).mounts() == m
            }),
    {
        proof {
            use_type_invariant(&*self);
        }
        let ghost old_entries = mount_entries(self.mount_points@);
        let ghost k = bytes_of(mount_point);
        let found = self.find_mount(mount_point);
        match found {
            Some(i) => {
                let mut points: Vec<(String, MountPoint)> = Vec::new();
                std::mem::swap(&mut points, &mut self.mount_points);
                let (name, mut mount) = points.remove(i);
                let ghost before = mount.view();
                let r = mount.unmount_point(path);
                let ghost after = mount.view();
                points.insert(i, (name, mount));
                proof {
                    lemma_entries_map_has(old_entries, i as int);
                    assert(mount_entries(points@) =~= old_entries.update(
                        i as int,
                        (old_entries[i as int].0, after),
                    ));
                    lemma_entries_map_update(old_entries, i as int, after);
                    assert forall|a: int, b: int|
                        0 <= a < b < mount_entries(points@).len() implies mount_entries(
                        points@,
                    )[a].0 != mount_entries(points@)[b].0 by {
                        assert(mount_entries(points@)[a].0 == old_entries[a].0);
                        assert(mount_entries(points@)[b].0 == old_entries[b].0);
                    }
                    if !r {
                        assert(entries_map(old_entries).insert(k, before) =~= entries_map(
                            old_entries,
                        ));
                    }
                }
                self.mount_points = points;
                r
            },
            None => {
                proof {
                    lemma_entries_map_missing(old_entries, k);
                }
                false
            },
        }
    }

    /// Is there a mount point called `mount_point`?
    pub fn is_mounted(&self, mount_point: &str) -> (r: bool)
        ensures
            r == self.mounts().contains_key(bytes_of(mount_point)),
    {
        proof {
            use_type_invariant(self);
        }
        match self.find_mount(mount_point) {
            Some(i) => {
                proof {
                    lemma_entries_map_has(mount_entries(self.mount_points@), i as int);
                }
                true
            },
            None => {
                proof {
                    lemma_entries_map_missing(mount_entries(self.mount_points@), bytes_of(mount_point));
                }
                false
            },
        }
    }

    /// Is the mount point called `mount_point` a direct mapping to a single entry?
    pub fn is_direct_mount_point(&self, mount_point: &str) -> (r: bool)
        ensures
            r == (self.mounts().contains_key(bytes_of(mount_point)) && self.mounts()[bytes_of(
                mount_point,
            )].len() == 1),
    {
        proof {
            use_type_invariant(self);
        }
        match self.find_mount(mount_point) {
            Some(i) => {
                proof {
                    lemma_entries_map_has(mount_entries(self.mount_points@), i as int);
                }
                self.mount_points[i].1.num_entries() == 1
            },
            None => {
                proof {
                    lemma_entries_map_missing(mount_entries(self.mount_points@), bytes_of(mount_point));
                }
                false
            },
        }
    }

    /// The entries a query through the mount point called `mount_point` tries, the highest
    /// priority first.  Refused where there is no such mount point, and where the mount
    /// point has several entries and the query needs support of a sub-system, which would
    /// change the file system behind one of them.
    pub fn mount_roots(&self, mount_point: &str, needed_support: SubSystemSupport) -> (r: Result<
        Vec<(u16, PathBuf)>,
        MountQueryError,
    >)
        ensures
            !self.mounts().contains_key(bytes_of(mount_point)) ==> r matches Err(MountQueryError::Missing),
            self.mounts().contains_key(bytes_of(mount_point)) && needed_support.0 != 0
                && self.mounts()[bytes_of(mount_point)].len() != 1 ==> r matches Err(
                MountQueryError::MultiEntryModification,
            ),
            self.mounts().contains_key(bytes_of(mount_point)) && (needed_support.0 == 0
                || self.mounts()[bytes_of(mount_point)].len() == 1) ==> (r matches Ok(v) && by_priority(
                self.mounts()[bytes_of(mount_point)],
                v@,
            )),
    {
        proof {
            use_type_invariant(self);
        }
        match self.find_mount(mount_point) {
            Some(i) => {
                proof {
                    lemma_entries_map_has(mount_entries(self.mount_points@), i as int);
                }
                let mount = &self.mount_points[i].1;
                if needed_support.0 != 0 && mount.num_entries() != 1 {
                    Err(MountQueryError::MultiEntryModification)
                } else {
                    Ok(mount.entries_by_priority())
                }
            },
            None => {
                proof {
                    lemma_entries_map_missing(mount_entries(self.mount_points@), bytes_of(mount_point));
                }
                Err(MountQueryError::Missing)
            },
        }
    }

    /// Let the macro called `name` stand for `path`; the path it stood for before, if any, is
    /// handed back.
    pub fn add_macro(&mut self, name: String, path: PathBuf) -> (r: Option<PathBuf>)
        ensures
            final(self).mounts() == old(self).mounts(),
            final(self).macro_map() == old(self).macro_map().insert(name_bytes(name), path@),
            r is Some <==> old(self).macro_map().contains_key(name_bytes(name)),
            r matches Some(p) ==> p@ == old(self).macro_map()[name_bytes(name)],
    {
        proof {
            use_type_invariant(&*self);
        }
        let ghost old_entries = macro_entries(self.macros@);
        let ghost k = name_bytes(name);
        let found = self.find_macro(name.as_str());
        let mut macros: Vec<(String, PathBuf)> = Vec::new();
        std::mem::swap(&mut macros, &mut self.macros);
        let r = match found {
            Some(i) => {
                let (old_name, old_path) = macros.remove(i);
                let ghost pv = path@;
                macros.insert(i, (old_name, path));
                proof {
                    lemma_entries_map_has(old_entries, i as int);
                    assert(macro_entries(macros@) =~= old_entries.update(
                        i as int,
                        (old_entries[i as int].0, pv),
                    ));
                    lemma_entries_map_update(old_entries, i as int, pv);
                    assert forall|a: int, b: int|
                        0 <= a < b < macro_entries(macros@).len() implies macro_entries(
                        macros@,
                    )[a].0 != macro_entries(macros@)[b].0 by {
                        assert(macro_entries(macros@)[a].0 == old_entries[a].0);
                        assert(macro_entries(macros@)[b].0 == old_entries[b].0);
                    }
                }
                Some(old_path)
            },
            None => {
                let ghost pv = path@;
                proof {
                    lemma_entries_map_missing(old_entries, k);
                }
                macros.push((name, path));
                proof {
                    assert(macro_entries(macros@) =~= old_entries.push((k, pv)));
                    lemma_entries_map_push(old_entries, k, pv);
                }
                None
            },
        };
        self.macros = macros;
        r
    }

    /// The path the macro called `name` stands for, if there is such a macro.
    pub fn get_macro(&self, name: &str) -> (r: Option<Path<'_>>)
        ensures
            r is Some <==> self.macro_map().contains_key(bytes_of(name)),
            r matches Some(p) ==> p@ == self.macro_map()[bytes_of(name)],
    {
        proof {
            use_type_invariant(self);
        }
        match self.find_macro(name) {
            Some(i) => {
                proof {
                    lemma_entries_map_has(macro_entries(self.macros@), i as int);
                }
                Some(self.macros[i].1.as_path())
            },
            None => {
                proof {
                    lemma_entries_map_missing(macro_entries(self.macros@), bytes_of(name));
                }
                None
            },
        }
    }

    /// Replace every macro in `path`: the local context `user_provided` is asked first, then
    /// the macros of the file system; a macro that neither knows is removed.  The components
    /// are pushed one by one onto an empty path.
    pub fn replace_path_macros_local<'b, F: Fn(&str) -> Option<Path<'b>>>(
        &self,
        path: Path,
        user_provided: F,
    ) -> (r: PathBuf)
        requires
            macros_closed(path@),
            forall|x: &str| call_requires(user_provided, (x,)),
        ensures
            exists|locals: Seq<Option<Seq<u8>>>|
                #[trigger] replaced_by(user_provided, self.macro_map(), path@, locals, r@),
    {
        let ghost g = self.macro_map();
        let ghost cs = path_components(path@);
        let mut pathbuf = PathBuf::with_capacity(path.len());
        let mut comps = path.components();
        let ghost mut done: Seq<CompView> = Seq::empty();
        let ghost mut locals: Seq<Option<Seq<u8>>> = Seq::empty();
        assert(cs =~= done + comps.rem());
        loop
            invariant_except_break
                comps.wf(),
                cs == done + comps.rem(),
                cs == path_components(path@),
                macros_closed(path@),
                locals.len() == comps_macros(done).len(),
                forall|i: int|
                    0 <= i < locals.len() ==> local_answer(user_provided, #[trigger] comps_macros(done)[i], locals[i]),
                pathbuf@ == comps_subst(done, locals, g),
                forall|x: &str| call_requires(user_provided, (x,)),
                g == self.macro_map(),
            ensures
                done == cs,
                locals.len() == comps_macros(done).len(),
                forall|i: int|
                    0 <= i < locals.len() ==> local_answer(user_provided, #[trigger] comps_macros(done)[i], locals[i]),
                pathbuf@ == comps_subst(done, locals, g),
            decreases comps.rem().len(),
        {
            let ghost rem = comps.rem();
            match comps.next() {
                None => {
                    assert(done + rem =~= done);
                    break;
                },
                Some(c) => {
                    let ghost new_done = done.push(c@);
                    proof {
                        assert(done + rem =~= new_done + comps.rem());
                        assert(new_done.drop_last() =~= done);
                        assert(new_done.last() == c@);
                        assert(cs[done.len() as int] == c@);
                    }
                    let ghost lc: Seq<Option<Seq<u8>>>;
                    match c {
                        Component::VFS(vfs) => {
                            proof {
                                assert(path_components(path@)[done.len() as int] == c@);
                            }
                            let (sub, Ghost(l)) = self.substitute_component(vfs, &user_provided);
                            pathbuf.push(sub.as_path());
                            proof {
                                lc = l;
                            }
                        },
                        _ => {
                            pathbuf.push(Path::wrap(c.as_str()));
                            proof {
                                lc = Seq::empty();
                            }
                        },
                    }
                    proof {
                        let new_locals = locals + lc;
                        let n = new_locals.len() as int;
                        let k = lc.len() as int;
                        assert(new_locals.subrange(0, n - k) =~= locals);
                        assert(new_locals.subrange(n - k, n) =~= lc);
                        assert(comps_macros(new_done) == comps_macros(done) + comp_macros(c@));
                        assert forall|i: int|
                            0 <= i < new_locals.len() implies local_answer(
                            user_provided,
                            #[trigger] comps_macros(new_done)[i],
                            new_locals[i],
                        ) by {
                            if i < locals.len() {
                                assert(comps_macros(new_done)[i] == comps_macros(done)[i]);
                            } else {
                                assert(comps_macros(new_done)[i] == comp_macros(c@)[i - locals.len()]);
                            }
                        }
                        done = new_done;
                        locals = new_locals;
                    }
                },
            }
        }
        assert(replaced_by(user_provided, g, path@, locals, pathbuf@));
        pathbuf
    }

    /// Replace every macro in `path` by the path the file system has for it; a macro it does
    /// not know is removed.
    pub fn replace_path_macros(&self, path: Path) -> (r: PathBuf)
        requires
            macros_closed(path@),
        ensures
            r@ == comps_subst(
                path_components(path@),
                nones(comps_macros(path_components(path@)).len()),
                self.macro_map(),
            ),
    {
        let no_local = |name: &str| -> (o: Option<Path<'static>>)
            ensures
                o is None,
            { None };
        let r = self.replace_path_macros_local(path, no_local);
        proof {
            let names = comps_macros(path_components(path@));
            let locals = choose|locals: Seq<Option<Seq<u8>>>|
                #[trigger] replaced_by(no_local, self.macro_map(), path@, locals, r@);
            assert forall|i: int| 0 <= i < locals.len() implies locals[i] is None by {
                assert(local_answer(no_local, names[i], locals[i]));
            }
            assert(locals =~= nones(names.len()));
        }
        r
    }

    /// Normalize `path` after replacing its macros (see
    /// [`VirtualFileSystem::replace_path_macros_local`]), resolving a relative path against
    /// `working_dir` on a platform with or without Windows-style paths; a virtual-file-system
    /// root is kept.
    pub fn normalize_path_local_on<'b, F: Fn(&str) -> Option<Path<'b>>>(
        &self,
        path: Path,
        user_provided: F,
        working_dir: Path,
        windows: bool,
    ) -> (r: Result<PathBuf, NormalizeError>)
        requires
            macros_closed(path@),
            forall|x: &str| call_requires(user_provided, (x,)),
        ensures
            exists|locals: Seq<Option<Seq<u8>>>, t: Seq<u8>|
                #[trigger] replaced_by(user_provided, self.macro_map(), path@, locals, t)
                    && normalize_spec(t, working_dir@, windows, true) == match r {
                    Ok(p) => Ok::<Seq<u8>, NormalizeError>(p@),
                    Err(e) => Err(e),
                },
    {
        let mut p = self.replace_path_macros_local(path, user_provided);
        let ghost t = p@;
        let res = p.normalize_internal_on(working_dir, windows, true);
        let r = match res {
            Ok(()) => Ok(p),
            Err(e) => Err(e),
        };
        proof {
            let locals = choose|locals: Seq<Option<Seq<u8>>>|
                #[trigger] replaced_by(user_provided, self.macro_map(), path@, locals, t);
            assert(replaced_by(user_provided, self.macro_map(), path@, locals, t));
        }
        r
    }

    /// Normalize `path` after replacing its macros by the paths the file system has for them
    /// (see [`VirtualFileSystem::normalize_path_local_on`]).
    pub fn normalize_path_on(&self, path: Path, working_dir: Path, windows: bool) -> (r: Result<
        PathBuf,
        NormalizeError,
    >)
        requires
            macros_closed(path@),
        ensures
            normalize_spec(
                comps_subst(
                    path_components(path@),
                    nones(comps_macros(path_components(path@)).len()),
                    self.macro_map(),
                ),
                working_dir@,
                windows,
                true,
            ) == match r {
                Ok(p) => Ok::<Seq<u8>, NormalizeError>(p@),
                Err(e) => Err(e),
            },
    {
        let mut p = self.replace_path_macros(path);
        match p.normalize_internal_on(working_dir, windows, true) {
            Ok(()) => Ok(p),
            Err(e) => Err(e),
        }
    }

    /// The text of a virtual-file-system component with its macros replaced, with the local
    /// answers that `user_provided` gave for its macros in order.
    fn substitute_component<'b, F: Fn(&str) -> Option<Path<'b>>>(
        &self,
        vfs: VFSComponent,
        user_provided: &F,
    ) -> (r: (PathBuf, Ghost<Seq<Option<Seq<u8>>>>))
        requires
            vfs_closed(bytes_of(vfs.0)),
            forall|x: &str| call_requires(*user_provided, (x,)),
        ensures
            ({
                let names = part_macros(parts_fwd(bytes_of(vfs.0)));
                &&& r.1@.len() == names.len()
                &&& forall|i: int|
                    0 <= i < names.len() ==> local_answer(*user_provided, #[trigger] names[i], r.1@[i])
                &&& r.0@ == parts_subst(parts_fwd(bytes_of(vfs.0)), r.1@, self.macro_map())
            }),
    {
        proof {
            use_type_invariant(self);
        }
        let ghost g = self.macro_map();
        let ghost s0 = bytes_of(vfs.0);
        let mut v: Vec<u8> = Vec::new();
        let mut rest = vfs;
        let ghost mut done: Seq<PartView> = Seq::empty();
        let ghost mut lc: Seq<Option<Seq<u8>>> = Seq::empty();
        assert(parts_fwd(s0) =~= done + parts_fwd(bytes_of(rest.0)));
        loop
            invariant_except_break
                parts_fwd(s0) == done + parts_fwd(bytes_of(rest.0)),
                vfs_closed(bytes_of(rest.0)),
                valid_utf8(v@),
                v@ == parts_subst(done, lc, g),
                lc.len() == part_macros(done).len(),
                forall|i: int|
                    0 <= i < lc.len() ==> local_answer(*user_provided, #[trigger] part_macros(done)[i], lc[i]),
                forall|x: &str| call_requires(*user_provided, (x,)),
                g == self.macro_map(),
                keys_unique(macro_entries(self.macros@)),
            ensures
                done == parts_fwd(s0),
                valid_utf8(v@),
                v@ == parts_subst(done, lc, g),
                lc.len() == part_macros(done).len(),
                forall|i: int|
                    0 <= i < lc.len() ==> local_answer(*user_provided, #[trigger] part_macros(done)[i], lc[i]),
            decreases bytes_of(rest.0).len(),
        {
            let ghost rb = bytes_of(rest.0);
            if rest.len() == 0 {
                assert(parts_fwd(rb) =~= Seq::<PartView>::empty());
                assert(done + parts_fwd(rb) =~= done);
                break;
            }
            proof {
                crate::vfs_parts::lemma_front_step_len(rb);
                assert(parts_fwd(rb) == seq![front_step(rb).0] + parts_fwd(front_step(rb).1));
            }
            let part = rest.next();
            let ghost p = front_step(rb).0;
            let ghost new_done = done.push(p);
            proof {
                assert(done + parts_fwd(rb) =~= new_done + parts_fwd(bytes_of(rest.0)));
                assert(new_done.drop_last() =~= done);
                assert(new_done.last() == p);
            }
            match part {
                Some(VFSPart::Text(t)) => {
                    proof {
                        lemma_str_valid(t);
                    }
                    append_str(&mut v, t);
                    proof {
                        assert(part_macros(new_done) == part_macros(done));
                        done = new_done;
                    }
                },
                Some(VFSPart::Macro(m)) => {
                    let name = m.name();
                    let out = user_provided(name);
                    let ghost ans = opt_path_view(out);
                    proof {
                        assert(local_answer(*user_provided, bytes_of(name), ans));
                    }
                    match out {
                        Some(q) => {
                            let t = q.as_str();
                            proof {
                                lemma_str_valid(t);
                            }
                            append_str(&mut v, t);
                        },
                        None => {
                            match self.find_macro(name) {
                                Some(i) => {
                                    proof {
                                        lemma_entries_map_has(macro_entries(self.macros@), i as int);
                                    }
                                    let t = self.macros[i].1.as_path().as_str();
                                    proof {
                                        lemma_str_valid(t);
                                    }
                                    append_str(&mut v, t);
                                },
                                None => {
                                    proof {
                                        lemma_entries_map_missing(macro_entries(self.macros@), bytes_of(name));
                                        assert(v@ =~= v@ + Seq::<u8>::empty());
                                    }
                                },
                            }
                        },
                    }
                    proof {
                        let new_lc = lc.push(ans);
                        assert(new_lc.drop_last() =~= lc);
                        assert(part_macros(new_done) == part_macros(done).push(bytes_of(name)));
                        assert forall|i: int|
                            0 <= i < new_lc.len() implies local_answer(
                            *user_provided,
                            #[trigger] part_macros(new_done)[i],
                            new_lc[i],
                        ) by {
                            if i < lc.len() {
                                assert(part_macros(new_done)[i] == part_macros(done)[i]);
                            }
                        }
                        done = new_done;
                        lc = new_lc;
                    }
                },
                None => {
                    assert(false);
                },
            }
        }
        (PathBuf::from_utf8_bytes(v), Ghost(lc))
    }

    /// The index of the mount point called `name`, if there is one.
    fn find_mount(&self, name: &str) -> (r: Option<usize>)
        ensures
            match r {
                Some(i) => i < self.mount_points@.len() && mount_entries(
                    self.mount_points@,
                )[i as int].0 == bytes_of(name),
                None => forall|i: int|
                    0 <= i < self.mount_points@.len() ==> mount_entries(self.mount_points@)[i].0
                        != bytes_of(name),
            },
    {
        let mut i: usize = 0;
        while i < self.mount_points.len()
            invariant
                i <= self.mount_points@.len(),
                forall|j: int|
                    0 <= j < i ==> mount_entries(self.mount_points@)[j].0 != bytes_of(name),
            decreases self.mount_points@.len() - i,
        {
            if str_eq(self.mount_points[i].0.as_str(), name) {
                return Some(i);
            }
            i = i + 1;
        }
        None
    }

    /// The index of the macro called `name`, if there is one.
    fn find_macro(&self, name: &str) -> (r: Option<usize>)
        ensures
            match r {
                Some(i) => i < self.macros@.len() && macro_entries(self.macros@)[i as int].0
                    == bytes_of(name),
                None => forall|i: int|
                    0 <= i < self.macros@.len() ==> macro_entries(self.macros@)[i].0 != bytes_of(
                        name,
                    ),
            },
    {
        let mut i: usize = 0;
        while i < self.macros.len()
            invariant
                i <= self.macros@.len(),
                forall|j: int| 0 <= j < i ==> macro_entries(self.macros@)[j].0 != bytes_of(name),
            decreases self.macros@.len() - i,
        {
            if str_eq(self.macros[i].0.as_str(), name) {
                return Some(i);
            }
            i = i + 1;
        }
        None
    }
}

/// Sub-system support flag: directories can be created and deleted.
pub const SUPPORT_CREATE_DELETE_DIRECTORY: u8 = 0x1;
/// Sub-system support flag: files can be created and deleted.
pub const SUPPORT_CREATE_DELETE_FILE: u8 = 0x2;
/// Sub-system support flag: file watchers.
pub const SUPPORT_FILEWATCHER: u8 = 0x4;
/// Sub-system support flag: memory-mapped files.
pub const SUPPORT_MEMORY_MAPPED_FILES: u8 = 0x8;

/// What a virtual sub-system supports, as a set of flags.
#[derive(Clone, Copy, PartialEq, Eq, Debug)]
pub struct SubSystemSupport(pub u8);

impl SubSystemSupport {
    /// All flags of `other` are set in `self`.
    pub fn contains(self, other: SubSystemSupport) -> (r: bool)
        ensures
            r == (self.0 & other.0 == other.0),
    {
        self.0 & other.0 == other.0
    }

    /// Can the sub-system change the file system: create and delete both directories and
    /// files?
    pub fn modifies_filesystem(self) -> (r: bool)
        ensures
            r == (self.0 & SUPPORT_CREATE_DELETE_DIRECTORY != 0 && self.0 & SUPPORT_CREATE_DELETE_FILE
                != 0),
    {
        let r = self.contains(SubSystemSupport(SUPPORT_CREATE_DELETE_DIRECTORY | SUPPORT_CREATE_DELETE_FILE));
        proof {
            let b = self.0;
            assert((b & (0x1u8 | 0x2u8) == (0x1u8 | 0x2u8)) == (b & 0x1u8 != 0 && b & 0x2u8 != 0))
                by (bit_vector);
        }
        r
    }
}

} // verus!
