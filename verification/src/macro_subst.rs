//! Replacing the macros of a path by the texts they stand for.
use vstd::prelude::*;
use crate::text::{bytes_of, byte_at, byte_len};
use crate::path_model::{CompView, path_components};
use crate::path_component::{PartView, comp_text, Component, VFSComponent};
use crate::vfs_parts::{parts_fwd, vfs_closed, find_byte_from, lemma_front_step_len};
use crate::path::Path;
use crate::path_buf::push_spec;

verus! {

/// The text of an optional path.
pub open spec fn opt_path_view(o: Option<Path>) -> Option<Seq<u8>> {
    match o {
        Some(p) => Some(p@),
        None => None,
    }
}

/// `v` is what the local context `f` answers for the macro `name`.
pub open spec fn local_answer<'b, F: Fn(&str) -> Option<Path<'b>>>(
    f: F,
    name: Seq<u8>,
    v: Option<Seq<u8>>,
) -> bool {
    exists|s: &str, out: Option<Path<'b>>|
        bytes_of(s) == name && call_ensures(f, (s,), out) && opt_path_view(out) == v
}

/// What a macro is replaced with: the local answer when there is one, else the global
/// value of the macro when it has one, else nothing.
pub open spec fn macro_text(
    local: Option<Seq<u8>>,
    name: Seq<u8>,
    globals: Map<Seq<u8>, Seq<u8>>,
) -> Seq<u8> {
    match local {
        Some(t) => t,
        None => if globals.contains_key(name) {
            globals[name]
        } else {
            Seq::empty()
        },
    }
}

/// The names of the macros among some parts, in order.
pub open spec fn part_macros(ps: Seq<PartView>) -> Seq<Seq<u8>>
    decreases ps.len(),
{
    if ps.len() == 0 {
        Seq::empty()
    } else {
        match ps.last() {
            PartView::Macro(name, _) => part_macros(ps.drop_last()).push(name),
            PartView::Text(_) => part_macros(ps.drop_last()),
        }
    }
}

/// The text of some parts with each macro replaced, given the local answers for the macros
/// in order.
pub open spec fn parts_subst(
    ps: Seq<PartView>,
    locals: Seq<Option<Seq<u8>>>,
    globals: Map<Seq<u8>, Seq<u8>>,
) -> Seq<u8>
    decreases ps.len(),
{
    if ps.len() == 0 {
        Seq::empty()
    } else {
        match ps.last() {
            PartView::Text(t) => parts_subst(ps.drop_last(), locals, globals) + t,
            PartView::Macro(name, _) => parts_subst(ps.drop_last(), locals.drop_last(), globals)
                + macro_text(locals.last(), name, globals),
        }
    }
}

/// The names of the macros of one component, in order.
pub open spec fn comp_macros(c: CompView) -> Seq<Seq<u8>> {
    match c {
        CompView::Vfs(s) => part_macros(parts_fwd(s)),
        _ => Seq::empty(),
    }
}

/// The names of the macros of some components, in order.
pub open spec fn comps_macros(cs: Seq<CompView>) -> Seq<Seq<u8>>
    decreases cs.len(),
{
    if cs.len() == 0 {
        Seq::empty()
    } else {
        comps_macros(cs.drop_last()) + comp_macros(cs.last())
    }
}

/// The text of one component with its macros replaced.
pub open spec fn comp_subst(
    c: CompView,
    locals: Seq<Option<Seq<u8>>>,
    globals: Map<Seq<u8>, Seq<u8>>,
) -> Seq<u8> {
    match c {
        CompView::Vfs(s) => parts_subst(parts_fwd(s), locals, globals),
        _ => comp_text(c),
    }
}

/// The path built by pushing the components one by one, each with its macros replaced.
pub open spec fn comps_subst(
    cs: Seq<CompView>,
    locals: Seq<Option<Seq<u8>>>,
    globals: Map<Seq<u8>, Seq<u8>>,
) -> Seq<u8>
    decreases cs.len(),
{
    if cs.len() == 0 {
        Seq::empty()
    } else {
        let n = locals.len() as int;
        let k = comp_macros(cs.last()).len() as int;
        push_spec(
            comps_subst(cs.drop_last(), locals.subrange(0, n - k), globals),
            comp_subst(cs.last(), locals.subrange(n - k, n), globals),
        )
    }
}

/// Every macro of every component of the path is closed.
pub open spec fn macros_closed(b: Seq<u8>) -> bool {
    forall|i: int|
        0 <= i < path_components(b).len() ==> (#[trigger] path_components(b)[i] matches CompView::Vfs(
            s,
        ) ==> vfs_closed(s))
}

/// `out` is the path `b` with its macros replaced: each macro, in order, got the local answer
/// in `locals` from `f`, and the global values are those of `globals`.
pub open spec fn replaced_by<'b, F: Fn(&str) -> Option<Path<'b>>>(
    f: F,
    globals: Map<Seq<u8>, Seq<u8>>,
    b: Seq<u8>,
    locals: Seq<Option<Seq<u8>>>,
    out: Seq<u8>,
) -> bool {
    let names = comps_macros(path_components(b));
    &&& locals.len() == names.len()
    &&& forall|i: int| 0 <= i < locals.len() ==> local_answer(f, #[trigger] names[i], locals[i])
    &&& out == comps_subst(path_components(b), locals, globals)
}

/// No local answer, for each of `n` macros.
pub open spec fn nones(n: nat) -> Seq<Option<Seq<u8>>> {
    Seq::new(n, |i: int| None::<Seq<u8>>)
}

} // verus!

verus! {

/// Does reading the parts of a virtual-file-system component from the front never meet a
/// macro that is left open?
pub fn component_macros_closed(vfs: VFSComponent) -> (r: bool)
    ensures
        r == vfs_closed(bytes_of(vfs.0)),
{
    let mut rest = vfs;
    loop
        invariant
            vfs_closed(bytes_of(vfs.0)) == vfs_closed(bytes_of(rest.0)),
        decreases bytes_of(rest.0).len(),
    {
        let s = rest.0;
        let n = byte_len(s);
        if n == 0 {
            return true;
        }
        if byte_at(s, 0) == 0x3c && find_byte_from(s, 0x3e, 0) == n {
            return false;
        }
        proof {
            lemma_front_step_len(bytes_of(s));
        }
        let _part = rest.next();
    }
}

/// Is every macro of every component of `path` closed?
pub fn macros_are_closed(path: Path) -> (r: bool)
    ensures
        r == macros_closed(path@),
{
    let ghost cs = path_components(path@);
    let mut comps = path.components();
    let ghost mut k: int = 0;
    loop
        invariant
            comps.wf(),
            cs == path_components(path@),
            0 <= k <= cs.len(),
            comps.rem() == cs.skip(k),
            forall|i: int|
                0 <= i < k ==> (#[trigger] cs[i] matches CompView::Vfs(s) ==> vfs_closed(s)),
        decreases cs.len() - k,
    {
        match comps.next() {
            None => {
                assert(cs.skip(k).len() == 0);
                return true;
            },
            Some(c) => {
                proof {
                    assert(cs.skip(k)[0] == cs[k]);
                    assert(cs.skip(k).drop_first() =~= cs.skip(k + 1));
                }
                if let Component::VFS(v) = c {
                    if !component_macros_closed(v) {
                        assert(!(cs[k] matches CompView::Vfs(s) ==> vfs_closed(s)));
                        return false;
                    }
                }
                proof {
                    k = k + 1;
                }
            },
        }
    }
}

} // verus!
