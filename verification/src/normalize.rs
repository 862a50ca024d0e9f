//! Making a path fully qualified: resolving `.` and `..` against its root or a working
//! directory.
use vstd::prelude::*;
use vstd::utf8::valid_utf8;
use crate::text::{bytes_of, lemma_str_valid};
use crate::path_model::{CompView, RootView, path_components, spec_parse_root, parent_exists};
use crate::path_root::{Root, parse_root};
use crate::path_component::Component;
use crate::components::parent_len;
use crate::path::Path;
use crate::path_buf::{PathBuf, push_spec};
use crate::qualified::{
    fq_shaped, names_plain, root_names_plain, lemma_wd_slash, lemma_drive_start, lemma_share_start,
    lemma_common_start, lemma_share_parts, lemma_fq_form, lemma_root_kept,
};
use crate::push_laws::{plain_name, lemma_push_name_components};
use crate::path::{PathForm, form_spec};

verus! {

broadcast use vstd::utf8::valid_utf8_concat;

/// Why a path could not be normalized.
#[derive(Clone, Copy, PartialEq, Eq, Debug)]
pub enum NormalizeError {
    /// A drive or network-share path, on a platform without them.
    WindowsPathOnOtherOs,
    /// A path rooted at `/`, on Windows.
    NonWindowsPathOnWindows,
    /// A path rooted in a virtual file system, where none is at hand.
    VirtualRoot,
    /// A component holding a macro.
    Macro,
    /// A component holding a wildcard.
    Wildcard,
}

/// The message each refusal to normalize carries.
pub open spec fn normalize_message(e: NormalizeError) -> Seq<char> {
    match e {
        NormalizeError::WindowsPathOnOtherOs => "Cannot normalize a windows file path on a non-windows OS"@,
        NormalizeError::NonWindowsPathOnWindows => "Cannot normalize a non-windows file path on windows"@,
        NormalizeError::VirtualRoot => "Cannot normalize a virtual file system path without the virtual file system"@,
        NormalizeError::Macro => "Cannot normalize a path that includes a macro without the virtual file system"@,
        NormalizeError::Wildcard => "Cannot normalize a path that includes a wildcard"@,
    }
}

impl NormalizeError {
    /// The message of the error.
    pub fn message(&self) -> (r: &'static str)
        ensures
            r@ == normalize_message(*self),
    {
        match *self {
            NormalizeError::WindowsPathOnOtherOs => "Cannot normalize a windows file path on a non-windows OS",
            NormalizeError::NonWindowsPathOnWindows => "Cannot normalize a non-windows file path on windows",
            NormalizeError::VirtualRoot => "Cannot normalize a virtual file system path without the virtual file system",
            NormalizeError::Macro => "Cannot normalize a path that includes a macro without the virtual file system",
            NormalizeError::Wildcard => "Cannot normalize a path that includes a wildcard",
        }
    }
}

/// The text of `PathBuf::pop`: the parent, when there is one.
pub open spec fn pop_spec(b: Seq<u8>) -> Seq<u8> {
    if parent_exists(path_components(b)) {
        b.subrange(0, parent_len(b))
    } else {
        b
    }
}

/// Apply the components after the root to a text, one by one: `..` pops, a normal component
/// is pushed, `.` is skipped, and a macro or a wildcard cannot be resolved.
pub open spec fn normalize_fold(b: Seq<u8>, cs: Seq<CompView>) -> Result<Seq<u8>, NormalizeError>
    decreases cs.len(),
{
    if cs.len() == 0 {
        Ok(b)
    } else {
        match cs[0] {
            CompView::ParentDir => normalize_fold(pop_spec(b), cs.drop_first()),
            CompView::Normal(s) => normalize_fold(push_spec(b, s), cs.drop_first()),
            CompView::Vfs(_) => Err(NormalizeError::Macro),
            CompView::Wildcard(_) => Err(NormalizeError::Wildcard),
            _ => normalize_fold(b, cs.drop_first()),
        }
    }
}

/// The text a normalized path starts with: its root as the platform writes it, or the
/// working directory and a separator for a relative path.
pub open spec fn normalize_start(
    b: Seq<u8>,
    working_dir: Seq<u8>,
    windows: bool,
    allow_vfs: bool,
) -> Result<Seq<u8>, NormalizeError> {
    match spec_parse_root(b) {
        None => Ok(working_dir + seq![0x2fu8]),
        Some(RootView::Drive(d)) => if windows {
            Ok(seq![d, 0x3au8, 0x2fu8])
        } else {
            Err(NormalizeError::WindowsPathOnOtherOs)
        },
        Some(RootView::WinShare(server, share)) => if windows {
            Ok(seq![0x2fu8, 0x2fu8] + server + seq![0x2fu8] + share + seq![0x2fu8])
        } else {
            Err(NormalizeError::WindowsPathOnOtherOs)
        },
        Some(RootView::Common) => if windows {
            Err(NormalizeError::NonWindowsPathOnWindows)
        } else {
            Ok(seq![0x2fu8])
        },
        Some(RootView::Vfs(name)) => if allow_vfs {
            Ok(name + seq![0x3au8, 0x2fu8])
        } else {
            Err(NormalizeError::VirtualRoot)
        },
    }
}

/// The components a normalization walks through: all but the root.
pub open spec fn components_after_root(b: Seq<u8>) -> Seq<CompView> {
    if spec_parse_root(b) is Some {
        path_components(b).drop_first()
    } else {
        path_components(b)
    }
}

/// The normalized text of a path, or why there is none.
pub open spec fn normalize_spec(
    b: Seq<u8>,
    working_dir: Seq<u8>,
    windows: bool,
    allow_vfs: bool,
) -> Result<Seq<u8>, NormalizeError> {
    match normalize_start(b, working_dir, windows, allow_vfs) {
        Err(e) => Err(e),
        Ok(start) => normalize_fold(start, components_after_root(b)),
    }
}

/// A single ASCII byte is valid UTF-8.
pub proof fn lemma_ascii_byte_valid(c: u8)
    requires
        c < 0x80,
    ensures
        valid_utf8(seq![c]),
{
    assert((c & 0x7f) as u32 <= 0x7f) by (bit_vector);
    assert(seq![c][0] == c);
    assert(vstd::utf8::valid_first_scalar(seq![c]));
    assert(vstd::utf8::pop_first_scalar(seq![c]) =~= Seq::<u8>::empty());
    assert(valid_utf8(Seq::<u8>::empty()));
}

/// The start of a normalized path, built as text.
#[verifier::rlimit(40)]
fn normalize_start_buf(
    root: Option<Root>,
    working_dir: Path,
    windows: bool,
    allow_vfs: bool,
    b: Ghost<Seq<u8>>,
) -> (r: Result<PathBuf, NormalizeError>)
    requires
        match root {
            Some(x) => spec_parse_root(b@) == Some(x@),
            None => spec_parse_root(b@) is None,
        },
    ensures
        match normalize_start(b@, working_dir@, windows, allow_vfs) {
            Ok(t) => r matches Ok(p) && p@ == t,
            Err(e) => r == Err::<PathBuf, NormalizeError>(e),
        },
        r matches Ok(p) ==> (!(spec_parse_root(b@) matches Some(RootView::Vfs(_))) && root_names_plain(b@)
            && (spec_parse_root(b@) is None ==> fq_shaped(working_dir@, windows) && working_dir@.len()
            >= 2) ==> fq_shaped(p@, windows)),
{
    proof {
        lemma_ascii_byte_valid(0x2f);
        lemma_ascii_byte_valid(0x3a);
    }
    let mut v: Vec<u8> = Vec::new();
    match root {
        None => {
            let w = working_dir.as_str();
            proof {
                lemma_str_valid(w);
            }
            v = vstd::slice::slice_to_vec(w.as_bytes());
            v.push(0x2f);
            proof {
                assert(v@ =~= working_dir@ + seq![0x2fu8]);
                assert(valid_utf8(v@));
                if fq_shaped(working_dir@, windows) && working_dir@.len() >= 2 {
                    lemma_wd_slash(working_dir@, windows);
                }
            }
        },
        Some(Root::Drive(d)) => {
            if !windows {
                return Err(NormalizeError::WindowsPathOnOtherOs);
            }
            proof {
                assert(d < 0x80);
                lemma_ascii_byte_valid(d);
            }
            v.push(d);
            v.push(0x3a);
            v.push(0x2f);
            proof {
                assert(v@ =~= seq![d] + seq![0x3au8] + seq![0x2fu8]);
                assert(valid_utf8(seq![d] + seq![0x3au8]));
                assert(valid_utf8(v@));
                assert(0x41 <= d <= 0x5a);
                lemma_drive_start(d);
                assert(v@ =~= seq![d, 0x3au8, 0x2fu8]);
            }
        },
        Some(Root::WinShare { server, share }) => {
            if !windows {
                return Err(NormalizeError::WindowsPathOnOtherOs);
            }
            proof {
                lemma_str_valid(server);
                lemma_str_valid(share);
            }
            v.push(0x2f);
            v.push(0x2f);
            let mut a = vstd::slice::slice_to_vec(server.as_bytes());
            v.append(&mut a);
            v.push(0x2f);
            let mut c = vstd::slice::slice_to_vec(share.as_bytes());
            v.append(&mut c);
            v.push(0x2f);
            proof {
                assert(v@ =~= seq![0x2fu8] + seq![0x2fu8] + bytes_of(server) + seq![0x2fu8]
                    + bytes_of(share) + seq![0x2fu8]);
                assert(valid_utf8(seq![0x2fu8] + seq![0x2fu8]));
                assert(valid_utf8(seq![0x2fu8] + seq![0x2fu8] + bytes_of(server)));
                assert(valid_utf8(seq![0x2fu8] + seq![0x2fu8] + bytes_of(server) + seq![0x2fu8]));
                assert(valid_utf8(seq![0x2fu8] + seq![0x2fu8] + bytes_of(server) + seq![0x2fu8]
                    + bytes_of(share)));
                assert(valid_utf8(v@));
                lemma_share_parts(b@);
                if root_names_plain(b@) {
                    lemma_share_start(bytes_of(server), bytes_of(share));
                }
            }
        },
        Some(Root::Common) => {
            if windows {
                return Err(NormalizeError::NonWindowsPathOnWindows);
            }
            v.push(0x2f);
            proof {
                assert(v@ =~= seq![0x2fu8]);
                lemma_common_start();
            }
        },
        Some(Root::VFS(name)) => {
            if !allow_vfs {
                return Err(NormalizeError::VirtualRoot);
            }
            proof {
                lemma_str_valid(name);
            }
            v = vstd::slice::slice_to_vec(name.as_bytes());
            v.push(0x3a);
            v.push(0x2f);
            proof {
                assert(v@ =~= bytes_of(name) + seq![0x3au8] + seq![0x2fu8]);
                assert(valid_utf8(bytes_of(name) + seq![0x3au8]));
                assert(valid_utf8(v@));
            }
        },
    }
    Ok(PathBuf::from_utf8_bytes(v))
}

impl PathBuf {
    /// Normalize the path into a fully qualified one, on a platform with or without
    /// Windows-style paths: a relative path is resolved against `working_dir`.  A path with a
    /// virtual-file-system root cannot be normalized here.  On an error the path is left
    /// as it was.  A path normalized this way is fully qualified, when the working directory
    /// is (and is not a lone `/`), no name in the path holds a `:` and no share name a `<`.
    pub fn normalize_on(&mut self, working_dir: Path, windows: bool) -> (r: Result<(), NormalizeError>)
        ensures
            match normalize_spec(old(self)@, working_dir@, windows, false) {
                Ok(t) => r is Ok && final(self)@ == t,
                Err(e) => r == Err::<(), NormalizeError>(e) && final(self)@ == old(self)@,
            },
            r is Ok && names_plain(old(self)@) && root_names_plain(old(self)@) && (spec_parse_root(
                old(self)@,
            ) is None ==> fq_shaped(working_dir@, windows) && working_dir@.len() >= 2) ==> form_spec(
                final(self)@,
                windows,
            ) == PathForm::FullyQualified,
    {
        self.normalize_internal_on(working_dir, windows, false)
    }

    /// Normalize the path (see [`PathBuf::normalize_on`]), keeping a virtual-file-system root
    /// when `allow_vfs` is set.
    pub fn normalize_internal_on(
        &mut self,
        working_dir: Path,
        windows: bool,
        allow_vfs: bool,
    ) -> (r: Result<(), NormalizeError>)
        ensures
            match normalize_spec(old(self)@, working_dir@, windows, allow_vfs) {
                Ok(t) => r is Ok && final(self)@ == t,
                Err(e) => r == Err::<(), NormalizeError>(e) && final(self)@ == old(self)@,
            },
            r is Ok && names_plain(old(self)@) && root_names_plain(old(self)@) && !(spec_parse_root(
                old(self)@,
            ) matches Some(RootView::Vfs(_))) && (spec_parse_root(old(self)@) is None ==> fq_shaped(
                working_dir@,
                windows,
            ) && working_dir@.len() >= 2) ==> form_spec(final(self)@, windows)
                == PathForm::FullyQualified,
    {
        let ghost b = self@;
        let ghost conds = names_plain(b) && root_names_plain(b) && !(spec_parse_root(b) matches Some(RootView::Vfs(_))) && (
        spec_parse_root(b) is None ==> fq_shaped(working_dir@, windows) && working_dir@.len() >= 2);
        let me = self.as_path();
        let root = parse_root(me.as_str());
        let mut new_path = match normalize_start_buf(root, working_dir, windows, allow_vfs, Ghost(b)) {
            Ok(p) => p,
            Err(e) => return Err(e),
        };
        let ghost start = new_path@;
        let mut comps = me.components();
        if root.is_some() {
            let _root = comps.next();
            proof {
                assert(path_components(b).len() > 0);
            }
        }
        let ghost cs = comps.rem();
        assert(cs == components_after_root(b));
        assert(normalize_spec(b, working_dir@, windows, allow_vfs) == normalize_fold(start, cs));
        proof {
            if conds {
                assert forall|i: int| 0 <= i < cs.len() implies (#[trigger] cs[i] matches CompView::Normal(
                    s,
                ) ==> plain_name(s)) by {
                    if spec_parse_root(b) is Some {
                        assert(cs[i] == path_components(b)[i + 1]);
                    } else {
                        assert(cs[i] == path_components(b)[i]);
                    }
                }
            }
        }
        loop
            invariant_except_break
                comps.wf(),
                normalize_fold(new_path@, comps.rem()) == normalize_fold(start, cs),
                normalize_spec(b, working_dir@, windows, allow_vfs) == normalize_fold(start, cs),
                b == old(self)@,
                *self == *old(self),
                conds ==> fq_shaped(new_path@, windows),
                conds ==> forall|i: int|
                    0 <= i < comps.rem().len() ==> (#[trigger] comps.rem()[i] matches CompView::Normal(
                        s,
                    ) ==> plain_name(s)),
            ensures
                normalize_fold(start, cs) == Ok::<Seq<u8>, NormalizeError>(new_path@),
                conds ==> fq_shaped(new_path@, windows),
            decreases comps.rem().len(),
        {
            let ghost rem = comps.rem();
            match comps.next() {
                None => {
                    break;
                },
                Some(c) => {
                    proof {
                        assert(c@ == rem[0]);
                        assert(comps.rem() == rem.drop_first());
                    }
                    proof {
                        if conds {
                            assert forall|i: int| 0 <= i < comps.rem().len() implies (
                            #[trigger] comps.rem()[i] matches CompView::Normal(s) ==> plain_name(s)) by {
                                assert(comps.rem()[i] == rem[i + 1]);
                            }
                        }
                    }
                    match c {
                        Component::ParentDir => {
                            let ghost before = new_path@;
                            let popped = new_path.pop();
                            proof {
                                if conds && popped {
                                    let cb = path_components(before);
                                    let ca = path_components(new_path@);
                                    assert(ca == cb.drop_last());
                                    assert(ca[0] == cb[0]);
                                    lemma_root_kept(before, new_path@);
                                    assert forall|i: int| 1 <= i < ca.len() implies #[trigger] ca[i] is Normal by {
                                        assert(ca[i] == cb[i]);
                                    }
                                }
                            }
                        },
                        Component::Normal(p) => {
                            let ghost before = new_path@;
                            proof {
                                if conds {
                                    assert(rem[0] == CompView::Normal(bytes_of(p)));
                                }
                            }
                            let cur = new_path.as_path();
                            proof {
                                cur.lemma_view();
                                lemma_str_valid(cur.as_str_spec());
                            }
                            new_path.push(Path::wrap(p));
                            proof {
                                if conds {
                                    lemma_push_name_components(before, bytes_of(p));
                                    let cb = path_components(before);
                                    let ca = path_components(new_path@);
                                    assert(ca == cb.push(CompView::Normal(bytes_of(p))));
                                    assert(ca[0] == cb[0]);
                                    lemma_root_kept(before, new_path@);
                                    assert forall|i: int| 1 <= i < ca.len() implies #[trigger] ca[i] is Normal by {
                                        if i < cb.len() {
                                            assert(ca[i] == cb[i]);
                                        }
                                    }
                                }
                            }
                        },
                        Component::VFS(_) => {
                            return Err(NormalizeError::Macro);
                        },
                        Component::Wildcard(_) => {
                            return Err(NormalizeError::Wildcard);
                        },
                        _ => {},
                    }
                },
            }
        }
        proof {
            if conds {
                lemma_fq_form(new_path@, windows);
            }
        }
        *self = new_path;
        Ok(())
    }
}

} // verus!
