//! The components a path is made of.
use vstd::prelude::*;
use crate::text::{bytes_of, byte_at, byte_len};
use crate::path_model::{CompView, RootView, classify};
use crate::path_root::Root;

verus! {

broadcast use vstd::string::is_ascii_spec_bytes;

/// A root together with the text it was parsed from.
#[derive(Clone, Copy, Eq, Debug)]
pub struct RootComponent<'a> {
    /// The prefix as an unparsed `str` slice
    pub raw: &'a str,
    /// The parsed prefix data
    pub parsed: Root<'a>,
}

impl<'a> RootComponent<'a> {
    /// Returns the parsed root data.
    pub fn kind(&self) -> (r: Root<'a>)
        ensures
            r == self.parsed,
    {
        self.parsed
    }

    /// Return the [`str`] slice for this root.
    pub fn as_str(&self) -> (r: &'a str)
        ensures
            r == self.raw,
    {
        self.raw
    }
}

impl<'a> PartialEq for RootComponent<'a> {
    fn eq(&self, other: &Self) -> (r: bool) {
        root_eq(&self.parsed, &other.parsed)
    }
}

impl<'a> vstd::std_specs::cmp::PartialEqSpecImpl for RootComponent<'a> {
    open spec fn obeys_eq_spec() -> bool {
        true
    }

    open spec fn eq_spec(&self, other: &Self) -> bool {
        self.parsed@ == other.parsed@
    }
}

/// Equality of two string slices, byte by byte.
pub fn str_eq(a: &str, b: &str) -> (r: bool)
    ensures
        r == (bytes_of(a) == bytes_of(b)),
{
    let n = byte_len(a);
    if n != byte_len(b) {
        return false;
    }
    let mut i: usize = 0;
    while i < n
        invariant
            n == bytes_of(a).len() == bytes_of(b).len(),
            i <= n,
            forall|k: int| 0 <= k < i ==> bytes_of(a)[k] == bytes_of(b)[k],
        decreases n - i,
    {
        if byte_at(a, i) != byte_at(b, i) {
            return false;
        }
        i = i + 1;
    }
    assert(bytes_of(a) =~= bytes_of(b));
    true
}

/// Equality of two parsed roots.
pub fn root_eq(a: &Root, b: &Root) -> (r: bool)
    ensures
        r == (a@ == b@),
{
    match (*a, *b) {
        (Root::Drive(x), Root::Drive(y)) => x == y,
        (Root::WinShare { server: s1, share: h1 }, Root::WinShare { server: s2, share: h2 }) => {
            str_eq(s1, s2) && str_eq(h1, h2)
        },
        (Root::Common, Root::Common) => true,
        (Root::VFS(x), Root::VFS(y)) => str_eq(x, y),
        _ => false,
    }
}

/// A macro inside a virtual-file-system component, e.g. `<name>`.
#[derive(Clone, Copy, PartialEq, Eq, Debug, Hash)]
pub struct VFSMacro<'a> {
    pub name: &'a str,
    pub raw: &'a str,
}

impl<'a> VFSMacro<'a> {
    /// Build a macro part from its name and its text.
    pub fn new(name: &'a str, raw: &'a str) -> (r: Self)
        ensures
            r.name == name,
            r.raw == raw,
    {
        VFSMacro { name, raw }
    }

    /// Get the length of the macro (in bytes)
    pub fn len(&self) -> (r: usize)
        requires
            bytes_of(self.name).len() + 2 <= usize::MAX,
        ensures
            r == bytes_of(self.name).len() + 2,
    {
        2 + byte_len(self.name)
    }

    /// Get the string representing the macro
    pub fn as_str(&self) -> (r: &'a str)
        ensures
            r == self.raw,
    {
        self.raw
    }

    /// Get the name of the macro
    pub fn name(&self) -> (r: &'a str)
        ensures
            r == self.name,
    {
        self.name
    }
}

/// One piece of a virtual-file-system component: plain text or a macro.
#[derive(Clone, Copy, PartialEq, Eq, Debug, Hash)]
pub enum VFSPart<'a> {
    Text(&'a str),
    Macro(VFSMacro<'a>),
}

/// A piece of a virtual-file-system component, as values.
pub enum PartView {
    Text(Seq<u8>),
    /// The macro's name and its raw text.
    Macro(Seq<u8>, Seq<u8>),
}

impl<'a> View for VFSPart<'a> {
    type V = PartView;

    open spec fn view(&self) -> PartView {
        match *self {
            VFSPart::Text(s) => PartView::Text(bytes_of(s)),
            VFSPart::Macro(m) => PartView::Macro(bytes_of(m.name), bytes_of(m.raw)),
        }
    }
}

impl<'a> VFSPart<'a> {
    /// Get the length of the part (in bytes)
    pub fn len(&self) -> (r: usize)
        requires
            self matches VFSPart::Macro(m) ==> bytes_of(m.name).len() + 2 <= usize::MAX,
        ensures
            r == match *self {
                VFSPart::Text(s) => bytes_of(s).len(),
                VFSPart::Macro(m) => bytes_of(m.name).len() + 2,
            },
    {
        match *self {
            VFSPart::Text(s) => byte_len(s),
            VFSPart::Macro(m) => m.len(),
        }
    }

    /// The text of the part.
    pub fn as_str(&self) -> (r: &'a str)
        ensures
            r == match *self {
                VFSPart::Text(s) => s,
                VFSPart::Macro(m) => m.raw,
            },
    {
        match *self {
            VFSPart::Text(s) => s,
            VFSPart::Macro(m) => m.as_str(),
        }
    }
}

/// The text of a virtual-file-system path whose parts are still to be read.
pub struct VFSParts<'a> {
    path: &'a str,
}

/// A path component holding virtual-file-system macros, e.g. `a<macro>b`.
#[derive(Clone, Copy, PartialEq, Eq, PartialOrd, Ord, Debug, Hash)]
pub struct VFSComponent<'a>(pub &'a str);

impl<'a> VFSComponent<'a> {
    /// Get the length of the part (in bytes)
    pub fn len(&self) -> (r: usize)
        ensures
            r == bytes_of(self.0).len(),
    {
        byte_len(self.0)
    }

    /// The text of the component.
    pub fn as_str(&self) -> (r: &'a str)
        ensures
            r == self.0,
    {
        self.0
    }
}

/// A single component of a path.
#[derive(Clone, Copy, PartialEq, Eq, Debug)]
pub enum Component<'a> {
    /// A root component
    Root(RootComponent<'a>),
    /// A reference to the current directory, i.e. `.`.
    CurDir,
    /// A reference to the parent directory, i.e. `..`.
    ParentDir,
    /// A normal component, e.g. `a` and `b` in `a/b`.
    Normal(&'a str),
    /// A virtual file system path component.
    VFS(VFSComponent<'a>),
    /// Component with a search wildcard
    Wildcard(&'a str),
}

impl<'a> View for Component<'a> {
    type V = CompView;

    open spec fn view(&self) -> CompView {
        match *self {
            Component::Root(rc) => CompView::Root(bytes_of(rc.raw), rc.parsed@),
            Component::CurDir => CompView::CurDir,
            Component::ParentDir => CompView::ParentDir,
            Component::Normal(s) => CompView::Normal(bytes_of(s)),
            Component::VFS(v) => CompView::Vfs(bytes_of(v.0)),
            Component::Wildcard(s) => CompView::Wildcard(bytes_of(s)),
        }
    }
}

/// The text a component stands for.
pub open spec fn comp_text(c: CompView) -> Seq<u8> {
    match c {
        CompView::Root(raw, _) => raw,
        CompView::CurDir => seq![0x2eu8],
        CompView::ParentDir => seq![0x2eu8, 0x2eu8],
        CompView::Normal(s) => s,
        CompView::Vfs(s) => s,
        CompView::Wildcard(s) => s,
    }
}

impl<'a> Component<'a> {
    /// Get the underlying raw [`str`] slice.
    pub fn as_str(self) -> (r: &'a str)
        ensures
            bytes_of(r) == comp_text(self@),
    {
        match self {
            Component::Root(root) => root.as_str(),
            Component::CurDir => {
                proof {
                    reveal_strlit(".");
                    assert(vstd::string::is_ascii("."));
                    assert(bytes_of(".") =~= seq![0x2eu8]);
                }
                "."
            },
            Component::ParentDir => {
                proof {
                    reveal_strlit("..");
                    assert(vstd::string::is_ascii(".."));
                    assert(bytes_of("..") =~= seq![0x2eu8, 0x2eu8]);
                }
                ".."
            },
            Component::Normal(s) => s,
            Component::VFS(vfs) => vfs.as_str(),
            Component::Wildcard(s) => s,
        }
    }
}

/// Does the text hold the byte `c`?
pub fn contains_byte(s: &str, c: u8) -> (r: bool)
    ensures
        r == bytes_of(s).contains(c),
{
    let n = byte_len(s);
    let mut i: usize = 0;
    while i < n
        invariant
            n == bytes_of(s).len(),
            i <= n,
            forall|k: int| 0 <= k < i ==> bytes_of(s)[k] != c,
        decreases n - i,
    {
        if byte_at(s, i) == c {
            assert(bytes_of(s)[i as int] == c);
            return true;
        }
        i = i + 1;
    }
    false
}

/// What a single separator-free segment stands for (nothing for `""` and `"."`).
pub fn parse_single_component<'b>(comp: &'b str) -> (r: Option<Component<'b>>)
    ensures
        match r {
            Some(c) => classify(bytes_of(comp)) == Some(c@),
            None => classify(bytes_of(comp)) is None,
        },
{
    let ghost b = bytes_of(comp);
    let n = byte_len(comp);
    if n == 0 {
        None
    } else if n == 1 && byte_at(comp, 0) == 0x2e {
        assert(b =~= seq![0x2eu8]);
        None
    } else if n == 2 && byte_at(comp, 0) == 0x2e && byte_at(comp, 1) == 0x2e {
        assert(b =~= seq![0x2eu8, 0x2eu8]);
        Some(Component::ParentDir)
    } else {
        assert(!(b =~= seq![0x2eu8]) && !(b =~= seq![0x2eu8, 0x2eu8])) by {
            if b =~= seq![0x2eu8] {
                assert(b[0] == 0x2e);
            }
            if b =~= seq![0x2eu8, 0x2eu8] {
                assert(b[0] == 0x2e && b[1] == 0x2e);
            }
        }
        if contains_byte(comp, 0x3c) {
            Some(Component::VFS(VFSComponent(comp)))
        } else if contains_byte(comp, 0x2a) || contains_byte(comp, 0x3f) {
            Some(Component::Wildcard(comp))
        } else {
            Some(Component::Normal(comp))
        }
    }
}

} // verus!
