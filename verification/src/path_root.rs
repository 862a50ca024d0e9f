//! Path roots: `C:`, `//server/share/`, `/` and `mount:/`.
use vstd::prelude::*;
use crate::text::{bytes_of, byte_at, byte_len, substr};
use crate::path_model::{
    is_sep_spec, find_sep_from, rfind_sep_in, lemma_find_sep_from, next_seg, RootView,
    root_view_len, spec_parse_drive, spec_parse_root, find_colon_or_sep_from, starts_unc, root_cut_len, lemma_root_cut_len,
    lemma_find_colon_or_sep_from,
};

verus! {

/// Is the byte a path separator (`/` or `\`)?
pub fn is_sep_byte(b: u8) -> (r: bool)
    ensures
        r == is_sep_spec(b),
{
    b == 0x2f || b == 0x5c
}

/// Is the character a path separator (`/` or `\`)?
pub fn is_sep(c: char) -> (r: bool)
    ensures
        r == (c == '/' || c == '\\'),
{
    c == '/' || c == '\\'
}

/// The index of the first separator in `s` at or after `from`, or the length of `s`.
pub fn find_sep(s: &str, from: usize) -> (r: usize)
    requires
        from <= bytes_of(s).len(),
    ensures
        r == find_sep_from(bytes_of(s), from as int),
{
    let n = byte_len(s);
    let mut i = from;
    while i < n
        invariant
            n == bytes_of(s).len(),
            from <= i <= n,
            find_sep_from(bytes_of(s), from as int) == find_sep_from(bytes_of(s), i as int),
        decreases n - i,
    {
        if is_sep_byte(byte_at(s, i)) {
            return i;
        }
        i = i + 1;
    }
    i
}

/// The index of the last separator in `s` within `[lo, to)`, if any.
pub fn rfind_sep(s: &str, lo: usize, to: usize) -> (r: Option<usize>)
    requires
        lo <= to <= bytes_of(s).len(),
    ensures
        match r {
            Some(i) => i == rfind_sep_in(bytes_of(s), lo as int, to as int),
            None => rfind_sep_in(bytes_of(s), lo as int, to as int) == -1,
        },
{
    let mut j = to;
    while j > lo
        invariant
            lo <= j <= to <= bytes_of(s).len(),
            rfind_sep_in(bytes_of(s), lo as int, to as int) == rfind_sep_in(bytes_of(s), lo as int, j as int),
        decreases j,
    {
        if is_sep_byte(byte_at(s, j - 1)) {
            return Some(j - 1);
        }
        j = j - 1;
    }
    None
}

/// Split off the first segment of `path`: the segment and what follows its separator.
pub fn parse_next_component(path: &str) -> (r: (&str, &str))
    ensures
        bytes_of(r.0) == next_seg(bytes_of(path)).0,
        bytes_of(r.1) == next_seg(bytes_of(path)).1,
{
    let n = byte_len(path);
    let f = find_sep(path, 0);
    proof {
        lemma_find_sep_from(bytes_of(path), 0);
    }
    if f < n {
        (substr(path, 0, f), substr(path, f + 1, n))
    } else {
        proof {
            reveal_strlit("");
            assert(bytes_of("") =~= Seq::<u8>::empty());
        }
        (path, "")
    }
}

/// File path root.
#[derive(Clone, Copy, PartialEq, Eq, PartialOrd, Ord, Debug, Hash)]
pub enum Root<'a> {
    /// DOS-like drive root, e.g. `C:/`
    Drive(u8),
    /// Universal Naming convention (windows network drive) root, e.g. `//server/share`
    WinShare { server: &'a str, share: &'a str },
    /// Common root across filesystems, e.g. `/`
    Common,
    /// Virtual file system root, e.g. `loc:/`
    VFS(&'a str),
}

impl<'a> View for Root<'a> {
    type V = RootView;

    open spec fn view(&self) -> RootView {
        match *self {
            Root::Drive(d) => RootView::Drive(d),
            Root::WinShare { server, share } => RootView::WinShare(bytes_of(server), bytes_of(share)),
            Root::Common => RootView::Common,
            Root::VFS(name) => RootView::Vfs(bytes_of(name)),
        }
    }
}

/// The length in bytes of a root as it is written at the least: `C:`, `//server/share`
/// (`//server` without a share), `/`, `name:`.  Any path with this root is at least as long.
pub open spec fn root_len_spec(r: RootView) -> int {
    match r {
        RootView::Drive(_) => 2,
        RootView::WinShare(server, share) => if share.len() > 0 {
            3 + server.len() + share.len() as int
        } else {
            2 + server.len() as int
        },
        RootView::Common => 1,
        RootView::Vfs(name) => 1 + name.len() as int,
    }
}

impl<'a> Root<'a> {
    /// Get the length of the root (in bytes), as it is written at the least: the separator
    /// after a drive, a share or a mount name is not counted.
    pub fn len(&self) -> (r: usize)
        requires
            root_len_spec(self@) <= usize::MAX,
        ensures
            r == root_len_spec(self@),
    {
        match *self {
            Root::Drive(_) => 2,
            Root::WinShare { server, share } => {
                let c = byte_len(share);
                if c > 0 {
                    3 + byte_len(server) + c
                } else {
                    2 + byte_len(server)
                }
            },
            Root::Common => 1,
            Root::VFS(name) => 1 + byte_len(name),
        }
    }
}

/// A path is at least as long as its root.
pub proof fn law_root_len_fits(b: Seq<u8>)
    ensures
        spec_parse_root(b) matches Some(r) ==> root_len_spec(r) <= b.len(),
{
    if starts_unc(b) {
        let p = b.subrange(2, b.len() as int);
        lemma_find_sep_from(p, 0);
        let f = find_sep_from(p, 0);
        if 0 <= f < p.len() {
            let rest = p.subrange(f + 1, p.len() as int);
            lemma_find_sep_from(rest, 0);
        }
    } else if b.len() >= 1 && is_sep_spec(b[0]) {
    } else if spec_parse_drive(b) is Some {
    } else {
        lemma_find_colon_or_sep_from(b, 0);
    }
}

/// Parses a drive prefix, e.g. "C:/", giving the upper-cased drive letter.
pub fn parse_drive(path: &str) -> (r: Option<u8>)
    ensures
        r == spec_parse_drive(bytes_of(path)),
{
    if byte_len(path) >= 2 && byte_at(path, 1) == 0x3a {
        let d = byte_at(path, 0);
        if 0x41 <= d && d <= 0x5a {
            return Some(d);
        } else if 0x61 <= d && d <= 0x7a {
            return Some(d - 32);
        }
    }
    None
}

/// Parse the root a path starts with, if any.
pub fn parse_root(path: &str) -> (r: Option<Root<'_>>)
    ensures
        match r {
            Some(root) => spec_parse_root(bytes_of(path)) == Some(root@),
            None => spec_parse_root(bytes_of(path)) is None,
        },
{
    let ghost b = bytes_of(path);
    let n = byte_len(path);
    if n >= 2 && ((byte_at(path, 0) == 0x5c && byte_at(path, 1) == 0x5c) || (byte_at(path, 0)
        == 0x2f && byte_at(path, 1) == 0x2f)) {
        let p = substr(path, 2, n);
        let (server, rest) = parse_next_component(p);
        let (share, _) = parse_next_component(rest);
        Some(Root::WinShare { server, share })
    } else if n >= 1 && is_sep_byte(byte_at(path, 0)) {
        Some(Root::Common)
    } else if let Some(drive) = parse_drive(path) {
        Some(Root::Drive(drive))
    } else {
        let mut i: usize = 0;
        while i < n
            invariant
                n == b.len(),
                i <= n,
                b == bytes_of(path),
                find_colon_or_sep_from(b, 0) == find_colon_or_sep_from(b, i as int),
                !starts_unc(b),
                !(b.len() >= 1 && is_sep_spec(b[0])),
                spec_parse_drive(b) is None,
            decreases n - i,
        {
            let c = byte_at(path, i);
            if c == 0x3a {
                assert(find_colon_or_sep_from(b, i as int) == i);
                return Some(Root::VFS(substr(path, 0, i)));
            } else if is_sep_byte(c) {
                assert(find_colon_or_sep_from(b, i as int) == i);
                return None;
            }
            i = i + 1;
        }
        None
    }
}

/// How many leading bytes of `path` its root takes (see `root_cut_len`).
pub fn root_cut_length(path: &str, root: &Option<Root>) -> (r: usize)
    requires
        match *root {
            Some(x) => spec_parse_root(bytes_of(path)) == Some(x@),
            None => spec_parse_root(bytes_of(path)) is None,
        },
    ensures
        r == root_cut_len(bytes_of(path)),
{
    proof {
        lemma_root_cut_len(bytes_of(path));
    }
    let n = byte_len(path);
    match *root {
        None => 0,
        Some(Root::VFS(name)) => {
            let k = byte_len(name);
            if n >= 2 && k <= n - 2 && (k + 2 == n || byte_at(path, k + 2) < 0x80 || byte_at(path, k + 1) < 0x80) {
                k + 2
            } else {
                k + 1
            }
        },
        Some(Root::Drive(_)) => 2,
        Some(Root::Common) => 1,
        Some(Root::WinShare { server, share }) => {
            let a = byte_len(server);
            let c = byte_len(share);
            if a >= n || c >= n - a || 4 > n - a - c {
                n
            } else {
                4 + a + c
            }
        },
    }
}

} // verus!
