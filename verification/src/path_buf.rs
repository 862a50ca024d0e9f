//! Owned, growable paths.
use vstd::prelude::*;
use vstd::utf8::valid_utf8;
use crate::text::{bytes_of, byte_at, byte_len};
use crate::path_model::{
    CompView, RootView, path_components, path_refusal, spec_parse_root, is_sep_spec,
    root_view_len, parent_exists, body_start,
};
use crate::path_root::{Root, is_sep_byte, parse_root};
use crate::path::{
    Path, InvalidPathError, refusal_message, file_name_spec, stem_spec, name_end,
    lemma_file_name_range,
};
use crate::components::parent_len;
use crate::path_component::str_eq;
use crate::push_laws::{root_written, plain_name, lemma_push_name_components};

verus! {

broadcast use {vstd::utf8::valid_utf8_concat, vstd::utf8::encode_utf8_valid_utf8};

/// The text of a string slice as bytes, from a slice of bytes, when they are valid UTF-8.
#[verifier::external_body]
fn str_from_utf8(v: &[u8]) -> (r: Option<&str>)
    ensures
        r is Some <==> valid_utf8(v@),
        r matches Some(s) ==> bytes_of(s) == v@,
{
    std::str::from_utf8(v).ok()
}

/// The characters that `String::from_utf8_lossy` makes of some bytes.
pub uninterp spec fn lossy_utf8(bytes: Seq<u8>) -> Seq<char>;

/// `String::from_utf8_lossy`: the bytes read as UTF-8, with each invalid sequence replaced by
/// U+FFFD; valid UTF-8 is read as it is.
#[verifier::external_body]
fn string_from_utf8_lossy(v: &[u8]) -> (r: String)
    ensures
        r@ == lossy_utf8(v@),
        valid_utf8(v@) ==> vstd::utf8::encode_utf8(r@) == v@,
{
    String::from_utf8_lossy(v).into_owned()
}

/// `Vec::capacity`: how many bytes the buffer holds without reallocating.
#[verifier::external_body]
fn vec_capacity(v: &Vec<u8>) -> (r: usize)
    ensures
        r >= v@.len(),
{
    v.capacity()
}

/// `Vec::reserve_exact`: make room for at least `additional` more bytes; the contents stay.
/// It panics where the length and `additional` together exceed `isize::MAX` bytes, so those
/// inputs are left out.
#[verifier::external_body]
fn vec_reserve_exact(v: &mut Vec<u8>, additional: usize)
    requires
        old(v)@.len() + additional <= isize::MAX,
    ensures
        final(v)@ == old(v)@,
{
    v.reserve_exact(additional)
}

/// `Vec::try_reserve_exact`: try to make room for at least `additional` more bytes; the contents
/// stay, whatever the outcome.  A vector never holds more than `isize::MAX` bytes, so where the
/// length and `additional` together exceed that the capacity overflows and an error comes back.
/// Whether the allocator grants a smaller request is left unsaid.
#[verifier::external_body]
fn vec_try_reserve_exact(v: &mut Vec<u8>, additional: usize) -> (r: Result<(), std::collections::TryReserveError>)
    ensures
        final(v)@ == old(v)@,
        old(v)@.len() + additional > isize::MAX ==> r is Err,
{
    v.try_reserve_exact(additional)
}

/// `Vec::try_reserve`: try to make room for at least `additional` more bytes; the contents
/// stay, whatever the outcome.  A vector never holds more than `isize::MAX` bytes, so where the
/// length and `additional` together exceed that the capacity overflows and an error comes back.
/// Whether the allocator grants a smaller request is left unsaid.
#[verifier::external_body]
fn vec_try_reserve(v: &mut Vec<u8>, additional: usize) -> (r: Result<(), std::collections::TryReserveError>)
    ensures
        final(v)@ == old(v)@,
        old(v)@.len() + additional > isize::MAX ==> r is Err,
{
    v.try_reserve(additional)
}

/// `Vec::shrink_to_fit`: release unused capacity; the contents stay.
#[verifier::external_body]
fn vec_shrink_to_fit(v: &mut Vec<u8>)
    ensures
        final(v)@ == old(v)@,
{
    v.shrink_to_fit()
}

/// `Vec::shrink_to`: release capacity above a lower bound; the contents stay.
#[verifier::external_body]
fn vec_shrink_to(v: &mut Vec<u8>, min_capacity: usize)
    ensures
        final(v)@ == old(v)@,
{
    v.shrink_to(min_capacity)
}

/// Appending to a path needs a separator: the path is not empty, does not end in a separator,
/// and is not exactly its root.
pub open spec fn need_sep(b: Seq<u8>) -> bool {
    &&& b.len() > 0
    &&& !is_sep_spec(b.last())
    &&& !(spec_parse_root(b) matches Some(r) && root_view_len(r) == b.len())
}

/// The text of `b` extended with `q`: a rooted `q` replaces `b`.
pub open spec fn push_spec(b: Seq<u8>, q: Seq<u8>) -> Seq<u8> {
    if spec_parse_root(q) is Some {
        q
    } else if need_sep(b) {
        b + seq![0x2fu8] + q
    } else {
        b + q
    }
}

/// The text of `b` with each of `qs` pushed, in order.
pub open spec fn push_all(b: Seq<u8>, qs: Seq<Seq<u8>>) -> Seq<u8>
    decreases qs.len(),
{
    if qs.len() == 0 {
        b
    } else {
        push_spec(push_all(b, qs.drop_last()), qs.last())
    }
}

/// Does the root's written length equal `n`?
fn root_len_is(root: &Root, n: usize) -> (r: bool)
    ensures
        r == (root_view_len(root@) == n),
{
    match *root {
        Root::Drive(_) => n == 2,
        Root::Common => n == 1,
        Root::VFS(name) => {
            let k = byte_len(name);
            n >= 2 && k == n - 2
        },
        Root::WinShare { server, share } => {
            let a = byte_len(server);
            let c = byte_len(share);
            n >= 4 && a <= n - 4 && c == n - 4 - a
        },
    }
}

/// An owned, mutable path (akin to [`String`]).
#[derive(Debug)]
pub struct PathBuf {
    buf: Vec<u8>,
}

impl View for PathBuf {
    type V = Seq<u8>;

    closed spec fn view(&self) -> Seq<u8> {
        self.buf@
    }
}

impl PathBuf {
    #[verifier::type_invariant]
    spec fn inv(self) -> bool {
        valid_utf8(self.buf@)
    }

    /// Take bytes that are valid UTF-8 as the text of a `PathBuf`, without checking the path.
    pub(crate) fn from_utf8_bytes(v: Vec<u8>) -> (r: Self)
        requires
            valid_utf8(v@),
        ensures
            r@ == v@,
    {
        PathBuf { buf: v }
    }

    /// Creates an empty `PathBuf`
    pub fn new() -> (r: Self)
        ensures
            r@ == Seq::<u8>::empty(),
    {
        PathBuf { buf: Vec::new() }
    }

    /// Create a new `PathBuf` with at least the specified capacity.  The capacity is the
    /// allocator's and is not part of the path's model: the contract states the empty text.
    pub fn with_capacity(capacity: usize) -> (r: Self)
        ensures
            r@ == Seq::<u8>::empty(),
    {
        PathBuf { buf: Vec::with_capacity(capacity) }
    }

    /// Create a `PathBuf` from a [`str`] slice, checking that it is a valid path.
    pub fn from_str(s: &str) -> (r: Result<Self, InvalidPathError>)
        ensures
            r is Ok <==> path_refusal(bytes_of(s)) is None,
            r matches Ok(p) ==> p@ == bytes_of(s),
            r matches Err(e) ==> path_refusal(bytes_of(s)) matches Some((idx, kind)) && e.0.1
                == idx && e.0.0@ == refusal_message(kind),
    {
        let path = Path::new(s)?;
        Ok(Self::from_path(path))
    }

    /// Create a `PathBuf` from a [`Path`] slice.
    pub fn from_path(p: Path) -> (r: Self)
        ensures
            r@ == p@,
    {
        let s = p.as_str();
        let v = vstd::slice::slice_to_vec(s.as_bytes());
        PathBuf { buf: v }
    }

    /// Create a `PathBuf` from UTF-8 encoded bytes, replacing invalid sequences.
    pub fn from_utf8_lossy(s: &[u8]) -> (r: Result<Self, InvalidPathError>)
        ensures
            ({
                let text = vstd::utf8::encode_utf8(lossy_utf8(s@));
                &&& r is Ok <==> path_refusal(text) is None
                &&& r matches Ok(p) ==> p@ == text
                &&& r matches Err(e) ==> path_refusal(text) matches Some((idx, kind)) && e.0.1
                    == idx && e.0.0@ == refusal_message(kind)
            }),
    {
        let string = string_from_utf8_lossy(s);
        let t = string.as_str();
        let path = Path::new(t)?;
        Ok(Self::from_path(path))
    }

    /// Coerces to a [`Path`] slice
    pub fn as_path(&self) -> (r: Path<'_>)
        ensures
            r@ == self@,
    {
        proof {
            use_type_invariant(self);
        }
        match str_from_utf8(self.buf.as_slice()) {
            Some(t) => Path::wrap(t),
            None => {
                assert(false);
                Path::wrap("")
            },
        }
    }

    /// Extends `self` with `path`; a rooted `path` replaces the current path.
    pub fn push(&mut self, path: Path)
        ensures
            final(self)@ == push_spec(old(self)@, path@),
    {
        self._push(path)
    }

    /// Extends `self` with `path`; a rooted `path` replaces the current path.
    pub fn _push(&mut self, path: Path)
        ensures
            final(self)@ == push_spec(old(self)@, path@),
    {
        proof {
            use_type_invariant(&*self);
        }
        let n = self.buf.len();
        let mut need_sep = n > 0 && !is_sep_byte(self.buf[n - 1]);
        let me = self.as_path();
        if let Some(root) = parse_root(me.as_str()) {
            if root_len_is(&root, n) {
                need_sep = false;
            }
        }
        let mut v: Vec<u8> = Vec::new();
        std::mem::swap(&mut v, &mut self.buf);
        let q = path.as_str();
        let rooted = path.has_root();
        if rooted {
            v.truncate(0);
        } else if need_sep {
            v.push(0x2f);
        }
        let mut tail = vstd::slice::slice_to_vec(q.as_bytes());
        v.append(&mut tail);
        proof {
            assert(valid_utf8(seq![0x2fu8])) by {
                assert(vstd::utf8::valid_first_scalar(seq![0x2fu8]));
                assert(vstd::utf8::pop_first_scalar(seq![0x2fu8]) =~= Seq::<u8>::empty());
            }
            assert(valid_utf8(bytes_of(q)));
            assert(valid_utf8(old(self)@));
            if rooted {
                assert(v@ =~= path@);
            } else if need_sep {
                let with_sep = old(self)@ + seq![0x2fu8];
                assert(valid_utf8(with_sep));
                assert(valid_utf8(with_sep + path@));
                assert(v@ =~= old(self)@ + seq![0x2fu8] + path@);
            } else {
                assert(valid_utf8(old(self)@ + path@));
                assert(v@ =~= old(self)@ + path@);
            }
        }
        self.buf = v;
    }

    /// Truncates `self` to [`Path::parent`], if there is one.
    pub fn pop(&mut self) -> (r: bool)
        ensures
            r == parent_exists(path_components(old(self)@)),
            r ==> final(self)@ == old(self)@.subrange(0, parent_len(old(self)@)),
            r ==> path_components(final(self)@) == path_components(old(self)@).drop_last(),
            !r ==> final(self)@ == old(self)@,
    {
        proof {
            use_type_invariant(&*self);
        }
        let parent = self.as_path().parent();
        let len = match parent {
            Some(p) => p.len(),
            None => {
                return false;
            },
        };
        let ghost b = self@;
        let mut v: Vec<u8> = Vec::new();
        std::mem::swap(&mut v, &mut self.buf);
        v.truncate(len);
        proof {
            let p = parent->0;
            assert(v@ == b.subrange(0, len as int));
            assert(v@ == p@);
            p.lemma_view();
            assert(valid_utf8(bytes_of(p.as_str_spec())));
        }
        self.buf = v;
        true
    }

    /// Changes the file name: equivalent to [`PathBuf::pop`] when there is a file name, then
    /// pushing `file_name`.
    pub fn set_file_name(&mut self, file_name: &str)
        ensures
            ({
                let b = old(self)@;
                let popped = if file_name_spec(path_components(b)) is Some && parent_exists(
                    path_components(b),
                ) {
                    b.subrange(0, parent_len(b))
                } else {
                    b
                };
                &&& final(self)@ == push_spec(popped, bytes_of(file_name))
                &&& file_name_spec(path_components(b)) is Some && parent_exists(path_components(b))
                    && root_written(popped) && plain_name(bytes_of(file_name)) ==> path_components(
                    final(self)@,
                ) == path_components(b).drop_last().push(CompView::Normal(bytes_of(file_name)))
            }),
    {
        self._set_file_name(file_name)
    }

    /// Changes the file name (see [`PathBuf::set_file_name`]).
    pub fn _set_file_name(&mut self, file_name: &str)
        ensures
            ({
                let b = old(self)@;
                let popped = if file_name_spec(path_components(b)) is Some && parent_exists(
                    path_components(b),
                ) {
                    b.subrange(0, parent_len(b))
                } else {
                    b
                };
                &&& final(self)@ == push_spec(popped, bytes_of(file_name))
                &&& file_name_spec(path_components(b)) is Some && parent_exists(path_components(b))
                    && root_written(popped) && plain_name(bytes_of(file_name)) ==> path_components(
                    final(self)@,
                ) == path_components(b).drop_last().push(CompView::Normal(bytes_of(file_name)))
            }),
    {
        let ghost b = self@;
        if self.as_path().file_name().is_some() {
            let _popped = self.pop();
        }
        proof {
            use_type_invariant(&*self);
        }
        let ghost mid = self@;
        self.push(Path::wrap(file_name));
        proof {
            if file_name_spec(path_components(b)) is Some && parent_exists(path_components(b))
                && root_written(mid) && plain_name(bytes_of(file_name)) {
                lemma_push_name_components(mid, bytes_of(file_name));
            }
        }
    }

    /// Replace the extension of the file name: returns `false` and does nothing when there is
    /// no file name; otherwise keeps the text up to the end of the file stem and adds `.` and
    /// `extension` when `extension` is not empty.
    pub fn set_extension(&mut self, extension: &str) -> (r: bool)
        ensures
            r == file_name_spec(path_components(old(self)@)) is Some,
            !r ==> final(self)@ == old(self)@,
            r ==> ({
                let b = old(self)@;
                let n = file_name_spec(path_components(b))->0;
                let stem_end = name_end(b) - n.len() + stem_spec(n).len();
                final(self)@ == b.subrange(0, stem_end) + if bytes_of(extension).len() == 0 {
                    Seq::<u8>::empty()
                } else {
                    seq![0x2eu8] + bytes_of(extension)
                }
            }),
    {
        self._set_extension(extension)
    }

    /// Replace the extension of the file name (see [`PathBuf::set_extension`]).
    pub fn _set_extension(&mut self, extension: &str) -> (r: bool)
        ensures
            r == file_name_spec(path_components(old(self)@)) is Some,
            !r ==> final(self)@ == old(self)@,
            r ==> ({
                let b = old(self)@;
                let n = file_name_spec(path_components(b))->0;
                let stem_end = name_end(b) - n.len() + stem_spec(n).len();
                final(self)@ == b.subrange(0, stem_end) + if bytes_of(extension).len() == 0 {
                    Seq::<u8>::empty()
                } else {
                    seq![0x2eu8] + bytes_of(extension)
                }
            }),
    {
        proof {
            use_type_invariant(&*self);
        }
        let me = self.as_path();
        let name = match me.file_name() {
            None => {
                return false;
            },
            Some(n) => n,
        };
        let stem = match me.file_stem() {
            None => {
                return false;
            },
            Some(f) => f,
        };
        let end = me.components().body_end();
        proof {
            lemma_file_name_range(self@);
            crate::path::lemma_stem_prefix(bytes_of(name));
        }
        let stem_end = end - byte_len(name) + byte_len(stem);
        let ghost b = self@;
        let mut v: Vec<u8> = Vec::new();
        std::mem::swap(&mut v, &mut self.buf);
        v.truncate(stem_end);
        proof {
            // the stem ends before a `.` or at the end of the name, both places that may be cut
            let n = bytes_of(name);
            let st = bytes_of(stem);
            let start = end - n.len();
            if st.len() < n.len() {
                assert(n[st.len() as int] == b[stem_end as int]);
            }
            assert(crate::text::cut_ok(b, stem_end as int));
            crate::text::lemma_cut_ok_boundary(b, stem_end as int);
            vstd::utf8::valid_utf8_split(b, stem_end as int);
        }
        let new = extension.as_bytes();
        if new.len() != 0 {
            let cap_limit: usize = isize::MAX as usize;
            if v.len() <= cap_limit && new.len() < cap_limit - v.len() {
                vec_reserve_exact(&mut v, new.len() + 1);
            }
            v.push(0x2e);
            let mut tail = vstd::slice::slice_to_vec(new);
            v.append(&mut tail);
            proof {
                assert(valid_utf8(seq![0x2eu8])) by {
                    assert(vstd::utf8::valid_first_scalar(seq![0x2eu8]));
                    assert(vstd::utf8::pop_first_scalar(seq![0x2eu8]) =~= Seq::<u8>::empty());
                }
                let head = b.subrange(0, stem_end as int);
                assert(valid_utf8(head));
                assert(valid_utf8(head + seq![0x2eu8]));
                assert(valid_utf8(bytes_of(extension)));
                assert(valid_utf8(head + seq![0x2eu8] + bytes_of(extension)));
                assert(v@ =~= b.subrange(0, stem_end as int) + seq![0x2eu8] + bytes_of(extension));
            }
        } else {
            proof {
                assert(valid_utf8(b.subrange(0, stem_end as int)));
                assert(v@ =~= b.subrange(0, stem_end as int) + Seq::<u8>::empty());
            }
        }
        self.buf = v;
        true
    }

    /// Push each of `paths`, in order.
    pub fn extend(&mut self, paths: &[Path])
        ensures
            final(self)@ == push_all(old(self)@, paths@.map_values(|q: Path| q@)),
    {
        let ghost ps = paths@.map_values(|q: Path| q@);
        let mut i: usize = 0;
        while i < paths.len()
            invariant
                i <= paths@.len(),
                ps == paths@.map_values(|q: Path| q@),
                self@ == push_all(old(self)@, ps.take(i as int)),
            decreases paths@.len() - i,
        {
            let q = paths[i];
            self.push(q);
            proof {
                assert(ps.take(i + 1).drop_last() =~= ps.take(i as int));
                assert(ps.take(i + 1).last() == q@);
            }
            i = i + 1;
        }
        proof {
            assert(ps.take(paths@.len() as int) =~= ps);
        }
    }

    /// A path made by pushing each of `paths`, in order, onto an empty one.
    pub fn from_iter(paths: &[Path]) -> (r: Self)
        ensures
            r@ == push_all(Seq::<u8>::empty(), paths@.map_values(|q: Path| q@)),
    {
        let mut buf = PathBuf::new();
        buf.extend(paths);
        buf
    }

    /// Consumes the `PathBuf`, yielding its text as a [`String`].
    pub fn into_string(self) -> (r: String)
        ensures
            vstd::utf8::encode_utf8(r@) == self@,
    {
        let p = self.as_path();
        p.as_str().to_owned()
    }

    /// Returns the `PathBuf`'s capacity, in bytes
    pub fn capacity(&self) -> (r: usize)
        ensures
            r >= self@.len(),
    {
        vec_capacity(&self.buf)
    }

    /// Truncates this `PathBuf`, removing all contents
    pub fn clear(&mut self)
        ensures
            final(self)@ == Seq::<u8>::empty(),
    {
        let mut v: Vec<u8> = Vec::new();
        std::mem::swap(&mut v, &mut self.buf);
        v.clear();
        self.buf = v;
    }

    /// Reserves capacity for at least `additional` more bytes.  Only the capacity changes, which
    /// is not part of the path's model: the contract states that the text stays.  Panics (so
    /// is left out) where the length and `additional` together exceed `isize::MAX` bytes.
    pub fn reserve(&mut self, additional: usize)
        requires
            old(self)@.len() + additional <= isize::MAX,
        ensures
            final(self)@ == old(self)@,
    {
        proof {
            use_type_invariant(&*self);
        }
        let mut v: Vec<u8> = Vec::new();
        std::mem::swap(&mut v, &mut self.buf);
        v.reserve(additional);
        self.buf = v;
    }

    /// Tries to reserve capacity for at least `additional` more bytes.  Fails where the
    /// length and `additional` together exceed `isize::MAX` bytes; otherwise the allocator
    /// decides.
    pub fn try_reserve(&mut self, additional: usize) -> (r: Result<(), std::collections::TryReserveError>)
        ensures
            final(self)@ == old(self)@,
            old(self)@.len() + additional > isize::MAX ==> r is Err,
    {
        proof {
            use_type_invariant(&*self);
        }
        let mut v: Vec<u8> = Vec::new();
        std::mem::swap(&mut v, &mut self.buf);
        let r = vec_try_reserve(&mut v, additional);
        self.buf = v;
        r
    }

    /// Reserves the minimum capacity for at least `additional` more bytes.  Only the capacity
    /// changes, which is not part of the path's model: the contract states that the text stays.
    /// Panics (so is left out) where the length and `additional` together exceed `isize::MAX`
    /// bytes.
    pub fn reserve_exact(&mut self, additional: usize)
        requires
            old(self)@.len() + additional <= isize::MAX,
        ensures
            final(self)@ == old(self)@,
    {
        proof {
            use_type_invariant(&*self);
        }
        let mut v: Vec<u8> = Vec::new();
        std::mem::swap(&mut v, &mut self.buf);
        vec_reserve_exact(&mut v, additional);
        self.buf = v;
    }

    /// Tries to reserve the minimum capacity for at least `additional` more bytes.  Fails
    /// where the length and `additional` together exceed `isize::MAX` bytes; otherwise the
    /// allocator decides.
    pub fn try_reserve_exact(&mut self, additional: usize) -> (r: Result<(), std::collections::TryReserveError>)
        ensures
            final(self)@ == old(self)@,
            old(self)@.len() + additional > isize::MAX ==> r is Err,
    {
        proof {
            use_type_invariant(&*self);
        }
        let mut v: Vec<u8> = Vec::new();
        std::mem::swap(&mut v, &mut self.buf);
        let r = vec_try_reserve_exact(&mut v, additional);
        self.buf = v;
        r
    }

    /// Shrinks the capacity of this `PathBuf` to match its length.  Only the capacity changes,
    /// which is not part of the path's model: the contract states that the text stays.
    pub fn shrink_to_fit(&mut self)
        ensures
            final(self)@ == old(self)@,
    {
        proof {
            use_type_invariant(&*self);
        }
        let mut v: Vec<u8> = Vec::new();
        std::mem::swap(&mut v, &mut self.buf);
        vec_shrink_to_fit(&mut v);
        self.buf = v;
    }

    /// Shrinks the capacity of this `PathBuf` with a lower bound.  Only the capacity changes,
    /// which is not part of the path's model: the contract states that the text stays.
    pub fn shrink_to(&mut self, min_capacity: usize)
        ensures
            final(self)@ == old(self)@,
    {
        proof {
            use_type_invariant(&*self);
        }
        let mut v: Vec<u8> = Vec::new();
        std::mem::swap(&mut v, &mut self.buf);
        vec_shrink_to(&mut v, min_capacity);
        self.buf = v;
    }
}

impl PartialEq for PathBuf {
    fn eq(&self, other: &Self) -> (r: bool) {
        str_eq(self.as_path().as_str(), other.as_path().as_str())
    }
}

impl vstd::std_specs::cmp::PartialEqSpecImpl for PathBuf {
    open spec fn obeys_eq_spec() -> bool {
        true
    }

    open spec fn eq_spec(&self, other: &Self) -> bool {
        self@ == other@
    }
}

impl std::hash::Hash for PathBuf {
    /// Feed the path to the hasher as [`Path::hash_bytes`] does.
    fn hash<St: std::hash::Hasher>(&self, state: &mut St) {
        let bytes = self.as_path().hash_bytes();
        crate::path::hasher_write(state, bytes.as_slice());
    }
}

impl Default for PathBuf {
    fn default() -> (r: Self)
        ensures
            r@ == Seq::<u8>::empty(),
    {
        Self::new()
    }
}

impl<'a> Path<'a> {
    /// Converts a `Path` into an owned [`PathBuf`].
    pub fn to_path_buf(&self) -> (r: PathBuf)
        ensures
            r@ == self@,
    {
        PathBuf::from_path(*self)
    }

    /// Create an owned [`PathBuf`] with `path` adjoined to `self` (see [`PathBuf::push`]).
    pub fn join(&self, path: Path) -> (r: PathBuf)
        ensures
            r@ == push_spec(self@, path@),
    {
        self._join(path)
    }

    fn _join(&self, path: Path) -> (r: PathBuf)
        ensures
            r@ == push_spec(self@, path@),
    {
        let mut buf = self.to_path_buf();
        buf.push(path);
        buf
    }

    /// Creates an owned [`PathBuf`] like `self`, but with the given file name.
    pub fn with_file_name(&self, file_name: &str) -> (r: PathBuf)
        ensures
            ({
                let b = self@;
                let popped = if file_name_spec(path_components(b)) is Some && parent_exists(
                    path_components(b),
                ) {
                    b.subrange(0, parent_len(b))
                } else {
                    b
                };
                r@ == push_spec(popped, bytes_of(file_name))
            }),
    {
        self._with_file_name(file_name)
    }

    fn _with_file_name(&self, file_name: &str) -> (r: PathBuf)
        ensures
            ({
                let b = self@;
                let popped = if file_name_spec(path_components(b)) is Some && parent_exists(
                    path_components(b),
                ) {
                    b.subrange(0, parent_len(b))
                } else {
                    b
                };
                r@ == push_spec(popped, bytes_of(file_name))
            }),
    {
        let mut buf = self.to_path_buf();
        buf.set_file_name(file_name);
        buf
    }

    /// Creates an owned [`PathBuf`] like `self`, but with the given extension.
    pub fn with_extension(&self, extension: &str) -> (r: PathBuf)
        ensures
            file_name_spec(path_components(self@)) is None ==> r@ == self@,
            file_name_spec(path_components(self@)) matches Some(n) ==> r@ == self@.subrange(
                0,
                name_end(self@) - n.len() + stem_spec(n).len(),
            ) + if bytes_of(extension).len() == 0 {
                Seq::<u8>::empty()
            } else {
                seq![0x2eu8] + bytes_of(extension)
            },
    {
        self._with_extension(extension)
    }

    fn _with_extension(&self, extension: &str) -> (r: PathBuf)
        ensures
            file_name_spec(path_components(self@)) is None ==> r@ == self@,
            file_name_spec(path_components(self@)) matches Some(n) ==> r@ == self@.subrange(
                0,
                name_end(self@) - n.len() + stem_spec(n).len(),
            ) + if bytes_of(extension).len() == 0 {
                Seq::<u8>::empty()
            } else {
                seq![0x2eu8] + bytes_of(extension)
            },
    {
        let mut buf = self.to_path_buf();
        let _changed = buf.set_extension(extension);
        buf
    }
}

} // verus!
