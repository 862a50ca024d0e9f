//! Path slices: validation, inspection and comparison.
use vstd::prelude::*;
use crate::text::{bytes_of, byte_at, byte_len, substr};
use crate::path_model::{
    CompView, RootView, RefusalView, comp_same, comps_same, path_components, path_refusal,
    refusal_from, spec_parse_root, is_sep_spec, has_cur_dir,
};
use crate::path_root::{Root, is_sep_byte, parse_root};
use crate::path_component::{Component, str_eq, root_eq, comp_text};
use crate::components::{
    Components, trim_back, lemma_trim_back_comps, lemma_rfind_sep_in_prefix,
};
use crate::path_model::{body_start, body_comps, rfind_sep_in, lemma_body_comps_last, classify, opt_seq};
use crate::path_model::{leads_with_colon, lemma_rooted_iff_colon};

verus! {

/// An error returned from [`Path::strip_prefix`] if the prefix was not found.
#[derive(PartialEq, Eq, Debug)]
pub struct StripPrefixError(pub ());

/// An error returned when a path is invalid: a message and the byte index it refers to.
#[derive(PartialEq, Eq, Debug)]
pub struct InvalidPathError(pub (&'static str, usize));

/// The message a refusal carries.
pub open spec fn refusal_message(k: RefusalView) -> Seq<char> {
    match k {
        RefusalView::Empty => "A path slice cannot be empty."@,
        RefusalView::MacroStart => "Invalid macro start"@,
        RefusalView::Colon => "Path contains invalid `:`"@,
        RefusalView::InvalidChars => "Path contains invalid characters, any of the following: :\"|?*"@,
        RefusalView::MacroNotClosed => "Macro has not been closed"@,
    }
}

/// A slice of a path (akin to [`str`]).
#[derive(Clone, Copy, Debug)]
pub struct Path<'a> {
    inner: &'a str,
}

impl<'a> View for Path<'a> {
    type V = Seq<u8>;

    closed spec fn view(&self) -> Seq<u8> {
        bytes_of(self.inner)
    }
}

impl<'a> Path<'a> {
    /// The bytes of a path are those of its string slice.
    pub proof fn lemma_view(&self)
        ensures
            self@ == bytes_of(self.as_str_spec()),
    {
    }
}

/// Component-wise equality of two components, comparing roots by what was parsed.
pub fn comp_eq(a: &Component, b: &Component) -> (r: bool)
    ensures
        r == comp_same(a@, b@),
{
    match (*a, *b) {
        (Component::Root(x), Component::Root(y)) => root_eq(&x.parsed, &y.parsed),
        (Component::CurDir, Component::CurDir) => true,
        (Component::ParentDir, Component::ParentDir) => true,
        (Component::Normal(x), Component::Normal(y)) => str_eq(x, y),
        (Component::VFS(x), Component::VFS(y)) => str_eq(x.0, y.0),
        (Component::Wildcard(x), Component::Wildcard(y)) => str_eq(x, y),
        _ => false,
    }
}

/// `b` is a component-wise prefix of `a`.
pub open spec fn comps_prefix(a: Seq<CompView>, b: Seq<CompView>) -> bool {
    b.len() <= a.len() && comps_same(a.take(b.len() as int), b)
}

/// `b` is a component-wise suffix of `a`.
pub open spec fn comps_suffix(a: Seq<CompView>, b: Seq<CompView>) -> bool {
    b.len() <= a.len() && comps_same(a.skip(a.len() - b.len()), b)
}

/// Advance `iter` past the components of `prefix`, if they match.
pub fn iter_after<'a, 'b>(iter: Components<'a>, prefix: Components<'b>) -> (r: Option<Components<'a>>)
    requires
        iter.wf(),
        prefix.wf(),
    ensures
        r is Some <==> comps_prefix(iter.rem(), prefix.rem()),
        r matches Some(c) ==> c.wf() && c.rem() == iter.rem().skip(prefix.rem().len() as int),
        r matches Some(c) ==> c.back_open() == iter.back_open(),
        r matches Some(c) ==> (prefix.rem().len() > 0 ==> c.started()),
        r matches Some(c) ==> (prefix.rem().len() == 0 ==> c == iter),
{
    let mut it = iter;
    let mut pre = prefix;
    let ghost a = iter.rem();
    let ghost b = prefix.rem();
    let ghost mut k: int = 0;
    loop
        invariant
            it.wf(),
            pre.wf(),
            a == iter.rem(),
            b == prefix.rem(),
            0 <= k <= a.len(),
            k <= b.len(),
            it.rem() == a.skip(k),
            pre.rem() == b.skip(k),
            comps_same(a.take(k), b.take(k)),
            it.back_open() == iter.back_open(),
            k > 0 ==> it.started(),
            k == 0 ==> it == iter,
        decreases a.len() - k,
    {
        let mut iter_next = it;
        let x = iter_next.next();
        let y = pre.next();
        match (x, y) {
            (Some(x), Some(y)) => {
                if !comp_eq(&x, &y) {
                    proof {
                        assert(!comp_same(a[k], b[k]));
                        assert(!comps_prefix(a, b)) by {
                            if comps_prefix(a, b) {
                                assert(a.take(b.len() as int)[k] == a[k]);
                            }
                        }
                    }
                    return None;
                }
                proof {
                    assert(a.skip(k + 1) =~= a.skip(k).drop_first());
                    assert(b.skip(k + 1) =~= b.skip(k).drop_first());
                    assert forall|j: int| 0 <= j < k + 1 implies comp_same(
                        #[trigger] a.take(k + 1)[j],
                        b.take(k + 1)[j],
                    ) by {
                        if j < k {
                            assert(a.take(k)[j] == a.take(k + 1)[j]);
                            assert(b.take(k)[j] == b.take(k + 1)[j]);
                        }
                    }
                    k = k + 1;
                }
            },
            (Some(_), None) => {
                proof {
                    assert(k == b.len());
                    assert(a.take(k) =~= a.take(b.len() as int));
                    assert(b.take(k) =~= b);
                }
                return Some(it);
            },
            (None, None) => {
                proof {
                    assert(k == b.len());
                    assert(b.take(k) =~= b);
                }
                return Some(it);
            },
            (None, Some(_)) => {
                proof {
                    assert(k == a.len());
                    assert(k < b.len());
                }
                return None;
            },
        }
        it = iter_next;
    }
}

/// Match the components of `suffix` against the back of `iter`.
pub fn iter_after_back<'a, 'b>(iter: Components<'a>, suffix: Components<'b>) -> (r: bool)
    requires
        iter.wf(),
        suffix.wf(),
    ensures
        r == comps_suffix(iter.rem(), suffix.rem()),
{
    let mut it = iter;
    let mut suf = suffix;
    let ghost a = iter.rem();
    let ghost b = suffix.rem();
    let ghost mut k: int = 0;
    loop
        invariant
            it.wf(),
            suf.wf(),
            a == iter.rem(),
            b == suffix.rem(),
            0 <= k <= a.len(),
            k <= b.len(),
            it.rem() == a.take(a.len() - k),
            suf.rem() == b.take(b.len() - k),
            comps_same(a.skip(a.len() - k), b.skip(b.len() - k)),
        decreases a.len() - k,
    {
        let x = it.next_back();
        let y = suf.next_back();
        match (x, y) {
            (Some(x), Some(y)) => {
                if !comp_eq(&x, &y) {
                    proof {
                        assert(!comp_same(a[a.len() - k - 1], b[b.len() - k - 1]));
                        assert(!comps_suffix(a, b)) by {
                            if comps_suffix(a, b) {
                                assert(a.skip(a.len() - b.len())[b.len() - k - 1] == a[a.len()
                                    - k - 1]);
                            }
                        }
                    }
                    return false;
                }
                proof {
                    assert(a.take(a.len() - k - 1) =~= a.take(a.len() - k).drop_last());
                    assert(b.take(b.len() - k - 1) =~= b.take(b.len() - k).drop_last());
                    assert forall|j: int| 0 <= j < k + 1 implies comp_same(
                        #[trigger] a.skip(a.len() - k - 1)[j],
                        b.skip(b.len() - k - 1)[j],
                    ) by {
                        if j > 0 {
                            assert(a.skip(a.len() - k)[j - 1] == a.skip(a.len() - k - 1)[j]);
                            assert(b.skip(b.len() - k)[j - 1] == b.skip(b.len() - k - 1)[j]);
                        }
                    }
                    k = k + 1;
                }
            },
            (_, None) => {
                proof {
                    assert(k == b.len());
                    assert(b.skip(0) =~= b);
                }
                return true;
            },
            (None, Some(_)) => {
                return false;
            },
        }
    }
}

/// Compare two component iterators from the back, component by component.
pub fn components_eq<'a, 'b>(left: Components<'a>, right: Components<'b>) -> (r: bool)
    requires
        left.wf(),
        right.wf(),
    ensures
        r == comps_same(left.rem(), right.rem()),
{
    let mut it = left;
    let mut ot = right;
    let ghost a = left.rem();
    let ghost b = right.rem();
    let ghost mut k: int = 0;
    loop
        invariant
            it.wf(),
            ot.wf(),
            a == left.rem(),
            b == right.rem(),
            0 <= k <= a.len(),
            k <= b.len(),
            it.rem() == a.take(a.len() - k),
            ot.rem() == b.take(b.len() - k),
            comps_same(a.skip(a.len() - k), b.skip(b.len() - k)),
        decreases a.len() - k,
    {
        let x = it.next_back();
        let y = ot.next_back();
        match (x, y) {
            (Some(x), Some(y)) => {
                if !comp_eq(&x, &y) {
                    proof {
                        assert(!comp_same(a[a.len() - k - 1], b[b.len() - k - 1]));
                        assert(!comps_same(a, b)) by {
                            if comps_same(a, b) {
                                assert(a.len() == b.len());
                                assert(comp_same(a[a.len() - k - 1], b[a.len() - k - 1]));
                            }
                        }
                    }
                    return false;
                }
                proof {
                    assert(a.take(a.len() - k - 1) =~= a.take(a.len() - k).drop_last());
                    assert(b.take(b.len() - k - 1) =~= b.take(b.len() - k).drop_last());
                    assert forall|j: int| 0 <= j < k + 1 implies comp_same(
                        #[trigger] a.skip(a.len() - k - 1)[j],
                        b.skip(b.len() - k - 1)[j],
                    ) by {
                        if j > 0 {
                            assert(a.skip(a.len() - k)[j - 1] == a.skip(a.len() - k - 1)[j]);
                            assert(b.skip(b.len() - k)[j - 1] == b.skip(b.len() - k - 1)[j]);
                        }
                    }
                    k = k + 1;
                }
            },
            (None, None) => {
                proof {
                    assert(k == a.len() && k == b.len());
                    assert(a.skip(0) =~= a);
                    assert(b.skip(0) =~= b);
                }
                return true;
            },
            _ => {
                proof {
                    assert(a.len() != b.len());
                }
                return false;
            },
        }
    }
}

impl<'a> PartialEq for Path<'a> {
    fn eq(&self, other: &Self) -> (r: bool) {
        components_eq(self.components(), other.components())
    }
}

impl<'a> vstd::std_specs::cmp::PartialEqSpecImpl for Path<'a> {
    open spec fn obeys_eq_spec() -> bool {
        true
    }

    open spec fn eq_spec(&self, other: &Self) -> bool {
        comps_same(path_components(self@), path_components(other@))
    }
}

impl<'a> Path<'a> {
    /// Create a path from a string slice, checking that it is a valid path.
    pub fn new(s: &'a str) -> (r: Result<Path<'a>, InvalidPathError>)
        ensures
            r is Ok <==> path_refusal(bytes_of(s)) is None,
            r matches Ok(p) ==> p@ == bytes_of(s),
            r matches Err(e) ==> path_refusal(bytes_of(s)) matches Some((idx, kind)) && e.0.1
                == idx && e.0.0@ == refusal_message(kind),
    {
        let path = Path { inner: s };
        match path.validate() {
            Ok(()) => Ok(path),
            Err(e) => Err(e),
        }
    }

    /// Check the text against the rules of a path (see [`path_refusal`]): not empty, no `"` or
    /// `|`, no `?` or `*` and no `:` after the first separator, and macros opened with `<` and
    /// closed with `>`, never nested.
    pub fn validate(&self) -> (r: Result<(), InvalidPathError>)
        ensures
            r is Ok <==> path_refusal(self@) is None,
            r matches Err(e) ==> path_refusal(self@) matches Some((idx, kind)) && e.0.1 == idx
                && e.0.0@ == refusal_message(kind),
    {
        let n = byte_len(self.inner);
        if n == 0 {
            return Err(InvalidPathError(("A path slice cannot be empty.", 0)));
        }
        let ghost b = self@;
        let mut in_macro = false;
        let mut pre_first_slash = true;
        let mut idx: usize = 0;
        while idx < n
            invariant
                n == b.len() > 0,
                b == self@,
                idx <= n,
                path_refusal(b) == refusal_from(b, idx as int, in_macro, pre_first_slash),
            decreases n - idx,
        {
            let c = byte_at(self.inner, idx);
            if c == 0x3c {
                if in_macro {
                    return Err(InvalidPathError(("Invalid macro start", idx)));
                } else {
                    in_macro = true;
                }
            } else if c == 0x3e {
                if in_macro {
                    in_macro = false;
                } else {
                    return Err(InvalidPathError(("Invalid macro start", idx)));
                }
            } else if c == 0x3a {
                if !pre_first_slash {
                    return Err(InvalidPathError(("Path contains invalid `:`", idx)));
                }
            } else if c == 0x2f || c == 0x5c {
                pre_first_slash = false;
            } else if c == 0x22 || c == 0x7c {
                return Err(
                    InvalidPathError(
                        ("Path contains invalid characters, any of the following: :\"|?*", idx),
                    ),
                );
            } else if (c == 0x3f || c == 0x2a) && pre_first_slash {
                return Err(
                    InvalidPathError(
                        ("Path contains invalid characters, any of the following: :\"|?*", idx),
                    ),
                );
            }
            idx = idx + 1;
        }
        if in_macro {
            return Err(InvalidPathError(("Macro has not been closed", n)));
        }
        Ok(())
    }

    /// Wrap a string slice as a path, without checking it.
    pub(crate) fn wrap(s: &'a str) -> (r: Path<'a>)
        ensures
            r@ == bytes_of(s),
    {
        Path { inner: s }
    }

    /// The underlying string slice.
    pub closed spec fn as_str_spec(&self) -> &'a str {
        self.inner
    }

    /// Yields the underlying [`str`] slice.
    pub fn as_str(&self) -> (r: &'a str)
        ensures
            bytes_of(r) == self@,
            r == self.as_str_spec(),
    {
        self.inner
    }

    /// Get the length of the path
    pub fn len(&self) -> (r: usize)
        ensures
            r == self@.len(),
    {
        byte_len(self.inner)
    }

    /// Produces an iterator over the [`Component`]s of the path.
    pub fn components(&self) -> (r: Components<'a>)
        ensures
            r.wf(),
            r.fresh(),
            r.from_start(),
            r.text() == self@,
            r.rem() == path_components(self@),
            r.rooted() == spec_parse_root(self@) is Some,
            r.back_open(),
    {
        Components::of(self.inner)
    }

    /// Produces an iterator over the path's components viewed as [`str`] slices.
    pub fn iter(&self) -> (r: Iter<'a>)
        ensures
            r.0.wf(),
            r.0.fresh(),
            r.0.from_start(),
            r.0.text() == self@,
            r.0.back_open(),
            r.0.rem() == path_components(self@),
    {
        Iter(self.components())
    }

    /// Check if the `Path` has a root.
    pub fn has_root(&self) -> (r: bool)
        ensures
            r == spec_parse_root(self@) is Some,
    {
        self.components().has_root()
    }
}

/// The engine runs on Windows only (its file-system layer exists for Windows alone), so the
/// platform-dependent queries read paths by Windows rules; their `_on` forms take the
/// platform as an argument.
pub const WINDOWS_PATHS: bool = true;

/// The last component, when it names a file or directory.
pub open spec fn file_name_spec(c: Seq<CompView>) -> Option<Seq<u8>> {
    if c.len() == 0 {
        None
    } else {
        match c.last() {
            CompView::Normal(s) => Some(s),
            CompView::Vfs(s) => Some(s),
            _ => None,
        }
    }
}

/// The index of the last `.` in `s`, or -1.
pub open spec fn last_dot(s: Seq<u8>, j: int) -> int
    decreases j,
{
    if j <= 0 {
        -1
    } else if s[j - 1] == 0x2e {
        j - 1
    } else {
        last_dot(s, j - 1)
    }
}

/// The index of the first `.` at or after position `i`, or the length.
pub open spec fn first_dot_from(s: Seq<u8>, i: int) -> int
    decreases s.len() - i,
{
    if i >= s.len() {
        s.len() as int
    } else if s[i] == 0x2e {
        i
    } else {
        first_dot_from(s, i + 1)
    }
}

pub open spec fn is_dot_dot(s: Seq<u8>) -> bool {
    s =~= seq![0x2eu8, 0x2eu8]
}

/// A file name split at its last `.`: the part before and the part after.
/// `..`, a name without a `.` and a name whose only `.` comes first are not split.
pub open spec fn rsplit_at_dot_spec(name: Seq<u8>) -> (Option<Seq<u8>>, Option<Seq<u8>>) {
    let d = last_dot(name, name.len() as int);
    if is_dot_dot(name) {
        (Some(name), None)
    } else if d < 0 {
        (None, Some(name))
    } else if d == 0 {
        (Some(name), None)
    } else {
        (Some(name.subrange(0, d)), Some(name.subrange(d + 1, name.len() as int)))
    }
}

/// A file name split at its first `.` that is not its first byte.
pub open spec fn split_at_dot_spec(name: Seq<u8>) -> (Seq<u8>, Option<Seq<u8>>) {
    let d = first_dot_from(name, 1);
    if is_dot_dot(name) || d >= name.len() {
        (name, None)
    } else {
        (name.subrange(0, d), Some(name.subrange(d + 1, name.len() as int)))
    }
}

pub open spec fn stem_spec(name: Seq<u8>) -> Seq<u8> {
    let (before, after) = rsplit_at_dot_spec(name);
    match before {
        Some(b) => b,
        None => after->0,
    }
}

pub open spec fn extension_spec(name: Seq<u8>) -> Option<Seq<u8>> {
    let (before, after) = rsplit_at_dot_spec(name);
    if before is Some {
        after
    } else {
        None
    }
}

/// The form a path is in, folded over its components from the left.
pub open spec fn form_fold(c: Seq<CompView>, form: PathForm, windows: bool) -> PathForm
    decreases c.len(),
{
    if c.len() == 0 {
        form
    } else {
        match c[0] {
            CompView::Vfs(_) => PathForm::Raw,
            _ => form_fold(c.drop_first(), form_step(c[0], form, windows), windows),
        }
    }
}

pub open spec fn form_step(c: CompView, form: PathForm, windows: bool) -> PathForm {
    match c {
        CompView::Root(_, r) => match r {
            RootView::Common => if windows {
                PathForm::Unnormalized
            } else {
                form
            },
            RootView::Vfs(_) => PathForm::Normalized,
            _ => if !windows {
                PathForm::Normalized
            } else {
                form
            },
        },
        CompView::CurDir => PathForm::Unnormalized,
        CompView::ParentDir => PathForm::Unnormalized,
        CompView::Wildcard(_) => PathForm::Unnormalized,
        _ => form,
    }
}

/// The form a path is in: raw where its text holds a macro (in a component or in its root),
/// else as its components fold.
pub open spec fn form_spec(b: Seq<u8>, windows: bool) -> PathForm {
    if b.contains(0x3cu8) {
        PathForm::Raw
    } else {
        form_fold(
        path_components(b),
        if spec_parse_root(b) is Some {
            PathForm::FullyQualified
        } else {
            PathForm::Unnormalized
        },
        windows,
    )
    }
}

/// Over components without a root, the fold keeps a normalized or fully qualified form only
/// where every component is a name, and then gives back the form it started with.
proof fn lemma_form_fold_no_root(c: Seq<CompView>, f: PathForm, windows: bool)
    requires
        forall|i: int| 0 <= i < c.len() ==> !(#[trigger] c[i] is Root),
    ensures
        (form_fold(c, f, windows) == PathForm::Normalized || form_fold(c, f, windows)
            == PathForm::FullyQualified) ==> form_fold(c, f, windows) == f && forall|i: int|
            0 <= i < c.len() ==> #[trigger] c[i] is Normal,
    decreases c.len(),
{
    if c.len() > 0 {
        let rest = c.drop_first();
        assert forall|i: int| 0 <= i < rest.len() implies !(#[trigger] rest[i] is Root) by {
            assert(rest[i] == c[i + 1]);
        }
        lemma_form_fold_no_root(rest, form_step(c[0], f, windows), windows);
        lemma_form_fold_no_root(rest, PathForm::Unnormalized, windows);
        if !(c[0] is Vfs) && (form_fold(c, f, windows) == PathForm::Normalized || form_fold(c, f, windows)
            == PathForm::FullyQualified) {
            assert forall|i: int| 0 <= i < c.len() implies #[trigger] c[i] is Normal by {
                if i > 0 {
                    assert(c[i] == rest[i - 1]);
                }
            }
        }
    }
}

/// What a form promises: a path that is not raw holds no macro; a normalized or fully
/// qualified path is absolute on its platform and holds no `.`, `..` or wildcard; a fully
/// qualified path has no virtual-file-system root.
pub proof fn law_form_meaning(b: Seq<u8>, windows: bool)
    ensures
        form_spec(b, windows) != PathForm::Raw ==> !b.contains(0x3cu8),
        (form_spec(b, windows) == PathForm::Normalized || form_spec(b, windows)
            == PathForm::FullyQualified) ==> spec_parse_root(b) is Some && (!windows || spec_parse_root(
            b,
        )->0 != RootView::Common) && forall|i: int|
            1 <= i < path_components(b).len() ==> #[trigger] path_components(b)[i] is Normal,
        form_spec(b, windows) == PathForm::FullyQualified ==> !(spec_parse_root(b) matches Some(
            RootView::Vfs(_),
        )),
{
    if !b.contains(0x3cu8) {
        let c = path_components(b);
        crate::path_model::lemma_first_component(b);
        let body = b.subrange(body_start(b), b.len() as int);
        crate::path_model::lemma_body_comps_kinds(body);
        if spec_parse_root(b) is Some {
            let rest = c.drop_first();
            assert(c == crate::path_model::root_part(b) + body_comps(body));
            assert forall|i: int| 0 <= i < rest.len() implies !(#[trigger] rest[i] is Root) by {
                assert(rest[i] == body_comps(body)[i]);
            }
            let f1 = form_step(c[0], PathForm::FullyQualified, windows);
            assert(form_spec(b, windows) == form_fold(rest, f1, windows));
            lemma_form_fold_no_root(rest, f1, windows);
            if form_spec(b, windows) == PathForm::Normalized || form_spec(b, windows)
                == PathForm::FullyQualified {
                assert forall|i: int| 1 <= i < c.len() implies #[trigger] c[i] is Normal by {
                    assert(c[i] == rest[i - 1]);
                }
            }
        } else {
            assert forall|i: int| 0 <= i < c.len() implies !(#[trigger] c[i] is Root) by {}
            lemma_form_fold_no_root(c, PathForm::Unnormalized, windows);
        }
    }
}

/// Form of the path, i.e. what state the path is in
#[derive(Clone, Copy, PartialEq, Eq, Structural, Debug)]
pub enum PathForm {
    /// A raw path: may be relative, have a vfs root, refer to the parent or current dir and
    /// hold vfs macros.
    Raw,
    /// An unnormalized path: like a raw path, but without vfs macros.
    Unnormalized,
    /// A normalized path: absolute, without references to the current or parent dir and
    /// without vfs macros; may have a vfs root.
    Normalized,
    /// A fully qualified path: a normalized path without a vfs root.
    FullyQualified,
}

impl PathForm {
    /// The name of the form.
    pub fn name(&self) -> (r: &'static str)
        ensures
            r@ == match *self {
                PathForm::Raw => "Raw"@,
                PathForm::Unnormalized => "Unnormalized"@,
                PathForm::Normalized => "Normalized"@,
                PathForm::FullyQualified => "FullyQualified"@,
            },
    {
        match *self {
            PathForm::Raw => "Raw",
            PathForm::Unnormalized => "Unnormalized",
            PathForm::Normalized => "Normalized",
            PathForm::FullyQualified => "FullyQualified",
        }
    }
}

/// Split a file name at its last `.`.
fn rsplit_file_at_dot<'b>(file: &'b str) -> (r: (Option<&'b str>, Option<&'b str>))
    ensures
        match r.0 {
            Some(s) => rsplit_at_dot_spec(bytes_of(file)).0 == Some(bytes_of(s)),
            None => rsplit_at_dot_spec(bytes_of(file)).0 is None,
        },
        match r.1 {
            Some(s) => rsplit_at_dot_spec(bytes_of(file)).1 == Some(bytes_of(s)),
            None => rsplit_at_dot_spec(bytes_of(file)).1 is None,
        },
{
    let ghost b = bytes_of(file);
    let n = byte_len(file);
    if n == 2 && byte_at(file, 0) == 0x2e && byte_at(file, 1) == 0x2e {
        return (Some(file), None);
    }
    assert(!is_dot_dot(b)) by {
        if is_dot_dot(b) {
            assert(b[0] == 0x2e && b[1] == 0x2e);
        }
    }
    let mut j = n;
    while j > 0
        invariant
            j <= n == b.len(),
            b == bytes_of(file),
            !is_dot_dot(b),
            last_dot(b, n as int) == last_dot(b, j as int),
        decreases j,
    {
        if byte_at(file, j - 1) == 0x2e {
            let d = j - 1;
            assert(last_dot(b, j as int) == d);
            if d == 0 {
                return (Some(file), None);
            }
            return (Some(substr(file, 0, d)), Some(substr(file, d + 1, n)));
        }
        j = j - 1;
    }
    (None, Some(file))
}

/// Split a file name at its first `.` that is not its first byte.
fn split_file_at_dot<'b>(file: &'b str) -> (r: (&'b str, Option<&'b str>))
    ensures
        bytes_of(r.0) == split_at_dot_spec(bytes_of(file)).0,
        match r.1 {
            Some(s) => split_at_dot_spec(bytes_of(file)).1 == Some(bytes_of(s)),
            None => split_at_dot_spec(bytes_of(file)).1 is None,
        },
{
    let ghost b = bytes_of(file);
    let n = byte_len(file);
    if n == 2 && byte_at(file, 0) == 0x2e && byte_at(file, 1) == 0x2e {
        return (file, None);
    }
    assert(!is_dot_dot(b)) by {
        if is_dot_dot(b) {
            assert(b[0] == 0x2e && b[1] == 0x2e);
        }
    }
    if n <= 1 {
        return (file, None);
    }
    let mut i: usize = 1;
    while i < n
        invariant
            1 <= i <= n == b.len(),
            b == bytes_of(file),
            !is_dot_dot(b),
            first_dot_from(b, 1) == first_dot_from(b, i as int),
        decreases n - i,
    {
        if byte_at(file, i) == 0x2e {
            assert(first_dot_from(b, i as int) == i);
            return (substr(file, 0, i), Some(substr(file, i + 1, n)));
        }
        i = i + 1;
    }
    (file, None)
}

impl<'a> Path<'a> {
    /// Check whether the path is absolute on a platform: rooted, and on Windows not only by `/`.
    pub fn is_absolute_on(&self, windows: bool) -> (r: bool)
        ensures
            r == (spec_parse_root(self@) is Some && (!windows || spec_parse_root(self@)->0
                != RootView::Common)),
    {
        let mut components = self.components();
        proof {
            crate::path_model::lemma_first_component(self@);
        }
        if !components.has_root() {
            return false;
        }
        if !windows {
            return true;
        }
        match components.next() {
            Some(Component::Root(root)) => !matches!(root.kind(), Root::Common),
            _ => false,
        }
    }

    /// Check if the `Path` is absolute, i.e. if it is independent from the current directory.
    ///
    /// On windows, a path is absolute when it has a root other than `/`.
    pub fn is_absolute(&self) -> (r: bool)
        ensures
            r == (spec_parse_root(self@) is Some && (!WINDOWS_PATHS || spec_parse_root(self@)->0
                != RootView::Common)),
    {
        self.is_absolute_on(WINDOWS_PATHS)
    }

    /// Check if the path is relative, i.e. not absolute.
    pub fn is_relative(&self) -> (r: bool)
        ensures
            r == !(spec_parse_root(self@) is Some && (!WINDOWS_PATHS || spec_parse_root(self@)->0
                != RootView::Common)),
    {
        !self.is_absolute()
    }

    /// Returns the `Path` without its final component, if there is one.
    pub fn parent(&self) -> (r: Option<Path<'a>>)
        ensures
            r is Some <==> crate::path_model::parent_exists(path_components(self@)),
            r matches Some(p) ==> p@.len() <= self@.len(),
            r matches Some(p) ==> p@ == self@.subrange(0, p@.len() as int),
            r matches Some(p) ==> p@ == self@.subrange(0, crate::components::parent_len(self@)),
            r matches Some(p) ==> path_components(p@) == path_components(self@).drop_last(),
    {
        match self.components().parent_text() {
            Some(t) => Some(Path { inner: t }),
            None => None,
        }
    }

    /// Produces an iterator over `Path` and its ancestors.
    pub fn ancestors(&self) -> (r: Ancestors<'a>)
        ensures
            r.next == Some(*self),
    {
        Ancestors { next: Some(*self) }
    }

    /// Returns the final component of the [`Path`], if it is a name.
    pub fn file_name(&self) -> (r: Option<&'a str>)
        ensures
            match r {
                Some(s) => file_name_spec(path_components(self@)) == Some(bytes_of(s)),
                None => file_name_spec(path_components(self@)) is None,
            },
    {
        let mut comps = self.components();
        match comps.next_back() {
            Some(Component::Normal(p)) => Some(p),
            Some(Component::VFS(vfs)) => Some(vfs.as_str()),
            _ => None,
        }
    }

    /// Determines whether `base` is a prefix of `self`, comparing whole components.
    pub fn starts_with(&self, base: Path) -> (r: bool)
        ensures
            r == comps_prefix(path_components(self@), path_components(base@)),
    {
        iter_after(self.components(), base.components()).is_some()
    }

    /// Determines whether `child` is a suffix of `self`, comparing whole components.
    pub fn ends_with(&self, child: Path) -> (r: bool)
        ensures
            r == comps_suffix(path_components(self@), path_components(child@)),
    {
        iter_after_back(self.components(), child.components())
    }

    /// Returns a path that, when joined onto `base`, yields `self`: the components of `self`
    /// after those of `base`, in a text that neither reads as rooted nor starts with `.` when
    /// `base` has components.
    /// Errors if `base` is not a prefix of `self`, and also where `base` has components and the
    /// first component left holds a `:` (as in `C:a:b` after `C:`): that text would read as
    /// rooted, and joined onto `base` it would replace it.
    pub fn strip_prefix(&self, base: Path) -> (r: Result<Path<'a>, StripPrefixError>)
        ensures
            r is Ok <==> comps_prefix(path_components(self@), path_components(base@)) && (
            path_components(base@).len() == 0 || !leads_with_colon(
                path_components(self@).skip(path_components(base@).len() as int),
            )),
            r matches Ok(p) ==> path_components(p@) == path_components(self@).skip(
                path_components(base@).len() as int,
            ),
            r matches Ok(p) ==> (path_components(base@).len() > 0 ==> spec_parse_root(p@) is None
                && !has_cur_dir(p@)),
    {
        let iter = self.components();
        let prefix = base.components();
        let mut probe = base.components();
        let base_has_comps = probe.next().is_some();
        match iter_after(iter, prefix) {
            Some(c) => {
                let rest = c.as_path();
                proof {
                    if prefix.rem().len() > 0 {
                        c.lemma_as_path_started();
                        lemma_rooted_iff_colon(rest@);
                    } else {
                        iter.lemma_as_path_fresh();
                        assert(path_components(self@).skip(0) =~= path_components(self@));
                    }
                }
                if base_has_comps && rest.has_root() {
                    Err(StripPrefixError(()))
                } else {
                    Ok(rest)
                }
            },
            None => Err(StripPrefixError(())),
        }
    }

    /// Extract the stem (non-extension) portion of [`Path::file_name`].
    pub fn file_stem(&self) -> (r: Option<&'a str>)
        ensures
            match r {
                Some(s) => file_name_spec(path_components(self@)) matches Some(n) && bytes_of(s)
                    == stem_spec(n),
                None => file_name_spec(path_components(self@)) is None,
            },
    {
        match self.file_name() {
            Some(name) => {
                let (before, after) = rsplit_file_at_dot(name);
                match before {
                    Some(b) => Some(b),
                    None => after,
                }
            },
            None => None,
        }
    }

    /// Extracts the prefix of [`Path::file_name`]: the part before its first `.` that does not
    /// start it.
    pub fn file_prefix(&self) -> (r: Option<&'a str>)
        ensures
            match r {
                Some(s) => file_name_spec(path_components(self@)) matches Some(n) && bytes_of(s)
                    == split_at_dot_spec(n).0,
                None => file_name_spec(path_components(self@)) is None,
            },
    {
        match self.file_name() {
            Some(name) => Some(split_file_at_dot(name).0),
            None => None,
        }
    }

    /// Extract the extension of [`Path::file_name`].
    pub fn extension(&self) -> (r: Option<&'a str>)
        ensures
            match r {
                Some(s) => file_name_spec(path_components(self@)) matches Some(n) && extension_spec(
                    n,
                ) == Some(bytes_of(s)),
                None => file_name_spec(path_components(self@)) matches Some(n) ==> extension_spec(
                    n,
                ) is None,
            },
    {
        match self.file_name() {
            Some(name) => {
                let (before, after) = rsplit_file_at_dot(name);
                if before.is_some() {
                    after
                } else {
                    None
                }
            },
            None => None,
        }
    }

    /// Is the path rooted by a drive or a network share?
    pub fn is_windows_path(&self) -> (r: bool)
        ensures
            r == (spec_parse_root(self@) matches Some(x) && (x is Drive || x is WinShare)),
    {
        let mut comps = self.components();
        proof {
            crate::path_model::lemma_first_component(self@);
        }
        if let Some(Component::Root(root)) = comps.next() {
            matches!(root.kind(), Root::Drive(_) | Root::WinShare { .. })
        } else {
            false
        }
    }

    /// Does the path contain any VFS macros?
    pub fn has_macros(&self) -> (r: bool)
        ensures
            r == self@.contains(0x3cu8),
    {
        crate::path_component::contains_byte(self.inner, 0x3c)
    }

    /// Does the path have a VFS root?
    pub fn has_vfs_root(&self) -> (r: bool)
        ensures
            r == (spec_parse_root(self@) matches Some(x) && x is Vfs),
    {
        let mut comps = self.components();
        proof {
            crate::path_model::lemma_first_component(self@);
        }
        if let Some(Component::Root(root)) = comps.next() {
            matches!(root.kind(), Root::VFS(_))
        } else {
            false
        }
    }

    /// Is the path a search path, i.e. does it contain a wildcard?
    pub fn is_search_path(&self) -> (r: bool)
        ensures
            r == (self@.contains(0x2au8) || self@.contains(0x3fu8)),
    {
        crate::path_component::contains_byte(self.inner, 0x2a)
            || crate::path_component::contains_byte(self.inner, 0x3f)
    }

    /// Is the path a VFS path: does it start with a VFS root or contain macros?
    pub fn is_vfs_path(&self) -> (r: bool)
        ensures
            r == ((spec_parse_root(self@) matches Some(x) && x is Vfs) || self@.contains(0x3cu8)),
    {
        self.has_vfs_root() || self.has_macros()
    }

    /// Get the form the path is in, on a given platform.
    pub fn get_form_on(&self, windows: bool) -> (r: PathForm)
        ensures
            r == form_spec(self@, windows),
    {
        if self.has_macros() {
            return PathForm::Raw;
        }
        let mut comps = self.components();
        let ghost c0 = comps.rem();
        let mut form = if comps.has_root() {
            PathForm::FullyQualified
        } else {
            PathForm::Unnormalized
        };
        loop
            invariant
                comps.wf(),
                !self@.contains(0x3cu8),
                form_spec(self@, windows) == form_fold(comps.rem(), form, windows),
            decreases comps.rem().len(),
        {
            let ghost before = comps.rem();
            match comps.next() {
                None => {
                    return form;
                },
                Some(comp) => {
                    match comp {
                        Component::Root(root) => match root.kind() {
                            Root::Common => if windows {
                                form = PathForm::Unnormalized;
                            },
                            Root::VFS(_) => form = PathForm::Normalized,
                            _ => if !windows {
                                form = PathForm::Normalized;
                            },
                        },
                        Component::CurDir => form = PathForm::Unnormalized,
                        Component::ParentDir => form = PathForm::Unnormalized,
                        Component::Normal(_) => {},
                        Component::VFS(_) => {
                            return PathForm::Raw;
                        },
                        Component::Wildcard(_) => form = PathForm::Unnormalized,
                    }
                    proof {
                        assert(before.drop_first() == comps.rem());
                    }
                },
            }
        }
    }

    /// Get the form the path is currently in.
    pub fn get_form(&self) -> (r: PathForm)
        ensures
            r == form_spec(self@, WINDOWS_PATHS),
    {
        self.get_form_on(WINDOWS_PATHS)
    }
}

impl<'a> Components<'a> {
    /// Extract a slice corresponding to the portion of the path remaining for iteration
    pub fn as_path(&self) -> (r: Path<'a>)
        requires
            self.wf(),
        ensures
            r@ == self.as_path_spec(),
    {
        Path { inner: self.remaining_text() }
    }
}

/// An iterator over [`Path`] and its ancestors.
#[derive(Clone, Copy, Debug)]
pub struct Ancestors<'a> {
    pub next: Option<Path<'a>>,
}

impl<'a> Ancestors<'a> {
    /// The current path; the iterator moves on to its parent.
    pub fn next(&mut self) -> (r: Option<Path<'a>>)
        ensures
            r == old(self).next,
            old(self).next is None ==> final(self).next is None,
            old(self).next matches Some(p) ==> (final(self).next is Some <==> crate::path_model::parent_exists(path_components(p@))),
            old(self).next matches Some(p) ==> (final(self).next matches Some(q) ==> path_components(q@) == path_components(p@).drop_last() && q@ == p@.subrange(0, q@.len() as int)),
    {
        let next = self.next;
        self.next = match next {
            Some(p) => p.parent(),
            None => None,
        };
        next
    }
}

/// An iterator over the [`Component`]s of a [`Path`], as [`str`] slices.
pub struct Iter<'a>(pub Components<'a>);

impl<'a> Iter<'a> {
    /// Extracts the slice corresponding to the portion of the path remaining for iteration.
    pub fn as_path(&self) -> (r: Path<'a>)
        requires
            self.0.wf(),
        ensures
            r@ == self.0.as_path_spec(),
            self.0.from_start() ==> path_components(r@) == self.0.rem(),
    {
        proof {
            if self.0.from_start() {
                self.0.lemma_as_path_fresh();
            }
        }
        self.0.as_path()
    }

    /// The next component's text from the front.
    pub fn next(&mut self) -> (r: Option<&'a str>)
        requires
            old(self).0.wf(),
        ensures
            final(self).0.wf(),
            old(self).0.rem().len() == 0 ==> r is None && final(self).0.rem().len() == 0,
            old(self).0.rem().len() > 0 ==> r is Some && bytes_of(r->0)
                == crate::path_component::comp_text(old(self).0.rem()[0]),
            old(self).0.rem().len() > 0 ==> final(self).0.rem() == old(self).0.rem().drop_first(),
    {
        match self.0.next() {
            Some(c) => Some(c.as_str()),
            None => None,
        }
    }

    /// The next component's text from the back.
    pub fn next_back(&mut self) -> (r: Option<&'a str>)
        requires
            old(self).0.wf(),
        ensures
            final(self).0.wf(),
            old(self).0.rem().len() == 0 ==> r is None && final(self).0.rem().len() == 0,
            old(self).0.rem().len() > 0 ==> r is Some && bytes_of(r->0)
                == crate::path_component::comp_text(old(self).0.rem().last()),
            old(self).0.rem().len() > 0 ==> final(self).0.rem() == old(self).0.rem().drop_last(),
    {
        match self.0.next_back() {
            Some(c) => Some(c.as_str()),
            None => None,
        }
    }
}

/// Where the last body segment of a path ends, after its trailing empty and `.` segments are
/// dropped.
pub open spec fn name_end(b: Seq<u8>) -> int {
    trim_back(b, body_start(b))
}

/// A file name is the text right before `name_end`.
pub proof fn lemma_file_name_range(b: Seq<u8>)
    ensures
        file_name_spec(path_components(b)) matches Some(n) ==> body_start(b) <= name_end(b) - n.len()
            && name_end(b) <= b.len() && n == b.subrange(name_end(b) - n.len(), name_end(b)),
        file_name_spec(path_components(b)) matches Some(n) ==> n.len() > 0,
        file_name_spec(path_components(b)) is Some ==> name_end(b) == b.len() || is_sep_spec(
            b[name_end(b)],
        ),
{
    let bs = body_start(b);
    crate::path_model::lemma_root_cut_len(b);
    if file_name_spec(path_components(b)) is Some {
        let c = path_components(b);
        let pre = crate::path_model::root_part(b) + (if crate::path_model::has_cur_dir(b) {
            seq![CompView::CurDir]
        } else {
            seq![]
        });
        let body = body_comps(b.subrange(bs, b.len() as int));
        assert(c == pre + body);
        assert(pre.len() == 0 || pre.last() is Root || pre.last() is CurDir);
        if pre.len() > 0 {
            assert(pre[0] is Root || pre[0] is CurDir);
        }
        assert(body.len() > 0) by {
            if body.len() == 0 {
                assert(c =~= pre);
                if pre.len() == 2 {
                    assert(pre[1] is CurDir);
                }
            }
        }
        assert(c.last() == body.last());
        lemma_trim_back_comps(b, bs);
        let t0 = trim_back(b, bs);
        let q = b.subrange(0, t0);
        assert(t0 > bs) by {
            if t0 == bs {
                assert(b.subrange(bs, t0) =~= Seq::<u8>::empty());
                crate::path_model::lemma_body_comps_empty();
            }
        }
        lemma_body_comps_last(q, bs);
        lemma_rfind_sep_in_prefix(b, t0, bs, t0);
        let i = rfind_sep_in(b, bs, t0);
        crate::path_model::lemma_rfind_sep_in(b, bs, t0);
        assert(q.subrange(bs, q.len() as int) =~= b.subrange(bs, t0));
        let seg = if i >= 0 {
            b.subrange(i + 1, t0)
        } else {
            b.subrange(bs, t0)
        };
        if i >= 0 {
            assert(q.subrange(i + 1, q.len() as int) =~= seg);
            assert(q.subrange(bs, i) =~= b.subrange(bs, i));
        } else {
            assert(q.subrange(bs, q.len() as int) =~= seg);
        }
        assert(classify(seg) is Some);
        assert(body.last() == classify(seg)->0);
    }
}

/// The stem is the start of the name; it ends at the end of the name or right before a `.`.
pub proof fn lemma_stem_prefix(name: Seq<u8>)
    requires
        name.len() > 0,
    ensures
        stem_spec(name).len() <= name.len(),
        stem_spec(name) == name.subrange(0, stem_spec(name).len() as int),
        stem_spec(name).len() == name.len() || name[stem_spec(name).len() as int] == 0x2e,
{
    lemma_last_dot(name, name.len() as int);
    let d = last_dot(name, name.len() as int);
    if is_dot_dot(name) {
        assert(name.subrange(0, name.len() as int) =~= name);
    } else if d <= 0 {
        assert(name.subrange(0, name.len() as int) =~= name);
    } else {
        assert(name.subrange(0, d).subrange(0, d) =~= name.subrange(0, d));
    }
}

pub proof fn lemma_last_dot(s: Seq<u8>, j: int)
    requires
        0 <= j <= s.len(),
    ensures
        -1 <= last_dot(s, j) < j,
        last_dot(s, j) >= 0 ==> s[last_dot(s, j)] == 0x2e,
    decreases j,
{
    if j > 0 && s[j - 1] != 0x2e {
        lemma_last_dot(s, j - 1);
    }
}

} // verus!

verus! {

/// How a root is fed to a hasher: a tag for its kind, then its parsed parts, each text
/// closed by `0xff`.
pub open spec fn root_encoding(r: RootView) -> Seq<u8> {
    match r {
        RootView::Drive(d) => seq![0u8, d],
        RootView::WinShare(server, share) => seq![1u8] + server + seq![0xffu8] + share + seq![
            0xffu8,
        ],
        RootView::Common => seq![2u8],
        RootView::Vfs(name) => seq![3u8] + name + seq![0xffu8],
    }
}

/// How one component is fed to a hasher: a root by what was parsed, any other component by
/// its text closed by `0xff`.
pub open spec fn comp_encoding(c: CompView) -> Seq<u8> {
    match c {
        CompView::Root(_, r) => root_encoding(r),
        _ => comp_text(c) + seq![0xffu8],
    }
}

/// How a path is fed to a hasher: its components one after the other.
pub open spec fn hash_encoding(cs: Seq<CompView>) -> Seq<u8>
    decreases cs.len(),
{
    if cs.len() == 0 {
        Seq::empty()
    } else {
        hash_encoding(cs.drop_last()) + comp_encoding(cs.last())
    }
}

/// Append the bytes of a string slice.
fn push_str_bytes(v: &mut Vec<u8>, s: &str)
    ensures
        final(v)@ == old(v)@ + bytes_of(s),
{
    let mut tail = vstd::slice::slice_to_vec(s.as_bytes());
    v.append(&mut tail);
}

/// The bytes a root is fed to a hasher as.
fn root_hash_bytes(root: &Root, v: &mut Vec<u8>)
    ensures
        final(v)@ == old(v)@ + root_encoding(root@),
{
    match *root {
        Root::Drive(d) => {
            v.push(0);
            v.push(d);
            assert(v@ =~= old(v)@ + seq![0u8, d]);
        },
        Root::WinShare { server, share } => {
            v.push(1);
            push_str_bytes(v, server);
            v.push(0xff);
            push_str_bytes(v, share);
            v.push(0xff);
            assert(v@ =~= old(v)@ + (seq![1u8] + bytes_of(server) + seq![0xffu8] + bytes_of(share)
                + seq![0xffu8]));
        },
        Root::Common => {
            v.push(2);
            assert(v@ =~= old(v)@ + seq![2u8]);
        },
        Root::VFS(name) => {
            v.push(3);
            push_str_bytes(v, name);
            v.push(0xff);
            assert(v@ =~= old(v)@ + (seq![3u8] + bytes_of(name) + seq![0xffu8]));
        },
    }
}

impl<'a> Path<'a> {
    /// The bytes the path is fed to a hasher as: its components, a root by what was parsed.
    pub fn hash_bytes(&self) -> (r: Vec<u8>)
        ensures
            r@ == hash_encoding(path_components(self@)),
    {
        let mut comps = self.components();
        let ghost all = comps.rem();
        let mut v: Vec<u8> = Vec::new();
        let ghost mut k: int = 0;
        loop
            invariant_except_break
                comps.wf(),
                all == path_components(self@),
                0 <= k <= all.len(),
                comps.rem() == all.skip(k),
                v@ == hash_encoding(all.take(k)),
            ensures
                v@ == hash_encoding(all),
            decreases all.len() - k,
        {
            match comps.next() {
                None => {
                    proof {
                        assert(all.take(k) =~= all);
                    }
                    break;
                },
                Some(c) => {
                    proof {
                        assert(c@ == all[k]);
                        assert(all.take(k + 1).drop_last() =~= all.take(k));
                        assert(all.skip(k + 1) =~= all.skip(k).drop_first());
                    }
                    match c {
                        Component::Root(rc) => {
                            root_hash_bytes(&rc.parsed, &mut v);
                        },
                        _ => {
                            push_str_bytes(&mut v, c.as_str());
                            v.push(0xff);
                        },
                    }
                    proof {
                        k = k + 1;
                    }
                },
            }
        }
        v
    }
}

/// Paths that are equal component by component are fed to a hasher as the same bytes, so
/// equal paths hash equally.
pub proof fn law_equal_paths_hash_equal(a: Seq<CompView>, b: Seq<CompView>)
    requires
        comps_same(a, b),
    ensures
        hash_encoding(a) == hash_encoding(b),
    decreases a.len(),
{
    if a.len() > 0 {
        assert(comps_same(a.drop_last(), b.drop_last())) by {
            assert forall|i: int| 0 <= i < a.drop_last().len() implies comp_same(
                #[trigger] a.drop_last()[i],
                b.drop_last()[i],
            ) by {
                assert(comp_same(a[i], b[i]));
            }
        }
        law_equal_paths_hash_equal(a.drop_last(), b.drop_last());
        assert(comp_same(a.last(), b.last()));
    }
}

/// `Hasher::write`: feed bytes to a hasher; nothing is claimed of the hasher's state.
#[verifier::external_body]
pub(crate) fn hasher_write<St: std::hash::Hasher>(state: &mut St, bytes: &[u8]) {
    state.write(bytes)
}

impl<'a> std::hash::Hash for Path<'a> {
    /// Feed the path to the hasher as [`Path::hash_bytes`].
    fn hash<St: std::hash::Hasher>(&self, state: &mut St) {
        let bytes = self.hash_bytes();
        hasher_write(state, bytes.as_slice());
    }
}

} // verus!
