//! Splitting a virtual-file-system component into its text and macro parts, from the
//! front and from the back.
use vstd::prelude::*;
use crate::text::{bytes_of, byte_at, byte_len, substr, cut_ok};
use crate::path_model::{b_lt, b_gt};
use crate::path_component::{VFSComponent, VFSMacro, VFSPart, PartView};

verus! {

/// The index of the first `c` at or after `from`, or the length when there is none.
pub open spec fn find_byte(s: Seq<u8>, c: u8, from: int) -> int
    decreases s.len() - from,
{
    if from >= s.len() {
        s.len() as int
    } else if s[from] == c {
        from
    } else {
        find_byte(s, c, from + 1)
    }
}

/// The index of the last `c` before `to`, or -1 when there is none.
pub open spec fn rfind_byte(s: Seq<u8>, c: u8, to: int) -> int
    decreases to,
{
    if to <= 0 {
        -1
    } else if s[to - 1] == c {
        to - 1
    } else {
        rfind_byte(s, c, to - 1)
    }
}

pub proof fn lemma_find_byte(s: Seq<u8>, c: u8, from: int)
    requires
        0 <= from <= s.len(),
    ensures
        from <= find_byte(s, c, from) <= s.len(),
        find_byte(s, c, from) < s.len() ==> s[find_byte(s, c, from)] == c,
        forall|k: int| from <= k < find_byte(s, c, from) ==> s[k] != c,
    decreases s.len() - from,
{
    if from < s.len() && s[from] != c {
        lemma_find_byte(s, c, from + 1);
    }
}

pub proof fn lemma_find_byte_at(s: Seq<u8>, c: u8, from: int, r: int)
    requires
        0 <= from <= r <= s.len(),
        forall|k: int| from <= k < r ==> s[k] != c,
        r == s.len() || s[r] == c,
    ensures
        find_byte(s, c, from) == r,
    decreases r - from,
{
    if from < r {
        lemma_find_byte_at(s, c, from + 1, r);
    }
}

pub proof fn lemma_rfind_byte(s: Seq<u8>, c: u8, to: int)
    requires
        0 <= to <= s.len(),
    ensures
        -1 <= rfind_byte(s, c, to) < to,
        rfind_byte(s, c, to) >= 0 ==> s[rfind_byte(s, c, to)] == c,
        forall|k: int| rfind_byte(s, c, to) < k < to ==> s[k] != c,
    decreases to,
{
    if to > 0 && s[to - 1] != c {
        lemma_rfind_byte(s, c, to - 1);
    }
}

pub proof fn lemma_rfind_byte_at(s: Seq<u8>, c: u8, to: int, r: int)
    requires
        -1 <= r < to <= s.len(),
        forall|k: int| r < k < to ==> s[k] != c,
        r == -1 || s[r] == c,
    ensures
        rfind_byte(s, c, to) == r,
    decreases to - r,
{
    if r < to - 1 {
        lemma_rfind_byte_at(s, c, to - 1, r);
    }
}

/// The first part of a component and what is left after it (for a non-empty text).
pub open spec fn front_step(s: Seq<u8>) -> (PartView, Seq<u8>) {
    if s[0] == b_lt() {
        let e = find_byte(s, b_gt(), 0);
        (PartView::Macro(s.subrange(1, e), s.subrange(0, e + 1)), s.subrange(e + 1, s.len() as int))
    } else {
        let e = find_byte(s, b_lt(), 0);
        (PartView::Text(s.subrange(0, e)), s.subrange(e, s.len() as int))
    }
}

/// The first part can be read: a text that starts a macro also closes it.
pub open spec fn front_ok(s: Seq<u8>) -> bool {
    !(s.len() > 0 && s[0] == b_lt() && find_byte(s, b_gt(), 0) == s.len())
}

/// The last part of a component and what is left before it (for a non-empty text); nothing
/// when the text ends with `>` but holds no `<`.
pub open spec fn back_step(s: Seq<u8>) -> Option<(PartView, Seq<u8>)> {
    let n = s.len() as int;
    if s[n - 1] == b_gt() {
        let e = rfind_byte(s, b_lt(), n);
        if e < 0 {
            None
        } else {
            Some((PartView::Macro(s.subrange(e + 1, n - 1), s.subrange(e, n)), s.subrange(0, e)))
        }
    } else {
        let e = rfind_byte(s, b_gt(), n);
        Some((PartView::Text(s.subrange(e + 1, n)), s.subrange(0, e + 1)))
    }
}

/// The text a part stands for.
pub open spec fn part_text(p: PartView) -> Seq<u8> {
    match p {
        PartView::Text(t) => t,
        PartView::Macro(_, raw) => raw,
    }
}

/// The texts of parts, one after the other.
pub open spec fn parts_text(ps: Seq<PartView>) -> Seq<u8>
    decreases ps.len(),
{
    if ps.len() == 0 {
        Seq::empty()
    } else {
        part_text(ps[0]) + parts_text(ps.drop_first())
    }
}

/// The parts read from the front, until the text is used up or a macro is left open.
pub open spec fn parts_fwd(s: Seq<u8>) -> Seq<PartView>
    decreases s.len(),
{
    if s.len() == 0 || !front_ok(s) {
        Seq::empty()
    } else {
        proof {
            lemma_front_step_len(s);
        }
        seq![front_step(s).0] + parts_fwd(front_step(s).1)
    }
}

/// The parts read from the back, until the text is used up or a macro has no start.
pub open spec fn parts_bwd(s: Seq<u8>) -> Seq<PartView>
    decreases s.len(),
{
    if s.len() == 0 {
        Seq::empty()
    } else {
        proof {
            lemma_back_step_len(s);
        }
        match back_step(s) {
            None => Seq::empty(),
            Some((p, rest)) => parts_bwd(rest).push(p),
        }
    }
}

/// Reading from the front never meets a macro that is left open.
pub open spec fn vfs_closed(s: Seq<u8>) -> bool
    decreases s.len(),
{
    if s.len() == 0 {
        true
    } else if !front_ok(s) {
        false
    } else {
        proof {
            lemma_front_step_len(s);
        }
        vfs_closed(front_step(s).1)
    }
}

/// A part as a valid path has it: a text without `<` or `>`, or a macro whose name holds
/// neither.
pub open spec fn part_clean(p: PartView) -> bool {
    match p {
        PartView::Text(t) => t.len() > 0 && !t.contains(b_lt()) && !t.contains(b_gt()),
        PartView::Macro(name, raw) => {
            &&& raw == seq![b_lt()] + name + seq![b_gt()]
            &&& !name.contains(b_lt())
            &&& !name.contains(b_gt())
        },
    }
}

/// Every macro is closed, macros do not nest and no `>` stands outside a macro.
pub open spec fn vfs_clean(s: Seq<u8>) -> bool {
    &&& vfs_closed(s)
    &&& forall|i: int| 0 <= i < parts_fwd(s).len() ==> part_clean(#[trigger] parts_fwd(s)[i])
}

pub proof fn lemma_front_step_len(s: Seq<u8>)
    requires
        s.len() > 0,
        front_ok(s),
    ensures
        front_step(s).1.len() < s.len(),
        part_text(front_step(s).0) + front_step(s).1 == s,
        part_text(front_step(s).0).len() > 0,
{
    if s[0] == b_lt() {
        lemma_find_byte(s, b_gt(), 0);
        let e = find_byte(s, b_gt(), 0);
        assert(s.subrange(0, e + 1) + s.subrange(e + 1, s.len() as int) =~= s);
    } else {
        lemma_find_byte(s, b_lt(), 0);
        let e = find_byte(s, b_lt(), 0);
        assert(e > 0);
        assert(s.subrange(0, e) + s.subrange(e, s.len() as int) =~= s);
    }
}

pub proof fn lemma_back_step_len(s: Seq<u8>)
    requires
        s.len() > 0,
    ensures
        back_step(s) matches Some((p, rest)) ==> (rest.len() < s.len() && rest + part_text(p)
            == s),
{
    let n = s.len() as int;
    if s[n - 1] == b_gt() {
        lemma_rfind_byte(s, b_lt(), n);
        let e = rfind_byte(s, b_lt(), n);
        if e >= 0 {
            assert(s.subrange(0, e) + s.subrange(e, n) =~= s);
        }
    } else {
        lemma_rfind_byte(s, b_gt(), n);
        let e = rfind_byte(s, b_gt(), n);
        assert(e < n - 1);
        assert(s.subrange(0, e + 1) + s.subrange(e + 1, n) =~= s);
    }
}

/// Reading a component from the front and putting the parts' texts together gives the
/// component back.
pub proof fn lemma_parts_fwd_text(s: Seq<u8>)
    requires
        vfs_closed(s),
    ensures
        parts_text(parts_fwd(s)) == s,
    decreases s.len(),
{
    if s.len() > 0 {
        lemma_front_step_len(s);
        let (p, rest) = front_step(s);
        lemma_parts_fwd_text(rest);
        let ps = parts_fwd(s);
        assert(ps.drop_first() =~= parts_fwd(rest));
    }
}

/// Reading a component from the back and putting the parts' texts together gives the part
/// of the component that was read, which is all of it unless a macro has no start.
pub proof fn lemma_parts_bwd_text(s: Seq<u8>)
    ensures
        parts_text(parts_bwd(s)).len() <= s.len(),
        s.subrange(s.len() - parts_text(parts_bwd(s)).len(), s.len() as int) == parts_text(
            parts_bwd(s),
        ),
    decreases s.len(),
{
    if s.len() == 0 {
        assert(s.subrange(0, 0) =~= Seq::<u8>::empty());
    } else {
        lemma_back_step_len(s);
        match back_step(s) {
            None => {
                assert(s.subrange(s.len() as int, s.len() as int) =~= Seq::<u8>::empty());
            },
            Some((p, rest)) => {
                lemma_parts_bwd_text(rest);
                let ps = parts_bwd(rest);
                lemma_parts_text_push(ps, p);
                let t = parts_text(ps);
                assert(s.subrange(s.len() - (t.len() + part_text(p).len()), s.len() as int)
                    =~= t + part_text(p)) by {
                    assert(rest.subrange(rest.len() - t.len(), rest.len() as int) == t);
                }
            },
        }
    }
}

pub proof fn lemma_parts_text_push(ps: Seq<PartView>, p: PartView)
    ensures
        parts_text(ps.push(p)) == parts_text(ps) + part_text(p),
    decreases ps.len(),
{
    if ps.len() == 0 {
        assert(ps.push(p).drop_first() =~= Seq::<PartView>::empty());
        assert(parts_text(Seq::<PartView>::empty()) =~= Seq::<u8>::empty());
        assert(parts_text(ps.push(p)) =~= part_text(p));
    } else {
        lemma_parts_text_push(ps.drop_first(), p);
        assert(ps.push(p).drop_first() =~= ps.drop_first().push(p));
        assert(parts_text(ps.push(p)) =~= parts_text(ps) + part_text(p));
    }
}

/// In the parts read from the front, a text is always followed by a macro.
pub proof fn lemma_fwd_text_then_macro(s: Seq<u8>)
    requires
        vfs_closed(s),
    ensures
        forall|i: int|
            0 <= i < parts_fwd(s).len() - 1 && (#[trigger] parts_fwd(s)[i] is Text) ==> parts_fwd(
                s,
            )[i + 1] is Macro,
    decreases s.len(),
{
    if s.len() > 0 {
        lemma_front_step_len(s);
        let (p, rest) = front_step(s);
        lemma_fwd_text_then_macro(rest);
        let ps = parts_fwd(s);
        let qs = parts_fwd(rest);
        assert(ps == seq![p] + qs);
        if p is Text && qs.len() > 0 {
            lemma_find_byte(s, b_lt(), 0);
            let e = find_byte(s, b_lt(), 0);
            assert(rest.len() > 0);
            assert(e < s.len());
            assert(rest[0] == s[e]);
            assert(qs[0] == front_step(rest).0);
        }
        assert forall|i: int|
            0 <= i < ps.len() - 1 && (#[trigger] ps[i] is Text) implies ps[i + 1] is Macro by {
            if i > 0 {
                assert(ps[i] == qs[i - 1]);
                assert(ps[i + 1] == qs[i]);
            }
        }
    }
}

/// A clean part followed by a text that, after a text part, starts a macro: reading from
/// the front takes exactly that part.
pub proof fn lemma_front_step_clean(p: PartView, y: Seq<u8>)
    requires
        part_clean(p),
        p is Text ==> (y.len() == 0 || y[0] == b_lt()),
    ensures
        front_ok(part_text(p) + y),
        front_step(part_text(p) + y) == (p, y),
{
    let x = part_text(p);
    let s = x + y;
    match p {
        PartView::Macro(name, raw) => {
            let e = name.len() + 1int;
            assert(s[0] == b_lt());
            assert(s[e] == b_gt());
            assert forall|k: int| 0 <= k < e implies s[k] != b_gt() by {
                if k > 0 && s[k] == b_gt() {
                    assert(name[k - 1] == s[k]);
                    assert(name.contains(b_gt()));
                }
            }
            lemma_find_byte_at(s, b_gt(), 0, e);
            assert(s.subrange(1, e) =~= name);
            assert(s.subrange(0, e + 1) =~= raw);
            assert(s.subrange(e + 1, s.len() as int) =~= y);
        },
        PartView::Text(t) => {
            let e = t.len() as int;
            assert(s[0] == t[0]);
            assert(t.contains(t[0]));
            assert forall|k: int| 0 <= k < e implies s[k] != b_lt() by {
                assert(s[k] == t[k]);
                if t[k] == b_lt() {
                    assert(t.contains(b_lt()));
                }
            }
            if e < s.len() {
                assert(s[e] == y[0]);
            }
            lemma_find_byte_at(s, b_lt(), 0, e);
            assert(s.subrange(0, e) =~= t);
            assert(s.subrange(e, s.len() as int) =~= y);
        },
    }
}

/// A clean part after a text that, before a text part, ends a macro: reading from the back
/// takes exactly that part.
pub proof fn lemma_back_step_clean(x: Seq<u8>, p: PartView)
    requires
        part_clean(p),
        p is Text ==> (x.len() == 0 || x[x.len() - 1] == b_gt()),
    ensures
        back_step(x + part_text(p)) == Some((p, x)),
{
    let t = part_text(p);
    let s = x + t;
    let n = s.len() as int;
    let m = x.len() as int;
    match p {
        PartView::Macro(name, raw) => {
            assert(s[n - 1] == b_gt());
            assert(s[m] == b_lt());
            assert forall|k: int| m < k < n implies s[k] != b_lt() by {
                if k < n - 1 && s[k] == b_lt() {
                    assert(name[k - m - 1] == s[k]);
                    assert(name.contains(b_lt()));
                }
            }
            lemma_rfind_byte_at(s, b_lt(), n, m);
            assert(s.subrange(m + 1, n - 1) =~= name);
            assert(s.subrange(m, n) =~= raw);
            assert(s.subrange(0, m) =~= x);
        },
        PartView::Text(u) => {
            assert(s[n - 1] == u[u.len() - 1]);
            assert(u.contains(u[u.len() - 1]));
            assert forall|k: int| m - 1 < k < n implies s[k] != b_gt() by {
                assert(s[k] == u[k - m]);
                if u[k - m] == b_gt() {
                    assert(u.contains(b_gt()));
                }
            }
            if m > 0 {
                assert(s[m - 1] == x[m - 1]);
            }
            lemma_rfind_byte_at(s, b_gt(), n, m - 1);
            assert(s.subrange(m, n) =~= u);
            assert(s.subrange(0, m) =~= x);
        },
    }
}

/// The text of all parts but the last reads back as those parts.
pub proof fn lemma_fwd_drop_last(s: Seq<u8>)
    requires
        vfs_clean(s),
        parts_fwd(s).len() > 0,
    ensures
        vfs_clean(parts_text(parts_fwd(s).drop_last())),
        parts_fwd(parts_text(parts_fwd(s).drop_last())) == parts_fwd(s).drop_last(),
    decreases s.len(),
{
    lemma_front_step_len(s);
    let (p, rest) = front_step(s);
    let ps = parts_fwd(s);
    let qs = parts_fwd(rest);
    assert(ps == seq![p] + qs);
    assert(ps[0] == p);
    assert(part_clean(p));
    assert forall|i: int| 0 <= i < qs.len() implies part_clean(#[trigger] qs[i]) by {
        assert(qs[i] == ps[i + 1]);
    }
    assert(vfs_clean(rest));
    if qs.len() == 0 {
        assert(ps.drop_last() =~= Seq::<PartView>::empty());
        assert(parts_text(ps.drop_last()) =~= Seq::<u8>::empty());
    } else {
        lemma_fwd_drop_last(rest);
        let a2 = parts_text(qs.drop_last());
        let pre = ps.drop_last();
        assert(pre =~= seq![p] + qs.drop_last());
        assert(pre.drop_first() =~= qs.drop_last());
        assert(parts_text(pre) == part_text(p) + a2);
        if p is Text && qs.drop_last().len() > 0 {
            lemma_fwd_text_then_macro(s);
            assert(ps[0] is Text);
            assert(ps[1] is Macro);
            assert(qs.drop_last()[0] == qs[0]);
            assert(parts_text(qs.drop_last()) == part_text(qs[0]) + parts_text(
                qs.drop_last().drop_first(),
            ));
            assert(part_clean(qs[0]));
            assert(part_text(qs[0])[0] == b_lt());
        }
        if qs.drop_last().len() == 0 {
            assert(a2 =~= Seq::<u8>::empty());
        }
        lemma_front_step_clean(p, a2);
        let a = part_text(p) + a2;
        assert(parts_fwd(a) == seq![p] + parts_fwd(a2));
        assert(parts_fwd(a) =~= pre);
        assert forall|i: int| 0 <= i < parts_fwd(a).len() implies part_clean(
            #[trigger] parts_fwd(a)[i],
        ) by {
            assert(parts_fwd(a)[i] == ps[i]);
        }
    }
}

/// Reading a clean component from the back gives the same parts as reading it from the
/// front.
pub proof fn lemma_parts_bwd_fwd(s: Seq<u8>)
    requires
        vfs_clean(s),
    ensures
        parts_bwd(s) == parts_fwd(s),
    decreases s.len(),
{
    if s.len() > 0 {
        let ps = parts_fwd(s);
        lemma_front_step_len(s);
        assert(ps.len() > 0);
        lemma_parts_fwd_text(s);
        lemma_parts_text_push(ps.drop_last(), ps.last());
        assert(ps.drop_last().push(ps.last()) =~= ps);
        let a = parts_text(ps.drop_last());
        assert(s == a + part_text(ps.last()));
        assert(part_clean(ps.last()));
        if ps.last() is Text && ps.len() > 1 {
            lemma_fwd_text_then_macro(s);
            let pre = ps.drop_last();
            assert(pre.last() == ps[ps.len() - 2]);
            assert(pre.last() is Macro);
            assert(part_clean(ps[ps.len() - 2]));
            lemma_parts_text_push(pre.drop_last(), pre.last());
            assert(pre.drop_last().push(pre.last()) =~= pre);
            let raw = part_text(pre.last());
            assert(raw[raw.len() - 1] == b_gt());
            assert(a[a.len() - 1] == raw[raw.len() - 1]);
        }
        if ps.len() == 1 {
            assert(ps.drop_last() =~= Seq::<PartView>::empty());
            assert(a =~= Seq::<u8>::empty());
        }
        lemma_back_step_clean(a, ps.last());
        lemma_back_step_len(s);
        lemma_fwd_drop_last(s);
        lemma_parts_bwd_fwd(a);
        assert(parts_bwd(s) == parts_bwd(a).push(ps.last()));
    }
}

/// The index of the first `c` in `s` at or after `from`, or the length.
pub fn find_byte_from(s: &str, c: u8, from: usize) -> (r: usize)
    requires
        from <= bytes_of(s).len(),
    ensures
        r == find_byte(bytes_of(s), c, from as int),
{
    let n = byte_len(s);
    let mut i = from;
    while i < n && byte_at(s, i) != c
        invariant
            n == bytes_of(s).len(),
            from <= i <= n,
            forall|k: int| from <= k < i ==> bytes_of(s)[k] != c,
        decreases n - i,
    {
        i = i + 1;
    }
    proof {
        lemma_find_byte_at(bytes_of(s), c, from as int, i as int);
    }
    i
}

/// The index of the last `c` in `s` before `to`, if there is one.
pub fn rfind_byte_before(s: &str, c: u8, to: usize) -> (r: Option<usize>)
    requires
        to <= bytes_of(s).len(),
    ensures
        match r {
            Some(i) => i == rfind_byte(bytes_of(s), c, to as int),
            None => rfind_byte(bytes_of(s), c, to as int) == -1,
        },
{
    let mut i = to;
    while i > 0 && byte_at(s, i - 1) != c
        invariant
            i <= to <= bytes_of(s).len(),
            forall|k: int| i <= k < to ==> bytes_of(s)[k] != c,
        decreases i,
    {
        i = i - 1;
    }
    if i == 0 {
        proof {
            lemma_rfind_byte_at(bytes_of(s), c, to as int, -1);
        }
        None
    } else {
        proof {
            lemma_rfind_byte_at(bytes_of(s), c, to as int, i - 1);
        }
        Some(i - 1)
    }
}

impl<'a> VFSComponent<'a> {
    /// Take the first part off the component: a macro if the text starts with `<`, else
    /// the text up to the next `<`.
    pub fn next(&mut self) -> (r: Option<VFSPart<'a>>)
        requires
            front_ok(bytes_of(old(self).0)),
        ensures
            bytes_of(old(self).0).len() == 0 ==> r is None && *final(self) == *old(self),
            bytes_of(old(self).0).len() > 0 ==> (r matches Some(p) && (p@, bytes_of(
                final(self).0,
            )) == front_step(bytes_of(old(self).0))),
    {
        let s = self.0;
        let ghost b = bytes_of(s);
        let n = byte_len(s);
        if n == 0 {
            None
        } else if byte_at(s, 0) == 0x3c {
            let end = find_byte_from(s, 0x3e, 0);
            proof {
                lemma_find_byte(b, b_gt(), 0);
            }
            let full_macro = substr(s, 0, end + 1);
            let macro_name = substr(s, 1, end);
            self.0 = substr(s, end + 1, n);
            Some(VFSPart::Macro(VFSMacro { name: macro_name, raw: full_macro }))
        } else {
            let end = find_byte_from(s, 0x3c, 0);
            proof {
                lemma_find_byte(b, b_lt(), 0);
            }
            let text = substr(s, 0, end);
            self.0 = substr(s, end, n);
            Some(VFSPart::Text(text))
        }
    }

    /// Take the last part off the component: a macro if the text ends with `>`, else the
    /// text after the last `>`.  Nothing is taken off when the text ends with a `>` that no
    /// `<` comes before.
    pub fn next_back(&mut self) -> (r: Option<VFSPart<'a>>)
        ensures
            bytes_of(old(self).0).len() == 0 ==> r is None && *final(self) == *old(self),
            bytes_of(old(self).0).len() > 0 ==> match back_step(bytes_of(old(self).0)) {
                None => r is None && *final(self) == *old(self),
                Some((p, rest)) => (r matches Some(q) && q@ == p && bytes_of(final(self).0)
                    == rest),
            },
    {
        let s = self.0;
        let ghost b = bytes_of(s);
        let n = byte_len(s);
        if n == 0 {
            None
        } else if byte_at(s, n - 1) == 0x3e {
            match rfind_byte_before(s, 0x3c, n) {
                None => None,
                Some(end) => {
                    proof {
                        lemma_rfind_byte(b, b_lt(), n as int);
                    }
                    let full_macro = substr(s, end, n);
                    let macro_name = substr(s, end + 1, n - 1);
                    self.0 = substr(s, 0, end);
                    Some(VFSPart::Macro(VFSMacro { name: macro_name, raw: full_macro }))
                },
            }
        } else {
            proof {
                lemma_rfind_byte(b, b_gt(), n as int);
            }
            let start = match rfind_byte_before(s, 0x3e, n) {
                None => 0,
                Some(end) => end + 1,
            };
            let text = substr(s, start, n);
            self.0 = substr(s, 0, start);
            Some(VFSPart::Text(text))
        }
    }
}

} // verus!
