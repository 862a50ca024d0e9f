//! Iteration over the components of a path, from the front and from the back.
use vstd::prelude::*;
use crate::text::{bytes_of, byte_at, byte_len, substr, cut_ok};
use crate::path_model::{
    CompView, classify, opt_seq, body_comps, find_sep_from, lemma_find_sep_from, rfind_sep_in,
    lemma_body_comps_last, lemma_body_comps_empty, starts_cur_dir, is_sep_spec, path_components,
    spec_parse_root, root_cut_len, lemma_root_cut_len, root_part, has_cur_dir, body_start,
};
use crate::path_root::{Root, parse_root, root_cut_length, is_sep_byte, find_sep, rfind_sep};
use crate::path_component::{Component, RootComponent, parse_single_component};

verus! {

/// Where an iteration stands at one of its two ends.
#[derive(Clone, Copy, PartialEq, Eq, Structural, Debug)]
pub enum State {
    /// `C:/`, `//server/share`, `mount:/`, or `/`
    Root,
    /// foo/bar/baz
    Body,
    Done,
}

pub open spec fn rank(s: State) -> int {
    match s {
        State::Root => 0,
        State::Body => 1,
        State::Done => 2,
    }
}

fn state_rank(s: State) -> (r: u8)
    ensures
        r == rank(s),
{
    match s {
        State::Root => 0,
        State::Body => 1,
        State::Done => 2,
    }
}

/// An iterator over the [`Component`]s of a path.
#[derive(Clone, Copy)]
pub struct Components<'a> {
    path: &'a str,
    root: Option<Root<'a>>,
    root_len: usize,
    front: State,
    back: State,
}

impl<'a> Components<'a> {
    /// The text that is left for iteration, including what will be skipped.
    pub closed spec fn text(&self) -> Seq<u8> {
        bytes_of(self.path)
    }

    pub closed spec fn root_rem(&self) -> int {
        if self.front == State::Root {
            self.root_len as int
        } else {
            0
        }
    }

    pub closed spec fn inc_cd(&self) -> bool {
        self.root is None && starts_cur_dir(bytes_of(self.path))
    }

    pub closed spec fn lbb(&self) -> int {
        self.root_rem() + if rank(self.front) <= 0 && self.inc_cd() {
            1int
        } else {
            0int
        }
    }

    pub closed spec fn finished(&self) -> bool {
        self.front == State::Done || self.back == State::Done || rank(self.front) > rank(
            self.back,
        )
    }

    /// The components that are left, in order.
    pub closed spec fn rem(&self) -> Seq<CompView> {
        if self.finished() {
            seq![]
        } else {
            let p = bytes_of(self.path);
            let rootpart = match self.root {
                Some(r) => if self.front == State::Root {
                    seq![CompView::Root(p.subrange(0, self.root_len as int), r@)]
                } else {
                    seq![]
                },
                None => seq![],
            };
            let cdpart = if self.front == State::Root && self.inc_cd() {
                seq![CompView::CurDir]
            } else {
                seq![]
            };
            let bodypart = if self.back == State::Body {
                body_comps(p.subrange(self.lbb(), p.len() as int))
            } else {
                seq![]
            };
            rootpart + cdpart + bodypart
        }
    }

    /// The state is one that iteration can reach.
    pub closed spec fn wf(&self) -> bool {
        let p = bytes_of(self.path);
        &&& (self.root is None <==> self.root_len == 0)
        &&& (self.front == State::Root ==> self.root_len <= p.len() && cut_ok(
            p,
            self.root_len as int,
        ))
        &&& (self.back == State::Root ==> p.len() == self.root_rem())
        &&& (self.front == State::Done ==> p.len() == 0)
    }

    /// Both iterations come from the same path and stand at the same place at the front.
    pub closed spec fn same_origin(&self, other: Self) -> bool {
        &&& self.root == other.root
        &&& self.root_len == other.root_len
        &&& self.front == other.front
    }

    /// The back end of iteration is still in the body.
    pub closed spec fn back_open(&self) -> bool {
        self.back == State::Body
    }

    /// Iteration has started at the front: the root, if any, is behind it.
    pub closed spec fn started(&self) -> bool {
        self.front != State::Root
    }

    /// Does the path being walked have a root?
    pub closed spec fn rooted(&self) -> bool {
        self.root is Some
    }

    /// Iteration has not started at either end.
    pub closed spec fn fresh(&self) -> bool {
        self.front == State::Root && self.back == State::Body
    }

    /// A fresh iteration over the whole of its text.
    pub closed spec fn from_start(&self) -> bool {
        let p = bytes_of(self.path);
        &&& self.fresh()
        &&& self.root_len == root_cut_len(p)
        &&& match self.root {
            Some(x) => spec_parse_root(p) == Some(x@),
            None => spec_parse_root(p) is None,
        }
        &&& self.rem() == path_components(p)
    }

    /// The components of a path.
    pub fn of(path: &'a str) -> (r: Self)
        ensures
            r.wf(),
            r.fresh(),
            r.from_start(),
            r.rem() == path_components(bytes_of(path)),
            r.text() == bytes_of(path),
            r.rooted() == spec_parse_root(bytes_of(path)) is Some,
            r.back_open(),
    {
        let root = parse_root(path);
        let root_len = root_cut_length(path, &root);
        proof {
            lemma_root_cut_len(bytes_of(path));
        }
        let r = Components { path, root, root_len, front: State::Root, back: State::Body };
        proof {
            let p = bytes_of(path);
            assert(r.inc_cd() == has_cur_dir(p));
            assert(r.lbb() == body_start(p));
            assert(r.rem() =~= path_components(p));
        }
        r
    }

    /// How long is the root, if any?
    fn root_len(&self) -> (r: usize)
        ensures
            r == self.root_len,
    {
        self.root_len
    }

    /// How much of the root is left from the point of view of iteration?
    fn root_remaining(&self) -> (r: usize)
        ensures
            r == self.root_rem(),
    {
        if self.front == State::Root {
            self.root_len
        } else {
            0
        }
    }

    /// Given the iteration so far, how much of the pre-body path is left
    fn len_before_body(&self) -> (r: usize)
        requires
            self.wf(),
        ensures
            r == self.lbb(),
            self.front == State::Root ==> r <= self.text().len(),
    {
        let cur_dir: usize = if state_rank(self.front) <= 0 && self.include_cur_dir() {
            1
        } else {
            0
        };
        self.root_remaining() + cur_dir
    }

    /// Is the iteration complete?
    fn is_finished(&self) -> (r: bool)
        ensures
            r == self.finished(),
    {
        self.front == State::Done || self.back == State::Done || state_rank(self.front)
            > state_rank(self.back)
    }

    fn is_sep_byte(&self, b: u8) -> (r: bool)
        ensures
            r == is_sep_spec(b),
    {
        is_sep_byte(b)
    }

    /// Is the path being walked rooted?
    pub fn has_root(&self) -> (r: bool)
        ensures
            r == self.rooted(),
    {
        self.root.is_some()
    }

    /// Should the normalized path include the leading `.`?
    fn include_cur_dir(&self) -> (r: bool)
        requires
            self.wf(),
        ensures
            r == self.inc_cd(),
    {
        if self.has_root() {
            return false;
        }
        let n = byte_len(self.path);
        if n == 0 || byte_at(self.path, 0) != 0x2e {
            false
        } else if n == 1 {
            true
        } else {
            self.is_sep_byte(byte_at(self.path, 1))
        }
    }

    /// Take the next segment from the front: its size including its separator and what it
    /// stands for.
    fn parse_next_component(&self) -> (r: (usize, Option<Component<'a>>))
        ensures
            ({
                let p = bytes_of(self.path);
                let f = find_sep_from(p, 0);
                &&& f < p.len() ==> r.0 == f + 1 && classify(p.subrange(0, f)) == match r.1 {
                    Some(c) => Some(c@),
                    None => None,
                }
                &&& f >= p.len() ==> r.0 == p.len() && classify(p) == match r.1 {
                    Some(c) => Some(c@),
                    None => None,
                }
            }),
    {
        let n = byte_len(self.path);
        let f = find_sep(self.path, 0);
        proof {
            lemma_find_sep_from(bytes_of(self.path), 0);
        }
        if f < n {
            let comp = substr(self.path, 0, f);
            (f + 1, parse_single_component(comp))
        } else {
            (n, parse_single_component(self.path))
        }
    }

    /// Take the last segment of the body: its size including its separator and what it
    /// stands for.
    fn parse_next_component_back(&self) -> (r: (usize, Option<Component<'a>>))
        requires
            self.wf(),
            self.lbb() <= self.text().len(),
        ensures
            ({
                let p = bytes_of(self.path);
                let i = rfind_sep_in(p, self.lbb(), p.len() as int);
                &&& i >= 0 ==> r.0 == p.len() - i && classify(p.subrange(i + 1, p.len() as int))
                    == match r.1 {
                    Some(c) => Some(c@),
                    None => None,
                }
                &&& i < 0 ==> r.0 == p.len() - self.lbb() && classify(
                    p.subrange(self.lbb(), p.len() as int),
                ) == match r.1 {
                    Some(c) => Some(c@),
                    None => None,
                }
            }),
    {
        let start = self.len_before_body();
        let n = byte_len(self.path);
        proof {
            crate::path_model::lemma_rfind_sep_in(bytes_of(self.path), start as int, n as int);
        }
        match rfind_sep(self.path, start, n) {
            Some(i) => {
                let comp = substr(self.path, i + 1, n);
                (n - i, parse_single_component(comp))
            },
            None => {
                proof {
                    // `start` sits right after the root or the `.`, or at 0
                    let p = bytes_of(self.path);
                    if start > 0 && start < p.len() {
                        if self.front == State::Root && self.root_len > 0 {
                            assert(!self.inc_cd());
                            assert(cut_ok(p, start as int));
                        } else {
                            assert(p[start - 1] == 0x2e);
                        }
                    }
                }
                let comp = substr(self.path, start, n);
                (n - start, parse_single_component(comp))
            },
        }
    }
}

/// A cut place stays one when the text is shortened but still reaches it.
pub proof fn lemma_cut_ok_prefix(p: Seq<u8>, k: int, m: int)
    requires
        cut_ok(p, k),
        k <= m <= p.len(),
    ensures
        cut_ok(p.subrange(0, m), k),
{
    let q = p.subrange(0, m);
    if 0 < k < m {
        assert(q[k] == p[k] && q[k - 1] == p[k - 1]);
    }
}

impl<'a> Components<'a> {
    /// The next component from the front.
    pub fn next(&mut self) -> (r: Option<Component<'a>>)
        requires
            old(self).wf(),
        ensures
            final(self).wf(),
            final(self).rooted() == old(self).rooted(),
            old(self).rem().len() == 0 ==> r is None && final(self).rem().len() == 0,
            old(self).rem().len() > 0 ==> r is Some && r->0@ == old(self).rem()[0],
            old(self).rem().len() > 0 ==> final(self).rem() == old(self).rem().drop_first(),
            final(self).back_open() == old(self).back_open(),
            r is Some ==> final(self).started(),
    {
        while !self.is_finished()
            invariant
                self.wf(),
                self.rem() == old(self).rem(),
                self.rooted() == old(self).rooted(),
                self.back == old(self).back,
            decreases bytes_of(self.path).len() + 2 - rank(self.front),
        {
            let ghost prev = *self;
            let ghost p = bytes_of(self.path);
            let n = byte_len(self.path);
            match self.front {
                State::Root => {
                    let rl = self.root_len();
                    if rl > 0 {
                        let parsed = self.root.unwrap();
                        self.front = State::Body;
                        let raw = substr(self.path, 0, rl);
                        self.path = substr(self.path, rl, n);
                        let r = Some(Component::Root(RootComponent { raw, parsed }));
                        proof {
                            assert(!prev.inc_cd());
                            assert(prev.lbb() == rl);
                            if prev.back == State::Body {
                                let q = bytes_of(self.path);
                                assert(q.subrange(0, q.len() as int) =~= q);
                                assert(self.lbb() == 0);
                                assert(self.rem() =~= body_comps(p.subrange(rl as int, p.len() as int)));
                            } else {
                                assert(p.len() == rl);
                                assert(self.finished());
                            }
                            assert(prev.rem() =~= seq![r->0@] + self.rem());
                            assert(self.rem() =~= prev.rem().drop_first());
                        }
                        return r;
                    } else {
                        self.front = State::Body;
                        if self.include_cur_dir() {
                            self.path = substr(self.path, 1, n);
                            proof {
                                assert(prev.back == State::Body);
                                assert(prev.lbb() == 1);
                                let q = bytes_of(self.path);
                                assert(q.subrange(0, q.len() as int) =~= q);
                                assert(self.lbb() == 0);
                                assert(self.rem() =~= body_comps(p.subrange(1, p.len() as int)));
                                assert(prev.rem() =~= seq![CompView::CurDir] + self.rem());
                                assert(self.rem() =~= prev.rem().drop_first());
                            }
                            return Some(Component::CurDir);
                        }
                        proof {
                            if prev.back == State::Body {
                                assert(self.rem() =~= prev.rem());
                            } else {
                                assert(self.finished());
                                assert(prev.rem() =~= Seq::<CompView>::empty());
                            }
                        }
                    }
                },
                State::Body => {
                    if n > 0 {
                        let (size, comp) = self.parse_next_component();
                        proof {
                            lemma_find_sep_from(p, 0);
                        }
                        self.path = substr(self.path, size, n);
                        proof {
                            assert(prev.back == State::Body);
                            assert(prev.lbb() == 0);
                            assert(p.subrange(0, p.len() as int) =~= p);
                            let rest = p.subrange(size as int, p.len() as int);
                            assert(rest.subrange(0, rest.len() as int) =~= rest);
                            assert(self.rem() =~= body_comps(rest));
                            let f = find_sep_from(p, 0);
                            if f >= p.len() {
                                assert(rest =~= Seq::<u8>::empty());
                                lemma_body_comps_empty();
                            }
                            assert(prev.rem() == opt_seq(
                                match comp {
                                    Some(c) => Some(c@),
                                    None => None,
                                },
                            ) + self.rem());
                        }
                        if comp.is_some() {
                            proof {
                                assert(self.rem() =~= prev.rem().drop_first());
                            }
                            return comp;
                        }
                        proof {
                            assert(self.rem() =~= prev.rem());
                        }
                    } else {
                        self.front = State::Done;
                        proof {
                            assert(p =~= Seq::<u8>::empty());
                            assert(p.subrange(0, 0) =~= Seq::<u8>::empty());
                            lemma_body_comps_empty();
                            assert(prev.rem() =~= Seq::<CompView>::empty());
                        }
                    }
                },
                State::Done => {
                    assert(false);
                },
            }
        }
        None
    }
}

/// Dropping the last body segment leaves the root, the leading `.` and where the body starts
/// as they were.
proof fn lemma_shrink_back<'a>(c: Components<'a>, d: Components<'a>)
    requires
        c.wf(),
        c.back == State::Body,
        c.front != State::Done,
        c.lbb() < bytes_of(c.path).len(),
        d.root == c.root,
        d.root_len == c.root_len,
        d.front == c.front,
        d.back == c.back,
        bytes_of(d.path) == bytes_of(c.path).subrange(
            0,
            if rfind_sep_in(bytes_of(c.path), c.lbb(), bytes_of(c.path).len() as int) >= 0 {
                rfind_sep_in(bytes_of(c.path), c.lbb(), bytes_of(c.path).len() as int)
            } else {
                c.lbb()
            },
        ),
    ensures
        d.wf(),
        d.lbb() == c.lbb(),
        d.inc_cd() == c.inc_cd() || c.front != State::Root,
        d.root is Some && d.front == State::Root ==> bytes_of(d.path).subrange(0, d.root_len as int)
            == bytes_of(c.path).subrange(0, c.root_len as int),
{
    let p = bytes_of(c.path);
    let q = bytes_of(d.path);
    let lbb = c.lbb();
    crate::path_model::lemma_rfind_sep_in(p, lbb, p.len() as int);
    let i = rfind_sep_in(p, lbb, p.len() as int);
    let k = if i >= 0 { i } else { lbb };
    assert(k >= lbb);
    if c.front == State::Root {
        lemma_cut_ok_prefix(p, c.root_len as int, k);
        if c.root is None {
            if c.inc_cd() {
                assert(q[0] == p[0]);
                if k >= 2 {
                    assert(q[1] == p[1]);
                }
            } else {
                if k == 1 {
                    assert(i == 1);
                    assert(is_sep_spec(p[1]));
                    assert(q[0] == p[0]);
                }
                if k >= 2 {
                    assert(q[0] == p[0]);
                    assert(q[1] == p[1]);
                }
            }
            assert(d.inc_cd() == c.inc_cd());
        }
        assert(q.subrange(0, c.root_len as int) =~= p.subrange(0, c.root_len as int));
    }
}

/// The place where the last body segment is cut off may be cut.
proof fn lemma_back_cut_ok<'a>(c: Components<'a>)
    requires
        c.wf(),
        c.back == State::Body,
        c.front != State::Done,
        c.lbb() < bytes_of(c.path).len(),
    ensures
        ({
            let p = bytes_of(c.path);
            let i = rfind_sep_in(p, c.lbb(), p.len() as int);
            &&& i >= 0 ==> cut_ok(p, i)
            &&& cut_ok(p, c.lbb())
        }),
{
    let p = bytes_of(c.path);
    let lbb = c.lbb();
    crate::path_model::lemma_rfind_sep_in(p, lbb, p.len() as int);
    let i = rfind_sep_in(p, lbb, p.len() as int);
    if i >= 0 {
        assert(p[i] < 0x80);
    }
    if lbb > 0 {
        if c.front == State::Root && c.root_len > 0 {
            assert(!c.inc_cd());
        } else {
            assert(p[lbb - 1] == 0x2e);
        }
    }
}

/// Dropping the last body segment removes what it stands for from the end of what is left.
proof fn lemma_back_step_rem<'a>(c: Components<'a>, d: Components<'a>)
    requires
        c.wf(),
        c.back == State::Body,
        c.front != State::Done,
        c.lbb() < bytes_of(c.path).len(),
        d.root == c.root,
        d.root_len == c.root_len,
        d.front == c.front,
        d.back == c.back,
        bytes_of(d.path) == bytes_of(c.path).subrange(
            0,
            if rfind_sep_in(bytes_of(c.path), c.lbb(), bytes_of(c.path).len() as int) >= 0 {
                rfind_sep_in(bytes_of(c.path), c.lbb(), bytes_of(c.path).len() as int)
            } else {
                c.lbb()
            },
        ),
    ensures
        ({
            let p = bytes_of(c.path);
            let i = rfind_sep_in(p, c.lbb(), p.len() as int);
            let seg = if i >= 0 {
                p.subrange(i + 1, p.len() as int)
            } else {
                p.subrange(c.lbb(), p.len() as int)
            };
            c.rem() == d.rem() + opt_seq(classify(seg))
        }),
{
    lemma_shrink_back(c, d);
    let p = bytes_of(c.path);
    let q = bytes_of(d.path);
    let lbb = c.lbb();
    crate::path_model::lemma_rfind_sep_in(p, lbb, p.len() as int);
    lemma_body_comps_last(p, lbb);
    let i = rfind_sep_in(p, lbb, p.len() as int);
    if i >= 0 {
        assert(q.subrange(lbb, q.len() as int) =~= p.subrange(lbb, i));
    } else {
        assert(q.subrange(lbb, q.len() as int) =~= Seq::<u8>::empty());
        lemma_body_comps_empty();
    }
    let seg = if i >= 0 {
        p.subrange(i + 1, p.len() as int)
    } else {
        p.subrange(c.lbb(), p.len() as int)
    };
    assert(c.rem() =~= d.rem() + opt_seq(classify(seg)));
}

impl<'a> Components<'a> {
    /// The next component from the back.
    #[verifier::rlimit(60)]
    pub fn next_back(&mut self) -> (r: Option<Component<'a>>)
        requires
            old(self).wf(),
        ensures
            final(self).wf(),
            final(self).rooted() == old(self).rooted(),
            old(self).rem().len() == 0 ==> r is None && final(self).rem().len() == 0,
            old(self).rem().len() > 0 ==> r is Some && r->0@ == old(self).rem().last(),
            old(self).rem().len() > 0 ==> final(self).rem() == old(self).rem().drop_last(),
            final(self).same_origin(*old(self)),
            final(self).text() == old(self).text().subrange(0, final(self).text().len() as int),
            final(self).back_open() ==> old(self).back_open() && final(self).lbb()
                == old(self).lbb(),
            final(self).back_open() ==> final(self).text().len() == old(self).text().len()
                || final(self).text().len() == final(self).lbb() || is_sep_spec(
                old(self).text()[final(self).text().len() as int],
            ),
            r matches Some(c) && (c is Normal || c is ParentDir || c is VFS || c is Wildcard)
                ==> final(self).back_open(),
            old(self).back_open() && final(self).back_open() && r is Some ==> final(self).text()
                == old(self).text().subrange(0, back_cut(old(self).text(), old(self).lbb())),
            r is Some && final(self).back_open() ==> final(self).text().len() < old(
                self,
            ).text().len(),
    {
        proof {
            assert(self.text().subrange(0, self.text().len() as int) =~= self.text());
        }
        while !self.is_finished()
            invariant
                self.wf(),
                self.rem() == old(self).rem(),
                self.rooted() == old(self).rooted(),
                self.same_origin(*old(self)),
                self.text() == old(self).text().subrange(0, self.text().len() as int),
                self.back == State::Body ==> old(self).back == State::Body && self.lbb() == old(
                    self,
                ).lbb(),
                self.back == State::Body ==> self.text().len() == old(self).text().len()
                    || self.text().len() == self.lbb() || is_sep_spec(
                    old(self).text()[self.text().len() as int],
                ),
                self.text().len() <= old(self).text().len(),
                self.back == State::Body ==> trim_back(self.text(), self.lbb()) == trim_back(
                    old(self).text(),
                    old(self).lbb(),
                ),
            decreases bytes_of(self.path).len() + match self.back {
                State::Body => 2int,
                State::Root => 1int,
                State::Done => 0int,
            },
        {
            let ghost prev = *self;
            let ghost p = bytes_of(self.path);
            let n = byte_len(self.path);
            match self.back {
                State::Body => {
                    let lbb = self.len_before_body();
                    if n > lbb {
                        let (size, comp) = self.parse_next_component_back();
                        proof {
                            crate::path_model::lemma_rfind_sep_in(p, lbb as int, n as int);
                            lemma_body_comps_last(p, lbb as int);
                        }
                        let ghost i = rfind_sep_in(p, lbb as int, n as int);
                        proof {
                            lemma_back_cut_ok(*self);
                            lemma_trim_back_step(p, lbb as int);
                            lemma_rfind_sep_in_prefix(old(self).text(), p.len() as int, lbb as int, p.len() as int);
                            assert(old(self).text().subrange(0, p.len() as int) == p);
                        }
                        self.path = substr(self.path, 0, n - size);
                        proof {
                            lemma_shrink_back(prev, *self);
                            lemma_back_step_rem(prev, *self);
                            let q = bytes_of(self.path);
                            assert(q =~= old(self).text().subrange(0, q.len() as int));
                            if i >= 0 {
                                assert(old(self).text()[i] == p[i]);
                            }
                        }
                        if comp.is_some() {
                            proof {
                                assert(self.rem() =~= prev.rem().drop_last());
                            }
                            return comp;
                        }
                        proof {
                            assert(self.rem() =~= prev.rem());
                        }
                    } else {
                        let cd = self.include_cur_dir();
                        self.back = State::Root;
                        proof {
                            assert(p.subrange(lbb as int, p.len() as int) =~= Seq::<u8>::empty());
                            lemma_body_comps_empty();
                        }
                        if cd {
                            self.path = substr(self.path, 0, n - 1);
                            proof {
                                assert(bytes_of(self.path) =~= old(self).text().subrange(0, 0));
                                assert(prev.front == State::Root);
                                assert(bytes_of(self.path) =~= Seq::<u8>::empty());
                                assert(self.rem() =~= Seq::<CompView>::empty());
                                assert(prev.rem() =~= seq![CompView::CurDir]);
                            }
                            return Some(Component::CurDir);
                        }
                        proof {
                            if prev.front == State::Root {
                                assert(self.rem() =~= prev.rem());
                            } else {
                                assert(self.finished());
                                assert(prev.rem() =~= Seq::<CompView>::empty());
                            }
                        }
                    }
                },
                State::Root => {
                    if self.root_len() > 0 {
                        let parsed = self.root.unwrap();
                        self.back = State::Done;
                        proof {
                            assert(prev.front == State::Root);
                            assert(p.subrange(0, prev.root_len as int) =~= p);
                            assert(prev.rem() =~= seq![CompView::Root(p, parsed@)]);
                        }
                        return Some(Component::Root(RootComponent { raw: self.path, parsed }));
                    } else {
                        self.back = State::Done;
                        proof {
                            assert(prev.rem() =~= Seq::<CompView>::empty());
                        }
                    }
                },
                State::Done => {
                    assert(false);
                },
            }
        }
        None
    }
}

/// Where the text is left after skipping the empty and `.` segments at its front.
pub open spec fn trim_front(p: Seq<u8>) -> int
    decreases p.len(),
{
    if p.len() == 0 {
        0
    } else {
        let f = find_sep_from(p, 0);
        let size = if 0 <= f < p.len() {
            f + 1
        } else {
            p.len() as int
        };
        let seg = if 0 <= f < p.len() {
            p.subrange(0, f)
        } else {
            p
        };
        if classify(seg) is Some || size <= 0 {
            0
        } else {
            size + trim_front(p.subrange(size, p.len() as int))
        }
    }
}

/// Where the text ends after dropping the empty and `.` segments at its back, never going below
/// position `lo`.
#[verifier::opaque]
pub open spec fn trim_back(p: Seq<u8>, lo: int) -> int
    decreases p.len(),
{
    if p.len() <= lo || lo < 0 {
        p.len() as int
    } else {
        let i = rfind_sep_in(p, lo, p.len() as int);
        let size = if i >= lo {
            p.len() - i
        } else {
            p.len() - lo
        };
        let seg = if i >= lo {
            p.subrange(i + 1, p.len() as int)
        } else {
            p.subrange(lo, p.len() as int)
        };
        if classify(seg) is Some || size <= 0 {
            p.len() as int
        } else {
            trim_back(p.subrange(0, p.len() - size), lo)
        }
    }
}

/// Where the text is cut when its last body segment that is a component is dropped, together
/// with the separator before it.
pub open spec fn back_cut(p: Seq<u8>, lo: int) -> int {
    let t0 = trim_back(p, lo);
    let i = rfind_sep_in(p, lo, t0);
    if i >= 0 {
        i
    } else {
        lo
    }
}

/// How long the parent of a path is: the path without its last component and without the
/// empty and `.` segments before it.
pub open spec fn parent_len(b: Seq<u8>) -> int {
    trim_back(b.subrange(0, back_cut(b, body_start(b))), body_start(b))
}

pub proof fn lemma_trim_front_bounds(p: Seq<u8>)
    ensures
        0 <= trim_front(p) <= p.len(),
    decreases p.len(),
{
    if p.len() > 0 {
        lemma_find_sep_from(p, 0);
        let f = find_sep_from(p, 0);
        let size = if 0 <= f < p.len() {
            f + 1
        } else {
            p.len() as int
        };
        if size > 0 {
            lemma_trim_front_bounds(p.subrange(size, p.len() as int));
        }
    }
}

pub proof fn lemma_trim_back_bounds(p: Seq<u8>, lo: int)
    requires
        0 <= lo,
    ensures
        trim_back(p, lo) <= p.len(),
        lo <= p.len() ==> lo <= trim_back(p, lo),
    decreases p.len(),
{
    reveal(trim_back);
    if p.len() > lo {
        crate::path_model::lemma_rfind_sep_in(p, lo, p.len() as int);
        let i = rfind_sep_in(p, lo, p.len() as int);
        let size = if i >= lo {
            p.len() - i
        } else {
            p.len() - lo
        };
        if size > 0 {
            lemma_trim_back_bounds(p.subrange(0, p.len() - size), lo);
        }
    }
}

/// One step of `trim_back`.
pub proof fn lemma_trim_back_step(p: Seq<u8>, lo: int)
    requires
        0 <= lo < p.len(),
    ensures
        ({
            let i = rfind_sep_in(p, lo, p.len() as int);
            let k = if i >= 0 { i } else { lo };
            let seg = if i >= 0 { p.subrange(i + 1, p.len() as int) } else { p.subrange(lo, p.len() as int) };
            &&& classify(seg) is Some ==> trim_back(p, lo) == p.len()
            &&& classify(seg) is None ==> trim_back(p, lo) == trim_back(p.subrange(0, k), lo)
        }),
{
    reveal(trim_back);
    crate::path_model::lemma_rfind_sep_in(p, lo, p.len() as int);
}

pub proof fn lemma_trim_back_short(p: Seq<u8>, lo: int)
    requires
        0 <= lo,
        p.len() <= lo,
    ensures
        trim_back(p, lo) == p.len(),
{
    reveal(trim_back);
}

/// `rfind_sep_in` only looks below its upper end.
pub proof fn lemma_rfind_sep_in_prefix(p: Seq<u8>, k: int, lo: int, t: int)
    requires
        0 <= lo <= t <= k <= p.len(),
    ensures
        rfind_sep_in(p.subrange(0, k), lo, t) == rfind_sep_in(p, lo, t),
    decreases t - lo,
{
    if t > lo {
        assert(p.subrange(0, k)[t - 1] == p[t - 1]);
        lemma_rfind_sep_in_prefix(p, k, lo, t - 1);
    }
}

/// Trimming the trailing empty and `.` segments keeps the components of the body, and stops
/// right after a segment that is a component, or at `lo`.
pub proof fn lemma_trim_back_comps(p: Seq<u8>, lo: int)
    requires
        0 <= lo <= p.len(),
    ensures
        lo <= trim_back(p, lo) <= p.len(),
        body_comps(p.subrange(lo, p.len() as int)) == body_comps(
            p.subrange(lo, trim_back(p, lo)),
        ),
        trim_back(p, lo) == p.len() || trim_back(p, lo) == lo || is_sep_spec(
            p[trim_back(p, lo)],
        ),
        trim_back(p, lo) > lo ==> ({
            let t = trim_back(p, lo);
            let i = rfind_sep_in(p, lo, t);
            classify(
                if i >= 0 {
                    p.subrange(i + 1, t)
                } else {
                    p.subrange(lo, t)
                },
            ) is Some
        }),
    decreases p.len(),
{
    if p.len() <= lo {
        lemma_trim_back_short(p, lo);
        assert(p.subrange(lo, p.len() as int) =~= p.subrange(lo, lo));
    } else {
        lemma_trim_back_step(p, lo);
        crate::path_model::lemma_rfind_sep_in(p, lo, p.len() as int);
        lemma_body_comps_last(p, lo);
        let i = rfind_sep_in(p, lo, p.len() as int);
        let k = if i >= 0 {
            i
        } else {
            lo
        };
        let seg = if i >= 0 {
            p.subrange(i + 1, p.len() as int)
        } else {
            p.subrange(lo, p.len() as int)
        };
        if classify(seg) is Some {
            assert(trim_back(p, lo) == p.len());
        } else {
            let q = p.subrange(0, k);
            lemma_trim_back_comps(q, lo);
            let t = trim_back(q, lo);
            assert(trim_back(p, lo) == t);
            assert(q.subrange(lo, q.len() as int) =~= p.subrange(lo, k));
            assert(q.subrange(lo, t) =~= p.subrange(lo, t));
            if i < 0 {
                assert(p.subrange(lo, k) =~= Seq::<u8>::empty());
                lemma_body_comps_empty();
            }
            assert(body_comps(p.subrange(lo, p.len() as int)) == body_comps(p.subrange(lo, k)));
            if t < q.len() && t > lo {
                assert(q[t] == p[t]);
            }
            if t > lo {
                lemma_rfind_sep_in_prefix(p, k, lo, t);
                let j = rfind_sep_in(p, lo, t);
                crate::path_model::lemma_rfind_sep_in(p, lo, t);
                if j >= 0 {
                    assert(q.subrange(j + 1, t) =~= p.subrange(j + 1, t));
                }
            }
        }
    }
}

impl<'a> Components<'a> {
    /// The text left for iteration, without the empty and `.` segments at the ends.
    pub closed spec fn as_path_spec(&self) -> Seq<u8> {
        let p = bytes_of(self.path);
        let p1 = if self.front == State::Body {
            p.subrange(trim_front(p), p.len() as int)
        } else {
            p
        };
        let lo = if self.front == State::Root {
            self.lbb()
        } else {
            0
        };
        if self.back == State::Body {
            p1.subrange(0, trim_back(p1, lo))
        } else {
            p1
        }
    }

    /// Trim away repeated separators (i.e. empty components) on the left
    fn trim_left(&mut self)
        requires
            old(self).wf(),
            old(self).front == State::Body,
        ensures
            final(self).wf(),
            final(self).front == old(self).front,
            final(self).back == old(self).back,
            bytes_of(final(self).path) == bytes_of(old(self).path).subrange(
                trim_front(bytes_of(old(self).path)),
                bytes_of(old(self).path).len() as int,
            ),
    {
        let ghost p0 = bytes_of(self.path);
        let ghost mut off: int = 0;
        proof {
            assert(p0.subrange(0, p0.len() as int) =~= p0);
        }
        while byte_len(self.path) > 0
            invariant
                self.wf(),
                self.front == State::Body,
                self.back == old(self).back,
                old(self).front == State::Body,
                p0 == bytes_of(old(self).path),
                0 <= off <= p0.len(),
                bytes_of(self.path) == p0.subrange(off, p0.len() as int),
                trim_front(p0) == off + trim_front(bytes_of(self.path)),
            decreases bytes_of(self.path).len(),
        {
            let ghost p = bytes_of(self.path);
            let n = byte_len(self.path);
            let (size, comp) = self.parse_next_component();
            proof {
                lemma_find_sep_from(p, 0);
            }
            if comp.is_some() {
                proof {
                    assert(trim_front(p) == 0);
                }
                return;
            }
            self.path = substr(self.path, size, n);
            proof {
                assert(trim_front(p) == size + trim_front(bytes_of(self.path)));
                off = off + size;
                assert(bytes_of(self.path) =~= p0.subrange(off, p0.len() as int));
            }
        }
        proof {
            assert(trim_front(bytes_of(self.path)) == 0);
        }
    }

    /// Trim away repeated separators (i.e. empty components) on the right
    #[verifier::rlimit(60)]
    fn trim_right(&mut self)
        requires
            old(self).wf(),
            old(self).back == State::Body,
            old(self).front != State::Done,
        ensures
            final(self).wf(),
            final(self).front == old(self).front,
            final(self).back == old(self).back,
            bytes_of(final(self).path) == bytes_of(old(self).path).subrange(
                0,
                trim_back(bytes_of(old(self).path), old(self).lbb()),
            ),
    {
        let ghost p0 = bytes_of(self.path);
        let ghost lo = self.lbb();
        let ghost first = *self;
        proof {
            assert(p0.subrange(0, p0.len() as int) =~= p0);
        }
        while byte_len(self.path) > self.len_before_body()
            invariant
                self.wf(),
                self.front == first.front,
                self.back == State::Body,
                self.root == first.root,
                self.root_len == first.root_len,
                self.lbb() == lo,
                first == *old(self),
                old(self).back == State::Body,
                p0 == bytes_of(old(self).path),
                lo <= bytes_of(self.path).len() <= p0.len(),
                bytes_of(self.path) == p0.subrange(0, bytes_of(self.path).len() as int),
                trim_back(p0, lo) == trim_back(bytes_of(self.path), lo),
            decreases bytes_of(self.path).len(),
        {
            let ghost prev = *self;
            let ghost p = bytes_of(self.path);
            let n = byte_len(self.path);
            let lbb = self.len_before_body();
            let (size, comp) = self.parse_next_component_back();
            proof {
                crate::path_model::lemma_rfind_sep_in(p, lbb as int, n as int);
            }
            let ghost i = rfind_sep_in(p, lbb as int, n as int);
            proof {
                lemma_trim_back_step(p, lbb as int);
            }
            if comp.is_some() {
                return;
            }
            proof {
                lemma_back_cut_ok(*self);
            }
            self.path = substr(self.path, 0, n - size);
            proof {
                lemma_shrink_back(prev, *self);
                let q = bytes_of(self.path);
                assert(q =~= p0.subrange(0, q.len() as int));
            }
        }
        proof {
            lemma_trim_back_short(bytes_of(self.path), lo);
        }
    }

    /// The text left for iteration, without the empty and `.` segments at the ends.
    pub fn remaining_text(&self) -> (r: &'a str)
        requires
            self.wf(),
        ensures
            bytes_of(r) == self.as_path_spec(),
    {
        let mut comps = *self;
        let ghost p = bytes_of(self.path);
        if comps.front == State::Body {
            comps.trim_left();
            proof {
                assert(comps.lbb() == 0);
            }
        }
        if comps.back == State::Body {
            if comps.front != State::Done {
                comps.trim_right();
            } else {
                proof {
                    let q = bytes_of(comps.path);
                    assert(comps.lbb() == 0);
                    lemma_trim_back_short(q, 0);
                }
            }
        }
        comps.path
    }
}

impl<'a> Components<'a> {
    /// The text of the path without its last component, when there is something before it and
    /// it is not a root.
    pub fn parent_text(self) -> (r: Option<&'a str>)
        requires
            self.wf(),
            self.from_start(),
        ensures
            r is Some <==> crate::path_model::parent_exists(self.rem()),
            r matches Some(t) ==> bytes_of(t).len() <= self.text().len(),
            r matches Some(t) ==> bytes_of(t) == self.text().subrange(0, bytes_of(t).len() as int),
            r matches Some(t) ==> bytes_of(t) == self.text().subrange(0, parent_len(self.text())),
            r matches Some(t) ==> path_components(bytes_of(t)) == self.rem().drop_last(),
    {
        let ghost p = bytes_of(self.path);
        let ghost c0 = self.rem();
        let ghost lbb = self.lbb();
        let mut c = self;
        let comp = c.next_back();
        match comp {
            Some(Component::Normal(_)) | Some(Component::ParentDir) | Some(Component::VFS(_)) | Some(
                Component::Wildcard(_),
            ) => {
                let t = c.remaining_text();
                proof {
                    let k = bytes_of(c.path).len();
                    let tt = bytes_of(c.path);
                    assert(c.front == State::Root);
                    assert(c.back == State::Body);
                    assert(lbb == body_start(p));
                    lemma_back_cut_ok(self);
                    lemma_trim_back_comps(tt, lbb);
                    let m = trim_back(tt, lbb);
                    assert(bytes_of(t) == tt.subrange(0, m));
                    assert(bytes_of(t) =~= p.subrange(0, m));
                    if m < k {
                        assert(tt[m] == p[m]);
                    }
                    if k < p.len() && m == k && m != lbb {
                        assert(is_sep_spec(p[m]));
                    }
                    assert(cut_ok(p, m));
                    crate::path_model::lemma_prefix_components(p, m);
                    assert(tt.subrange(lbb, m) =~= p.subrange(body_start(p), m));
                    assert(c.inc_cd() == has_cur_dir(p));
                    assert(tt.subrange(0, c.root_len as int) =~= p.subrange(0, root_cut_len(p)));
                    assert(path_components(bytes_of(t)) =~= c.rem());
                    if m == 0 {
                        crate::path_model::lemma_path_components_empty();
                        assert(bytes_of(t) =~= Seq::<u8>::empty());
                    } else {
                        if root_part(p).len() == 0 && !has_cur_dir(p) {
                            assert(m > lbb);
                            lemma_body_comps_last(p.subrange(0, m), 0);
                            crate::path_model::lemma_rfind_sep_in(p, lbb, m);
                            lemma_rfind_sep_in_prefix(p, m, 0, m);
                            let i = rfind_sep_in(p, 0, m);
                            if i >= 0 {
                                assert(p.subrange(0, m).subrange(i + 1, m) =~= p.subrange(i + 1, m));
                                assert(tt.subrange(i + 1, m) =~= p.subrange(i + 1, m));
                            } else {
                                assert(p.subrange(0, m).subrange(0, m) =~= p.subrange(0, m));
                                assert(tt.subrange(0, m) =~= p.subrange(0, m));
                            }
                            lemma_rfind_sep_in_prefix(p, k as int, 0, m);
                            assert(p.subrange(0, m).subrange(0, m) =~= p.subrange(0, m));
                            assert(body_comps(p.subrange(body_start(p), m)).len() > 0);
                        }
                        assert(c.rem().len() > 0);
                    }
                }
                if byte_len(t) == 0 {
                    None
                } else {
                    Some(t)
                }
            },
            _ => None,
        }
    }
}

impl<'a> Components<'a> {
    /// Where the body ends once its trailing empty and `.` segments are dropped.
    pub fn body_end(self) -> (r: usize)
        requires
            self.wf(),
            self.from_start(),
        ensures
            r == trim_back(self.text(), body_start(self.text())),
    {
        let mut c = self;
        proof {
            assert(self.lbb() == body_start(self.text()));
        }
        proof {
            lemma_trim_back_bounds(self.text(), body_start(self.text()));
            crate::path_model::lemma_root_cut_len(self.text());
        }
        c.trim_right();
        byte_len(c.path)
    }
}

} // verus!

verus! {

/// Skipping the empty and `.` segments at the front keeps the components of a body; what is
/// left, if anything, starts with a segment that is a component.
pub proof fn lemma_trim_front_comps(p: Seq<u8>)
    ensures
        0 <= trim_front(p) <= p.len(),
        body_comps(p) == body_comps(p.subrange(trim_front(p), p.len() as int)),
        trim_front(p) < p.len() ==> classify(
            crate::path_model::next_seg(p.subrange(trim_front(p), p.len() as int)).0,
        ) is Some,
    decreases p.len(),
{
    lemma_trim_front_bounds(p);
    if p.len() == 0 {
        assert(p.subrange(0, 0) =~= p);
    } else {
        lemma_find_sep_from(p, 0);
        let f = find_sep_from(p, 0);
        let size = if 0 <= f < p.len() {
            f + 1
        } else {
            p.len() as int
        };
        let seg = if 0 <= f < p.len() {
            p.subrange(0, f)
        } else {
            p
        };
        if classify(seg) is Some {
            assert(trim_front(p) == 0);
            assert(p.subrange(0, p.len() as int) =~= p);
        } else {
            let rest = p.subrange(size, p.len() as int);
            lemma_trim_front_comps(rest);
            assert(trim_front(p) == size + trim_front(rest));
            assert(p.subrange(trim_front(p), p.len() as int) =~= rest.subrange(
                trim_front(rest),
                rest.len() as int,
            ));
            if f < p.len() {
                assert(body_comps(p) == opt_seq(classify(seg)) + body_comps(rest));
                assert(body_comps(p) =~= body_comps(rest));
            } else {
                assert(rest =~= Seq::<u8>::empty());
                lemma_body_comps_empty();
                assert(body_comps(p) == opt_seq(classify(seg)));
            }
        }
    }
}

impl<'a> Components<'a> {
    /// Once iteration has started at the front, what is left reads back as the components
    /// that are left, unless it reads as rooted; it never starts with `.`.
    pub proof fn lemma_as_path_started(&self)
        requires
            self.wf(),
            self.back_open(),
            self.started(),
        ensures
            !has_cur_dir(self.as_path_spec()),
            spec_parse_root(self.as_path_spec()) is None ==> path_components(self.as_path_spec())
                == self.rem(),
            body_comps(self.as_path_spec()) == self.rem(),
            self.as_path_spec().len() > 0 ==> !is_sep_spec(self.as_path_spec()[0]),
    {
        let p = bytes_of(self.path);
        let t = self.as_path_spec();
        if self.front == State::Done {
            assert(p.len() == 0);
            lemma_trim_back_short(p, 0);
            assert(t =~= Seq::<u8>::empty());
            crate::path_model::lemma_path_components_empty();
            crate::path_model::lemma_body_comps_empty();
        } else {
            lemma_trim_front_comps(p);
            let p1 = p.subrange(trim_front(p), p.len() as int);
            lemma_trim_back_comps(p1, 0);
            let tb = trim_back(p1, 0);
            assert(t == p1.subrange(0, tb));
            assert(self.lbb() == 0);
            assert(p.subrange(0, p.len() as int) =~= p);
            assert(self.rem() =~= body_comps(p));
            assert(p1.subrange(0, p1.len() as int) =~= p1);
            assert(body_comps(p1) == body_comps(t));
            if t.len() > 0 && t[0] == 0x2e && (t.len() == 1 || is_sep_spec(t[1])) {
                assert(p1[0] == 0x2e);
                assert(trim_front(p) < p.len());
                if t.len() == 1 {
                    assert(tb == 1);
                    assert(p1.len() == 1 || is_sep_spec(p1[1]));
                } else {
                    assert(p1[1] == t[1]);
                }
                crate::path_model::lemma_find_sep_unique(p1, 0, 1);
                assert(p1.subrange(0, 1) =~= seq![0x2eu8]);
                assert(classify(crate::path_model::next_seg(p1).0) is None);
            }
            if t.len() > 0 {
                assert(t[0] == p1[0]);
                crate::path_model::lemma_find_sep_from(p1, 0);
                if is_sep_spec(p1[0]) {
                    crate::path_model::lemma_find_sep_unique(p1, 0, 0);
                    assert(p1.subrange(0, 0) =~= Seq::<u8>::empty());
                    assert(classify(crate::path_model::next_seg(p1).0) is None);
                }
            }
            if spec_parse_root(t) is None {
                lemma_root_cut_len(t);
                assert(t.subrange(0, t.len() as int) =~= t);
                assert(path_components(t) =~= body_comps(t));
            }
        }
    }

    /// Before iteration starts, what is left reads back as all the components of the path.
    pub proof fn lemma_as_path_fresh(&self)
        requires
            self.wf(),
            self.from_start(),
        ensures
            path_components(self.as_path_spec()) == self.rem(),
    {
        let p = bytes_of(self.path);
        let lo = self.lbb();
        lemma_root_cut_len(p);
        assert(lo == body_start(p));
        lemma_trim_back_comps(p, lo);
        let tb = trim_back(p, lo);
        assert(self.as_path_spec() == p.subrange(0, tb));
        if tb == lo && tb > self.root_len {
            assert(p[0] == 0x2e);
        }
        crate::path_model::lemma_prefix_components(p, tb);
        assert(p.subrange(body_start(p), p.len() as int) =~= p.subrange(lo, p.len() as int));
    }
}

} // verus!
